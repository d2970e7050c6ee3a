use vstd::prelude::*;
use crate::command::{Command, StageModel};
use crate::command::filename::{FileName, target_of};

verus! {

/// One action of the shell that runs a pipeline, in the order it takes them.
#[derive(Clone, Copy, PartialEq, Eq, Structural, Debug)]
pub enum Step {
    /// Open a pipe for the stage about to be spawned to write into.
    OpenPipe,
    /// Fork the child of the given stage. The child reads from the shell's
    /// standard input (first stage) or from the read end of the pipe before it;
    /// while a pipe is open it writes into that pipe and closes both its ends;
    /// then it applies its own redirections and executes its program.
    Spawn(usize),
    /// Close the write end of the open pipe; its read end feeds the next stage.
    CloseWriteEnd,
    /// Reap the child of the given stage if it has already ended, without blocking.
    ReapNoHang(usize),
    /// Block until some child ends.
    WaitAny,
}

/// What the shell does to start stage `i`, which writes into a pipe when `piped`.
pub open spec fn launch_steps(piped: bool, i: int) -> Seq<Step> {
    if piped {
        seq![Step::OpenPipe, Step::Spawn(i as usize), Step::CloseWriteEnd]
    } else {
        seq![Step::Spawn(i as usize)]
    }
}

/// What the shell does after the stages downstream of stage `i` are done.
pub open spec fn reap_steps(background: bool, i: int) -> Seq<Step> {
    if background {
        seq![Step::ReapNoHang(i as usize), Step::WaitAny]
    } else {
        seq![Step::WaitAny]
    }
}

/// The actions that run the stages `st`, numbered from `base`: each stage is
/// started, then the stages after it are run, then the shell waits for it.
pub open spec fn plan_spec(st: Seq<StageModel>, base: int) -> Seq<Step>
    decreases st.len(),
{
    if st.len() == 0 {
        Seq::empty()
    } else {
        launch_steps(st.len() > 1, base) + plan_spec(st.drop_first(), base + 1) + reap_steps(
            st[0].background,
            base,
        )
    }
}

/// A stage ready to be run: the program and its arguments, and its redirection targets.
#[derive(Debug, PartialEq)]
pub struct Stage {
    pub argv: Vec<String>,
    pub red_in: Option<String>,
    pub red_out: Option<String>,
    pub background: bool,
}

impl Stage {
    /// `self` is the stage `m`, with the program name as the first word of `argv`.
    pub open spec fn matches(&self, m: StageModel) -> bool {
        &&& self.argv.deep_view() == seq![m.filename] + m.args
        &&& self.red_in.deep_view() == m.red_in
        &&& self.red_out.deep_view() == m.red_out
        &&& self.background == m.background
    }
}

fn target_string(f: &Option<FileName>) -> (r: Option<String>)
    ensures
        r.deep_view() == target_of(*f),
{
    match f {
        Some(name) => Some(name.0.clone()),
        None => None,
    }
}

impl Command {
    /// The argument vector of this stage: its program, then its positional words.
    pub fn argv(&self) -> (r: Vec<String>)
        ensures
            r.deep_view() == seq![self.filename@] + self.args.model().args,
    {
        let words = &self.args.arg_vec;
        let mut r: Vec<String> = Vec::new();
        r.push(self.filename.0.clone());
        let mut i: usize = 0;
        while i < words.len()
            invariant
                i <= words@.len(),
                r@.len() == i + 1,
                r.deep_view() == seq![self.filename@] + words.deep_view().take(i as int),
            decreases words@.len() - i,
        {
            let ghost before = r@;
            let ghost before_dv = r.deep_view();
            r.push(words[i].clone());
            assert(r@[i + 1] == words@[i as int]);
            assert forall|k: int| 0 <= k < i + 2 implies #[trigger] r.deep_view()[k] == (seq![
                self.filename@,
            ] + words.deep_view().take(i + 1))[k] by {
                if k < i + 1 {
                    assert(r@[k] == before[k]);
                    assert(before_dv[k] == before[k]@);
                }
            }
            assert(r.deep_view() =~= seq![self.filename@] + words.deep_view().take(i + 1));
            i = i + 1;
        }
        assert(words.deep_view().take(i as int) =~= words.deep_view());
        r
    }

    /// Appends the stages of the pipeline that starts here to `out`.
    pub fn collect_stages(&self, out: &mut Vec<Stage>)
        ensures
            final(out)@.len() == old(out)@.len() + self.stages().len(),
            forall|i: int| 0 <= i < old(out)@.len() ==> final(out)@[i] == old(out)@[i],
            forall|i: int|
                0 <= i < self.stages().len() ==> (#[trigger] final(out)@[old(out)@.len() + i]).matches(
                    self.stages()[i],
                ),
        decreases self,
    {
        let stage = Stage {
            argv: self.argv(),
            red_in: target_string(&self.args.red_in),
            red_out: target_string(&self.args.red_out),
            background: self.background,
        };
        out.push(stage);
        match &self.pipe {
            Some(p) => {
                let ghost mid = out@;
                p.0.collect_stages(out);
                assert forall|i: int| 0 <= i < self.stages().len() implies (#[trigger] out@[old(
                    out,
                )@.len() + i]).matches(self.stages()[i]) by {
                    if i > 0 {
                        assert(out@[old(out)@.len() + i] == out@[mid.len() + (i - 1)]);
                    }
                }
            },
            None => {},
        }
    }

    /// Appends the actions that run the pipeline starting here, as stage `i`, to `out`.
    pub fn plan_into(&self, i: usize, out: &mut Vec<Step>)
        requires
            i + self.stages().len() <= usize::MAX,
        ensures
            final(out)@ == old(out)@ + plan_spec(self.stages(), i as int),
        decreases self,
    {
        let piped = self.pipe.is_some();
        proof {
            match &self.pipe {
                Some(p) => {
                    assert(p.0.stages().len() > 0);
                },
                None => {},
            }
            assert(piped <==> self.stages().len() > 1);
        }
        if piped {
            out.push(Step::OpenPipe);
        }
        out.push(Step::Spawn(i));
        if piped {
            out.push(Step::CloseWriteEnd);
        }
        let ghost launched = out@;
        assert(launched =~= old(out)@ + launch_steps(self.stages().len() > 1, i as int));
        match &self.pipe {
            Some(p) => {
                assert(self.stages().drop_first() =~= p.0.stages());
                assert(p.0.stages().len() > 0);
                p.0.plan_into(i + 1, out);
            },
            None => {
                assert(self.stages().drop_first() =~= Seq::<StageModel>::empty());
            },
        }
        assert(out@ =~= launched + plan_spec(self.stages().drop_first(), i + 1));
        let ghost ran = out@;
        if self.background {
            out.push(Step::ReapNoHang(i));
        }
        out.push(Step::WaitAny);
        assert(self.stages()[0].background == self.background);
        assert(out@ =~= ran + reap_steps(self.background, i as int));
        assert(out@ =~= old(out)@ + plan_spec(self.stages(), i as int));
    }
}

} // verus!
