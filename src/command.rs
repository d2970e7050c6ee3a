use vstd::prelude::*;
use vstd::string::*;
use crate::utils::{
    CharClass, skip_ws, lemma_span_bound, ident_spec, lemma_ident_shrinks, tag_spec,
    extract_whitespace,
};

pub mod filename;
pub mod args;
pub mod pipe;

use filename::FileName;
use args::Args;
use pipe::Pipe;

verus! {

/// What an argument list holds: the positional words in order, and the last
/// input and output redirection targets.
pub struct ArgsModel {
    pub args: Seq<Seq<char>>,
    pub red_in: Option<Seq<char>>,
    pub red_out: Option<Seq<char>>,
}

/// One program invocation of a pipeline.
pub struct StageModel {
    pub filename: Seq<char>,
    pub args: Seq<Seq<char>>,
    pub red_in: Option<Seq<char>>,
    pub red_out: Option<Seq<char>>,
    pub background: bool,
}

pub open spec fn empty_args() -> ArgsModel {
    ArgsModel { args: Seq::empty(), red_in: None, red_out: None }
}

/// Parses an argument list from `s` on top of what `acc` already holds: words
/// are appended, a `<` or `>` clause replaces the target of its direction. Stops
/// at the end of the input or before a `|`.
pub open spec fn args_spec(s: Seq<char>, acc: ArgsModel) -> Result<
    (Seq<char>, ArgsModel),
    Seq<char>,
>
    decreases s.len(),
{
    let t = skip_ws(s);
    proof {
        lemma_span_bound(CharClass::Whitespace, s);
    }
    if t.len() == 0 || t[0] == '|' {
        Ok((t, acc))
    } else if t[0] == '<' || t[0] == '>' {
        let u = skip_ws(t.drop_first());
        proof {
            lemma_span_bound(CharClass::Whitespace, t.drop_first());
            lemma_ident_shrinks(u);
        }
        match ident_spec(u) {
            Ok((rest, target)) => if t[0] == '<' {
                args_spec(rest, ArgsModel { red_in: Some(target), ..acc })
            } else {
                args_spec(rest, ArgsModel { red_out: Some(target), ..acc })
            },
            Err(e) => Err(e),
        }
    } else {
        proof {
            lemma_ident_shrinks(t);
        }
        match ident_spec(t) {
            Ok((rest, word)) => args_spec(rest, ArgsModel { args: acc.args.push(word), ..acc }),
            Err(e) => Err(e),
        }
    }
}

/// What the argument list leaves is no longer than its input, and is empty or starts with `|`.
pub proof fn lemma_args_rest(s: Seq<char>, acc: ArgsModel)
    ensures
        args_spec(s, acc) is Ok ==> {
            let rest = args_spec(s, acc)->Ok_0.0;
            &&& rest.len() <= s.len()
            &&& (rest.len() == 0 || rest[0] == '|')
        },
    decreases s.len(),
{
    let t = skip_ws(s);
    lemma_span_bound(CharClass::Whitespace, s);
    if t.len() == 0 || t[0] == '|' {
    } else if t[0] == '<' || t[0] == '>' {
        let u = skip_ws(t.drop_first());
        lemma_span_bound(CharClass::Whitespace, t.drop_first());
        lemma_ident_shrinks(u);
        if let Ok((rest, target)) = ident_spec(u) {
            if t[0] == '<' {
                lemma_args_rest(rest, ArgsModel { red_in: Some(target), ..acc });
            } else {
                lemma_args_rest(rest, ArgsModel { red_out: Some(target), ..acc });
            }
        }
    } else {
        lemma_ident_shrinks(t);
        if let Ok((rest, word)) = ident_spec(t) {
            lemma_args_rest(rest, ArgsModel { args: acc.args.push(word), ..acc });
        }
    }
}

/// The stage for program `name` with arguments `a`: a last word `&` is taken
/// off and marks the stage as background; it then writes to `<name>-log` unless
/// an output target was given.
pub open spec fn finish_stage(name: Seq<char>, a: ArgsModel) -> StageModel {
    if a.args.len() > 0 && a.args.last() == "&"@ {
        StageModel {
            filename: name,
            args: a.args.drop_last(),
            red_in: a.red_in,
            red_out: if a.red_out is None {
                Some(name + "-log"@)
            } else {
                a.red_out
            },
            background: true,
        }
    } else {
        StageModel {
            filename: name,
            args: a.args,
            red_in: a.red_in,
            red_out: a.red_out,
            background: false,
        }
    }
}

/// Parses a command and the pipeline that follows it; gives the remainder and
/// the stages from left to right.
pub open spec fn command_spec(s: Seq<char>) -> Result<(Seq<char>, Seq<StageModel>), Seq<char>>
    decreases s.len(),
{
    proof {
        lemma_ident_shrinks(s);
    }
    match ident_spec(s) {
        Err(e) => Err(e),
        Ok((r1, name)) => {
            let r2 = skip_ws(r1);
            proof {
                lemma_span_bound(CharClass::Whitespace, r1);
                lemma_args_rest(r2, empty_args());
            }
            match args_spec(r2, empty_args()) {
                Err(e) => Err(e),
                Ok((r3, a)) => {
                    let r4 = skip_ws(r3);
                    proof {
                        lemma_span_bound(CharClass::Whitespace, r3);
                    }
                    if r4.len() == 0 {
                        Ok((r4, seq![finish_stage(name, a)]))
                    } else {
                        match pipe_spec(r4) {
                            Ok((rest, tail)) => Ok((rest, seq![finish_stage(name, a)] + tail)),
                            Err(e) => Err(e),
                        }
                    }
                },
            }
        },
    }
}

/// Parses `|`, then whitespace, then a command.
pub open spec fn pipe_spec(s: Seq<char>) -> Result<(Seq<char>, Seq<StageModel>), Seq<char>>
    decreases s.len(),
{
    proof {
        reveal_strlit("|");
    }
    match tag_spec("|"@, s) {
        Err(e) => Err(e),
        Ok(t) => {
            proof {
                lemma_span_bound(CharClass::Whitespace, t);
            }
            command_spec(skip_ws(t))
        },
    }
}

/// A command that parses consumes its whole input, and has at least one stage and
/// no more stages than characters.
pub proof fn lemma_command_consumes_all(s: Seq<char>)
    ensures
        command_spec(s) is Ok ==> {
            let (rest, stages) = command_spec(s)->Ok_0;
            &&& rest.len() == 0
            &&& 0 < stages.len() <= s.len()
        },
    decreases s.len(),
{
    lemma_ident_shrinks(s);
    if let Ok((r1, name)) = ident_spec(s) {
        let r2 = skip_ws(r1);
        lemma_span_bound(CharClass::Whitespace, r1);
        lemma_args_rest(r2, empty_args());
        if let Ok((r3, a)) = args_spec(r2, empty_args()) {
            let r4 = skip_ws(r3);
            lemma_span_bound(CharClass::Whitespace, r3);
            if r4.len() > 0 {
                reveal_strlit("|");
                assert(r4.take(1) =~= "|"@);
                let t = r4.skip(1);
                lemma_span_bound(CharClass::Whitespace, t);
                lemma_command_consumes_all(skip_ws(t));
            }
        }
    }
}

/// One stage of a pipeline, with the stage downstream of it, if any.
#[derive(Debug, PartialEq)]
pub struct Command {
    pub filename: FileName,
    pub args: Args,
    pub pipe: Option<Box<Pipe>>,
    pub background: bool,
}

impl Command {
    pub open spec fn stage(&self) -> StageModel {
        StageModel {
            filename: self.filename@,
            args: self.args.model().args,
            red_in: self.args.model().red_in,
            red_out: self.args.model().red_out,
            background: self.background,
        }
    }

    /// The stages of the pipeline that starts here, from left to right.
    pub open spec fn stages(&self) -> Seq<StageModel>
        decreases self,
    {
        match &self.pipe {
            Some(p) => seq![self.stage()] + p.0.stages(),
            None => seq![self.stage()],
        }
    }

    /// Parses a command, its arguments and the pipeline that follows it.
    pub fn new(s: &str) -> (r: Result<(&str, Command), String>)
        ensures
            match r {
                Ok((rest, c)) => command_spec(s@) == Ok::<(Seq<char>, Seq<StageModel>), Seq<char>>(
                    (rest@, c.stages()),
                ),
                Err(e) => command_spec(s@) == Err::<(Seq<char>, Seq<StageModel>), Seq<char>>(e@),
            },
        decreases s@.len(),
    {
        proof {
            lemma_ident_shrinks(s@);
        }
        let (s1, filename) = FileName::new(s)?;
        let (s2, _) = extract_whitespace(s1);
        proof {
            lemma_span_bound(CharClass::Whitespace, s1@);
            lemma_args_rest(s2@, empty_args());
        }
        let (s3, mut args) = Args::new(s2)?;
        let (s4, _) = extract_whitespace(s3);
        proof {
            lemma_span_bound(CharClass::Whitespace, s3@);
        }
        let (rest, pipe) = if s4.unicode_len() != 0 {
            let (rest, pipe) = Pipe::new(s4)?;
            (rest, Some(Box::new(pipe)))
        } else {
            (s4, None)
        };
        let ghost a = args.model();
        let mut background = false;
        let is_amp = match args.peek_last() {
            Some(arg) => arg.as_str().unicode_len() == 1 && arg.as_str().get_char(0) == '&',
            None => false,
        };
        proof {
            reveal_strlit("&");
            if args.arg_vec@.len() > 0 {
                assert(a.args.last() == args.arg_vec@.last()@);
                if is_amp {
                    assert(a.args.last() =~= "&"@);
                } else {
                    assert(a.args.last().len() != 1 || a.args.last()[0] != '&');
                }
            }
        }
        if is_amp {
            background = true;
            if args.red_out.is_none() {
                let name = filename.0.clone().concat("-log");
                args.red_out = Some(FileName(name));
            }
            args.pop_last();
            assert(args.arg_vec.deep_view() =~= a.args.drop_last());
        }
        let cmd = Command { filename, args, pipe, background };
        assert(cmd.stage() == finish_stage(filename@, a));
        Ok((rest, cmd))
    }
}

} // verus!
