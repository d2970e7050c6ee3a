use vstd::prelude::*;
use vstd::string::*;

pub mod utils;
pub mod command;
pub mod cmd;
pub mod plan;
pub mod laws;
pub mod builtin;

use plan::{Stage, Step, plan_spec};
use command::{StageModel, command_spec, lemma_command_consumes_all};

verus! {

/// The message of input left over after a complete command.
pub open spec fn unconsumed_msg() -> Seq<char> {
    "input was not fully consumed by parser"@
}

/// What `parse(s)` gives: the stages of the pipeline, or the error message.
pub open spec fn parse_spec(s: Seq<char>) -> Result<Seq<StageModel>, Seq<char>> {
    match command_spec(s) {
        Err(e) => Err(e),
        Ok((rest, stages)) => if rest.len() == 0 {
            Ok(stages)
        } else {
            Err(unconsumed_msg())
        },
    }
}

/// A parsed input line.
#[derive(Debug, PartialEq)]
pub struct Parse(pub cmd::Cmd);

impl Parse {
    /// The stages of the pipeline, from left to right.
    pub open spec fn stages(&self) -> Seq<StageModel> {
        self.0.stages()
    }

    /// The program of the first stage.
    pub fn get_filename(&self) -> (r: &str)
        ensures
            r@ == self.stages()[0].filename,
    {
        self.0.get_filename()
    }

    /// The positional arguments of the first stage.
    pub fn get_args(&self) -> (r: &Vec<String>)
        ensures
            r.deep_view() == self.stages()[0].args,
    {
        self.0.get_args()
    }

    /// The stages of the pipeline, ready to be run.
    pub fn pipeline(&self) -> (r: Vec<Stage>)
        ensures
            r@.len() == self.stages().len(),
            forall|i: int| 0 <= i < r@.len() ==> (#[trigger] r@[i]).matches(self.stages()[i]),
    {
        let mut r: Vec<Stage> = Vec::new();
        let cmd::Cmd::Command(command) = &self.0;
        command.collect_stages(&mut r);
        assert forall|i: int| 0 <= i < r@.len() implies (#[trigger] r@[i]).matches(
            self.stages()[i],
        ) by {
            assert(r@[0 + i] == r@[i]);
        }
        r
    }

    /// The actions that run the pipeline, in order.
    pub fn plan(&self) -> (r: Vec<Step>)
        requires
            self.stages().len() <= usize::MAX,
        ensures
            r@ == plan_spec(self.stages(), 0),
    {
        let mut r: Vec<Step> = Vec::new();
        let cmd::Cmd::Command(command) = &self.0;
        command.plan_into(0, &mut r);
        assert(r@ =~= plan_spec(self.stages(), 0));
        r
    }
}

/// A line is parsed to its end or not at all: a command that parses leaves
/// nothing over, so the only errors of `parse` are those of the command itself.
pub proof fn lemma_parse_consumes_all(s: Seq<char>)
    ensures
        command_spec(s) is Ok ==> command_spec(s)->Ok_0.0.len() == 0,
        parse_spec(s) is Ok <==> command_spec(s) is Ok,
        parse_spec(s) is Ok ==> parse_spec(s)->Ok_0 == command_spec(s)->Ok_0.1,
        command_spec(s) is Err ==> parse_spec(s) == Err::<Seq<StageModel>, Seq<char>>(
            command_spec(s)->Err_0,
        ),
{
    lemma_command_consumes_all(s);
}

/// Parses a whole input line.
pub fn parse(s: &str) -> (r: Result<Parse, String>)
    ensures
        match r {
            Ok(p) => parse_spec(s@) == Ok::<Seq<StageModel>, Seq<char>>(p.stages()),
            Err(e) => parse_spec(s@) == Err::<Seq<StageModel>, Seq<char>>(e@),
        },
        r is Ok ==> 0 < r->Ok_0.stages().len() <= usize::MAX,
{
    let len = s.unicode_len();
    proof {
        lemma_command_consumes_all(s@);
    }
    let (rest, stmt) = cmd::Cmd::new(s)?;
    if rest.unicode_len() == 0 {
        Ok(Parse(stmt))
    } else {
        Err(String::from_str("input was not fully consumed by parser"))
    }
}

} // verus!
