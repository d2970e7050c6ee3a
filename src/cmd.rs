use vstd::prelude::*;
use crate::command::{Command, StageModel, command_spec};

verus! {

/// A parsed statement.
#[derive(Debug, PartialEq)]
pub enum Cmd {
    Command(Command),
}

impl Cmd {
    pub open spec fn stages(&self) -> Seq<StageModel> {
        match self {
            Cmd::Command(c) => c.stages(),
        }
    }

    pub fn new(s: &str) -> (r: Result<(&str, Cmd), String>)
        ensures
            match r {
                Ok((rest, c)) => command_spec(s@) == Ok::<(Seq<char>, Seq<StageModel>), Seq<char>>(
                    (rest@, c.stages()),
                ),
                Err(e) => command_spec(s@) == Err::<(Seq<char>, Seq<StageModel>), Seq<char>>(e@),
            },
    {
        let (rest, command) = Command::new(s)?;
        Ok((rest, Cmd::Command(command)))
    }

    pub fn get_filename(&self) -> (r: &str)
        ensures
            r@ == self.stages()[0].filename,
    {
        let Cmd::Command(command) = self;
        command.filename.as_str()
    }

    pub fn get_args(&self) -> (r: &Vec<String>)
        ensures
            r.deep_view() == self.stages()[0].args,
    {
        let Cmd::Command(command) = self;
        command.args.as_vec()
    }
}

} // verus!
