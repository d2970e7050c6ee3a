use vstd::prelude::*;
use vstd::string::*;
use crate::utils::{CharClass, lemma_span_bound, extract_whitespace, tag};
use crate::command::{Command, StageModel, pipe_spec};

verus! {

/// The link from one stage of a pipeline to the next.
#[derive(Debug, PartialEq)]
pub struct Pipe(pub Command);

impl Pipe {
    /// Parses `|`, whitespace and the command downstream of it.
    pub fn new(s: &str) -> (r: Result<(&str, Pipe), String>)
        ensures
            match r {
                Ok((rest, p)) => pipe_spec(s@) == Ok::<(Seq<char>, Seq<StageModel>), Seq<char>>(
                    (rest@, p.0.stages()),
                ),
                Err(e) => pipe_spec(s@) == Err::<(Seq<char>, Seq<StageModel>), Seq<char>>(e@),
            },
        decreases s@.len(),
    {
        proof {
            reveal_strlit("|");
        }
        let t = tag("|", s)?;
        let (t, _) = extract_whitespace(t);
        proof {
            lemma_span_bound(CharClass::Whitespace, s@.skip(1));
        }
        let (rest, command) = Command::new(t)?;
        Ok((rest, Pipe(command)))
    }
}

} // verus!
