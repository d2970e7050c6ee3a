use vstd::prelude::*;
use vstd::string::*;
use crate::utils::{ident_spec, extract_shell_ident, lemma_ident_shrinks};

verus! {

/// A shell word naming a program or a redirection target; never empty.
#[derive(Debug, PartialEq)]
pub struct FileName(pub String);

impl View for FileName {
    type V = Seq<char>;

    open spec fn view(&self) -> Seq<char> {
        self.0@
    }
}

/// The characters of an optional target.
pub open spec fn target_of(f: Option<FileName>) -> Option<Seq<char>> {
    match f {
        Some(n) => Some(n@),
        None => None,
    }
}

impl FileName {
    pub open spec fn wf(&self) -> bool {
        self@.len() > 0
    }

    /// Parses a shell word off the start of `s`.
    pub fn new(s: &str) -> (r: Result<(&str, FileName), String>)
        ensures
            match r {
                Ok((rest, f)) => ident_spec(s@) == Ok::<(Seq<char>, Seq<char>), Seq<char>>(
                    (rest@, f@),
                ),
                Err(e) => ident_spec(s@) == Err::<(Seq<char>, Seq<char>), Seq<char>>(e@),
            },
            r is Ok ==> r->Ok_0.1.wf(),
    {
        proof {
            lemma_ident_shrinks(s@);
        }
        let (rest, filename) = extract_shell_ident(s)?;
        Ok((rest, FileName(filename.to_owned())))
    }

    pub fn as_str(&self) -> (r: &str)
        ensures
            r@ == self@,
    {
        self.0.as_str()
    }
}

} // verus!
