use vstd::prelude::*;
use vstd::string::*;
use crate::utils::{CharClass, lemma_span_bound, lemma_ident_shrinks, extract_whitespace, extract_shell_ident, tag};
use crate::command::{ArgsModel, args_spec, empty_args};
use crate::command::filename::{FileName, target_of};

verus! {

/// The positional words of a command, in order, and its redirection targets.
#[derive(Debug, PartialEq)]
pub struct Args {
    pub arg_vec: Vec<String>,
    pub red_in: Option<FileName>,
    pub red_out: Option<FileName>,
}

impl Args {
    pub open spec fn model(&self) -> ArgsModel {
        ArgsModel {
            args: self.arg_vec.deep_view(),
            red_in: target_of(self.red_in),
            red_out: target_of(self.red_out),
        }
    }

    /// Parses words and `<` / `>` clauses up to the end of `s` or a `|`.
    pub fn new(s: &str) -> (r: Result<(&str, Args), String>)
        ensures
            match r {
                Ok((rest, a)) => args_spec(s@, empty_args()) == Ok::<
                    (Seq<char>, ArgsModel),
                    Seq<char>,
                >((rest@, a.model())),
                Err(e) => args_spec(s@, empty_args()) == Err::<(Seq<char>, ArgsModel), Seq<char>>(
                    e@,
                ),
            },
    {
        let mut arg_vec: Vec<String> = Vec::new();
        let mut cur = s;
        let mut red_in: Option<FileName> = None;
        let mut red_out: Option<FileName> = None;
        
        proof {
            assert(arg_vec.deep_view() =~= Seq::<Seq<char>>::empty());
        }
        loop
            invariant
                args_spec(s@, empty_args()) == args_spec(
                    cur@,
                    (Args { arg_vec, red_in, red_out }).model(),
                ),
            decreases cur@.len(),
        {
            let ghost acc = (Args { arg_vec, red_in, red_out }).model();
            let (new_s, _) = extract_whitespace(cur);
            proof {
                lemma_span_bound(CharClass::Whitespace, cur@);
            }
            if new_s.unicode_len() == 0 {
                return Ok((new_s, Args { arg_vec, red_in, red_out }));
            }
            let c = new_s.get_char(0);
            if c == '|' {
                return Ok((new_s, Args { arg_vec, red_in, red_out }));
            } else if c == '<' || c == '>' {
                proof {
                    reveal_strlit("<");
                    reveal_strlit(">");
                }
                assert(new_s@.take(1) =~= seq![c]);
                assert("<"@ =~= seq!['<']);
                assert(">"@ =~= seq!['>']);
                let t = if c == '<' {
                    tag("<", new_s)?
                } else {
                    tag(">", new_s)?
                };
                assert(t@ =~= new_s@.drop_first());
                let (t, _) = extract_whitespace(t);
                proof {
                    lemma_span_bound(CharClass::Whitespace, new_s@.drop_first());
                    lemma_ident_shrinks(t@);
                }
                let (t, target) = FileName::new(t)?;
                if c == '<' {
                    red_in = Some(target);
                } else {
                    red_out = Some(target);
                }
                cur = t;
            } else {
                proof {
                    lemma_ident_shrinks(new_s@);
                }
                let (t, arg_str) = extract_shell_ident(new_s)?;
                arg_vec.push(arg_str.to_owned());
                assert(arg_vec.deep_view() =~= acc.args.push(arg_str@));
                cur = t;
            }
        }
    }

    /// The last positional word, if any.
    pub fn peek_last(&self) -> (r: Option<&String>)
        ensures
            self.arg_vec@.len() == 0 ==> r is None,
            self.arg_vec@.len() > 0 ==> r == Some(&self.arg_vec@.last()),
    {
        self.arg_vec.last()
    }

    /// Removes the last positional word, if any.
    pub fn pop_last(&mut self)
        ensures
            final(self).arg_vec@ == old(self).arg_vec@.drop_last() || (old(self).arg_vec@.len() == 0
                && final(self).arg_vec@.len() == 0),
            final(self).red_in == old(self).red_in,
            final(self).red_out == old(self).red_out,
    {
        self.arg_vec.pop();
    }

    pub fn as_vec(&self) -> (r: &Vec<String>)
        ensures
            r == &self.arg_vec,
    {
        &self.arg_vec
    }
}

} // verus!
