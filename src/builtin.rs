use vstd::prelude::*;
use vstd::string::*;
use crate::utils::str_eq;

verus! {

/// Part of the front end's interface; it has nothing to do.
pub fn exit() {
}

/// What a built-in command asks the shell to do.
#[derive(PartialEq, Eq, Debug)]
pub enum BuiltIn {
    /// Change the working directory to the given path, or to the home directory.
    ChangeDir(Option<String>),
    /// End the shell with the given status.
    Exit(i32),
}

/// The value of `s` read as a decimal `i32`, if it is one.
pub uninterp spec fn i32_of(s: Seq<char>) -> Option<i32>;

/// Relies on `str::parse::<i32>`: the value of a decimal integer that fits, `None`
/// otherwise; an empty string is never a number.
#[verifier::external_body]
fn parse_i32(s: &str) -> (r: Option<i32>)
    ensures
        r == i32_of(s@),
        s@.len() == 0 ==> r is None,
{
    s.parse::<i32>().ok()
}

pub open spec fn too_many_msg(name: Seq<char>) -> Seq<char> {
    "crussh: "@ + name + ": too many arguments"@
}

pub open spec fn not_numeric_msg(code: Seq<char>) -> Seq<char> {
    "crussh: exit: "@ + code + ": numeric argument required"@
}

/// What `cd` with arguments `args` asks for.
pub open spec fn change_dir_spec(args: Seq<Seq<char>>) -> Result<Option<Seq<char>>, Seq<char>> {
    if args.len() == 0 {
        Ok(None)
    } else if args.len() == 1 {
        Ok(Some(args[0]))
    } else {
        Err(too_many_msg("cd"@))
    }
}

/// What `exit` with arguments `args` asks for.
pub open spec fn terminate_spec(args: Seq<Seq<char>>) -> Result<i32, Seq<char>> {
    if args.len() == 0 {
        Ok(0)
    } else if args.len() == 1 {
        match i32_of(args[0]) {
            Some(code) => Ok(code),
            None => Err(not_numeric_msg(args[0])),
        }
    } else {
        Err(too_many_msg("exit"@))
    }
}

/// `r` is what `cd` with arguments `args` asks for.
pub open spec fn is_change_dir(r: Result<BuiltIn, String>, args: Seq<Seq<char>>) -> bool {
    match (r, change_dir_spec(args)) {
        (Ok(BuiltIn::ChangeDir(Some(p))), Ok(Some(q))) => p@ == q,
        (Ok(BuiltIn::ChangeDir(None)), Ok(None)) => true,
        (Err(e), Err(m)) => e@ == m,
        _ => false,
    }
}

/// `r` is what `exit` with arguments `args` asks for.
pub open spec fn is_terminate(r: Result<BuiltIn, String>, args: Seq<Seq<char>>) -> bool {
    match (r, terminate_spec(args)) {
        (Ok(BuiltIn::Exit(c)), Ok(d)) => c == d,
        (Err(e), Err(m)) => e@ == m,
        _ => false,
    }
}

/// The request of `cd`: no argument is the home directory, one is a path.
pub fn change_dir(args: &Vec<String>) -> (r: Result<BuiltIn, String>)
    ensures
        is_change_dir(r, args.deep_view()),
{
    if args.len() == 0 {
        Ok(BuiltIn::ChangeDir(None))
    } else if args.len() == 1 {
        Ok(BuiltIn::ChangeDir(Some(args[0].clone())))
    } else {
        Err(String::from_str("crussh: ").concat("cd").concat(": too many arguments"))
    }
}

/// The request of `exit`: no argument is status 0, one is the status to end with.
pub fn terminate(args: &Vec<String>) -> (r: Result<BuiltIn, String>)
    ensures
        is_terminate(r, args.deep_view()),
{
    if args.len() == 0 {
        Ok(BuiltIn::Exit(0))
    } else if args.len() == 1 {
        let code = args[0].as_str();
        match parse_i32(code) {
            Some(c) => Ok(BuiltIn::Exit(c)),
            None => Err(
                String::from_str("crussh: exit: ").concat(code).concat(": numeric argument required"),
            ),
        }
    } else {
        Err(String::from_str("crussh: ").concat("exit").concat(": too many arguments"))
    }
}

/// The built-in that a command line names, with what it asks for; `None` when
/// its program is not a built-in and is to be run.
pub fn check_built_ins(filename: &str, args: &Vec<String>) -> (r: Option<Result<BuiltIn, String>>)
    ensures
        filename@ == "cd"@ ==> r is Some && is_change_dir(r->Some_0, args.deep_view()),
        filename@ == "exit"@ ==> r is Some && is_terminate(r->Some_0, args.deep_view()),
        filename@ != "cd"@ && filename@ != "exit"@ ==> r is None,
{
    proof {
        reveal_strlit("cd");
        reveal_strlit("exit");
        assert("cd"@.len() != "exit"@.len());
    }
    if str_eq(filename, "cd") {
        Some(change_dir(args))
    } else if str_eq(filename, "exit") {
        Some(terminate(args))
    } else {
        None
    }
}

} // verus!
