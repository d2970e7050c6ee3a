use vstd::prelude::*;
use crate::utils::{
    CharClass, skip_ws, lemma_span_bound, ident_spec, is_bare_word, lemma_skip_ws_exact, lemma_bare_ident,
};
use crate::command::{ArgsModel, StageModel, args_spec, command_spec, pipe_spec, empty_args, finish_stage};
use crate::parse_spec;

verus! {

/// The stage of a program run with no arguments and no redirections.
pub open spec fn plain_stage(w: Seq<char>) -> StageModel {
    StageModel {
        filename: w,
        args: Seq::empty(),
        red_in: None,
        red_out: None,
        background: false,
    }
}

proof fn lemma_no_ws(rest: Seq<char>)
    requires
        rest.len() == 0 || !CharClass::Whitespace.accepts(rest[0]),
    ensures
        skip_ws(rest) == rest,
{
    lemma_skip_ws_exact(Seq::empty(), rest);
    assert(Seq::<char>::empty() + rest =~= rest);
}

proof fn lemma_args_end(acc: ArgsModel)
    ensures
        args_spec(Seq::empty(), acc) == Ok::<(Seq<char>, ArgsModel), Seq<char>>(
            (Seq::empty(), acc),
        ),
{
    lemma_no_ws(Seq::empty());
}

/// A lone bare word is a command of one stage that runs that program with nothing else.
pub proof fn lemma_lone_word_command(w: Seq<char>)
    requires
        w.len() > 0,
        w[0] != '"',
        forall|i: int| 0 <= i < w.len() ==> CharClass::Bare.accepts(#[trigger] w[i]),
    ensures
        command_spec(w) == Ok::<(Seq<char>, Seq<StageModel>), Seq<char>>(
            (Seq::empty(), seq![plain_stage(w)]),
        ),
{
    lemma_bare_ident(w, Seq::empty());
    assert(w + Seq::<char>::empty() =~= w);
    lemma_no_ws(Seq::empty());
    lemma_args_end(empty_args());
    assert(finish_stage(w, empty_args()) == plain_stage(w));
}

/// A line that is one bare word parses to a single stage: that program, with no
/// arguments, no redirections, no pipeline and not in the background.
pub proof fn lemma_lone_word(w: Seq<char>)
    requires
        w.len() > 0,
        w[0] != '"',
        forall|i: int| 0 <= i < w.len() ==> CharClass::Bare.accepts(#[trigger] w[i]),
    ensures
        parse_spec(w) == Ok::<Seq<StageModel>, Seq<char>>(seq![plain_stage(w)]),
{
    lemma_lone_word_command(w);
}

/// `p a1 a2` parses to one stage of program `p` whose argument list holds `a1`
/// then `a2`, before the trailing `&` rule is applied.
pub proof fn lemma_words(p: Seq<char>, a1: Seq<char>, a2: Seq<char>)
    requires
        is_bare_word(p),
        is_bare_word(a1),
        is_bare_word(a2),
    ensures
        parse_spec(p + seq![' '] + a1 + seq![' '] + a2) == Ok::<Seq<StageModel>, Seq<char>>(
            seq![
                finish_stage(
                    p,
                    ArgsModel { args: seq![a1, a2], red_in: None, red_out: None },
                ),
            ],
        ),
{
    let text = p + seq![' '] + a1 + seq![' '] + a2;
    let r1 = seq![' '] + a1 + seq![' '] + a2;
    let r2 = a1 + seq![' '] + a2;
    let r3 = seq![' '] + a2;
    assert(text =~= p + r1);
    lemma_bare_ident(p, r1);
    assert(r1 =~= seq![' '] + r2);
    lemma_skip_ws_exact(seq![' '], r2);
    lemma_no_ws(r2);
    assert(r2[0] == a1[0]);
    assert(r2 =~= a1 + r3);
    lemma_bare_ident(a1, r3);
    let e1 = ArgsModel { args: seq![a1], red_in: None, red_out: None };
    assert(empty_args().args.push(a1) =~= seq![a1]);
    assert(args_spec(r2, empty_args()) == args_spec(r3, e1));
    lemma_skip_ws_exact(seq![' '], a2);
    lemma_bare_ident(a2, Seq::empty());
    assert(a2 + Seq::<char>::empty() =~= a2);
    let e2 = ArgsModel { args: seq![a1, a2], red_in: None, red_out: None };
    assert(e1.args.push(a2) =~= seq![a1, a2]);
    lemma_args_end(e2);
    assert(args_spec(r3, e1) == args_spec(Seq::empty(), e2));
    lemma_no_ws(Seq::empty());
}

/// `p a1 a2` gives the arguments `a1`, `a2` in that order when `a2` is not `&`.
pub proof fn lemma_two_args(p: Seq<char>, a1: Seq<char>, a2: Seq<char>)
    requires
        is_bare_word(p),
        is_bare_word(a1),
        is_bare_word(a2),
        a2 != "&"@,
    ensures
        parse_spec(p + seq![' '] + a1 + seq![' '] + a2) == Ok::<Seq<StageModel>, Seq<char>>(
            seq![
                StageModel {
                    filename: p,
                    args: seq![a1, a2],
                    red_in: None,
                    red_out: None,
                    background: false,
                },
            ],
        ),
{
    lemma_words(p, a1, a2);
}

/// `p a &` runs `p` with the argument `a` in the background, writing to `p-log`:
/// the trailing `&` is taken off the arguments.
pub proof fn lemma_trailing_ampersand(p: Seq<char>, a: Seq<char>)
    requires
        is_bare_word(p),
        is_bare_word(a),
    ensures
        parse_spec(p + seq![' '] + a + seq![' '] + "&"@) == Ok::<Seq<StageModel>, Seq<char>>(
            seq![
                StageModel {
                    filename: p,
                    args: seq![a],
                    red_in: None,
                    red_out: Some(p + "-log"@),
                    background: true,
                },
            ],
        ),
{
    reveal_strlit("&");
    assert("&"@ =~= seq!['&']);
    lemma_words(p, a, "&"@);
    assert(seq![a, "&"@].drop_last() =~= seq![a]);
}

proof fn lemma_args_skip_ws(x: Seq<char>, acc: ArgsModel)
    ensures
        args_spec(skip_ws(x), acc) == args_spec(x, acc),
{
    lemma_span_bound(CharClass::Whitespace, x);
    lemma_span_bound(CharClass::Whitespace, skip_ws(x));
    lemma_no_ws(skip_ws(x));
}

proof fn lemma_args_word(a: Seq<char>, rest: Seq<char>, acc: ArgsModel)
    requires
        is_bare_word(a),
        rest.len() == 0 || rest[0] == ' ',
    ensures
        args_spec(seq![' '] + a + rest, acc) == args_spec(
            rest,
            ArgsModel { args: acc.args.push(a), ..acc },
        ),
{
    assert(seq![' '] + a + rest =~= seq![' '] + (a + rest));
    lemma_skip_ws_exact(seq![' '], a + rest);
    assert((a + rest)[0] == a[0]);
    lemma_bare_ident(a, rest);
}

proof fn lemma_args_in(f: Seq<char>, rest: Seq<char>, acc: ArgsModel)
    requires
        is_bare_word(f),
        rest.len() == 0 || rest[0] == ' ',
    ensures
        args_spec(seq![' ', '<', ' '] + f + rest, acc) == args_spec(
            rest,
            ArgsModel { red_in: Some(f), ..acc },
        ),
{
    let t = seq!['<', ' '] + f + rest;
    assert(seq![' ', '<', ' '] + f + rest =~= seq![' '] + t);
    lemma_skip_ws_exact(seq![' '], t);
    assert(t.drop_first() =~= seq![' '] + (f + rest));
    lemma_skip_ws_exact(seq![' '], f + rest);
    assert((f + rest)[0] == f[0]);
    lemma_bare_ident(f, rest);
}

/// A bare program name followed by an argument list that reads to its end.
proof fn lemma_command_of_args(p: Seq<char>, rest: Seq<char>, a: ArgsModel)
    requires
        is_bare_word(p),
        rest.len() == 0 || rest[0] == ' ',
        args_spec(rest, empty_args()) == Ok::<(Seq<char>, ArgsModel), Seq<char>>(
            (Seq::empty(), a),
        ),
    ensures
        parse_spec(p + rest) == Ok::<Seq<StageModel>, Seq<char>>(seq![finish_stage(p, a)]),
{
    lemma_bare_ident(p, rest);
    lemma_args_skip_ws(rest, empty_args());
    lemma_no_ws(Seq::empty());
}

/// A `<` clause is taken out of the positional words wherever it stands:
/// `p < f a` and `p a < f` both run `p` with the argument `a` and input `f`.
pub proof fn lemma_redirect_anywhere(p: Seq<char>, f: Seq<char>, a: Seq<char>)
    requires
        is_bare_word(p),
        is_bare_word(f),
        is_bare_word(a),
        a != "&"@,
    ensures
        parse_spec(p + seq![' ', '<', ' '] + f + seq![' '] + a) == Ok::<
            Seq<StageModel>,
            Seq<char>,
        >(
            seq![
                StageModel {
                    filename: p,
                    args: seq![a],
                    red_in: Some(f),
                    red_out: None,
                    background: false,
                },
            ],
        ),
        parse_spec(p + seq![' '] + a + seq![' ', '<', ' '] + f) == parse_spec(
            p + seq![' ', '<', ' '] + f + seq![' '] + a,
        ),
{
    let e = empty_args();
    let fin = ArgsModel { args: seq![a], red_in: Some(f), red_out: None };
    assert(e.args.push(a) =~= seq![a]);
    // `p < f a`
    let r = seq![' ', '<', ' '] + f + (seq![' '] + a);
    lemma_args_in(f, seq![' '] + a, e);
    lemma_args_word(a, Seq::empty(), ArgsModel { red_in: Some(f), ..e });
    assert(seq![' '] + a + Seq::<char>::empty() =~= seq![' '] + a);
    lemma_args_end(fin);
    lemma_command_of_args(p, r, fin);
    assert(p + seq![' ', '<', ' '] + f + seq![' '] + a =~= p + r);
    // `p a < f`
    let q = seq![' '] + a + (seq![' ', '<', ' '] + f);
    lemma_args_word(a, seq![' ', '<', ' '] + f, e);
    lemma_args_in(f, Seq::empty(), ArgsModel { args: seq![a], ..e });
    assert(seq![' ', '<', ' '] + f + Seq::<char>::empty() =~= seq![' ', '<', ' '] + f);
    lemma_command_of_args(p, q, fin);
    assert(p + seq![' '] + a + seq![' ', '<', ' '] + f =~= p + q);
}

/// Of two `<` clauses the later one gives the input: `p < f < g` reads `g`.
pub proof fn lemma_last_redirect_wins(p: Seq<char>, f: Seq<char>, g: Seq<char>)
    requires
        is_bare_word(p),
        is_bare_word(f),
        is_bare_word(g),
    ensures
        parse_spec(p + seq![' ', '<', ' '] + f + seq![' ', '<', ' '] + g) == Ok::<
            Seq<StageModel>,
            Seq<char>,
        >(seq![StageModel { red_in: Some(g), ..plain_stage(p) }]),
{
    let e = empty_args();
    let fin = ArgsModel { args: Seq::empty(), red_in: Some(g), red_out: None };
    let r = seq![' ', '<', ' '] + f + (seq![' ', '<', ' '] + g);
    lemma_args_in(f, seq![' ', '<', ' '] + g, e);
    lemma_args_in(g, Seq::empty(), ArgsModel { red_in: Some(f), ..e });
    assert(seq![' ', '<', ' '] + g + Seq::<char>::empty() =~= seq![' ', '<', ' '] + g);
    lemma_args_end(fin);
    lemma_command_of_args(p, r, fin);
    assert(p + seq![' ', '<', ' '] + f + seq![' ', '<', ' '] + g =~= p + r);
}

/// A `<` with nothing after it is a parse error, never a default target.
pub proof fn lemma_dangling_redirect(p: Seq<char>)
    requires
        is_bare_word(p),
    ensures
        parse_spec(p + seq![' ', '<']) is Err,
{
    let r1 = seq![' ', '<'];
    lemma_bare_ident(p, r1);
    lemma_skip_ws_exact(seq![' '], seq!['<']);
    assert(r1 =~= seq![' '] + seq!['<']);
    lemma_no_ws(seq!['<']);
    assert(seq!['<'].drop_first() =~= Seq::<char>::empty());
    lemma_no_ws(Seq::empty());
    assert(ident_spec(Seq::empty()) is Err);
    assert(args_spec(seq!['<'], empty_args()) is Err);
}

/// A bare word, ` | ` and a command: the word is the first stage, and the stages
/// of the command follow it.
pub proof fn lemma_pipe_link(w: Seq<char>, rest: Seq<char>)
    requires
        is_bare_word(w),
        rest.len() == 0 || !CharClass::Whitespace.accepts(rest[0]),
    ensures
        command_spec(w + seq![' ', '|', ' '] + rest) == match command_spec(rest) {
            Ok((r, st)) => Ok::<(Seq<char>, Seq<StageModel>), Seq<char>>(
                (r, seq![plain_stage(w)] + st),
            ),
            Err(e) => Err(e),
        },
{
    reveal_strlit("|");
    let r1 = seq![' ', '|', ' '] + rest;
    let r2 = seq!['|', ' '] + rest;
    assert(r1 =~= seq![' '] + r2);
    assert(w + seq![' ', '|', ' '] + rest =~= w + r1);
    lemma_bare_ident(w, r1);
    lemma_skip_ws_exact(seq![' '], r2);
    lemma_no_ws(r2);
    assert(args_spec(r2, empty_args()) == Ok::<(Seq<char>, ArgsModel), Seq<char>>(
        (r2, empty_args()),
    ));
    assert(r2.take(1) =~= "|"@);
    assert(r2.skip(1) =~= seq![' '] + rest);
    lemma_skip_ws_exact(seq![' '], rest);
    assert(finish_stage(w, empty_args()) == plain_stage(w));
    assert(pipe_spec(r2) == command_spec(rest));
}

/// `a | b | c` splits into three stages from left to right: `a` feeds `b`, which
/// feeds `c`.
pub proof fn lemma_three_stage_pipe(a: Seq<char>, b: Seq<char>, c: Seq<char>)
    requires
        is_bare_word(a),
        is_bare_word(b),
        is_bare_word(c),
    ensures
        parse_spec(a + seq![' ', '|', ' '] + b + seq![' ', '|', ' '] + c) == Ok::<
            Seq<StageModel>,
            Seq<char>,
        >(seq![plain_stage(a), plain_stage(b), plain_stage(c)]),
{
    let tail = b + seq![' ', '|', ' '] + c;
    lemma_lone_word_command(c);
    lemma_pipe_link(b, c);
    assert(tail[0] == b[0]);
    lemma_pipe_link(a, tail);
    assert(a + seq![' ', '|', ' '] + b + seq![' ', '|', ' '] + c =~= a + seq![' ', '|', ' ']
        + tail);
    assert(seq![plain_stage(a)] + (seq![plain_stage(b)] + seq![plain_stage(c)]) =~= seq![
        plain_stage(a),
        plain_stage(b),
        plain_stage(c),
    ]);
}

} // verus!
