use vstd::prelude::*;
use vstd::string::*;

verus! {

/// A class of characters that a run of input may be made of.
#[derive(Clone, Copy, PartialEq, Eq, Structural)]
pub enum CharClass {
    /// Space and newline.
    Whitespace,
    /// Anything but a double quote.
    NotQuote,
    /// Anything that may stand in an unquoted word: all but space, `<`, `>` and `|`.
    Bare,
}

impl CharClass {
    pub open spec fn spec_accepts(self, c: char) -> bool {
        match self {
            CharClass::Whitespace => c == ' ' || c == '\n',
            CharClass::NotQuote => c != '"',
            CharClass::Bare => c != ' ' && c != '<' && c != '>' && c != '|',
        }
    }

    #[verifier::when_used_as_spec(spec_accepts)]
    pub fn accepts(self, c: char) -> (r: bool)
        ensures
            r == self.spec_accepts(c),
    {
        match self {
            CharClass::Whitespace => c == ' ' || c == '\n',
            CharClass::NotQuote => c != '"',
            CharClass::Bare => c != ' ' && c != '<' && c != '>' && c != '|',
        }
    }
}

/// Length of the longest prefix of `s` whose characters all belong to `cls`.
pub open spec fn span(cls: CharClass, s: Seq<char>) -> nat
    decreases s.len(),
{
    if s.len() > 0 && cls.accepts(s[0]) {
        1 + span(cls, s.drop_first())
    } else {
        0
    }
}

/// `s` with its leading spaces and newlines removed.
pub open spec fn skip_ws(s: Seq<char>) -> Seq<char> {
    s.skip(span(CharClass::Whitespace, s) as int)
}

pub proof fn lemma_span_bound(cls: CharClass, s: Seq<char>)
    ensures
        span(cls, s) <= s.len(),
        forall|j: int| 0 <= j < span(cls, s) ==> cls.accepts(#[trigger] s[j]),
        span(cls, s) < s.len() ==> !cls.accepts(s[span(cls, s) as int]),
    decreases s.len(),
{
    if s.len() > 0 && cls.accepts(s[0]) {
        lemma_span_bound(cls, s.drop_first());
        assert forall|j: int| 0 <= j < span(cls, s) implies cls.accepts(#[trigger] s[j]) by {
            if j > 0 {
                assert(s[j] == s.drop_first()[j - 1]);
            }
        }
    }
}

/// A prefix of `n` accepted characters followed by the end or a rejected one has span `n`.
pub proof fn lemma_span_exact(cls: CharClass, s: Seq<char>, n: nat)
    requires
        n <= s.len(),
        forall|j: int| 0 <= j < n ==> cls.accepts(#[trigger] s[j]),
        n == s.len() || !cls.accepts(s[n as int]),
    ensures
        span(cls, s) == n,
    decreases n,
{
    if n > 0 {
        let t = s.drop_first();
        assert forall|j: int| 0 <= j < n - 1 implies cls.accepts(#[trigger] t[j]) by {
            assert(t[j] == s[j + 1]);
        }
        if n < s.len() {
            assert(t[n - 1] == s[n as int]);
        }
        lemma_span_exact(cls, t, (n - 1) as nat);
    }
}

/// Splits `s` after the longest prefix whose characters belong to `cls`;
/// returns the remainder and the prefix.
pub fn take_while(cls: CharClass, s: &str) -> (r: (&str, &str))
    ensures
        r.0@ == s@.skip(span(cls, s@) as int),
        r.1@ == s@.take(span(cls, s@) as int),
{
    let len = s.unicode_len();
    let mut i: usize = 0;
    while i < len && cls.accepts(s.get_char(i))
        invariant
            len == s@.len(),
            i <= len,
            forall|j: int| 0 <= j < i ==> cls.accepts(#[trigger] s@[j]),
        decreases len - i,
    {
        i = i + 1;
    }
    proof {
        lemma_span_exact(cls, s@, i as nat);
    }
    let extracted = s.substring_char(0, i);
    let remainder = s.substring_char(i, len);
    (remainder, extracted)
}

/// Splits off the leading spaces and newlines of `s`; returns the remainder and them.
pub fn extract_whitespace(s: &str) -> (r: (&str, &str))
    ensures
        r.0@ == skip_ws(s@),
        r.1@ == s@.take(span(CharClass::Whitespace, s@) as int),
{
    take_while(CharClass::Whitespace, s)
}

/// As `take_while`, but an empty prefix is an error that carries `error_msg`.
pub fn take_while1(cls: CharClass, s: &str, error_msg: String) -> (r: Result<(&str, &str), String>)
    ensures
        match r {
            Ok((rest, taken)) => span(cls, s@) > 0 && rest@ == s@.skip(span(cls, s@) as int)
                && taken@ == s@.take(span(cls, s@) as int),
            Err(e) => span(cls, s@) == 0 && e == error_msg,
        },
{
    let (remainder, extracted) = take_while(cls, s);
    proof {
        lemma_span_bound(cls, s@);
    }
    if extracted.is_empty() {
        Err(error_msg)
    } else {
        Ok((remainder, extracted))
    }
}

/// The message of a failed `tag`.
pub open spec fn expected_msg(text: Seq<char>) -> Seq<char> {
    "expected "@ + text
}

/// What `tag(text, s)` gives: the rest of `s` after `text`, or the error message.
pub open spec fn tag_spec(text: Seq<char>, s: Seq<char>) -> Result<Seq<char>, Seq<char>> {
    if text.len() <= s.len() && s.take(text.len() as int) == text {
        Ok(s.skip(text.len() as int))
    } else {
        Err(expected_msg(text))
    }
}

/// Consumes `starting_text` at the start of `s`.
pub fn tag<'a, 'b>(starting_text: &'a str, s: &'b str) -> (r: Result<&'b str, String>)
    ensures
        match r {
            Ok(rest) => tag_spec(starting_text@, s@) == Ok::<Seq<char>, Seq<char>>(rest@),
            Err(e) => tag_spec(starting_text@, s@) == Err::<Seq<char>, Seq<char>>(e@),
        },
{
    let n = starting_text.unicode_len();
    let len = s.unicode_len();
    let mut ok = n <= len;
    let mut i: usize = 0;
    while ok && i < n
        invariant
            n == starting_text@.len(),
            len == s@.len(),
            i <= n,
            ok ==> n <= len,
            ok ==> forall|j: int| 0 <= j < i ==> s@[j] == starting_text@[j],
            !ok ==> !(n <= len && s@.take(n as int) == starting_text@),
        decreases n - i + (if ok { 1int } else { 0int }),
    {
        if s.get_char(i) != starting_text.get_char(i) {
            ok = false;
            assert(s@.take(n as int)[i as int] == s@[i as int]);
        } else {
            i = i + 1;
        }
    }
    if ok {
        assert(s@.take(n as int) =~= starting_text@);
        Ok(s.substring_char(n, len))
    } else {
        let msg = String::from_str("expected ");
        Err(msg.concat(starting_text))
    }
}

/// Whether `a` and `b` hold the same characters.
pub fn str_eq(a: &str, b: &str) -> (r: bool)
    ensures
        r == (a@ == b@),
{
    let n = a.unicode_len();
    if n != b.unicode_len() {
        return false;
    }
    let mut i: usize = 0;
    while i < n
        invariant
            n == a@.len(),
            n == b@.len(),
            i <= n,
            forall|j: int| 0 <= j < i ==> a@[j] == b@[j],
        decreases n - i,
    {
        if a.get_char(i) != b.get_char(i) {
            return false;
        }
        i = i + 1;
    }
    assert(a@ =~= b@);
    true
}

/// The message of an identifier that would be empty.
pub open spec fn empty_ident_msg() -> Seq<char> {
    "expected at least one character"@
}

/// What `extract_shell_ident(s)` gives: the remainder and the identifier, or the
/// error message. A quoted identifier runs to the next double quote and may hold
/// any other character; a bare one runs to the first space, `<`, `>` or `|`.
pub open spec fn ident_spec(s: Seq<char>) -> Result<(Seq<char>, Seq<char>), Seq<char>> {
    if s.len() > 0 && s[0] == '"' {
        let t = s.drop_first();
        let q = span(CharClass::NotQuote, t);
        if q == 0 {
            Err(empty_ident_msg())
        } else {
            match tag_spec("\""@, t.skip(q as int)) {
                Ok(rest) => Ok((rest, t.take(q as int))),
                Err(e) => Err(e),
            }
        }
    } else {
        let n = span(CharClass::Bare, s);
        if n == 0 {
            Err(empty_ident_msg())
        } else {
            Ok((s.skip(n as int), s.take(n as int)))
        }
    }
}

/// A parsed identifier is not empty, and what is left is a strictly shorter tail of the input.
pub proof fn lemma_ident_shrinks(s: Seq<char>)
    ensures
        ident_spec(s) is Ok ==> {
            let (rest, id) = ident_spec(s)->Ok_0;
            &&& id.len() > 0
            &&& rest.len() < s.len()
            &&& rest == s.skip(s.len() - rest.len())
        },
{
    reveal_strlit("\"");
    lemma_span_bound(CharClass::Bare, s);
    if s.len() > 0 {
        let t = s.drop_first();
        lemma_span_bound(CharClass::NotQuote, t);
        let q = span(CharClass::NotQuote, t);
        if s[0] == '"' && q > 0 && ident_spec(s) is Ok {
            assert(t.skip(q as int).skip(1) =~= s.skip(q + 2int));
        }
    }
}

/// A word that stands unquoted: not empty, of characters allowed in a bare word,
/// and starting with neither a quote nor a newline.
pub open spec fn is_bare_word(w: Seq<char>) -> bool {
    &&& w.len() > 0
    &&& w[0] != '"'
    &&& w[0] != '\n'
    &&& forall|i: int| 0 <= i < w.len() ==> CharClass::Bare.accepts(#[trigger] w[i])
}

/// Whitespace `pre` before text that does not start with whitespace is skipped exactly.
pub proof fn lemma_skip_ws_exact(pre: Seq<char>, rest: Seq<char>)
    requires
        forall|i: int| 0 <= i < pre.len() ==> CharClass::Whitespace.accepts(#[trigger] pre[i]),
        rest.len() == 0 || !CharClass::Whitespace.accepts(rest[0]),
    ensures
        skip_ws(pre + rest) == rest,
{
    let s = pre + rest;
    assert forall|j: int| 0 <= j < pre.len() implies CharClass::Whitespace.accepts(#[trigger] s[j]) by {
        assert(s[j] == pre[j]);
    }
    if rest.len() > 0 {
        assert(s[pre.len() as int] == rest[0]);
    }
    lemma_span_exact(CharClass::Whitespace, s, pre.len());
    assert(s.skip(pre.len() as int) =~= rest);
}

/// A bare word followed by the end or by a character that ends a bare word is read whole.
pub proof fn lemma_bare_ident(w: Seq<char>, rest: Seq<char>)
    requires
        w.len() > 0,
        w[0] != '"',
        forall|i: int| 0 <= i < w.len() ==> CharClass::Bare.accepts(#[trigger] w[i]),
        rest.len() == 0 || !CharClass::Bare.accepts(rest[0]),
    ensures
        ident_spec(w + rest) == Ok::<(Seq<char>, Seq<char>), Seq<char>>((rest, w)),
{
    let s = w + rest;
    assert forall|j: int| 0 <= j < w.len() implies CharClass::Bare.accepts(#[trigger] s[j]) by {
        assert(s[j] == w[j]);
    }
    if rest.len() > 0 {
        assert(s[w.len() as int] == rest[0]);
    }
    assert(s[0] == w[0]);
    lemma_span_exact(CharClass::Bare, s, w.len());
    assert(s.skip(w.len() as int) =~= rest);
    assert(s.take(w.len() as int) =~= w);
}

/// A quoted identifier keeps every character between its quotes, spaces included,
/// and parsing goes on right after the closing quote.
pub proof fn lemma_quoted_ident(q: Seq<char>, rest: Seq<char>)
    requires
        q.len() > 0,
        forall|i: int| 0 <= i < q.len() ==> #[trigger] q[i] != '"',
    ensures
        ident_spec(seq!['"'] + q + seq!['"'] + rest) == Ok::<(Seq<char>, Seq<char>), Seq<char>>(
            (rest, q),
        ),
{
    reveal_strlit("\"");
    let s = seq!['"'] + q + seq!['"'] + rest;
    let t = s.drop_first();
    assert(t =~= q + seq!['"'] + rest);
    assert forall|j: int| 0 <= j < q.len() implies CharClass::NotQuote.accepts(#[trigger] t[j]) by {
        assert(t[j] == q[j]);
    }
    assert(t[q.len() as int] == '"');
    lemma_span_exact(CharClass::NotQuote, t, q.len());
    let u = t.skip(q.len() as int);
    assert(u =~= seq!['"'] + rest);
    assert(u.take(1) =~= "\""@);
    assert(u.skip(1) =~= rest);
    assert(t.take(q.len() as int) =~= q);
}

/// Splits a shell word off the start of `s`: a double-quoted run, or a bare run.
/// Returns the remainder and the word, without its quotes.
pub fn extract_shell_ident(s: &str) -> (r: Result<(&str, &str), String>)
    ensures
        match r {
            Ok((rest, id)) => ident_spec(s@) == Ok::<(Seq<char>, Seq<char>), Seq<char>>((rest@, id@)),
            Err(e) => ident_spec(s@) == Err::<(Seq<char>, Seq<char>), Seq<char>>(e@),
        },
{
    proof {
        reveal_strlit("\"");
    }
    let input_starts_with_quote = s.unicode_len() > 0 && s.get_char(0) == '"';
    if input_starts_with_quote {
        assert(s@.take(1) =~= "\""@);
        let t = tag("\"", s)?;
        assert(t@ =~= s@.drop_first());
        let (rest, id) = take_while1(
            CharClass::NotQuote,
            t,
            String::from_str("expected at least one character"),
        )?;
        let rest = tag("\"", rest)?;
        Ok((rest, id))
    } else {
        take_while1(
            CharClass::Bare,
            s,
            String::from_str("expected at least one character"),
        )
    }
}

} // verus!
