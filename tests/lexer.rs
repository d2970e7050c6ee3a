use crussh::utils::{extract_shell_ident, extract_whitespace, str_eq, tag, take_while, take_while1, CharClass};

#[test]
fn whitespace_is_split_off() {
    assert_eq!(extract_whitespace(" \n ab c"), ("ab c", " \n "));
    assert_eq!(extract_whitespace("ab"), ("ab", ""));
    assert_eq!(extract_whitespace(""), ("", ""));
}

#[test]
fn take_while_stops_at_first_rejected() {
    assert_eq!(take_while(CharClass::Bare, "abc<d"), ("<d", "abc"));
    assert_eq!(take_while(CharClass::NotQuote, "é x\"y"), ("\"y", "é x"));
}

#[test]
fn take_while1_refuses_an_empty_run() {
    assert_eq!(
        take_while1(CharClass::Bare, "|x", "none".to_string()),
        Err("none".to_string())
    );
    assert_eq!(take_while1(CharClass::Bare, "x|", "none".to_string()), Ok(("|", "x")));
}

#[test]
fn tag_consumes_its_text() {
    assert_eq!(tag("|", "| wc"), Ok(" wc"));
    assert_eq!(tag("ab", "abc"), Ok("c"));
    assert_eq!(tag("|", "wc"), Err("expected |".to_string()));
    assert_eq!(tag("abc", "ab"), Err("expected abc".to_string()));
}

#[test]
fn quoted_identifier_keeps_spaces() {
    assert_eq!(extract_shell_ident("\"hello world.c\""), Ok(("", "hello world.c")));
    assert_eq!(extract_shell_ident("\"a b\" rest"), Ok((" rest", "a b")));
}

#[test]
fn bare_identifier_stops_at_operators() {
    assert_eq!(extract_shell_ident("abc>out"), Ok((">out", "abc")));
    assert_eq!(extract_shell_ident("a|b"), Ok(("|b", "a")));
    assert_eq!(
        extract_shell_ident(" abc"),
        Err("expected at least one character".to_string())
    );
}

#[test]
fn strings_compare_by_characters() {
    assert!(str_eq("cd", "cd"));
    assert!(!str_eq("cd", "cdx"));
    assert!(!str_eq("ab", "ac"));
}
