//! Tokenizer behavior, bracketed tokens included.

use utpam::tokenize::{utpam_mkargv, utpam_tokenize};

fn all_tokens(line: &str) -> Vec<String> {
    let mut pos = 0usize;
    let mut out = Vec::new();
    while let Some(t) = utpam_tokenize(line, &mut pos) {
        out.push(t);
    }
    out
}

#[test]
fn test_utpam_tokenize() {
    // A bracketed token is taken whole, with the brackets stripped.
    let toks = all_tokens("a [b c] d");
    assert_eq!(toks, vec!["a".to_string(), "b c".to_string(), "d".to_string()]);
}

#[test]
fn test_tokenize_escaped_bracket() {
    // A backslash keeps the next character from closing the bracket; the
    // token is taken verbatim.
    let toks = all_tokens("[x\\]y] z");
    assert_eq!(toks, vec!["x\\]y".to_string(), "z".to_string()]);
}

#[test]
fn test_tokenize_unclosed_bracket_takes_rest() {
    let toks = all_tokens("a [b c");
    assert_eq!(toks, vec!["a".to_string(), "b c".to_string()]);
}

#[test]
fn test_tokenize_delimiters_only() {
    let mut pos = 0usize;
    assert!(utpam_tokenize(" \t \n ", &mut pos).is_none());
}

#[test]
fn test_utpam_mkargv() {
    let mut argv: Vec<String> = Vec::new();
    let mut argc: i32 = 0;
    let n = utpam_mkargv("one two [three four]", &mut argv, &mut argc);
    assert_eq!(n, 3);
    assert_eq!(argc, 3);
    assert_eq!(
        argv,
        vec!["one".to_string(), "two".to_string(), "three four".to_string()]
    );
}
