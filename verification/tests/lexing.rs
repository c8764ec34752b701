//! Tests for the tokenizer adapter: the token stream and the digested
//! diagnostics it hands to the classifiers.

use pyshell::lex::{diagnose, tokenize};
use pyshell::token::{Diag, Tok};
use ruff_python_ast::token::TokenKind;

#[test]
fn arithmetic_tokens() {
    let toks = tokenize(b"1 + 1");
    let kinds: Vec<TokenKind> = toks.iter().map(|t| t.kind).collect();
    assert_eq!(kinds[..3], [TokenKind::Int, TokenKind::Plus, TokenKind::Int]);
    // The structural tail: the newline the lexer inserts at end of input.
    assert_eq!(kinds[3..], [TokenKind::Newline]);
    assert_eq!(toks[0].start, 0);
    assert_eq!(toks[0].end, 1);
    assert_eq!(toks[1].start, 2);
    assert_eq!(toks[1].end, 3);
    assert_eq!(toks[2].start, 4);
    assert_eq!(toks[2].end, 5);
}

#[test]
fn call_tokens() {
    let toks = tokenize(b"f(a, b)");
    let expected = vec![
        Tok { kind: TokenKind::Name, start: 0, end: 1 },
        Tok { kind: TokenKind::Lpar, start: 1, end: 2 },
        Tok { kind: TokenKind::Name, start: 2, end: 3 },
        Tok { kind: TokenKind::Comma, start: 3, end: 4 },
        Tok { kind: TokenKind::Name, start: 5, end: 6 },
        Tok { kind: TokenKind::Rpar, start: 6, end: 7 },
        Tok { kind: TokenKind::Newline, start: 7, end: 7 },
    ];
    assert_eq!(toks, expected);
}

#[test]
fn clean_input_has_no_diagnostics() {
    assert!(diagnose(b"1 + 1").is_empty());
    assert!(diagnose(b"x = [1, 2]").is_empty());
}

#[test]
fn missing_block_diagnostic() {
    let diags = diagnose(b"if True:");
    assert!(!diags.is_empty());
    assert!(diags.iter().any(|d| match d {
        Diag::Message { text } => text.starts_with(b"Expected an indented"),
        _ => false,
    }));
}

#[test]
fn unterminated_construct_diagnostic() {
    let diags = diagnose(b"def f(x");
    assert!(diags.iter().any(|d| matches!(d, Diag::UnexpectedEof)));
}

#[test]
fn malformed_input_still_lexes() {
    // The adapter must not fail on malformed input: it still terminates and
    // reports the problem as diagnostics.
    let toks = tokenize(b")]}");
    assert!(!toks.is_empty());
    let _ = diagnose(b")]}");
}
