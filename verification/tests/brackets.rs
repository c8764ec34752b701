//! Tests for the bracket tracker: the net delta and the cursor focus pair.

use pyshell::bracket::{focus, track, FocusPair};
use pyshell::lex::tokenize;
use pyshell::token::Tok;
use ruff_python_ast::token::TokenKind;

#[test]
fn net_delta_balanced() {
    assert_eq!(track(&tokenize(b"f(a, b)")), 0);
    assert_eq!(track(&tokenize(b"x = [1, {2: (3,)}]")), 0);
    assert_eq!(track(&tokenize(b"")), 0);
}

#[test]
fn net_delta_unbalanced() {
    assert_eq!(track(&tokenize(b"def f(x")), 1);
    assert_eq!(track(&tokenize(b"((")), 2);
    assert_eq!(track(&tokenize(b"))")), -2);
    // One unmatched open and one unmatched close: the delta is their
    // difference, zero.
    assert_eq!(track(&tokenize(b")(")), 0);
}

#[test]
fn net_delta_hand_built() {
    let toks = vec![
        Tok { kind: TokenKind::Lpar, start: 0, end: 1 },
        Tok { kind: TokenKind::Lsqb, start: 1, end: 2 },
        Tok { kind: TokenKind::Rsqb, start: 2, end: 3 },
        Tok { kind: TokenKind::Name, start: 3, end: 4 },
    ];
    assert_eq!(track(&toks), 1);
}

#[test]
fn focus_inside_parentheses() {
    let toks = tokenize(b"f(a, b)");
    // Anywhere strictly inside the parentheses the pair resolves to the
    // bracket tokens at indices 1 and 5.
    for cursor in 2..=6usize {
        assert_eq!(
            focus(&toks, cursor),
            FocusPair { open_index: Some(1), close_index: Some(5) }
        );
    }
}

#[test]
fn focus_outside_parentheses() {
    let toks = tokenize(b"f(a, b)");
    assert_eq!(focus(&toks, 0), FocusPair { open_index: None, close_index: None });
    assert_eq!(focus(&toks, 7), FocusPair { open_index: None, close_index: None });
    assert_eq!(focus(&toks, 100), FocusPair { open_index: None, close_index: None });
}

#[test]
fn focus_nested_pairs() {
    // g([x], y) — cursor at the x picks the inner square pair.
    let toks = tokenize(b"g([x], y)");
    assert_eq!(
        focus(&toks, 3),
        FocusPair { open_index: Some(2), close_index: Some(4) }
    );
    // Cursor at the y sits only inside the outer parentheses.
    assert_eq!(
        focus(&toks, 7),
        FocusPair { open_index: Some(1), close_index: Some(7) }
    );
}

#[test]
fn focus_unmatched_open() {
    let toks = tokenize(b"f(x");
    let fp = focus(&toks, 2);
    assert_eq!(fp.open_index, Some(1));
    assert_eq!(fp.close_index, None);
}
