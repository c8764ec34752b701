//! Tests for the style classifier: category assignment, bracket coloring,
//! the cursor-focus overlay, and exact buffer coverage.

use pyshell::bracket::track;
use pyshell::lex::tokenize;
use pyshell::style::{highlight_buffer, highlight_line, Style, StyleSpan};
use pyshell::token::Tok;
use ruff_python_ast::token::TokenKind;

fn joined(spans: &Vec<StyleSpan>) -> Vec<u8> {
    let mut out = Vec::new();
    for sp in spans {
        out.extend_from_slice(&sp.text);
    }
    out
}

fn styles_of_nonempty(spans: &Vec<StyleSpan>) -> Vec<(Style, Vec<u8>)> {
    let mut out = Vec::new();
    for sp in spans {
        if !sp.text.is_empty() {
            out.push((sp.style, sp.text.clone()));
        }
    }
    out
}

#[test]
fn coverage_round_trip() {
    let cases: &[&[u8]] = &[
        b"1 + 1",
        b"def foo(x):",
        b"x = [1, {2: (3,)}]",
        b")]}",
        b"",
        b"if True:",
        b"# only a comment",
        b"'text' + \"more\"",
    ];
    for line in cases {
        let spans = highlight_buffer(line, None);
        assert_eq!(joined(&spans), line.to_vec());
        let with_cursor = highlight_buffer(line, Some(2));
        assert_eq!(joined(&with_cursor), line.to_vec());
    }
}

#[test]
fn declaration_and_call_styles() {
    let line: &[u8] = b"def foo(x):";
    let spans = highlight_buffer(line, None);
    let pieces = styles_of_nonempty(&spans);
    assert_eq!(pieces[0], (Style::Keyword, b"def".to_vec()));
    // The gap before a token inherits the following token's style.
    assert_eq!(pieces[1], (Style::Function, b" ".to_vec()));
    assert_eq!(pieces[2], (Style::Function, b"foo".to_vec()));
    assert_eq!(pieces[3], (Style::Bracket(0), b"(".to_vec()));
    assert_eq!(pieces[4], (Style::Plain, b"x".to_vec()));
    assert_eq!(pieces[5], (Style::Bracket(0), b")".to_vec()));
    assert_eq!(pieces[6], (Style::Plain, b":".to_vec()));
}

#[test]
fn class_and_special_names() {
    let pieces = styles_of_nonempty(&highlight_buffer(b"class Foo: pass", None));
    assert_eq!(pieces[0], (Style::Keyword, b"class".to_vec()));
    assert_eq!(pieces[2], (Style::Class, b"Foo".to_vec()));

    let pieces = styles_of_nonempty(&highlight_buffer(b"self.x = MAX", None));
    assert_eq!(pieces[0], (Style::Special, b"self".to_vec()));
    assert!(pieces.iter().any(|p| *p == (Style::Special, b"MAX".to_vec())));

    // A name followed by an opening bracket is a call site.
    let pieces = styles_of_nonempty(&highlight_buffer(b"foo(1)", None));
    assert_eq!(pieces[0], (Style::Function, b"foo".to_vec()));
}

#[test]
fn literal_string_and_comment_styles() {
    let pieces = styles_of_nonempty(&highlight_buffer(b"1 + 'a' # note", None));
    assert!(pieces.contains(&(Style::Special, b"1".to_vec())));
    assert!(pieces.contains(&(Style::Keyword, b"+".to_vec())));
    assert!(pieces.contains(&(Style::Str, b"'a'".to_vec())));
    assert!(pieces.contains(&(Style::Comment, b"# note".to_vec())));
}

#[test]
fn bracket_depth_rotation() {
    // Balanced nesting rotates through the palette.
    let pieces = styles_of_nonempty(&highlight_buffer(b"([{0}])", None));
    assert_eq!(pieces[0], (Style::Bracket(0), b"(".to_vec()));
    assert_eq!(pieces[1], (Style::Bracket(1), b"[".to_vec()));
    assert_eq!(pieces[2], (Style::Bracket(2), b"{".to_vec()));
    // A close bracket is colored with the depth of the scope it closes.
    assert_eq!(pieces[4], (Style::Bracket(2), b"}".to_vec()));
    assert_eq!(pieces[5], (Style::Bracket(1), b"]".to_vec()));
    assert_eq!(pieces[6], (Style::Bracket(0), b")".to_vec()));
}

#[test]
fn unbalanced_brackets_get_invalid_style() {
    // While brackets are still being opened, depths inconsistent with the
    // net delta fall in the invalid bucket instead of a palette index.
    let pieces = styles_of_nonempty(&highlight_buffer(b"([{", None));
    assert_eq!(pieces[0], (Style::Invalid, b"(".to_vec()));
    assert_eq!(pieces[1], (Style::Invalid, b"[".to_vec()));
    assert_eq!(pieces[2], (Style::Bracket(2), b"{".to_vec()));

    // A close without an open has negative depth: invalid, never a panic.
    let pieces = styles_of_nonempty(&highlight_buffer(b")", None));
    assert_eq!(pieces[0], (Style::Invalid, b")".to_vec()));
}

#[test]
fn focus_overlay_marks_both_ends() {
    let line: &[u8] = b"f(a, b)";
    let spans = highlight_buffer(line, Some(3));
    let focused: Vec<Vec<u8>> = spans
        .iter()
        .filter(|sp| sp.focused)
        .map(|sp| sp.text.clone())
        .collect();
    assert_eq!(focused, vec![b"(".to_vec(), b")".to_vec()]);

    // Outside the parentheses nothing is emphasised.
    let spans = highlight_buffer(line, Some(0));
    assert!(spans.iter().all(|sp| !sp.focused));

    // Without a cursor nothing is emphasised either.
    let spans = highlight_buffer(line, None);
    assert!(spans.iter().all(|sp| !sp.focused));
}

#[test]
fn arbitrary_token_spans_still_cover() {
    // Spans that overlap, run backwards or run past the buffer are clamped;
    // the concatenation still reproduces the buffer exactly.
    let line: &[u8] = b"abcdef";
    let toks = vec![
        Tok { kind: TokenKind::Name, start: 2, end: 9 },
        Tok { kind: TokenKind::Name, start: 1, end: 3 },
        Tok { kind: TokenKind::Rpar, start: 5, end: 4 },
    ];
    let spans = highlight_line(line, &toks, track(&toks), None);
    assert_eq!(joined(&spans), line.to_vec());
}
