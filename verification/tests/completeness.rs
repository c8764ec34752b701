//! Tests for the completeness classifier: scenarios through the real lexer
//! and hand-built token and diagnostic lists.

use pyshell::bracket::track;
use pyshell::complete::{classify_buffer, classify_completeness, Completeness};
use pyshell::lex::{diagnose, tokenize};
use pyshell::token::{Diag, Tok};
use ruff_python_ast::token::TokenKind;

#[test]
fn simple_statement_is_complete() {
    assert_eq!(classify_buffer(b"1 + 1"), Completeness::Complete);
    assert_eq!(classify_buffer(b"x = [1, 2]"), Completeness::Complete);
    assert_eq!(classify_buffer(b""), Completeness::Complete);
}

#[test]
fn block_header_needs_one_indent() {
    // "if True:" asks for an indented block: one extra indent level.
    assert_eq!(classify_buffer(b"if True:"), Completeness::Incomplete { indent: 1 });
}

#[test]
fn unterminated_call_keeps_bracket_indent() {
    // "def f(x" ends inside the parentheses: the unterminated-construct
    // diagnostic forces incompleteness, and the indent stays at the net
    // bracket delta of one.
    assert_eq!(classify_buffer(b"def f(x"), Completeness::Incomplete { indent: 1 });
}

#[test]
fn open_brackets_count_toward_indent() {
    assert_eq!(classify_buffer(b"x = [([1,"), Completeness::Incomplete { indent: 3 });
}

#[test]
fn finished_block_is_complete() {
    assert_eq!(classify_buffer(b"if True:\n    x = 1\n"), Completeness::Complete);
}

#[test]
fn reclassifying_gives_the_same_verdict() {
    // Re-classifying an already-Complete buffer with no further edits
    // yields Complete again.
    let buf: &[u8] = b"x = 1";
    let first = classify_buffer(buf);
    assert_eq!(first, Completeness::Complete);
    assert_eq!(classify_buffer(buf), first);
}

#[test]
fn indent_block_message_forces_incomplete() {
    let toks: Vec<Tok> = Vec::new();
    let diags = vec![Diag::Message {
        text: b"Expected an indented block after `while` statement".to_vec(),
    }];
    assert_eq!(
        classify_completeness(&toks, &diags, 0),
        Completeness::Incomplete { indent: 1 }
    );
}

#[test]
fn other_messages_do_not_block() {
    let toks: Vec<Tok> = Vec::new();
    let diags = vec![
        Diag::Message { text: b"Simple statements must be separated".to_vec() },
        Diag::Other,
    ];
    assert_eq!(classify_completeness(&toks, &diags, 0), Completeness::Complete);
}

#[test]
fn unterminated_diagnostics_force_incomplete() {
    let toks: Vec<Tok> = Vec::new();
    assert_eq!(
        classify_completeness(&toks, &vec![Diag::UnexpectedEof], 0),
        Completeness::Incomplete { indent: 0 }
    );
    assert_eq!(
        classify_completeness(&toks, &vec![Diag::LineContinuation], 0),
        Completeness::Incomplete { indent: 0 }
    );
}

#[test]
fn trailing_dedents_tentatively_incomplete() {
    // A de-indent run behind the lexer's inserted (empty) newline keeps the
    // statement open and adds one indent level per de-indent.
    let toks = vec![
        Tok { kind: TokenKind::Name, start: 0, end: 4 },
        Tok { kind: TokenKind::Newline, start: 4, end: 4 },
        Tok { kind: TokenKind::Dedent, start: 4, end: 4 },
    ];
    let diags: Vec<Diag> = Vec::new();
    assert_eq!(
        classify_completeness(&toks, &diags, track(&toks)),
        Completeness::Incomplete { indent: 1 }
    );
}

#[test]
fn written_newline_releases_tentative_dedents() {
    // The same run behind a newline written in the source means the block
    // was ended with a blank line: the statement is complete.
    let toks = vec![
        Tok { kind: TokenKind::Name, start: 0, end: 4 },
        Tok { kind: TokenKind::Newline, start: 4, end: 5 },
        Tok { kind: TokenKind::Dedent, start: 5, end: 5 },
    ];
    let diags: Vec<Diag> = Vec::new();
    assert_eq!(classify_completeness(&toks, &diags, track(&toks)), Completeness::Complete);
}

#[test]
fn delta_clamped_at_zero() {
    // More closes than opens: the suggested indent never goes negative.
    let toks = tokenize(b"))");
    let diags = diagnose(b"))");
    match classify_completeness(&toks, &diags, track(&toks)) {
        Completeness::Incomplete { indent } => assert_eq!(indent, 0),
        Completeness::Complete => {},
    }
}

#[test]
fn trailing_line_continuation_is_incomplete() {
    // A trailing backslash asks for the next physical line.
    match classify_buffer(b"x = 1 + \\") {
        Completeness::Incomplete { indent } => assert_eq!(indent, 0),
        Completeness::Complete => panic!("a trailing continuation must not complete"),
    }
}
