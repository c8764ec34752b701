//! The tokenizer adapter: the one place where the external lexer is called.
//!
//! The lexer must not fail on malformed input: it always terminates and
//! reports problems as diagnostics, so the wrappers below return a token
//! stream and a diagnostic list for every input.

use crate::token::{Diag, Tok};
use core::str::from_utf8;
use ruff_python_ast::token::TokenKind;
use ruff_python_parser::{parse_unchecked, LexicalErrorType, Mode, ParseErrorType, ParseOptions};
use vstd::prelude::*;

verus! {

#[verifier::external_type_specification]
pub struct ExTokenKind(TokenKind);

/// What the external parser produces for a given buffer: its token stream and
/// its diagnostics. The result depends on the buffer alone; a buffer that is
/// not UTF-8 stands for no tokens and no diagnostics.
pub uninterp spec fn parse_of(s: Seq<u8>) -> (Seq<Tok>, Seq<Diag>);

/// Relies on `ruff_python_parser::parse_unchecked`, which lexes any input
/// without failing. Token kinds and spans are copied out one for one.
#[verifier::external_body]
pub fn tokenize(line: &[u8]) -> (r: Vec<Tok>)
    ensures
        r@ == parse_of(line@).0,
{
    let text = match from_utf8(line) {
        Ok(t) => t,
        Err(_) => {
            return Vec::new();
        },
    };
    let parsed = parse_unchecked(text, ParseOptions::from(Mode::Module));
    parsed.tokens().iter().map(|t| {
        let (kind, range) = t.as_tuple();
        Tok { kind, start: range.start().to_u32(), end: range.end().to_u32() }
    }).collect()
}

/// Relies on `ruff_python_parser::parse_unchecked`, which reports problems in
/// malformed input as `ParseError` values instead of failing. Each error's
/// case is copied out; the text of a free-form message is kept.
#[verifier::external_body]
pub fn diagnose(line: &[u8]) -> (r: Vec<Diag>)
    ensures
        r@ == parse_of(line@).1,
{
    let text = match from_utf8(line) {
        Ok(t) => t,
        Err(_) => {
            return Vec::new();
        },
    };
    let parsed = parse_unchecked(text, ParseOptions::from(Mode::Module));
    parsed.errors().iter().map(|e| match &e.error {
        ParseErrorType::OtherError(m) => Diag::Message { text: m.clone().into_bytes() },
        ParseErrorType::Lexical(LexicalErrorType::Eof) => Diag::UnexpectedEof,
        ParseErrorType::Lexical(LexicalErrorType::LineContinuationError) => Diag::LineContinuation,
        _ => Diag::Other,
    }).collect()
}

} // verus!
