//! The data model shared by every classifier: tokens and diagnostics.

use ruff_python_ast::token::TokenKind;
use vstd::prelude::*;

verus! {

/// Token streams at least this long are never classified: no addressable
/// buffer can produce one, since a token occupies more than one byte.
pub const TOKEN_LIMIT: u64 = 0x8000_0000_0000_0000;

/// A lexical token: its kind and its half-open byte span in the buffer it was
/// lexed from.
#[derive(Clone, Copy, Debug, PartialEq, Eq)]
pub struct Tok {
    pub kind: TokenKind,
    pub start: u32,
    pub end: u32,
}

/// A parse diagnostic, digested to what the completeness classifier reads.
#[derive(Clone, Debug, PartialEq, Eq)]
pub enum Diag {
    /// A free-form parser message; the classifier inspects its text.
    Message { text: Vec<u8> },
    /// The input ended in the middle of a construct.
    UnexpectedEof,
    /// A line-continuation backslash was not followed by a valid line.
    LineContinuation,
    /// Any other diagnostic; never blocks completeness.
    Other,
}

} // verus!
