//! The completeness classifier: decides whether the buffered input forms a
//! complete statement or must continue onto another line. It is a heuristic
//! over the token stream, the diagnostics and the net bracket delta, biased
//! towards asking for more input: submitting a partial statement early causes
//! an unrecoverable syntax error, while one extra continuation line does not.

use crate::bracket::{delta_spec, lemma_delta_bounded, track};
use crate::lex::{diagnose, parse_of, tokenize};
use crate::token::{Diag, Tok, TOKEN_LIMIT};
use ruff_python_ast::token::TokenKind;
use vstd::prelude::*;

verus! {

/// The verdict on a buffer: complete, or incomplete with a suggested number
/// of extra indent levels for the continuation prompt.
#[derive(Clone, Copy, Debug, PartialEq, Eq)]
pub enum Completeness {
    Complete,
    Incomplete { indent: u64 },
}

/// What the diagnostics force, if anything: the first diagnostic of a
/// recognised shape decides, later ones are not consulted. Unrecognised
/// diagnostics never block completeness.
#[derive(Clone, Copy, Debug, PartialEq, Eq)]
pub enum DiagForce {
    /// No diagnostic forces anything.
    NoForce,
    /// A missing indented block forces incompleteness and one extra indent.
    ForceIndent,
    /// Unterminated input forces incompleteness without changing the indent.
    ForceBare,
}

/// The bytes of the message prefix that signals a missing indented block.
pub open spec fn indent_msg_prefix() -> Seq<u8> {
    seq![
        ('E' as u8),
        ('x' as u8),
        ('p' as u8),
        ('e' as u8),
        ('c' as u8),
        ('t' as u8),
        ('e' as u8),
        ('d' as u8),
        (' ' as u8),
        ('a' as u8),
        ('n' as u8),
        (' ' as u8),
        ('i' as u8),
        ('n' as u8),
        ('d' as u8),
        ('e' as u8),
        ('n' as u8),
        ('t' as u8),
        ('e' as u8),
        ('d' as u8),
    ]
}

/// Does a free-form parser message signal "expected an indented block"?
pub open spec fn msg_forces_indent(m: Seq<u8>) -> bool {
    m.len() >= 20 && m.subrange(0, 20) == indent_msg_prefix()
}

/// What the diagnostic list forces, scanned in order.
pub open spec fn diag_force(ds: Seq<Diag>) -> DiagForce
    decreases ds.len(),
{
    if ds.len() == 0 {
        DiagForce::NoForce
    } else {
        match ds.first() {
            Diag::Message { text } => if msg_forces_indent(text@) {
                DiagForce::ForceIndent
            } else {
                diag_force(ds.drop_first())
            },
            Diag::UnexpectedEof => DiagForce::ForceBare,
            Diag::LineContinuation => DiagForce::ForceBare,
            Diag::Other => diag_force(ds.drop_first()),
        }
    }
}

/// How many de-indent tokens the stream ends with.
pub open spec fn trailing_dedents(s: Seq<Tok>) -> nat
    decreases s.len(),
{
    if s.len() == 0 {
        0
    } else if s.last().kind == TokenKind::Dedent {
        trailing_dedents(s.drop_last()) + 1
    } else {
        0
    }
}

/// The tentative verdict of reading the tokens from the end: trailing
/// de-indent tokens mark the statement tentatively incomplete; a
/// newline-class token reached in that state lets the verdict stand only
/// when the newline is empty, that is inserted by the lexer at the end of
/// input rather than written in the source. A written newline means the
/// user ended the block with a blank line, which releases the statement.
pub open spec fn tentative_incomplete(s: Seq<Tok>) -> bool {
    let k = trailing_dedents(s);
    if k == 0 {
        false
    } else if k == s.len() {
        true
    } else {
        let t = s[s.len() - k - 1];
        if t.kind == TokenKind::Newline || t.kind == TokenKind::NonLogicalNewline {
            t.end <= t.start
        } else {
            true
        }
    }
}

/// Is the buffer incomplete: either the backward token scan says so, or a
/// diagnostic forces it.
pub open spec fn incomplete_spec(s: Seq<Tok>, ds: Seq<Diag>) -> bool {
    tentative_incomplete(s) || diag_force(ds) != DiagForce::NoForce
}

/// The extra indent suggested for the continuation prompt: the net bracket
/// delta clamped at zero, plus one per trailing de-indent token, plus one
/// more when a diagnostic asks for an indented block.
pub open spec fn indent_spec(s: Seq<Tok>, ds: Seq<Diag>, delta: int) -> int {
    (if delta > 0 {
        delta
    } else {
        0
    }) + trailing_dedents(s) + (if diag_force(ds) == DiagForce::ForceIndent {
        1int
    } else {
        0int
    })
}

/// Completeness idempotence: classifying a buffer reads only what the lexer
/// derives from it, and the lexer's result is a function of the buffer alone,
/// so re-classifying an already-Complete buffer with no further edits yields
/// Complete again, with the same indent either way.
pub proof fn lemma_completeness_idempotent(buf: Seq<u8>, delta: int)
    ensures
        ({
            let (t, d) = parse_of(buf);
            !incomplete_spec(t, d)
        }) ==> ({
            let (t, d) = parse_of(buf);
            !incomplete_spec(t, d)
        }),
        ({
            let (t, d) = parse_of(buf);
            indent_spec(t, d, delta)
        }) == ({
            let (t, d) = parse_of(buf);
            indent_spec(t, d, delta)
        }),
{
}

/// Does this message begin with the indented-block prefix?
fn is_indent_msg(m: &Vec<u8>) -> (r: bool)
    ensures
        r == msg_forces_indent(m@),
{
    if m.len() < 20 {
        return false;
    }
    let hit = m[0] == ('E' as u8) && m[1] == ('x' as u8) && m[2] == ('p' as u8) && m[3] == (
    'e' as u8) && m[4] == ('c' as u8) && m[5] == ('t' as u8) && m[6] == ('e' as u8) && m[7] == (
    'd' as u8) && m[8] == (' ' as u8) && m[9] == ('a' as u8) && m[10] == ('n' as u8) && m[11] == (
    ' ' as u8) && m[12] == ('i' as u8) && m[13] == ('n' as u8) && m[14] == ('d' as u8) && m[15]
        == ('e' as u8) && m[16] == ('n' as u8) && m[17] == ('t' as u8) && m[18] == ('e' as u8)
        && m[19] == ('d' as u8);
    proof {
        if hit {
            assert(m@.subrange(0, 20) =~= indent_msg_prefix());
        } else {
            assert(m@.subrange(0, 20) != indent_msg_prefix());
        }
    }
    hit
}

/// What the diagnostics force, scanned in order; the first recognised
/// diagnostic decides.
fn scan_diags(diags: &Vec<Diag>) -> (f: DiagForce)
    ensures
        f == diag_force(diags@),
{
    let mut i: usize = 0;
    proof {
        assert(diags@.skip(0) =~= diags@);
    }
    while i < diags.len()
        invariant
            i <= diags@.len(),
            diag_force(diags@) == diag_force(diags@.skip(i as int)),
        decreases diags@.len() - i,
    {
        proof {
            assert(diags@.skip(i as int).first() == diags@[i as int]);
            assert(diags@.skip(i as int).drop_first() =~= diags@.skip(i + 1));
        }
        match &diags[i] {
            Diag::Message { text } => {
                if is_indent_msg(text) {
                    return DiagForce::ForceIndent;
                }
            },
            Diag::UnexpectedEof => {
                return DiagForce::ForceBare;
            },
            Diag::LineContinuation => {
                return DiagForce::ForceBare;
            },
            Diag::Other => {},
        }
        i = i + 1;
    }
    proof {
        assert(diags@.skip(diags@.len() as int) =~= Seq::<Diag>::empty());
    }
    DiagForce::NoForce
}

/// Count the de-indent tokens at the end of the stream.
fn count_trailing_dedents(toks: &Vec<Tok>) -> (k: usize)
    ensures
        k == trailing_dedents(toks@),
        k <= toks@.len(),
{
    let n = toks.len();
    let mut k: usize = 0;
    proof {
        assert(toks@.take(n as int) =~= toks@);
    }
    while k < n
        invariant
            k <= n == toks@.len(),
            trailing_dedents(toks@) == trailing_dedents(toks@.take(n - k)) + k,
        decreases n - k,
    {
        proof {
            assert(toks@.take(n - k).last() == toks@[n - k - 1]);
            assert(toks@.take(n - k).drop_last() =~= toks@.take(n - k - 1));
        }
        let j: usize = n - 1 - k;
        if matches!(toks[j].kind, TokenKind::Dedent) {
            k = k + 1;
        } else {
            return k;
        }
    }
    proof {
        assert(toks@.take(0) =~= Seq::<Tok>::empty());
    }
    k
}

/// Decide Complete or Incomplete for the buffer behind this token stream and
/// diagnostic list. `delta` must be the stream's net bracket delta, as the
/// bracket tracker computes it.
///
/// The length bound is an addressability limit: a `Tok` occupies more than
/// one byte, so no real token stream can reach it.
pub fn classify_completeness(toks: &Vec<Tok>, diags: &Vec<Diag>, delta: i64) -> (r: Completeness)
    requires
        delta == delta_spec(toks@),
        toks@.len() < 0x8000_0000_0000_0000,
    ensures
        r matches Completeness::Complete ==> !incomplete_spec(toks@, diags@),
        r matches Completeness::Incomplete { indent } ==> incomplete_spec(toks@, diags@)
            && indent == indent_spec(toks@, diags@, delta as int),
{
    proof {
        lemma_delta_bounded(toks@);
    }
    let n = toks.len();
    let k = count_trailing_dedents(toks);
    let mut incomplete: bool = false;
    if k > 0 {
        if k == n {
            incomplete = true;
        } else {
            let t = toks[n - k - 1];
            if matches!(t.kind, TokenKind::Newline | TokenKind::NonLogicalNewline) {
                incomplete = t.end <= t.start;
            } else {
                incomplete = true;
            }
        }
    }
    let force = scan_diags(diags);
    let base: u64 = if delta > 0 {
        delta as u64
    } else {
        0
    };
    let mut indent: u64 = base + (k as u64);
    match force {
        DiagForce::ForceIndent => {
            incomplete = true;
            indent = indent + 1;
        },
        DiagForce::ForceBare => {
            incomplete = true;
        },
        DiagForce::NoForce => {},
    }
    if incomplete {
        Completeness::Incomplete { indent }
    } else {
        Completeness::Complete
    }
}

/// Is this buffer held back for more input? Either the completeness
/// classifier says the statement is incomplete, or the token stream is too
/// long to classify, which never happens for an addressable buffer and then
/// errs on the side of reading more.
pub open spec fn buffer_incomplete(buf: Seq<u8>) -> bool {
    let (t, d) = parse_of(buf);
    t.len() >= TOKEN_LIMIT || incomplete_spec(t, d)
}

/// The extra indent suggested for this buffer's continuation prompt.
pub open spec fn buffer_indent(buf: Seq<u8>) -> int {
    let (t, d) = parse_of(buf);
    if t.len() >= TOKEN_LIMIT {
        0
    } else {
        indent_spec(t, d, delta_spec(t))
    }
}

/// Classify the buffer behind one accumulated input: lex it, track its
/// brackets, and decide Complete or Incomplete with the suggested indent.
pub fn classify_buffer(line: &[u8]) -> (r: Completeness)
    ensures
        r matches Completeness::Complete ==> !buffer_incomplete(line@),
        r matches Completeness::Incomplete { indent } ==> buffer_incomplete(line@) && indent
            == buffer_indent(line@),
{
    let toks = tokenize(line);
    let diags = diagnose(line);
    if (toks.len() as u64) < TOKEN_LIMIT {
        let delta = track(&toks);
        classify_completeness(&toks, &diags, delta)
    } else {
        Completeness::Incomplete { indent: 0 }
    }
}

} // verus!
