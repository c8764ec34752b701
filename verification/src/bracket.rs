//! The bracket tracker: one left-to-right scan over the token stream,
//! computing the net open-minus-close delta and, for a cursor offset, the
//! innermost bracket pair enclosing it.

use crate::token::Tok;
use ruff_python_ast::token::TokenKind;
use vstd::prelude::*;

verus! {

/// Is this token an opening bracket: `(`, `[` or `{`?
pub open spec fn is_open(k: TokenKind) -> bool {
    k == TokenKind::Lpar || k == TokenKind::Lsqb || k == TokenKind::Lbrace
}

/// Is this token a closing bracket: `)`, `]` or `}`?
pub open spec fn is_close(k: TokenKind) -> bool {
    k == TokenKind::Rpar || k == TokenKind::Rsqb || k == TokenKind::Rbrace
}

/// The contribution of one token to the running bracket depth.
pub open spec fn tok_delta(k: TokenKind) -> int {
    if is_open(k) {
        1
    } else if is_close(k) {
        -1
    } else {
        0
    }
}

/// The net bracket delta of a token sequence: opens minus closes.
pub open spec fn delta_spec(s: Seq<Tok>) -> int
    decreases s.len(),
{
    if s.len() == 0 {
        0
    } else {
        delta_spec(s.drop_last()) + tok_delta(s.last().kind)
    }
}

/// Unmatched brackets of a token sequence: how many opens never see a close,
/// and how many closes never saw an open. A close is matched greedily against
/// the nearest open still unmatched; popping with nothing open counts the
/// close as unmatched.
pub open spec fn unmatched(s: Seq<Tok>) -> (nat, nat)
    decreases s.len(),
{
    if s.len() == 0 {
        (0nat, 0nat)
    } else {
        let (k, j) = unmatched(s.drop_last());
        let t = s.last().kind;
        if is_open(t) {
            ((k + 1) as nat, j)
        } else if is_close(t) {
            if k > 0 {
                ((k - 1) as nat, j)
            } else {
                (k, (j + 1) as nat)
            }
        } else {
            (k, j)
        }
    }
}

/// For a buffer with `k` unmatched opens and `j` unmatched closes, the net
/// bracket delta is exactly `k - j`.
pub proof fn lemma_delta_unmatched(s: Seq<Tok>)
    ensures
        delta_spec(s) == unmatched(s).0 - unmatched(s).1,
    decreases s.len(),
{
    if s.len() > 0 {
        lemma_delta_unmatched(s.drop_last());
    }
}

/// The net delta moves by at most one per token, so it is bounded by the
/// stream's length on both sides.
pub proof fn lemma_delta_bounded(s: Seq<Tok>)
    ensures
        -(s.len() as int) <= delta_spec(s) <= s.len() as int,
    decreases s.len(),
{
    if s.len() > 0 {
        lemma_delta_bounded(s.drop_last());
    }
}

/// Net open-minus-close bracket delta over the whole token stream.
///
/// The length bound is an addressability limit: a `Tok` occupies more than
/// one byte, so no real token stream can reach it.
pub fn track(toks: &Vec<Tok>) -> (d: i64)
    requires
        toks@.len() < 0x8000_0000_0000_0000,
    ensures
        d == delta_spec(toks@),
{
    let mut d: i64 = 0;
    let mut i: usize = 0;
    while i < toks.len()
        invariant
            i <= toks@.len() < 0x8000_0000_0000_0000,
            -(i as int) <= d <= i as int,
            d == delta_spec(toks@.take(i as int)),
        decreases toks@.len() - i,
    {
        proof {
            assert(toks@.take(i + 1).drop_last() =~= toks@.take(i as int));
            assert(toks@.take(i + 1).last() == toks@[i as int]);
        }
        match toks[i].kind {
            TokenKind::Lpar | TokenKind::Lsqb | TokenKind::Lbrace => {
                d = d + 1;
            },
            TokenKind::Rpar | TokenKind::Rsqb | TokenKind::Rbrace => {
                d = d - 1;
            },
            _ => {},
        }
        i = i + 1;
    }
    proof {
        assert(toks@.take(toks@.len() as int) =~= toks@);
    }
    d
}

/// The bracket pair (if any) enclosing the cursor offset at render time; both
/// ends are emphasised by the style classifier. An unmatched open that
/// encloses the cursor has no right end; if nothing encloses the cursor both
/// ends are absent.
#[derive(Clone, Copy, Debug, PartialEq, Eq)]
pub struct FocusPair {
    pub open_index: Option<usize>,
    pub close_index: Option<usize>,
}

impl View for FocusPair {
    type V = (Option<int>, Option<int>);

    open spec fn view(&self) -> (Option<int>, Option<int>) {
        (
            match self.open_index {
                Some(i) => Some(i as int),
                None => None,
            },
            match self.close_index {
                Some(i) => Some(i as int),
                None => None,
            },
        )
    }
}

/// After the scan ran out of tokens: the innermost open bracket still on the
/// stack whose span starts at or before the cursor is the left focus end; it
/// has no right end.
pub open spec fn end_focus(s: Seq<Tok>, cursor: int, stack: Seq<int>) -> (Option<int>, Option<
    int,
>)
    decreases stack.len(),
{
    if stack.len() == 0 {
        (None::<int>, None::<int>)
    } else if s[stack.last()].start <= cursor {
        (Some(stack.last()), None::<int>)
    } else {
        end_focus(s, cursor, stack.drop_last())
    }
}

/// One left-to-right scan with a stack of open-bracket token indices. The
/// first close bracket that completes a pair enclosing the cursor yields the
/// innermost enclosing pair, since inner pairs close before outer ones. A
/// pair encloses the cursor when its open starts at or before the cursor and
/// its close starts at or after it.
pub open spec fn focus_scan(s: Seq<Tok>, cursor: int, i: int, stack: Seq<int>) -> (Option<
    int,
>, Option<int>)
    decreases s.len() - i,
{
    if i < 0 || i >= s.len() {
        end_focus(s, cursor, stack)
    } else if is_open(s[i].kind) {
        focus_scan(s, cursor, i + 1, stack.push(i))
    } else if is_close(s[i].kind) {
        if stack.len() > 0 {
            if s[stack.last()].start <= cursor && cursor <= s[i].start {
                (Some(stack.last()), Some(i))
            } else {
                focus_scan(s, cursor, i + 1, stack.drop_last())
            }
        } else {
            focus_scan(s, cursor, i + 1, stack)
        }
    } else {
        focus_scan(s, cursor, i + 1, stack)
    }
}

/// The focus pair of the whole token stream for a cursor byte offset.
pub open spec fn focus_spec(s: Seq<Tok>, cursor: int) -> (Option<int>, Option<int>) {
    focus_scan(s, cursor, 0, Seq::empty())
}

/// The bracket pair enclosing the cursor, resolved by one scan over the
/// tokens with a stack of open-bracket indices.
pub fn focus(toks: &Vec<Tok>, cursor: usize) -> (fp: FocusPair)
    ensures
        fp@ == focus_spec(toks@, cursor as int),
{
    let ghost sview = toks@;
    let mut stack: Vec<usize> = Vec::new();
    let mut i: usize = 0;
    proof {
        assert(stack@.map_values(|x: usize| x as int) =~= Seq::<int>::empty());
    }
    while i < toks.len()
        invariant
            i <= sview.len(),
            sview == toks@,
            forall|m: int| 0 <= m < stack@.len() ==> stack@[m] < i,
            focus_spec(sview, cursor as int) == focus_scan(
                sview,
                cursor as int,
                i as int,
                stack@.map_values(|x: usize| x as int),
            ),
        decreases sview.len() - i,
    {
        let ghost gstack = stack@.map_values(|x: usize| x as int);
        let k = toks[i].kind;
        if matches!(k, TokenKind::Lpar | TokenKind::Lsqb | TokenKind::Lbrace) {
            stack.push(i);
            proof {
                assert(stack@.map_values(|x: usize| x as int) =~= gstack.push(i as int));
            }
        } else if matches!(k, TokenKind::Rpar | TokenKind::Rsqb | TokenKind::Rbrace) {
            if stack.len() > 0 {
                let o = stack[stack.len() - 1];
                if toks[o].start as usize <= cursor && cursor <= toks[i].start as usize {
                    proof {
                        assert(gstack.last() == o as int);
                    }
                    return FocusPair { open_index: Some(o), close_index: Some(i) };
                } else {
                    stack.pop();
                    proof {
                        assert(stack@.map_values(|x: usize| x as int) =~= gstack.drop_last());
                    }
                }
            }
        }
        i = i + 1;
    }
    while stack.len() > 0
        invariant
            sview == toks@,
            forall|m: int| 0 <= m < stack@.len() ==> stack@[m] < sview.len(),
            focus_spec(sview, cursor as int) == end_focus(
                sview,
                cursor as int,
                stack@.map_values(|x: usize| x as int),
            ),
        decreases stack@.len(),
    {
        let ghost gstack = stack@.map_values(|x: usize| x as int);
        let o = stack[stack.len() - 1];
        proof {
            assert(gstack.last() == o as int);
        }
        if toks[o].start as usize <= cursor {
            return FocusPair { open_index: Some(o), close_index: None };
        }
        stack.pop();
        proof {
            assert(stack@.map_values(|x: usize| x as int) =~= gstack.drop_last());
        }
    }
    FocusPair { open_index: None, close_index: None }
}

/// The token stream of the balanced buffer `f(a, b)`: a name, an opening
/// parenthesis, two names around a comma, the closing parenthesis, and the
/// lexer's inserted newline.
pub open spec fn call_buffer_tokens() -> Seq<Tok> {
    seq![
        (Tok { kind: TokenKind::Name, start: 0, end: 1 }),
        (Tok { kind: TokenKind::Lpar, start: 1, end: 2 }),
        (Tok { kind: TokenKind::Name, start: 2, end: 3 }),
        (Tok { kind: TokenKind::Comma, start: 3, end: 4 }),
        (Tok { kind: TokenKind::Name, start: 5, end: 6 }),
        (Tok { kind: TokenKind::Rpar, start: 6, end: 7 }),
        (Tok { kind: TokenKind::Newline, start: 7, end: 7 }),
    ]
}

/// Cursor-focus symmetry on the balanced buffer `f(a, b)`: with the cursor
/// anywhere strictly inside the parentheses (and exactly at either end) the
/// focus pair resolves to the indices of the `(` and `)` tokens; with the
/// cursor outside, no pair is focused.
pub proof fn lemma_focus_symmetry(cursor: int)
    ensures
        1 <= cursor <= 6 ==> focus_spec(call_buffer_tokens(), cursor) == (
            Some(1int),
            Some(5int),
        ),
        cursor < 1 || cursor > 6 ==> focus_spec(call_buffer_tokens(), cursor) == (
            None::<int>,
            None::<int>,
        ),
{
    let s = call_buffer_tokens();
    let empty = Seq::<int>::empty();
    let one = empty.push(1);
    assert(focus_scan(s, cursor, 0, empty) == focus_scan(s, cursor, 1, empty));
    assert(focus_scan(s, cursor, 1, empty) == focus_scan(s, cursor, 2, one));
    assert(focus_scan(s, cursor, 2, one) == focus_scan(s, cursor, 3, one));
    assert(focus_scan(s, cursor, 3, one) == focus_scan(s, cursor, 4, one));
    assert(focus_scan(s, cursor, 4, one) == focus_scan(s, cursor, 5, one));
    assert(one.last() == 1);
    if 1 <= cursor <= 6 {
        assert(s[1].start <= cursor && cursor <= s[5].start);
        assert(focus_scan(s, cursor, 5, one) == (Some(1int), Some(5int)));
    } else {
        assert(!(s[1].start <= cursor && cursor <= s[5].start));
        assert(one.drop_last() =~= empty);
        assert(focus_scan(s, cursor, 5, one) == focus_scan(s, cursor, 6, empty));
        assert(focus_scan(s, cursor, 6, empty) == focus_scan(s, cursor, 7, empty));
        assert(focus_scan(s, cursor, 7, empty) == end_focus(s, cursor, empty));
        assert(end_focus(s, cursor, empty) == (None::<int>, None::<int>));
    }
}

} // verus!
