//! The style classifier: maps each token to a display style using its kind,
//! the previous token, a one-token lookahead, and the running bracket depth,
//! then covers the whole buffer with contiguous styled spans.

use crate::bracket::{delta_spec, focus_spec, is_close, is_open, lemma_delta_bounded, track, FocusPair};
use crate::lex::{parse_of, tokenize};
use crate::token::TOKEN_LIMIT;
use crate::token::Tok;
use ruff_python_ast::token::TokenKind;
use vstd::prelude::*;

verus! {

/// How many colors the bracket palette rotates through.
pub const PALETTE_SIZE: u64 = 3;

/// A display style category. The palette that maps a category to concrete
/// colors and attributes is supplied by the rendering surface; the classifier
/// only names the bucket.
#[derive(Clone, Copy, Debug, PartialEq, Eq)]
pub enum Style {
    /// The name declared by a function definition, or a call site.
    Function,
    /// The name declared by a class definition.
    Class,
    /// A special reference (`self`, `super`), an all-uppercase constant, or a
    /// literal of the numeric/boolean/none family.
    Special,
    /// A reserved keyword or operator keyword.
    Keyword,
    /// A string-literal family token.
    Str,
    /// A comment; rendered with an emphasis attribute.
    Comment,
    /// A plain identifier or light punctuation.
    Plain,
    /// `;`, `?` and `->`; rendered with an emphasis attribute.
    Symbol,
    /// A bracket at a consistent depth: the palette index is depth modulo the
    /// palette size.
    Bracket(u64),
    /// A bracket whose depth is negative or inconsistent with the buffer's
    /// net delta.
    Invalid,
    /// A structural token: indent, dedent, newline, end of input.
    Default,
}

/// The fixed per-category style of a token kind that needs neither context
/// nor depth: keywords and operator keywords, string-literal family, the
/// literal family, comments, light punctuation, and structural tokens.
pub open spec fn kind_style(k: TokenKind) -> Style {
    match k {
        TokenKind::From
        | TokenKind::Import
        | TokenKind::Def
        | TokenKind::Class
        | TokenKind::Equal
        | TokenKind::EqEqual
        | TokenKind::NotEqual
        | TokenKind::LessEqual
        | TokenKind::GreaterEqual
        | TokenKind::DoubleStarEqual
        | TokenKind::PlusEqual
        | TokenKind::MinusEqual
        | TokenKind::StarEqual
        | TokenKind::SlashEqual
        | TokenKind::PercentEqual
        | TokenKind::AmperEqual
        | TokenKind::VbarEqual
        | TokenKind::CircumflexEqual
        | TokenKind::LeftShiftEqual
        | TokenKind::RightShiftEqual
        | TokenKind::DoubleSlash
        | TokenKind::DoubleSlashEqual
        | TokenKind::ColonEqual
        | TokenKind::At
        | TokenKind::AtEqual
        | TokenKind::Elif
        | TokenKind::Else
        | TokenKind::For
        | TokenKind::If
        | TokenKind::In
        | TokenKind::Plus
        | TokenKind::Minus
        | TokenKind::Star
        | TokenKind::Slash
        | TokenKind::Vbar
        | TokenKind::Amper
        | TokenKind::Less
        | TokenKind::Greater
        | TokenKind::Percent
        | TokenKind::Tilde
        | TokenKind::CircumFlex
        | TokenKind::LeftShift
        | TokenKind::RightShift
        | TokenKind::Dot
        | TokenKind::DoubleStar
        | TokenKind::As
        | TokenKind::Assert
        | TokenKind::Async
        | TokenKind::Await
        | TokenKind::Break
        | TokenKind::Continue
        | TokenKind::Del
        | TokenKind::Except
        | TokenKind::Global
        | TokenKind::Is
        | TokenKind::Lambda
        | TokenKind::Finally
        | TokenKind::Nonlocal
        | TokenKind::Not
        | TokenKind::Pass
        | TokenKind::Raise
        | TokenKind::Return
        | TokenKind::Try
        | TokenKind::While
        | TokenKind::With
        | TokenKind::Yield
        | TokenKind::Case
        | TokenKind::Lazy
        | TokenKind::And
        | TokenKind::Or
        | TokenKind::Match => Style::Keyword,
        TokenKind::String
        | TokenKind::FStringStart
        | TokenKind::FStringMiddle
        | TokenKind::FStringEnd
        | TokenKind::TStringStart
        | TokenKind::TStringMiddle
        | TokenKind::TStringEnd => Style::Str,
        TokenKind::Int
        | TokenKind::Float
        | TokenKind::Complex
        | TokenKind::Ellipsis
        | TokenKind::True
        | TokenKind::False
        | TokenKind::None
        | TokenKind::Type => Style::Special,
        TokenKind::Comment => Style::Comment,
        TokenKind::Comma
        | TokenKind::Unknown
        | TokenKind::IpyEscapeCommand
        | TokenKind::Exclamation
        | TokenKind::Colon => Style::Plain,
        TokenKind::Indent
        | TokenKind::Dedent
        | TokenKind::Newline
        | TokenKind::NonLogicalNewline
        | TokenKind::EndOfFile => Style::Default,
        TokenKind::Semi | TokenKind::Question | TokenKind::Rarrow => Style::Symbol,
        _ => Style::Plain,
    }
}

/// The byte text of a token, empty when its span does not address the buffer.
pub open spec fn term_of(line: Seq<u8>, t: Tok) -> Seq<u8> {
    if t.start <= t.end && t.end <= line.len() {
        line.subrange(t.start as int, t.end as int)
    } else {
        Seq::empty()
    }
}

/// The bytes of the reserved reference `self`.
pub open spec fn self_kw() -> Seq<u8> {
    seq![('s' as u8), ('e' as u8), ('l' as u8), ('f' as u8)]
}

/// The bytes of the reserved reference `super`.
pub open spec fn super_kw() -> Seq<u8> {
    seq![('s' as u8), ('u' as u8), ('p' as u8), ('e' as u8), ('r' as u8)]
}

/// Does every byte of the text lie in `A`..=`Z`?
pub open spec fn all_upper(s: Seq<u8>) -> bool {
    forall|j: int| 0 <= j < s.len() ==> ('A' as u8) <= #[trigger] s[j] <= ('Z' as u8)
}

/// The kind of the token before index `i`; an identifier stands in for the
/// missing predecessor of the first token.
pub open spec fn prev_kind(s: Seq<Tok>, i: int) -> TokenKind {
    if i <= 0 {
        TokenKind::Name
    } else {
        s[i - 1].kind
    }
}

/// The bracket depth just before token `i`: the net delta of the tokens
/// before it.
pub open spec fn depth_at(s: Seq<Tok>, i: int) -> int {
    delta_spec(s.take(i))
}

/// The style of an identifier: a declaration name after `def` or `class`, a
/// special reference, an all-uppercase constant, a call site when an opening
/// bracket follows, or a plain name.
pub open spec fn name_style(line: Seq<u8>, s: Seq<Tok>, i: int) -> Style {
    let pk = prev_kind(s, i);
    if pk == TokenKind::Def {
        Style::Function
    } else if pk == TokenKind::Class {
        Style::Class
    } else {
        let term = term_of(line, s[i]);
        if term == self_kw() || term == super_kw() {
            Style::Special
        } else if all_upper(term) {
            Style::Special
        } else if i + 1 < s.len() && is_open(s[i + 1].kind) {
            Style::Function
        } else {
            Style::Plain
        }
    }
}

/// The style of an opening bracket at the given depth: a palette color when
/// the depth is consistent with the buffer's net delta, the invalid bucket
/// otherwise. A negative depth is clamped to the invalid bucket, never used
/// as a palette index.
pub open spec fn open_style(delta: int, depth: int) -> Style {
    if delta <= depth + 1 {
        if depth >= 0 {
            Style::Bracket((depth % (PALETTE_SIZE as int)) as u64)
        } else {
            Style::Invalid
        }
    } else {
        Style::Invalid
    }
}

/// The style of a closing bracket: colored with the depth of the scope it
/// closes, that is the running depth after this token's decrement; below
/// zero it falls in the invalid bucket.
pub open spec fn close_style(depth: int) -> Style {
    if depth - 1 >= 0 {
        Style::Bracket(((depth - 1) % (PALETTE_SIZE as int)) as u64)
    } else {
        Style::Invalid
    }
}

/// However negative or large the running depth becomes, a bracket's style
/// is either a palette index below the palette size or the invalid bucket:
/// no palette lookup can ever reach out of range.
pub proof fn lemma_palette_index_in_range(delta: int, depth: int)
    ensures
        (open_style(delta, depth) matches Style::Bracket(i) ==> i < PALETTE_SIZE),
        (close_style(depth) matches Style::Bracket(i) ==> i < PALETTE_SIZE),
{
}

/// The base style of token `i`, before the cursor-focus overlay.
pub open spec fn token_style(line: Seq<u8>, s: Seq<Tok>, delta: int, i: int) -> Style {
    let k = s[i].kind;
    if k == TokenKind::Name {
        name_style(line, s, i)
    } else if is_open(k) {
        open_style(delta, depth_at(s, i))
    } else if is_close(k) {
        close_style(depth_at(s, i))
    } else {
        kind_style(k)
    }
}

/// Does the token's text read `self` or `super`?
fn term_matches_special(line: &[u8], t: Tok) -> (r: bool)
    ensures
        r == (term_of(line@, t) == self_kw() || term_of(line@, t) == super_kw()),
{
    proof {
        assert(self_kw().len() == 4);
        assert(super_kw().len() == 5);
    }
    if !(t.start <= t.end && (t.end as usize) <= line.len()) {
        proof {
            assert(term_of(line@, t) =~= Seq::<u8>::empty());
        }
        return false;
    }
    let s = t.start as usize;
    let e = t.end as usize;
    proof {
        assert(term_of(line@, t) =~= line@.subrange(s as int, e as int));
    }
    if e - s == 4 {
        let hit = line[s] == ('s' as u8) && line[s + 1] == ('e' as u8) && line[s + 2] == (
        'l' as u8) && line[s + 3] == ('f' as u8);
        proof {
            if hit {
                assert(term_of(line@, t) =~= self_kw());
            } else {
                assert(term_of(line@, t) != self_kw());
                assert(term_of(line@, t).len() != super_kw().len());
            }
        }
        hit
    } else if e - s == 5 {
        let hit = line[s] == ('s' as u8) && line[s + 1] == ('u' as u8) && line[s + 2] == (
        'p' as u8) && line[s + 3] == ('e' as u8) && line[s + 4] == ('r' as u8);
        proof {
            if hit {
                assert(term_of(line@, t) =~= super_kw());
            } else {
                assert(term_of(line@, t) != super_kw());
                assert(term_of(line@, t).len() != self_kw().len());
            }
        }
        hit
    } else {
        proof {
            assert(term_of(line@, t).len() != self_kw().len());
            assert(term_of(line@, t).len() != super_kw().len());
        }
        false
    }
}

/// Is every byte of the token's text an uppercase ASCII letter?
fn term_all_upper(line: &[u8], t: Tok) -> (r: bool)
    ensures
        r == all_upper(term_of(line@, t)),
{
    if !(t.start <= t.end && (t.end as usize) <= line.len()) {
        proof {
            assert(term_of(line@, t) =~= Seq::<u8>::empty());
        }
        return true;
    }
    let s = t.start as usize;
    let e = t.end as usize;
    let ghost term = term_of(line@, t);
    proof {
        assert(term =~= line@.subrange(s as int, e as int));
    }
    let mut j: usize = s;
    while j < e
        invariant
            s <= j <= e <= line@.len(),
            term == line@.subrange(s as int, e as int),
            term == term_of(line@, t),
            forall|m: int| s <= m < j ==> ('A' as u8) <= #[trigger] line@[m] <= ('Z' as u8),
        decreases e - j,
    {
        let c = line[j];
        if !(('A' as u8) <= c && c <= ('Z' as u8)) {
            proof {
                assert(term[j - s] == line@[j as int]);
                assert(!(('A' as u8) <= term[j - s] <= ('Z' as u8)));
                assert(!all_upper(term));
            }
            return false;
        }
        j = j + 1;
    }
    proof {
        assert forall|p: int| 0 <= p < term.len() implies ('A' as u8) <= #[trigger] term[p] <= (
        'Z' as u8) by {
            assert(term[p] == line@[s + p]);
        }
    }
    true
}

/// The base style of token `i`, computed from its kind, its neighbours, its
/// text, and the running depth.
pub fn style_of(line: &[u8], toks: &Vec<Tok>, delta: i64, i: usize, depth: i64) -> (st: Style)
    requires
        i < toks@.len(),
        toks@.len() < 0x8000_0000_0000_0000,
        delta == delta_spec(toks@),
        depth == depth_at(toks@, i as int),
        -(i as int) <= depth <= i as int,
    ensures
        st == token_style(line@, toks@, delta as int, i as int),
{
    let t = toks[i];
    match t.kind {
        TokenKind::Name => {
            let pk = if i == 0 {
                TokenKind::Name
            } else {
                toks[i - 1].kind
            };
            match pk {
                TokenKind::Def => Style::Function,
                TokenKind::Class => Style::Class,
                _ => {
                    if term_matches_special(line, t) {
                        Style::Special
                    } else if term_all_upper(line, t) {
                        Style::Special
                    } else {
                        let call_site = if i < toks.len() - 1 {
                            matches!(
                                toks[i + 1].kind,
                                TokenKind::Lpar | TokenKind::Lsqb | TokenKind::Lbrace
                            )
                        } else {
                            false
                        };
                        if call_site {
                            Style::Function
                        } else {
                            Style::Plain
                        }
                    }
                },
            }
        },
        TokenKind::Lpar | TokenKind::Lsqb | TokenKind::Lbrace => {
            if delta <= depth + 1 {
                if depth >= 0 {
                    Style::Bracket((depth % (PALETTE_SIZE as i64)) as u64)
                } else {
                    Style::Invalid
                }
            } else {
                Style::Invalid
            }
        },
        TokenKind::Rpar | TokenKind::Rsqb | TokenKind::Rbrace => {
            if depth - 1 >= 0 {
                Style::Bracket(((depth - 1) % (PALETTE_SIZE as i64)) as u64)
            } else {
                Style::Invalid
            }
        },
        TokenKind::From
        | TokenKind::Import
        | TokenKind::Def
        | TokenKind::Class
        | TokenKind::Equal
        | TokenKind::EqEqual
        | TokenKind::NotEqual
        | TokenKind::LessEqual
        | TokenKind::GreaterEqual
        | TokenKind::DoubleStarEqual
        | TokenKind::PlusEqual
        | TokenKind::MinusEqual
        | TokenKind::StarEqual
        | TokenKind::SlashEqual
        | TokenKind::PercentEqual
        | TokenKind::AmperEqual
        | TokenKind::VbarEqual
        | TokenKind::CircumflexEqual
        | TokenKind::LeftShiftEqual
        | TokenKind::RightShiftEqual
        | TokenKind::DoubleSlash
        | TokenKind::DoubleSlashEqual
        | TokenKind::ColonEqual
        | TokenKind::At
        | TokenKind::AtEqual
        | TokenKind::Elif
        | TokenKind::Else
        | TokenKind::For
        | TokenKind::If
        | TokenKind::In
        | TokenKind::Plus
        | TokenKind::Minus
        | TokenKind::Star
        | TokenKind::Slash
        | TokenKind::Vbar
        | TokenKind::Amper
        | TokenKind::Less
        | TokenKind::Greater
        | TokenKind::Percent
        | TokenKind::Tilde
        | TokenKind::CircumFlex
        | TokenKind::LeftShift
        | TokenKind::RightShift
        | TokenKind::Dot
        | TokenKind::DoubleStar
        | TokenKind::As
        | TokenKind::Assert
        | TokenKind::Async
        | TokenKind::Await
        | TokenKind::Break
        | TokenKind::Continue
        | TokenKind::Del
        | TokenKind::Except
        | TokenKind::Global
        | TokenKind::Is
        | TokenKind::Lambda
        | TokenKind::Finally
        | TokenKind::Nonlocal
        | TokenKind::Not
        | TokenKind::Pass
        | TokenKind::Raise
        | TokenKind::Return
        | TokenKind::Try
        | TokenKind::While
        | TokenKind::With
        | TokenKind::Yield
        | TokenKind::Case
        | TokenKind::Lazy
        | TokenKind::And
        | TokenKind::Or
        | TokenKind::Match => Style::Keyword,
        TokenKind::String
        | TokenKind::FStringStart
        | TokenKind::FStringMiddle
        | TokenKind::FStringEnd
        | TokenKind::TStringStart
        | TokenKind::TStringMiddle
        | TokenKind::TStringEnd => Style::Str,
        TokenKind::Int
        | TokenKind::Float
        | TokenKind::Complex
        | TokenKind::Ellipsis
        | TokenKind::True
        | TokenKind::False
        | TokenKind::None
        | TokenKind::Type => Style::Special,
        TokenKind::Comment => Style::Comment,
        TokenKind::Comma
        | TokenKind::Unknown
        | TokenKind::IpyEscapeCommand
        | TokenKind::Exclamation
        | TokenKind::Colon => Style::Plain,
        TokenKind::Indent
        | TokenKind::Dedent
        | TokenKind::Newline
        | TokenKind::NonLogicalNewline
        | TokenKind::EndOfFile => Style::Default,
        TokenKind::Semi | TokenKind::Question | TokenKind::Rarrow => Style::Symbol,
    }
}

/// One contiguous styled piece of the buffer: the atomic unit handed to the
/// rendering surface.
#[derive(Clone, Debug, PartialEq, Eq)]
pub struct StyleSpan {
    pub style: Style,
    /// Set on the two tokens of the focus pair: the renderer overlays the
    /// focus color and a background highlight, which wins over the base rule.
    pub focused: bool,
    pub text: Vec<u8>,
}

/// The mathematical shadow of a styled span.
pub struct SpanV {
    pub style: Style,
    pub focused: bool,
    pub text: Seq<u8>,
}

impl View for StyleSpan {
    type V = SpanV;

    open spec fn view(&self) -> SpanV {
        SpanV { style: self.style, focused: self.focused, text: self.text@ }
    }
}

/// `x` clamped into `lo..=hi`.
pub open spec fn clamp(x: int, lo: int, hi: int) -> int {
    if x < lo {
        lo
    } else if x > hi {
        hi
    } else {
        x
    }
}

/// Is token `i` one end of the focus pair?
pub open spec fn is_focused(fp: (Option<int>, Option<int>), i: int) -> bool {
    fp.0 == Some(i) || fp.1 == Some(i)
}

/// The styled spans from token `i` on, with `last_end` bytes of the buffer
/// already covered. Each token contributes the gap before it (styled like
/// the token, so whitespace inherits the following token's style) and its own
/// text, both clamped so the pieces stay contiguous and inside the buffer;
/// whatever remains after the last token is covered by one structural span.
pub open spec fn spans_from(
    line: Seq<u8>,
    s: Seq<Tok>,
    delta: int,
    fp: (Option<int>, Option<int>),
    i: int,
    last_end: int,
) -> Seq<SpanV>
    decreases s.len() - i,
{
    if i < 0 || i >= s.len() {
        if last_end < line.len() {
            seq![
                (SpanV {
                    style: Style::Default,
                    focused: false,
                    text: line.subrange(last_end, line.len() as int),
                }),
            ]
        } else {
            Seq::empty()
        }
    } else {
        let st = token_style(line, s, delta, i);
        let a = clamp(s[i].start as int, last_end, line.len() as int);
        let b = clamp(s[i].end as int, a, line.len() as int);
        seq![
            (SpanV { style: st, focused: false, text: line.subrange(last_end, a) }),
            (SpanV { style: st, focused: is_focused(fp, i), text: line.subrange(a, b) }),
        ] + spans_from(line, s, delta, fp, i + 1, b)
    }
}

/// The focus pair that a cursor position (if any) selects.
pub open spec fn cursor_focus(s: Seq<Tok>, cursor: Option<int>) -> (Option<int>, Option<int>) {
    match cursor {
        Some(c) => focus_spec(s, c),
        None => (None::<int>, None::<int>),
    }
}

/// The full styled rendering of a buffer: base classification of every token
/// plus the cursor-focus overlay.
pub open spec fn highlight_spec(
    line: Seq<u8>,
    s: Seq<Tok>,
    delta: int,
    cursor: Option<int>,
) -> Seq<SpanV> {
    spans_from(line, s, delta, cursor_focus(s, cursor), 0, 0)
}

/// The concatenation of the span texts, in order.
pub open spec fn texts_of(sp: Seq<SpanV>) -> Seq<u8>
    decreases sp.len(),
{
    if sp.len() == 0 {
        Seq::empty()
    } else {
        sp.first().text + texts_of(sp.drop_first())
    }
}

proof fn lemma_texts_concat(a: Seq<SpanV>, b: Seq<SpanV>)
    ensures
        texts_of(a + b) == texts_of(a) + texts_of(b),
    decreases a.len(),
{
    if a.len() == 0 {
        assert(a + b =~= b);
        assert(texts_of(a) + texts_of(b) =~= texts_of(b));
    } else {
        assert((a + b).first() == a.first());
        assert((a + b).drop_first() =~= a.drop_first() + b);
        lemma_texts_concat(a.drop_first(), b);
        assert(a.first().text + (texts_of(a.drop_first()) + texts_of(b)) =~= (a.first().text
            + texts_of(a.drop_first())) + texts_of(b));
    }
}

/// Styling covers the buffer exactly: the spans from token `i` on spell out
/// precisely the bytes not yet covered, with no gap and no overlap.
pub proof fn lemma_spans_cover(
    line: Seq<u8>,
    s: Seq<Tok>,
    delta: int,
    fp: (Option<int>, Option<int>),
    i: int,
    last_end: int,
)
    requires
        0 <= last_end <= line.len(),
    ensures
        texts_of(spans_from(line, s, delta, fp, i, last_end)) == line.subrange(
            last_end,
            line.len() as int,
        ),
    decreases s.len() - i,
{
    if i < 0 || i >= s.len() {
        if last_end < line.len() {
            let tail = spans_from(line, s, delta, fp, i, last_end);
            let piece = SpanV {
                style: Style::Default,
                focused: false,
                text: line.subrange(last_end, line.len() as int),
            };
            assert(tail =~= seq![piece]);
            assert(tail.first() == piece);
            assert(tail.drop_first() =~= Seq::<SpanV>::empty());
            assert(texts_of(tail.drop_first()) == Seq::<u8>::empty());
            assert(texts_of(tail) == piece.text + Seq::<u8>::empty());
            assert(piece.text + Seq::<u8>::empty() =~= piece.text);
        } else {
            assert(line.subrange(last_end, line.len() as int) =~= Seq::<u8>::empty());
        }
    } else {
        let st = token_style(line, s, delta, i);
        let a = clamp(s[i].start as int, last_end, line.len() as int);
        let b = clamp(s[i].end as int, a, line.len() as int);
        let x = SpanV { style: st, focused: false, text: line.subrange(last_end, a) };
        let y = SpanV { style: st, focused: is_focused(fp, i), text: line.subrange(a, b) };
        let head = seq![x, y];
        let rest = spans_from(line, s, delta, fp, i + 1, b);
        lemma_spans_cover(line, s, delta, fp, i + 1, b);
        lemma_texts_concat(head, rest);
        let h1 = head.drop_first();
        assert(head.first() == x);
        assert(h1 =~= seq![y]);
        assert(h1.first() == y);
        assert(h1.drop_first() =~= Seq::<SpanV>::empty());
        assert(texts_of(h1.drop_first()) == Seq::<u8>::empty());
        assert(texts_of(h1) == y.text + Seq::<u8>::empty());
        assert(texts_of(head) == x.text + texts_of(h1));
        assert(spans_from(line, s, delta, fp, i, last_end) == head + rest);
        assert(texts_of(head + rest) == texts_of(head) + texts_of(rest));
        assert((line.subrange(last_end, a) + (line.subrange(a, b) + Seq::<u8>::empty()))
            + line.subrange(b, line.len() as int) =~= line.subrange(
            last_end,
            line.len() as int,
        ));
    }
}

/// A fresh copy of the buffer bytes in `a..b`.
fn copy_range(line: &[u8], a: usize, b: usize) -> (r: Vec<u8>)
    requires
        a <= b <= line@.len(),
    ensures
        r@ == line@.subrange(a as int, b as int),
{
    let mut r: Vec<u8> = Vec::new();
    let mut j: usize = a;
    while j < b
        invariant
            a <= j <= b <= line@.len(),
            r@ == line@.subrange(a as int, j as int),
        decreases b - j,
    {
        r.push(line[j]);
        proof {
            assert(line@.subrange(a as int, j + 1).drop_last() =~= line@.subrange(
                a as int,
                j as int,
            ));
            assert(r@.drop_last() =~= line@.subrange(a as int, j as int));
            assert(r@ =~= line@.subrange(a as int, j + 1));
        }
        j = j + 1;
    }
    r
}

/// Classify the whole buffer into styled spans covering it contiguously: the
/// concatenation of the span texts reproduces the buffer exactly, so exactly
/// one style is assigned per byte, with no gaps and no overlaps.
pub fn highlight_line(line: &[u8], toks: &Vec<Tok>, delta: i64, cursor: Option<usize>) -> (r:
    Vec<StyleSpan>)
    requires
        delta == delta_spec(toks@),
        toks@.len() < 0x8000_0000_0000_0000,
    ensures
        r@.map_values(|sp: StyleSpan| sp@) == highlight_spec(
            line@,
            toks@,
            delta as int,
            cursor_view(cursor),
        ),
        texts_of(r@.map_values(|sp: StyleSpan| sp@)) == line@,
{
    let fp = match cursor {
        Some(c) => crate::bracket::focus(toks, c),
        None => FocusPair { open_index: None, close_index: None },
    };
    let ghost fpv = cursor_focus(toks@, cursor_view(cursor));
    proof {
        assert(fp@ == fpv);
    }
    let mut out: Vec<StyleSpan> = Vec::new();
    let mut i: usize = 0;
    let mut last_end: usize = 0;
    let mut depth: i64 = 0;
    proof {
        assert(toks@.take(0) =~= Seq::<Tok>::empty());
        assert(out@.map_values(|sp: StyleSpan| sp@) =~= Seq::<SpanV>::empty());
    }
    while i < toks.len()
        invariant
            i <= toks@.len() < 0x8000_0000_0000_0000,
            last_end <= line@.len(),
            delta == delta_spec(toks@),
            depth == depth_at(toks@, i as int),
            -(i as int) <= depth <= i as int,
            fp@ == fpv,
            out@.map_values(|sp: StyleSpan| sp@) + spans_from(
                line@,
                toks@,
                delta as int,
                fpv,
                i as int,
                last_end as int,
            ) == spans_from(line@, toks@, delta as int, fpv, 0, 0),
        decreases toks@.len() - i,
    {
        let ghost prior = out@.map_values(|sp: StyleSpan| sp@);
        let st = style_of(line, toks, delta, i, depth);
        let t = toks[i];
        let a0 = t.start as usize;
        let a = if a0 < last_end {
            last_end
        } else if a0 > line.len() {
            line.len()
        } else {
            a0
        };
        let b0 = t.end as usize;
        let b = if b0 < a {
            a
        } else if b0 > line.len() {
            line.len()
        } else {
            b0
        };
        proof {
            assert(a as int == clamp(t.start as int, last_end as int, line@.len() as int));
            assert(b as int == clamp(t.end as int, a as int, line@.len() as int));
        }
        let gap = copy_range(line, last_end, a);
        let term = copy_range(line, a, b);
        let focused = (match fp.open_index {
            Some(o) => o == i,
            None => false,
        }) || (match fp.close_index {
            Some(c) => c == i,
            None => false,
        });
        proof {
            assert(focused == is_focused(fpv, i as int));
        }
        out.push(StyleSpan { style: st, focused: false, text: gap });
        out.push(StyleSpan { style: st, focused, text: term });
        proof {
            let head = seq![
                (SpanV { style: st, focused: false, text: line@.subrange(last_end as int, a as int) }),
                (SpanV {
                    style: st,
                    focused: is_focused(fpv, i as int),
                    text: line@.subrange(a as int, b as int),
                }),
            ];
            assert(out@.map_values(|sp: StyleSpan| sp@) =~= prior + head);
            assert(spans_from(line@, toks@, delta as int, fpv, i as int, last_end as int)
                == head + spans_from(line@, toks@, delta as int, fpv, i + 1, b as int));
            assert((prior + head) + spans_from(line@, toks@, delta as int, fpv, i + 1, b as int)
                =~= prior + (head + spans_from(line@, toks@, delta as int, fpv, i + 1, b as int)));
            assert(toks@.take(i + 1).drop_last() =~= toks@.take(i as int));
        }
        match t.kind {
            TokenKind::Lpar | TokenKind::Lsqb | TokenKind::Lbrace => {
                depth = depth + 1;
            },
            TokenKind::Rpar | TokenKind::Rsqb | TokenKind::Rbrace => {
                depth = depth - 1;
            },
            _ => {},
        }
        last_end = b;
        i = i + 1;
    }
    if last_end < line.len() {
        let ghost prior = out@.map_values(|sp: StyleSpan| sp@);
        let tail = copy_range(line, last_end, line.len());
        out.push(StyleSpan { style: Style::Default, focused: false, text: tail });
        proof {
            let tv = SpanV {
                style: Style::Default,
                focused: false,
                text: line@.subrange(last_end as int, line@.len() as int),
            };
            assert(out@.map_values(|sp: StyleSpan| sp@) =~= prior + seq![tv]);
            assert(spans_from(line@, toks@, delta as int, fpv, toks@.len() as int, last_end as int)
                =~= seq![tv]);
        }
    } else {
        proof {
            assert(spans_from(line@, toks@, delta as int, fpv, toks@.len() as int, last_end as int)
                =~= Seq::<SpanV>::empty());
            assert(out@.map_values(|sp: StyleSpan| sp@) + Seq::<SpanV>::empty() =~= out@.map_values(
                |sp: StyleSpan| sp@,
            ));
        }
    }
    proof {
        lemma_spans_cover(line@, toks@, delta as int, fpv, 0, 0);
        assert(line@.subrange(0, line@.len() as int) =~= line@);
    }
    out
}

/// The cursor argument as a mathematical offset.
pub open spec fn cursor_view(cursor: Option<usize>) -> Option<int> {
    match cursor {
        Some(c) => Some(c as int),
        None => None,
    }
}

/// Lex a buffer and classify it into styled spans in one step, as the editor
/// does after every edit. Whatever the lexer produced, the spans cover the
/// buffer exactly; a token stream too long to classify (impossible for an
/// addressable buffer) is rendered structurally, as if it held no tokens.
pub fn highlight_buffer(line: &[u8], cursor: Option<usize>) -> (r: Vec<StyleSpan>)
    ensures
        texts_of(r@.map_values(|sp: StyleSpan| sp@)) == line@,
        parse_of(line@).0.len() < TOKEN_LIMIT ==> r@.map_values(|sp: StyleSpan| sp@)
            == highlight_spec(
            line@,
            parse_of(line@).0,
            delta_spec(parse_of(line@).0),
            cursor_view(cursor),
        ),
{
    let toks = tokenize(line);
    if (toks.len() as u64) < TOKEN_LIMIT {
        let delta = track(&toks);
        highlight_line(line, &toks, delta, cursor)
    } else {
        let empty: Vec<Tok> = Vec::new();
        proof {
            assert(delta_spec(empty@) == 0);
        }
        highlight_line(line, &empty, 0, cursor)
    }
}


} // verus!
