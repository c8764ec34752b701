//! The editor session driver's decision core: a state machine from session
//! state and input event to next state and action. The blocking work around
//! it — reading a line, running submitted source on the interpreter, drawing
//! the screen — is performed by the caller, which feeds the outcome back in.

use crate::complete::{buffer_incomplete, buffer_indent, classify_buffer, Completeness};
use vstd::prelude::*;

verus! {

/// One input event, as the line reader reports it.
#[derive(Clone, Debug, PartialEq, Eq)]
pub enum Event {
    /// A line was read, without its trailing newline.
    Line(Vec<u8>),
    /// The read was interrupted by a signal.
    Interrupt,
    /// The input reached its end.
    EndOfInput,
    /// Any other read failure; fatal.
    ReadError,
}

/// What the caller must do next.
#[derive(Clone, Debug, PartialEq, Eq)]
pub enum Action {
    /// Hand this source to the execution oracle, then report its outcome
    /// through `note_result`.
    Submit(Vec<u8>),
    /// The statement is incomplete: show the continuation prompt with this
    /// many extra indent levels.
    Continue { indent: u64 },
    /// Clear the screen and read the next line.
    ClearScreen,
    /// Terminate the session cleanly.
    Exit,
    /// Tell the user how many further interrupts end the session.
    ReportRemaining { left: u32 },
    /// An unrecoverable read error: surface it and terminate.
    Fatal,
}

/// Which prompt the driver shows before the next read.
#[derive(Clone, Copy, Debug, PartialEq, Eq)]
pub enum PromptKind {
    /// The normal primary prompt.
    Normal,
    /// The primary prompt in error coloring, after a failed submission.
    Error,
    /// The continuation prompt of an incomplete statement.
    Continuation,
}

/// Is this byte ASCII whitespace?
pub open spec fn is_ws(b: u8) -> bool {
    b == 32 || (9 <= b <= 13)
}

/// The input with leading whitespace removed.
pub open spec fn trim_front(s: Seq<u8>) -> Seq<u8>
    decreases s.len(),
{
    if s.len() > 0 && is_ws(s.first()) {
        trim_front(s.drop_first())
    } else {
        s
    }
}

/// The input with trailing whitespace removed.
pub open spec fn trim_back(s: Seq<u8>) -> Seq<u8>
    decreases s.len(),
{
    if s.len() > 0 && is_ws(s.last()) {
        trim_back(s.drop_last())
    } else {
        s
    }
}

/// The input with whitespace removed on both ends.
pub open spec fn trim_spec(s: Seq<u8>) -> Seq<u8> {
    trim_back(trim_front(s))
}

/// The bytes of the screen-clearing command.
pub open spec fn clear_cmd() -> Seq<u8> {
    seq![
        ('c' as u8),
        ('l' as u8),
        ('e' as u8),
        ('a' as u8),
        ('r' as u8),
        ('(' as u8),
        (')' as u8),
    ]
}

/// The bytes of the session-ending command.
pub open spec fn exit_cmd() -> Seq<u8> {
    seq![('e' as u8), ('x' as u8), ('i' as u8), ('t' as u8), ('(' as u8), (')' as u8)]
}

/// Does the accumulated input, trimmed, ask to clear the screen?
pub open spec fn wants_clear(buf: Seq<u8>) -> bool {
    trim_spec(buf) == clear_cmd()
}

/// Does the accumulated input, trimmed, ask to end the session?
pub open spec fn wants_exit(buf: Seq<u8>) -> bool {
    trim_spec(buf) == exit_cmd()
}

/// Does a line continue an indented block: does it start with a space, a tab
/// or a newline?
pub fn starts_indented(line: &[u8]) -> (r: bool)
    ensures
        r == (line@.len() > 0 && (line@[0] == 32 || line@[0] == 9 || line@[0] == 10)),
{
    line.len() > 0 && (line[0] == 32 || line[0] == 9 || line[0] == 10)
}

/// The slice of accumulated file source handed to the completeness probe:
/// while more input follows and the next line continues an indented block,
/// the trailing newline is held back, so the probe keeps asking for the rest
/// of the block instead of compiling it piecemeal.
pub fn probe_text(code: &Vec<u8>, more_input: bool, next_indented: bool) -> (r: Vec<u8>)
    ensures
        r@ == (if more_input && next_indented && code@.len() > 0 {
            code@.drop_last()
        } else {
            code@
        }),
{
    if more_input && next_indented && code.len() > 0 {
        let mut r: Vec<u8> = Vec::new();
        let mut i: usize = 0;
        let end = code.len() - 1;
        while i < end
            invariant
                i <= end < code@.len(),
                r@ == code@.take(i as int),
            decreases end - i,
        {
            r.push(code[i]);
            proof {
                assert(r@ =~= code@.take(i + 1));
            }
            i = i + 1;
        }
        proof {
            assert(code@.take(code@.len() - 1) =~= code@.drop_last());
        }
        r
    } else {
        let mut r: Vec<u8> = Vec::new();
        let mut i: usize = 0;
        while i < code.len()
            invariant
                i <= code@.len(),
                r@ == code@.take(i as int),
            decreases code@.len() - i,
        {
            r.push(code[i]);
            proof {
                assert(r@ =~= code@.take(i + 1));
            }
            i = i + 1;
        }
        proof {
            assert(code@.take(code@.len() as int) =~= code@);
        }
        r
    }
}

/// The session driver's persistent state: the accumulated source buffer, the
/// two prompt-driving flags, and the interrupt debounce counter.
pub struct Session {
    /// Source lines accepted so far for the statement in progress, each
    /// followed by a newline.
    pub buffer: Vec<u8>,
    /// Is a statement in progress, so the continuation prompt is shown?
    pub continuation: bool,
    /// Did the last submission fail, so the prompt shows error coloring?
    pub on_error: bool,
    /// Consecutive interrupts seen so far.
    pub interrupts: u32,
    /// Consecutive interrupts needed to terminate.
    pub threshold: u32,
    /// The session has ended; no further events are accepted.
    pub terminated: bool,
}

/// A fresh copy of `a` followed by `b`.
fn concat_bytes(a: &Vec<u8>, b: &Vec<u8>) -> (r: Vec<u8>)
    ensures
        r@ == a@ + b@,
{
    let mut r: Vec<u8> = Vec::new();
    let mut i: usize = 0;
    while i < a.len()
        invariant
            i <= a@.len(),
            r@ == a@.take(i as int),
        decreases a@.len() - i,
    {
        r.push(a[i]);
        proof {
            assert(r@ =~= a@.take(i + 1));
        }
        i = i + 1;
    }
    let mut j: usize = 0;
    while j < b.len()
        invariant
            j <= b@.len(),
            r@ == a@.take(a@.len() as int) + b@.take(j as int),
        decreases b@.len() - j,
    {
        r.push(b[j]);
        proof {
            assert(r@ =~= a@.take(a@.len() as int) + b@.take(j + 1));
        }
        j = j + 1;
    }
    proof {
        assert(a@.take(a@.len() as int) + b@.take(b@.len() as int) =~= a@ + b@);
    }
    r
}

/// The bounds of the input with surrounding whitespace trimmed away: the
/// subrange they select is exactly the trimmed input.
fn trimmed_bounds(s: &Vec<u8>) -> (r: (usize, usize))
    ensures
        r.0 <= r.1 <= s@.len(),
        trim_spec(s@) == s@.subrange(r.0 as int, r.1 as int),
{
    let n = s.len();
    let mut lo: usize = 0;
    proof {
        assert(s@.skip(0) =~= s@);
    }
    while lo < n && (s[lo] == 32 || (9 <= s[lo] && s[lo] <= 13))
        invariant
            lo <= n == s@.len(),
            trim_front(s@) == trim_front(s@.skip(lo as int)),
        decreases n - lo,
    {
        proof {
            assert(s@.skip(lo as int).first() == s@[lo as int]);
            assert(s@.skip(lo as int).drop_first() =~= s@.skip(lo + 1));
        }
        lo = lo + 1;
    }
    proof {
        if lo == n {
            assert(s@.skip(lo as int) =~= Seq::<u8>::empty());
        }
        assert(trim_front(s@) == s@.skip(lo as int));
    }
    let mut hi: usize = n;
    while hi > lo && (s[hi - 1] == 32 || (9 <= s[hi - 1] && s[hi - 1] <= 13))
        invariant
            lo <= hi <= n == s@.len(),
            trim_front(s@) == s@.skip(lo as int),
            trim_back(s@.skip(lo as int)) == trim_back(s@.subrange(lo as int, hi as int)),
        decreases hi,
    {
        proof {
            assert(s@.subrange(lo as int, hi as int).last() == s@[hi - 1]);
            assert(s@.subrange(lo as int, hi as int).drop_last() =~= s@.subrange(
                lo as int,
                hi - 1,
            ));
        }
        hi = hi - 1;
    }
    proof {
        if hi == lo {
            assert(s@.subrange(lo as int, hi as int) =~= Seq::<u8>::empty());
        }
        assert(trim_back(s@.subrange(lo as int, hi as int)) == s@.subrange(lo as int, hi as int));
        assert(s@.skip(lo as int) =~= s@.subrange(lo as int, n as int));
    }
    (lo, hi)
}

/// Does the accumulated input ask to clear the screen?
fn is_clear_request(s: &Vec<u8>) -> (r: bool)
    ensures
        r == wants_clear(s@),
{
    let (lo, hi) = trimmed_bounds(s);
    proof {
        assert(clear_cmd().len() == 7);
    }
    if hi - lo != 7 {
        return false;
    }
    let hit = s[lo] == ('c' as u8) && s[lo + 1] == ('l' as u8) && s[lo + 2] == ('e' as u8) && s[lo
        + 3] == ('a' as u8) && s[lo + 4] == ('r' as u8) && s[lo + 5] == ('(' as u8) && s[lo + 6]
        == (')' as u8);
    proof {
        if hit {
            assert(s@.subrange(lo as int, hi as int) =~= clear_cmd());
        } else {
            assert(s@.subrange(lo as int, hi as int) != clear_cmd());
        }
    }
    hit
}

/// Does the accumulated input ask to end the session?
fn is_exit_request(s: &Vec<u8>) -> (r: bool)
    ensures
        r == wants_exit(s@),
{
    let (lo, hi) = trimmed_bounds(s);
    proof {
        assert(exit_cmd().len() == 6);
    }
    if hi - lo != 6 {
        return false;
    }
    let hit = s[lo] == ('e' as u8) && s[lo + 1] == ('x' as u8) && s[lo + 2] == ('i' as u8) && s[lo
        + 3] == ('t' as u8) && s[lo + 4] == ('(' as u8) && s[lo + 5] == (')' as u8);
    proof {
        if hit {
            assert(s@.subrange(lo as int, hi as int) =~= exit_cmd());
        } else {
            assert(s@.subrange(lo as int, hi as int) != exit_cmd());
        }
    }
    hit
}

impl Session {
    /// A fresh session: empty buffer, normal prompt, debounce at zero.
    pub fn new(threshold: u32) -> (s: Session)
        ensures
            s.buffer@ == Seq::<u8>::empty(),
            !s.continuation,
            !s.on_error,
            s.interrupts == 0,
            s.threshold == threshold,
            !s.terminated,
    {
        Session {
            buffer: Vec::new(),
            continuation: false,
            on_error: false,
            interrupts: 0,
            threshold,
            terminated: false,
        }
    }

    /// Which prompt to show before the next read: the continuation prompt
    /// while a statement is in progress, otherwise the primary prompt in
    /// error coloring exactly when the last submission failed.
    pub fn prompt_kind(&self) -> (p: PromptKind)
        ensures
            p == (if self.continuation {
                PromptKind::Continuation
            } else if self.on_error {
                PromptKind::Error
            } else {
                PromptKind::Normal
            }),
    {
        if self.continuation {
            PromptKind::Continuation
        } else if self.on_error {
            PromptKind::Error
        } else {
            PromptKind::Normal
        }
    }

    /// Record the execution oracle's outcome for the last submission: the
    /// error flag mirrors it, everything else stays.
    pub fn note_result(&mut self, ok: bool)
        ensures
            final (self).on_error == !ok,
            final (self).buffer@ == old(self).buffer@,
            final (self).continuation == old(self).continuation,
            final (self).interrupts == old(self).interrupts,
            final (self).threshold == old(self).threshold,
            final (self).terminated == old(self).terminated,
    {
        self.on_error = !ok;
    }

    /// Advance the session by one input event.
    ///
    /// A read line first resets the interrupt debounce and joins the buffer;
    /// the two commands `clear()` and `exit()` are handled directly, any
    /// other input is classified: a complete statement is submitted and the
    /// buffer cleared, an incomplete one is kept with a newline appended and
    /// the continuation prompt requested. An interrupt or end of input
    /// raises the debounce counter until it reaches the threshold, which
    /// terminates the session; any other read error is fatal.
    pub fn step(&mut self, ev: Event) -> (a: Action)
        requires
            !old(self).terminated,
        ensures
            final (self).threshold == old(self).threshold,
            match ev {
                Event::Line(line) => {
                    let combined = old(self).buffer@ + line@;
                    &&& final (self).interrupts == 0
                    &&& final (self).on_error == (old(self).on_error && !wants_clear(combined))
                    &&& if wants_clear(combined) {
                        &&& a == Action::ClearScreen
                        &&& final (self).buffer@ == Seq::<u8>::empty()
                        &&& !final (self).continuation
                        &&& !final (self).terminated
                    } else if wants_exit(combined) {
                        &&& a == Action::Exit
                        &&& final (self).terminated
                    } else if buffer_incomplete(combined) {
                        &&& a == (Action::Continue { indent: buffer_indent(combined) as u64 })
                        &&& final (self).buffer@ == combined.push(10u8)
                        &&& final (self).continuation
                        &&& !final (self).terminated
                    } else {
                        &&& (a matches Action::Submit(src) && src@ == combined)
                        &&& final (self).buffer@ == Seq::<u8>::empty()
                        &&& !final (self).continuation
                        &&& !final (self).terminated
                    }
                },
                Event::Interrupt | Event::EndOfInput => {
                    &&& final (self).buffer@ == old(self).buffer@
                    &&& final (self).continuation == old(self).continuation
                    &&& final (self).on_error == old(self).on_error
                    &&& if old(self).interrupts + 1 >= old(self).threshold {
                        &&& a == Action::Exit
                        &&& final (self).terminated
                    } else {
                        &&& final (self).interrupts == old(self).interrupts + 1
                        &&& a == (Action::ReportRemaining {
                            left: (old(self).threshold - old(self).interrupts - 1) as u32,
                        })
                        &&& !final (self).terminated
                    }
                },
                Event::ReadError => {
                    &&& a == Action::Fatal
                    &&& final (self).terminated
                    &&& final (self).buffer@ == old(self).buffer@
                },
            },
    {
        match ev {
            Event::Line(line) => {
                self.interrupts = 0;
                let combined = concat_bytes(&self.buffer, &line);
                if is_clear_request(&combined) {
                    self.buffer = Vec::new();
                    self.continuation = false;
                    self.on_error = false;
                    Action::ClearScreen
                } else if is_exit_request(&combined) {
                    self.terminated = true;
                    Action::Exit
                } else {
                    match classify_buffer(combined.as_slice()) {
                        Completeness::Complete => {
                            self.buffer = Vec::new();
                            self.continuation = false;
                            Action::Submit(combined)
                        },
                        Completeness::Incomplete { indent } => {
                            let mut kept = combined;
                            kept.push(10u8);
                            self.buffer = kept;
                            self.continuation = true;
                            Action::Continue { indent }
                        },
                    }
                }
            },
            Event::Interrupt | Event::EndOfInput => {
                if self.interrupts < u32::MAX {
                    self.interrupts = self.interrupts + 1;
                }
                if self.interrupts >= self.threshold {
                    self.terminated = true;
                    Action::Exit
                } else {
                    Action::ReportRemaining { left: self.threshold - self.interrupts }
                }
            },
            Event::ReadError => {
                self.terminated = true;
                Action::Fatal
            },
        }
    }
}

} // verus!
