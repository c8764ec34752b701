//! Tests for the session driver state machine: submission, continuation,
//! the special commands, prompt selection, and interrupt debouncing.

use pyshell::session::{probe_text, starts_indented, Action, Event, PromptKind, Session};

#[test]
fn complete_line_is_submitted() {
    let mut s = Session::new(2);
    let a = s.step(Event::Line(b"1 + 1".to_vec()));
    assert_eq!(a, Action::Submit(b"1 + 1".to_vec()));
    assert!(s.buffer.is_empty());
    assert!(!s.continuation);
    // The oracle succeeded: the error flag clears and the prompt is normal.
    s.note_result(true);
    assert!(!s.on_error);
    assert_eq!(s.prompt_kind(), PromptKind::Normal);
}

#[test]
fn incomplete_line_continues() {
    let mut s = Session::new(2);
    let a = s.step(Event::Line(b"if True:".to_vec()));
    assert_eq!(a, Action::Continue { indent: 1 });
    assert!(s.continuation);
    assert_eq!(s.prompt_kind(), PromptKind::Continuation);
    assert_eq!(s.buffer, b"if True:\n".to_vec());

    // A body line keeps the block open, as the lexer still sees an
    // unfinished suite at the end of input.
    let a = s.step(Event::Line(b"    x = 1".to_vec()));
    assert_eq!(a, Action::Continue { indent: 1 });
    assert_eq!(s.buffer, b"if True:\n    x = 1\n".to_vec());

    // A blank line ends the block: the whole accumulated source is
    // submitted and the buffer cleared.
    let a = s.step(Event::Line(b"".to_vec()));
    assert_eq!(a, Action::Submit(b"if True:\n    x = 1\n".to_vec()));
    assert!(s.buffer.is_empty());
    assert!(!s.continuation);
}

#[test]
fn failed_submission_colors_the_prompt() {
    let mut s = Session::new(2);
    let a = s.step(Event::Line(b"boom".to_vec()));
    assert_eq!(a, Action::Submit(b"boom".to_vec()));
    s.note_result(false);
    assert!(s.on_error);
    assert_eq!(s.prompt_kind(), PromptKind::Error);
    // A later success clears it again.
    let _ = s.step(Event::Line(b"1".to_vec()));
    s.note_result(true);
    assert_eq!(s.prompt_kind(), PromptKind::Normal);
}

#[test]
fn clear_and_exit_commands() {
    let mut s = Session::new(2);
    s.note_result(false);
    let a = s.step(Event::Line(b"  clear()  ".to_vec()));
    assert_eq!(a, Action::ClearScreen);
    assert!(!s.on_error);
    assert!(s.buffer.is_empty());

    let a = s.step(Event::Line(b"exit()".to_vec()));
    assert_eq!(a, Action::Exit);
    assert!(s.terminated);
}

#[test]
fn interrupts_debounce_to_exit() {
    // With a debounce threshold of two, the first interrupt reports one
    // remaining and the session terminates cleanly only on the second
    // consecutive signal.
    let mut s = Session::new(2);
    let a = s.step(Event::Interrupt);
    assert_eq!(a, Action::ReportRemaining { left: 1 });
    assert!(!s.terminated);
    let a = s.step(Event::Interrupt);
    assert_eq!(a, Action::Exit);
    assert!(s.terminated);
}

#[test]
fn a_read_line_resets_the_debounce() {
    let mut s = Session::new(2);
    assert_eq!(s.step(Event::Interrupt), Action::ReportRemaining { left: 1 });
    let _ = s.step(Event::Line(b"1".to_vec()));
    assert_eq!(s.interrupts, 0);
    // The count starts over: the next interrupt is not consecutive with the
    // first one.
    assert_eq!(s.step(Event::Interrupt), Action::ReportRemaining { left: 1 });
}

#[test]
fn end_of_input_counts_like_an_interrupt() {
    let mut s = Session::new(2);
    assert_eq!(s.step(Event::EndOfInput), Action::ReportRemaining { left: 1 });
    assert_eq!(s.step(Event::EndOfInput), Action::Exit);
}

#[test]
fn read_errors_are_fatal() {
    let mut s = Session::new(2);
    let a = s.step(Event::ReadError);
    assert_eq!(a, Action::Fatal);
    assert!(s.terminated);
}

#[test]
fn probe_text_holds_back_the_newline() {
    let code = b"if True:\n".to_vec();
    // More input follows and it continues the block: the probe sees the
    // source without its trailing newline.
    assert_eq!(probe_text(&code, true, true), b"if True:".to_vec());
    // The next line starts a fresh statement: the probe sees everything.
    assert_eq!(probe_text(&code, true, false), b"if True:\n".to_vec());
    // At end of input the probe always sees everything.
    assert_eq!(probe_text(&code, false, true), b"if True:\n".to_vec());
}

#[test]
fn indented_continuation_lines() {
    assert!(starts_indented(b"    x = 1"));
    assert!(starts_indented(b"\tx = 1"));
    assert!(starts_indented(b"\n"));
    assert!(!starts_indented(b"x = 1"));
    assert!(!starts_indented(b""));
}
