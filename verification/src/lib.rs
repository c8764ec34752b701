//! An interactive read-eval-print front end for Python source: a tokenizer
//! adapter, a bracket tracker, a style classifier, a statement-completeness
//! classifier, and the session state machine that drives the input loop.

pub mod args;
pub mod bracket;
pub mod complete;
pub mod style;
pub mod lex;
pub mod session;
pub mod token;
