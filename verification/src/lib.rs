//! An RPN (reverse Polish notation) calculator: the word-level parser, the
//! stack engine with its undo history, and the error messages, verified.
//!
//! Stack values are IEEE 754 double-precision numbers held as their bit
//! patterns (`u64`); the floating-point arithmetic itself is performed by an
//! evaluator that the caller hands in (see [`engine::FloatOp`]).

pub mod error;
pub mod parser;
pub mod engine;
pub mod laws;
pub mod token_laws;
pub mod session;
pub mod display;
