//! An interpreter for a minimal tape-machine language: eight single-character
//! instructions act on a bi-infinite byte tape with a movable cursor.
//!
//! The language is evaluated twice, by two strategies:
//!
//! * [`runtime`] parses source text into a [`runtime::Program`] tree
//!   ([`parser`] holds the parser and its bracket laws) and executes it step
//!   by step against a mutable [`runtime::Tape`];
//! * [`comptime`] encodes the machine as type-level derivation over the
//!   Peano numerals of [`peano`], so that a program is run entirely by the
//!   type checker.
//!
//! The machine semantics of the runtime strategy is stated once, as a
//! small-step transition function in [`semantics`], and the interpreter is
//! verified to follow it transition for transition.

pub mod comptime;
pub mod parser;
pub mod peano;
pub mod runtime;
pub mod semantics;
