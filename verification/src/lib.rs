//! A compiler from a small BASIC to C, with its behaviour stated and proved.
//!
//! The source language has the statements `PRINT`, `IF`, `WHILE`, `LET` and
//! `INPUT`, numbers, identifiers, strings, comparisons and sums. The target
//! is a C program whose variables are all `float`.
//!
//! * [`charclass`] sorts characters into the classes that lexing goes by.
//! * [`lexer`] turns source text into tokens, one at a time.
//! * [`spans`] proves where tokens lie in the source and what their text is.
//! * [`grammar`] defines the compiler as a machine over tokens.
//! * [`parser`] runs that machine and emits the target program.
//! * [`emitter`] holds the emitted text.
//! * [`error`] says why a compilation stopped.
//! * [`progress`] proves that a compilation only goes forward.
//! * [`braces`] proves that the braces of the target program are balanced.

pub mod braces;
pub mod charclass;
pub mod emitter;
pub mod error;
pub mod grammar;
pub mod lexer;
pub mod parser;
pub mod progress;
pub mod spans;
