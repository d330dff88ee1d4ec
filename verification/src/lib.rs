//! A compiler and a race-detection runtime for a small concurrent tape
//! language.
//!
//! A program is text over sixteen symbols. The `lexer` turns it into tokens,
//! the `parser` into a tree of instructions, and `codegen` into the text of
//! an IR module that runs the program on a shared byte tape with one mutex
//! and one condition per cell. The `runtime` holds the two race detectors
//! that an instrumented program reports to. The `printer` writes a tree back
//! as source, `syntax_laws` holds what is proved of trees and their text, and
//! `interpreter` the part of the reference interpreter that works on plain
//! values.

pub mod codegen;
pub mod interpreter;
pub mod lexer;
pub mod parser;
pub mod printer;
pub mod runtime;
pub mod syntax_laws;
pub mod text;
