//! A verified interpreter for a tape-based, pointer-and-byte esoteric
//! language: eight single-character commands operating on a fixed-size byte
//! tape.
//!
//! The pipeline has three stages: a lexer that turns source text into a
//! command sequence (dropping every other character as a comment), a parser
//! that builds a nested instruction tree with explicit loop bodies, and a
//! tree-walking evaluator that runs the tree against a byte tape, a cursor,
//! and an input/output byte stream.

pub mod ast;
pub mod lexer;
pub mod parser;
pub mod semantics;
pub mod eval;
pub mod laws;
