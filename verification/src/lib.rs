//! A verified prefix-notation calculator.
//!
//! Each input line is split into whitespace-separated tokens, parsed by
//! recursive descent into an expression tree, and evaluated against the
//! history of results from earlier lines. Everything is specified over
//! mathematical models (`Seq<char>`, `int`) and proved: the parser agrees
//! with a specification-level parser, and the evaluator agrees with a
//! specification-level evaluator over unbounded integers, reporting an
//! overflow error exactly where a result leaves the machine range.

pub mod ast;
pub mod digits;
pub mod eval;
pub mod laws;
pub mod parser;
pub mod session;
pub mod tokens;
