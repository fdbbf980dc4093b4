//! The expression tree and its operators.
//!
//! Trees are built bottom-up by the parser and never mutated afterwards;
//! each node owns its children. The operator sets are closed: a token either
//! names one of the operators below or is no operator at all.

use crate::tokens::str_eq;
use vstd::prelude::*;

verus! {

/// The binary operators of the language.
#[derive(Copy, Clone, Debug, PartialEq, Eq)]
pub enum BinaryOperator {
    Division,
    Minus,
    Multiplication,
    Plus,
}

/// The unary operators of the language.
#[derive(Copy, Clone, Debug, PartialEq, Eq)]
pub enum UnaryOperator {
    Abs,
    Factorial,
    Negative,
    Predecessor,
    Signum,
    Successor,
}

/// An expression tree: a literal, a reference into the history, or an
/// operator applied to fully parsed sub-trees.
#[derive(Debug, PartialEq, Eq)]
#[allow(inconsistent_fields)]
pub enum Value {
    BinaryOperation { operator: BinaryOperator, left: Box<Value>, right: Box<Value> },
    Int(i64),
    UnaryOperation { operator: UnaryOperator, arg: Box<Value> },
    Variable(usize),
}

/// The binary operator a token names, if any.
pub open spec fn spec_binary_operator(t: Seq<char>) -> Option<BinaryOperator> {
    if t == "/"@ {
        Some(BinaryOperator::Division)
    } else if t == "-"@ {
        Some(BinaryOperator::Minus)
    } else if t == "*"@ {
        Some(BinaryOperator::Multiplication)
    } else if t == "+"@ {
        Some(BinaryOperator::Plus)
    } else {
        None
    }
}

/// The unary operator a token names, if any.
pub open spec fn spec_unary_operator(t: Seq<char>) -> Option<UnaryOperator> {
    if t == "abs"@ {
        Some(UnaryOperator::Abs)
    } else if t == "fact"@ || t == "!"@ {
        Some(UnaryOperator::Factorial)
    } else if t == "neg"@ {
        Some(UnaryOperator::Negative)
    } else if t == "pred"@ {
        Some(UnaryOperator::Predecessor)
    } else if t == "sgn"@ {
        Some(UnaryOperator::Signum)
    } else if t == "succ"@ {
        Some(UnaryOperator::Successor)
    } else {
        None
    }
}

impl BinaryOperator {
    /// Recognises `/`, `-`, `*` and `+`.
    pub fn from_token(t: &str) -> (r: Option<BinaryOperator>)
        ensures
            r == spec_binary_operator(t@),
    {
        if str_eq(t, "/") {
            Some(BinaryOperator::Division)
        } else if str_eq(t, "-") {
            Some(BinaryOperator::Minus)
        } else if str_eq(t, "*") {
            Some(BinaryOperator::Multiplication)
        } else if str_eq(t, "+") {
            Some(BinaryOperator::Plus)
        } else {
            None
        }
    }
}

impl UnaryOperator {
    /// Recognises `abs`, `fact` (also written `!`), `neg`, `pred`, `sgn`
    /// and `succ`.
    pub fn from_token(t: &str) -> (r: Option<UnaryOperator>)
        ensures
            r == spec_unary_operator(t@),
    {
        if str_eq(t, "abs") {
            Some(UnaryOperator::Abs)
        } else if str_eq(t, "fact") || str_eq(t, "!") {
            Some(UnaryOperator::Factorial)
        } else if str_eq(t, "neg") {
            Some(UnaryOperator::Negative)
        } else if str_eq(t, "pred") {
            Some(UnaryOperator::Predecessor)
        } else if str_eq(t, "sgn") {
            Some(UnaryOperator::Signum)
        } else if str_eq(t, "succ") {
            Some(UnaryOperator::Successor)
        } else {
            None
        }
    }
}

} // verus!
