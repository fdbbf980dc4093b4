//! Recursive-descent parsing of prefix-notation expressions.
//!
//! `spec_parse` is the mathematical parser. It works on a sequence of
//! tokens and a start position and returns the parsed tree together with
//! the position just past it. A token is classified in a fixed order:
//! variable reference (leading `$`), integer literal, binary operator,
//! unary operator, and only then rejected. When an operand of an operator
//! fails to parse, the operator reports an arity error and the inner cause
//! is deliberately discarded.
//!
//! The definition carries a fuel argument to bound its recursion; any fuel
//! at least the number of remaining tokens gives the same answer
//! (`lemma_spec_parse_fuel`), and `parse_at` fixes one such fuel. The
//! executable `parse_value` is proved to return exactly `parse_at`'s answer.

use crate::ast::{spec_binary_operator, spec_unary_operator, BinaryOperator, UnaryOperator, Value};
use crate::digits::{is_index_token, is_int_token, parse_index_token, parse_int_token,
    signed_value, unsigned_value};
use crate::tokens::token_views;
use vstd::prelude::*;

verus! {

/// The specification-level parse errors; each carries the token it is
/// about, as a sequence of characters.
pub enum SpecParseError {
    UnexpectedEndOfInput,
    InvalidVariableName(Seq<char>),
    BinaryOperatorArity(Seq<char>),
    UnaryOperatorArity(Seq<char>),
    UnrecognizedToken(Seq<char>),
}

/// A parse error, carrying the token it is about.
#[derive(Debug, PartialEq, Eq)]
pub enum ParseError {
    UnexpectedEndOfInput,
    InvalidVariableName(String),
    BinaryOperatorArity(String),
    UnaryOperatorArity(String),
    UnrecognizedToken(String),
}

impl View for ParseError {
    type V = SpecParseError;

    open spec fn view(&self) -> SpecParseError {
        match self {
            ParseError::UnexpectedEndOfInput => SpecParseError::UnexpectedEndOfInput,
            ParseError::InvalidVariableName(t) => SpecParseError::InvalidVariableName(t@),
            ParseError::BinaryOperatorArity(t) => SpecParseError::BinaryOperatorArity(t@),
            ParseError::UnaryOperatorArity(t) => SpecParseError::UnaryOperatorArity(t@),
            ParseError::UnrecognizedToken(t) => SpecParseError::UnrecognizedToken(t@),
        }
    }
}

/// Parses one expression of `toks` starting at position `i`, with `fuel`
/// bounding the recursion depth. On success the returned position is just
/// past the consumed tokens.
pub open spec fn spec_parse(toks: Seq<Seq<char>>, i: int, fuel: nat) -> Result<
    (Value, int),
    SpecParseError,
>
    decreases fuel,
{
    if i < 0 || i >= toks.len() {
        Err(SpecParseError::UnexpectedEndOfInput)
    } else if fuel == 0 {
        Err(SpecParseError::UnexpectedEndOfInput)
    } else {
        let t = toks[i];
        if t.len() > 0 && t[0] == '$' {
            if is_index_token(t.drop_first()) {
                Ok((Value::Variable(unsigned_value(t.drop_first()) as usize), i + 1))
            } else {
                Err(SpecParseError::InvalidVariableName(t))
            }
        } else if is_int_token(t) {
            Ok((Value::Int(signed_value(t) as i64), i + 1))
        } else if spec_binary_operator(t) is Some {
            let operator = spec_binary_operator(t)->0;
            match spec_parse(toks, i + 1, (fuel - 1) as nat) {
                Ok((left, j)) => match spec_parse(toks, j, (fuel - 1) as nat) {
                    Ok((right, k)) => Ok(
                        (
                            Value::BinaryOperation {
                                operator,
                                left: Box::new(left),
                                right: Box::new(right),
                            },
                            k,
                        ),
                    ),
                    Err(_) => Err(SpecParseError::BinaryOperatorArity(t)),
                },
                Err(_) => Err(SpecParseError::BinaryOperatorArity(t)),
            }
        } else if spec_unary_operator(t) is Some {
            let operator = spec_unary_operator(t)->0;
            match spec_parse(toks, i + 1, (fuel - 1) as nat) {
                Ok((arg, j)) => Ok((Value::UnaryOperation { operator, arg: Box::new(arg) }, j)),
                Err(_) => Err(SpecParseError::UnaryOperatorArity(t)),
            }
        } else {
            Err(SpecParseError::UnrecognizedToken(t))
        }
    }
}

/// A successful parse consumes at least one token and never runs past the
/// end of the token sequence.
pub proof fn lemma_spec_parse_progress(toks: Seq<Seq<char>>, i: int, fuel: nat)
    ensures
        spec_parse(toks, i, fuel) matches Ok((v, j)) ==> i + 1 <= j <= toks.len(),
    decreases fuel,
{
    if 0 <= i < toks.len() && fuel > 0 {
        lemma_spec_parse_progress(toks, i + 1, (fuel - 1) as nat);
        match spec_parse(toks, i + 1, (fuel - 1) as nat) {
            Ok((_, j)) => {
                lemma_spec_parse_progress(toks, j, (fuel - 1) as nat);
            },
            Err(_) => {
            },
        }
    }
}

/// Any fuel at least the number of remaining tokens gives the same answer.
pub proof fn lemma_spec_parse_fuel(toks: Seq<Seq<char>>, i: int, fuel1: nat, fuel2: nat)
    requires
        toks.len() - i <= fuel1,
        toks.len() - i <= fuel2,
    ensures
        spec_parse(toks, i, fuel1) == spec_parse(toks, i, fuel2),
    decreases fuel1,
{
    if 0 <= i < toks.len() {
        lemma_spec_parse_fuel(toks, i + 1, (fuel1 - 1) as nat, (fuel2 - 1) as nat);
        lemma_spec_parse_progress(toks, i + 1, (fuel1 - 1) as nat);
        match spec_parse(toks, i + 1, (fuel1 - 1) as nat) {
            Ok((_, j)) => {
                lemma_spec_parse_fuel(toks, j, (fuel1 - 1) as nat, (fuel2 - 1) as nat);
            },
            Err(_) => {
            },
        }
    }
}

/// Parses one expression of `toks` starting at position `i`.
pub open spec fn parse_at(toks: Seq<Seq<char>>, i: int) -> Result<(Value, int), SpecParseError> {
    spec_parse(toks, i, (toks.len() + 1) as nat)
}

/// What the executable parser promises: its answer is `parse_at`'s answer.
pub open spec fn parse_result_matches(
    toks: Seq<Seq<char>>,
    i: int,
    r: Result<(Value, usize), ParseError>,
) -> bool {
    match r {
        Ok((v, j)) => parse_at(toks, i) matches Ok(p) && p.0 == v && p.1 == j as int,
        Err(e) => parse_at(toks, i) matches Err(se) && se == e@,
    }
}

/// Parses one expression of `tokens` starting at position `i` and returns
/// it with the position just past it, exactly as `parse_at` describes.
pub fn parse_value(tokens: &Vec<&str>, i: usize) -> (r: Result<(Value, usize), ParseError>)
    ensures
        parse_result_matches(token_views(tokens@), i as int, r),
    decreases tokens@.len() - i,
{
    let ghost toks = token_views(tokens@);
    let ghost fuel = (toks.len() + 1) as nat;
    let n = tokens.len();
    if i >= n {
        return Err(ParseError::UnexpectedEndOfInput);
    }
    let t: &str = tokens[i];
    proof {
        assert(toks[i as int] == t@);
    }
    let tn = t.unicode_len();
    if tn > 0 && t.get_char(0) == '$' {
        let rest = t.substring_char(1, tn);
        proof {
            assert(rest@ =~= t@.drop_first());
        }
        match parse_index_token(rest) {
            Some(idx) => Ok((Value::Variable(idx), i + 1)),
            None => Err(ParseError::InvalidVariableName(t.to_owned())),
        }
    } else {
        proof {
            assert(!(t@.len() > 0 && t@[0] == '$'));
        }
        if let Some(v) = parse_int_token(t) {
            return Ok((Value::Int(v), i + 1));
        }
        match BinaryOperator::from_token(t) {
            Some(operator) => {
                let left_result = parse_value(tokens, i + 1);
                proof {
                    lemma_spec_parse_fuel(toks, i + 1, fuel, (fuel - 1) as nat);
                }
                match left_result {
                    Ok((left, j)) => {
                        proof {
                            lemma_spec_parse_progress(toks, i + 1, (fuel - 1) as nat);
                            lemma_spec_parse_fuel(toks, j as int, fuel, (fuel - 1) as nat);
                        }
                        match parse_value(tokens, j) {
                            Ok((right, k)) => Ok(
                                (
                                    Value::BinaryOperation {
                                        operator,
                                        left: Box::new(left),
                                        right: Box::new(right),
                                    },
                                    k,
                                ),
                            ),
                            Err(_) => Err(ParseError::BinaryOperatorArity(t.to_owned())),
                        }
                    },
                    Err(_) => Err(ParseError::BinaryOperatorArity(t.to_owned())),
                }
            },
            None => {
                match UnaryOperator::from_token(t) {
                    Some(operator) => {
                        let arg_result = parse_value(tokens, i + 1);
                        proof {
                            lemma_spec_parse_fuel(toks, i + 1, fuel, (fuel - 1) as nat);
                        }
                        match arg_result {
                            Ok((arg, j)) => Ok(
                                (Value::UnaryOperation { operator, arg: Box::new(arg) }, j),
                            ),
                            Err(_) => Err(ParseError::UnaryOperatorArity(t.to_owned())),
                        }
                    },
                    None => Err(ParseError::UnrecognizedToken(t.to_owned())),
                }
            },
        }
    }
}

/// The message text of each parse error, as the session prints it.
pub open spec fn spec_parse_error_message(e: SpecParseError) -> Seq<char> {
    match e {
        SpecParseError::UnexpectedEndOfInput => "Expected arguments at the end of input."@,
        SpecParseError::InvalidVariableName(t) => "Expected valid number as a variable name, instead got '"@
            + t + "'."@,
        SpecParseError::BinaryOperatorArity(t) => "Binary operator '"@ + t
            + "' expected two arguments."@,
        SpecParseError::UnaryOperatorArity(t) => "Unary operator '"@ + t
            + "' expected an argument."@,
        SpecParseError::UnrecognizedToken(t) => "Unexpected input '"@ + t + "'."@,
    }
}

impl ParseError {
    /// Renders the error as the session prints it.
    pub fn message(&self) -> (m: String)
        ensures
            m@ == spec_parse_error_message(self@),
    {
        match self {
            ParseError::UnexpectedEndOfInput => "Expected arguments at the end of input.".to_owned(),
            ParseError::InvalidVariableName(t) => {
                let mut m = "Expected valid number as a variable name, instead got '".to_owned();
                m.append(t.as_str());
                m.append("'.");
                proof {
                    assert(m@ =~= spec_parse_error_message(self@));
                }
                m
            },
            ParseError::BinaryOperatorArity(t) => {
                let mut m = "Binary operator '".to_owned();
                m.append(t.as_str());
                m.append("' expected two arguments.");
                proof {
                    assert(m@ =~= spec_parse_error_message(self@));
                }
                m
            },
            ParseError::UnaryOperatorArity(t) => {
                let mut m = "Unary operator '".to_owned();
                m.append(t.as_str());
                m.append("' expected an argument.");
                proof {
                    assert(m@ =~= spec_parse_error_message(self@));
                }
                m
            },
            ParseError::UnrecognizedToken(t) => {
                let mut m = "Unexpected input '".to_owned();
                m.append(t.as_str());
                m.append("'.");
                proof {
                    assert(m@ =~= spec_parse_error_message(self@));
                }
                m
            },
        }
    }
}

} // verus!
