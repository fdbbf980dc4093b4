//! Processing one input line against the session history.
//!
//! A line is split into tokens, parsed as one expression, required to have
//! no trailing tokens, and evaluated against the history of the results of
//! earlier lines. The caller owns the history: it appends the result after
//! a successful line and leaves the history unchanged after a failed one.

use crate::eval::{evaluate_value, spec_eval, spec_eval_error_message, EvalError};
use crate::parser::{parse_at, parse_value, spec_parse_error_message, ParseError, SpecParseError};
use crate::tokens::{spec_tokenize, token_views, tokenize};
use vstd::prelude::*;

verus! {

/// The specification-level errors of one line.
pub enum SpecLineError {
    Parse(SpecParseError),
    TrailingInput(Seq<char>),
    Eval(EvalError),
}

/// Everything that can go wrong with one line: a parse error, a token left
/// over after the parsed expression, or an evaluation error.
#[derive(Debug, PartialEq, Eq)]
pub enum LineError {
    Parse(ParseError),
    TrailingInput(String),
    Eval(EvalError),
}

impl View for LineError {
    type V = SpecLineError;

    open spec fn view(&self) -> SpecLineError {
        match self {
            LineError::Parse(e) => SpecLineError::Parse(e@),
            LineError::TrailingInput(t) => SpecLineError::TrailingInput(t@),
            LineError::Eval(e) => SpecLineError::Eval(*e),
        }
    }
}

/// Processes an already tokenized line: parse one expression, reject any
/// token left over, evaluate against the history.
pub open spec fn spec_process_tokens(toks: Seq<Seq<char>>, h: Seq<i64>) -> Result<
    int,
    SpecLineError,
> {
    match parse_at(toks, 0) {
        Ok((v, j)) => if j < toks.len() {
            Err(SpecLineError::TrailingInput(toks[j]))
        } else {
            match spec_eval(v, h) {
                Ok(n) => Ok(n),
                Err(e) => Err(SpecLineError::Eval(e)),
            }
        },
        Err(e) => Err(SpecLineError::Parse(e)),
    }
}

/// Processes one line of text against the history.
pub open spec fn spec_process_line(s: Seq<char>, h: Seq<i64>) -> Result<int, SpecLineError> {
    spec_process_tokens(spec_tokenize(s), h)
}

/// What `process_line` promises: its answer is `spec_process_line`'s.
pub open spec fn line_result_matches(s: Seq<char>, h: Seq<i64>, r: Result<i64, LineError>) -> bool {
    match r {
        Ok(n) => spec_process_line(s, h) == Ok::<int, SpecLineError>(n as int),
        Err(e) => spec_process_line(s, h) == Err::<int, SpecLineError>(e@),
    }
}

/// Tokenizes, parses and evaluates one input line against `history`,
/// exactly as `spec_process_line` describes. The history is not touched:
/// on success the caller appends the returned value to it.
pub fn process_line(line: &str, history: &Vec<i64>) -> (r: Result<i64, LineError>)
    ensures
        line_result_matches(line@, history@, r),
{
    let tokens = tokenize(line);
    match parse_value(&tokens, 0) {
        Ok((value, j)) => {
            if j < tokens.len() {
                let t: &str = tokens[j];
                proof {
                    assert(token_views(tokens@)[j as int] == t@);
                }
                Err(LineError::TrailingInput(t.to_owned()))
            } else {
                match evaluate_value(&value, history) {
                    Ok(n) => Ok(n),
                    Err(e) => Err(LineError::Eval(e)),
                }
            }
        },
        Err(e) => Err(LineError::Parse(e)),
    }
}

/// The message text of each line error, as the session prints it.
pub open spec fn spec_line_error_message(e: SpecLineError) -> Seq<char> {
    match e {
        SpecLineError::Parse(pe) => spec_parse_error_message(pe),
        SpecLineError::TrailingInput(t) => "Expected end of line, instead found '"@ + t + "'."@,
        SpecLineError::Eval(ee) => spec_eval_error_message(ee),
    }
}

impl LineError {
    /// Renders the error as the session prints it.
    pub fn message(&self) -> (m: String)
        ensures
            m@ == spec_line_error_message(self@),
    {
        match self {
            LineError::Parse(e) => e.message(),
            LineError::TrailingInput(t) => {
                let mut m = "Expected end of line, instead found '".to_owned();
                m.append(t.as_str());
                m.append("'.");
                proof {
                    assert(m@ =~= spec_line_error_message(self@));
                }
                m
            },
            LineError::Eval(e) => e.message(),
        }
    }
}

} // verus!
