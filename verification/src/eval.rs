//! Tree-walking evaluation of an expression against the session history.
//!
//! `spec_eval` is the mathematical evaluator: it works over unbounded
//! integers and never overflows. The executable `evaluate_value` agrees
//! with it wherever every intermediate result fits in an `i64`, and
//! returns `EvalError::Overflow` exactly where `spec_eval` reports that a
//! result leaves the `i64` range. Operands are evaluated left to right and
//! the left error wins.

use crate::ast::{BinaryOperator, UnaryOperator, Value};
use crate::digits::{append_decimal, spec_decimal};
use vstd::prelude::*;

verus! {

/// An evaluation error. `Overflow` reports a result outside the `i64`
/// range, where unbounded arithmetic would have gone on.
#[derive(Copy, Clone, Debug, PartialEq, Eq, Structural)]
pub enum EvalError {
    InvalidVariableIndex(usize),
    DivisionByZero,
    FactorialOfNonPositive,
    Overflow,
}

/// Whether `n` fits in an `i64`.
pub open spec fn in_i64(n: int) -> bool {
    i64::MIN <= n <= i64::MAX
}

/// `n` itself where it fits in an `i64`, and the overflow error elsewhere.
pub open spec fn checked(n: int) -> Result<int, EvalError> {
    if in_i64(n) {
        Ok(n)
    } else {
        Err(EvalError::Overflow)
    }
}

/// Integer division truncating toward zero.
pub open spec fn trunc_div(x: int, d: int) -> int {
    if x == 0 {
        0
    } else if x > 0 && d > 0 {
        x / d
    } else if x < 0 && d < 0 {
        (x * -1) / (d * -1)
    } else if x < 0 {
        ((x * -1) / d) * -1
    } else {
        (x / (d * -1)) * -1
    }
}

/// The sign of `x`: -1, 0 or 1.
pub open spec fn spec_sign(x: int) -> int {
    if x > 0 {
        1
    } else if x < 0 {
        -1
    } else {
        0
    }
}

/// The absolute value of `x`.
pub open spec fn spec_abs(x: int) -> int {
    if x < 0 {
        -x
    } else {
        x
    }
}

/// The factorial of `n`, with `spec_factorial(0) == 1`.
pub open spec fn spec_factorial(n: nat) -> nat
    decreases n,
{
    if n == 0 {
        1
    } else {
        n * spec_factorial((n - 1) as nat)
    }
}

/// Factorials are at least one.
pub proof fn lemma_factorial_pos(n: nat)
    ensures
        spec_factorial(n) >= 1,
    decreases n,
{
    if n > 0 {
        lemma_factorial_pos((n - 1) as nat);
        assert(n * spec_factorial((n - 1) as nat) >= 1) by (nonlinear_arith)
            requires
                n >= 1,
                spec_factorial((n - 1) as nat) >= 1,
        ;
    }
}

/// Evaluates `v` against the history `h`: literals denote themselves,
/// variable references index into `h`, operators apply to the values of
/// their fully evaluated operands. Division by zero, a variable index past
/// the history, a factorial of a non-positive number, and a result outside
/// the `i64` range each yield their error; for a binary operator the left
/// operand's error wins.
pub open spec fn spec_eval(v: Value, h: Seq<i64>) -> Result<int, EvalError>
    decreases v,
{
    match v {
        Value::Int(n) => Ok(n as int),
        Value::Variable(idx) => if idx < h.len() {
            Ok(h[idx as int] as int)
        } else {
            Err(EvalError::InvalidVariableIndex(idx))
        },
        Value::BinaryOperation { operator, left, right } => match spec_eval(*left, h) {
            Ok(a) => match spec_eval(*right, h) {
                Ok(b) => match operator {
                    BinaryOperator::Division => if b == 0 {
                        Err(EvalError::DivisionByZero)
                    } else {
                        checked(trunc_div(a, b))
                    },
                    BinaryOperator::Minus => checked(a - b),
                    BinaryOperator::Multiplication => checked(a * b),
                    BinaryOperator::Plus => checked(a + b),
                },
                Err(e) => Err(e),
            },
            Err(e) => Err(e),
        },
        Value::UnaryOperation { operator, arg } => match spec_eval(*arg, h) {
            Ok(x) => match operator {
                UnaryOperator::Abs => checked(spec_abs(x)),
                UnaryOperator::Factorial => if x > 0 {
                    checked(spec_factorial(x as nat) as int)
                } else {
                    Err(EvalError::FactorialOfNonPositive)
                },
                UnaryOperator::Negative => checked(-x),
                UnaryOperator::Predecessor => checked(x - 1),
                UnaryOperator::Signum => Ok(spec_sign(x)),
                UnaryOperator::Successor => checked(x + 1),
            },
            Err(e) => Err(e),
        },
    }
}

/// The recursive factorial on machine integers, as a total function of the
/// arguments on which it stays in range.
pub fn factorial(n: usize) -> (r: usize)
    requires
        spec_factorial(n as nat) <= usize::MAX,
    ensures
        r == spec_factorial(n as nat),
    decreases n,
{
    if n == 0 {
        1
    } else {
        proof {
            lemma_factorial_pos((n - 1) as nat);
            assert(spec_factorial(n as nat) == n * spec_factorial((n - 1) as nat));
            assert(n * spec_factorial((n - 1) as nat) >= spec_factorial((n - 1) as nat))
                by (nonlinear_arith)
                requires
                    n >= 1,
                    spec_factorial((n - 1) as nat) >= 1,
            ;
        }
        let rec = factorial(n - 1);
        n * rec
    }
}

/// The factorial of a positive number, or `None` where it leaves `i64`.
fn checked_factorial(x: i64) -> (r: Option<i64>)
    requires
        x >= 1,
    ensures
        match r {
            Some(v) => v == spec_factorial(x as nat),
            None => spec_factorial(x as nat) > i64::MAX,
        },
    decreases x,
{
    if x == 1 {
        proof {
            reveal_with_fuel(spec_factorial, 2);
        }
        Some(1)
    } else {
        proof {
            assert(spec_factorial(x as nat) == x * spec_factorial((x - 1) as nat));
            lemma_factorial_pos((x - 1) as nat);
        }
        match checked_factorial(x - 1) {
            None => {
                proof {
                    assert(x * spec_factorial((x - 1) as nat) >= spec_factorial((x - 1) as nat))
                        by (nonlinear_arith)
                        requires
                            x >= 2,
                            spec_factorial((x - 1) as nat) >= 1,
                    ;
                }
                None
            },
            Some(f) => {
                proof {
                    assert(x * f >= 1) by (nonlinear_arith)
                        requires
                            x >= 2,
                            f >= 1,
                    ;
                }
                x.checked_mul(f)
            },
        }
    }
}

/// What the executable evaluator promises: its answer is `spec_eval`'s.
pub open spec fn eval_result_matches(v: Value, h: Seq<i64>, r: Result<i64, EvalError>) -> bool {
    match r {
        Ok(n) => spec_eval(v, h) == Ok::<int, EvalError>(n as int),
        Err(e) => spec_eval(v, h) == Err::<int, EvalError>(e),
    }
}

/// Evaluates `value` against `history`, exactly as `spec_eval` describes.
pub fn evaluate_value(value: &Value, history: &Vec<i64>) -> (r: Result<i64, EvalError>)
    ensures
        eval_result_matches(*value, history@, r),
    decreases *value,
{
    match value {
        Value::Int(n) => Ok(*n),
        Value::Variable(idx) => {
            if *idx < history.len() {
                Ok(history[*idx])
            } else {
                Err(EvalError::InvalidVariableIndex(*idx))
            }
        },
        Value::BinaryOperation { operator, left, right } => {
            match evaluate_value(&**left, history) {
                Ok(a) => {
                    match evaluate_value(&**right, history) {
                        Ok(b) => {
                            match operator {
                                BinaryOperator::Division => {
                                    if b == 0 {
                                        Err(EvalError::DivisionByZero)
                                    } else {
                                        match a.checked_div(b) {
                                            Some(q) => Ok(q),
                                            None => Err(EvalError::Overflow),
                                        }
                                    }
                                },
                                BinaryOperator::Minus => {
                                    match a.checked_sub(b) {
                                        Some(v) => Ok(v),
                                        None => Err(EvalError::Overflow),
                                    }
                                },
                                BinaryOperator::Multiplication => {
                                    match a.checked_mul(b) {
                                        Some(v) => Ok(v),
                                        None => Err(EvalError::Overflow),
                                    }
                                },
                                BinaryOperator::Plus => {
                                    match a.checked_add(b) {
                                        Some(v) => Ok(v),
                                        None => Err(EvalError::Overflow),
                                    }
                                },
                            }
                        },
                        Err(e) => Err(e),
                    }
                },
                Err(e) => Err(e),
            }
        },
        Value::UnaryOperation { operator, arg } => {
            match evaluate_value(&**arg, history) {
                Ok(x) => {
                    match operator {
                        UnaryOperator::Abs => {
                            if x == i64::MIN {
                                Err(EvalError::Overflow)
                            } else if x < 0 {
                                Ok(-x)
                            } else {
                                Ok(x)
                            }
                        },
                        UnaryOperator::Factorial => {
                            if x > 0 {
                                match checked_factorial(x) {
                                    Some(v) => Ok(v),
                                    None => Err(EvalError::Overflow),
                                }
                            } else {
                                Err(EvalError::FactorialOfNonPositive)
                            }
                        },
                        UnaryOperator::Negative => {
                            if x == i64::MIN {
                                Err(EvalError::Overflow)
                            } else {
                                Ok(-x)
                            }
                        },
                        UnaryOperator::Predecessor => {
                            match x.checked_sub(1) {
                                Some(v) => Ok(v),
                                None => Err(EvalError::Overflow),
                            }
                        },
                        UnaryOperator::Signum => {
                            if x > 0 {
                                Ok(1)
                            } else if x < 0 {
                                Ok(-1)
                            } else {
                                Ok(0)
                            }
                        },
                        UnaryOperator::Successor => {
                            match x.checked_add(1) {
                                Some(v) => Ok(v),
                                None => Err(EvalError::Overflow),
                            }
                        },
                    }
                },
                Err(e) => Err(e),
            }
        },
    }
}

/// The message text of each evaluation error, as the session prints it.
pub open spec fn spec_eval_error_message(e: EvalError) -> Seq<char> {
    match e {
        EvalError::InvalidVariableIndex(idx) => "Invalid variable index '"@ + spec_decimal(
            idx as nat,
        ) + "'."@,
        EvalError::DivisionByZero => "Division by zero."@,
        EvalError::FactorialOfNonPositive => "Expected a non-negative number as an! argument to factorial."@,
        EvalError::Overflow => "Arithmetic overflow."@,
    }
}

impl EvalError {
    /// Renders the error as the session prints it.
    pub fn message(&self) -> (m: String)
        ensures
            m@ == spec_eval_error_message(*self),
    {
        match self {
            EvalError::InvalidVariableIndex(idx) => {
                let mut m = "Invalid variable index '".to_owned();
                append_decimal(&mut m, *idx);
                m.append("'.");
                proof {
                    assert(m@ =~= spec_eval_error_message(*self));
                }
                m
            },
            EvalError::DivisionByZero => "Division by zero.".to_owned(),
            EvalError::FactorialOfNonPositive => "Expected a non-negative number as an! argument to factorial.".to_owned(),
            EvalError::Overflow => "Arithmetic overflow.".to_owned(),
        }
    }
}

} // verus!
