use prefix_calc::eval::{evaluate_value, factorial, EvalError};
use prefix_calc::parser::parse_value;
use prefix_calc::tokens::tokenize;

fn to_result(input: &str) -> Result<i64, EvalError> {
    let mut history: Vec<i64> = Vec::new();
    for line in input.lines() {
        let tokens = tokenize(line);
        let (value, _) = parse_value(&tokens, 0).unwrap();
        match evaluate_value(&value, &history) {
            Ok(int) => history.push(int),
            Err(e) => return Err(e),
        }
    }
    Ok(*history.last().unwrap())
}

#[test]
fn priority() {
    assert_eq!(to_result("* + 3 - 2 1 / 16 4"), Ok(16))
}

#[test]
fn sequence() {
    assert_eq!(
        to_result(
            r#"
                    + 3 2
                    * 2 5
                    / $1 $0
                "#
            .trim()
        ),
        Ok(2),
    )
}

#[test]
fn addition() {
    assert_eq!(to_result("+ 3 2"), Ok(5));
}

#[test]
fn right_heavy_tree_truncates() {
    assert_eq!(to_result("+ 3 * 8 / 2 3"), Ok(3));
}

#[test]
fn variables_against_history() {
    let tokens = tokenize("- $0 $1");
    let (value, _) = parse_value(&tokens, 0).unwrap();
    let history = vec![5, 2];
    assert_eq!(evaluate_value(&value, &history), Ok(3));
}

#[test]
fn division_truncates_toward_zero() {
    assert_eq!(to_result("/ 7 2"), Ok(3));
    assert_eq!(to_result("/ -7 2"), Ok(-3));
    assert_eq!(to_result("/ 7 -2"), Ok(-3));
    assert_eq!(to_result("/ -7 -2"), Ok(3));
}

#[test]
fn division_by_zero() {
    let err = to_result("/ 1 0").unwrap_err();
    assert_eq!(err, EvalError::DivisionByZero);
    assert_eq!(err.message(), "Division by zero.");
}

#[test]
fn factorial_of_four() {
    assert_eq!(to_result("fact 4"), Ok(24));
    assert_eq!(to_result("! 5"), Ok(120));
}

#[test]
fn factorial_rejects_non_positive() {
    let err = to_result("fact 0").unwrap_err();
    assert_eq!(err, EvalError::FactorialOfNonPositive);
    assert_eq!(
        err.message(),
        "Expected a non-negative number as an! argument to factorial."
    );
    assert_eq!(to_result("fact -1").unwrap_err(), EvalError::FactorialOfNonPositive);
}

#[test]
fn factorial_at_the_edge_of_range() {
    assert_eq!(to_result("fact 20"), Ok(2432902008176640000));
    assert_eq!(to_result("fact 21").unwrap_err(), EvalError::Overflow);
}

#[test]
fn unary_operators() {
    assert_eq!(to_result("abs -5"), Ok(5));
    assert_eq!(to_result("abs 5"), Ok(5));
    assert_eq!(to_result("neg 3"), Ok(-3));
    assert_eq!(to_result("neg -3"), Ok(3));
    assert_eq!(to_result("pred 0"), Ok(-1));
    assert_eq!(to_result("succ 41"), Ok(42));
    assert_eq!(to_result("sgn -9"), Ok(-1));
    assert_eq!(to_result("sgn 0"), Ok(0));
    assert_eq!(to_result("sgn 7"), Ok(1));
}

#[test]
fn arithmetic_overflow_is_an_error() {
    let err = to_result("* 9223372036854775807 2").unwrap_err();
    assert_eq!(err, EvalError::Overflow);
    assert_eq!(err.message(), "Arithmetic overflow.");
    assert_eq!(to_result("+ 9223372036854775807 1").unwrap_err(), EvalError::Overflow);
    assert_eq!(to_result("- -9223372036854775808 1").unwrap_err(), EvalError::Overflow);
    assert_eq!(to_result("/ -9223372036854775808 -1").unwrap_err(), EvalError::Overflow);
    assert_eq!(to_result("abs -9223372036854775808").unwrap_err(), EvalError::Overflow);
    assert_eq!(to_result("neg -9223372036854775808").unwrap_err(), EvalError::Overflow);
    assert_eq!(to_result("pred -9223372036854775808").unwrap_err(), EvalError::Overflow);
    assert_eq!(to_result("succ 9223372036854775807").unwrap_err(), EvalError::Overflow);
}

#[test]
fn invalid_variable_index() {
    let err = to_result("$12").unwrap_err();
    assert_eq!(err, EvalError::InvalidVariableIndex(12));
    assert_eq!(err.message(), "Invalid variable index '12'.");
}

#[test]
fn left_error_wins() {
    assert_eq!(to_result("+ $7 / 1 0").unwrap_err(), EvalError::InvalidVariableIndex(7));
}

#[test]
fn factorial_function() {
    assert_eq!(factorial(0), 1);
    assert_eq!(factorial(1), 1);
    assert_eq!(factorial(5), 120);
    assert_eq!(factorial(10), 3628800);
}
