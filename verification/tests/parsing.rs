use prefix_calc::ast::{BinaryOperator, UnaryOperator, Value};
use prefix_calc::parser::{parse_value, ParseError};
use prefix_calc::tokens::tokenize;

fn to_result(input: &str) -> Result<Value, ParseError> {
    let tokens = tokenize(input);
    match parse_value(&tokens, 0) {
        Ok((value, _)) => Ok(value),
        Err(e) => Err(e),
    }
}

#[test]
fn expressions() {
    assert_eq!(
        to_result("+ 3 2"),
        Ok(Value::BinaryOperation {
            operator: BinaryOperator::Plus,
            left: Box::new(Value::Int(3)),
            right: Box::new(Value::Int(2)),
        })
    );

    assert_eq!(
        to_result("+ 3 * 8 / 2 3"),
        Ok(Value::BinaryOperation {
            operator: BinaryOperator::Plus,
            left: Box::new(Value::Int(3)),
            right: Box::new(Value::BinaryOperation {
                operator: BinaryOperator::Multiplication,
                left: Box::new(Value::Int(8)),
                right: Box::new(Value::BinaryOperation {
                    operator: BinaryOperator::Division,
                    left: Box::new(Value::Int(2)),
                    right: Box::new(Value::Int(3)),
                }),
            }),
        })
    );
}

#[test]
fn variables() {
    assert_eq!(
        to_result("- $0 $1"),
        Ok(Value::BinaryOperation {
            operator: BinaryOperator::Minus,
            left: Box::new(Value::Variable(0)),
            right: Box::new(Value::Variable(1)),
        })
    );
}

#[test]
fn errors() {
    assert_eq!(
        to_result("").unwrap_err().message(),
        "Expected arguments at the end of input."
    );
    assert_eq!(
        to_result("$a").unwrap_err().message(),
        "Expected valid number as a variable name, instead got '$a'."
    );
    assert_eq!(
        to_result("* 1").unwrap_err().message(),
        "Binary operator '*' expected two arguments."
    );
    assert_eq!(to_result("!#").unwrap_err().message(), "Unexpected input '!#'.");
}

#[test]
fn unary_expressions() {
    assert_eq!(
        to_result("fact 4"),
        Ok(Value::UnaryOperation {
            operator: UnaryOperator::Factorial,
            arg: Box::new(Value::Int(4)),
        })
    );
    assert_eq!(
        to_result("! -2"),
        Ok(Value::UnaryOperation {
            operator: UnaryOperator::Factorial,
            arg: Box::new(Value::Int(-2)),
        })
    );
    assert_eq!(
        to_result("abs $3"),
        Ok(Value::UnaryOperation {
            operator: UnaryOperator::Abs,
            arg: Box::new(Value::Variable(3)),
        })
    );
}

#[test]
fn unary_arity_error() {
    assert_eq!(
        to_result("fact").unwrap_err().message(),
        "Unary operator 'fact' expected an argument."
    );
}

#[test]
fn signed_literals() {
    assert_eq!(to_result("-17"), Ok(Value::Int(-17)));
    assert_eq!(to_result("+3"), Ok(Value::Int(3)));
    assert_eq!(to_result("-9223372036854775808"), Ok(Value::Int(i64::MIN)));
    assert_eq!(to_result("9223372036854775807"), Ok(Value::Int(i64::MAX)));
}

#[test]
fn literal_out_of_range_is_unrecognized() {
    assert_eq!(
        to_result("9223372036854775808").unwrap_err().message(),
        "Unexpected input '9223372036854775808'."
    );
    assert_eq!(
        to_result("-9223372036854775809").unwrap_err().message(),
        "Unexpected input '-9223372036854775809'."
    );
}

#[test]
fn variable_with_plus_sign() {
    assert_eq!(to_result("$+2"), Ok(Value::Variable(2)));
}

#[test]
fn variable_with_minus_sign_is_invalid() {
    assert_eq!(
        to_result("$-1").unwrap_err().message(),
        "Expected valid number as a variable name, instead got '$-1'."
    );
    assert_eq!(
        to_result("$").unwrap_err().message(),
        "Expected valid number as a variable name, instead got '$'."
    );
}

#[test]
fn arity_error_hides_inner_cause() {
    assert_eq!(
        to_result("* + 1 %% 2").unwrap_err().message(),
        "Binary operator '*' expected two arguments."
    );
}

#[test]
fn unicode_whitespace_separates_tokens() {
    assert_eq!(
        to_result("+\u{a0}1\u{2003}2"),
        Ok(Value::BinaryOperation {
            operator: BinaryOperator::Plus,
            left: Box::new(Value::Int(1)),
            right: Box::new(Value::Int(2)),
        })
    );
}

#[test]
fn whitespace_is_insignificant() {
    assert_eq!(
        to_result("\t +   3 \t 2  "),
        Ok(Value::BinaryOperation {
            operator: BinaryOperator::Plus,
            left: Box::new(Value::Int(3)),
            right: Box::new(Value::Int(2)),
        })
    );
}
