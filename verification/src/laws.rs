//! Laws of the calculator, proved from the specifications.

use crate::ast::{spec_binary_operator, BinaryOperator, Value};
use crate::digits::{is_digit, is_int_token, signed_digits, signed_value};
use crate::eval::{checked, in_i64, spec_eval, trunc_div, EvalError};
use crate::parser::{parse_at, spec_parse, SpecParseError};
use crate::session::{spec_process_tokens, SpecLineError};
use vstd::arithmetic::div_mod::{lemma_div_is_ordered_by_denominator, lemma_div_nonincreasing,
    lemma_div_pos_is_pos};
use vstd::prelude::*;

verus! {

/// An integer token is not empty and does not begin with `$`.
proof fn lemma_int_token_shape(t: Seq<char>)
    requires
        is_int_token(t),
    ensures
        t.len() > 0,
        t[0] != '$',
{
    assert(signed_digits(t).len() > 0);
    if t.len() == 0 {
        assert(signed_digits(t) == t);
        assert(false);
    }
    if t[0] == '$' {
        assert(signed_digits(t) == t);
        assert(is_digit(t[0]));
        assert(false);
    }
}

/// The truncating quotient of two `i64` values fits in an `i64`, except
/// for dividing the smallest value by minus one.
pub proof fn lemma_trunc_div_in_range(a: int, b: int)
    requires
        in_i64(a),
        in_i64(b),
        b != 0,
        !(a == i64::MIN && b == -1),
    ensures
        in_i64(trunc_div(a, b)),
{
    let ma = if a < 0 {
        -a
    } else {
        a
    };
    let mb = if b < 0 {
        -b
    } else {
        b
    };
    let q = ma / mb;
    lemma_div_pos_is_pos(ma, mb);
    lemma_div_nonincreasing(ma, mb);
    if a == 0 {
        assert(trunc_div(a, b) == 0);
    } else if (a < 0) == (b < 0) {
        assert(trunc_div(a, b) == q);
        if ma > i64::MAX {
            assert(a == i64::MIN);
            assert(b < 0 && b != -1);
            assert(mb >= 2);
            lemma_div_is_ordered_by_denominator(ma, 2, mb);
            assert(ma / 2 == 0x4000000000000000);
        }
    } else {
        assert(trunc_div(a, b) == -q);
    }
}

/// Division of two literals. For any integer tokens with values `a` and
/// `b`, the line of the three tokens `/`, `a`, `b` evaluates to the
/// quotient of `a` and `b` truncated toward zero when `b` is not zero, and
/// to the division-by-zero error when `b` is zero. (The one quotient that
/// leaves the machine range, the smallest value divided by minus one, is
/// excluded.)
pub proof fn lemma_division_line(ta: Seq<char>, tb: Seq<char>, h: Seq<i64>)
    requires
        is_int_token(ta),
        is_int_token(tb),
        !(signed_value(ta) == i64::MIN && signed_value(tb) == -1),
    ensures
        signed_value(tb) != 0 ==> spec_process_tokens(seq!["/"@, ta, tb], h) == Ok::<
            int,
            SpecLineError,
        >(trunc_div(signed_value(ta), signed_value(tb))),
        signed_value(tb) == 0 ==> spec_process_tokens(seq!["/"@, ta, tb], h) == Err::<
            int,
            SpecLineError,
        >(SpecLineError::Eval(EvalError::DivisionByZero)),
{
    let toks = seq!["/"@, ta, tb];
    let a = signed_value(ta);
    let b = signed_value(tb);
    reveal_strlit("/");
    assert("/"@.len() == 1);
    assert("/"@[0] == '/');
    assert(signed_digits("/"@) == "/"@);
    assert(!is_digit(signed_digits("/"@)[0]));
    assert(!is_int_token("/"@));
    assert(spec_binary_operator("/"@) == Some(BinaryOperator::Division));
    lemma_int_token_shape(ta);
    lemma_int_token_shape(tb);
    assert(toks.len() == 3);
    assert(toks[0] == "/"@);
    assert(toks[1] == ta);
    assert(toks[2] == tb);
    let tree = Value::BinaryOperation {
        operator: BinaryOperator::Division,
        left: Box::new(Value::Int(a as i64)),
        right: Box::new(Value::Int(b as i64)),
    };
    assert(parse_at(toks, 0) == Ok::<(Value, int), SpecParseError>((tree, 3))) by {
        reveal_with_fuel(spec_parse, 4);
        assert(spec_parse(toks, 1, 3) == Ok::<(Value, int), SpecParseError>(
            (Value::Int(a as i64), 2),
        ));
        assert(spec_parse(toks, 2, 3) == Ok::<(Value, int), SpecParseError>(
            (Value::Int(b as i64), 3),
        ));
    }
    assert(spec_eval(Value::Int(a as i64), h) == Ok::<int, EvalError>(a));
    assert(spec_eval(Value::Int(b as i64), h) == Ok::<int, EvalError>(b));
    if b == 0 {
        assert(spec_eval(tree, h) == Err::<int, EvalError>(EvalError::DivisionByZero));
    } else {
        lemma_trunc_div_in_range(a, b);
        assert(checked(trunc_div(a, b)) == Ok::<int, EvalError>(trunc_div(a, b)));
        assert(spec_eval(tree, h) == Ok::<int, EvalError>(trunc_div(a, b)));
    }
}

} // verus!
