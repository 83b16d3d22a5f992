//! Scenario tests for the engine's documented behavior: precedence,
//! associativity, parentheses, implicit multiplication, unary minus, the
//! semantic failures, and the fixed overflow policy.

use calculator::Error;
use calculator::EvalError;
use calculator::ParseError;
use calculator::parse;

#[test]
fn precedence_orders_operators() {
    assert_eq!(parse("3+4*5").unwrap(), 23);
    assert_eq!(parse("3*4+5").unwrap(), 17);
}

#[test]
fn power_is_right_associative() {
    assert_eq!(parse("2^3^2").unwrap(), 512);
}

#[test]
fn parentheses_override_precedence() {
    assert_eq!(parse("(3+4)*5").unwrap(), 35);
    assert_eq!(parse("3*(4+5)").unwrap(), 27);
}

#[test]
fn implicit_multiplication() {
    assert_eq!(parse("3(12)").unwrap(), 36);
    assert_eq!(parse("(12)3").unwrap(), 36);
}

#[test]
fn implicit_multiplication_chains() {
    assert_eq!(parse("(2)(3)").unwrap(), 6);
    assert_eq!(parse("2(3)4").unwrap(), 24);
}

#[test]
fn unary_minus() {
    assert_eq!(parse("-2").unwrap(), -2);
    assert_eq!(parse("1+(-2)").unwrap(), -1);
}

#[test]
fn modulo() {
    assert_eq!(parse("7%3").unwrap(), 1);
    assert_eq!(parse("-7%3").unwrap(), -1);
}

#[test]
fn division_truncates_toward_zero() {
    assert_eq!(parse("7/2").unwrap(), 3);
    assert_eq!(parse("(-7)/2").unwrap(), -3);
    assert_eq!(parse("7/(-2)").unwrap(), -3);
}

#[test]
fn division_and_modulo_by_zero_fail() {
    assert_eq!(
        parse("1/0"),
        Err(Error::Eval(EvalError::DivisionByZero(1)))
    );
    assert_eq!(parse("1%0"), Err(Error::Eval(EvalError::ModuloByZero(1))));
}

#[test]
fn power_edge_cases_fail() {
    assert_eq!(parse("0^0"), Err(Error::Eval(EvalError::UndefinedPower)));
    assert_eq!(
        parse("2^(0-1)"),
        Err(Error::Eval(EvalError::NegativeExponent))
    );
}

#[test]
fn power_plain_cases() {
    assert_eq!(parse("0^5").unwrap(), 0);
    assert_eq!(parse("5^0").unwrap(), 1);
    assert_eq!(parse("1^100").unwrap(), 1);
    assert_eq!(parse("(-1)^100").unwrap(), 1);
    assert_eq!(parse("(-1)^101").unwrap(), -1);
    assert_eq!(parse("(-2)^63").unwrap(), i64::MIN);
}

#[test]
fn overflow_fails() {
    assert_eq!(
        parse("9223372036854775807+1"),
        Err(Error::Eval(EvalError::Overflow))
    );
    assert_eq!(parse("2^64"), Err(Error::Eval(EvalError::Overflow)));
    assert_eq!(
        parse("3037000500*3037000500"),
        Err(Error::Eval(EvalError::Overflow))
    );
    assert_eq!(
        parse("(0-9223372036854775807-1)/(0-1)"),
        Err(Error::Eval(EvalError::Overflow))
    );
}

#[test]
fn structural_errors() {
    assert_eq!(
        parse("3*(4+(5+)"),
        Err(Error::Parse(ParseError::MismatchedParentheses))
    );
    assert_eq!(
        parse("(3"),
        Err(Error::Parse(ParseError::MismatchedParentheses))
    );
    assert_eq!(
        parse("3)"),
        Err(Error::Parse(ParseError::MismatchedParentheses))
    );
    assert_eq!(
        parse("5+"),
        Err(Error::Parse(ParseError::MismatchedOperator))
    );
    assert_eq!(
        parse("3 4"),
        Err(Error::Parse(ParseError::TooManyExpressions))
    );
    assert_eq!(parse(""), Err(Error::Parse(ParseError::EmptyOrUnparseable)));
    assert_eq!(
        parse("  "),
        Err(Error::Parse(ParseError::EmptyOrUnparseable))
    );
}

#[test]
fn evaluation_is_deterministic() {
    let input = "(2) + (17*2-30) * (5)+2 - (8/2)*4";
    let first = parse(input);
    let second = parse(input);
    assert_eq!(first, second);
    assert_eq!(first.unwrap(), 8);
}

#[test]
fn accepted_inputs_give_an_enumerated_outcome() {
    let inputs = ["1", "((((1))))", "2^3^2^0", "1+2*3-4/5%6", "0-0-0", "6%4%3"];
    for input in inputs {
        match parse(input) {
            Ok(_) => {},
            Err(Error::Lex(_)) | Err(Error::Parse(_)) | Err(Error::Eval(_)) => {},
        }
    }
    assert_eq!(parse("6%4%3").unwrap(), 2);
}
