//! End-to-end tests of the engine: parse a raw string to a tree, evaluate
//! it, and check the integer or the failure.

use calculator::Expr;
use calculator::parse;

#[test]
fn basic_addition() {
    let input = "3+4";
    let res: i64 = 3 + 4;
    let expr = Expr::parse(input).unwrap();

    assert_eq!(expr.eval().unwrap(), res);
}

#[test]
fn basic_multiplication() {
    let input = "3*4";
    let res: i64 = 3 * 4;
    let expr = Expr::parse(input).unwrap();

    assert_eq!(expr.eval().unwrap(), res);
}

#[test]
fn addition_and_left_mult() {
    let input = "3+4*5";
    let res: i64 = 3 + 4 * 5;
    let expr = Expr::parse(input).unwrap();

    assert_eq!(expr.eval().unwrap(), res);
}

#[test]
fn addition_and_right_mult() {
    let input = "3*4+5";
    let res: i64 = 3 * 4 + 5;
    let expr = Expr::parse(input).unwrap();

    assert_eq!(expr.eval().unwrap(), res);
}

#[test]
fn left_parentheses() {
    let input = "(3+4)*5";
    let res: i64 = (3 + 4) * 5;
    let expr = Expr::parse(input).unwrap();

    assert_eq!(expr.eval().unwrap(), res);
}

#[test]
fn right_parentheses() {
    let input = "3*(4+5)";
    let res: i64 = 3 * (4 + 5);
    let expr = Expr::parse(input).unwrap();

    assert_eq!(expr.eval().unwrap(), res);
}

#[test]
fn crash_missmatch() {
    let input = "3*(4+(5+)";
    assert!(Expr::parse(input).is_err());
}

#[test]
fn complex1() {
    let input = "1 -1   + 2   - 2   +  4 - 4 +    6";
    let res: i64 = 6;
    let expr = Expr::parse(input).unwrap();

    assert_eq!(expr.eval().unwrap(), res);
}

#[test]
fn complex2() {
    let input = "2*3*4/8 -   5/2*4 +  6 + 0/3 ";
    let res: i64 = 2 * 3 * 4 / 8 - 5 / 2 * 4 + 6 + 0 / 3;
    let expr = Expr::parse(input).unwrap();

    assert_eq!(expr.eval().unwrap(), res);
}

#[test]
fn complex3() {
    let input: &str = "(2) + (17*2-30) * (5)+2 - (8/2)*4";
    let res: i64 = 8;
    let expr = Expr::parse(input).unwrap();

    assert_eq!(expr.eval().unwrap(), res);
}

#[test]
fn div_zero() {
    let input = "1/0";
    let expr = Expr::parse(input).unwrap();
    assert!(expr.eval().is_err());
}

#[test]
fn mod_negative_value() {
    let input = "-2";
    let expr = Expr::parse(input).unwrap();
    assert_eq!(expr.eval().unwrap(), -2);
}

#[test]
fn neg_in_parentheses() {
    let input = "1 + (-2)";
    let expr = Expr::parse(input).unwrap();
    assert_eq!(expr.eval().unwrap(), -1);
}

#[test]
fn basic_pow() {
    let input = "2^3";
    let res: i64 = 8;
    let expr = Expr::parse(input).unwrap();

    assert_eq!(expr.eval().unwrap(), res);
}

#[test]
fn two_pow() {
    let input = "2^3^2";
    let res: i64 = 512;
    let expr = Expr::parse(input).unwrap();

    assert_eq!(expr.eval().unwrap(), res);
}

#[test]
fn pow_parentheses() {
    let input = "2^(3+4)";
    let res: i64 = 128;
    let expr = Expr::parse(input).unwrap();

    assert_eq!(expr.eval().unwrap(), res);
}

#[test]
fn basic_mod() {
    let input = "7 % 3";
    let result = 1;
    let expr = Expr::parse(input).unwrap();

    assert_eq!(expr.eval().unwrap(), result);
}

#[test]
fn helper_parse() {
    let input = "(2) + (17*2-30) * (5)+2 - (8/2)*4";
    let result: i64 = 8;

    assert_eq!(parse(input).unwrap(), result);
}
