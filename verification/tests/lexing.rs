//! Tests of the tokenizer: digit runs, operator symbols, parentheses,
//! spaces, and the lexical errors.

use calculator::LexError;
use calculator::Op;
use calculator::Token;
use calculator::tokenize;

#[test]
fn basic() {
    let input = "12 + (1 * 7)";
    let tokens = tokenize(input).unwrap();
    assert_eq!(
        tokens,
        vec![
            Token::Literal(12),
            Token::Operator(Op::Add),
            Token::OpenParen,
            Token::Literal(1),
            Token::Operator(Op::Mul),
            Token::Literal(7),
            Token::CloseParen,
        ]
    );
}

#[test]
fn all_operator_symbols() {
    let tokens = tokenize("1+2-3*4/5%6^7").unwrap();
    assert_eq!(
        tokens,
        vec![
            Token::Literal(1),
            Token::Operator(Op::Add),
            Token::Literal(2),
            Token::Operator(Op::Sub),
            Token::Literal(3),
            Token::Operator(Op::Mul),
            Token::Literal(4),
            Token::Operator(Op::Div),
            Token::Literal(5),
            Token::Operator(Op::Mod),
            Token::Literal(6),
            Token::Operator(Op::Pow),
            Token::Literal(7),
        ]
    );
}

#[test]
fn empty_input_has_no_tokens() {
    assert_eq!(tokenize("").unwrap(), vec![]);
    assert_eq!(tokenize("   ").unwrap(), vec![]);
}

#[test]
fn unrecognized_character() {
    assert_eq!(tokenize("3+a"), Err(LexError::UnrecognizedCharacter('a')));
}

#[test]
fn largest_literal_fits() {
    let tokens = tokenize("9223372036854775807").unwrap();
    assert_eq!(tokens, vec![Token::Literal(i64::MAX)]);
}

#[test]
fn literal_too_large() {
    assert_eq!(
        tokenize("9223372036854775808"),
        Err(LexError::NumberTooLarge)
    );
    assert_eq!(
        tokenize("99999999999999999999999"),
        Err(LexError::NumberTooLarge)
    );
}
