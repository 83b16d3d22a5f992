//! The tokenizer: a single left-to-right scan that turns a raw character
//! string into a flat sequence of tokens.  A maximal run of decimal digits
//! becomes one `Literal`, each parenthesis and operator symbol becomes its
//! own token, spaces are skipped, and any other character is a lexical
//! error.

use vstd::prelude::*;

use crate::token::Op;
use crate::token::Token;

verus! {

/// A lexical failure: either a character outside the accepted alphabet, or a
/// digit run whose value does not fit in an `i64` (the engine's fixed
/// overflow policy is to fail).
#[derive(Clone, Copy, Debug, PartialEq, Eq, Structural)]
pub enum LexError {
    UnrecognizedCharacter(char),
    NumberTooLarge,
}

/// An ASCII decimal digit `'0'..='9'`.
pub open spec fn is_digit(c: char) -> bool {
    48 <= c as int <= 57
}

/// Numeric value of a digit character.
pub open spec fn digit_val(c: char) -> int {
    c as int - 48
}

/// Whether `c` is one of the six registered operator symbols.
pub open spec fn is_op_char(c: char) -> bool {
    c == '+' || c == '-' || c == '*' || c == '/' || c == '%' || c == '^'
}

/// The operator kind a symbol stands for.
pub open spec fn op_of_char(c: char) -> Op
    recommends
        is_op_char(c),
{
    if c == '+' {
        Op::Add
    } else if c == '-' {
        Op::Sub
    } else if c == '*' {
        Op::Mul
    } else if c == '/' {
        Op::Div
    } else if c == '%' {
        Op::Mod
    } else {
        Op::Pow
    }
}

/// Value of a digit sequence read most-significant first.
pub open spec fn digits_value(s: Seq<char>) -> int
    decreases s.len(),
{
    if s.len() == 0 {
        0
    } else {
        digits_value(s.drop_last()) * 10 + digit_val(s.last())
    }
}

/// First index at or after `i` that does not hold a digit (the end of the
/// maximal digit run starting at `i`).
pub open spec fn digit_run_end(s: Seq<char>, i: int) -> int
    decreases s.len() - i,
    when 0 <= i <= s.len()
{
    if i == s.len() || !is_digit(s[i]) {
        i
    } else {
        digit_run_end(s, i + 1)
    }
}

pub proof fn lemma_digit_run_end(s: Seq<char>, i: int)
    requires
        0 <= i <= s.len(),
    ensures
        i <= digit_run_end(s, i) <= s.len(),
        forall|k: int| i <= k < digit_run_end(s, i) ==> is_digit(#[trigger] s[k]),
        digit_run_end(s, i) == s.len() || !is_digit(s[digit_run_end(s, i)]),
        i < s.len() && is_digit(s[i]) ==> digit_run_end(s, i) > i,
    decreases s.len() - i,
{
    if i == s.len() || !is_digit(s[i]) {
    } else {
        lemma_digit_run_end(s, i + 1);
    }
}

/// The run end is the unique index bounding a digit run: if everything in
/// `[i, j)` is a digit and `j` is the length or a non-digit, the run ends at
/// `j`.
pub proof fn lemma_digit_run_end_unique(s: Seq<char>, i: int, j: int)
    requires
        0 <= i <= j <= s.len(),
        forall|k: int| i <= k < j ==> is_digit(#[trigger] s[k]),
        j == s.len() || !is_digit(s[j]),
    ensures
        digit_run_end(s, i) == j,
    decreases j - i,
{
    if i == j {
    } else {
        assert(is_digit(s[i]));
        lemma_digit_run_end_unique(s, i + 1, j);
    }
}

/// The token sequence for the suffix of `s` that starts at index `i`, or the
/// first lexical error in that suffix.
pub open spec fn spec_tokenize_from(s: Seq<char>, i: int) -> Result<Seq<Token>, LexError>
    decreases s.len() - i,
    when 0 <= i <= s.len()
{
    if i == s.len() {
        Ok(Seq::empty())
    } else if is_digit(s[i]) {
        let j = digit_run_end(s, i);
        let v = digits_value(s.subrange(i, j));
        proof {
            lemma_digit_run_end(s, i);
        }
        if v > i64::MAX as int {
            Err(LexError::NumberTooLarge)
        } else {
            match spec_tokenize_from(s, j) {
                Ok(rest) => Ok(seq![Token::Literal(v as i64)] + rest),
                Err(e) => Err(e),
            }
        }
    } else if s[i] == '(' {
        match spec_tokenize_from(s, i + 1) {
            Ok(rest) => Ok(seq![Token::OpenParen] + rest),
            Err(e) => Err(e),
        }
    } else if s[i] == ')' {
        match spec_tokenize_from(s, i + 1) {
            Ok(rest) => Ok(seq![Token::CloseParen] + rest),
            Err(e) => Err(e),
        }
    } else if is_op_char(s[i]) {
        match spec_tokenize_from(s, i + 1) {
            Ok(rest) => Ok(seq![Token::Operator(op_of_char(s[i]))] + rest),
            Err(e) => Err(e),
        }
    } else if s[i] == ' ' {
        spec_tokenize_from(s, i + 1)
    } else {
        Err(LexError::UnrecognizedCharacter(s[i]))
    }
}

/// The token sequence of the whole string, or its first lexical error.
pub open spec fn spec_tokenize(s: Seq<char>) -> Result<Seq<Token>, LexError> {
    spec_tokenize_from(s, 0)
}

/// Prepends already-produced tokens to the outcome of tokenizing the rest of
/// the input.
pub open spec fn lex_concat(pre: Seq<Token>, r: Result<Seq<Token>, LexError>) -> Result<
    Seq<Token>,
    LexError,
> {
    match r {
        Ok(ts) => Ok(pre + ts),
        Err(e) => Err(e),
    }
}

proof fn lemma_lex_concat_nil(r: Result<Seq<Token>, LexError>)
    ensures
        lex_concat(Seq::empty(), r) == r,
{
    match r {
        Ok(ts) => {
            assert(Seq::empty() + ts =~= ts);
        },
        Err(_) => {},
    }
}

proof fn lemma_lex_concat_push(pre: Seq<Token>, t: Token, r: Result<Seq<Token>, LexError>)
    ensures
        lex_concat(pre.push(t), r) == lex_concat(pre, lex_concat(seq![t], r)),
{
    match r {
        Ok(ts) => {
            assert(pre.push(t) + ts =~= pre + (seq![t] + ts));
        },
        Err(_) => {},
    }
}

/// Whether `c` is an ASCII decimal digit.
fn is_digit_char(c: char) -> (b: bool)
    ensures
        b == is_digit(c),
{
    let u = c as u32;
    48 <= u && u <= 57
}

/// Converts a raw string into its token sequence, exactly as
/// `spec_tokenize` states it: maximal digit runs become literals, operator
/// symbols and parentheses become their tokens, spaces are skipped, and the
/// first unrecognized character (or a literal too large for `i64`) is the
/// error.
pub fn tokenize(input: &str) -> (r: Result<Vec<Token>, LexError>)
    ensures
        (match r {
            Ok(toks) => spec_tokenize(input@) == Ok::<Seq<Token>, LexError>(toks@),
            Err(e) => spec_tokenize(input@) == Err::<Seq<Token>, LexError>(e),
        }),
{
    let ghost s = input@;
    let n = input.unicode_len();
    let mut toks: Vec<Token> = Vec::new();
    let mut i: usize = 0;
    proof {
        lemma_lex_concat_nil(spec_tokenize_from(s, 0));
    }
    while i < n
        invariant
            input@ == s,
            n == s.len(),
            0 <= i <= n,
            spec_tokenize_from(s, 0) == lex_concat(toks@, spec_tokenize_from(s, i as int)),
        decreases n - i,
    {
        let ghost toks_at_entry = toks@;
        let c = input.get_char(i);
        if is_digit_char(c) {
            let mut j: usize = i + 1;
            let mut v: i64 = (c as u32 - 48) as i64;
            let mut too_big = false;
            proof {
                let sub = s.subrange(i as int, j as int);
                assert(sub =~= seq![s[i as int]]);
                assert(sub.drop_last() =~= Seq::<char>::empty());
                assert(digits_value(Seq::<char>::empty()) == 0);
                assert(digits_value(sub) == digit_val(s[i as int]));
                assert(v == digit_val(s[i as int]));
            }
            while j < n && is_digit_char(input.get_char(j))
                invariant
                    input@ == s,
                    n == s.len(),
                    0 <= i < j <= n,
                    forall|k: int| i <= k < j ==> is_digit(#[trigger] s[k]),
                    !too_big ==> v >= 0 && v == digits_value(s.subrange(i as int, j as int)),
                    too_big ==> digits_value(s.subrange(i as int, j as int)) > i64::MAX as int,
                decreases n - j,
            {
                let d = input.get_char(j);
                let dv = (d as u32 - 48) as i64;
                proof {
                    assert(s.subrange(i as int, j + 1 as int).drop_last() =~= s.subrange(
                        i as int,
                        j as int,
                    ));
                    assert(s.subrange(i as int, j + 1 as int).last() == s[j as int]);
                }
                if !too_big {
                    match v.checked_mul(10) {
                        Some(w) => {
                            match w.checked_add(dv) {
                                Some(nv) => {
                                    v = nv;
                                },
                                None => {
                                    too_big = true;
                                },
                            }
                        },
                        None => {
                            too_big = true;
                        },
                    }
                }
                j += 1;
            }
            proof {
                lemma_digit_run_end_unique(s, i as int, j as int);
            }
            if too_big {
                proof {
                    assert(spec_tokenize_from(s, i as int) == Err::<Seq<Token>, LexError>(
                        LexError::NumberTooLarge,
                    ));
                }
                return Err(LexError::NumberTooLarge);
            }
            toks.push(Token::Literal(v));
            proof {
                assert(spec_tokenize_from(s, i as int) == lex_concat(
                    seq![Token::Literal(v)],
                    spec_tokenize_from(s, j as int),
                ));
                lemma_lex_concat_push(
                    toks_at_entry,
                    Token::Literal(v),
                    spec_tokenize_from(s, j as int),
                );
            }
            i = j;
        } else if c == '(' {
            toks.push(Token::OpenParen);
            proof {
                lemma_lex_concat_push(
                    toks_at_entry,
                    Token::OpenParen,
                    spec_tokenize_from(s, i + 1 as int),
                );
            }
            i += 1;
        } else if c == ')' {
            toks.push(Token::CloseParen);
            proof {
                lemma_lex_concat_push(
                    toks_at_entry,
                    Token::CloseParen,
                    spec_tokenize_from(s, i + 1 as int),
                );
            }
            i += 1;
        } else if c == '+' || c == '-' || c == '*' || c == '/' || c == '%' || c == '^' {
            let op = if c == '+' {
                Op::Add
            } else if c == '-' {
                Op::Sub
            } else if c == '*' {
                Op::Mul
            } else if c == '/' {
                Op::Div
            } else if c == '%' {
                Op::Mod
            } else {
                Op::Pow
            };
            toks.push(Token::Operator(op));
            proof {
                lemma_lex_concat_push(
                    toks_at_entry,
                    Token::Operator(op),
                    spec_tokenize_from(s, i + 1 as int),
                );
            }
            i += 1;
        } else if c == ' ' {
            i += 1;
        } else {
            return Err(LexError::UnrecognizedCharacter(c));
        }
    }
    proof {
        assert(s.subrange(0, n as int) =~= s);
        assert(toks@ + Seq::<Token>::empty() =~= toks@);
    }
    Ok(toks)
}

} // verus!
