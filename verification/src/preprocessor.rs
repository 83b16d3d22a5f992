//! The preprocessor: one left-to-right pass over the token sequence that
//! makes implicit operators explicit.  A unary minus (at the start of the
//! input or right after an opening parenthesis) becomes a subtraction from a
//! zero literal; a literal or closing parenthesis immediately followed by an
//! opening parenthesis, and a closing parenthesis immediately followed by a
//! literal, get an explicit multiplication inserted between them.  This
//! stage never rejects input; it only inserts tokens.

use vstd::prelude::*;

use crate::token::Op;
use crate::token::Token;

verus! {

/// How one input token extends the already-normalized output `acc`, given
/// one token of lookahead.  The lookbehind of the unary-minus rule reads the
/// output built so far, exactly as the insertion order produces it.
pub open spec fn spec_preprocess_step(acc: Seq<Token>, t: Token, next: Option<Token>) -> Seq<
    Token,
> {
    if (t is Literal || t is CloseParen) && next == Some(Token::OpenParen) {
        acc + seq![t, Token::Operator(Op::Mul)]
    } else if t is CloseParen && (next matches Some(Token::Literal(_))) {
        acc + seq![t, Token::Operator(Op::Mul)]
    } else if t == Token::Operator(Op::Sub) && (acc.len() == 0 || acc.last()
        == Token::OpenParen) {
        acc + seq![Token::Literal(0i64), t]
    } else {
        acc.push(t)
    }
}

/// The normalized output once the tokens from index `i` on have been folded
/// onto the output built so far.
pub open spec fn spec_preprocess_from(toks: Seq<Token>, i: int, acc: Seq<Token>) -> Seq<Token>
    decreases toks.len() - i,
    when 0 <= i <= toks.len()
{
    if i == toks.len() {
        acc
    } else {
        let next = if i + 1 < toks.len() {
            Some(toks[i + 1])
        } else {
            None
        };
        spec_preprocess_from(toks, i + 1, spec_preprocess_step(acc, toks[i], next))
    }
}

/// The fully normalized token sequence.
pub open spec fn spec_preprocess(toks: Seq<Token>) -> Seq<Token> {
    spec_preprocess_from(toks, 0, Seq::empty())
}

/// Rewrites the token sequence to make implicit operators explicit, exactly
/// as `spec_preprocess` states it.  All other tokens pass through unchanged,
/// in their original relative order.
pub fn preprocess_tokens(tokens: Vec<Token>) -> (r: Vec<Token>)
    ensures
        r@ == spec_preprocess(tokens@),
{
    let mut out: Vec<Token> = Vec::new();
    let mut i: usize = 0;
    while i < tokens.len()
        invariant
            0 <= i <= tokens@.len(),
            spec_preprocess(tokens@) == spec_preprocess_from(tokens@, i as int, out@),
        decreases tokens@.len() - i,
    {
        let ghost out_at_entry = out@;
        let ghost next = if i + 1 < tokens@.len() {
            Some(tokens@[i + 1])
        } else {
            None
        };
        let t = tokens[i];
        let next_is_open = i + 1 < tokens.len() && tokens[i + 1] == Token::OpenParen;
        let next_is_literal = i + 1 < tokens.len() && matches!(tokens[i + 1], Token::Literal(_));
        if matches!(t, Token::Literal(_) | Token::CloseParen) && next_is_open {
            out.push(t);
            out.push(Token::Operator(Op::Mul));
            proof {
                assert(out@ =~= out_at_entry + seq![t, Token::Operator(Op::Mul)]);
            }
        } else if t == Token::CloseParen && next_is_literal {
            out.push(t);
            out.push(Token::Operator(Op::Mul));
            proof {
                assert(out@ =~= out_at_entry + seq![t, Token::Operator(Op::Mul)]);
            }
        } else if t == Token::Operator(Op::Sub) && (out.len() == 0 || out[out.len() - 1]
            == Token::OpenParen) {
            out.push(Token::Literal(0));
            out.push(t);
            proof {
                assert(out@ =~= out_at_entry + seq![Token::Literal(0i64), t]);
            }
        } else {
            out.push(t);
        }
        proof {
            assert(out@ == spec_preprocess_step(out_at_entry, t, next));
        }
        i += 1;
    }
    out
}

} // verus!
