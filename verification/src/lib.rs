//! An arithmetic-expression engine: a raw character string is tokenized,
//! normalized (implicit operators made explicit), parsed into an
//! operator-precedence-correct expression tree, and evaluated to a signed
//! 64-bit integer or a structured error.

use vstd::prelude::*;

mod eval;
mod expr;
mod preprocessor;
mod token;
mod tokenizer;

pub use eval::EvalError;
pub use expr::Expr;
pub use expr::ParseError;
pub use preprocessor::preprocess_tokens;
pub use token::Op;
pub use token::Token;
pub use tokenizer::LexError;
pub use tokenizer::tokenize;

use eval::spec_eval;
use expr::spec_parse_tokens;
use preprocessor::spec_preprocess;
use tokenizer::spec_tokenize;

verus! {

/// Any failure of the pipeline, grouped by the stage that raised it:
/// lexical (tokenizer), structural (parser), or semantic (evaluator).
#[derive(Clone, Copy, Debug, PartialEq, Eq, Structural)]
pub enum Error {
    Lex(LexError),
    Parse(ParseError),
    Eval(EvalError),
}

/// The tree the front end (tokenize, normalize, parse) builds for a raw
/// string, or the first error on the way.
pub open spec fn spec_parse_expr(s: Seq<char>) -> Result<Expr, Error> {
    match spec_tokenize(s) {
        Err(e) => Err(Error::Lex(e)),
        Ok(toks) => match spec_parse_tokens(spec_preprocess(toks)) {
            Err(e) => Err(Error::Parse(e)),
            Ok(tree) => Ok(tree),
        },
    }
}

/// The integer the whole pipeline produces for a raw string, or the first
/// error of any stage.
pub open spec fn spec_parse(s: Seq<char>) -> Result<i64, Error> {
    match spec_parse_expr(s) {
        Err(e) => Err(e),
        Ok(tree) => match spec_eval(tree) {
            Err(e) => Err(Error::Eval(e)),
            Ok(v) => Ok(v),
        },
    }
}

/// Entry point: tokenizes, normalizes, parses and evaluates in one call,
/// exactly as `spec_parse` states it.  A failure at any stage aborts the
/// rest of the pipeline and is surfaced unchanged.
pub fn parse(input: &str) -> (r: Result<i64, Error>)
    ensures
        r == spec_parse(input@),
{
    let tree = match Expr::parse(input) {
        Ok(t) => t,
        Err(e) => {
            return Err(e);
        },
    };
    match tree.eval() {
        Ok(v) => Ok(v),
        Err(e) => Err(Error::Eval(e)),
    }
}

/// For every string the tokenizer accepts, parsing then evaluating yields
/// one determined outcome: an integer, or one of the enumerated structural
/// or semantic error kinds.  A lexical failure cannot surface for such a
/// string, and no outcome outside the closed error taxonomy exists.
pub proof fn lemma_accepted_input_outcomes(s: Seq<char>)
    requires
        spec_tokenize(s) is Ok,
    ensures
        spec_parse(s) matches Err(e) ==> e is Parse || e is Eval,
{
}

/// Evaluating the same string twice yields the same outcome: the engine's
/// result is a pure function of the input characters, with no hidden
/// mutable state.  Any two results that `parse`'s contract allows for one
/// input are equal.
pub proof fn lemma_parse_deterministic(
    r1: Result<i64, Error>,
    r2: Result<i64, Error>,
    s: Seq<char>,
)
    requires
        r1 == spec_parse(s),
        r2 == spec_parse(s),
    ensures
        r1 == r2,
{
}

} // verus!
