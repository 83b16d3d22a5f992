//! Lexical tokens and the fixed operator metadata: precedence ranks and the
//! set of right-associative operators.

use vstd::prelude::*;

verus! {

/// The six binary operator kinds of the expression language.
#[derive(Clone, Copy, Debug, PartialEq, Eq, Structural)]
pub enum Op {
    Add,
    Sub,
    Mul,
    Div,
    Mod,
    Pow,
}

/// One lexical token: an integer literal, an operator symbol, or a
/// parenthesis.
#[derive(Clone, Copy, Debug, PartialEq, Eq, Structural)]
pub enum Token {
    Literal(i64),
    Operator(Op),
    OpenParen,
    CloseParen,
}

/// Precedence rank of an operator: `+ -` bind loosest, `* / %` tighter,
/// `^` tightest.
pub open spec fn spec_precedence(op: Op) -> int {
    match op {
        Op::Add => 0,
        Op::Sub => 0,
        Op::Mul => 1,
        Op::Div => 1,
        Op::Mod => 1,
        Op::Pow => 2,
    }
}

/// `^` is the only right-associative operator; all others associate to the
/// left.
pub open spec fn spec_right_associative(op: Op) -> bool {
    op is Pow
}

impl Op {
    /// Precedence rank, as `spec_precedence` states it.
    pub fn precedence(self) -> (p: u8)
        ensures
            p as int == spec_precedence(self),
    {
        match self {
            Op::Add => 0,
            Op::Sub => 0,
            Op::Mul => 1,
            Op::Div => 1,
            Op::Mod => 1,
            Op::Pow => 2,
        }
    }

    /// Whether the operator associates to the right.
    pub fn right_associative(self) -> (r: bool)
        ensures
            r == spec_right_associative(self),
    {
        match self {
            Op::Pow => true,
            _ => false,
        }
    }
}

} // verus!
