//! The expression tree and the operator-precedence (shunting-yard) parser.
//!
//! The parser maintains two stacks, an operator stack and a node stack, and
//! builds a binary tree that honors precedence and associativity: a stacked
//! operator that binds strictly tighter than the incoming one (or equally
//! tight, when the incoming one is left-associative) is reduced first.  The
//! specification functions below state the algorithm stack step by stack
//! step; the executable parser returns exactly their result.

use vstd::prelude::*;

use crate::token::Op;
use crate::token::Token;
use crate::token::spec_precedence;
use crate::token::spec_right_associative;

verus! {

/// A structural parse failure: unbalanced parentheses, an operator missing
/// an operand, disconnected operands left over, or nothing to evaluate.
#[derive(Clone, Copy, Debug, PartialEq, Eq, Structural)]
pub enum ParseError {
    MismatchedParentheses,
    MismatchedOperator,
    TooManyExpressions,
    EmptyOrUnparseable,
}

/// A strict binary expression tree: a leaf literal, or an operator node that
/// exclusively owns its two children.
#[derive(Debug)]
pub enum Expr {
    Literal(i64),
    BinaryOp(Op, Box<Expr>, Box<Expr>),
}

/// What the operator stack holds: a binary operator, or the marker left by
/// an opening parenthesis.
#[derive(Clone, Copy, Debug, PartialEq, Eq, Structural)]
pub enum StackSym {
    Operator(Op),
    Marker,
}

/// One reduction: the two topmost operand nodes (first popped is the right
/// operand) are replaced by the combined operator node.
pub open spec fn spec_reduce(nodes: Seq<Expr>, op: Op) -> Seq<Expr>
    recommends
        nodes.len() >= 2,
{
    nodes.take(nodes.len() - 2).push(
        Expr::BinaryOp(
            op,
            Box::new(nodes[nodes.len() - 2]),
            Box::new(nodes[nodes.len() - 1]),
        ),
    )
}

/// Reduces stacked operators that must apply before `op` is pushed: those
/// that bind strictly tighter, or equally tight when `op` is not
/// right-associative.  Stops at an open-parenthesis marker or when the
/// condition fails, then pushes `op`.
pub open spec fn spec_flush_ops(ops: Seq<StackSym>, nodes: Seq<Expr>, op: Op) -> Result<
    (Seq<StackSym>, Seq<Expr>),
    ParseError,
>
    decreases ops.len(),
{
    if ops.len() == 0 {
        Ok((ops.push(StackSym::Operator(op)), nodes))
    } else {
        match ops.last() {
            StackSym::Marker => Ok((ops.push(StackSym::Operator(op)), nodes)),
            StackSym::Operator(top) => {
                if spec_precedence(top) > spec_precedence(op) || (spec_precedence(top)
                    == spec_precedence(op) && !spec_right_associative(op)) {
                    if nodes.len() < 2 {
                        Err(ParseError::MismatchedOperator)
                    } else {
                        spec_flush_ops(ops.drop_last(), spec_reduce(nodes, top), op)
                    }
                } else {
                    Ok((ops.push(StackSym::Operator(op)), nodes))
                }
            },
        }
    }
}

/// Reduces stacked operators until the matching open-parenthesis marker is
/// popped and discarded; the stack emptying first is a parenthesis mismatch.
pub open spec fn spec_close_paren(ops: Seq<StackSym>, nodes: Seq<Expr>) -> Result<
    (Seq<StackSym>, Seq<Expr>),
    ParseError,
>
    decreases ops.len(),
{
    if ops.len() == 0 {
        Err(ParseError::MismatchedParentheses)
    } else {
        match ops.last() {
            StackSym::Marker => Ok((ops.drop_last(), nodes)),
            StackSym::Operator(top) => {
                if nodes.len() < 2 {
                    Err(ParseError::MismatchedOperator)
                } else {
                    spec_close_paren(ops.drop_last(), spec_reduce(nodes, top))
                }
            },
        }
    }
}

/// How one token transforms the two stacks.
pub open spec fn spec_step(ops: Seq<StackSym>, nodes: Seq<Expr>, t: Token) -> Result<
    (Seq<StackSym>, Seq<Expr>),
    ParseError,
> {
    match t {
        Token::Literal(v) => Ok((ops, nodes.push(Expr::Literal(v)))),
        Token::Operator(op) => spec_flush_ops(ops, nodes, op),
        Token::OpenParen => Ok((ops.push(StackSym::Marker), nodes)),
        Token::CloseParen => spec_close_paren(ops, nodes),
    }
}

/// Folds the tokens from index `i` on over the two stacks, stopping at the
/// first structural error.
pub open spec fn spec_run(toks: Seq<Token>, i: int, ops: Seq<StackSym>, nodes: Seq<Expr>) -> Result<
    (Seq<StackSym>, Seq<Expr>),
    ParseError,
>
    decreases toks.len() - i,
    when 0 <= i <= toks.len()
{
    if i == toks.len() {
        Ok((ops, nodes))
    } else {
        match spec_step(ops, nodes, toks[i]) {
            Ok(st) => spec_run(toks, i + 1, st.0, st.1),
            Err(e) => Err(e),
        }
    }
}

/// Reduces every operator left on the stack at end of input; a leftover
/// open-parenthesis marker is an unclosed parenthesis.
pub open spec fn spec_drain(ops: Seq<StackSym>, nodes: Seq<Expr>) -> Result<Seq<Expr>, ParseError>
    decreases ops.len(),
{
    if ops.len() == 0 {
        Ok(nodes)
    } else {
        match ops.last() {
            StackSym::Marker => Err(ParseError::MismatchedParentheses),
            StackSym::Operator(top) => {
                if nodes.len() < 2 {
                    Err(ParseError::MismatchedOperator)
                } else {
                    spec_drain(ops.drop_last(), spec_reduce(nodes, top))
                }
            },
        }
    }
}

/// After all reduction exactly one node must remain: it is the parsed tree.
pub open spec fn spec_extract(nodes: Seq<Expr>) -> Result<Expr, ParseError> {
    if nodes.len() == 0 {
        Err(ParseError::EmptyOrUnparseable)
    } else if nodes.len() > 1 {
        Err(ParseError::TooManyExpressions)
    } else {
        Ok(nodes[0])
    }
}

/// The tree the shunting-yard algorithm builds from a normalized token
/// sequence, or its first structural error.
pub open spec fn spec_parse_tokens(toks: Seq<Token>) -> Result<Expr, ParseError> {
    match spec_run(toks, 0, Seq::empty(), Seq::empty()) {
        Err(e) => Err(e),
        Ok(st) => match spec_drain(st.0, st.1) {
            Err(e) => Err(e),
            Ok(nodes) => spec_extract(nodes),
        },
    }
}

impl Expr {
    /// Pops the two topmost operand nodes (first popped is the right
    /// operand), builds the matching operator node, and pushes it back;
    /// fewer than two nodes is an operator missing an operand.
    fn build_next_expr(operator: Op, nodes: &mut Vec<Expr>) -> (r: Result<(), ParseError>)
        ensures
            old(nodes)@.len() < 2 ==> r == Err::<(), ParseError>(ParseError::MismatchedOperator)
                && final(nodes)@ == old(nodes)@,
            old(nodes)@.len() >= 2 ==> r == Ok::<(), ParseError>(()) && final(nodes)@
                == spec_reduce(old(nodes)@, operator),
    {
        if nodes.len() < 2 {
            return Err(ParseError::MismatchedOperator);
        }
        let right = nodes.pop().unwrap();
        let left = nodes.pop().unwrap();
        nodes.push(Expr::BinaryOp(operator, Box::new(left), Box::new(right)));
        proof {
            assert(nodes@ =~= spec_reduce(old(nodes)@, operator));
        }
        Ok(())
    }

    /// Runs the whole front end on a raw string: tokenizes it, makes the
    /// implicit operators explicit, and builds the tree, exactly as
    /// `spec_parse_expr` states it.
    pub fn parse(input: &str) -> (r: Result<Expr, crate::Error>)
        ensures
            r == crate::spec_parse_expr(input@),
    {
        let raw = match crate::tokenizer::tokenize(input) {
            Ok(t) => t,
            Err(e) => {
                return Err(crate::Error::Lex(e));
            },
        };
        let toks = crate::preprocessor::preprocess_tokens(raw);
        match Expr::parse_tokens(toks) {
            Ok(tree) => Ok(tree),
            Err(e) => Err(crate::Error::Parse(e)),
        }
    }

    /// Builds the expression tree for a normalized token sequence, exactly
    /// as `spec_parse_tokens` states it.
    pub fn parse_tokens(tokens: Vec<Token>) -> (r: Result<Expr, ParseError>)
        ensures
            r == spec_parse_tokens(tokens@),
    {
        let ghost toks = tokens@;
        let mut ops: Vec<StackSym> = Vec::new();
        let mut nodes: Vec<Expr> = Vec::new();
        let mut i: usize = 0;
        while i < tokens.len()
            invariant
                tokens@ == toks,
                0 <= i <= toks.len(),
                spec_run(toks, 0, Seq::empty(), Seq::empty()) == spec_run(
                    toks,
                    i as int,
                    ops@,
                    nodes@,
                ),
            decreases toks.len() - i,
        {
            let ghost ops_at_entry = ops@;
            let ghost nodes_at_entry = nodes@;
            let t = tokens[i];
            match t {
                Token::Literal(v) => {
                    nodes.push(Expr::Literal(v));
                },
                Token::OpenParen => {
                    ops.push(StackSym::Marker);
                },
                Token::Operator(op) => {
                    loop
                        invariant_except_break
                            spec_flush_ops(ops_at_entry, nodes_at_entry, op) == spec_flush_ops(
                                ops@,
                                nodes@,
                                op,
                            ),
                        invariant
                            tokens@ == toks,
                            0 <= i < toks.len(),
                            toks[i as int] == Token::Operator(op),
                            spec_run(toks, 0, Seq::empty(), Seq::empty()) == spec_run(
                                toks,
                                i as int,
                                ops_at_entry,
                                nodes_at_entry,
                            ),
                        ensures
                            spec_flush_ops(ops_at_entry, nodes_at_entry, op) == Ok::<
                                (Seq<StackSym>, Seq<Expr>),
                                ParseError,
                            >((ops@, nodes@)),
                        decreases ops@.len(),
                    {
                        let ghost prev_ops = ops@;
                        let ghost prev_nodes = nodes@;
                        let mut reduced = false;
                        if ops.len() > 0 {
                            let top = ops[ops.len() - 1];
                            match top {
                                StackSym::Operator(top_op) => {
                                    if top_op.precedence() > op.precedence() || (
                                    top_op.precedence() == op.precedence()
                                        && !op.right_associative()) {
                                        let _ = ops.pop();
                                        match Expr::build_next_expr(top_op, &mut nodes) {
                                            Ok(()) => {
                                                reduced = true;
                                            },
                                            Err(e) => {
                                                proof {
                                                    assert(spec_flush_ops(prev_ops, prev_nodes, op)
                                                        == Err::<
                                                        (Seq<StackSym>, Seq<Expr>),
                                                        ParseError,
                                                    >(e));
                                                    assert(spec_run(toks, i as int, ops_at_entry,
                                                        nodes_at_entry) == Err::<
                                                        (Seq<StackSym>, Seq<Expr>),
                                                        ParseError,
                                                    >(e));
                                                }
                                                return Err(e);
                                            },
                                        }
                                    }
                                },
                                StackSym::Marker => {},
                            }
                        }
                        if !reduced {
                            ops.push(StackSym::Operator(op));
                            break;
                        }
                    }
                },
                Token::CloseParen => {
                    loop
                        invariant_except_break
                            spec_close_paren(ops_at_entry, nodes_at_entry) == spec_close_paren(
                                ops@,
                                nodes@,
                            ),
                        invariant
                            tokens@ == toks,
                            0 <= i < toks.len(),
                            toks[i as int] == Token::CloseParen,
                            spec_run(toks, 0, Seq::empty(), Seq::empty()) == spec_run(
                                toks,
                                i as int,
                                ops_at_entry,
                                nodes_at_entry,
                            ),
                        ensures
                            spec_close_paren(ops_at_entry, nodes_at_entry) == Ok::<
                                (Seq<StackSym>, Seq<Expr>),
                                ParseError,
                            >((ops@, nodes@)),
                        decreases ops@.len(),
                    {
                        let ghost prev_ops = ops@;
                        let ghost prev_nodes = nodes@;
                        match ops.pop() {
                            None => {
                                proof {
                                    assert(spec_close_paren(prev_ops, prev_nodes) == Err::<
                                        (Seq<StackSym>, Seq<Expr>),
                                        ParseError,
                                    >(ParseError::MismatchedParentheses));
                                    assert(spec_run(toks, i as int, ops_at_entry, nodes_at_entry)
                                        == Err::<(Seq<StackSym>, Seq<Expr>), ParseError>(
                                        ParseError::MismatchedParentheses,
                                    ));
                                }
                                return Err(ParseError::MismatchedParentheses);
                            },
                            Some(StackSym::Marker) => {
                                break;
                            },
                            Some(StackSym::Operator(top_op)) => {
                                match Expr::build_next_expr(top_op, &mut nodes) {
                                    Ok(()) => {},
                                    Err(e) => {
                                        proof {
                                            assert(spec_close_paren(prev_ops, prev_nodes) == Err::<
                                                (Seq<StackSym>, Seq<Expr>),
                                                ParseError,
                                            >(e));
                                            assert(spec_run(toks, i as int, ops_at_entry,
                                                nodes_at_entry) == Err::<
                                                (Seq<StackSym>, Seq<Expr>),
                                                ParseError,
                                            >(e));
                                        }
                                        return Err(e);
                                    },
                                }
                            },
                        }
                    }
                },
            }
            proof {
                assert(spec_step(ops_at_entry, nodes_at_entry, toks[i as int]) == Ok::<
                    (Seq<StackSym>, Seq<Expr>),
                    ParseError,
                >((ops@, nodes@)));
                assert(spec_run(toks, i as int, ops_at_entry, nodes_at_entry) == spec_run(
                    toks,
                    i + 1 as int,
                    ops@,
                    nodes@,
                ));
            }
            i += 1;
        }
        let ghost ops_run = ops@;
        let ghost nodes_run = nodes@;
        proof {
            assert(spec_run(toks, 0, Seq::empty(), Seq::empty()) == Ok::<
                (Seq<StackSym>, Seq<Expr>),
                ParseError,
            >((ops_run, nodes_run)));
        }
        while ops.len() > 0
            invariant
                tokens@ == toks,
                spec_drain(ops_run, nodes_run) == spec_drain(ops@, nodes@),
                spec_run(toks, 0, Seq::empty(), Seq::empty()) == Ok::<
                    (Seq<StackSym>, Seq<Expr>),
                    ParseError,
                >((ops_run, nodes_run)),
            decreases ops@.len(),
        {
            let ghost prev_ops = ops@;
            let ghost prev_nodes = nodes@;
            let top = ops.pop().unwrap();
            match top {
                StackSym::Marker => {
                    proof {
                        assert(spec_drain(prev_ops, prev_nodes) == Err::<Seq<Expr>, ParseError>(
                            ParseError::MismatchedParentheses,
                        ));
                    }
                    return Err(ParseError::MismatchedParentheses);
                },
                StackSym::Operator(top_op) => {
                    match Expr::build_next_expr(top_op, &mut nodes) {
                        Ok(()) => {},
                        Err(e) => {
                            proof {
                                assert(spec_drain(prev_ops, prev_nodes) == Err::<
                                    Seq<Expr>,
                                    ParseError,
                                >(e));
                            }
                            return Err(e);
                        },
                    }
                },
            }
        }
        proof {
            assert(spec_drain(ops_run, nodes_run) == Ok::<Seq<Expr>, ParseError>(nodes@));
        }
        if nodes.len() > 1 {
            return Err(ParseError::TooManyExpressions);
        }
        match nodes.pop() {
            Some(tree) => Ok(tree),
            None => Err(ParseError::EmptyOrUnparseable),
        }
    }
}

} // verus!
