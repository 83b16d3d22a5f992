//! The evaluator: bottom-up (post-order) evaluation of an expression tree
//! to a signed 64-bit integer or a semantic error.  The engine's fixed
//! overflow policy is to fail with an overflow error; division and
//! remainder truncate toward zero.

use vstd::prelude::*;

use crate::expr::Expr;
use crate::token::Op;

verus! {

/// A semantic evaluation failure.  The zero-division kinds carry the left
/// operand's value as structured context for the caller's message.
#[derive(Clone, Copy, Debug, PartialEq, Eq, Structural)]
pub enum EvalError {
    DivisionByZero(i64),
    ModuloByZero(i64),
    UndefinedPower,
    NegativeExponent,
    Overflow,
}

/// The power `base^exp` computed by repeated multiplication, failing with
/// an overflow error as soon as a partial product leaves the `i64` range.
pub open spec fn spec_pow(base: i64, exp: i64) -> Result<i64, EvalError>
    decreases exp,
{
    if exp <= 0 {
        Ok(1i64)
    } else {
        match spec_pow(base, (exp - 1) as i64) {
            Ok(v) => match v.checked_mul(base) {
                Some(p) => Ok(p),
                None => Err(EvalError::Overflow),
            },
            Err(e) => Err(e),
        }
    }
}

/// What one binary operator yields on two evaluated operands: checked
/// arithmetic that fails on overflow, truncating division and remainder
/// that fail on a zero right operand, and a power that rejects `0^0` and
/// negative exponents.
pub open spec fn spec_apply(op: Op, a: i64, b: i64) -> Result<i64, EvalError> {
    match op {
        Op::Add => match a.checked_add(b) {
            Some(v) => Ok(v),
            None => Err(EvalError::Overflow),
        },
        Op::Sub => match a.checked_sub(b) {
            Some(v) => Ok(v),
            None => Err(EvalError::Overflow),
        },
        Op::Mul => match a.checked_mul(b) {
            Some(v) => Ok(v),
            None => Err(EvalError::Overflow),
        },
        Op::Div => if b == 0 {
            Err(EvalError::DivisionByZero(a))
        } else {
            match a.checked_div(b) {
                Some(v) => Ok(v),
                None => Err(EvalError::Overflow),
            }
        },
        Op::Mod => if b == 0 {
            Err(EvalError::ModuloByZero(a))
        } else {
            match a.checked_rem(b) {
                Some(v) => Ok(v),
                None => Err(EvalError::Overflow),
            }
        },
        Op::Pow => if a == 0 && b == 0 {
            Err(EvalError::UndefinedPower)
        } else if b < 0 {
            Err(EvalError::NegativeExponent)
        } else {
            spec_pow(a, b)
        },
    }
}

/// Post-order evaluation of a tree: both children evaluate before the
/// operator combines them, and the first failure propagates without
/// evaluating the sibling.
pub open spec fn spec_eval(e: Expr) -> Result<i64, EvalError>
    decreases e,
{
    match e {
        Expr::Literal(v) => Ok(v),
        Expr::BinaryOp(op, l, r) => match spec_eval(*l) {
            Err(err) => Err(err),
            Ok(a) => match spec_eval(*r) {
                Err(err) => Err(err),
                Ok(b) => spec_apply(op, a, b),
            },
        },
    }
}

/// A failing power stays failed as the exponent grows.
proof fn lemma_pow_err_persists(base: i64, k: i64, exp: i64)
    requires
        0 <= k <= exp,
        spec_pow(base, k) is Err,
    ensures
        spec_pow(base, exp) == spec_pow(base, k),
    decreases exp - k,
{
    if k < exp {
        lemma_pow_err_persists(base, k, (exp - 1) as i64);
    }
}

/// A base of zero gives zero for every positive exponent.
proof fn lemma_pow_zero(exp: i64)
    requires
        exp >= 1,
    ensures
        spec_pow(0i64, exp) == Ok::<i64, EvalError>(0i64),
    decreases exp,
{
    if exp == 1 {
        assert(spec_pow(0i64, 0i64) == Ok::<i64, EvalError>(1i64));
    } else {
        lemma_pow_zero((exp - 1) as i64);
    }
}

/// A base of one gives one for every nonnegative exponent.
proof fn lemma_pow_one(exp: i64)
    requires
        exp >= 0,
    ensures
        spec_pow(1i64, exp) == Ok::<i64, EvalError>(1i64),
    decreases exp,
{
    if exp > 0 {
        lemma_pow_one((exp - 1) as i64);
    }
}

/// A base of minus one alternates between one and minus one by the
/// exponent's parity.
proof fn lemma_pow_neg_one(exp: i64)
    requires
        exp >= 0,
    ensures
        spec_pow(-1i64, exp) == Ok::<i64, EvalError>(
            if exp % 2 == 0 {
                1i64
            } else {
                -1i64
            },
        ),
    decreases exp,
{
    if exp > 0 {
        lemma_pow_neg_one((exp - 1) as i64);
    }
}

/// When the checked power succeeds, its value is the mathematical power of
/// the base.
pub proof fn lemma_pow_exact(base: i64, exp: i64)
    requires
        exp >= 0,
    ensures
        (spec_pow(base, exp) matches Ok(v) ==> v == vstd::arithmetic::power::pow(
            base as int,
            exp as nat,
        )),
    decreases exp,
{
    reveal(vstd::arithmetic::power::pow);
    if exp > 0 {
        lemma_pow_exact(base, (exp - 1) as i64);
        assert(vstd::arithmetic::power::pow(base as int, exp as nat) == base
            * vstd::arithmetic::power::pow(base as int, (exp - 1) as nat));
        assert(((exp - 1) as i64) as nat == (exp - 1) as nat);
        match spec_pow(base, (exp - 1) as i64) {
            Ok(v0) => {
                assert(v0 == vstd::arithmetic::power::pow(base as int, (exp - 1) as nat));
                match v0.checked_mul(base) {
                    Some(p) => {
                        assert(spec_pow(base, exp) == Ok::<i64, EvalError>(p));
                        assert(p == v0 * base);
                        assert(p == vstd::arithmetic::power::pow(base as int, exp as nat)) by {
                            vstd::arithmetic::mul::lemma_mul_is_commutative(
                                v0 as int,
                                base as int,
                            );
                        }
                    },
                    None => {
                        assert(spec_pow(base, exp) == Err::<i64, EvalError>(EvalError::Overflow));
                    },
                }
            },
            Err(e) => {
                assert(spec_pow(base, exp) == Err::<i64, EvalError>(e));
            },
        }
    } else {
        assert(vstd::arithmetic::power::pow(base as int, 0) == 1);
    }
}

/// Computes `spec_pow(base, exp)` by repeated checked multiplication, with
/// shortcuts for the bases whose powers never overflow.
fn pow_checked(base: i64, exp: i64) -> (r: Result<i64, EvalError>)
    requires
        exp >= 0,
    ensures
        r == spec_pow(base, exp),
{
    if base == 0 && exp > 0 {
        proof {
            lemma_pow_zero(exp);
        }
        return Ok(0);
    }
    if base == 1 {
        proof {
            lemma_pow_one(exp);
        }
        return Ok(1);
    }
    if base == -1 {
        proof {
            lemma_pow_neg_one(exp);
        }
        let parity = exp.checked_rem(2).unwrap();
        return Ok(if parity == 0 { 1 } else { -1 });
    }
    let mut acc: i64 = 1;
    let mut k: i64 = 0;
    while k < exp
        invariant
            0 <= k <= exp,
            spec_pow(base, k) == Ok::<i64, EvalError>(acc),
        decreases exp - k,
    {
        match acc.checked_mul(base) {
            Some(v) => {
                acc = v;
            },
            None => {
                proof {
                    lemma_pow_err_persists(base, (k + 1) as i64, exp);
                }
                return Err(EvalError::Overflow);
            },
        }
        k += 1;
    }
    Ok(acc)
}

/// Applies one binary operator to two evaluated operands, exactly as
/// `spec_apply` states it.
fn apply_op(op: Op, a: i64, b: i64) -> (r: Result<i64, EvalError>)
    ensures
        r == spec_apply(op, a, b),
{
    match op {
        Op::Add => match a.checked_add(b) {
            Some(v) => Ok(v),
            None => Err(EvalError::Overflow),
        },
        Op::Sub => match a.checked_sub(b) {
            Some(v) => Ok(v),
            None => Err(EvalError::Overflow),
        },
        Op::Mul => match a.checked_mul(b) {
            Some(v) => Ok(v),
            None => Err(EvalError::Overflow),
        },
        Op::Div => {
            if b == 0 {
                Err(EvalError::DivisionByZero(a))
            } else {
                match a.checked_div(b) {
                    Some(v) => Ok(v),
                    None => Err(EvalError::Overflow),
                }
            }
        },
        Op::Mod => {
            if b == 0 {
                Err(EvalError::ModuloByZero(a))
            } else {
                match a.checked_rem(b) {
                    Some(v) => Ok(v),
                    None => Err(EvalError::Overflow),
                }
            }
        },
        Op::Pow => {
            if a == 0 && b == 0 {
                Err(EvalError::UndefinedPower)
            } else if b < 0 {
                Err(EvalError::NegativeExponent)
            } else {
                pow_checked(a, b)
            }
        },
    }
}

impl Expr {
    /// Evaluates the tree bottom-up to an integer or the first semantic
    /// error, exactly as `spec_eval` states it.
    pub fn eval(&self) -> (r: Result<i64, EvalError>)
        ensures
            r == spec_eval(*self),
        decreases *self,
    {
        match self {
            Expr::Literal(v) => Ok(*v),
            Expr::BinaryOp(op, l, r) => {
                let a = match l.eval() {
                    Ok(v) => v,
                    Err(e) => {
                        return Err(e);
                    },
                };
                let b = match r.eval() {
                    Ok(v) => v,
                    Err(e) => {
                        return Err(e);
                    },
                };
                apply_op(*op, a, b)
            },
        }
    }
}

} // verus!
