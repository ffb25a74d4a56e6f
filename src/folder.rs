use vstd::prelude::*;

use crate::error::EvalError;
use crate::expr::{Arith, Expr, UnaryOp};
use crate::machine::{arith_result, checked_binary, checked_negate};

verus! {

/// Evaluates the tree directly: the reference value that every compiled
/// form is held to.
pub fn fold(expr: &Expr) -> (res: Result<i64, EvalError>)
    ensures
        res == arith_result(expr.value(Arith::Checked)),
    decreases expr,
{
    match expr {
        Expr::Binary(expr) => {
            let left = fold(&expr.left)?;
            let right = fold(&expr.right)?;
            checked_binary(expr.op, left, right)
        },
        Expr::Unary(expr) => {
            let right = fold(&expr.right)?;
            match expr.op {
                UnaryOp::Plus => Ok(right),
                UnaryOp::Minus => checked_negate(right),
            }
        },
        Expr::Int(value) => Ok(*value),
    }
}

} // verus!
