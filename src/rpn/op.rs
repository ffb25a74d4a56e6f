use vstd::prelude::*;

use crate::error::EvalError;
use crate::expr::{Arith, BinaryOp};
use crate::machine::{push_binary, push_negate, run, stack_result, Step};

verus! {

/// An instruction of the postfix stack machine.
#[derive(Clone, Copy, Debug, PartialEq, Eq, Structural)]
pub enum Op {
    LInt(i64),
    BAdd,
    BSub,
    BMul,
    BDiv,
    UMinus,
}

/// One instruction's effect on the stack, with checked arithmetic.
pub open spec fn rpn_step(s: Seq<i64>, op: Op) -> Result<Seq<i64>, EvalError> {
    match op {
        Op::LInt(v) => Ok(s.push(v)),
        Op::BAdd => push_binary(s, BinaryOp::Add, Arith::Checked),
        Op::BSub => push_binary(s, BinaryOp::Sub, Arith::Checked),
        Op::BMul => push_binary(s, BinaryOp::Mul, Arith::Checked),
        Op::BDiv => push_binary(s, BinaryOp::Div, Arith::Checked),
        Op::UMinus => push_negate(s, Arith::Checked),
    }
}

pub open spec fn rpn_machine() -> Step<Op> {
    |s: Seq<i64>, op: Op| rpn_step(s, op)
}

/// What running `code` on an empty stack gives.
pub open spec fn rpn_result(code: Seq<Op>) -> Result<i64, EvalError> {
    stack_result(run(rpn_machine(), code, Seq::empty()))
}

} // verus!
