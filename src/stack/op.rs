use vstd::prelude::*;

use crate::error::EvalError;
use crate::expr::{Arith, BinaryOp};
use crate::machine::{peak, push_binary, push_negate, run, stack_result, Step};

verus! {

/// An instruction of the stack machine: a literal held inline, a literal
/// taken from the constant pool by index, or an operator.
#[derive(Clone, Copy, Debug, PartialEq, Eq, Structural)]
pub enum Op {
    LInt(i16),
    LConst(u16),
    BAdd,
    BSub,
    BMul,
    BDiv,
    UMinus,
}

/// One instruction's effect on the stack; a pool index past the pool's end
/// is an `InternalInvariant` error.
pub open spec fn stack_step(s: Seq<i64>, op: Op, pool: Seq<i64>, arith: Arith) -> Result<Seq<i64>, EvalError> {
    match op {
        Op::LInt(v) => Ok(s.push(v as i64)),
        Op::LConst(i) => if (i as int) < pool.len() {
            Ok(s.push(pool[i as int]))
        } else {
            Err(EvalError::InternalInvariant)
        },
        Op::BAdd => push_binary(s, BinaryOp::Add, arith),
        Op::BSub => push_binary(s, BinaryOp::Sub, arith),
        Op::BMul => push_binary(s, BinaryOp::Mul, arith),
        Op::BDiv => push_binary(s, BinaryOp::Div, arith),
        Op::UMinus => push_negate(s, arith),
    }
}

pub open spec fn stack_machine(pool: Seq<i64>, arith: Arith) -> Step<Op> {
    |s: Seq<i64>, op: Op| stack_step(s, op, pool, arith)
}

/// What running `code` on an empty stack gives.
pub open spec fn stack_program_result(code: Seq<Op>, pool: Seq<i64>, arith: Arith) -> Result<i64, EvalError> {
    stack_result(run(stack_machine(pool, arith), code, Seq::empty()))
}

/// One instruction's effect on the stack's depth alone (each value stands
/// as a 0): the checks a stack machine makes, without the arithmetic.
pub open spec fn shape_step(s: Seq<i64>, op: Op, pool_len: nat) -> Result<Seq<i64>, EvalError> {
    match op {
        Op::LInt(_) => Ok(s.push(0)),
        Op::LConst(i) => if (i as int) < pool_len {
            Ok(s.push(0))
        } else {
            Err(EvalError::InternalInvariant)
        },
        Op::UMinus => if s.len() >= 1 {
            Ok(s)
        } else {
            Err(EvalError::InternalInvariant)
        },
        _ => if s.len() >= 2 {
            Ok(s.drop_last())
        } else {
            Err(EvalError::InternalInvariant)
        },
    }
}

pub open spec fn stack_shape(pool_len: nat) -> Step<Op> {
    |s: Seq<i64>, op: Op| shape_step(s, op, pool_len)
}

/// Code that never pops an empty stack, reads only pool entries that
/// exist, and leaves exactly one value.
pub open spec fn well_formed(code: Seq<Op>, pool_len: nat) -> bool {
    match run(stack_shape(pool_len), code, Seq::empty()) {
        Ok(s) => s.len() == 1,
        Err(_) => false,
    }
}

/// The most values the stack holds at once while `code` runs.
pub open spec fn stack_depth(code: Seq<Op>, pool_len: nat) -> nat {
    peak(stack_shape(pool_len), code, Seq::empty())
}

/// Where a run of the machine gets through `code`, the stack it holds after
/// every instruction has the size that `stack_shape` predicts; so the most
/// values it holds at once is the code's `stack_depth`.
pub proof fn lemma_shape_tracks_run(code: Seq<Op>, pool: Seq<i64>, arith: Arith)
    requires
        run(stack_machine(pool, arith), code, Seq::empty()) is Ok,
    ensures
        run(stack_shape(pool.len()), code, Seq::empty()) is Ok,
        run(stack_shape(pool.len()), code, Seq::empty())->Ok_0.len()
            == run(stack_machine(pool, arith), code, Seq::empty())->Ok_0.len(),
        peak(stack_machine(pool, arith), code, Seq::empty()) == stack_depth(code, pool.len()),
    decreases code.len(),
{
    if code.len() > 0 {
        let m = stack_machine(pool, arith);
        let sh = stack_shape(pool.len());
        let prefix = code.drop_last();
        lemma_shape_tracks_run(prefix, pool, arith);
        let s = run(m, prefix, Seq::empty())->Ok_0;
        let op = code.last();
        match op {
            Op::BAdd => assert(s.len() >= 2),
            Op::BSub => assert(s.len() >= 2),
            Op::BMul => assert(s.len() >= 2),
            Op::BDiv => assert(s.len() >= 2),
            Op::UMinus => assert(s.len() >= 1),
            _ => {},
        }
    }
}

} // verus!
