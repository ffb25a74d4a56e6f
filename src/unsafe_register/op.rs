use vstd::prelude::*;

use crate::error::EvalError;
use crate::expr::{apply_binary, apply_negate, Arith, BinaryOp};
use crate::machine::{run, Step};

verus! {

/// An instruction of the register machine: each names the register it
/// writes (`dst`) and those it reads.
#[derive(Clone, Copy, Debug, PartialEq, Eq, Structural)]
pub enum Op {
    LInt { dst: u8, val: i16 },
    LConst { dst: u8, idx: u16 },
    BAdd { dst: u8, lhs: u8, rhs: u8 },
    BSub { dst: u8, lhs: u8, rhs: u8 },
    BMul { dst: u8, lhs: u8, rhs: u8 },
    BDiv { dst: u8, lhs: u8, rhs: u8 },
    UMinus { dst: u8, rhs: u8 },
}

/// `regs[dst] = regs[lhs] op regs[rhs]`.
pub open spec fn register_binary(
    regs: Seq<i64>,
    op: BinaryOp,
    dst: u8,
    lhs: u8,
    rhs: u8,
    arith: Arith,
) -> Result<Seq<i64>, EvalError> {
    if (dst as int) < regs.len() && (lhs as int) < regs.len() && (rhs as int) < regs.len() {
        match apply_binary(op, regs[lhs as int], regs[rhs as int], arith) {
            Some(v) => Ok(regs.update(dst as int, v)),
            None => Err(EvalError::Arithmetic),
        }
    } else {
        Err(EvalError::InternalInvariant)
    }
}

/// One instruction's effect on the register file; a register or pool index
/// out of range is an `InternalInvariant` error.
pub open spec fn register_step(regs: Seq<i64>, op: Op, pool: Seq<i64>, arith: Arith) -> Result<Seq<i64>, EvalError> {
    match op {
        Op::LInt { dst, val } => if (dst as int) < regs.len() {
            Ok(regs.update(dst as int, val as i64))
        } else {
            Err(EvalError::InternalInvariant)
        },
        Op::LConst { dst, idx } => if (dst as int) < regs.len() && (idx as int) < pool.len() {
            Ok(regs.update(dst as int, pool[idx as int]))
        } else {
            Err(EvalError::InternalInvariant)
        },
        Op::BAdd { dst, lhs, rhs } => register_binary(regs, BinaryOp::Add, dst, lhs, rhs, arith),
        Op::BSub { dst, lhs, rhs } => register_binary(regs, BinaryOp::Sub, dst, lhs, rhs, arith),
        Op::BMul { dst, lhs, rhs } => register_binary(regs, BinaryOp::Mul, dst, lhs, rhs, arith),
        Op::BDiv { dst, lhs, rhs } => register_binary(regs, BinaryOp::Div, dst, lhs, rhs, arith),
        Op::UMinus { dst, rhs } => if (dst as int) < regs.len() && (rhs as int) < regs.len() {
            match apply_negate(regs[rhs as int], arith) {
                Some(v) => Ok(regs.update(dst as int, v)),
                None => Err(EvalError::Arithmetic),
            }
        } else {
            Err(EvalError::InternalInvariant)
        },
    }
}

pub open spec fn register_machine(pool: Seq<i64>, arith: Arith) -> Step<Op> {
    |regs: Seq<i64>, op: Op| register_step(regs, op, pool, arith)
}

/// A register file of `size` registers, all 0.
pub open spec fn zeroed(size: nat) -> Seq<i64> {
    Seq::new(size, |_i: int| 0i64)
}

/// What running `code` on `size` zeroed registers gives: register 0 at the
/// end.
pub open spec fn register_program_result(code: Seq<Op>, pool: Seq<i64>, size: nat, arith: Arith) -> Result<i64, EvalError> {
    match run(register_machine(pool, arith), code, zeroed(size)) {
        Ok(regs) => if regs.len() > 0 {
            Ok(regs[0])
        } else {
            Err(EvalError::InternalInvariant)
        },
        Err(e) => Err(e),
    }
}

/// One more than the highest register that `op` names.
pub open spec fn op_registers(op: Op) -> nat {
    let top = match op {
        Op::LInt { dst, .. } => dst,
        Op::LConst { dst, .. } => dst,
        Op::BAdd { dst, lhs, rhs } | Op::BSub { dst, lhs, rhs } | Op::BMul { dst, lhs, rhs } | Op::BDiv {
            dst,
            lhs,
            rhs,
        } => if dst >= lhs && dst >= rhs {
            dst
        } else if lhs >= rhs {
            lhs
        } else {
            rhs
        },
        Op::UMinus { dst, rhs } => if dst >= rhs {
            dst
        } else {
            rhs
        },
    };
    top as nat + 1
}

/// How many registers `code` uses: one more than the highest it names.
pub open spec fn registers_used(code: Seq<Op>) -> nat
    decreases code.len(),
{
    if code.len() == 0 {
        0
    } else {
        let before = registers_used(code.drop_last());
        let last = op_registers(code.last());
        if before >= last {
            before
        } else {
            last
        }
    }
}

/// Whether every pool index in `op` is below `pool_len`.
pub open spec fn op_pool_fits(op: Op, pool_len: nat) -> bool {
    match op {
        Op::LConst { idx, .. } => (idx as int) < pool_len,
        _ => true,
    }
}

/// Code that names only registers below `size` and pool entries below
/// `pool_len`, for a register file of at least one register.
pub open spec fn well_formed(code: Seq<Op>, pool_len: nat, size: nat) -> bool {
    &&& size > 0
    &&& forall|i: int| 0 <= i < code.len() ==> op_registers(#[trigger] code[i]) <= size
    &&& forall|i: int| 0 <= i < code.len() ==> op_pool_fits(#[trigger] code[i], pool_len)
}

/// Every instruction names registers below `registers_used`.
pub proof fn lemma_registers_used_bound(code: Seq<Op>)
    ensures
        forall|i: int| 0 <= i < code.len() ==> op_registers(#[trigger] code[i]) <= registers_used(code),
    decreases code.len(),
{
    if code.len() > 0 {
        lemma_registers_used_bound(code.drop_last());
        assert forall|i: int| 0 <= i < code.len() implies op_registers(#[trigger] code[i]) <= registers_used(code) by {
            if i < code.len() - 1 {
                assert(code[i] == code.drop_last()[i]);
            }
        }
    }
}

/// The registers used by two pieces of code one after the other.
pub proof fn lemma_registers_used_append(a: Seq<Op>, b: Seq<Op>)
    ensures
        registers_used(a + b) == if registers_used(a) >= registers_used(b) {
            registers_used(a)
        } else {
            registers_used(b)
        },
    decreases b.len(),
{
    if b.len() == 0 {
        assert(a + b =~= a);
    } else {
        lemma_registers_used_append(a, b.drop_last());
        assert((a + b).drop_last() =~= a + b.drop_last());
    }
}

} // verus!
