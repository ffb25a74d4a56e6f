use vstd::prelude::*;

use super::compiler::{Bytecode, ConstPool, StackSize};
use super::op::{register_binary, register_machine, register_program_result, well_formed, zeroed, Op};
use crate::error::EvalError;
use crate::expr::{Arith, BinaryOp};
use crate::machine::{lemma_run_next, lemma_run_stops, run, wrapping_binary, wrapping_negate};

verus! {

/// `regs[dst] = regs[lhs] op regs[rhs]` with wrapping arithmetic, on
/// indices known to be in range.
fn binary(regs: &mut Vec<i64>, op: BinaryOp, dst: u8, lhs: u8, rhs: u8) -> (res: Result<(), EvalError>)
    requires
        (dst as int) < old(regs)@.len(),
        (lhs as int) < old(regs)@.len(),
        (rhs as int) < old(regs)@.len(),
    ensures
        match register_binary(old(regs)@, op, dst, lhs, rhs, Arith::Wrapping) {
            Ok(r) => res is Ok && final(regs)@ == r,
            Err(e) => res == Err::<(), EvalError>(e),
        },
{
    let v = wrapping_binary(op, regs[lhs as usize], regs[rhs as usize])?;
    regs.set(dst as usize, v);
    Ok(())
}

/// Runs register code that the register compiler produced, on
/// `stack_size` zeroed registers, without validating register or pool
/// indices: `well_formed` is the caller's promise that every index is in
/// range. Overflow wraps around; division by zero is an `Arithmetic`
/// error. The answer is register 0.
pub fn eval(ops: &Bytecode, pool: &ConstPool, stack_size: StackSize) -> (res: Result<i64, EvalError>)
    requires
        well_formed(ops@, pool@.len(), stack_size as nat),
    ensures
        res == register_program_result(ops@, pool@, stack_size as nat, Arith::Wrapping),
{
    let ghost m = register_machine(pool@, Arith::Wrapping);
    let mut regs: Vec<i64> = vec![0i64; stack_size];
    proof {
        assert(regs@ =~= zeroed(stack_size as nat));
        assert(ops@.take(0) =~= Seq::<Op>::empty());
    }
    let mut i: usize = 0;
    while i < ops.len()
        invariant
            m == register_machine(pool@, Arith::Wrapping),
            well_formed(ops@, pool@.len(), stack_size as nat),
            regs@.len() == stack_size,
            0 <= i <= ops@.len(),
            run(m, ops@.take(i as int), zeroed(stack_size as nat)) == Ok::<Seq<i64>, EvalError>(regs@),
        decreases ops@.len() - i,
    {
        proof {
            lemma_run_next(m, ops@, i as int, zeroed(stack_size as nat));
        }
        let op = ops[i];
        assert(super::op::op_registers(op) <= stack_size);
        assert(super::op::op_pool_fits(op, pool@.len()));
        let done = match op {
            Op::LInt { dst, val } => {
                regs.set(dst as usize, val as i64);
                Ok(())
            },
            Op::LConst { dst, idx } => {
                regs.set(dst as usize, pool[idx as usize]);
                Ok(())
            },
            Op::BAdd { dst, lhs, rhs } => binary(&mut regs, BinaryOp::Add, dst, lhs, rhs),
            Op::BSub { dst, lhs, rhs } => binary(&mut regs, BinaryOp::Sub, dst, lhs, rhs),
            Op::BMul { dst, lhs, rhs } => binary(&mut regs, BinaryOp::Mul, dst, lhs, rhs),
            Op::BDiv { dst, lhs, rhs } => binary(&mut regs, BinaryOp::Div, dst, lhs, rhs),
            Op::UMinus { dst, rhs } => {
                let v = wrapping_negate(regs[rhs as usize]);
                regs.set(dst as usize, v);
                Ok(())
            },
        };
        if let Err(e) = done {
            proof {
                lemma_run_stops(m, ops@, i + 1, zeroed(stack_size as nat));
            }
            return Err(e);
        }
        i += 1;
    }
    proof {
        assert(ops@.take(ops@.len() as int) =~= ops@);
    }
    Ok(regs[0])
}

} // verus!
