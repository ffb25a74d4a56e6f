use vstd::prelude::*;

use crate::error::EvalError;
use crate::expr::{Arith, BinaryOp};
use crate::machine::{checked_binary, checked_negate, lemma_run_next, lemma_run_stops, run};
use crate::unsafe_register::compiler::{Bytecode, ConstPool, StackSize};
use crate::unsafe_register::op::{register_binary, register_machine, register_program_result, zeroed, Op};

verus! {

/// `regs[dst] = regs[lhs] op regs[rhs]` with checked arithmetic, checking
/// every index.
fn binary(regs: &mut Vec<i64>, op: BinaryOp, dst: u8, lhs: u8, rhs: u8) -> (res: Result<(), EvalError>)
    ensures
        match register_binary(old(regs)@, op, dst, lhs, rhs, Arith::Checked) {
            Ok(r) => res is Ok && final(regs)@ == r,
            Err(e) => res == Err::<(), EvalError>(e),
        },
{
    let (d, l, r) = (dst as usize, lhs as usize, rhs as usize);
    if d < regs.len() && l < regs.len() && r < regs.len() {
        let v = checked_binary(op, regs[l], regs[r])?;
        regs.set(d, v);
        Ok(())
    } else {
        Err(EvalError::InternalInvariant)
    }
}

/// Runs register code on `stack_size` zeroed registers with checked
/// arithmetic, checking every register and pool index; the answer is
/// register 0.
pub fn eval(ops: &Bytecode, pool: &ConstPool, stack_size: StackSize) -> (res: Result<i64, EvalError>)
    ensures
        res == register_program_result(ops@, pool@, stack_size as nat, Arith::Checked),
{
    let ghost m = register_machine(pool@, Arith::Checked);
    let mut regs: Vec<i64> = vec![0i64; stack_size];
    proof {
        assert(regs@ =~= zeroed(stack_size as nat));
        assert(ops@.take(0) =~= Seq::<Op>::empty());
    }
    let mut i: usize = 0;
    while i < ops.len()
        invariant
            m == register_machine(pool@, Arith::Checked),
            0 <= i <= ops@.len(),
            run(m, ops@.take(i as int), zeroed(stack_size as nat)) == Ok::<Seq<i64>, EvalError>(regs@),
        decreases ops@.len() - i,
    {
        proof {
            lemma_run_next(m, ops@, i as int, zeroed(stack_size as nat));
        }
        let done = match ops[i] {
            Op::LInt { dst, val } => {
                if (dst as usize) < regs.len() {
                    regs.set(dst as usize, val as i64);
                    Ok(())
                } else {
                    Err(EvalError::InternalInvariant)
                }
            },
            Op::LConst { dst, idx } => {
                if (dst as usize) < regs.len() && (idx as usize) < pool.len() {
                    regs.set(dst as usize, pool[idx as usize]);
                    Ok(())
                } else {
                    Err(EvalError::InternalInvariant)
                }
            },
            Op::BAdd { dst, lhs, rhs } => binary(&mut regs, BinaryOp::Add, dst, lhs, rhs),
            Op::BSub { dst, lhs, rhs } => binary(&mut regs, BinaryOp::Sub, dst, lhs, rhs),
            Op::BMul { dst, lhs, rhs } => binary(&mut regs, BinaryOp::Mul, dst, lhs, rhs),
            Op::BDiv { dst, lhs, rhs } => binary(&mut regs, BinaryOp::Div, dst, lhs, rhs),
            Op::UMinus { dst, rhs } => {
                if (dst as usize) < regs.len() && (rhs as usize) < regs.len() {
                    match checked_negate(regs[rhs as usize]) {
                        Ok(v) => {
                            regs.set(dst as usize, v);
                            Ok(())
                        },
                        Err(e) => Err(e),
                    }
                } else {
                    Err(EvalError::InternalInvariant)
                }
            },
        };
        if let Err(e) = done {
            proof {
                lemma_run_stops(m, ops@, i + 1, zeroed(stack_size as nat));
            }
            return Err(e);
        }
        i += 1;
    }
    proof {
        assert(ops@.take(ops@.len() as int) =~= ops@);
    }
    if regs.len() > 0 {
        Ok(regs[0])
    } else {
        Err(EvalError::InternalInvariant)
    }
}

} // verus!
