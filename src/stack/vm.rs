use vstd::prelude::*;

use super::compiler::{Bytecode, ConstPool};
use super::op::{stack_machine, stack_program_result, Op};
use crate::error::EvalError;
use crate::expr::{Arith, BinaryOp};
use crate::machine::{lemma_run_next, lemma_run_stops, run, stack_binary, stack_negate};

verus! {

/// Runs stack code with checked arithmetic, checking every pool index and
/// every pop.
pub fn eval(ops: &Bytecode, pool: &ConstPool) -> (res: Result<i64, EvalError>)
    ensures
        res == stack_program_result(ops@, pool@, Arith::Checked),
{
    let ghost m = stack_machine(pool@, Arith::Checked);
    let mut stack: Vec<i64> = Vec::new();
    let mut i: usize = 0;
    while i < ops.len()
        invariant
            m == stack_machine(pool@, Arith::Checked),
            0 <= i <= ops@.len(),
            run(m, ops@.take(i as int), Seq::empty()) == Ok::<Seq<i64>, EvalError>(stack@),
        decreases ops@.len() - i,
    {
        proof {
            lemma_run_next(m, ops@, i as int, Seq::empty());
        }
        let done = match ops[i] {
            Op::LInt(value) => {
                stack.push(value as i64);
                Ok(())
            },
            Op::LConst(index) => {
                if (index as usize) < pool.len() {
                    stack.push(pool[index as usize]);
                    Ok(())
                } else {
                    Err(EvalError::InternalInvariant)
                }
            },
            Op::BAdd => stack_binary(&mut stack, BinaryOp::Add, Arith::Checked),
            Op::BSub => stack_binary(&mut stack, BinaryOp::Sub, Arith::Checked),
            Op::BMul => stack_binary(&mut stack, BinaryOp::Mul, Arith::Checked),
            Op::BDiv => stack_binary(&mut stack, BinaryOp::Div, Arith::Checked),
            Op::UMinus => stack_negate(&mut stack, Arith::Checked),
        };
        if let Err(e) = done {
            proof {
                lemma_run_stops(m, ops@, i + 1, Seq::empty());
            }
            return Err(e);
        }
        i += 1;
    }
    proof {
        assert(ops@.take(ops@.len() as int) =~= ops@);
    }
    if stack.len() == 1 {
        Ok(stack[0])
    } else {
        Err(EvalError::InternalInvariant)
    }
}

} // verus!
