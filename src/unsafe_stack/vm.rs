use vstd::prelude::*;

use crate::error::EvalError;
use crate::expr::{Arith, BinaryOp};
use crate::machine::{lemma_run_next, lemma_run_stops, run, wrapping_binary, wrapping_negate};
use crate::stack::compiler::{Bytecode, ConstPool};
use crate::stack::op::{stack_machine, stack_program_result, stack_shape, well_formed, Op};

verus! {

/// Pops the two operands that well-formed code guarantees and applies `op`
/// with wrapping arithmetic.
fn apply_top(stack: &mut Vec<i64>, op: BinaryOp) -> (res: Result<(), EvalError>)
    requires
        old(stack)@.len() >= 2,
    ensures
        match crate::machine::push_binary(old(stack)@, op, Arith::Wrapping) {
            Ok(s) => res is Ok && final(stack)@ == s,
            Err(e) => res == Err::<(), EvalError>(e),
        },
{
    let right = stack.pop().unwrap();
    let left = stack.pop().unwrap();
    match wrapping_binary(op, left, right) {
        Ok(v) => {
            stack.push(v);
            proof {
                assert(stack@ =~= old(stack)@.drop_last().drop_last().push(v));
            }
            Ok(())
        },
        Err(e) => Err(e),
    }
}

/// Runs stack code that the stack compiler produced for `pool`, without
/// validating pops or pool indices: `well_formed` is the caller's promise
/// that none can fail. Overflow wraps around; division by zero is still an
/// `Arithmetic` error.
pub fn eval(ops: &Bytecode, pool: &ConstPool) -> (res: Result<i64, EvalError>)
    requires
        well_formed(ops@, pool@.len()),
    ensures
        res == stack_program_result(ops@, pool@, Arith::Wrapping),
{
    let ghost m = stack_machine(pool@, Arith::Wrapping);
    let ghost sh = stack_shape(pool@.len());
    let mut stack: Vec<i64> = Vec::new();
    let mut i: usize = 0;
    while i < ops.len()
        invariant
            m == stack_machine(pool@, Arith::Wrapping),
            sh == stack_shape(pool@.len()),
            well_formed(ops@, pool@.len()),
            0 <= i <= ops@.len(),
            run(m, ops@.take(i as int), Seq::empty()) == Ok::<Seq<i64>, EvalError>(stack@),
            run(sh, ops@.take(i as int), Seq::empty()) is Ok,
            run(sh, ops@.take(i as int), Seq::empty())->Ok_0.len() == stack@.len(),
        decreases ops@.len() - i,
    {
        proof {
            lemma_run_next(m, ops@, i as int, Seq::empty());
            lemma_run_next(sh, ops@, i as int, Seq::empty());
            if run(sh, ops@.take(i + 1), Seq::empty()) is Err {
                lemma_run_stops(sh, ops@, i + 1, Seq::empty());
            }
        }
        let done = match ops[i] {
            Op::LInt(value) => {
                stack.push(value as i64);
                Ok(())
            },
            Op::LConst(index) => {
                stack.push(pool[index as usize]);
                Ok(())
            },
            Op::BAdd => apply_top(&mut stack, BinaryOp::Add),
            Op::BSub => apply_top(&mut stack, BinaryOp::Sub),
            Op::BMul => apply_top(&mut stack, BinaryOp::Mul),
            Op::BDiv => apply_top(&mut stack, BinaryOp::Div),
            Op::UMinus => {
                let right = stack.pop().unwrap();
                stack.push(wrapping_negate(right));
                Ok(())
            },
        };
        if let Err(e) = done {
            proof {
                lemma_run_stops(m, ops@, i + 1, Seq::empty());
            }
            return Err(e);
        }
        i += 1;
    }
    proof {
        assert(ops@.take(ops@.len() as int) =~= ops@);
    }
    Ok(stack[0])
}

} // verus!
