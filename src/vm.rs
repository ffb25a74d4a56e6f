use vstd::prelude::*;

use crate::error::EvalError;
use crate::expr::{Arith, BinaryOp};
use crate::machine::{lemma_run_next, lemma_run_stops, run, stack_binary, stack_negate};
use crate::rpn::op::{rpn_machine, rpn_result, Op};

verus! {

/// Runs postfix code on a stack that grows as needed, with checked
/// arithmetic; an operator without its operands, or more or less than one
/// value left at the end, is an `InternalInvariant` error.
pub fn eval(ops: &[Op]) -> (res: Result<i64, EvalError>)
    ensures
        res == rpn_result(ops@),
{
    let mut stack: Vec<i64> = Vec::new();
    let mut i: usize = 0;
    while i < ops.len()
        invariant
            0 <= i <= ops@.len(),
            run(rpn_machine(), ops@.take(i as int), Seq::empty()) == Ok::<Seq<i64>, EvalError>(stack@),
        decreases ops@.len() - i,
    {
        proof {
            lemma_run_next(rpn_machine(), ops@, i as int, Seq::empty());
        }
        let done = match ops[i] {
            Op::LInt(value) => {
                stack.push(value);
                Ok(())
            },
            Op::BAdd => stack_binary(&mut stack, BinaryOp::Add, Arith::Checked),
            Op::BSub => stack_binary(&mut stack, BinaryOp::Sub, Arith::Checked),
            Op::BMul => stack_binary(&mut stack, BinaryOp::Mul, Arith::Checked),
            Op::BDiv => stack_binary(&mut stack, BinaryOp::Div, Arith::Checked),
            Op::UMinus => stack_negate(&mut stack, Arith::Checked),
        };
        if let Err(e) = done {
            proof {
                lemma_run_stops(rpn_machine(), ops@, i + 1, Seq::empty());
            }
            return Err(e);
        }
        i += 1;
    }
    proof {
        assert(ops@.take(ops@.len() as int) =~= ops@);
    }
    if stack.len() == 1 {
        Ok(stack[0])
    } else {
        Err(EvalError::InternalInvariant)
    }
}

} // verus!
