use vstd::prelude::*;

use super::compiler::{Bytecode, ConstPool, StackSize};
use crate::error::EvalError;
use crate::expr::{Arith, BinaryOp};
use crate::machine::{
    lemma_peak_at_least_end, lemma_peak_prefix, lemma_run_next, lemma_run_stops, push_binary, run,
    wrapping_binary, wrapping_negate,
};
use crate::stack::op::{stack_depth, stack_machine, stack_program_result, stack_shape, well_formed, Op};

verus! {

/// A stack in a buffer allocated once: the values are the buffer's first
/// `ptr` entries.
struct Stack {
    buffer: Vec<i64>,
    ptr: usize,
}

impl Stack {
    spec fn values(&self) -> Seq<i64> {
        self.buffer@.take(self.ptr as int)
    }

    fn new(size: StackSize) -> (s: Self)
        ensures
            s.buffer@ == Seq::new(size as nat, |_i: int| 0i64),
            s.ptr == 0,
    {
        let s = Self { buffer: vec![0i64; size], ptr: 0 };
        proof {
            assert(s.buffer@ =~= Seq::new(size as nat, |_i: int| 0i64));
        }
        s
    }

    fn push(&mut self, value: i64)
        requires
            old(self).ptr < old(self).buffer@.len() <= usize::MAX,
        ensures
            final(self).buffer@ == old(self).buffer@.update(old(self).ptr as int, value),
            final(self).ptr == old(self).ptr + 1,
            final(self).values() == old(self).values().push(value),
    {
        self.buffer.set(self.ptr, value);
        self.ptr += 1;
        proof {
            assert(self.values() =~= old(self).values().push(value));
        }
    }

    fn pop(&mut self) -> (value: i64)
        requires
            0 < old(self).ptr <= old(self).buffer@.len(),
        ensures
            final(self).buffer@ == old(self).buffer@,
            final(self).ptr == old(self).ptr - 1,
            final(self).values() == old(self).values().drop_last(),
            value == old(self).values().last(),
    {
        self.ptr -= 1;
        proof {
            assert(self.values() =~= old(self).values().drop_last());
        }
        self.buffer[self.ptr]
    }
}

/// Pops two operands, applies `op` with wrapping arithmetic, and pushes the
/// result.
fn apply_top(stack: &mut Stack, op: BinaryOp) -> (res: Result<(), EvalError>)
    requires
        2 <= old(stack).ptr <= old(stack).buffer@.len() <= usize::MAX,
    ensures
        final(stack).buffer@.len() == old(stack).buffer@.len(),
        match push_binary(old(stack).values(), op, Arith::Wrapping) {
            Ok(s) => res is Ok && final(stack).values() == s && final(stack).ptr == old(stack).ptr - 1,
            Err(e) => res == Err::<(), EvalError>(e),
        },
{
    let right = stack.pop();
    let left = stack.pop();
    match wrapping_binary(op, left, right) {
        Ok(v) => {
            stack.push(v);
            Ok(())
        },
        Err(e) => Err(e),
    }
}

/// Runs stack code on a buffer of `stack_size` values, without validating
/// pops, pushes or pool indices: `well_formed` and a depth within
/// `stack_size`, which the paired compiler guarantees, are the caller's
/// promise. Overflow wraps around; division by zero is an `Arithmetic`
/// error.
pub fn eval(ops: &Bytecode, pool: &ConstPool, stack_size: StackSize) -> (res: Result<i64, EvalError>)
    requires
        well_formed(ops@, pool@.len()),
        stack_depth(ops@, pool@.len()) <= stack_size,
    ensures
        res == stack_program_result(ops@, pool@, Arith::Wrapping),
{
    let ghost m = stack_machine(pool@, Arith::Wrapping);
    let ghost sh = stack_shape(pool@.len());
    let mut stack = Stack::new(stack_size);
    let mut i: usize = 0;
    proof {
        assert(stack.values() =~= Seq::<i64>::empty());
        assert(ops@.take(0) =~= Seq::<Op>::empty());
    }
    while i < ops.len()
        invariant
            m == stack_machine(pool@, Arith::Wrapping),
            sh == stack_shape(pool@.len()),
            well_formed(ops@, pool@.len()),
            stack_depth(ops@, pool@.len()) <= stack_size,
            stack.buffer@.len() == stack_size,
            0 <= i <= ops@.len(),
            run(m, ops@.take(i as int), Seq::empty()) == Ok::<Seq<i64>, EvalError>(stack.values()),
            run(sh, ops@.take(i as int), Seq::empty()) is Ok,
            run(sh, ops@.take(i as int), Seq::empty())->Ok_0.len() == stack.ptr,
            stack.ptr <= stack_size,
        decreases ops@.len() - i,
    {
        proof {
            lemma_run_next(m, ops@, i as int, Seq::empty());
            lemma_run_next(sh, ops@, i as int, Seq::empty());
            if run(sh, ops@.take(i + 1), Seq::empty()) is Err {
                lemma_run_stops(sh, ops@, i + 1, Seq::empty());
            }
            lemma_peak_at_least_end(sh, ops@.take(i + 1), Seq::empty());
            lemma_peak_prefix(sh, ops@, i + 1, Seq::empty());
        }
        let done = match ops[i] {
            Op::LInt(value) => {
                stack.push(value as i64);
                Ok(())
            },
            Op::LConst(index) => {
                stack.push(pool[index as usize]);
                Ok(())
            },
            Op::BAdd => apply_top(&mut stack, BinaryOp::Add),
            Op::BSub => apply_top(&mut stack, BinaryOp::Sub),
            Op::BMul => apply_top(&mut stack, BinaryOp::Mul),
            Op::BDiv => apply_top(&mut stack, BinaryOp::Div),
            Op::UMinus => {
                let right = stack.pop();
                stack.push(wrapping_negate(right));
                Ok(())
            },
        };
        if let Err(e) = done {
            proof {
                lemma_run_stops(m, ops@, i + 1, Seq::empty());
            }
            return Err(e);
        }
        i += 1;
    }
    proof {
        assert(ops@.take(ops@.len() as int) =~= ops@);
    }
    Ok(stack.pop())
}

} // verus!
