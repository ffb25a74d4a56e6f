use vstd::prelude::*;

use crate::error::EvalError;
use crate::expr::{Arith, BinaryOp, Expr, UnaryOp, MAX_INLINE_INT, MAX_POOL_LEN, MIN_INLINE_INT};
use crate::machine::arith_result;
use crate::stack::compiler::{lemma_stack_program, stack_code};
use crate::stack::op::{stack_depth, stack_program_result, well_formed, Op};

verus! {

pub type Bytecode = Vec<Op>;

pub type ConstPool = Vec<i64>;

pub type StackSize = usize;

/// Tracks the depth of the stack while code is emitted: `current` values
/// are on it now, and at most `max` were at once.
struct StackAlloc {
    current: StackSize,
    max: StackSize,
}

impl StackAlloc {
    /// One more value on the stack.
    fn push(&mut self)
        requires
            old(self).current < usize::MAX,
        ensures
            final(self).current == old(self).current + 1,
            final(self).max == if old(self).max > old(self).current {
                old(self).max as int
            } else {
                old(self).current + 1
            },
    {
        self.current += 1;
        if self.current > self.max {
            self.max = self.current;
        }
    }

    /// One value fewer on the stack.
    fn pop(&mut self)
        requires
            old(self).current > 0,
        ensures
            final(self).current == old(self).current - 1,
            final(self).max == old(self).max,
    {
        self.current -= 1;
    }

    /// The most values that were on the stack at once.
    fn finish(self) -> (size: StackSize)
        ensures
            size == self.max,
    {
        self.max
    }
}

fn emit(expr: &Expr, ops: &mut Bytecode, pool: &mut ConstPool, stack: &mut StackAlloc)
    requires
        old(pool)@.len() + expr.pool_literals().len() <= MAX_POOL_LEN,
        old(stack).current <= old(ops)@.len(),
    ensures
        final(ops)@ == old(ops)@ + stack_code(*expr, old(pool)@.len()),
        final(pool)@ == old(pool)@ + expr.pool_literals(),
        final(stack).current == old(stack).current + 1,
        final(stack).current <= final(ops)@.len(),
        final(stack).max == if old(stack).max >= old(stack).current + expr.slots() {
            old(stack).max as int
        } else {
            old(stack).current + expr.slots()
        },
    decreases expr,
{
    match expr {
        Expr::Binary(expr) => {
            emit(&expr.left, ops, pool, stack);
            emit(&expr.right, ops, pool, stack);
            stack.pop();
            match expr.op {
                BinaryOp::Add => ops.push(Op::BAdd),
                BinaryOp::Sub => ops.push(Op::BSub),
                BinaryOp::Mul => ops.push(Op::BMul),
                BinaryOp::Div => ops.push(Op::BDiv),
            }
        },
        Expr::Unary(expr) => {
            emit(&expr.right, ops, pool, stack);
            match expr.op {
                UnaryOp::Plus => {},
                UnaryOp::Minus => ops.push(Op::UMinus),
            }
        },
        Expr::Int(value) => {
            if MIN_INLINE_INT <= *value && *value <= MAX_INLINE_INT {
                ops.push(Op::LInt(*value as i16));
            } else {
                let i = pool.len() as u16;
                pool.push(*value);
                ops.push(Op::LConst(i));
            }
            // Each value on the stack was loaded by an instruction already
            // emitted, so the depth stays below the length of `ops`.
            let emitted = ops.len();
            assert(stack.current < emitted);
            stack.push();
        },
    }
    proof {
        assert(ops@ =~= old(ops)@ + stack_code(*expr, old(pool)@.len()));
        assert(pool@ =~= old(pool)@ + expr.pool_literals());
    }
}

/// Compiles an expression to stack code, its constant pool, and the stack
/// size it needs. The code is the stack compiler's, and the size is exactly
/// the most values the stack holds at once while the code runs.
pub fn compile(expr: &Expr) -> (res: (Bytecode, ConstPool, StackSize))
    requires
        expr.pool_literals().len() <= MAX_POOL_LEN,
    ensures
        res.0@ == stack_code(*expr, 0),
        res.1@ == expr.pool_literals(),
        res.2 == expr.slots(),
        well_formed(res.0@, res.1@.len()),
        res.2 == stack_depth(res.0@, res.1@.len()),
        stack_program_result(res.0@, res.1@, Arith::Checked) == arith_result(expr.value(Arith::Checked)),
        stack_program_result(res.0@, res.1@, Arith::Wrapping) == arith_result(expr.value(Arith::Wrapping)),
{
    let (mut ops, mut pool, mut stack) = (Vec::new(), Vec::new(), StackAlloc { current: 0, max: 0 });
    emit(expr, &mut ops, &mut pool, &mut stack);
    proof {
        assert(ops@ =~= stack_code(*expr, 0));
        assert(pool@ =~= expr.pool_literals());
        lemma_stack_program(*expr);
        expr.lemma_slots_positive();
    }
    (ops, pool, stack.finish())
}

} // verus!
