use vstd::prelude::*;

use super::op::{
    stack_depth, stack_machine, stack_program_result, stack_shape, well_formed, Op,
};
use crate::error::EvalError;
use crate::expr::{fits_inline, Arith, BinaryOp, Expr, UnaryOp, MAX_INLINE_INT, MAX_POOL_LEN, MIN_INLINE_INT};
use crate::machine::{arith_result, lemma_peak_append, lemma_run_append, lemma_run_single, peak, run};

verus! {

pub type ConstPool = Vec<i64>;

pub type Bytecode = Vec<Op>;

pub open spec fn binary_op(op: BinaryOp) -> Op {
    match op {
        BinaryOp::Add => Op::BAdd,
        BinaryOp::Sub => Op::BSub,
        BinaryOp::Mul => Op::BMul,
        BinaryOp::Div => Op::BDiv,
    }
}

/// The stack code of an expression whose pool literals go to the pool from
/// index `base` on: operands, then their operator; a literal is inlined
/// where it fits in 16 bits, else loaded from the pool; a unary plus emits
/// nothing of its own.
pub open spec fn stack_code(e: Expr, base: nat) -> Seq<Op>
    decreases e,
{
    match e {
        Expr::Binary(b) => stack_code(b.left, base) + stack_code(
            b.right,
            base + b.left.pool_literals().len(),
        ) + seq![binary_op(b.op)],
        Expr::Unary(u) => match u.op {
            UnaryOp::Plus => stack_code(u.right, base),
            UnaryOp::Minus => stack_code(u.right, base) + seq![Op::UMinus],
        },
        Expr::Int(v) => if fits_inline(v) {
            seq![Op::LInt(v as i16)]
        } else {
            seq![Op::LConst(base as u16)]
        },
    }
}

/// Running an expression's code, with its pool literals in place, pushes
/// its value, or fails with an arithmetic error where it has none.
pub proof fn lemma_stack_code(e: Expr, base: nat, pool: Seq<i64>, s: Seq<i64>, arith: Arith)
    requires
        base + e.pool_literals().len() <= pool.len(),
        base + e.pool_literals().len() <= MAX_POOL_LEN,
        pool.subrange(base as int, base + e.pool_literals().len() as int) == e.pool_literals(),
    ensures
        run(stack_machine(pool, arith), stack_code(e, base), s) == match e.value(arith) {
            Some(v) => Ok(s.push(v)),
            None => Err::<Seq<i64>, EvalError>(EvalError::Arithmetic),
        },
    decreases e,
{
    let m = stack_machine(pool, arith);
    match e {
        Expr::Binary(b) => {
            let ll = b.left.pool_literals().len();
            let rl = b.right.pool_literals().len() as int;
            let bi = base as int;
            let li = ll as int;
            let lc = stack_code(b.left, base);
            let rc = stack_code(b.right, base + ll);
            assert(pool.subrange(bi, bi + li) =~= e.pool_literals().subrange(0, li));
            assert(pool.subrange(bi + li, bi + li + rl) =~= e.pool_literals().subrange(li, li + rl));
            assert(e.pool_literals().subrange(0, li) =~= b.left.pool_literals());
            assert(e.pool_literals().subrange(li, li + rl) =~= b.right.pool_literals());
            lemma_stack_code(b.left, base, pool, s, arith);
            lemma_run_append(m, lc + rc, seq![binary_op(b.op)], s);
            lemma_run_append(m, lc, rc, s);
            if let Some(l) = b.left.value(arith) {
                lemma_stack_code(b.right, base + ll, pool, s.push(l), arith);
                if let Some(r) = b.right.value(arith) {
                    let t = s.push(l).push(r);
                    assert(t.drop_last().drop_last() =~= s);
                    lemma_run_single(m, binary_op(b.op), t);
                }
            }
        },
        Expr::Unary(u) => {
            lemma_stack_code(u.right, base, pool, s, arith);
            if u.op == UnaryOp::Minus {
                lemma_run_append(m, stack_code(u.right, base), seq![Op::UMinus], s);
                if let Some(v) = u.right.value(arith) {
                    let t = s.push(v);
                    assert(t.drop_last() =~= s);
                    lemma_run_single(m, Op::UMinus, t);
                }
            }
        },
        Expr::Int(v) => {
            if fits_inline(v) {
                lemma_run_single(m, Op::LInt(v as i16), s);
            } else {
                assert(pool[base as int] == pool.subrange(base as int, base as int + 1)[0]);
                lemma_run_single(m, Op::LConst(base as u16), s);
            }
        },
    }
}

/// An expression's code, with its pool literals in place, pushes one value
/// and holds at most `slots()` values over what was there.
pub proof fn lemma_stack_shape(e: Expr, base: nat, pool_len: nat, s: Seq<i64>)
    requires
        base + e.pool_literals().len() <= pool_len,
        base + e.pool_literals().len() <= MAX_POOL_LEN,
    ensures
        run(stack_shape(pool_len), stack_code(e, base), s) == Ok::<Seq<i64>, EvalError>(s.push(0)),
        peak(stack_shape(pool_len), stack_code(e, base), s) == s.len() + e.slots(),
    decreases e,
{
    let m = stack_shape(pool_len);
    match e {
        Expr::Binary(b) => {
            let ll = b.left.pool_literals().len();
            let lc = stack_code(b.left, base);
            let rc = stack_code(b.right, base + ll);
            let op = seq![binary_op(b.op)];
            lemma_stack_shape(b.left, base, pool_len, s);
            lemma_stack_shape(b.right, base + ll, pool_len, s.push(0));
            lemma_run_append(m, lc + rc, op, s);
            lemma_run_append(m, lc, rc, s);
            lemma_peak_append(m, lc, rc, s);
            let t = s.push(0).push(0);
            assert(t.drop_last() =~= s.push(0));
            lemma_run_single(m, binary_op(b.op), t);
            lemma_peak_append(m, lc + rc, op, s);
            assert(op.drop_last() =~= Seq::<Op>::empty());
            assert(peak(m, op.drop_last(), t) == t.len());
            assert(peak(m, op, t) == s.len() + 2);
            b.right.lemma_slots_positive();
        },
        Expr::Unary(u) => {
            lemma_stack_shape(u.right, base, pool_len, s);
            if u.op == UnaryOp::Minus {
                let op = seq![Op::UMinus];
                lemma_run_append(m, stack_code(u.right, base), op, s);
                lemma_run_single(m, Op::UMinus, s.push(0));
                lemma_peak_append(m, stack_code(u.right, base), op, s);
                assert(op.drop_last() =~= Seq::<Op>::empty());
                assert(peak(m, op.drop_last(), s.push(0)) == s.len() + 1);
                u.right.lemma_slots_positive();
            }
        },
        Expr::Int(v) => {
            let op = if fits_inline(v) {
                Op::LInt(v as i16)
            } else {
                Op::LConst(base as u16)
            };
            lemma_run_single(m, op, s);
            assert(seq![op].drop_last() =~= Seq::<Op>::empty());
            assert(peak(m, seq![op].drop_last(), s) == s.len());
        },
    }
}

/// The compiled code of an expression is well formed, needs exactly
/// `slots()` stack entries, and evaluates to the expression's value.
pub proof fn lemma_stack_program(e: Expr)
    requires
        e.pool_literals().len() <= MAX_POOL_LEN,
    ensures
        well_formed(stack_code(e, 0), e.pool_literals().len()),
        stack_depth(stack_code(e, 0), e.pool_literals().len()) == e.slots(),
        stack_program_result(stack_code(e, 0), e.pool_literals(), Arith::Checked)
            == arith_result(e.value(Arith::Checked)),
        stack_program_result(stack_code(e, 0), e.pool_literals(), Arith::Wrapping)
            == arith_result(e.value(Arith::Wrapping)),
{
    let lits = e.pool_literals();
    assert(lits.subrange(0, lits.len() as int) =~= lits);
    lemma_stack_shape(e, 0, lits.len(), Seq::empty());
    lemma_stack_code(e, 0, lits, Seq::empty(), Arith::Checked);
    lemma_stack_code(e, 0, lits, Seq::empty(), Arith::Wrapping);
    if let Some(v) = e.value(Arith::Checked) {
        assert(Seq::<i64>::empty().push(v)[0] == v);
    }
    if let Some(v) = e.value(Arith::Wrapping) {
        assert(Seq::<i64>::empty().push(v)[0] == v);
    }
}

fn emit(expr: &Expr, ops: &mut Bytecode, pool: &mut ConstPool)
    requires
        old(pool)@.len() + expr.pool_literals().len() <= MAX_POOL_LEN,
    ensures
        final(ops)@ == old(ops)@ + stack_code(*expr, old(pool)@.len()),
        final(pool)@ == old(pool)@ + expr.pool_literals(),
    decreases expr,
{
    match expr {
        Expr::Binary(expr) => {
            emit(&expr.left, ops, pool);
            emit(&expr.right, ops, pool);
            match expr.op {
                BinaryOp::Add => ops.push(Op::BAdd),
                BinaryOp::Sub => ops.push(Op::BSub),
                BinaryOp::Mul => ops.push(Op::BMul),
                BinaryOp::Div => ops.push(Op::BDiv),
            }
        },
        Expr::Unary(expr) => {
            emit(&expr.right, ops, pool);
            match expr.op {
                UnaryOp::Plus => {},
                UnaryOp::Minus => ops.push(Op::UMinus),
            }
        },
        Expr::Int(value) => {
            if MIN_INLINE_INT <= *value && *value <= MAX_INLINE_INT {
                ops.push(Op::LInt(*value as i16));
            } else {
                let i = pool.len() as u16;
                pool.push(*value);
                ops.push(Op::LConst(i));
            }
        },
    }
    proof {
        assert(ops@ =~= old(ops)@ + stack_code(*expr, old(pool)@.len()));
        assert(pool@ =~= old(pool)@ + expr.pool_literals());
    }
}

/// Compiles an expression to stack code and its constant pool. The code
/// is well formed for that pool, needs `slots()` stack entries, and
/// evaluates to the expression's value.
pub fn compile(expr: &Expr) -> (res: (Bytecode, ConstPool))
    requires
        expr.pool_literals().len() <= MAX_POOL_LEN,
    ensures
        res.0@ == stack_code(*expr, 0),
        res.1@ == expr.pool_literals(),
        well_formed(res.0@, res.1@.len()),
        stack_depth(res.0@, res.1@.len()) == expr.slots(),
        stack_program_result(res.0@, res.1@, Arith::Checked) == arith_result(expr.value(Arith::Checked)),
        stack_program_result(res.0@, res.1@, Arith::Wrapping) == arith_result(expr.value(Arith::Wrapping)),
{
    let (mut ops, mut pool) = (Vec::new(), Vec::new());
    emit(expr, &mut ops, &mut pool);
    proof {
        assert(ops@ =~= stack_code(*expr, 0));
        assert(pool@ =~= expr.pool_literals());
        lemma_stack_program(*expr);
    }
    (ops, pool)
}

} // verus!
