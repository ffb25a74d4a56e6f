use vstd::prelude::*;

use super::op::{rpn_machine, rpn_result, Op};
use crate::error::EvalError;
use crate::expr::{Arith, BinaryOp, Expr, UnaryOp};
use crate::machine::{arith_result, lemma_run_append, lemma_run_single, run};

verus! {

pub type Bytecode = Vec<Op>;

pub open spec fn binary_op(op: BinaryOp) -> Op {
    match op {
        BinaryOp::Add => Op::BAdd,
        BinaryOp::Sub => Op::BSub,
        BinaryOp::Mul => Op::BMul,
        BinaryOp::Div => Op::BDiv,
    }
}

/// The postfix code of an expression: operands, then their operator; a
/// unary plus emits nothing of its own.
pub open spec fn rpn_code(e: Expr) -> Seq<Op>
    decreases e,
{
    match e {
        Expr::Binary(b) => rpn_code(b.left) + rpn_code(b.right) + seq![binary_op(b.op)],
        Expr::Unary(u) => match u.op {
            UnaryOp::Plus => rpn_code(u.right),
            UnaryOp::Minus => rpn_code(u.right) + seq![Op::UMinus],
        },
        Expr::Int(v) => seq![Op::LInt(v)],
    }
}

/// Running an expression's code pushes its value, or fails with an
/// arithmetic error where the expression has none.
pub proof fn lemma_rpn_code(e: Expr, s: Seq<i64>)
    ensures
        run(rpn_machine(), rpn_code(e), s) == match e.value(Arith::Checked) {
            Some(v) => Ok(s.push(v)),
            None => Err::<Seq<i64>, EvalError>(EvalError::Arithmetic),
        },
    decreases e,
{
    match e {
        Expr::Binary(b) => {
            let lc = rpn_code(b.left);
            let rc = rpn_code(b.right);
            lemma_rpn_code(b.left, s);
            lemma_run_append(rpn_machine(), lc + rc, seq![binary_op(b.op)], s);
            lemma_run_append(rpn_machine(), lc, rc, s);
            if let Some(l) = b.left.value(Arith::Checked) {
                lemma_rpn_code(b.right, s.push(l));
                if let Some(r) = b.right.value(Arith::Checked) {
                    let t = s.push(l).push(r);
                    assert(t.drop_last().drop_last() =~= s);
                    lemma_run_single(rpn_machine(), binary_op(b.op), t);
                }
            }
        },
        Expr::Unary(u) => {
            lemma_rpn_code(u.right, s);
            if u.op == UnaryOp::Minus {
                lemma_run_append(rpn_machine(), rpn_code(u.right), seq![Op::UMinus], s);
                if let Some(v) = u.right.value(Arith::Checked) {
                    let t = s.push(v);
                    assert(t.drop_last() =~= s);
                    lemma_run_single(rpn_machine(), Op::UMinus, t);
                }
            }
        },
        Expr::Int(v) => {
            lemma_run_single(rpn_machine(), Op::LInt(v), s);
        },
    }
}

fn emit(expr: &Expr, ops: &mut Bytecode)
    ensures
        final(ops)@ == old(ops)@ + rpn_code(*expr),
    decreases expr,
{
    match expr {
        Expr::Binary(expr) => {
            emit(&expr.left, ops);
            emit(&expr.right, ops);
            let op = match expr.op {
                BinaryOp::Add => Op::BAdd,
                BinaryOp::Sub => Op::BSub,
                BinaryOp::Mul => Op::BMul,
                BinaryOp::Div => Op::BDiv,
            };
            ops.push(op);
        },
        Expr::Unary(expr) => {
            emit(&expr.right, ops);
            match expr.op {
                UnaryOp::Plus => {},
                UnaryOp::Minus => ops.push(Op::UMinus),
            }
        },
        Expr::Int(value) => ops.push(Op::LInt(*value)),
    }
    proof {
        assert(ops@ =~= old(ops)@ + rpn_code(*expr));
    }
}

/// Compiles an expression to postfix code, which evaluates to the
/// expression's value.
pub fn compile(expr: &Expr) -> (ops: Bytecode)
    ensures
        ops@ == rpn_code(*expr),
        rpn_result(ops@) == arith_result(expr.value(Arith::Checked)),
{
    let mut ops = Vec::new();
    emit(expr, &mut ops);
    proof {
        assert(ops@ =~= rpn_code(*expr));
        lemma_rpn_code(*expr, Seq::empty());
        if let Some(v) = expr.value(Arith::Checked) {
            assert(Seq::<i64>::empty().push(v)[0] == v);
        }
    }
    ops
}

} // verus!
