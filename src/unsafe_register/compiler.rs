use vstd::prelude::*;

use super::op::{
    lemma_registers_used_append, lemma_registers_used_bound, op_registers, register_machine, register_program_result,
    registers_used, well_formed, zeroed, Op,
};
use crate::error::EvalError;
use crate::expr::{
    fits_inline, Arith, BinaryOp, Expr, UnaryOp, MAX_INLINE_INT, MAX_POOL_LEN, MAX_REGISTERS, MIN_INLINE_INT,
};
use crate::machine::{arith_result, lemma_run_append, lemma_run_single, run};

verus! {

pub type Bytecode = Vec<Op>;

pub type ConstPool = Vec<i64>;

pub type StackSize = usize;

/// `regs[dst] = regs[dst] op regs[rhs]`.
pub open spec fn binary_op(op: BinaryOp, dst: nat, rhs: nat) -> Op {
    let (dst, rhs) = (dst as u8, rhs as u8);
    match op {
        BinaryOp::Add => Op::BAdd { dst, lhs: dst, rhs },
        BinaryOp::Sub => Op::BSub { dst, lhs: dst, rhs },
        BinaryOp::Mul => Op::BMul { dst, lhs: dst, rhs },
        BinaryOp::Div => Op::BDiv { dst, lhs: dst, rhs },
    }
}

/// The register code that leaves an expression's value in register `dst`,
/// its pool literals going to the pool from index `base` on. A binary
/// node computes its left operand in `dst` itself and its right one in
/// `dst + 1`; a unary node works in `dst` alone and a unary plus emits
/// nothing of its own.
pub open spec fn register_code(e: Expr, dst: nat, base: nat) -> Seq<Op>
    decreases e,
{
    match e {
        Expr::Binary(b) => register_code(b.left, dst, base) + register_code(
            b.right,
            dst + 1,
            base + b.left.pool_literals().len(),
        ) + seq![binary_op(b.op, dst, dst + 1)],
        Expr::Unary(u) => match u.op {
            UnaryOp::Plus => register_code(u.right, dst, base),
            UnaryOp::Minus => register_code(u.right, dst, base) + seq![
                Op::UMinus { dst: dst as u8, rhs: dst as u8 },
            ],
        },
        Expr::Int(v) => if fits_inline(v) {
            seq![Op::LInt { dst: dst as u8, val: v as i16 }]
        } else {
            seq![Op::LConst { dst: dst as u8, idx: base as u16 }]
        },
    }
}

/// Running an expression's code, with its pool literals in place, writes
/// its value to `dst` and leaves the registers below `dst` alone; where it
/// has no value, it fails with an arithmetic error.
pub proof fn lemma_register_code(e: Expr, dst: nat, base: nat, pool: Seq<i64>, regs: Seq<i64>, arith: Arith)
    requires
        dst + e.slots() <= regs.len(),
        dst + e.slots() <= MAX_REGISTERS + 1,
        base + e.pool_literals().len() <= pool.len(),
        base + e.pool_literals().len() <= MAX_POOL_LEN,
        pool.subrange(base as int, base + e.pool_literals().len() as int) == e.pool_literals(),
    ensures
        match run(register_machine(pool, arith), register_code(e, dst, base), regs) {
            Ok(r) => {
                &&& e.value(arith) == Some(r[dst as int])
                &&& r.len() == regs.len()
                &&& r.take(dst as int) == regs.take(dst as int)
            },
            Err(err) => err == EvalError::Arithmetic && e.value(arith) is None,
        },
    decreases e, 1nat,
{
    match e {
        Expr::Binary(_) => lemma_register_code_binary(e, dst, base, pool, regs, arith),
        Expr::Unary(_) => lemma_register_code_unary(e, dst, base, pool, regs, arith),
        Expr::Int(_) => lemma_register_code_int(e, dst, base, pool, regs, arith),
    }
}

/// `lemma_register_code` for a unary node.
proof fn lemma_register_code_unary(e: Expr, dst: nat, base: nat, pool: Seq<i64>, regs: Seq<i64>, arith: Arith)
    requires
        e is Unary,
        dst + e.slots() <= regs.len(),
        dst + e.slots() <= MAX_REGISTERS + 1,
        base + e.pool_literals().len() <= pool.len(),
        base + e.pool_literals().len() <= MAX_POOL_LEN,
        pool.subrange(base as int, base + e.pool_literals().len() as int) == e.pool_literals(),
    ensures
        match run(register_machine(pool, arith), register_code(e, dst, base), regs) {
            Ok(r) => {
                &&& e.value(arith) == Some(r[dst as int])
                &&& r.len() == regs.len()
                &&& r.take(dst as int) == regs.take(dst as int)
            },
            Err(err) => err == EvalError::Arithmetic && e.value(arith) is None,
        },
    decreases e, 0nat,
{
    let m = register_machine(pool, arith);
    if let Expr::Unary(u) = e {
        u.right.lemma_slots_positive();
        assert(e.slots() == u.right.slots());
        lemma_register_code(u.right, dst, base, pool, regs, arith);
        if u.op == UnaryOp::Minus {
            let op = Op::UMinus { dst: dst as u8, rhs: dst as u8 };
            lemma_run_append(m, register_code(u.right, dst, base), seq![op], regs);
            if let Ok(r1) = run(m, register_code(u.right, dst, base), regs) {
                assert(r1.len() == regs.len());
                assert(u.right.value(arith) == Some(r1[dst as int]));
                lemma_run_single(m, op, r1);
                if let Some(v) = crate::expr::apply_negate(r1[dst as int], arith) {
                    assert(r1.update(dst as int, v).take(dst as int) =~= r1.take(dst as int));
                }
            }
        }
    }
}

/// `lemma_register_code` for a literal.
proof fn lemma_register_code_int(e: Expr, dst: nat, base: nat, pool: Seq<i64>, regs: Seq<i64>, arith: Arith)
    requires
        e is Int,
        dst + e.slots() <= regs.len(),
        dst + e.slots() <= MAX_REGISTERS + 1,
        base + e.pool_literals().len() <= pool.len(),
        base + e.pool_literals().len() <= MAX_POOL_LEN,
        pool.subrange(base as int, base + e.pool_literals().len() as int) == e.pool_literals(),
    ensures
        match run(register_machine(pool, arith), register_code(e, dst, base), regs) {
            Ok(r) => {
                &&& e.value(arith) == Some(r[dst as int])
                &&& r.len() == regs.len()
                &&& r.take(dst as int) == regs.take(dst as int)
            },
            Err(err) => err == EvalError::Arithmetic && e.value(arith) is None,
        },
{
    let m = register_machine(pool, arith);
    if let Expr::Int(v) = e {
        let op = if fits_inline(v) {
            Op::LInt { dst: dst as u8, val: v as i16 }
        } else {
            Op::LConst { dst: dst as u8, idx: base as u16 }
        };
        if !fits_inline(v) {
            assert(pool[base as int] == pool.subrange(base as int, base as int + 1)[0]);
        }
        lemma_run_single(m, op, regs);
        let x = if fits_inline(v) {
            v
        } else {
            pool[base as int]
        };
        assert(regs.update(dst as int, x).take(dst as int) =~= regs.take(dst as int));
    }
}

/// `lemma_register_code` for a binary node.
proof fn lemma_register_code_binary(e: Expr, dst: nat, base: nat, pool: Seq<i64>, regs: Seq<i64>, arith: Arith)
    requires
        e is Binary,
        dst + e.slots() <= regs.len(),
        dst + e.slots() <= MAX_REGISTERS + 1,
        base + e.pool_literals().len() <= pool.len(),
        base + e.pool_literals().len() <= MAX_POOL_LEN,
        pool.subrange(base as int, base + e.pool_literals().len() as int) == e.pool_literals(),
    ensures
        match run(register_machine(pool, arith), register_code(e, dst, base), regs) {
            Ok(r) => {
                &&& e.value(arith) == Some(r[dst as int])
                &&& r.len() == regs.len()
                &&& r.take(dst as int) == regs.take(dst as int)
            },
            Err(err) => err == EvalError::Arithmetic && e.value(arith) is None,
        },
    decreases e, 0nat,
{
    let m = register_machine(pool, arith);
    e.lemma_slots_positive();
    if let Expr::Binary(b) = e {
        b.right.lemma_slots_positive();
        assert(e.slots() >= b.right.slots() + 1 && e.slots() >= b.left.slots());
        let ll = b.left.pool_literals().len();
        let rl = b.right.pool_literals().len() as int;
        let bi = base as int;
        let li = ll as int;
        let lc = register_code(b.left, dst, base);
        let rc = register_code(b.right, dst + 1, base + ll);
        let op = binary_op(b.op, dst, dst + 1);
        assert(pool.subrange(bi, bi + li) =~= e.pool_literals().subrange(0, li));
        assert(pool.subrange(bi + li, bi + li + rl) =~= e.pool_literals().subrange(li, li + rl));
        assert(e.pool_literals().subrange(0, li) =~= b.left.pool_literals());
        assert(e.pool_literals().subrange(li, li + rl) =~= b.right.pool_literals());
        lemma_register_code(b.left, dst, base, pool, regs, arith);
        lemma_run_append(m, lc + rc, seq![op], regs);
        lemma_run_append(m, lc, rc, regs);
        if let Ok(r1) = run(m, lc, regs) {
            lemma_register_code(b.right, dst + 1, base + ll, pool, r1, arith);
            if let Ok(r2) = run(m, rc, r1) {
                let vl = r1[dst as int];
                let vr = r2[dst as int + 1];
                assert(b.left.value(arith) == Some(vl));
                assert(b.right.value(arith) == Some(vr));
                assert(r2.len() == regs.len());
                assert(r2[dst as int] == r2.take(dst as int + 1)[dst as int]);
                assert(r1[dst as int] == r1.take(dst as int + 1)[dst as int]);
                assert(r2[dst as int] == vl);
                lemma_run_single(m, op, r2);
                lemma_binary_op_step(b.op, dst, r2, pool, arith);
                assert((dst as u8) as int == dst);
                assert(((dst + 1) as u8) as int == dst + 1);
                assert(e.value(arith) == crate::expr::apply_binary(b.op, vl, vr, arith));
                if let Some(v) = crate::expr::apply_binary(b.op, vl, vr, arith) {
                    let r3 = r2.update(dst as int, v);
                    assert(r2.take(dst as int) =~= r2.take(dst as int + 1).take(dst as int));
                    assert(r1.take(dst as int) =~= r1.take(dst as int + 1).take(dst as int));
                    assert(r3.take(dst as int) =~= r2.take(dst as int));
                }
            }
        }
    }
}

proof fn lemma_binary_op_step(op: BinaryOp, dst: nat, regs: Seq<i64>, pool: Seq<i64>, arith: Arith)
    ensures
        super::op::register_step(regs, binary_op(op, dst, dst + 1), pool, arith)
            == super::op::register_binary(regs, op, dst as u8, dst as u8, (dst + 1) as u8, arith),
{
    match op {
        BinaryOp::Add => {},
        BinaryOp::Sub => {},
        BinaryOp::Mul => {},
        BinaryOp::Div => {},
    }
}

proof fn lemma_binary_op_registers(op: BinaryOp, dst: nat)
    requires
        dst + 2 <= MAX_REGISTERS + 1,
    ensures
        op_registers(binary_op(op, dst, dst + 1)) == dst + 2,
{
    assert((dst as u8) as nat == dst);
    assert(((dst + 1) as u8) as nat == dst + 1);
    match op {
        BinaryOp::Add => {},
        BinaryOp::Sub => {},
        BinaryOp::Mul => {},
        BinaryOp::Div => {},
    }
}

/// An expression's code names exactly the registers from `dst` to
/// `dst + slots() - 1`, and below `dst` none.
pub proof fn lemma_register_code_registers(e: Expr, dst: nat, base: nat)
    requires
        dst + e.slots() <= MAX_REGISTERS + 1,
    ensures
        registers_used(register_code(e, dst, base)) == dst + e.slots(),
    decreases e,
{
    e.lemma_slots_positive();
    match e {
        Expr::Binary(b) => {
            let ll = b.left.pool_literals().len();
            let lc = register_code(b.left, dst, base);
            let rc = register_code(b.right, dst + 1, base + ll);
            let op = seq![binary_op(b.op, dst, dst + 1)];
            lemma_register_code_registers(b.left, dst, base);
            lemma_register_code_registers(b.right, dst + 1, base + ll);
            lemma_registers_used_append(lc + rc, op);
            lemma_registers_used_append(lc, rc);
            assert(op.drop_last() =~= Seq::<Op>::empty());
            assert(registers_used(op.drop_last()) == 0);
            b.right.lemma_slots_positive();
            lemma_binary_op_registers(b.op, dst);
        },
        Expr::Unary(u) => {
            lemma_register_code_registers(u.right, dst, base);
            if u.op == UnaryOp::Minus {
                let op = seq![Op::UMinus { dst: dst as u8, rhs: dst as u8 }];
                lemma_registers_used_append(register_code(u.right, dst, base), op);
                assert(op.drop_last() =~= Seq::<Op>::empty());
                assert(registers_used(op.drop_last()) == 0);
                u.right.lemma_slots_positive();
            }
        },
        Expr::Int(v) => {
            assert(register_code(e, dst, base).drop_last() =~= Seq::<Op>::empty());
            assert(registers_used(register_code(e, dst, base).drop_last()) == 0);
        },
    }
}

/// Every pool index in an expression's code lies in `base..base + n`,
/// `n` the number of its pool literals.
pub proof fn lemma_register_code_pool(e: Expr, dst: nat, base: nat)
    requires
        base + e.pool_literals().len() <= MAX_POOL_LEN,
    ensures
        forall|i: int|
            0 <= i < register_code(e, dst, base).len() ==> super::op::op_pool_fits(
                #[trigger] register_code(e, dst, base)[i],
                base + e.pool_literals().len(),
            ),
    decreases e,
{
    match e {
        Expr::Binary(b) => {
            let ll = b.left.pool_literals().len();
            lemma_register_code_pool(b.left, dst, base);
            lemma_register_code_pool(b.right, dst + 1, base + ll);
            let lc = register_code(b.left, dst, base);
            let rc = register_code(b.right, dst + 1, base + ll);
            let code = register_code(e, dst, base);
            assert forall|i: int| 0 <= i < code.len() implies super::op::op_pool_fits(
                #[trigger] code[i],
                base + e.pool_literals().len(),
            ) by {
                if i < lc.len() {
                    assert(code[i] == lc[i]);
                } else if i < lc.len() + rc.len() {
                    assert(code[i] == rc[i - lc.len()]);
                }
            }
        },
        Expr::Unary(u) => {
            lemma_register_code_pool(u.right, dst, base);
            let rc = register_code(u.right, dst, base);
            let code = register_code(e, dst, base);
            assert forall|i: int| 0 <= i < code.len() implies super::op::op_pool_fits(
                #[trigger] code[i],
                base + e.pool_literals().len(),
            ) by {
                if i < rc.len() {
                    assert(code[i] == rc[i]);
                }
            }
        },
        Expr::Int(_) => {},
    }
}

/// The compiled code of an expression is well formed for exactly `slots()`
/// registers, uses them all, and evaluates to the expression's value.
pub proof fn lemma_register_program(e: Expr)
    requires
        e.pool_literals().len() <= MAX_POOL_LEN,
        e.slots() <= MAX_REGISTERS,
    ensures
        well_formed(register_code(e, 0, 0), e.pool_literals().len(), e.slots()),
        registers_used(register_code(e, 0, 0)) == e.slots(),
        register_program_result(register_code(e, 0, 0), e.pool_literals(), e.slots(), Arith::Checked)
            == arith_result(e.value(Arith::Checked)),
        register_program_result(register_code(e, 0, 0), e.pool_literals(), e.slots(), Arith::Wrapping)
            == arith_result(e.value(Arith::Wrapping)),
{
    let lits = e.pool_literals();
    let code = register_code(e, 0, 0);
    assert(lits.subrange(0, lits.len() as int) =~= lits);
    e.lemma_slots_positive();
    lemma_register_code(e, 0, 0, lits, zeroed(e.slots()), Arith::Checked);
    lemma_register_code(e, 0, 0, lits, zeroed(e.slots()), Arith::Wrapping);
    lemma_register_code_registers(e, 0, 0);
    lemma_registers_used_bound(code);
    lemma_register_code_pool(e, 0, 0);
}

/// Hands out registers like a stack: `current` registers are in use, and
/// at most `max` were at once.
struct RegAlloc {
    current: u8,
    max: u8,
}

impl RegAlloc {
    /// The next free register.
    fn allocate(&mut self) -> (reg: u8)
        requires
            (old(self).current as int) < MAX_REGISTERS,
        ensures
            reg == old(self).current,
            final(self).current == old(self).current + 1,
            final(self).max == if old(self).max > old(self).current {
                old(self).max as int
            } else {
                old(self).current + 1
            },
    {
        let reg = self.current;
        self.current += 1;
        if self.current > self.max {
            self.max = self.current;
        }
        reg
    }

    /// Frees every register from `to` on.
    fn free(&mut self, to: u8)
        ensures
            final(self).current == to,
            final(self).max == old(self).max,
    {
        self.current = to;
    }

    /// The number of registers the code needs.
    fn stack_size(&self) -> (size: usize)
        ensures
            size == self.max,
    {
        self.max as usize
    }
}

fn emit(expr: &Expr, ops: &mut Bytecode, pool: &mut ConstPool, reg: &mut RegAlloc, dst: u8)
    requires
        old(pool)@.len() + expr.pool_literals().len() <= MAX_POOL_LEN,
        old(reg).current == dst + 1,
        old(reg).max >= old(reg).current,
        dst + expr.slots() <= MAX_REGISTERS,
    ensures
        final(ops)@ == old(ops)@ + register_code(*expr, dst as nat, old(pool)@.len()),
        final(pool)@ == old(pool)@ + expr.pool_literals(),
        final(reg).current == dst + 1,
        final(reg).max == if old(reg).max >= dst + expr.slots() {
            old(reg).max as int
        } else {
            dst + expr.slots()
        },
    decreases expr,
{
    proof {
        expr.lemma_slots_positive();
    }
    match expr {
        Expr::Binary(expr) => {
            let lhs = dst;
            emit(&expr.left, ops, pool, reg, lhs);
            proof {
                expr.right.lemma_slots_positive();
            }
            let rhs = reg.allocate();
            emit(&expr.right, ops, pool, reg, rhs);
            match expr.op {
                BinaryOp::Add => ops.push(Op::BAdd { dst: lhs, lhs, rhs }),
                BinaryOp::Sub => ops.push(Op::BSub { dst: lhs, lhs, rhs }),
                BinaryOp::Mul => ops.push(Op::BMul { dst: lhs, lhs, rhs }),
                BinaryOp::Div => ops.push(Op::BDiv { dst: lhs, lhs, rhs }),
            }
            reg.free(rhs);
        },
        Expr::Unary(expr) => {
            let rhs = dst;
            emit(&expr.right, ops, pool, reg, rhs);
            match expr.op {
                UnaryOp::Plus => {},
                UnaryOp::Minus => ops.push(Op::UMinus { dst: rhs, rhs }),
            }
        },
        Expr::Int(value) => {
            if MIN_INLINE_INT <= *value && *value <= MAX_INLINE_INT {
                ops.push(Op::LInt { dst, val: *value as i16 });
            } else {
                let i = pool.len() as u16;
                pool.push(*value);
                ops.push(Op::LConst { dst, idx: i });
            }
        },
    }
    proof {
        assert(ops@ =~= old(ops)@ + register_code(*expr, dst as nat, old(pool)@.len()));
        assert(pool@ =~= old(pool)@ + expr.pool_literals());
    }
}

/// Compiles an expression to register code, its constant pool, and the
/// number of registers it needs. Every register the code names is below
/// that number, the highest is just below it, and the code evaluates to the
/// expression's value.
pub fn compile(expr: &Expr) -> (res: (Bytecode, ConstPool, StackSize))
    requires
        expr.pool_literals().len() <= MAX_POOL_LEN,
        expr.slots() <= MAX_REGISTERS,
    ensures
        res.0@ == register_code(*expr, 0, 0),
        res.1@ == expr.pool_literals(),
        res.2 == expr.slots(),
        well_formed(res.0@, res.1@.len(), res.2 as nat),
        res.2 == registers_used(res.0@),
        register_program_result(res.0@, res.1@, res.2 as nat, Arith::Checked) == arith_result(
            expr.value(Arith::Checked),
        ),
        register_program_result(res.0@, res.1@, res.2 as nat, Arith::Wrapping) == arith_result(
            expr.value(Arith::Wrapping),
        ),
{
    let (mut ops, mut pool, mut reg) = (Vec::new(), Vec::new(), RegAlloc { current: 0, max: 0 });
    let dst = reg.allocate();
    emit(expr, &mut ops, &mut pool, &mut reg, dst);
    proof {
        assert(ops@ =~= register_code(*expr, 0, 0));
        assert(pool@ =~= expr.pool_literals());
        lemma_register_program(*expr);
        expr.lemma_slots_positive();
    }
    (ops, pool, reg.stack_size())
}

} // verus!
