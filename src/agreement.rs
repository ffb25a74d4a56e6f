//! What holds across the backends: they agree with the reference folder,
//! they size their storage exactly, and compiling is deterministic.
use vstd::prelude::*;

use crate::expr::{Arith, Expr, MAX_POOL_LEN, MAX_REGISTERS};
use crate::machine::{arith_result, lemma_wrapping_agrees, peak, run};
use crate::rpn::compiler::{lemma_rpn_code, rpn_code};
use crate::rpn::op::rpn_result;
use crate::stack::compiler::{lemma_stack_program, stack_code};
use crate::stack::op::{lemma_shape_tracks_run, stack_depth, stack_machine, stack_program_result};
use crate::unsafe_register::compiler::{lemma_register_program, register_code};
use crate::unsafe_register::op::{register_program_result, registers_used};

verus! {

/// Every backend computes what `fold` computes. Take an expression that
/// fits the pool and the register file. The code compiled from it is
/// `rpn_code(e)` (`compiler::compile`, `rpn::compiler::compile`),
/// `stack_code(e, 0)` with pool `pool_literals()` (`stack::compiler::compile`,
/// `alloc_exact_stack::compiler::compile`), or `register_code(e, 0, 0)`
/// with that pool and `slots()` registers
/// (`unsafe_register::compiler::compile`).
/// - Under checked arithmetic (`vm::eval`, `stack::vm::eval`,
///   `register::vm::eval`), that code evaluates exactly as `fold` does,
///   division by zero and overflow included.
/// - The unchecked machines (`unsafe_stack::vm::eval`,
///   `alloc_exact_stack::vm::eval`, `unsafe_register::vm::eval`) may run that
///   code: it meets their `well_formed` precondition, within `slots()`
///   stack entries or registers, so no unchecked access is out of range.
/// - Where `fold` succeeds, they give its value.
pub proof fn lemma_backends_agree(e: Expr)
    requires
        e.pool_literals().len() <= MAX_POOL_LEN,
        e.slots() <= MAX_REGISTERS,
    ensures
        rpn_result(rpn_code(e)) == arith_result(e.value(Arith::Checked)),
        stack_program_result(stack_code(e, 0), e.pool_literals(), Arith::Checked) == arith_result(
            e.value(Arith::Checked),
        ),
        register_program_result(register_code(e, 0, 0), e.pool_literals(), e.slots(), Arith::Checked)
            == arith_result(e.value(Arith::Checked)),
        e.value(Arith::Checked) is Some ==> stack_program_result(
            stack_code(e, 0),
            e.pool_literals(),
            Arith::Wrapping,
        ) == arith_result(e.value(Arith::Checked)),
        e.value(Arith::Checked) is Some ==> register_program_result(
            register_code(e, 0, 0),
            e.pool_literals(),
            e.slots(),
            Arith::Wrapping,
        ) == arith_result(e.value(Arith::Checked)),
        crate::stack::op::well_formed(stack_code(e, 0), e.pool_literals().len()),
        stack_depth(stack_code(e, 0), e.pool_literals().len()) <= e.slots(),
        crate::unsafe_register::op::well_formed(register_code(e, 0, 0), e.pool_literals().len(), e.slots()),
{
    lemma_rpn_code(e, Seq::empty());
    if let Some(v) = e.value(Arith::Checked) {
        assert(Seq::<i64>::empty().push(v)[0] == v);
        lemma_wrapping_agrees(e);
    }
    lemma_stack_program(e);
    lemma_register_program(e);
}

/// The storage that the compilers compute is exactly what the code uses:
/// the stack code never holds more than `slots()` values at once and at
/// some point holds that many, which is also the most that a stack machine
/// running it to the end holds; and the register code names only registers
/// below `slots()`, register `slots() - 1` among them.
pub proof fn lemma_sizes_exact(e: Expr, arith: Arith)
    requires
        e.pool_literals().len() <= MAX_POOL_LEN,
        e.slots() <= MAX_REGISTERS,
    ensures
        crate::stack::op::well_formed(stack_code(e, 0), e.pool_literals().len()),
        stack_depth(stack_code(e, 0), e.pool_literals().len()) == e.slots(),
        run(stack_machine(e.pool_literals(), arith), stack_code(e, 0), Seq::empty()) is Ok ==> peak(
            stack_machine(e.pool_literals(), arith),
            stack_code(e, 0),
            Seq::empty(),
        ) == e.slots(),
        crate::unsafe_register::op::well_formed(register_code(e, 0, 0), e.pool_literals().len(), e.slots()),
        registers_used(register_code(e, 0, 0)) == e.slots(),
{
    lemma_stack_program(e);
    lemma_register_program(e);
    if run(stack_machine(e.pool_literals(), arith), stack_code(e, 0), Seq::empty()) is Ok {
        lemma_shape_tracks_run(stack_code(e, 0), e.pool_literals(), arith);
    }
}

/// Compiling one expression twice gives the same code, pool and size, so
/// both evaluate alike; and evaluating is a function of the code, pool and
/// size alone, so evaluating the same code twice gives the same result.
pub proof fn lemma_deterministic(e1: Expr, e2: Expr, arith: Arith)
    requires
        e1 == e2,
    ensures
        rpn_code(e1) == rpn_code(e2),
        rpn_result(rpn_code(e1)) == rpn_result(rpn_code(e2)),
        stack_code(e1, 0) == stack_code(e2, 0),
        e1.pool_literals() == e2.pool_literals(),
        stack_program_result(stack_code(e1, 0), e1.pool_literals(), arith) == stack_program_result(
            stack_code(e2, 0),
            e2.pool_literals(),
            arith,
        ),
        register_code(e1, 0, 0) == register_code(e2, 0, 0),
        e1.slots() == e2.slots(),
        register_program_result(register_code(e1, 0, 0), e1.pool_literals(), e1.slots(), arith)
            == register_program_result(register_code(e2, 0, 0), e2.pool_literals(), e2.slots(), arith),
{
}

} // verus!
