use vstd::prelude::*;

use crate::expr::{Arith, Expr};
use crate::machine::arith_result;
use crate::rpn::compiler::{rpn_code, Bytecode};
use crate::rpn::op::rpn_result;

verus! {

/// The default compiler: postfix code for `vm::eval`, which checks every
/// step and holds every literal inline, so it takes any expression.
pub fn compile(expr: &Expr) -> (ops: Bytecode)
    ensures
        ops@ == rpn_code(*expr),
        rpn_result(ops@) == arith_result(expr.value(Arith::Checked)),
{
    crate::rpn::compiler::compile(expr)
}

} // verus!
