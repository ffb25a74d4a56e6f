//! What every virtual machine here shares: running a sequence of
//! instructions one step at a time over a buffer of `i64`, and the
//! arithmetic of a single operation.
use vstd::prelude::*;

use crate::error::EvalError;
use crate::expr::{apply_binary, apply_negate, Arith, BinaryOp, Expr, UnaryOp};

verus! {

/// One instruction's effect on the machine's buffer.
pub type Step<I> = spec_fn(Seq<i64>, I) -> Result<Seq<i64>, EvalError>;

/// The buffer after running `code` from `start`, or the first error.
pub open spec fn run<I>(step: Step<I>, code: Seq<I>, start: Seq<i64>) -> Result<Seq<i64>, EvalError>
    decreases code.len(),
{
    if code.len() == 0 {
        Ok(start)
    } else {
        match run(step, code.drop_last(), start) {
            Ok(s) => step(s, code.last()),
            Err(e) => Err(e),
        }
    }
}

/// The most values the buffer held at once while running `code` from
/// `start`, up to any error.
pub open spec fn peak<I>(step: Step<I>, code: Seq<I>, start: Seq<i64>) -> nat
    decreases code.len(),
{
    if code.len() == 0 {
        start.len()
    } else {
        let p = peak(step, code.drop_last(), start);
        match run(step, code, start) {
            Ok(s) => if s.len() > p {
                s.len()
            } else {
                p
            },
            Err(_) => p,
        }
    }
}

/// An operation's outcome as an evaluation result.
pub open spec fn arith_result(v: Option<i64>) -> Result<i64, EvalError> {
    match v {
        Some(v) => Ok(v),
        None => Err(EvalError::Arithmetic),
    }
}

/// Pops the right operand, then the left, and pushes `left op right`.
pub open spec fn push_binary(s: Seq<i64>, op: BinaryOp, arith: Arith) -> Result<Seq<i64>, EvalError> {
    if s.len() < 2 {
        Err(EvalError::InternalInvariant)
    } else {
        match apply_binary(op, s[s.len() - 2], s.last(), arith) {
            Some(v) => Ok(s.drop_last().drop_last().push(v)),
            None => Err(EvalError::Arithmetic),
        }
    }
}

/// Pops one value and pushes its negation.
pub open spec fn push_negate(s: Seq<i64>, arith: Arith) -> Result<Seq<i64>, EvalError> {
    if s.len() < 1 {
        Err(EvalError::InternalInvariant)
    } else {
        match apply_negate(s.last(), arith) {
            Some(v) => Ok(s.drop_last().push(v)),
            None => Err(EvalError::Arithmetic),
        }
    }
}

/// A stack machine's answer: the one value left on the stack.
pub open spec fn stack_result(r: Result<Seq<i64>, EvalError>) -> Result<i64, EvalError> {
    match r {
        Ok(s) => if s.len() == 1 {
            Ok(s[0])
        } else {
            Err(EvalError::InternalInvariant)
        },
        Err(e) => Err(e),
    }
}

/// Running two pieces of code one after the other.
pub proof fn lemma_run_append<I>(step: Step<I>, a: Seq<I>, b: Seq<I>, start: Seq<i64>)
    ensures
        run(step, a + b, start) == match run(step, a, start) {
            Ok(s) => run(step, b, s),
            Err(e) => Err(e),
        },
    decreases b.len(),
{
    if b.len() == 0 {
        assert(a + b =~= a);
    } else {
        lemma_run_append(step, a, b.drop_last(), start);
        assert((a + b).drop_last() =~= a + b.drop_last());
        assert((a + b).last() == b.last());
    }
}

/// Running a single instruction.
pub proof fn lemma_run_single<I>(step: Step<I>, op: I, start: Seq<i64>)
    ensures
        run(step, seq![op], start) == step(start, op),
{
    assert(seq![op].drop_last() =~= Seq::<I>::empty());
    assert(run(step, Seq::<I>::empty(), start) == Ok::<Seq<i64>, EvalError>(start));
}

/// Running one more instruction of `code`.
pub proof fn lemma_run_next<I>(step: Step<I>, code: Seq<I>, i: int, start: Seq<i64>)
    requires
        0 <= i < code.len(),
    ensures
        run(step, code.take(i + 1), start) == match run(step, code.take(i), start) {
            Ok(s) => step(s, code[i]),
            Err(e) => Err(e),
        },
{
    assert(code.take(i + 1).drop_last() =~= code.take(i));
}

/// An error part way through is the error of the whole run.
pub proof fn lemma_run_stops<I>(step: Step<I>, code: Seq<I>, i: int, start: Seq<i64>)
    requires
        0 <= i <= code.len(),
        run(step, code.take(i), start) is Err,
    ensures
        run(step, code, start) == run(step, code.take(i), start),
{
    lemma_run_append(step, code.take(i), code.skip(i), start);
    assert(code.take(i) + code.skip(i) =~= code);
}

/// The peak of two pieces of code run one after the other.
pub proof fn lemma_peak_append<I>(step: Step<I>, a: Seq<I>, b: Seq<I>, start: Seq<i64>)
    requires
        run(step, a, start) is Ok,
    ensures
        ({
            let pa = peak(step, a, start);
            let pb = peak(step, b, run(step, a, start)->Ok_0);
            peak(step, a + b, start) == if pa >= pb {
                pa
            } else {
                pb
            }
        }),
    decreases b.len(),
{
    let mid = run(step, a, start)->Ok_0;
    lemma_peak_at_least_end(step, a, start);
    if b.len() == 0 {
        assert(a + b =~= a);
    } else {
        lemma_peak_append(step, a, b.drop_last(), start);
        assert((a + b).drop_last() =~= a + b.drop_last());
        lemma_run_append(step, a, b, start);
    }
}

/// The peak is at least the final size.
pub proof fn lemma_peak_at_least_end<I>(step: Step<I>, code: Seq<I>, start: Seq<i64>)
    ensures
        run(step, code, start) is Ok ==> run(step, code, start)->Ok_0.len() <= peak(step, code, start),
        start.len() <= peak(step, code, start),
    decreases code.len(),
{
    if code.len() > 0 {
        lemma_peak_at_least_end(step, code.drop_last(), start);
    }
}

/// No prefix of `code` peaks higher than the whole.
pub proof fn lemma_peak_prefix<I>(step: Step<I>, code: Seq<I>, i: int, start: Seq<i64>)
    requires
        0 <= i <= code.len(),
    ensures
        peak(step, code.take(i), start) <= peak(step, code, start),
    decreases code.len() - i,
{
    if i < code.len() {
        lemma_peak_prefix(step, code, i + 1, start);
        assert(code.take(i + 1).drop_last() =~= code.take(i));
    } else {
        assert(code.take(i) =~= code);
    }
}

/// Where checked arithmetic succeeds, wrapping arithmetic agrees with it.
pub proof fn lemma_wrapping_agrees_binary(op: BinaryOp, l: i64, r: i64)
    requires
        apply_binary(op, l, r, Arith::Checked) is Some,
    ensures
        apply_binary(op, l, r, Arith::Wrapping) == apply_binary(op, l, r, Arith::Checked),
{
    if op == BinaryOp::Mul {
        let z = l * r;
        let m: int = 0x1_0000_0000_0000_0000;
        if z >= 0 {
            assert(z % m == z) by (nonlinear_arith)
                requires 0 <= z < m;
        } else {
            assert(z % m == z + m) by (nonlinear_arith)
                requires -m < z < 0;
        }
    }
}

/// Where checked negation succeeds, wrapping negation agrees with it.
pub proof fn lemma_wrapping_agrees_negate(v: i64)
    requires
        apply_negate(v, Arith::Checked) is Some,
    ensures
        apply_negate(v, Arith::Wrapping) == apply_negate(v, Arith::Checked),
{
}

/// Where an expression's checked value exists, its wrapping value is the same.
pub proof fn lemma_wrapping_agrees(e: Expr)
    requires
        e.value(Arith::Checked) is Some,
    ensures
        e.value(Arith::Wrapping) == e.value(Arith::Checked),
    decreases e,
{
    match e {
        Expr::Binary(b) => {
            lemma_wrapping_agrees(b.left);
            lemma_wrapping_agrees(b.right);
            lemma_wrapping_agrees_binary(
                b.op,
                b.left.value(Arith::Checked).unwrap(),
                b.right.value(Arith::Checked).unwrap(),
            );
        },
        Expr::Unary(u) => {
            lemma_wrapping_agrees(u.right);
            if u.op == UnaryOp::Minus {
                lemma_wrapping_agrees_negate(u.right.value(Arith::Checked).unwrap());
            }
        },
        Expr::Int(_) => {},
    }
}

/// `l op r`, failing where the result leaves the range of `i64` or the
/// divisor is zero.
pub fn checked_binary(op: BinaryOp, l: i64, r: i64) -> (res: Result<i64, EvalError>)
    ensures
        res == arith_result(apply_binary(op, l, r, Arith::Checked)),
{
    let v = match op {
        BinaryOp::Add => l.checked_add(r),
        BinaryOp::Sub => l.checked_sub(r),
        BinaryOp::Mul => l.checked_mul(r),
        BinaryOp::Div => l.checked_div(r),
    };
    match v {
        Some(v) => Ok(v),
        None => Err(EvalError::Arithmetic),
    }
}

/// `l op r`, wrapping around on overflow; fails only on a zero divisor.
pub fn wrapping_binary(op: BinaryOp, l: i64, r: i64) -> (res: Result<i64, EvalError>)
    ensures
        res == arith_result(apply_binary(op, l, r, Arith::Wrapping)),
{
    match op {
        BinaryOp::Add => Ok(l.wrapping_add(r)),
        BinaryOp::Sub => Ok(l.wrapping_sub(r)),
        BinaryOp::Mul => Ok(l.wrapping_mul(r)),
        BinaryOp::Div => {
            if r == 0 {
                Err(EvalError::Arithmetic)
            } else if l == i64::MIN && r == -1 {
                Ok(i64::MIN)
            } else {
                match l.checked_div(r) {
                    Some(v) => Ok(v),
                    None => Err(EvalError::Arithmetic),
                }
            }
        },
    }
}

/// `-v`, failing for `i64::MIN`.
pub fn checked_negate(v: i64) -> (res: Result<i64, EvalError>)
    ensures
        res == arith_result(apply_negate(v, Arith::Checked)),
{
    if v == i64::MIN {
        Err(EvalError::Arithmetic)
    } else {
        Ok(-v)
    }
}

/// `-v`, where `-i64::MIN` wraps to `i64::MIN`.
pub fn wrapping_negate(v: i64) -> (res: i64)
    ensures
        Some(res) == apply_negate(v, Arith::Wrapping),
{
    0i64.wrapping_sub(v)
}

/// `push_binary` on a `Vec`, checking that both operands are there.
pub fn stack_binary(stack: &mut Vec<i64>, op: BinaryOp, arith: Arith) -> (res: Result<(), EvalError>)
    ensures
        match push_binary(old(stack)@, op, arith) {
            Ok(s) => res is Ok && final(stack)@ == s,
            Err(e) => res == Err::<(), EvalError>(e),
        },
{
    let right = match stack.pop() {
        Some(v) => v,
        None => return Err(EvalError::InternalInvariant),
    };
    let left = match stack.pop() {
        Some(v) => v,
        None => return Err(EvalError::InternalInvariant),
    };
    let v = match arith {
        Arith::Checked => checked_binary(op, left, right),
        Arith::Wrapping => wrapping_binary(op, left, right),
    };
    match v {
        Ok(v) => {
            stack.push(v);
            proof {
                assert(stack@ =~= old(stack)@.drop_last().drop_last().push(v));
            }
            Ok(())
        },
        Err(e) => Err(e),
    }
}

/// `push_negate` on a `Vec`, checking that the operand is there.
pub fn stack_negate(stack: &mut Vec<i64>, arith: Arith) -> (res: Result<(), EvalError>)
    ensures
        match push_negate(old(stack)@, arith) {
            Ok(s) => res is Ok && final(stack)@ == s,
            Err(e) => res == Err::<(), EvalError>(e),
        },
{
    let right = match stack.pop() {
        Some(v) => v,
        None => return Err(EvalError::InternalInvariant),
    };
    let v = match arith {
        Arith::Checked => checked_negate(right),
        Arith::Wrapping => Ok(wrapping_negate(right)),
    };
    match v {
        Ok(v) => {
            stack.push(v);
            Ok(())
        },
        Err(e) => Err(e),
    }
}

} // verus!
