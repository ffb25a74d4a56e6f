use calc::alloc_exact_stack;
use calc::compiler;
use calc::error::EvalError;
use calc::expr::{Binary, BinaryOp, Expr, Unary, UnaryOp};
use calc::folder::fold;
use calc::register;
use calc::rpn;
use calc::stack;
use calc::unsafe_register;
use calc::unsafe_stack;
use calc::vm;
use calc::rpn::op::Op as R;
use calc::stack::op::Op as S;
use calc::unsafe_register::op::Op as G;

fn lit(v: i64) -> Expr {
    Expr::Int(v)
}

fn bin(left: Expr, op: BinaryOp, right: Expr) -> Expr {
    Expr::Binary(Box::new(Binary { left, op, right }))
}

fn un(op: UnaryOp, right: Expr) -> Expr {
    Expr::Unary(Box::new(Unary { op, right }))
}

/// The result of every backend, checked ones first.
fn all_results(e: &Expr) -> Vec<Result<i64, EvalError>> {
    let mut out = vec![fold(e)];
    out.push(vm::eval(&rpn::compiler::compile(e)));
    out.push(vm::eval(&compiler::compile(e)));
    let (ops, pool) = stack::compiler::compile(e);
    out.push(stack::vm::eval(&ops, &pool));
    let (rops, rpool, size) = unsafe_register::compiler::compile(e);
    out.push(register::vm::eval(&rops, &rpool, size));
    out.push(unsafe_stack::vm::eval(&ops, &pool));
    let (aops, apool, asize) = alloc_exact_stack::compiler::compile(e);
    out.push(alloc_exact_stack::vm::eval(&aops, &apool, asize));
    out.push(unsafe_register::vm::eval(&rops, &rpool, size));
    out
}

fn assert_all(e: &Expr, expected: Result<i64, EvalError>) {
    for (i, r) in all_results(e).into_iter().enumerate() {
        assert_eq!(r, expected, "backend {i}");
    }
}

#[test]
fn inline_and_pool_boundary() {
    let (ops, pool) = stack::compiler::compile(&lit(32767));
    assert_eq!(ops, vec![stack::op::Op::LInt(32767)]);
    assert!(pool.is_empty());

    let (ops, pool) = stack::compiler::compile(&lit(32768));
    assert_eq!(ops, vec![stack::op::Op::LConst(0)]);
    assert_eq!(pool, vec![32768]);

    let (ops, pool) = stack::compiler::compile(&lit(-32768));
    assert_eq!(ops, vec![stack::op::Op::LInt(-32768)]);
    assert!(pool.is_empty());

    let (ops, pool) = stack::compiler::compile(&lit(-32769));
    assert_eq!(ops, vec![stack::op::Op::LConst(0)]);
    assert_eq!(pool, vec![-32769]);

    let (rops, rpool, size) = unsafe_register::compiler::compile(&lit(32768));
    assert_eq!(rops, vec![unsafe_register::op::Op::LConst { dst: 0, idx: 0 }]);
    assert_eq!(rpool, vec![32768]);
    assert_eq!(size, 1);
}

#[test]
fn duplicate_large_literals_each_get_an_entry() {
    let e = bin(lit(100000), BinaryOp::Add, lit(100000));
    let (ops, pool) = stack::compiler::compile(&e);
    assert_eq!(pool, vec![100000, 100000]);
    assert_eq!(
        ops,
        vec![stack::op::Op::LConst(0), stack::op::Op::LConst(1), stack::op::Op::BAdd]
    );
    assert_all(&e, Ok(200000));
}

#[test]
fn subtraction_and_division_keep_operand_order() {
    assert_all(&bin(lit(10), BinaryOp::Sub, lit(3)), Ok(7));
    assert_all(&bin(lit(20), BinaryOp::Div, lit(4)), Ok(5));
    assert_all(&bin(lit(-7), BinaryOp::Div, lit(2)), Ok(-3));
}

#[test]
fn unary_chaining() {
    let e = un(UnaryOp::Minus, un(UnaryOp::Minus, un(UnaryOp::Minus, lit(5))));
    assert_all(&e, Ok(-5));
    let plus = un(UnaryOp::Plus, lit(5));
    assert_all(&plus, Ok(5));
    assert_eq!(rpn::compiler::compile(&plus), vec![rpn::op::Op::LInt(5)]);
    let (ops, _) = stack::compiler::compile(&plus);
    assert_eq!(ops, vec![stack::op::Op::LInt(5)]);
    let (rops, _, _) = unsafe_register::compiler::compile(&plus);
    assert_eq!(rops, vec![unsafe_register::op::Op::LInt { dst: 0, val: 5 }]);
}

#[test]
fn precedence_shapes() {
    // 2 + 3 * 4
    assert_all(&bin(lit(2), BinaryOp::Add, bin(lit(3), BinaryOp::Mul, lit(4))), Ok(14));
    // (2 + 3) * 4
    assert_all(&bin(bin(lit(2), BinaryOp::Add, lit(3)), BinaryOp::Mul, lit(4)), Ok(20));
    // 10 - 2 - 3
    assert_all(&bin(bin(lit(10), BinaryOp::Sub, lit(2)), BinaryOp::Sub, lit(3)), Ok(5));
}

#[test]
fn division_by_zero_fails_everywhere() {
    assert_all(&bin(lit(5), BinaryOp::Div, lit(0)), Err(EvalError::Arithmetic));
}

#[test]
fn overflow_fails_when_checked_and_wraps_when_not() {
    let e = bin(lit(i64::MAX), BinaryOp::Add, lit(1));
    let results = all_results(&e);
    for r in &results[..5] {
        assert_eq!(*r, Err(EvalError::Arithmetic));
    }
    for r in &results[5..] {
        assert_eq!(*r, Ok(i64::MIN));
    }
    let neg = un(UnaryOp::Minus, lit(i64::MIN));
    let results = all_results(&neg);
    assert_eq!(results[0], Err(EvalError::Arithmetic));
    assert_eq!(results[7], Ok(i64::MIN));
    let div = bin(lit(i64::MIN), BinaryOp::Div, lit(-1));
    let results = all_results(&div);
    assert_eq!(results[3], Err(EvalError::Arithmetic));
    assert_eq!(results[5], Ok(i64::MIN));
    let mul = bin(lit(i64::MAX), BinaryOp::Mul, lit(2));
    let results = all_results(&mul);
    assert_eq!(results[4], Err(EvalError::Arithmetic));
    assert_eq!(results[7], Ok(-2));
}

#[test]
fn compiling_twice_and_evaluating_twice_agree() {
    let e = bin(bin(lit(7), BinaryOp::Mul, lit(40000)), BinaryOp::Sub, un(UnaryOp::Minus, lit(3)));
    let (a, pa) = stack::compiler::compile(&e);
    let (b, pb) = stack::compiler::compile(&e);
    assert_eq!(a, b);
    assert_eq!(pa, pb);
    assert_eq!(stack::vm::eval(&a, &pa), stack::vm::eval(&b, &pb));
    assert_eq!(stack::vm::eval(&a, &pa), stack::vm::eval(&a, &pa));
    assert_eq!(stack::vm::eval(&a, &pa), Ok(280003));
    let (r1, p1, s1) = unsafe_register::compiler::compile(&e);
    let (r2, p2, s2) = unsafe_register::compiler::compile(&e);
    assert_eq!((r1.clone(), p1.clone(), s1), (r2, p2, s2));
    assert_eq!(register::vm::eval(&r1, &p1, s1), register::vm::eval(&r1, &p1, s1));
}

#[test]
fn sizes_are_exact() {
    let leaf = lit(1);
    assert_eq!(alloc_exact_stack::compiler::compile(&leaf).2, 1);
    // ((1 + 2) + 3): left-leaning, two slots.
    let left = bin(bin(lit(1), BinaryOp::Add, lit(2)), BinaryOp::Add, lit(3));
    assert_eq!(alloc_exact_stack::compiler::compile(&left).2, 2);
    assert_eq!(unsafe_register::compiler::compile(&left).2, 2);
    // 1 + (2 + (3 + 4)): right-leaning, four slots.
    let right = bin(lit(1), BinaryOp::Add, bin(lit(2), BinaryOp::Add, bin(lit(3), BinaryOp::Add, lit(4))));
    assert_eq!(alloc_exact_stack::compiler::compile(&right).2, 4);
    let (rops, _, size) = unsafe_register::compiler::compile(&right);
    assert_eq!(size, 4);
    assert_eq!(
        rops.last(),
        Some(&unsafe_register::op::Op::BAdd { dst: 0, lhs: 0, rhs: 1 })
    );
    assert_all(&right, Ok(10));
}

#[test]
fn register_code_reuses_registers() {
    // (1 - 2) * (3 - 4)
    let e = bin(
        bin(lit(1), BinaryOp::Sub, lit(2)),
        BinaryOp::Mul,
        bin(lit(3), BinaryOp::Sub, lit(4)),
    );
    let (ops, pool, size) = unsafe_register::compiler::compile(&e);
    assert!(pool.is_empty());
    assert_eq!(size, 3);
    assert_eq!(
        ops,
        vec![
            G::LInt { dst: 0, val: 1 },
            G::LInt { dst: 1, val: 2 },
            G::BSub { dst: 0, lhs: 0, rhs: 1 },
            G::LInt { dst: 1, val: 3 },
            G::LInt { dst: 2, val: 4 },
            G::BSub { dst: 1, lhs: 1, rhs: 2 },
            G::BMul { dst: 0, lhs: 0, rhs: 1 },
        ]
    );
    assert_all(&e, Ok(1));
}

#[test]
fn checked_machines_reject_malformed_code() {
    assert_eq!(stack::vm::eval(&vec![S::BAdd], &vec![]), Err(EvalError::InternalInvariant));
    assert_eq!(stack::vm::eval(&vec![S::LConst(0)], &vec![]), Err(EvalError::InternalInvariant));
    assert_eq!(
        stack::vm::eval(&vec![S::LInt(1), S::LInt(2)], &vec![]),
        Err(EvalError::InternalInvariant)
    );
    assert_eq!(stack::vm::eval(&vec![], &vec![]), Err(EvalError::InternalInvariant));
    assert_eq!(vm::eval(&[R::LInt(1), R::UMinus, R::BMul]), Err(EvalError::InternalInvariant));
    assert_eq!(
        register::vm::eval(&vec![G::LInt { dst: 1, val: 3 }], &vec![], 1),
        Err(EvalError::InternalInvariant)
    );
    assert_eq!(register::vm::eval(&vec![], &vec![], 0), Err(EvalError::InternalInvariant));
    assert_eq!(
        register::vm::eval(&vec![G::LConst { dst: 0, idx: 2 }], &vec![1, 2], 1),
        Err(EvalError::InternalInvariant)
    );
}

#[test]
fn limits_are_reported() {
    assert!(lit(5).fits_pool());
    assert!(lit(5).fits_registers());
    let mut deep = lit(1);
    for _ in 0..300 {
        deep = bin(lit(1), BinaryOp::Add, deep);
    }
    assert!(!deep.fits_registers());
    assert!(deep.fits_pool());
    let mut wide = lit(1);
    for _ in 0..300 {
        wide = bin(wide, BinaryOp::Add, lit(1));
    }
    assert!(wide.fits_registers());
    assert_all(&wide, Ok(301));
}

/// A small deterministic generator of expressions.
struct Shapes(u64);

impl Shapes {
    fn next(&mut self) -> u64 {
        self.0 ^= self.0 << 13;
        self.0 ^= self.0 >> 7;
        self.0 ^= self.0 << 17;
        self.0
    }

    fn expr(&mut self, depth: u32) -> Expr {
        let pick = if depth == 0 { 0 } else { self.next() % 4 };
        match pick {
            0 => {
                let v = self.next();
                if v % 5 == 0 {
                    lit((v >> 8) as i64 % 1_000_000_000)
                } else {
                    lit((v >> 8) as i64 % 200 - 100)
                }
            }
            1 => {
                let op = if self.next() % 2 == 0 { UnaryOp::Plus } else { UnaryOp::Minus };
                un(op, self.expr(depth - 1))
            }
            _ => {
                let op = match self.next() % 4 {
                    0 => BinaryOp::Add,
                    1 => BinaryOp::Sub,
                    2 => BinaryOp::Mul,
                    _ => BinaryOp::Div,
                };
                bin(self.expr(depth - 1), op, self.expr(depth - 1))
            }
        }
    }
}

#[test]
fn backends_agree_on_generated_expressions() {
    let mut shapes = Shapes(0x9E37_79B9_7F4A_7C15);
    let mut successes = 0;
    for _ in 0..2000 {
        let e = shapes.expr(7);
        let results = all_results(&e);
        let reference = results[0];
        for r in &results[..5] {
            assert_eq!(*r, reference, "{e:?}");
        }
        if reference.is_ok() {
            successes += 1;
            for r in &results[5..] {
                assert_eq!(*r, reference, "{e:?}");
            }
        }
    }
    assert!(successes > 100);
}
