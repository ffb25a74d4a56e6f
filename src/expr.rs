use vstd::prelude::*;

verus! {

/// An arithmetic expression over 64-bit signed integers.
#[derive(Debug)]
pub enum Expr {
    Binary(Box<Binary>),
    Unary(Box<Unary>),
    Int(i64),
}

#[derive(Debug)]
pub struct Binary {
    pub left: Expr,
    pub op: BinaryOp,
    pub right: Expr,
}

#[derive(Clone, Copy, Debug, PartialEq, Eq, Structural)]
pub enum BinaryOp {
    Add,
    Sub,
    Mul,
    Div,
}

#[derive(Debug)]
pub struct Unary {
    pub op: UnaryOp,
    pub right: Expr,
}

#[derive(Clone, Copy, Debug, PartialEq, Eq, Structural)]
pub enum UnaryOp {
    Plus,
    Minus,
}

/// How results outside the range of `i64` are treated.
#[derive(Clone, Copy, Debug, PartialEq, Eq, Structural)]
pub enum Arith {
    /// Such a result is an error.
    Checked,
    /// Such a result wraps around, two's complement.
    Wrapping,
}

/// Smallest integer literal that an instruction holds inline.
pub const MIN_INLINE_INT: i64 = -32768;

/// Largest integer literal that an instruction holds inline.
pub const MAX_INLINE_INT: i64 = 32767;

/// Most entries a constant pool can index.
pub const MAX_POOL_LEN: usize = 65536;

/// Most registers a register file can have (indices are 8-bit, and the
/// allocator's counter is too).
pub const MAX_REGISTERS: usize = 255;

pub open spec fn fits_inline(v: i64) -> bool {
    MIN_INLINE_INT <= v <= MAX_INLINE_INT
}

/// The value of `l op r`; `None` on division by zero, and under
/// `Arith::Checked` also when the result leaves the range of `i64`.
pub open spec fn apply_binary(op: BinaryOp, l: i64, r: i64, arith: Arith) -> Option<i64> {
    match arith {
        Arith::Checked => match op {
            BinaryOp::Add => l.checked_add(r),
            BinaryOp::Sub => l.checked_sub(r),
            BinaryOp::Mul => l.checked_mul(r),
            BinaryOp::Div => l.checked_div(r),
        },
        Arith::Wrapping => match op {
            BinaryOp::Add => Some(vstd::wrapping::i64_specs::wrapping_add(l, r)),
            BinaryOp::Sub => Some(vstd::wrapping::i64_specs::wrapping_sub(l, r)),
            BinaryOp::Mul => Some(vstd::wrapping::i64_specs::wrapping_mul(l, r)),
            BinaryOp::Div => if r != 0 && l == i64::MIN && r == -1 {
                Some(i64::MIN)
            } else {
                l.checked_div(r)
            },
        },
    }
}

/// The value of `-v`; under `Arith::Checked`, `None` for `i64::MIN`.
pub open spec fn apply_negate(v: i64, arith: Arith) -> Option<i64> {
    match arith {
        Arith::Checked => if v == i64::MIN {
            None
        } else {
            Some((-v) as i64)
        },
        Arith::Wrapping => Some(vstd::wrapping::i64_specs::wrapping_sub(0, v)),
    }
}

impl Expr {
    /// The value of the expression, operands evaluated before their
    /// operator; `None` where some operation fails.
    pub open spec fn value(self, arith: Arith) -> Option<i64>
        decreases self,
    {
        match self {
            Expr::Binary(b) => match (b.left.value(arith), b.right.value(arith)) {
                (Some(l), Some(r)) => apply_binary(b.op, l, r, arith),
                _ => None,
            },
            Expr::Unary(u) => match u.right.value(arith) {
                Some(v) => match u.op {
                    UnaryOp::Plus => Some(v),
                    UnaryOp::Minus => apply_negate(v, arith),
                },
                None => None,
            },
            Expr::Int(v) => Some(v),
        }
    }

    /// The literals too large to inline, in evaluation order.
    pub open spec fn pool_literals(self) -> Seq<i64>
        decreases self,
    {
        match self {
            Expr::Binary(b) => b.left.pool_literals() + b.right.pool_literals(),
            Expr::Unary(u) => u.right.pool_literals(),
            Expr::Int(v) => if fits_inline(v) {
                Seq::empty()
            } else {
                seq![v]
            },
        }
    }

    pub proof fn lemma_slots_positive(self)
        ensures
            self.slots() >= 1,
        decreases self,
    {
        match self {
            Expr::Binary(b) => b.left.lemma_slots_positive(),
            Expr::Unary(u) => u.right.lemma_slots_positive(),
            Expr::Int(_) => {},
        }
    }

    /// How many pool literals the expression has, counting no further than
    /// `cap + 1`.
    fn count_pool_literals(&self, cap: usize) -> (n: usize)
        requires
            cap <= MAX_POOL_LEN,
        ensures
            n == if self.pool_literals().len() <= cap {
                self.pool_literals().len()
            } else {
                cap as nat + 1
            },
        decreases self,
    {
        match self {
            Expr::Binary(b) => {
                let l = b.left.count_pool_literals(cap);
                if l > cap {
                    return l;
                }
                let r = b.right.count_pool_literals(cap);
                if l + r > cap {
                    cap + 1
                } else {
                    l + r
                }
            },
            Expr::Unary(u) => u.right.count_pool_literals(cap),
            Expr::Int(v) => if MIN_INLINE_INT <= *v && *v <= MAX_INLINE_INT {
                0
            } else {
                1
            },
        }
    }

    /// Whether the literals too large to inline fit in one constant pool, as
    /// the stack and register compilers require.
    pub fn fits_pool(&self) -> (r: bool)
        ensures
            r == (self.pool_literals().len() <= MAX_POOL_LEN),
    {
        self.count_pool_literals(MAX_POOL_LEN) <= MAX_POOL_LEN
    }

    /// `slots()`, counting no further than `cap + 1`.
    fn count_slots(&self, cap: usize) -> (n: usize)
        requires
            cap <= MAX_REGISTERS,
        ensures
            n == if self.slots() <= cap {
                self.slots()
            } else {
                cap as nat + 1
            },
        decreases self,
    {
        match self {
            Expr::Binary(b) => {
                let l = b.left.count_slots(cap);
                let r = b.right.count_slots(cap);
                let r = if r + 1 > cap + 1 {
                    cap + 1
                } else {
                    r + 1
                };
                if l >= r {
                    l
                } else {
                    r
                }
            },
            Expr::Unary(u) => u.right.count_slots(cap),
            Expr::Int(_) => 1,
        }
    }

    /// Whether evaluating the expression fits in the register file, as the
    /// register compiler requires.
    pub fn fits_registers(&self) -> (r: bool)
        ensures
            r == (self.slots() <= MAX_REGISTERS),
    {
        self.count_slots(MAX_REGISTERS) <= MAX_REGISTERS
    }

    /// How many slots evaluating the expression holds at once: the left
    /// operand's value waits in one slot while the right operand is computed.
    pub open spec fn slots(self) -> nat
        decreases self,
    {
        match self {
            Expr::Binary(b) => {
                let l = b.left.slots();
                let r = b.right.slots() + 1;
                if l >= r {
                    l
                } else {
                    r
                }
            },
            Expr::Unary(u) => u.right.slots(),
            Expr::Int(_) => 1,
        }
    }
}

} // verus!
