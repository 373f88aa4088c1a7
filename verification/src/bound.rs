//! Loop bounds: fixed, affine, or computed from the enclosing loop indices,
//! and the arithmetic that combines them.

use vstd::prelude::*;
use vstd::std_specs::convert::FromSpecImpl;
use vstd::std_specs::ops::{AddSpecImpl, SubSpecImpl, MulSpecImpl, DivSpecImpl};
use crate::callbacks::DynamicBoundFunction;

verus! {

/// One of the four operations by which loop bounds combine.
#[derive(Clone, Copy, Debug, PartialEq, Eq, Structural)]
pub enum BoundOp {
    Add,
    Sub,
    Mul,
    Div,
}

impl BoundOp {
    /// The operation on two `i32` values, or `None` where it overflows
    /// or divides by zero (division truncates towards zero).
    pub open spec fn spec_apply(self, a: i32, b: i32) -> Option<i32> {
        match self {
            BoundOp::Add => a.checked_add(b),
            BoundOp::Sub => a.checked_sub(b),
            BoundOp::Mul => a.checked_mul(b),
            BoundOp::Div => a.checked_div(b),
        }
    }

    /// The operation on two optional values: `None` when either is `None`.
    pub open spec fn spec_apply_opt(self, a: Option<i32>, b: Option<i32>) -> Option<i32> {
        match (a, b) {
            (Some(x), Some(y)) => self.spec_apply(x, y),
            _ => None,
        }
    }

    /// Applies the operation to `a` and `b`; `None` where it overflows or divides by zero.
    pub fn apply(self, a: i32, b: i32) -> (r: Option<i32>)
        ensures
            r == self.spec_apply(a, b),
    {
        match self {
            BoundOp::Add => a.checked_add(b),
            BoundOp::Sub => a.checked_sub(b),
            BoundOp::Mul => a.checked_mul(b),
            BoundOp::Div => a.checked_div(b),
        }
    }

    /// Applies the operation to two values that may be missing.
    pub fn apply_opt(self, a: Option<i32>, b: Option<i32>) -> (r: Option<i32>)
        ensures
            r == self.spec_apply_opt(a, b),
    {
        match (a, b) {
            (Some(x), Some(y)) => self.apply(x, y),
            _ => None,
        }
    }
}

/// A bound that depends on the indices of the enclosing loop nest: a
/// user-supplied function, or such bounds combined with constants and with
/// each other.
pub enum DynamicBound {
    /// A function supplied by the user.
    Function(Box<dyn DynamicBoundFunction>),
    /// A constant, as one side of a combination.
    Constant(i32),
    /// `op(lhs, rhs)`.
    Apply(BoundOp, Box<DynamicBound>, Box<DynamicBound>),
}

impl DynamicBound {
    /// Every user function in the bound accepts the loop indices `ivec`.
    pub open spec fn accepts(self, ivec: &[i32]) -> bool
        decreases self,
    {
        match self {
            DynamicBound::Function(f) => f.bound_requires(ivec),
            DynamicBound::Constant(_) => true,
            DynamicBound::Apply(_, lhs, rhs) => lhs.accepts(ivec) && rhs.accepts(ivec),
        }
    }

    /// The number of user functions in the bound.
    pub open spec fn function_count(self) -> nat
        decreases self,
    {
        match self {
            DynamicBound::Function(_) => 1,
            DynamicBound::Constant(_) => 0,
            DynamicBound::Apply(_, lhs, rhs) => lhs.function_count() + rhs.function_count(),
        }
    }

    /// `vals` holds, from left to right, one value for each user function
    /// of the bound, a value that the function may give at `ivec`.
    pub open spec fn functions_give(self, ivec: &[i32], vals: Seq<i32>) -> bool
        decreases self,
    {
        match self {
            DynamicBound::Function(f) => vals.len() == 1 && f.bound_ensures(ivec, vals[0]),
            DynamicBound::Constant(_) => vals.len() == 0,
            DynamicBound::Apply(_, lhs, rhs) => {
                let n = lhs.function_count() as int;
                &&& vals.len() == lhs.function_count() + rhs.function_count()
                &&& lhs.functions_give(ivec, vals.take(n))
                &&& rhs.functions_give(ivec, vals.skip(n))
            },
        }
    }

    /// The value of the bound when its user functions give `vals`, from left
    /// to right: a constant is itself, and a combination applies its
    /// operation, by `spec_apply_opt`, to the values of its two sides.
    pub open spec fn value_from(self, vals: Seq<i32>) -> Option<i32>
        decreases self,
    {
        match self {
            DynamicBound::Function(_) => Some(vals[0]),
            DynamicBound::Constant(c) => Some(c),
            DynamicBound::Apply(op, lhs, rhs) => {
                let n = lhs.function_count() as int;
                op.spec_apply_opt(lhs.value_from(vals.take(n)), rhs.value_from(vals.skip(n)))
            },
        }
    }

    /// `r` is a value of the bound at the loop indices `ivec`: its value when
    /// each of its user functions gives a value it may give at `ivec`.
    pub open spec fn evaluates_to(self, ivec: &[i32], r: Option<i32>) -> bool {
        exists|vals: Seq<i32>| #[trigger] self.functions_give(ivec, vals) && r == self.value_from(vals)
    }

    /// The values for the user functions of a bound are one per function.
    pub proof fn lemma_functions_give_len(self, ivec: &[i32], vals: Seq<i32>)
        requires
            self.functions_give(ivec, vals),
        ensures
            vals.len() == self.function_count(),
    {
    }

    fn eval_functions(&self, ivec: &[i32]) -> (res: (Option<i32>, Ghost<Seq<i32>>))
        requires
            self.accepts(ivec),
        ensures
            self.functions_give(ivec, res.1@),
            res.0 == self.value_from(res.1@),
        decreases self,
    {
        match self {
            DynamicBound::Function(f) => {
                let v: i32 = f.bound(ivec);
                let ghost vals: Seq<i32> = seq![v];
                (Some(v), Ghost(vals))
            },
            DynamicBound::Constant(c) => (Some(*c), Ghost(Seq::empty())),
            DynamicBound::Apply(op, lhs, rhs) => {
                let (x, Ghost(xs)) = lhs.eval_functions(ivec);
                let (y, Ghost(ys)) = rhs.eval_functions(ivec);
                let ghost vals: Seq<i32> = xs + ys;
                proof {
                    lhs.lemma_functions_give_len(ivec, xs);
                    rhs.lemma_functions_give_len(ivec, ys);
                    assert(vals.take(xs.len() as int) =~= xs);
                    assert(vals.skip(xs.len() as int) =~= ys);
                }
                (op.apply_opt(x, y), Ghost(vals))
            },
        }
    }

    /// Evaluates the bound at the loop indices `ivec`: each user function is
    /// called at `ivec`, and each combination applies its operation with
    /// `apply_opt` to the values of its sides, so the result is `None`
    /// exactly where a combination overflows or divides by zero.
    pub fn eval(&self, ivec: &[i32]) -> (r: Option<i32>)
        requires
            self.accepts(ivec),
        ensures
            self.evaluates_to(ivec, r),
    {
        let (r, Ghost(vals)) = self.eval_functions(ivec);
        assert(self.functions_give(ivec, vals) && r == self.value_from(vals));
        r
    }
}

/// The bound of a loop.
pub enum LoopBound {
    /// A constant.
    Fixed(i32),
    /// A bound computed from the indices of the enclosing loop nest.
    Dynamic(DynamicBound),
    /// The affine bound `a · ivec + b`.
    Affine { a: Vec<i32>, b: i32 },
}

/// When `op` may combine `lhs` with `rhs`: an affine bound combines with
/// nothing, and two constants only where the operation neither overflows
/// nor divides by zero.
pub open spec fn combine_req(op: BoundOp, lhs: LoopBound, rhs: LoopBound) -> bool {
    match (lhs, rhs) {
        (LoopBound::Fixed(x), LoopBound::Fixed(y)) => op.spec_apply(x, y) is Some,
        (LoopBound::Fixed(_), LoopBound::Dynamic(_)) => true,
        (LoopBound::Dynamic(_), LoopBound::Fixed(_)) => true,
        (LoopBound::Dynamic(_), LoopBound::Dynamic(_)) => true,
        _ => false,
    }
}

/// `op` applied to two bounds: two constants give a constant; otherwise
/// the result is a dynamic bound that applies `op` when it is evaluated.
pub open spec fn combine_spec(op: BoundOp, lhs: LoopBound, rhs: LoopBound) -> LoopBound {
    match (lhs, rhs) {
        (LoopBound::Fixed(x), LoopBound::Fixed(y)) => LoopBound::Fixed(op.spec_apply(x, y).unwrap()),
        (LoopBound::Fixed(x), LoopBound::Dynamic(d)) =>
            LoopBound::Dynamic(DynamicBound::Apply(op, Box::new(DynamicBound::Constant(x)), Box::new(d))),
        (LoopBound::Dynamic(d), LoopBound::Fixed(y)) =>
            LoopBound::Dynamic(DynamicBound::Apply(op, Box::new(d), Box::new(DynamicBound::Constant(y)))),
        (LoopBound::Dynamic(d1), LoopBound::Dynamic(d2)) =>
            LoopBound::Dynamic(DynamicBound::Apply(op, Box::new(d1), Box::new(d2))),
        _ => lhs,
    }
}

fn combine(op: BoundOp, lhs: LoopBound, rhs: LoopBound) -> (r: LoopBound)
    requires
        combine_req(op, lhs, rhs),
    ensures
        r == combine_spec(op, lhs, rhs),
{
    match (lhs, rhs) {
        (LoopBound::Fixed(x), LoopBound::Fixed(y)) => match op.apply(x, y) {
            Some(v) => LoopBound::Fixed(v),
            None => vstd::pervasive::unreached(),
        },
        (LoopBound::Fixed(x), LoopBound::Dynamic(d)) =>
            LoopBound::Dynamic(DynamicBound::Apply(op, Box::new(DynamicBound::Constant(x)), Box::new(d))),
        (LoopBound::Dynamic(d), LoopBound::Fixed(y)) =>
            LoopBound::Dynamic(DynamicBound::Apply(op, Box::new(d), Box::new(DynamicBound::Constant(y)))),
        (LoopBound::Dynamic(d1), LoopBound::Dynamic(d2)) =>
            LoopBound::Dynamic(DynamicBound::Apply(op, Box::new(d1), Box::new(d2))),
        (l, _) => l,
    }
}

impl core::ops::Add for LoopBound {
    type Output = LoopBound;

    fn add(self, other: LoopBound) -> (r: LoopBound) {
        combine(BoundOp::Add, self, other)
    }
}

impl AddSpecImpl for LoopBound {
    open spec fn obeys_add_spec() -> bool {
        true
    }

    open spec fn add_req(self, rhs: LoopBound) -> bool {
        combine_req(BoundOp::Add, self, rhs)
    }

    open spec fn add_spec(self, rhs: LoopBound) -> LoopBound {
        combine_spec(BoundOp::Add, self, rhs)
    }
}

impl core::ops::Sub for LoopBound {
    type Output = LoopBound;

    fn sub(self, other: LoopBound) -> (r: LoopBound) {
        combine(BoundOp::Sub, self, other)
    }
}

impl SubSpecImpl for LoopBound {
    open spec fn obeys_sub_spec() -> bool {
        true
    }

    open spec fn sub_req(self, rhs: LoopBound) -> bool {
        combine_req(BoundOp::Sub, self, rhs)
    }

    open spec fn sub_spec(self, rhs: LoopBound) -> LoopBound {
        combine_spec(BoundOp::Sub, self, rhs)
    }
}

impl core::ops::Mul for LoopBound {
    type Output = LoopBound;

    fn mul(self, other: LoopBound) -> (r: LoopBound) {
        combine(BoundOp::Mul, self, other)
    }
}

impl MulSpecImpl for LoopBound {
    open spec fn obeys_mul_spec() -> bool {
        true
    }

    open spec fn mul_req(self, rhs: LoopBound) -> bool {
        combine_req(BoundOp::Mul, self, rhs)
    }

    open spec fn mul_spec(self, rhs: LoopBound) -> LoopBound {
        combine_spec(BoundOp::Mul, self, rhs)
    }
}

impl core::ops::Div for LoopBound {
    type Output = LoopBound;

    fn div(self, other: LoopBound) -> (r: LoopBound) {
        combine(BoundOp::Div, self, other)
    }
}

impl DivSpecImpl for LoopBound {
    open spec fn obeys_div_spec() -> bool {
        true
    }

    open spec fn div_req(self, rhs: LoopBound) -> bool {
        combine_req(BoundOp::Div, self, rhs)
    }

    open spec fn div_spec(self, rhs: LoopBound) -> LoopBound {
        combine_spec(BoundOp::Div, self, rhs)
    }
}

impl From<i32> for LoopBound {
    fn from(value: i32) -> (r: LoopBound) {
        LoopBound::Fixed(value)
    }
}

impl FromSpecImpl<i32> for LoopBound {
    open spec fn obeys_from_spec() -> bool {
        true
    }

    open spec fn from_spec(v: i32) -> LoopBound {
        LoopBound::Fixed(v)
    }
}

impl From<(Vec<i32>, i32)> for LoopBound {
    fn from(value: (Vec<i32>, i32)) -> (r: LoopBound) {
        LoopBound::Affine { a: value.0, b: value.1 }
    }
}

impl FromSpecImpl<(Vec<i32>, i32)> for LoopBound {
    open spec fn obeys_from_spec() -> bool {
        true
    }

    open spec fn from_spec(v: (Vec<i32>, i32)) -> LoopBound {
        LoopBound::Affine { a: v.0, b: v.1 }
    }
}

impl<F: Fn(&[i32]) -> i32 + 'static> From<F> for LoopBound {
    fn from(value: F) -> (r: LoopBound) {
        LoopBound::Dynamic(DynamicBound::Function(Box::new(value)))
    }
}

impl<F: Fn(&[i32]) -> i32 + 'static> FromSpecImpl<F> for LoopBound {
    open spec fn obeys_from_spec() -> bool {
        true
    }

    open spec fn from_spec(v: F) -> LoopBound {
        LoopBound::Dynamic(DynamicBound::Function(Box::new(v)))
    }
}

} // verus!
