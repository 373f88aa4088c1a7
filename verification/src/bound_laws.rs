//! What the arithmetic on loop bounds computes, stated in integers, and what
//! a combined bound evaluates to, stated through the values of its parts.

use vstd::prelude::*;
use crate::bound::{combine_req, combine_spec, BoundOp, DynamicBound, LoopBound};

verus! {

/// The absolute value of `a`.
pub open spec fn abs(a: int) -> int {
    if a < 0 { -a } else { a }
}

/// `a / b` rounded towards zero.
pub open spec fn trunc_div(a: int, b: int) -> int {
    if (a < 0) == (b < 0) { abs(a) / abs(b) } else { -(abs(a) / abs(b)) }
}

/// The integer that `op` gives on `a` and `b`, without bounds on its size.
pub open spec fn arith(op: BoundOp, a: int, b: int) -> int {
    match op {
        BoundOp::Add => a + b,
        BoundOp::Sub => a - b,
        BoundOp::Mul => a * b,
        BoundOp::Div => trunc_div(a, b),
    }
}

/// `op` on two `i32` values gives the integer result whenever it is defined
/// and fits in an `i32`, and nothing otherwise: nothing for a division by
/// zero or a result outside `i32`.
pub proof fn law_apply_is_arithmetic(op: BoundOp, a: i32, b: i32)
    ensures
        op.spec_apply(a, b) == (if op == BoundOp::Div && b == 0 {
            None::<i32>
        } else if i32::MIN <= arith(op, a as int, b as int) <= i32::MAX {
            Some(arith(op, a as int, b as int) as i32)
        } else {
            None::<i32>
        }),
{
    if op == BoundOp::Div && b != 0 {
        let x = a as int;
        let d = b as int;
        if x > 0 && d < 0 {
            assert(abs(d) == d * -1);
        } else if x < 0 && d > 0 {
            assert(abs(x) == x * -1);
        } else if x < 0 && d < 0 {
            assert(abs(x) == x * -1 && abs(d) == d * -1);
        }
    }
}

/// `op` on two values that may be missing gives a value exactly when both
/// are present and `op` on them gives one.
pub proof fn law_apply_opt_is_arithmetic(op: BoundOp, x: Option<i32>, y: Option<i32>)
    ensures
        op.spec_apply_opt(x, y) == (if x is Some && y is Some {
            op.spec_apply(x->0, y->0)
        } else {
            None::<i32>
        }),
{
}

/// A constant evaluates to itself, at any loop indices.
pub proof fn law_constant_evaluates(c: i32, ivec: &[i32], r: Option<i32>)
    ensures
        DynamicBound::Constant(c).evaluates_to(ivec, r) <==> r == Some(c),
{
    let d = DynamicBound::Constant(c);
    if r == Some(c) {
        assert(d.functions_give(ivec, Seq::<i32>::empty()) && r == d.value_from(Seq::<i32>::empty()));
    }
}

/// A user function evaluates at `ivec` to the values it may give there.
pub proof fn law_function_evaluates(d: DynamicBound, ivec: &[i32], r: Option<i32>)
    requires
        (d is Function),
    ensures
        d.evaluates_to(ivec, r)
            <==> exists|v: i32| r == Some(v) && #[trigger] d->Function_0.bound_ensures(ivec, v),
{
    if exists|v: i32| r == Some(v) && #[trigger] d->Function_0.bound_ensures(ivec, v) {
        let v = choose|v: i32| r == Some(v) && #[trigger] d->Function_0.bound_ensures(ivec, v);
        let vals = seq![v];
        assert(vals[0] == v);
        assert(d.functions_give(ivec, vals) && r == d.value_from(vals));
    }
    if d.evaluates_to(ivec, r) {
        let vals = choose|vals: Seq<i32>| #[trigger] d.functions_give(ivec, vals) && r == d.value_from(vals);
        assert(d->Function_0.bound_ensures(ivec, vals[0]));
    }
}

/// `op(lhs, rhs)` evaluates at `ivec` to `op` applied, in this order, to a
/// value of `lhs` and a value of `rhs`, both at the same `ivec`.
pub proof fn law_apply_evaluates(op: BoundOp, lhs: DynamicBound, rhs: DynamicBound, ivec: &[i32], r: Option<i32>)
    ensures
        DynamicBound::Apply(op, Box::new(lhs), Box::new(rhs)).evaluates_to(ivec, r)
            <==> exists|x: Option<i32>, y: Option<i32>|
                #[trigger] lhs.evaluates_to(ivec, x) && #[trigger] rhs.evaluates_to(ivec, y)
                    && r == op.spec_apply_opt(x, y),
{
    let d = DynamicBound::Apply(op, Box::new(lhs), Box::new(rhs));
    let n = lhs.function_count() as int;
    if d.evaluates_to(ivec, r) {
        let vals = choose|vals: Seq<i32>| #[trigger] d.functions_give(ivec, vals) && r == d.value_from(vals);
        let xs = vals.take(n);
        let ys = vals.skip(n);
        assert(lhs.functions_give(ivec, xs) && lhs.value_from(xs) == lhs.value_from(xs));
        assert(rhs.functions_give(ivec, ys) && rhs.value_from(ys) == rhs.value_from(ys));
        assert(lhs.evaluates_to(ivec, lhs.value_from(xs)));
        assert(rhs.evaluates_to(ivec, rhs.value_from(ys)));
    }
    if exists|x: Option<i32>, y: Option<i32>|
        #[trigger] lhs.evaluates_to(ivec, x) && #[trigger] rhs.evaluates_to(ivec, y) && r == op.spec_apply_opt(x, y) {
        let (x, y) = choose|x: Option<i32>, y: Option<i32>|
            #[trigger] lhs.evaluates_to(ivec, x) && #[trigger] rhs.evaluates_to(ivec, y) && r == op.spec_apply_opt(x, y);
        let xs = choose|xs: Seq<i32>| #[trigger] lhs.functions_give(ivec, xs) && x == lhs.value_from(xs);
        let ys = choose|ys: Seq<i32>| #[trigger] rhs.functions_give(ivec, ys) && y == rhs.value_from(ys);
        lhs.lemma_functions_give_len(ivec, xs);
        rhs.lemma_functions_give_len(ivec, ys);
        let vals = xs + ys;
        assert(vals.take(n) =~= xs);
        assert(vals.skip(n) =~= ys);
        assert(d.functions_give(ivec, vals) && r == d.value_from(vals));
    }
}

/// The value of a loop bound at the loop indices `ivec`: a fixed bound is
/// its constant, a dynamic bound is evaluated there; an affine bound has no
/// value here.
pub open spec fn bound_value(b: LoopBound, ivec: &[i32], r: Option<i32>) -> bool {
    match b {
        LoopBound::Fixed(c) => r == Some(c),
        LoopBound::Dynamic(d) => d.evaluates_to(ivec, r),
        LoopBound::Affine { .. } => false,
    }
}

/// Two fixed bounds combine into the fixed bound that `op` gives on their
/// constants, computed in integers.
pub proof fn law_combine_fixed(op: BoundOp, a: i32, b: i32)
    requires
        combine_req(op, LoopBound::Fixed(a), LoopBound::Fixed(b)),
    ensures
        !(op == BoundOp::Div && b == 0),
        i32::MIN <= arith(op, a as int, b as int) <= i32::MAX,
        combine_spec(op, LoopBound::Fixed(a), LoopBound::Fixed(b))
            == LoopBound::Fixed(arith(op, a as int, b as int) as i32),
{
    law_apply_is_arithmetic(op, a, b);
}

/// A bound combined with a dynamic one is dynamic, and evaluates at `ivec`
/// to `op` applied, in this order, to the value of the left bound and the
/// value of the right bound at the same `ivec`.
pub proof fn law_combine_evaluates(op: BoundOp, lhs: LoopBound, rhs: LoopBound, ivec: &[i32], r: Option<i32>)
    requires
        combine_req(op, lhs, rhs),
        (lhs is Dynamic || rhs is Dynamic),
    ensures
        (combine_spec(op, lhs, rhs) is Dynamic),
        combine_spec(op, lhs, rhs)->Dynamic_0.evaluates_to(ivec, r)
            <==> exists|x: Option<i32>, y: Option<i32>|
                #[trigger] bound_value(lhs, ivec, x) && #[trigger] bound_value(rhs, ivec, y)
                    && r == op.spec_apply_opt(x, y),
{
    let l = match lhs {
        LoopBound::Fixed(c) => DynamicBound::Constant(c),
        LoopBound::Dynamic(d) => d,
        LoopBound::Affine { .. } => DynamicBound::Constant(0),
    };
    let rr = match rhs {
        LoopBound::Fixed(c) => DynamicBound::Constant(c),
        LoopBound::Dynamic(d) => d,
        LoopBound::Affine { .. } => DynamicBound::Constant(0),
    };
    assert(combine_spec(op, lhs, rhs) == LoopBound::Dynamic(DynamicBound::Apply(op, Box::new(l), Box::new(rr))));
    law_apply_evaluates(op, l, rr, ivec, r);
    assert forall|x: Option<i32>| l.evaluates_to(ivec, x) <==> bound_value(lhs, ivec, x) by {
        if lhs is Fixed {
            law_constant_evaluates(lhs->Fixed_0, ivec, x);
        }
    }
    assert forall|y: Option<i32>| rr.evaluates_to(ivec, y) <==> bound_value(rhs, ivec, y) by {
        if rhs is Fixed {
            law_constant_evaluates(rhs->Fixed_0, ivec, y);
        }
    }
}

} // verus!
