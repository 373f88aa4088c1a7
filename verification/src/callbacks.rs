//! The user-supplied functions that a loop tree carries: array subscripts,
//! branch conditions, loop tests and steps, and dynamic loop bounds.
//!
//! Each kind is a trait with one method, so that a tree can hold any of them
//! behind a `Box<dyn ..>`; every closure of the matching shape implements it.
//! Each trait names, by two spec functions, the inputs its method accepts and
//! the results it may give; a closure passes on its own precondition and
//! postcondition.

use vstd::prelude::*;

verus! {

/// The subscript value of one array access: one index per array dimension.
pub type AryAcc = Vec<usize>;

/// Maps the indices of the enclosing loop nest to the indices of an array access.
pub trait ArrayAccess {
    /// The loop indices on which `access` may be called.
    spec fn access_requires(&self, ivec: &[i32]) -> bool;

    /// The subscripts that `access` may give at `ivec`.
    spec fn access_ensures(&self, ivec: &[i32], r: AryAcc) -> bool;

    fn access(&self, ivec: &[i32]) -> (r: AryAcc)
        requires
            self.access_requires(ivec),
        ensures
            self.access_ensures(ivec, r),
    ;
}

/// Decides, from the indices of the enclosing loop nest, which arm of a branch runs.
pub trait BranchCondition {
    /// The loop indices on which `holds` may be called.
    spec fn holds_requires(&self, ivec: &[i32]) -> bool;

    /// The answers that `holds` may give at `ivec`.
    spec fn holds_ensures(&self, ivec: &[i32], r: bool) -> bool;

    fn holds(&self, ivec: &[i32]) -> (r: bool)
        requires
            self.holds_requires(ivec),
        ensures
            self.holds_ensures(ivec, r),
    ;
}

/// Decides whether a loop goes on, from its induction variable and its upper bound.
pub trait LoopTest {
    /// The values on which `test` may be called.
    spec fn test_requires(&self, iv: i32, ub: i32) -> bool;

    /// The answers that `test` may give for `iv` and `ub`.
    spec fn test_ensures(&self, iv: i32, ub: i32, r: bool) -> bool;

    fn test(&self, iv: i32, ub: i32) -> (r: bool)
        requires
            self.test_requires(iv, ub),
        ensures
            self.test_ensures(iv, ub, r),
    ;
}

/// Gives the next value of a loop's induction variable.
pub trait LoopStep {
    /// The values on which `step` may be called.
    spec fn step_requires(&self, iv: i32) -> bool;

    /// The next values that `step` may give for `iv`.
    spec fn step_ensures(&self, iv: i32, r: i32) -> bool;

    fn step(&self, iv: i32) -> (r: i32)
        requires
            self.step_requires(iv),
        ensures
            self.step_ensures(iv, r),
    ;
}

/// A loop bound that depends on the indices of the enclosing loop nest.
pub trait DynamicBoundFunction {
    /// The loop indices on which `bound` may be called.
    spec fn bound_requires(&self, ivec: &[i32]) -> bool;

    /// The bounds that `bound` may give at `ivec`.
    spec fn bound_ensures(&self, ivec: &[i32], r: i32) -> bool;

    fn bound(&self, ivec: &[i32]) -> (r: i32)
        requires
            self.bound_requires(ivec),
        ensures
            self.bound_ensures(ivec, r),
    ;
}

/// The default test of a loop: it goes on while the induction variable is
/// below the upper bound.
#[derive(Clone, Copy, Debug)]
pub struct BelowUpperBound;

impl LoopTest for BelowUpperBound {
    open spec fn test_requires(&self, iv: i32, ub: i32) -> bool {
        true
    }

    open spec fn test_ensures(&self, iv: i32, ub: i32, r: bool) -> bool {
        r == (iv < ub)
    }

    fn test(&self, iv: i32, ub: i32) -> (r: bool) {
        iv < ub
    }
}

/// The default step of a loop: the induction variable goes up by one; it
/// may not step past `i32::MAX`.
#[derive(Clone, Copy, Debug)]
pub struct StepByOne;

impl LoopStep for StepByOne {
    open spec fn step_requires(&self, iv: i32) -> bool {
        iv < i32::MAX
    }

    open spec fn step_ensures(&self, iv: i32, r: i32) -> bool {
        r == iv + 1
    }

    fn step(&self, iv: i32) -> (r: i32) {
        iv + 1
    }
}

impl<F: Fn(&[i32]) -> AryAcc> ArrayAccess for F {
    open spec fn access_requires(&self, ivec: &[i32]) -> bool {
        self.requires((ivec,))
    }

    open spec fn access_ensures(&self, ivec: &[i32], r: AryAcc) -> bool {
        self.ensures((ivec,), r)
    }

    fn access(&self, ivec: &[i32]) -> (r: AryAcc) {
        self(ivec)
    }
}

impl<F: Fn(&[i32]) -> bool> BranchCondition for F {
    open spec fn holds_requires(&self, ivec: &[i32]) -> bool {
        self.requires((ivec,))
    }

    open spec fn holds_ensures(&self, ivec: &[i32], r: bool) -> bool {
        self.ensures((ivec,), r)
    }

    fn holds(&self, ivec: &[i32]) -> (r: bool) {
        self(ivec)
    }
}

impl<F: Fn(i32, i32) -> bool> LoopTest for F {
    open spec fn test_requires(&self, iv: i32, ub: i32) -> bool {
        self.requires((iv, ub))
    }

    open spec fn test_ensures(&self, iv: i32, ub: i32, r: bool) -> bool {
        self.ensures((iv, ub), r)
    }

    fn test(&self, iv: i32, ub: i32) -> (r: bool) {
        self(iv, ub)
    }
}

impl<F: Fn(i32) -> i32> LoopStep for F {
    open spec fn step_requires(&self, iv: i32) -> bool {
        self.requires((iv,))
    }

    open spec fn step_ensures(&self, iv: i32, r: i32) -> bool {
        self.ensures((iv,), r)
    }

    fn step(&self, iv: i32) -> (r: i32) {
        self(iv)
    }
}

impl<F: Fn(&[i32]) -> i32> DynamicBoundFunction for F {
    open spec fn bound_requires(&self, ivec: &[i32]) -> bool {
        self.requires((ivec,))
    }

    open spec fn bound_ensures(&self, ivec: &[i32], r: i32) -> bool {
        self.ensures((ivec,), r)
    }

    fn bound(&self, ivec: &[i32]) -> (r: i32) {
        self(ivec)
    }
}

} // verus!
