//! Where a ray strikes a sphere: the choice between the two roots of their
//! quadratic.
//!
//! Putting the ray `origin + t * direction` into the equation of a sphere
//! gives a quadratic in `t`. With `oc = origin - center`, `a = |direction|^2`,
//! `half_b = oc . direction` and `c = |oc|^2 - radius^2`, its discriminant
//! is `half_b^2 - a * c` and its roots are `(-half_b -+ sqrt(discriminant))
//! / a`. The host computes these; which of them is the hit is decided here.

use crate::hit::within;
use crate::scalar::Scalar;
use vstd::prelude::*;

verus! {

/// The quadratic of a ray and a sphere, as far as the choice needs it.
#[derive(Clone, Copy, Debug)]
pub struct Quadratic {
    pub discriminant: Scalar,
    /// The root with the square root subtracted.
    pub near: Scalar,
    /// The root with the square root added.
    pub far: Scalar,
}

impl Quadratic {
    /// The root at which the ray strikes the sphere within `(t_min, t_max)`:
    /// none where the discriminant is below zero, else the near root where
    /// it lies within the bounds, else the far root where that does, else
    /// none.
    pub open spec fn spec_root(self, t_min: Scalar, t_max: Scalar) -> Option<Scalar> {
        if self.discriminant.spec_lt(Scalar::spec_zero()) {
            None
        } else if within(self.near, t_min, t_max) {
            Some(self.near)
        } else if within(self.far, t_min, t_max) {
            Some(self.far)
        } else {
            None
        }
    }

    pub fn new(discriminant: Scalar, near: Scalar, far: Scalar) -> (q: Quadratic)
        ensures
            q.discriminant == discriminant,
            q.near == near,
            q.far == far,
    {
        Quadratic { discriminant, near, far }
    }

    /// The root at which the ray strikes the sphere within `(t_min, t_max)`,
    /// if it does. A negative discriminant is always a miss. Where the roots
    /// stand in order, as the host's do, the root returned is the least one
    /// within the bounds.
    pub fn root(&self, t_min: Scalar, t_max: Scalar) -> (t: Option<Scalar>)
        ensures
            t == self.spec_root(t_min, t_max),
            self.discriminant.spec_lt(Scalar::spec_zero()) ==> t is None,
            t matches Some(v) ==> within(v, t_min, t_max) && (v == self.near || v == self.far),
            t matches Some(v) ==> self.near.spec_le(self.far) ==> {
                &&& within(self.near, t_min, t_max) ==> v.spec_le(self.near)
                &&& within(self.far, t_min, t_max) ==> v.spec_le(self.far)
            },
            t is None && !self.discriminant.spec_lt(Scalar::spec_zero()) ==> !within(
                self.near,
                t_min,
                t_max,
            ) && !within(self.far, t_min, t_max),
    {
        if self.discriminant.lt(Scalar::zero()) {
            return None;
        }
        let mut root = self.near;
        if !(t_min.lt(root) && root.lt(t_max)) {
            root = self.far;
            if !(t_min.lt(root) && root.lt(t_max)) {
                return None;
            }
        }
        Some(root)
    }
}

} // verus!
