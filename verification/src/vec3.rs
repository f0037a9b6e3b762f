//! Three-component vectors of scalars: points, directions and colours alike.

use crate::scalar::Scalar;
use core::ops::Neg;
use vstd::prelude::*;

verus! {

/// Three scalars. Whether they stand for a point, a direction or a colour is
/// the caller's affair.
#[derive(Clone, Copy, Debug)]
pub struct Vec3(pub [Scalar; 3]);

pub type Color = Vec3;

pub type Point = Vec3;

impl Vec3 {
    pub open spec fn spec_new(x: Scalar, y: Scalar, z: Scalar) -> Vec3 {
        Vec3([x, y, z])
    }

    /// The opposite vector, component by component.
    pub open spec fn opposite(self) -> Vec3 {
        Vec3([self.0[0].opposite(), self.0[1].opposite(), self.0[2].opposite()])
    }

    #[verifier::when_used_as_spec(spec_new)]
    pub fn new(x: Scalar, y: Scalar, z: Scalar) -> (v: Vec3)
        ensures
            v == Vec3::spec_new(x, y, z),
    {
        Vec3([x, y, z])
    }

    pub fn x(&self) -> (s: Scalar)
        ensures
            s == self.0[0],
    {
        self.0[0]
    }

    pub fn y(&self) -> (s: Scalar)
        ensures
            s == self.0[1],
    {
        self.0[1]
    }

    pub fn z(&self) -> (s: Scalar)
        ensures
            s == self.0[2],
    {
        self.0[2]
    }

    /// The red channel of a colour.
    pub fn r(&self) -> (s: Scalar)
        ensures
            s == self.0[0],
    {
        self.0[0]
    }

    /// The green channel of a colour.
    pub fn g(&self) -> (s: Scalar)
        ensures
            s == self.0[1],
    {
        self.0[1]
    }

    /// The blue channel of a colour.
    pub fn b(&self) -> (s: Scalar)
        ensures
            s == self.0[2],
    {
        self.0[2]
    }

    pub fn x_y_z(&self) -> (t: (Scalar, Scalar, Scalar))
        ensures
            t == (self.0[0], self.0[1], self.0[2]),
    {
        (self.0[0], self.0[1], self.0[2])
    }

    /// The three components, each cut down to a `u16`.
    pub fn x_y_z_trunc(&self) -> (t: (u16, u16, u16))
        ensures
            t.0 == self.0[0].spec_trunc_u16(),
            t.1 == self.0[1].spec_trunc_u16(),
            t.2 == self.0[2].spec_trunc_u16(),
    {
        (self.0[0].trunc_u16(), self.0[1].trunc_u16(), self.0[2].trunc_u16())
    }

    /// One round of rejection sampling in the unit ball. The host draws the
    /// candidate `p` from the cube around the ball and computes its squared
    /// length; the candidate is kept unless that length reaches 1, and the
    /// host draws again where it is not.
    pub fn random_in_unit_sphere(p: Vec3, length_squared: Scalar) -> (kept: Option<Vec3>)
        ensures
            kept == if Scalar::one().spec_le(length_squared) {
                None
            } else {
                Some(p)
            },
    {
        if Scalar::one().le(length_squared) {
            None
        } else {
            Some(p)
        }
    }

    /// Turns a sample from the unit ball into the half of it that a surface
    /// normal points into. `dot` is the host's product of the sample with
    /// that normal: the sample stays where the product is above zero and is
    /// turned round where it is not.
    pub fn random_in_hemisphere(in_unit_sphere: Vec3, dot: Scalar) -> (v: Vec3)
        ensures
            v == if Scalar::zero().spec_lt(dot) {
                in_unit_sphere
            } else {
                in_unit_sphere.opposite()
            },
    {
        if Scalar::zero().lt(dot) {
            in_unit_sphere
        } else {
            in_unit_sphere.neg()
        }
    }
}

impl Neg for Vec3 {
    type Output = Vec3;

    /// The opposite vector, component by component.
    fn neg(self) -> (r: Vec3)
        ensures
            r == self.opposite(),
    {
        Vec3([self.0[0].neg(), self.0[1].neg(), self.0[2].neg()])
    }
}

impl vstd::std_specs::ops::NegSpecImpl for Vec3 {
    open spec fn obeys_neg_spec() -> bool {
        true
    }

    open spec fn neg_req(self) -> bool {
        true
    }

    open spec fn neg_spec(self) -> Vec3 {
        self.opposite()
    }
}

impl Default for Vec3 {
    /// The zero vector, which as a colour is black.
    fn default() -> (v: Vec3)
        ensures
            v == Vec3::spec_new(Scalar::spec_zero(), Scalar::spec_zero(), Scalar::spec_zero()),
    {
        Vec3([Scalar::zero(), Scalar::zero(), Scalar::zero()])
    }
}

} // verus!
