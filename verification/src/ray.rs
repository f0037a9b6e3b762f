//! Rays, and the decision that shades one.

use crate::hit::{within, HitRecord, Hittable, HittableList};
use crate::scalar::Scalar;
use crate::vec3::{Point, Vec3};
use vstd::prelude::*;

verus! {

/// The pattern of 0.001, the least distance at which a ray may strike. A
/// ray scattered from a surface starts on it, and rounding may put its start
/// a hair inside: nearer hits than this are that surface itself.
pub const SHADOW_BIAS_BITS: u64 = 0x3F50_624D_D2F1_A9FC;

/// A half-line `origin + t * direction`; the direction need not have unit
/// length.
#[derive(Clone, Copy, Debug)]
pub struct Ray {
    pub origin: Point,
    pub direction: Vec3,
}

/// How the colour along a ray comes about.
#[derive(Clone, Copy, Debug)]
pub enum Shade {
    /// The bounce budget is spent: no light, black.
    Black,
    /// Nothing is struck: the sky's colour along the ray's direction.
    Background,
    /// A surface is struck at `rec`: half the colour along a ray scattered
    /// from `rec.p`, which is to be shaded with `depth` bounces left.
    Bounce { rec: HitRecord, depth: u8 },
}

pub open spec fn spec_shadow_bias() -> Scalar {
    Scalar { bits: SHADOW_BIAS_BITS }
}

/// The least distance at which a ray may strike.
#[verifier::when_used_as_spec(spec_shadow_bias)]
pub fn shadow_bias() -> (s: Scalar)
    ensures
        s == spec_shadow_bias(),
{
    Scalar::from_bits(SHADOW_BIAS_BITS)
}

impl Ray {
    pub fn new(origin: Point, direction: Vec3) -> (r: Ray)
        ensures
            r.origin == origin,
            r.direction == direction,
    {
        Ray { origin, direction }
    }

    /// Decides how the colour along this ray comes about, with `depth`
    /// bounces left. With none left it is black, whatever the scene holds.
    /// Otherwise the scene is asked for its nearest hit beyond the shadow
    /// bias: a miss shows the background, so a scene without members always
    /// does; a hit asks for one more bounce, with one bounce fewer left.
    pub fn color(&self, world: &HittableList, depth: u8) -> (shade: Shade)
        ensures
            depth == 0 ==> shade is Black,
            depth > 0 ==> !(shade is Black),
            depth > 0 && world@.len() == 0 ==> shade is Background,
            shade is Background ==> forall|other: HitRecord| #[trigger]
                world.meets(self, other) ==> !within(
                    other.t,
                    spec_shadow_bias(),
                    Scalar::spec_infinity(),
                ),
            shade matches Shade::Bounce { rec, depth: left } ==> {
                &&& left == depth - 1
                &&& world.meets(self, rec)
                &&& within(rec.t, spec_shadow_bias(), Scalar::spec_infinity())
                &&& forall|other: HitRecord| #[trigger]
                    world.meets(self, other) && within(
                        other.t,
                        spec_shadow_bias(),
                        Scalar::spec_infinity(),
                    ) ==> rec.t.spec_le(other.t)
            },
    {
        if depth == 0 {
            return Shade::Black;
        }
        match world.hit(self, shadow_bias(), Scalar::infinity()) {
            Some(rec) => Shade::Bounce { rec, depth: depth - 1 },
            None => Shade::Background,
        }
    }
}

} // verus!
