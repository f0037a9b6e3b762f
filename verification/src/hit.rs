//! The protocol by which a ray asks an object where it is struck, and the
//! scene that answers for all of its members.

use crate::ray::Ray;
use crate::scalar::Scalar;
use crate::vec3::{Point, Vec3};
use core::ops::Neg;
use std::rc::Rc;
use vstd::prelude::*;

verus! {

/// Where a ray struck a surface.
#[derive(Clone, Copy, Debug)]
pub struct HitRecord {
    pub p: Point,
    pub normal: Vec3,
    pub t: Scalar,
    pub front_face: bool,
}

impl HitRecord {
    /// Records which face was struck and turns the normal against the ray.
    /// `dot` is the host's product of the ray's direction with
    /// `outward_normal`: below zero the ray comes from outside, the front
    /// face is struck and the outward normal is kept; otherwise the normal
    /// is turned round.
    pub fn set_face_normal(&mut self, dot: Scalar, outward_normal: &Vec3)
        ensures
            final(self).front_face == dot.spec_lt(Scalar::spec_zero()),
            final(self).normal == if dot.spec_lt(Scalar::spec_zero()) {
                *outward_normal
            } else {
                outward_normal.opposite()
            },
            final(self).p == old(self).p,
            final(self).t == old(self).t,
    {
        self.front_face = dot.lt(Scalar::zero());
        self.normal = if self.front_face {
            *outward_normal
        } else {
            outward_normal.neg()
        };
    }
}

/// Whether `t` lies strictly between `t_min` and `t_max`. No NaN does, and
/// nothing lies between bounds of which one is a NaN.
pub open spec fn within(t: Scalar, t_min: Scalar, t_max: Scalar) -> bool {
    t_min.spec_lt(t) && t.spec_lt(t_max)
}

pub trait Hittable {
    /// Whether `rec` describes a place where `r` meets this object.
    spec fn meets(&self, r: &Ray, rec: HitRecord) -> bool;

    /// The nearest place within `(t_min, t_max)` where `r` meets this
    /// object, if there is one.
    fn hit(&self, r: &Ray, t_min: Scalar, t_max: Scalar) -> (res: Option<HitRecord>)
        ensures
            res matches Some(rec) ==> self.meets(r, rec) && within(rec.t, t_min, t_max),
            res matches Some(rec) ==> forall|other: HitRecord|
                #[trigger] self.meets(r, other) && within(other.t, t_min, t_max)
                    ==> rec.t.spec_le(other.t),
            res is None ==> forall|other: HitRecord|
                #[trigger] self.meets(r, other) ==> !within(other.t, t_min, t_max),
    ;
}

pub type HittableList = Vec<Rc<dyn Hittable>>;

impl Hittable for HittableList {
    /// A scene is met wherever one of its members is.
    open spec fn meets(&self, r: &Ray, rec: HitRecord) -> bool {
        exists|i: int| 0 <= i < self@.len() && (#[trigger] self@[i]).meets(r, rec)
    }

    /// Asks the members in turn, each with the ray's own `t_min` and with the
    /// nearest hit so far as its `t_max`, and returns the last that answered.
    fn hit(&self, r: &Ray, t_min: Scalar, t_max: Scalar) -> (res: Option<HitRecord>)
        ensures
            answers(self, r, t_min, t_max, res),
    {
        let mut best: Option<HitRecord> = None;
        let mut closest_so_far = t_max;
        let mut i: usize = 0;
        while i < self.len()
            invariant
                i <= self.len(),
                best is None ==> closest_so_far == t_max,
                best is None ==> forall|j: int, other: HitRecord|
                    0 <= j < i && #[trigger] self@[j].meets(r, other) ==> !within(
                        other.t,
                        t_min,
                        t_max,
                    ),
                best matches Some(rec) ==> closest_so_far == rec.t && within(rec.t, t_min, t_max),
                best matches Some(rec) ==> exists|j: int|
                    0 <= j < i && (#[trigger] self@[j]).meets(r, rec),
                best matches Some(rec) ==> forall|j: int, other: HitRecord|
                    0 <= j < i && #[trigger] self@[j].meets(r, other) && within(
                        other.t,
                        t_min,
                        t_max,
                    ) ==> rec.t.spec_le(other.t),
            decreases self.len() - i,
        {
            match self[i].hit(r, t_min, closest_so_far) {
                Some(rec) => {
                    assert(self@[i as int].meets(r, rec));
                    closest_so_far = rec.t;
                    best = Some(rec);
                },
                None => {},
            }
            i += 1;
        }
        best
    }
}

/// Whether `res` is an answer that `scene` may give to `hit`: its nearest
/// meeting with `r` within `(t_min, t_max)`, or none where there is none.
pub open spec fn answers(
    scene: &HittableList,
    r: &Ray,
    t_min: Scalar,
    t_max: Scalar,
    res: Option<HitRecord>,
) -> bool {
    match res {
        Some(rec) => {
            &&& scene.meets(r, rec)
            &&& within(rec.t, t_min, t_max)
            &&& forall|other: HitRecord| #[trigger]
                scene.meets(r, other) && within(other.t, t_min, t_max) ==> rec.t.spec_le(other.t)
        },
        None => forall|other: HitRecord| #[trigger]
            scene.meets(r, other) ==> !within(other.t, t_min, t_max),
    }
}

/// Whether two scenes hold the same members, in whatever order.
pub open spec fn same_members(a: &HittableList, b: &HittableList) -> bool {
    &&& forall|i: int|
        0 <= i < a@.len() ==> exists|j: int| 0 <= j < b@.len() && #[trigger] b@[j] == #[trigger] a@[i]
    &&& forall|j: int|
        0 <= j < b@.len() ==> exists|i: int| 0 <= i < a@.len() && #[trigger] a@[i] == #[trigger] b@[j]
}

/// The order of a scene's members does not show in its answer: two scenes
/// with the same members both miss, or both hit at the same distance, which
/// is the least at which any member is met.
pub proof fn lemma_hit_ignores_order(
    a: &HittableList,
    b: &HittableList,
    r: &Ray,
    t_min: Scalar,
    t_max: Scalar,
    from_a: Option<HitRecord>,
    from_b: Option<HitRecord>,
)
    requires
        same_members(a, b),
        answers(a, r, t_min, t_max, from_a),
        answers(b, r, t_min, t_max, from_b),
    ensures
        from_a is None <==> from_b is None,
        from_a is Some ==> from_a->0.t.scaled() == from_b->0.t.scaled(),
{
    assert forall|rec: HitRecord| a.meets(r, rec) implies b.meets(r, rec) by {
        let i = choose|i: int| 0 <= i < a@.len() && (#[trigger] a@[i]).meets(r, rec);
        let j = choose|j: int| 0 <= j < b@.len() && b@[j] == a@[i];
        assert(b@[j].meets(r, rec));
    }
    assert forall|rec: HitRecord| b.meets(r, rec) implies a.meets(r, rec) by {
        let j = choose|j: int| 0 <= j < b@.len() && (#[trigger] b@[j]).meets(r, rec);
        let i = choose|i: int| 0 <= i < a@.len() && a@[i] == b@[j];
        assert(a@[i].meets(r, rec));
    }
    if from_a is Some {
        assert(b.meets(r, from_a->0));
    }
    if from_b is Some {
        assert(a.meets(r, from_b->0));
    }
}

/// A scene without members is never hit.
pub proof fn lemma_empty_scene_misses(
    scene: &HittableList,
    r: &Ray,
    t_min: Scalar,
    t_max: Scalar,
    res: Option<HitRecord>,
)
    requires
        scene@.len() == 0,
        answers(scene, r, t_min, t_max, res),
    ensures
        res is None,
{
}

} // verus!
