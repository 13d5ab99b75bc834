//! The intersection contract and its transient result record.

use vstd::prelude::*;

use crate::material::Material;
use crate::num::{q_lt, q_wf, q_zero, Q, Rat};
use crate::point::{c_dot, v3_neg, v3_wf, Point, V3};
use crate::ray::Ray;

verus! {

/// Mathematical hit record.
pub struct HitV {
    pub point: V3,
    pub normal: V3,
    pub t: Q,
    pub front_face: bool,
    pub material: Material,
}

pub open spec fn hitv_wf(h: HitV) -> bool {
    v3_wf(h.point) && v3_wf(h.normal) && q_wf(h.t) && h.material.wf()
}

/// Result of a successful intersection test: the point reached, the normal
/// oriented against the ray, the ray parameter, which side was struck, and
/// the material of the surface.
#[derive(Clone, Copy, Debug, PartialEq, Eq, Structural)]
pub struct HitRecord {
    pub point: Point,
    pub normal: Point,
    pub t: Rat,
    pub front_face: bool,
    pub material: Material,
}

impl View for HitRecord {
    type V = HitV;

    open spec fn view(&self) -> HitV {
        HitV {
            point: self.point@,
            normal: self.normal@,
            t: self.t@,
            front_face: self.front_face,
            material: self.material,
        }
    }
}

impl Default for HitRecord {
    /// An all-zero record, for the caller-provides-storage hit interface.
    fn default() -> (r: HitRecord)
        ensures
            r.wf(),
            r@.t == q_zero(),
            !r@.front_face,
    {
        HitRecord {
            point: Point::zero(),
            normal: Point::zero(),
            t: Rat::zero(),
            front_face: false,
            material: Material::default(),
        }
    }
}

impl HitRecord {
    pub open spec fn wf(self) -> bool {
        self.point.wf() && self.normal.wf() && self.t.wf() && self.material.wf()
    }

    /// Orients the stored normal against the ray: `front_face` records
    /// whether the ray strikes from outside (direction against the outward
    /// normal), and the normal is flipped inward otherwise. `false` reports
    /// a result outside the representable range, with the record unchanged.
    pub fn set_face_normal(&mut self, ray: &Ray, outward_normal: Point) -> (r: bool)
        requires
            old(self).wf(),
            ray.wf(),
            outward_normal.wf(),
        ensures
            final(self).wf(),
            r ==> final(self).front_face == q_lt(
                c_dot(ray@.direction, outward_normal@),
                q_zero(),
            ),
            r ==> final(self)@.normal == (if final(self).front_face {
                outward_normal@
            } else {
                v3_neg(outward_normal@)
            }),
            r ==> final(self).point == old(self).point && final(self).t == old(self).t
                && final(self).material == old(self).material,
            !r ==> *final(self) == *old(self),
            r == crate::point::v3_dot_fits(ray@.direction, outward_normal@),
    {
        let d = match ray.direction.dot(&outward_normal) {
            Some(v) => v,
            None => {
                return false;
            },
        };
        let front_face = d.lt(&Rat::zero());
        self.front_face = front_face;
        self.normal = if front_face {
            outward_normal
        } else {
            outward_normal.neg()
        };
        true
    }
}

/// Capability contract: anything a ray can be tested against for
/// intersection inside a parameter window.
pub trait Hittable {
    /// Validity of the geometric object itself.
    spec fn inv(&self) -> bool;

    /// Writes the nearest qualifying intersection in `(t_min, t_max)` into
    /// `rec` and reports whether one was found; `rec` is untouched on a
    /// miss.
    fn hit(&self, ray: &Ray, t_min: &Rat, t_max: &Rat, rec: &mut HitRecord) -> (r: bool)
        requires
            self.inv(),
            ray.wf(),
            t_min.wf(),
            t_max.wf(),
            old(rec).wf(),
        ensures
            final(rec).wf(),
            r ==> q_lt(t_min@, final(rec)@.t) && q_lt(final(rec)@.t, t_max@),
            !r ==> *final(rec) == *old(rec),
    ;
}

} // verus!
