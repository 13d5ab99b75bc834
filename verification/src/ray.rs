//! Rays: an origin and an (unnormalized) direction.

use vstd::prelude::*;

use crate::num::{q_wf, Q, Rat};
use crate::point::{c_add, c_scale, v3_add, v3_eq, v3_scale, v3_wf, Point, V3};

verus! {

/// Mathematical ray.
pub struct RayV {
    pub origin: V3,
    pub direction: V3,
}

pub open spec fn rayv_wf(r: RayV) -> bool {
    v3_wf(r.origin) && v3_wf(r.direction)
}

/// The computed point at parameter `t`: `origin + direction * t`.
pub open spec fn c_at(r: RayV, t: Q) -> V3 {
    c_add(r.origin, c_scale(r.direction, t))
}

/// Success condition of `Ray::at`.
pub open spec fn at_fits(r: RayV, t: Q) -> bool {
    crate::point::v3_scale_fits(r.direction, t) && crate::point::v3_add_fits(
        r.origin,
        c_scale(r.direction, t),
    )
}

#[derive(Clone, Copy, Debug, PartialEq, Eq, Structural)]
pub struct Ray {
    pub origin: Point,
    pub direction: Point,
}

impl View for Ray {
    type V = RayV;

    open spec fn view(&self) -> RayV {
        RayV { origin: self.origin@, direction: self.direction@ }
    }
}

impl Ray {
    pub open spec fn wf(self) -> bool {
        self.origin.wf() && self.direction.wf()
    }

    pub fn new(origin: Point, direction: Point) -> (r: Ray)
        ensures
            r@ == (RayV { origin: origin@, direction: direction@ }),
            origin.wf() && direction.wf() ==> r.wf(),
    {
        Ray { origin, direction }
    }

    /// The point the ray reaches at parameter `t`; the direction is never
    /// implicitly normalized.
    pub fn at(&self, t: &Rat) -> (r: Option<Point>)
        requires
            self.wf(),
            t.wf(),
        ensures
            r matches Some(p) ==> p@ == c_at(self@, t@) && p.wf(),
            r is Some <==> at_fits(self@, t@),
    {
        let dt = match self.direction.scale(t) {
            Some(v) => v,
            None => {
                return None;
            },
        };
        self.origin.add(&dt)
    }
}

} // verus!
