//! The depth-of-field camera: an orthonormal frame and viewport geometry
//! computed once, then one ray per sample.

use vstd::prelude::*;

use crate::num::{q_fits, q_int, q_lt, q_one, q_wf, r_add, r_div, r_mul, r_sub, Q, Rat};
use crate::point::{
    c_add, c_cross, c_divv, c_scale, c_sub, c_unit, unit_fits, v3_cross_fits, v3_len_sq,
    v3_scale_fits, v3_sub_fits, v3_wf, Point, V3,
};
use crate::ray::{Ray, RayV};

verus! {

/// Mathematical camera state.
pub struct CameraV {
    pub origin: V3,
    pub lower_left_corner: V3,
    pub horizontal: V3,
    pub vertical: V3,
    pub lens_radius: Q,
    pub u: V3,
    pub v: V3,
    pub w: V3,
}

/// Immutable camera: position, viewport frame, and lens radius.
#[derive(Clone, Copy, Debug, PartialEq, Eq, Structural)]
pub struct Camera {
    pub origin: Point,
    pub lower_left_corner: Point,
    pub horizontal: Point,
    pub vertical: Point,
    pub lens_radius: Rat,
    pub u: Point,
    pub v: Point,
    pub w: Point,
}

impl View for Camera {
    type V = CameraV;

    open spec fn view(&self) -> CameraV {
        CameraV {
            origin: self.origin@,
            lower_left_corner: self.lower_left_corner@,
            horizontal: self.horizontal@,
            vertical: self.vertical@,
            lens_radius: self.lens_radius@,
            u: self.u@,
            v: self.v@,
            w: self.w@,
        }
    }
}

/// Success condition of `Camera::new`: no step of the frame construction
/// degenerates (a zero look offset, an up vector parallel to it) or leaves
/// the representable range. The normalizations' conditions (`unit_fits`)
/// carry the non-degeneracy.
pub open spec fn camera_fits(
    lookfrom: V3,
    lookat: V3,
    vup: V3,
    tan_half_vfov: Q,
    aspect_ratio: Q,
    aperture: Q,
    focus_dist: Q,
) -> bool {
    let vh = r_mul(tan_half_vfov, q_int(2));
    let vw = r_mul(aspect_ratio, vh);
    let wdir = c_sub(lookfrom, lookat);
    let w = c_unit(wdir);
    let ucr = c_cross(vup, w);
    let u = c_unit(ucr);
    let v = c_cross(w, u);
    let hw = r_mul(vw, focus_dist);
    let horizontal = c_scale(u, hw);
    let vh2 = r_mul(vh, focus_dist);
    let vertical = c_scale(v, vh2);
    let half = Q { n: 1, d: 2 };
    let hh = c_scale(horizontal, half);
    let vhalf = c_scale(vertical, half);
    let wf0 = c_scale(w, focus_dist);
    let l0 = c_sub(lookfrom, hh);
    let l1 = c_sub(l0, vhalf);
    &&& q_fits(vh)
    &&& q_fits(vw)
    &&& v3_sub_fits(lookfrom, lookat)
    &&& unit_fits(wdir)
    &&& v3_cross_fits(vup, w)
    &&& unit_fits(ucr)
    &&& v3_cross_fits(w, u)
    &&& q_fits(hw)
    &&& v3_scale_fits(u, hw)
    &&& q_fits(vh2)
    &&& v3_scale_fits(v, vh2)
    &&& v3_scale_fits(horizontal, half)
    &&& v3_scale_fits(vertical, half)
    &&& v3_scale_fits(w, focus_dist)
    &&& v3_sub_fits(lookfrom, hh)
    &&& v3_sub_fits(l0, vhalf)
    &&& v3_sub_fits(l1, wf0)
    &&& q_fits(r_mul(aperture, half))
}

impl Camera {
    pub open spec fn wf(self) -> bool {
        &&& self.origin.wf()
        &&& self.lower_left_corner.wf()
        &&& self.horizontal.wf()
        &&& self.vertical.wf()
        &&& self.lens_radius.wf()
        &&& self.u.wf()
        &&& self.v.wf()
        &&& self.w.wf()
    }

    /// Builds the camera frame. The caller supplies the tangent of half the
    /// vertical field of view (a transcendental value approximated outside
    /// the exact arithmetic). `None` when the frame degenerates (parallel
    /// up vector, coincident look points) or a value leaves the
    /// representable range.
    pub fn new(
        lookfrom: Point,
        lookat: Point,
        vup: Point,
        tan_half_vfov: Rat,
        aspect_ratio: Rat,
        aperture: Rat,
        focus_dist: Rat,
    ) -> (cam: Option<Camera>)
        requires
            lookfrom.wf(),
            lookat.wf(),
            vup.wf(),
            tan_half_vfov.wf(),
            aspect_ratio.wf(),
            aperture.wf(),
            focus_dist.wf(),
        ensures
            cam matches Some(c) ==> c.wf() && c.origin == lookfrom && c@.w == c_unit(
                c_sub(lookfrom@, lookat@),
            ) && c@.u == c_unit(c_cross(vup@, c@.w)) && c@.v == c_cross(c@.w, c@.u)
                && c@.horizontal == c_scale(
                c@.u,
                r_mul(r_mul(aspect_ratio@, r_mul(tan_half_vfov@, q_int(2))), focus_dist@),
            ) && c@.vertical == c_scale(
                c@.v,
                r_mul(r_mul(tan_half_vfov@, q_int(2)), focus_dist@),
            ) && c@.lower_left_corner == c_sub(
                c_sub(
                    c_sub(lookfrom@, c_scale(c@.horizontal, Q { n: 1, d: 2 })),
                    c_scale(c@.vertical, Q { n: 1, d: 2 }),
                ),
                c_scale(c@.w, focus_dist@),
            ) && c@.lens_radius == r_mul(aperture@, Q { n: 1, d: 2 }),
            cam is Some <==> camera_fits(
                lookfrom@,
                lookat@,
                vup@,
                tan_half_vfov@,
                aspect_ratio@,
                aperture@,
                focus_dist@,
            ),
    {
        let two = Rat::from_int(2);
        let viewport_height = match tan_half_vfov.mul(&two) {
            Some(v) => v,
            None => {
                return None;
            },
        };
        let viewport_width = match aspect_ratio.mul(&viewport_height) {
            Some(v) => v,
            None => {
                return None;
            },
        };
        let wdir = match lookfrom.sub(&lookat) {
            Some(v) => v,
            None => {
                return None;
            },
        };
        let w = match wdir.unit_vector() {
            Some(v) => v,
            None => {
                return None;
            },
        };
        let ucr = match vup.cross(&w) {
            Some(v) => v,
            None => {
                return None;
            },
        };
        let u = match ucr.unit_vector() {
            Some(v) => v,
            None => {
                return None;
            },
        };
        let v = match w.cross(&u) {
            Some(v) => v,
            None => {
                return None;
            },
        };
        let hw = match viewport_width.mul(&focus_dist) {
            Some(v) => v,
            None => {
                return None;
            },
        };
        let horizontal = match u.scale(&hw) {
            Some(v) => v,
            None => {
                return None;
            },
        };
        let vh = match viewport_height.mul(&focus_dist) {
            Some(v) => v,
            None => {
                return None;
            },
        };
        let vertical = match v.scale(&vh) {
            Some(v) => v,
            None => {
                return None;
            },
        };
        let half = Rat::new(1, 2);
        let hh = match horizontal.scale(&half) {
            Some(v) => v,
            None => {
                return None;
            },
        };
        let vhalf = match vertical.scale(&half) {
            Some(v) => v,
            None => {
                return None;
            },
        };
        let wf0 = match w.scale(&focus_dist) {
            Some(v) => v,
            None => {
                return None;
            },
        };
        let l0 = match lookfrom.sub(&hh) {
            Some(v) => v,
            None => {
                return None;
            },
        };
        let l1 = match l0.sub(&vhalf) {
            Some(v) => v,
            None => {
                return None;
            },
        };
        let lower_left_corner = match l1.sub(&wf0) {
            Some(v) => v,
            None => {
                return None;
            },
        };
        let lens_radius = match aperture.mul(&half) {
            Some(v) => v,
            None => {
                return None;
            },
        };
        Some(
            Camera {
                origin: lookfrom,
                lower_left_corner,
                horizontal,
                vertical,
                lens_radius,
                u,
                v,
                w,
            },
        )
    }

    /// One sample ray through viewport coordinates `(s, t)`, its origin
    /// jittered on the lens disk for depth of field; a zero lens radius
    /// degenerates to a pinhole.
    pub fn get_ray(&self, rng: &mut rand::rngs::StdRng, s: &Rat, t: &Rat) -> (r: Option<Ray>)
        requires
            self.wf(),
            s.wf(),
            t.wf(),
        ensures
            r matches Some(ray) ==> ray.wf() && (exists|d: V3|
                v3_wf(d) && q_lt(v3_len_sq(d), q_one()) && d.z == q_int(0) && Some(ray@)
                    == get_ray_model(self@, s@, t@, d)),
    {
        let rd0 = match Point::random_in_unit_disk(rng) {
            Some(v) => v,
            None => {
                return None;
            },
        };
        let ghost dsample = rd0@;
        let rd = match rd0.scale(&self.lens_radius) {
            Some(v) => v,
            None => {
                return None;
            },
        };
        let ux = match self.u.scale(&rd.x) {
            Some(v) => v,
            None => {
                return None;
            },
        };
        let vy = match self.v.scale(&rd.y) {
            Some(v) => v,
            None => {
                return None;
            },
        };
        let offset = match ux.add(&vy) {
            Some(v) => v,
            None => {
                return None;
            },
        };
        let origin = match self.origin.add(&offset) {
            Some(v) => v,
            None => {
                return None;
            },
        };
        let hs = match self.horizontal.scale(s) {
            Some(v) => v,
            None => {
                return None;
            },
        };
        let vt = match self.vertical.scale(t) {
            Some(v) => v,
            None => {
                return None;
            },
        };
        let p0 = match self.lower_left_corner.add(&hs) {
            Some(v) => v,
            None => {
                return None;
            },
        };
        let p1 = match p0.add(&vt) {
            Some(v) => v,
            None => {
                return None;
            },
        };
        let p2 = match p1.sub(&self.origin) {
            Some(v) => v,
            None => {
                return None;
            },
        };
        let dir = match p2.sub(&offset) {
            Some(v) => v,
            None => {
                return None;
            },
        };
        let ray = Ray::new(origin, dir);
        proof {
            assert(v3_wf(dsample) && q_lt(v3_len_sq(dsample), q_one()) && dsample.z == q_int(0)
                && Some(ray@) == get_ray_model(self@, s@, t@, dsample));
        }
        Some(ray)
    }
}

/// The sample ray as computed from a lens-disk draw `d`: origin offset by
/// `lens_radius * d` in the `(u, v)` frame, direction aimed at the
/// focus-plane point for `(s, t)` minus the same offset.
pub open spec fn get_ray_model(cam: CameraV, s: Q, t: Q, d: V3) -> Option<RayV> {
    if !crate::point::v3_scale_fits(d, cam.lens_radius) {
        None
    } else {
        let rd = c_scale(d, cam.lens_radius);
        if !crate::point::v3_scale_fits(cam.u, rd.x) {
            None
        } else {
            let ux = c_scale(cam.u, rd.x);
            if !crate::point::v3_scale_fits(cam.v, rd.y) {
                None
            } else {
                let vy = c_scale(cam.v, rd.y);
                if !crate::point::v3_add_fits(ux, vy) {
                    None
                } else {
                    let offset = c_add(ux, vy);
                    if !crate::point::v3_add_fits(cam.origin, offset) {
                        None
                    } else {
                        let origin = c_add(cam.origin, offset);
                        if !crate::point::v3_scale_fits(cam.horizontal, s) {
                            None
                        } else {
                            let hs = c_scale(cam.horizontal, s);
                            if !crate::point::v3_scale_fits(cam.vertical, t) {
                                None
                            } else {
                                let vt = c_scale(cam.vertical, t);
                                if !crate::point::v3_add_fits(cam.lower_left_corner, hs) {
                                    None
                                } else {
                                    let p0 = c_add(cam.lower_left_corner, hs);
                                    if !crate::point::v3_add_fits(p0, vt) {
                                        None
                                    } else {
                                        let p1 = c_add(p0, vt);
                                        if !crate::point::v3_sub_fits(p1, cam.origin) {
                                            None
                                        } else {
                                            let p2 = c_sub(p1, cam.origin);
                                            if !crate::point::v3_sub_fits(p2, offset) {
                                                None
                                            } else {
                                                Some(
                                                    RayV {
                                                        origin,
                                                        direction: c_sub(p2, offset),
                                                    },
                                                )
                                            }
                                        }
                                    }
                                }
                            }
                        }
                    }
                }
            }
        }
    }
}

} // verus!
