//! Sphere geometry and its ray-intersection test.

use vstd::prelude::*;

use crate::hittable::{HitRecord, HitV, Hittable};
use crate::material::Material;
use crate::num::{
    lemma_q_lt_congr, lemma_q_lt_trans, lemma_q_red, q_add, q_div, q_eq, q_fits, q_le, q_lt,
    q_neg, q_red, q_sqrt, q_sub, q_wf, q_zero, r_add, r_div, r_mul, r_sub, Q, Rat,
};
use crate::point::{c_divv, c_dot, c_len_sq, c_sub, v3_dot_fits, v3_neg, v3_sub_fits, Point};
use crate::ray::{at_fits, c_at, Ray, RayV};

verus! {

/// A sphere with its owned material.
#[derive(Clone, Copy, Debug, PartialEq, Eq, Structural)]
pub struct Sphere {
    pub center: Point,
    pub radius: Rat,
    pub material: Material,
}

impl Sphere {
    /// Validity: a well-formed center and material, and a positive radius.
    pub open spec fn wf(self) -> bool {
        self.center.wf() && self.radius.wf() && self.radius@.n > 0 && self.material.wf()
    }

    pub fn new(center: Point, radius: Rat, material: Material) -> (r: Sphere)
        ensures
            r.center == center && r.radius == radius && r.material == material,
            center.wf() && radius.wf() && radius@.n > 0 && material.wf() ==> r.wf(),
    {
        Sphere { center, radius, material }
    }
}

/// The record written for an accepted root: the point reached, the outward
/// normal `(point - center) / radius` flipped against the ray, and which
/// side was struck. `None` when a step leaves the representable range.
pub open spec fn sphere_fill_model(s: Sphere, ray: RayV, root: Q) -> Option<HitV> {
    if !at_fits(ray, root) {
        None
    } else {
        let p = c_at(ray, root);
        if !v3_sub_fits(p, s.center@) {
            None
        } else {
            let pc = c_sub(p, s.center@);
            if !(s.radius@.n != 0 && q_fits(r_div(pc.x, s.radius@)) && q_fits(
                r_div(pc.y, s.radius@),
            ) && q_fits(r_div(pc.z, s.radius@))) {
                None
            } else {
                let outward = c_divv(pc, s.radius@);
                if !v3_dot_fits(ray.direction, outward) {
                    None
                } else {
                    let d = c_dot(ray.direction, outward);
                    let ff = q_lt(d, q_zero());
                    Some(
                        HitV {
                            point: p,
                            normal: if ff {
                                outward
                            } else {
                                v3_neg(outward)
                            },
                            t: root,
                            front_face: ff,
                            material: s.material,
                        },
                    )
                }
            }
        }
    }
}

/// The whole intersection test: quadratic coefficients
/// `a = |direction|^2`, `half_b = (origin - center) . direction`,
/// `c = |origin - center|^2 - radius^2`, discriminant `half_b^2 - a c`;
/// a negative discriminant or a degenerate direction is a miss, and of the
/// two roots `(-half_b -/+ sqrt(disc)) / a` the nearer is tried first, the
/// first one strictly inside `(t_min, t_max)` winning. `None` also when a
/// step leaves the representable range.
pub open spec fn sphere_hit_model(s: Sphere, ray: RayV, t_min: Q, t_max: Q) -> Option<HitV> {
    if !v3_sub_fits(ray.origin, s.center@) {
        None
    } else {
        let oc = c_sub(ray.origin, s.center@);
        if !v3_dot_fits(ray.direction, ray.direction) {
            None
        } else {
            let a = c_len_sq(ray.direction);
            if a.n == 0 {
                None
            } else {
                if !v3_dot_fits(oc, ray.direction) {
                    None
                } else {
                    let half_b = c_dot(oc, ray.direction);
                    if !v3_dot_fits(oc, oc) {
                        None
                    } else {
                        let ocl = c_len_sq(oc);
                        if !q_fits(r_mul(s.radius@, s.radius@)) {
                            None
                        } else {
                            let rr = r_mul(s.radius@, s.radius@);
                            if !q_fits(r_sub(ocl, rr)) {
                                None
                            } else {
                                let c0 = r_sub(ocl, rr);
                                sphere_roots_model(s, ray, t_min, t_max, a, half_b, c0)
                            }
                        }
                    }
                }
            }
        }
    }
}

/// Discriminant test and root selection, continuing `sphere_hit_model`.
pub open spec fn sphere_roots_model(
    s: Sphere,
    ray: RayV,
    t_min: Q,
    t_max: Q,
    a: Q,
    half_b: Q,
    c0: Q,
) -> Option<HitV> {
    if !q_fits(r_mul(half_b, half_b)) {
        None
    } else {
        let hb2 = r_mul(half_b, half_b);
        if !q_fits(r_mul(a, c0)) {
            None
        } else {
            let ac = r_mul(a, c0);
            if !q_fits(r_sub(hb2, ac)) {
                None
            } else {
                let disc = r_sub(hb2, ac);
                if disc.n < 0 {
                    None
                } else {
                    let sq = q_sqrt(disc);
                    let mhb = q_neg(half_b);
                    if !q_fits(r_sub(mhb, sq)) {
                        None
                    } else {
                        let n1 = r_sub(mhb, sq);
                        if !q_fits(r_div(n1, a)) {
                            None
                        } else {
                            let root1 = r_div(n1, a);
                            if q_lt(t_min, root1) && q_lt(root1, t_max) {
                                sphere_fill_model(s, ray, root1)
                            } else {
                                if !q_fits(r_add(mhb, sq)) {
                                    None
                                } else {
                                    let n2 = r_add(mhb, sq);
                                    if !q_fits(r_div(n2, a)) {
                                        None
                                    } else {
                                        let root2 = r_div(n2, a);
                                        if q_lt(t_min, root2) && q_lt(root2, t_max) {
                                            sphere_fill_model(s, ray, root2)
                                        } else {
                                            None
                                        }
                                    }
                                }
                            }
                        }
                    }
                }
            }
        }
    }
}

/// A reported hit lies strictly inside the requested window.
pub proof fn lemma_sphere_model_range(s: Sphere, ray: RayV, t_min: Q, t_max: Q)
    ensures
        sphere_hit_model(s, ray, t_min, t_max) matches Some(h) ==> q_lt(t_min, h.t) && q_lt(
            h.t,
            t_max,
        ) && q_wf(h.t),
{
}

/// Shrinking the window cannot produce a different hit: a hit found under
/// the smaller window is the same one the full window yields, and a
/// full-window hit below the smaller cap is found under it too.
pub proof fn lemma_sphere_hit_window(s: Sphere, ray: RayV, t_min: Q, b: Q, t: Q)
    requires
        s.wf(),
        crate::ray::rayv_wf(ray),
        q_wf(t_min),
        q_wf(b),
        q_wf(t),
        crate::num::q_le(b, t),
    ensures
        sphere_hit_model(s, ray, t_min, b) is Some ==> sphere_hit_model(s, ray, t_min, t)
            == sphere_hit_model(s, ray, t_min, b),
        sphere_hit_model(s, ray, t_min, t) matches Some(h) && q_lt(h.t, b) ==> sphere_hit_model(
            s,
            ray,
            t_min,
            b,
        ) == sphere_hit_model(s, ray, t_min, t),
{
    let mb = sphere_hit_model(s, ray, t_min, b);
    let mt = sphere_hit_model(s, ray, t_min, t);
    if mb is Some || mt is Some {
        // The window-independent prefix passed all its gates.
        let oc = crate::point::c_sub(ray.origin, s.center@);
        let a = c_len_sq(ray.direction);
        let half_b = c_dot(oc, ray.direction);
        let ocl = c_len_sq(oc);
        let rr = r_mul(s.radius@, s.radius@);
        let c0 = r_sub(ocl, rr);
        let hb2 = r_mul(half_b, half_b);
        let ac = r_mul(a, c0);
        let disc = r_sub(hb2, ac);
        let sq = q_sqrt(disc);
        let mhb = q_neg(half_b);
        let n1 = r_sub(mhb, sq);
        let root1 = r_div(n1, a);
        crate::point::lemma_c_dot_val(ray.direction, ray.direction);
        crate::point::lemma_len_sq_nonneg(ray.direction);
        assert(a.n > 0) by (nonlinear_arith)
            requires
                q_eq(a, crate::point::v3_len_sq(ray.direction)),
                crate::point::v3_len_sq(ray.direction).n >= 0,
                crate::point::v3_len_sq(ray.direction).d > 0,
                a.d > 0,
                a.n != 0,
        ;
        assert(disc.n * disc.d >= 0) by (nonlinear_arith)
            requires
                disc.n >= 0,
                disc.d > 0,
        ;
        crate::num::lemma_isqrt_exists(disc.n * disc.d);
        crate::point::lemma_c_dot_val(oc, ray.direction);
        let n1r = q_sub(mhb, sq);
        let n2r = q_add(mhb, sq);
        assert((mhb.n * sq.d - sq.n * mhb.d) * (mhb.d * sq.d) <= (mhb.n * sq.d + sq.n * mhb.d) * (
        mhb.d * sq.d)) by (nonlinear_arith)
            requires
                sq.n >= 0,
                sq.d > 0,
                mhb.d > 0,
        ;
        assert(q_le(n1r, n2r));
        crate::num::lemma_mul_pos(mhb.d, sq.d);
        lemma_q_red(n1r);
        lemma_q_red(n2r);
        lemma_q_lt_congr(n1r, n2r, n1, q_red(n2r));
        if q_fits(r_add(mhb, sq)) {
            let n2 = r_add(mhb, sq);
            let root2 = r_div(n2, a);
            let r1r = q_div(n1, a);
            let r2r = q_div(n2, a);
            assert((n1.n * a.d) * (n2.d * a.n) <= (n2.n * a.d) * (n1.d * a.n))
                by (nonlinear_arith)
                requires
                    n1.n * n2.d <= n2.n * n1.d,
                    a.n > 0,
                    a.d > 0,
                    n1.d > 0,
                    n2.d > 0,
            ;
            assert(q_le(r1r, r2r));
            crate::num::lemma_mul_pos(n1.d, a.n);
            crate::num::lemma_mul_pos(n2.d, a.n);
            lemma_q_red(r1r);
            lemma_q_red(r2r);
            lemma_q_lt_congr(r1r, r2r, root1, root2);
            // q_le(root1, root2) now available.
            if q_lt(t_min, root1) && q_lt(root1, b) {
                lemma_q_lt_trans(root1, b, t);
            } else {
                if mb is Some {
                    // The smaller window accepted root2.
                    lemma_q_lt_trans(root1, root2, b);
                    lemma_q_lt_trans(root2, b, t);
                }
                if mt matches Some(h) && q_lt(h.t, b) {
                    if q_lt(t_min, root1) && q_lt(root1, t) {
                        // h comes from root1, yet root1 lies outside
                        // (t_min, b) while h.t < b: impossible.
                    } else {
                        lemma_q_lt_trans(root2, b, t);
                        lemma_q_lt_trans(root2, t, root1);
                    }
                }
            }
        } else {
            if q_lt(t_min, root1) && q_lt(root1, b) {
                lemma_q_lt_trans(root1, b, t);
            }
        }
    }
}

impl Sphere {
    /// Computes the hit record for an accepted root; `false` leaves `rec`
    /// untouched.
    fn fill(&self, ray: &Ray, root: &Rat, rec: &mut HitRecord) -> (r: bool)
        requires
            self.wf(),
            ray.wf(),
            root.wf(),
            old(rec).wf(),
        ensures
            final(rec).wf(),
            r == (sphere_fill_model(*self, ray@, root@) is Some),
            r ==> final(rec)@ == sphere_fill_model(*self, ray@, root@)->Some_0,
            !r ==> *final(rec) == *old(rec),
    {
        let p = match ray.at(root) {
            Some(v) => v,
            None => {
                return false;
            },
        };
        let pc = match p.sub(&self.center) {
            Some(v) => v,
            None => {
                return false;
            },
        };
        let outward = match pc.div(&self.radius) {
            Some(v) => v,
            None => {
                return false;
            },
        };
        let d = match ray.direction.dot(&outward) {
            Some(v) => v,
            None => {
                return false;
            },
        };
        let front_face = d.lt(&Rat::zero());
        rec.point = p;
        rec.normal = if front_face {
            outward
        } else {
            outward.neg()
        };
        rec.t = *root;
        rec.front_face = front_face;
        rec.material = self.material;
        true
    }
}

impl Hittable for Sphere {
    open spec fn inv(&self) -> bool {
        self.wf()
    }

    fn hit(&self, ray: &Ray, t_min: &Rat, t_max: &Rat, rec: &mut HitRecord) -> (r: bool)
        ensures
            r == (sphere_hit_model(*self, ray@, t_min@, t_max@) is Some),
            r ==> final(rec)@ == sphere_hit_model(*self, ray@, t_min@, t_max@)->Some_0,
            r ==> final(rec).material == self.material,
    {
        let oc = match ray.origin.sub(&self.center) {
            Some(v) => v,
            None => {
                return false;
            },
        };
        let a = match ray.direction.length_squared() {
            Some(v) => v,
            None => {
                return false;
            },
        };
        if a.num == 0 {
            return false;
        }
        let half_b = match oc.dot(&ray.direction) {
            Some(v) => v,
            None => {
                return false;
            },
        };
        let ocl = match oc.length_squared() {
            Some(v) => v,
            None => {
                return false;
            },
        };
        let rr = match self.radius.mul(&self.radius) {
            Some(v) => v,
            None => {
                return false;
            },
        };
        let c0 = match ocl.sub(&rr) {
            Some(v) => v,
            None => {
                return false;
            },
        };
        let hb2 = match half_b.mul(&half_b) {
            Some(v) => v,
            None => {
                return false;
            },
        };
        let ac = match a.mul(&c0) {
            Some(v) => v,
            None => {
                return false;
            },
        };
        let disc = match hb2.sub(&ac) {
            Some(v) => v,
            None => {
                return false;
            },
        };
        if disc.num < 0 {
            return false;
        }
        let sq = disc.sqrt_floor();
        let mhb = half_b.neg();
        let n1 = match mhb.sub(&sq) {
            Some(v) => v,
            None => {
                return false;
            },
        };
        let root1 = match n1.div(&a) {
            Some(v) => v,
            None => {
                return false;
            },
        };
        if t_min.lt(&root1) && root1.lt(t_max) {
            return self.fill(ray, &root1, rec);
        }
        let n2 = match mhb.add(&sq) {
            Some(v) => v,
            None => {
                return false;
            },
        };
        let root2 = match n2.div(&a) {
            Some(v) => v,
            None => {
                return false;
            },
        };
        if t_min.lt(&root2) && root2.lt(t_max) {
            return self.fill(ray, &root2, rec);
        }
        false
    }
}

} // verus!
