//! The material scattering model: a closed tagged union with one scattering
//! law per variant.

use vstd::prelude::*;

use crate::hittable::HitRecord;
use crate::num::{
    q_fits, q_le, q_lt, q_min, q_neg, q_one, q_sqrt, q_zero, r_add, r_div, r_mul, r_sub, Q, Rat,
};
use crate::pixel::{Pixel, PixelV};
use crate::point::{
    c_add, c_dot, c_reflect, c_refract, c_scale, c_unit, is_unit_sample, reflect_fits,
    refract_fits, unit_fits, v3_add_fits, v3_dot_fits, v3_len_sq, v3_scale_fits, v3_wf, Point, V3,
};
use crate::ray::Ray;

verus! {

/// Surface behavior: diffuse, metallic, or dielectric.
#[derive(Clone, Copy, Debug, PartialEq, Eq, Structural)]
pub enum Material {
    Lambertian { albedo: Pixel },
    Metal { albedo: Pixel, fuzz: Rat },
    Dielectric { ref_idx: Rat },
}

impl Material {
    /// Validity: colors well formed, fuzz within `[0, 1]`, refractive index
    /// positive.
    pub open spec fn wf(self) -> bool {
        match self {
            Material::Lambertian { albedo } => albedo.wf(),
            Material::Metal { albedo, fuzz } => albedo.wf() && fuzz.wf() && q_le(
                q_zero(),
                fuzz@,
            ) && q_le(fuzz@, q_one()),
            Material::Dielectric { ref_idx } => ref_idx.wf() && q_lt(q_zero(), ref_idx@),
        }
    }
}

impl Default for Material {
    /// A black diffuse surface.
    fn default() -> (r: Material)
        ensures
            r.wf(),
            r matches Material::Lambertian { albedo } && albedo@ == crate::pixel::pix_black(),
    {
        Material::Lambertian { albedo: Pixel::black() }
    }
}

/// The refraction ratio a dielectric applies: inverted when entering from
/// outside.
pub open spec fn dielectric_ratio(ref_idx: Q, front_face: bool) -> Q {
    if front_face {
        r_div(q_one(), ref_idx)
    } else {
        ref_idx
    }
}

/// Schlick's reflectance approximation, as computed:
/// `r0 + (1 - r0) (1 - cos)^5` with `r0 = ((1 - eta) / (1 + eta))^2`.
pub open spec fn c_schlick(cos: Q, eta: Q) -> Q {
    let r0l = r_div(r_sub(q_one(), eta), r_add(q_one(), eta));
    let r0 = r_mul(r0l, r0l);
    let omc = r_sub(q_one(), cos);
    let p5 = r_mul(r_mul(r_mul(omc, omc), r_mul(omc, omc)), omc);
    r_add(r0, r_mul(r_sub(q_one(), r0), p5))
}

/// Success condition of `Material::reflectance`: a nonzero `1 + eta` and
/// every intermediate of the Schlick formula representable.
pub open spec fn schlick_fits(cos: Q, eta: Q) -> bool {
    let a = r_sub(q_one(), eta);
    let b = r_add(q_one(), eta);
    let r0l = r_div(a, b);
    let r0 = r_mul(r0l, r0l);
    let omc = r_sub(q_one(), cos);
    let p2 = r_mul(omc, omc);
    let p4 = r_mul(p2, p2);
    let p5 = r_mul(p4, omc);
    let omr = r_sub(q_one(), r0);
    let tail = r_mul(omr, p5);
    &&& q_fits(a)
    &&& q_fits(b)
    &&& b.n != 0
    &&& q_fits(r0l)
    &&& q_fits(r0)
    &&& q_fits(omc)
    &&& q_fits(p2)
    &&& q_fits(p4)
    &&& q_fits(p5)
    &&& q_fits(omr)
    &&& q_fits(tail)
    &&& q_fits(r_add(r0, tail))
}

/// The cosine a dielectric works with: the incoming unit direction `u`
/// against the oriented normal, capped at one against degenerate geometry.
pub open spec fn dielectric_cos(u: V3, n: V3) -> Q {
    q_min(q_neg(c_dot(u, n)), q_one())
}

/// The matching sine, by the floor square root of `1 - cos^2` with the
/// radicand clamped at zero.
pub open spec fn dielectric_sin(cos: Q) -> Q {
    let s2 = r_sub(q_one(), r_mul(cos, cos));
    q_sqrt(
        if s2.n < 0 {
            q_zero()
        } else {
            s2
        },
    )
}

/// Total internal reflection: Snell's law has no solution because
/// `ratio * sin` exceeds one, so refraction is impossible and the
/// reflection branch is forced.
pub open spec fn dielectric_tir(cos: Q, ratio: Q) -> bool {
    q_lt(q_one(), r_mul(ratio, dielectric_sin(cos)))
}

/// Whether the dielectric takes the reflection branch for a given uniform
/// draw: forced under total internal reflection, else decided by the draw
/// falling below the Schlick reflectance.
pub open spec fn dielectric_reflects(cos: Q, ratio: Q, draw: Q) -> bool {
    dielectric_tir(cos, ratio) || q_lt(draw, c_schlick(cos, ratio))
}

/// Success condition of `Material::scatter_dielectric` for a given draw:
/// the decision chain fits, and so does whichever branch the draw selects.
pub open spec fn dielectric_scatter_fits(
    ref_idx: Q,
    front_face: bool,
    dir: V3,
    n: V3,
    draw: Q,
) -> bool {
    let ratio = dielectric_ratio(ref_idx, front_face);
    let u = c_unit(dir);
    let cos = dielectric_cos(u, n);
    &&& (front_face ==> q_fits(r_div(q_one(), ref_idx)))
    &&& unit_fits(dir)
    &&& v3_dot_fits(u, n)
    &&& q_fits(r_mul(cos, cos))
    &&& q_fits(r_sub(q_one(), r_mul(cos, cos)))
    &&& q_fits(r_mul(ratio, dielectric_sin(cos)))
    &&& schlick_fits(cos, ratio)
    &&& (if dielectric_reflects(cos, ratio, draw) {
        reflect_fits(u, n)
    } else {
        refract_fits(u, n, ratio)
    })
}

/// The draw-independent part of `dielectric_scatter_fits`: when this
/// holds, the dielectric scatters whatever the Schlick draw turns out to
/// be (under total internal reflection only the reflection must fit), so
/// a dielectric never absorbs on such inputs.
pub open spec fn dielectric_always_fits(ref_idx: Q, front_face: bool, dir: V3, n: V3) -> bool {
    let ratio = dielectric_ratio(ref_idx, front_face);
    let u = c_unit(dir);
    let cos = dielectric_cos(u, n);
    &&& (front_face ==> q_fits(r_div(q_one(), ref_idx)))
    &&& unit_fits(dir)
    &&& v3_dot_fits(u, n)
    &&& q_fits(r_mul(cos, cos))
    &&& q_fits(r_sub(q_one(), r_mul(cos, cos)))
    &&& q_fits(r_mul(ratio, dielectric_sin(cos)))
    &&& schlick_fits(cos, ratio)
    &&& reflect_fits(u, n)
    &&& (dielectric_tir(cos, ratio) || refract_fits(u, n, ratio))
}

/// Success condition of `Material::scatter_metal` for a given ball sample
/// `b`: every step fits and the fuzzed reflection leaves the surface.
pub open spec fn metal_scatter_fits(dir: V3, n: V3, fuzz: Q, b: V3) -> bool {
    let refl = c_reflect(c_unit(dir), n);
    let d = c_add(refl, c_scale(b, fuzz));
    &&& unit_fits(dir)
    &&& reflect_fits(c_unit(dir), n)
    &&& v3_scale_fits(b, fuzz)
    &&& v3_add_fits(refl, c_scale(b, fuzz))
    &&& v3_dot_fits(d, n)
    &&& q_lt(q_zero(), c_dot(d, n))
}

impl Material {
    /// Schlick's closed-form Fresnel reflectance estimate.
    pub fn reflectance(cosine: &Rat, ref_idx: &Rat) -> (r: Option<Rat>)
        requires
            cosine.wf(),
            ref_idx.wf(),
        ensures
            r matches Some(s) ==> s@ == c_schlick(cosine@, ref_idx@) && s.wf(),
            r is Some <==> schlick_fits(cosine@, ref_idx@),
    {
        let a = match Rat::one().sub(ref_idx) {
            Some(v) => v,
            None => {
                return None;
            },
        };
        let b = match Rat::one().add(ref_idx) {
            Some(v) => v,
            None => {
                return None;
            },
        };
        let r0l = match a.div(&b) {
            Some(v) => v,
            None => {
                return None;
            },
        };
        let r0 = match r0l.mul(&r0l) {
            Some(v) => v,
            None => {
                return None;
            },
        };
        let omc = match Rat::one().sub(cosine) {
            Some(v) => v,
            None => {
                return None;
            },
        };
        let p2 = match omc.mul(&omc) {
            Some(v) => v,
            None => {
                return None;
            },
        };
        let p4 = match p2.mul(&p2) {
            Some(v) => v,
            None => {
                return None;
            },
        };
        let p5 = match p4.mul(&omc) {
            Some(v) => v,
            None => {
                return None;
            },
        };
        let omr = match Rat::one().sub(&r0) {
            Some(v) => v,
            None => {
                return None;
            },
        };
        let tail = match omr.mul(&p5) {
            Some(v) => v,
            None => {
                return None;
            },
        };
        r0.add(&tail)
    }

    /// The diffuse scattering law for a given drawn unit direction `w`:
    /// the attenuation is the albedo and the scattered ray leaves the hit
    /// point along `normal + w`. `None` exactly when the sum leaves the
    /// representable range.
    pub fn scatter_lambertian(albedo: &Pixel, hit_record: &HitRecord, w: &Point) -> (out: Option<
        (Pixel, Ray),
    >)
        requires
            albedo.wf(),
            hit_record.wf(),
            w.wf(),
        ensures
            out matches Some(p) ==> p.0 == *albedo && p.1.wf() && p.1.origin == hit_record.point
                && p.1@.direction == c_add(hit_record@.normal, w@),
            out is Some <==> v3_add_fits(hit_record@.normal, w@),
    {
        let dir = match hit_record.normal.add(w) {
            Some(v) => v,
            None => {
                return None;
            },
        };
        Some((*albedo, Ray::new(hit_record.point, dir)))
    }

    /// The metal scattering law for a given drawn ball sample `b`: the
    /// reflected unit direction plus `fuzz * b`, accepted exactly when it
    /// leaves the surface (positive dot with the normal) and every step is
    /// representable; `None` is absorption.
    pub fn scatter_metal(
        albedo: &Pixel,
        fuzz: &Rat,
        ray: &Ray,
        hit_record: &HitRecord,
        b: &Point,
    ) -> (out: Option<(Pixel, Ray)>)
        requires
            albedo.wf(),
            fuzz.wf(),
            ray.wf(),
            hit_record.wf(),
            b.wf(),
        ensures
            out matches Some(p) ==> p.0 == *albedo && p.1.wf() && p.1.origin == hit_record.point
                && p.1@.direction == c_add(
                c_reflect(c_unit(ray@.direction), hit_record@.normal),
                c_scale(b@, fuzz@),
            ) && q_lt(q_zero(), c_dot(p.1@.direction, hit_record@.normal)),
            out is Some <==> metal_scatter_fits(ray@.direction, hit_record@.normal, fuzz@, b@),
    {
        let u = match ray.direction.unit_vector() {
            Some(v) => v,
            None => {
                return None;
            },
        };
        let reflected = match u.reflect(&hit_record.normal) {
            Some(v) => v,
            None => {
                return None;
            },
        };
        let fb = match b.scale(fuzz) {
            Some(v) => v,
            None => {
                return None;
            },
        };
        let dir = match reflected.add(&fb) {
            Some(v) => v,
            None => {
                return None;
            },
        };
        let d = match dir.dot(&hit_record.normal) {
            Some(v) => v,
            None => {
                return None;
            },
        };
        if Rat::zero().lt(&d) {
            Some((*albedo, Ray::new(hit_record.point, dir)))
        } else {
            // Fuzz pushed the reflection below the surface.
            None
        }
    }

    /// The dielectric scattering law for a given uniform draw in `[0, 1)`:
    /// the attenuation is white, and the direction is the reflection when
    /// refraction is impossible or the draw falls below the Schlick
    /// reflectance, else the refraction. `None` exactly when a step leaves
    /// the representable range.
    pub fn scatter_dielectric(
        ref_idx: &Rat,
        ray: &Ray,
        hit_record: &HitRecord,
        draw: &Rat,
    ) -> (out: Option<(Pixel, Ray)>)
        requires
            ref_idx.wf(),
            q_lt(q_zero(), ref_idx@),
            ray.wf(),
            hit_record.wf(),
            draw.wf(),
        ensures
            out matches Some(p) ==> p.0@ == (PixelV { r: q_one(), g: q_one(), b: q_one() })
                && p.0.wf() && p.1.wf() && p.1.origin == hit_record.point && p.1@.direction == (
            if dielectric_reflects(
                dielectric_cos(c_unit(ray@.direction), hit_record@.normal),
                dielectric_ratio(ref_idx@, hit_record.front_face),
                draw@,
            ) {
                c_reflect(c_unit(ray@.direction), hit_record@.normal)
            } else {
                c_refract(
                    c_unit(ray@.direction),
                    hit_record@.normal,
                    dielectric_ratio(ref_idx@, hit_record.front_face),
                )
            }),
            out is Some <==> dielectric_scatter_fits(
                ref_idx@,
                hit_record.front_face,
                ray@.direction,
                hit_record@.normal,
                draw@,
            ),
    {
        let ratio = if hit_record.front_face {
            match Rat::one().div(ref_idx) {
                Some(v) => v,
                None => {
                    return None;
                },
            }
        } else {
            *ref_idx
        };
        let u = match ray.direction.unit_vector() {
            Some(v) => v,
            None => {
                return None;
            },
        };
        let d = match u.dot(&hit_record.normal) {
            Some(v) => v,
            None => {
                return None;
            },
        };
        let cos_theta = d.neg().min_val(&Rat::one());
        let c2 = match cos_theta.mul(&cos_theta) {
            Some(v) => v,
            None => {
                return None;
            },
        };
        let s2 = match Rat::one().sub(&c2) {
            Some(v) => v,
            None => {
                return None;
            },
        };
        // A cosine below -1 (degenerate geometry) would square above one;
        // clamp the radicand at zero.
        let s2c = if s2.num < 0 {
            Rat::zero()
        } else {
            s2
        };
        let sin_theta = s2c.sqrt_floor();
        let rs = match ratio.mul(&sin_theta) {
            Some(v) => v,
            None => {
                return None;
            },
        };
        let cannot_refract = Rat::one().lt(&rs);
        let refl_prob = match Material::reflectance(&cos_theta, &ratio) {
            Some(v) => v,
            None => {
                return None;
            },
        };
        let dir = if cannot_refract || draw.lt(&refl_prob) {
            match u.reflect(&hit_record.normal) {
                Some(v) => v,
                None => {
                    return None;
                },
            }
        } else {
            match u.refract(&hit_record.normal, &ratio) {
                Some(v) => v,
                None => {
                    return None;
                },
            }
        };
        Some((Pixel::new(Rat::one(), Rat::one(), Rat::one()), Ray::new(hit_record.point, dir)))
    }

    /// Scatters an incoming ray at a hit: writes the attenuation and the
    /// scattered ray and reports success. `false` is absorption, from the
    /// metal grazing test, a rejected sample draw, or a result outside the
    /// representable range; the outputs are then untouched.
    pub fn scatter(
        &self,
        rng: &mut rand::rngs::StdRng,
        ray: &Ray,
        hit_record: &HitRecord,
        attenuation: &mut Pixel,
        scattered: &mut Ray,
    ) -> (r: bool)
        requires
            self.wf(),
            ray.wf(),
            hit_record.wf(),
            old(attenuation).wf(),
            old(scattered).wf(),
        ensures
            final(attenuation).wf(),
            final(scattered).wf(),
            r ==> final(scattered).origin == hit_record.point,
            !r ==> *final(attenuation) == *old(attenuation) && *final(scattered) == *old(scattered),
            self matches Material::Lambertian { albedo } ==> r ==> *final(attenuation) == albedo && (
            exists|w: V3|
                is_unit_sample(w) && final(scattered)@.direction == c_add(
                    hit_record@.normal,
                    w,
                )),
            self matches Material::Metal { albedo, fuzz } ==> r ==> *final(attenuation) == albedo
                && q_lt(q_zero(), c_dot(final(scattered)@.direction, hit_record@.normal)) && (
            exists|b: V3|
                v3_wf(b) && q_lt(v3_len_sq(b), q_one()) && final(scattered)@.direction == c_add(
                    c_reflect(c_unit(ray@.direction), hit_record@.normal),
                    c_scale(b, fuzz@),
                )),
            self matches Material::Dielectric { ref_idx } ==> r ==> final(attenuation)@
                == (PixelV { r: q_one(), g: q_one(), b: q_one() })
                && (final(scattered)@.direction == c_reflect(
                    c_unit(ray@.direction),
                    hit_record@.normal,
                ) || final(scattered)@.direction == c_refract(
                    c_unit(ray@.direction),
                    hit_record@.normal,
                    dielectric_ratio(ref_idx@, hit_record.front_face),
                )),
            // Total internal reflection forces the reflection branch,
            // whatever the draw.
            self matches Material::Dielectric { ref_idx } && r && dielectric_tir(
                dielectric_cos(c_unit(ray@.direction), hit_record@.normal),
                dielectric_ratio(ref_idx@, hit_record.front_face),
            ) ==> final(scattered)@.direction == c_reflect(
                c_unit(ray@.direction),
                hit_record@.normal,
            ),
            // A dielectric never absorbs: whenever the in-range condition
            // holds, it scatters for every possible draw.
            self matches Material::Dielectric { ref_idx } && dielectric_always_fits(
                ref_idx@,
                hit_record.front_face,
                ray@.direction,
                hit_record@.normal,
            ) ==> r,
    {
        match *self {
            Material::Lambertian { albedo } => {
                let w = match Point::random_unit_vector(rng) {
                    Some(v) => v,
                    None => {
                        return false;
                    },
                };
                match Material::scatter_lambertian(&albedo, hit_record, &w) {
                    Some(p) => {
                        *attenuation = p.0;
                        *scattered = p.1;
                        proof {
                            assert(is_unit_sample(w@) && scattered@.direction == c_add(
                                hit_record@.normal,
                                w@,
                            ));
                        }
                        true
                    },
                    None => false,
                }
            },
            Material::Metal { albedo, fuzz } => {
                let b = match Point::random_in_unit_sphere(rng) {
                    Some(v) => v,
                    None => {
                        return false;
                    },
                };
                match Material::scatter_metal(&albedo, &fuzz, ray, hit_record, &b) {
                    Some(p) => {
                        *attenuation = p.0;
                        *scattered = p.1;
                        proof {
                            assert(v3_wf(b@) && q_lt(v3_len_sq(b@), q_one())
                                && scattered@.direction == c_add(
                                c_reflect(c_unit(ray@.direction), hit_record@.normal),
                                c_scale(b@, fuzz@),
                            ));
                        }
                        true
                    },
                    None => false,
                }
            },
            Material::Dielectric { ref_idx } => {
                let draw = crate::point::rand01(rng);
                match Material::scatter_dielectric(&ref_idx, ray, hit_record, &draw) {
                    Some(p) => {
                        *attenuation = p.0;
                        *scattered = p.1;
                        true
                    },
                    None => false,
                }
            },
        }
    }
}

} // verus!
