//! Linear-RGB color values over exact rational channels.

use vstd::prelude::*;

use crate::num::{
    lemma_q_red, q_add, q_eq, q_fits, q_le, q_lt, q_mul, q_one, q_wf, q_zero, r_add, r_div, r_mul,
    Q, Rat,
};
use crate::rng::rand_in_range;

verus! {

/// Mathematical color value.
pub struct PixelV {
    pub r: Q,
    pub g: Q,
    pub b: Q,
}

pub open spec fn pix_wf(p: PixelV) -> bool {
    q_wf(p.r) && q_wf(p.g) && q_wf(p.b)
}

/// Component-wise sum, as computed.
pub open spec fn pix_add(a: PixelV, b: PixelV) -> PixelV {
    PixelV { r: r_add(a.r, b.r), g: r_add(a.g, b.g), b: r_add(a.b, b.b) }
}

/// Component-wise product (attenuation), as computed.
pub open spec fn pix_mul(a: PixelV, b: PixelV) -> PixelV {
    PixelV { r: r_mul(a.r, b.r), g: r_mul(a.g, b.g), b: r_mul(a.b, b.b) }
}

/// Every channel scaled by `s`, as computed.
pub open spec fn pix_scale(a: PixelV, s: Q) -> PixelV {
    PixelV { r: r_mul(a.r, s), g: r_mul(a.g, s), b: r_mul(a.b, s) }
}

/// Every channel divided by `s`, as computed.
pub open spec fn pix_div(a: PixelV, s: Q) -> PixelV {
    PixelV { r: r_div(a.r, s), g: r_div(a.g, s), b: r_div(a.b, s) }
}

pub open spec fn pix_black() -> PixelV {
    PixelV { r: q_zero(), g: q_zero(), b: q_zero() }
}

/// Accumulated linear-RGB sample value.
#[derive(Clone, Copy, Debug, PartialEq, Eq, Structural)]
pub struct Pixel {
    pub r: Rat,
    pub g: Rat,
    pub b: Rat,
}

impl View for Pixel {
    type V = PixelV;

    open spec fn view(&self) -> PixelV {
        PixelV { r: self.r@, g: self.g@, b: self.b@ }
    }
}

impl Pixel {
    pub open spec fn wf(self) -> bool {
        self.r.wf() && self.g.wf() && self.b.wf()
    }

    pub fn new(r: Rat, g: Rat, b: Rat) -> (out: Pixel)
        ensures
            out@ == (PixelV { r: r@, g: g@, b: b@ }),
            r.wf() && g.wf() && b.wf() ==> out.wf(),
    {
        Pixel { r, g, b }
    }

    pub fn black() -> (out: Pixel)
        ensures
            out@ == pix_black(),
            out.wf(),
    {
        Pixel { r: Rat::zero(), g: Rat::zero(), b: Rat::zero() }
    }

    /// A color with every channel drawn uniformly from `[0, 1)`.
    pub fn random(rng: &mut rand::rngs::StdRng) -> (out: Pixel)
        ensures
            out.wf(),
            q_le(q_zero(), out@.r) && q_lt(out@.r, q_one()),
            q_le(q_zero(), out@.g) && q_lt(out@.g, q_one()),
            q_le(q_zero(), out@.b) && q_lt(out@.b, q_one()),
    {
        let r = crate::point::rand01(rng);
        let g = crate::point::rand01(rng);
        let b = crate::point::rand01(rng);
        Pixel { r, g, b }
    }

    /// A color with every channel drawn uniformly from `[min, max)`.
    pub fn random_range(rng: &mut rand::rngs::StdRng, min: &Rat, max: &Rat) -> (out: Option<Pixel>)
        requires
            min.wf(),
            max.wf(),
            q_lt(min@, max@),
        ensures
            out matches Some(p) ==> p.wf() && q_le(min@, p@.r) && q_lt(p@.r, max@) && q_le(
                min@,
                p@.g,
            ) && q_lt(p@.g, max@) && q_le(min@, p@.b) && q_lt(p@.b, max@),
    {
        let r = match crate::point::rand_coord(rng, min, max) {
            Some(v) => v,
            None => {
                return None;
            },
        };
        let g = match crate::point::rand_coord(rng, min, max) {
            Some(v) => v,
            None => {
                return None;
            },
        };
        let b = match crate::point::rand_coord(rng, min, max) {
            Some(v) => v,
            None => {
                return None;
            },
        };
        Some(Pixel { r, g, b })
    }

    /// Component-wise sum.
    pub fn add(&self, rhs: &Pixel) -> (out: Option<Pixel>)
        requires
            self.wf(),
            rhs.wf(),
        ensures
            out matches Some(s) ==> s@ == pix_add(self@, rhs@) && s.wf(),
            out is Some <==> q_fits(r_add(self@.r, rhs@.r)) && q_fits(r_add(self@.g, rhs@.g))
                && q_fits(r_add(self@.b, rhs@.b)),
    {
        let r = match self.r.add(&rhs.r) {
            Some(v) => v,
            None => {
                return None;
            },
        };
        let g = match self.g.add(&rhs.g) {
            Some(v) => v,
            None => {
                return None;
            },
        };
        let b = match self.b.add(&rhs.b) {
            Some(v) => v,
            None => {
                return None;
            },
        };
        Some(Pixel { r, g, b })
    }

    /// Component-wise product: attenuation of one color by another.
    pub fn mul(&self, rhs: &Pixel) -> (out: Option<Pixel>)
        requires
            self.wf(),
            rhs.wf(),
        ensures
            out matches Some(s) ==> s@ == pix_mul(self@, rhs@) && s.wf(),
            out is Some <==> q_fits(r_mul(self@.r, rhs@.r)) && q_fits(r_mul(self@.g, rhs@.g))
                && q_fits(r_mul(self@.b, rhs@.b)),
    {
        let r = match self.r.mul(&rhs.r) {
            Some(v) => v,
            None => {
                return None;
            },
        };
        let g = match self.g.mul(&rhs.g) {
            Some(v) => v,
            None => {
                return None;
            },
        };
        let b = match self.b.mul(&rhs.b) {
            Some(v) => v,
            None => {
                return None;
            },
        };
        Some(Pixel { r, g, b })
    }

    /// Every channel scaled by `t`.
    pub fn scale(&self, t: &Rat) -> (out: Option<Pixel>)
        requires
            self.wf(),
            t.wf(),
        ensures
            out matches Some(s) ==> s@ == pix_scale(self@, t@) && s.wf(),
            out is Some <==> q_fits(r_mul(self@.r, t@)) && q_fits(r_mul(self@.g, t@)) && q_fits(
                r_mul(self@.b, t@),
            ),
    {
        let r = match self.r.mul(t) {
            Some(v) => v,
            None => {
                return None;
            },
        };
        let g = match self.g.mul(t) {
            Some(v) => v,
            None => {
                return None;
            },
        };
        let b = match self.b.mul(t) {
            Some(v) => v,
            None => {
                return None;
            },
        };
        Some(Pixel { r, g, b })
    }

    /// Every channel divided by `t`, for averaging accumulated samples.
    pub fn div(&self, t: &Rat) -> (out: Option<Pixel>)
        requires
            self.wf(),
            t.wf(),
        ensures
            out matches Some(s) ==> s@ == pix_div(self@, t@) && s.wf(),
            out is Some <==> t@.n != 0 && q_fits(r_div(self@.r, t@)) && q_fits(r_div(self@.g, t@))
                && q_fits(r_div(self@.b, t@)),
    {
        let r = match self.r.div(t) {
            Some(v) => v,
            None => {
                return None;
            },
        };
        let g = match self.g.div(t) {
            Some(v) => v,
            None => {
                return None;
            },
        };
        let b = match self.b.div(t) {
            Some(v) => v,
            None => {
                return None;
            },
        };
        Some(Pixel { r, g, b })
    }
}

} // verus!
