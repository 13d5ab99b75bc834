//! 3-component vectors over exact rational scalars.
//!
//! `Point` serves both as position and direction. The raw model operations
//! (`v3_add`, `v3_dot`, ...) state the textbook formulas; the computed
//! mirrors (`c_add`, `c_dot`, ...) additionally record the reduction to
//! lowest terms that the executable arithmetic performs, so results are
//! pinned representation-exactly and, through `q_eq`, value-exactly.

use vstd::prelude::*;

use crate::num::{
    abs_int, is_isqrt, lemma_q_add_congr, lemma_q_eq_trans, lemma_q_lt_congr, lemma_q_mul_congr,
    lemma_q_red, lemma_q_sub_congr, q_add, q_div, q_eq, q_fits, q_int, q_le, q_lt, q_min, q_mul,
    q_neg, q_one, q_red, q_sqrt, q_sub, q_wf, q_zero, r_add, r_div, r_mul, r_sub, Q, Rat,
};
use crate::rng::rand_in_range;

verus! {

/// Resolution of uniform draws: samples land on a grid of spacing
/// `1 / SAMPLE_RES`.
pub const SAMPLE_RES: i64 = 256;

/// Mathematical 3-vector of rational values.
pub struct V3 {
    pub x: Q,
    pub y: Q,
    pub z: Q,
}

pub open spec fn v3_wf(v: V3) -> bool {
    q_wf(v.x) && q_wf(v.y) && q_wf(v.z)
}

/// Component-wise value equality.
pub open spec fn v3_eq(a: V3, b: V3) -> bool {
    q_eq(a.x, b.x) && q_eq(a.y, b.y) && q_eq(a.z, b.z)
}

pub open spec fn v3_add(a: V3, b: V3) -> V3 {
    V3 { x: q_add(a.x, b.x), y: q_add(a.y, b.y), z: q_add(a.z, b.z) }
}

pub open spec fn v3_sub(a: V3, b: V3) -> V3 {
    V3 { x: q_sub(a.x, b.x), y: q_sub(a.y, b.y), z: q_sub(a.z, b.z) }
}

pub open spec fn v3_neg(a: V3) -> V3 {
    V3 { x: q_neg(a.x), y: q_neg(a.y), z: q_neg(a.z) }
}

pub open spec fn v3_scale(a: V3, s: Q) -> V3 {
    V3 { x: q_mul(a.x, s), y: q_mul(a.y, s), z: q_mul(a.z, s) }
}

pub open spec fn v3_dot(a: V3, b: V3) -> Q {
    q_add(q_add(q_mul(a.x, b.x), q_mul(a.y, b.y)), q_mul(a.z, b.z))
}

pub open spec fn v3_len_sq(a: V3) -> Q {
    v3_dot(a, a)
}

pub open spec fn v3_cross(a: V3, b: V3) -> V3 {
    V3 {
        x: q_sub(q_mul(a.y, b.z), q_mul(a.z, b.y)),
        y: q_sub(q_mul(a.z, b.x), q_mul(a.x, b.z)),
        z: q_sub(q_mul(a.x, b.y), q_mul(a.y, b.x)),
    }
}

/// `v - 2 (v . n) n`, mirror reflection about the plane with normal `n`.
pub open spec fn v3_reflect(v: V3, n: V3) -> V3 {
    v3_sub(v, v3_scale(n, q_mul(v3_dot(v, n), q_int(2))))
}

/// Computed mirrors: what the executable operations store, with every
/// scalar result brought to lowest terms.
pub open spec fn c_add(a: V3, b: V3) -> V3 {
    V3 { x: r_add(a.x, b.x), y: r_add(a.y, b.y), z: r_add(a.z, b.z) }
}

pub open spec fn c_sub(a: V3, b: V3) -> V3 {
    V3 { x: r_sub(a.x, b.x), y: r_sub(a.y, b.y), z: r_sub(a.z, b.z) }
}

pub open spec fn c_scale(a: V3, s: Q) -> V3 {
    V3 { x: r_mul(a.x, s), y: r_mul(a.y, s), z: r_mul(a.z, s) }
}

pub open spec fn c_dot(a: V3, b: V3) -> Q {
    r_add(r_add(r_mul(a.x, b.x), r_mul(a.y, b.y)), r_mul(a.z, b.z))
}

pub open spec fn c_len_sq(a: V3) -> Q {
    c_dot(a, a)
}

pub open spec fn c_cross(a: V3, b: V3) -> V3 {
    V3 {
        x: r_sub(r_mul(a.y, b.z), r_mul(a.z, b.y)),
        y: r_sub(r_mul(a.z, b.x), r_mul(a.x, b.z)),
        z: r_sub(r_mul(a.x, b.y), r_mul(a.y, b.x)),
    }
}

pub open spec fn c_reflect(v: V3, n: V3) -> V3 {
    c_sub(v, c_scale(n, r_mul(c_dot(v, n), q_int(2))))
}

/// Every component divided by a scalar, as computed.
pub open spec fn c_divv(a: V3, s: Q) -> V3 {
    V3 { x: r_div(a.x, s), y: r_div(a.y, s), z: r_div(a.z, s) }
}

/// Division of every component by the floor square root of the squared
/// length: the executable unit vector.
pub open spec fn c_unit(v: V3) -> V3 {
    let s = q_sqrt(c_len_sq(v));
    V3 { x: r_div(v.x, s), y: r_div(v.y, s), z: r_div(v.z, s) }
}

/// Success condition of `Point::unit_vector`: the squared length is
/// computable, nonzero under the floor square root, and each quotient is
/// representable.
pub open spec fn unit_fits(v: V3) -> bool {
    &&& v3_dot_fits(v, v)
    &&& q_sqrt(c_len_sq(v)).n != 0
    &&& q_fits(r_div(v.x, q_sqrt(c_len_sq(v))))
    &&& q_fits(r_div(v.y, q_sqrt(c_len_sq(v))))
    &&& q_fits(r_div(v.z, q_sqrt(c_len_sq(v))))
}

/// A direction obtained by normalizing some point of the open unit ball.
pub open spec fn is_unit_sample(w: V3) -> bool {
    exists|p: V3| v3_wf(p) && q_lt(v3_len_sq(p), q_one()) && w == c_unit(p)
}

/// Range conditions under which the executable operations succeed.
pub open spec fn v3_add_fits(a: V3, b: V3) -> bool {
    q_fits(r_add(a.x, b.x)) && q_fits(r_add(a.y, b.y)) && q_fits(r_add(a.z, b.z))
}

pub open spec fn v3_sub_fits(a: V3, b: V3) -> bool {
    q_fits(r_sub(a.x, b.x)) && q_fits(r_sub(a.y, b.y)) && q_fits(r_sub(a.z, b.z))
}

pub open spec fn v3_scale_fits(a: V3, s: Q) -> bool {
    q_fits(r_mul(a.x, s)) && q_fits(r_mul(a.y, s)) && q_fits(r_mul(a.z, s))
}

pub open spec fn v3_dot_fits(a: V3, b: V3) -> bool {
    &&& q_fits(r_mul(a.x, b.x))
    &&& q_fits(r_mul(a.y, b.y))
    &&& q_fits(r_mul(a.z, b.z))
    &&& q_fits(r_add(r_mul(a.x, b.x), r_mul(a.y, b.y)))
    &&& q_fits(r_add(r_add(r_mul(a.x, b.x), r_mul(a.y, b.y)), r_mul(a.z, b.z)))
}

/// Success condition of `Point::cross`: every component product and
/// difference is representable.
pub open spec fn v3_cross_fits(a: V3, b: V3) -> bool {
    &&& q_fits(r_mul(a.y, b.z)) && q_fits(r_mul(a.z, b.y)) && q_fits(
        r_sub(r_mul(a.y, b.z), r_mul(a.z, b.y)),
    )
    &&& q_fits(r_mul(a.z, b.x)) && q_fits(r_mul(a.x, b.z)) && q_fits(
        r_sub(r_mul(a.z, b.x), r_mul(a.x, b.z)),
    )
    &&& q_fits(r_mul(a.x, b.y)) && q_fits(r_mul(a.y, b.x)) && q_fits(
        r_sub(r_mul(a.x, b.y), r_mul(a.y, b.x)),
    )
}

/// Success condition of `Point::reflect`: the dot product, its doubling,
/// the scaled normal, and the final difference are all representable.
pub open spec fn reflect_fits(v: V3, n: V3) -> bool {
    let k = r_mul(c_dot(v, n), q_int(2));
    &&& v3_dot_fits(v, n)
    &&& q_fits(k)
    &&& v3_scale_fits(n, k)
    &&& v3_sub_fits(v, c_scale(n, k))
}

/// Success condition of `Point::refract`: every step of the computed
/// refraction is representable (the square root itself never fails).
pub open spec fn refract_fits(v: V3, n: V3, e: Q) -> bool {
    let cos = q_neg(c_dot(v, n));
    let vpn = c_add(v, c_scale(n, cos));
    let perp = c_scale(vpn, e);
    let rad0 = r_sub(q_one(), c_len_sq(perp));
    let rad = if rad0.n < 0 {
        q_zero()
    } else {
        rad0
    };
    &&& v3_dot_fits(v, n)
    &&& v3_scale_fits(n, cos)
    &&& v3_add_fits(v, c_scale(n, cos))
    &&& v3_scale_fits(vpn, e)
    &&& v3_dot_fits(perp, perp)
    &&& q_fits(rad0)
    &&& v3_scale_fits(n, q_sqrt(rad))
    &&& v3_add_fits(perp, v3_neg(c_scale(n, q_sqrt(rad))))
}

/// The computed dot product has the raw dot product's value.
pub proof fn lemma_c_dot_val(a: V3, b: V3)
    requires
        v3_wf(a),
        v3_wf(b),
    ensures
        q_wf(c_dot(a, b)),
        q_eq(c_dot(a, b), v3_dot(a, b)),
{
    let mx = q_mul(a.x, b.x);
    let my = q_mul(a.y, b.y);
    let mz = q_mul(a.z, b.z);
    crate::num::lemma_mul_pos(a.x.d, b.x.d);
    crate::num::lemma_mul_pos(a.y.d, b.y.d);
    crate::num::lemma_mul_pos(a.z.d, b.z.d);
    lemma_q_red(mx);
    lemma_q_red(my);
    lemma_q_red(mz);
    crate::num::lemma_mul_pos(mx.d, my.d);
    crate::num::lemma_mul_pos(q_add(mx, my).d, mz.d);
    let s1 = q_add(q_red(mx), q_red(my));
    crate::num::lemma_mul_pos(q_red(mx).d, q_red(my).d);
    lemma_q_red(s1);
    lemma_q_add_congr(q_red(mx), q_red(my), mx, my);
    lemma_q_eq_trans(q_red(s1), s1, q_add(mx, my));
    let s2 = q_add(q_red(s1), q_red(mz));
    crate::num::lemma_mul_pos(q_red(s1).d, q_red(mz).d);
    lemma_q_red(s2);
    lemma_q_add_congr(q_red(s1), q_red(mz), q_add(mx, my), mz);
    lemma_q_eq_trans(q_red(s2), s2, q_add(q_add(mx, my), mz));
}

/// Exact rational 3-vector.
#[derive(Clone, Copy, Debug, PartialEq, Eq, Structural)]
pub struct Point {
    pub x: Rat,
    pub y: Rat,
    pub z: Rat,
}

impl View for Point {
    type V = V3;

    open spec fn view(&self) -> V3 {
        V3 { x: self.x@, y: self.y@, z: self.z@ }
    }
}

impl Point {
    pub open spec fn wf(self) -> bool {
        self.x.wf() && self.y.wf() && self.z.wf()
    }

    pub fn new(x: Rat, y: Rat, z: Rat) -> (r: Point)
        ensures
            r@ == (V3 { x: x@, y: y@, z: z@ }),
            x.wf() && y.wf() && z.wf() ==> r.wf(),
    {
        Point { x, y, z }
    }

    pub fn zero() -> (r: Point)
        ensures
            r@ == (V3 { x: q_zero(), y: q_zero(), z: q_zero() }),
            r.wf(),
    {
        Point { x: Rat::zero(), y: Rat::zero(), z: Rat::zero() }
    }

    pub fn x(&self) -> (r: Rat)
        ensures
            r == self.x,
    {
        self.x
    }

    pub fn y(&self) -> (r: Rat)
        ensures
            r == self.y,
    {
        self.y
    }

    pub fn z(&self) -> (r: Rat)
        ensures
            r == self.z,
    {
        self.z
    }

    /// Component-wise sum.
    pub fn add(&self, rhs: &Point) -> (r: Option<Point>)
        requires
            self.wf(),
            rhs.wf(),
        ensures
            r matches Some(s) ==> s@ == c_add(self@, rhs@) && s.wf() && v3_eq(s@, v3_add(self@, rhs@)),
            r is Some <==> v3_add_fits(self@, rhs@),
    {
        proof {
            crate::num::lemma_mul_pos(self@.x.d, rhs@.x.d);
            crate::num::lemma_mul_pos(self@.y.d, rhs@.y.d);
            crate::num::lemma_mul_pos(self@.z.d, rhs@.z.d);
            lemma_q_red(q_add(self@.x, rhs@.x));
            lemma_q_red(q_add(self@.y, rhs@.y));
            lemma_q_red(q_add(self@.z, rhs@.z));
        }
        let x = match self.x.add(&rhs.x) {
            Some(v) => v,
            None => {
                return None;
            },
        };
        let y = match self.y.add(&rhs.y) {
            Some(v) => v,
            None => {
                return None;
            },
        };
        let z = match self.z.add(&rhs.z) {
            Some(v) => v,
            None => {
                return None;
            },
        };
        Some(Point { x, y, z })
    }

    /// Component-wise difference.
    pub fn sub(&self, rhs: &Point) -> (r: Option<Point>)
        requires
            self.wf(),
            rhs.wf(),
        ensures
            r matches Some(s) ==> s@ == c_sub(self@, rhs@) && s.wf() && v3_eq(s@, v3_sub(self@, rhs@)),
            r is Some <==> v3_sub_fits(self@, rhs@),
    {
        proof {
            crate::num::lemma_mul_pos(self@.x.d, rhs@.x.d);
            crate::num::lemma_mul_pos(self@.y.d, rhs@.y.d);
            crate::num::lemma_mul_pos(self@.z.d, rhs@.z.d);
            lemma_q_red(q_sub(self@.x, rhs@.x));
            lemma_q_red(q_sub(self@.y, rhs@.y));
            lemma_q_red(q_sub(self@.z, rhs@.z));
        }
        let x = match self.x.sub(&rhs.x) {
            Some(v) => v,
            None => {
                return None;
            },
        };
        let y = match self.y.sub(&rhs.y) {
            Some(v) => v,
            None => {
                return None;
            },
        };
        let z = match self.z.sub(&rhs.z) {
            Some(v) => v,
            None => {
                return None;
            },
        };
        Some(Point { x, y, z })
    }

    /// Component-wise negation.
    pub fn neg(&self) -> (r: Point)
        requires
            self.wf(),
        ensures
            r@ == v3_neg(self@),
            r.wf(),
    {
        Point { x: self.x.neg(), y: self.y.neg(), z: self.z.neg() }
    }

    /// Scaling by a scalar.
    pub fn scale(&self, t: &Rat) -> (r: Option<Point>)
        requires
            self.wf(),
            t.wf(),
        ensures
            r matches Some(s) ==> s@ == c_scale(self@, t@) && s.wf() && v3_eq(s@, v3_scale(self@, t@)),
            r is Some <==> v3_scale_fits(self@, t@),
    {
        proof {
            crate::num::lemma_mul_pos(self@.x.d, t@.d);
            crate::num::lemma_mul_pos(self@.y.d, t@.d);
            crate::num::lemma_mul_pos(self@.z.d, t@.d);
            lemma_q_red(q_mul(self@.x, t@));
            lemma_q_red(q_mul(self@.y, t@));
            lemma_q_red(q_mul(self@.z, t@));
        }
        let x = match self.x.mul(t) {
            Some(v) => v,
            None => {
                return None;
            },
        };
        let y = match self.y.mul(t) {
            Some(v) => v,
            None => {
                return None;
            },
        };
        let z = match self.z.mul(t) {
            Some(v) => v,
            None => {
                return None;
            },
        };
        Some(Point { x, y, z })
    }

    /// Every component divided by `t`.
    pub fn div(&self, t: &Rat) -> (r: Option<Point>)
        requires
            self.wf(),
            t.wf(),
        ensures
            r matches Some(s) ==> s@ == c_divv(self@, t@) && s.wf(),
            r is Some <==> t@.n != 0 && q_fits(r_div(self@.x, t@)) && q_fits(r_div(self@.y, t@))
                && q_fits(r_div(self@.z, t@)),
    {
        let x = match self.x.div(t) {
            Some(v) => v,
            None => {
                return None;
            },
        };
        let y = match self.y.div(t) {
            Some(v) => v,
            None => {
                return None;
            },
        };
        let z = match self.z.div(t) {
            Some(v) => v,
            None => {
                return None;
            },
        };
        Some(Point { x, y, z })
    }

    /// Inner product.
    pub fn dot(&self, other: &Point) -> (r: Option<Rat>)
        requires
            self.wf(),
            other.wf(),
        ensures
            r matches Some(s) ==> s@ == c_dot(self@, other@) && s.wf() && q_eq(s@, v3_dot(self@, other@)),
            r is Some <==> v3_dot_fits(self@, other@),
    {
        proof {
            lemma_c_dot_val(self@, other@);
        }
        let mx = match self.x.mul(&other.x) {
            Some(v) => v,
            None => {
                return None;
            },
        };
        let my = match self.y.mul(&other.y) {
            Some(v) => v,
            None => {
                return None;
            },
        };
        let mz = match self.z.mul(&other.z) {
            Some(v) => v,
            None => {
                return None;
            },
        };
        let s1 = match mx.add(&my) {
            Some(v) => v,
            None => {
                return None;
            },
        };
        match s1.add(&mz) {
            Some(v) => Some(v),
            None => None,
        }
    }

    /// Squared Euclidean length.
    pub fn length_squared(&self) -> (r: Option<Rat>)
        requires
            self.wf(),
        ensures
            r matches Some(s) ==> s@ == c_len_sq(self@) && s.wf() && q_eq(s@, v3_len_sq(self@)),
            r is Some <==> v3_dot_fits(self@, self@),
            r matches Some(s) ==> 0 <= s@.n,
    {
        let r = self.dot(self);
        proof {
            if r is Some {
                lemma_len_sq_nonneg(self@);
                let raw = v3_len_sq(self@);
                assert(r->Some_0@.n * raw.d >= 0 ==> 0 <= r->Some_0@.n) by (nonlinear_arith)
                    requires
                        raw.d > 0,
                        r->Some_0@.d > 0,
                ;
            }
        }
        r
    }

    /// Euclidean length, rounded down to the representation grid.
    pub fn length(&self) -> (r: Option<Rat>)
        requires
            self.wf(),
        ensures
            r matches Some(s) ==> s@ == q_sqrt(c_len_sq(self@)) && s.wf() && 0 <= s@.n,
            r is Some <==> v3_dot_fits(self@, self@),
    {
        match self.length_squared() {
            Some(ls) => Some(ls.sqrt_floor()),
            None => None,
        }
    }

    /// Direction of `self` with length brought to one, up to the floor in
    /// the square root. `None` on the zero vector (no direction exists) and
    /// out-of-range results.
    pub fn unit_vector(&self) -> (r: Option<Point>)
        requires
            self.wf(),
        ensures
            r matches Some(u) ==> u@ == c_unit(self@) && u.wf(),
            r is Some <==> unit_fits(self@),
            q_eq(v3_len_sq(self@), q_zero()) ==> r is None,
    {
        let ls = match self.length_squared() {
            Some(v) => v,
            None => {
                return None;
            },
        };
        let s = ls.sqrt_floor();
        proof {
            if q_eq(v3_len_sq(self@), q_zero()) {
                lemma_len_sq_nonneg(self@);
                lemma_c_dot_val(self@, self@);
                lemma_q_eq_trans(c_len_sq(self@), v3_len_sq(self@), q_zero());
                let c = c_len_sq(self@);
                assert(c.n == 0 && c.n * c.d == 0) by (nonlinear_arith)
                    requires
                        q_eq(c, q_zero()),
                ;
                assert(is_isqrt(0, 0));
                crate::num::lemma_isqrt_exists(0);
                crate::num::lemma_isqrt_unique(0, 0, crate::num::isqrt_spec(0));
                assert(s@.n == 0);
            }
        }
        if s.num == 0 {
            return None;
        }
        let x = match self.x.div(&s) {
            Some(v) => v,
            None => {
                return None;
            },
        };
        let y = match self.y.div(&s) {
            Some(v) => v,
            None => {
                return None;
            },
        };
        let z = match self.z.div(&s) {
            Some(v) => v,
            None => {
                return None;
            },
        };
        Some(Point { x, y, z })
    }

    /// Cross product.
    pub fn cross(&self, other: &Point) -> (r: Option<Point>)
        requires
            self.wf(),
            other.wf(),
        ensures
            r matches Some(s) ==> s@ == c_cross(self@, other@) && s.wf() && v3_eq(
                s@,
                v3_cross(self@, other@),
            ),
            r is Some <==> v3_cross_fits(self@, other@),
    {
        proof {
            crate::num::lemma_r_submul_val(self@.y, other@.z, self@.z, other@.y);
            crate::num::lemma_r_submul_val(self@.z, other@.x, self@.x, other@.z);
            crate::num::lemma_r_submul_val(self@.x, other@.y, self@.y, other@.x);
        }
        let ax = match self.y.mul(&other.z) {
            Some(v) => v,
            None => {
                return None;
            },
        };
        let bx = match self.z.mul(&other.y) {
            Some(v) => v,
            None => {
                return None;
            },
        };
        let x = match ax.sub(&bx) {
            Some(v) => v,
            None => {
                return None;
            },
        };
        let ay = match self.z.mul(&other.x) {
            Some(v) => v,
            None => {
                return None;
            },
        };
        let by = match self.x.mul(&other.z) {
            Some(v) => v,
            None => {
                return None;
            },
        };
        let y = match ay.sub(&by) {
            Some(v) => v,
            None => {
                return None;
            },
        };
        let az = match self.x.mul(&other.y) {
            Some(v) => v,
            None => {
                return None;
            },
        };
        let bz = match self.y.mul(&other.x) {
            Some(v) => v,
            None => {
                return None;
            },
        };
        let z = match az.sub(&bz) {
            Some(v) => v,
            None => {
                return None;
            },
        };
        Some(Point { x, y, z })
    }
}

impl Point {
    /// Mirror reflection of `self` about the plane with normal `n`:
    /// `v - 2 (v . n) n`.
    pub fn reflect(&self, n: &Point) -> (r: Option<Point>)
        requires
            self.wf(),
            n.wf(),
        ensures
            r matches Some(s) ==> s@ == c_reflect(self@, n@) && s.wf(),
            r is Some <==> reflect_fits(self@, n@),
    {
        let d = match self.dot(n) {
            Some(v) => v,
            None => {
                return None;
            },
        };
        let two = Rat::from_int(2);
        let k = match d.mul(&two) {
            Some(v) => v,
            None => {
                return None;
            },
        };
        let sn = match n.scale(&k) {
            Some(v) => v,
            None => {
                return None;
            },
        };
        self.sub(&sn)
    }

    /// Refraction of `self` at a surface with normal `n` and refraction
    /// ratio `etai_over_etat`: the component perpendicular to `n` is scaled
    /// by the ratio, the parallel component restores unit length, with the
    /// radicand clamped at zero against round-off.
    pub fn refract(&self, n: &Point, etai_over_etat: &Rat) -> (r: Option<Point>)
        requires
            self.wf(),
            n.wf(),
            etai_over_etat.wf(),
        ensures
            r matches Some(s) ==> s@ == c_refract(self@, n@, etai_over_etat@) && s.wf(),
            r is Some <==> refract_fits(self@, n@, etai_over_etat@),
    {
        let d = match self.dot(n) {
            Some(v) => v,
            None => {
                return None;
            },
        };
        let cos = d.neg();
        let sn = match n.scale(&cos) {
            Some(v) => v,
            None => {
                return None;
            },
        };
        let vpn = match self.add(&sn) {
            Some(v) => v,
            None => {
                return None;
            },
        };
        let perp = match vpn.scale(etai_over_etat) {
            Some(v) => v,
            None => {
                return None;
            },
        };
        let pls = match perp.length_squared() {
            Some(v) => v,
            None => {
                return None;
            },
        };
        let rad0 = match Rat::one().sub(&pls) {
            Some(v) => v,
            None => {
                return None;
            },
        };
        let rad = if rad0.num < 0 {
            Rat::zero()
        } else {
            rad0
        };
        let s = rad.sqrt_floor();
        let ns = match n.scale(&s) {
            Some(v) => v,
            None => {
                return None;
            },
        };
        let par = ns.neg();
        perp.add(&par)
    }

    /// A point with each coordinate drawn uniformly from `[min, max)` on
    /// the sample grid.
    pub fn random(
        rng: &mut rand::rngs::StdRng,
        min: &Rat,
        max: &Rat,
    ) -> (r: Option<Point>)
        requires
            min.wf(),
            max.wf(),
            q_lt(min@, max@),
        ensures
            r matches Some(p) ==> p.wf() && q_le(min@, p@.x) && q_lt(p@.x, max@) && q_le(
                min@,
                p@.y,
            ) && q_lt(p@.y, max@) && q_le(min@, p@.z) && q_lt(p@.z, max@),
    {
        let x = match rand_coord(rng, min, max) {
            Some(v) => v,
            None => {
                return None;
            },
        };
        let y = match rand_coord(rng, min, max) {
            Some(v) => v,
            None => {
                return None;
            },
        };
        let z = match rand_coord(rng, min, max) {
            Some(v) => v,
            None => {
                return None;
            },
        };
        Some(Point { x, y, z })
    }

    /// Uniform point inside the open unit ball, by rejection sampling. The
    /// rejection loop is bounded (termination must hold of every draw
    /// sequence): after 64 rejected draws the sampler gives up with `None`,
    /// which callers treat as an absorbed sample.
    pub fn random_in_unit_sphere(rng: &mut rand::rngs::StdRng) -> (r: Option<Point>)
        ensures
            r matches Some(p) ==> p.wf() && q_lt(v3_len_sq(p@), q_one()),
    {
        let minus_one = Rat::from_int(-1);
        let one = Rat::one();
        let mut tries: u32 = 0;
        while tries < 64
            invariant
                minus_one.wf(),
                one.wf(),
                minus_one@ == q_int(-1),
                one@ == q_one(),
            decreases 64 - tries,
        {
            tries = tries + 1;
            let p = match Point::random(rng, &minus_one, &one) {
                Some(v) => v,
                None => {
                    return None;
                },
            };
            let ls = match p.length_squared() {
                Some(v) => v,
                None => {
                    return None;
                },
            };
            if ls.lt(&one) {
                proof {
                    lemma_c_dot_val(p@, p@);
                    lemma_len_sq_nonneg(p@);
                    lemma_q_lt_congr(c_len_sq(p@), q_one(), v3_len_sq(p@), q_one());
                }
                return Some(p);
            }
        }
        None
    }

    /// Uniform direction on the unit sphere: a ball sample, normalized.
    /// This is the normalized-rejection construction, not the
    /// angle-and-height one (sine and cosine of a drawn angle have no exact
    /// rational form); the two draw from the same distribution. Bounded
    /// like the ball sampler: `None` after 64 failed attempts.
    pub fn random_unit_vector(rng: &mut rand::rngs::StdRng) -> (r: Option<Point>)
        ensures
            r matches Some(u) ==> u.wf() && is_unit_sample(u@),
    {
        let mut tries: u32 = 0;
        while tries < 64
            invariant
                true,
            decreases 64 - tries,
        {
            tries = tries + 1;
            let p = match Point::random_in_unit_sphere(rng) {
                Some(v) => v,
                None => {
                    return None;
                },
            };
            match p.unit_vector() {
                Some(u) => {
                    proof {
                        let pv = p@;
                        assert(v3_wf(pv) && q_lt(v3_len_sq(pv), q_one()) && u@ == c_unit(pv));
                    }
                    return Some(u);
                },
                None => {
                    continue;
                },
            }
        }
        None
    }

    /// Uniform point inside the open unit disk of the xy-plane, for lens
    /// jitter. Bounded like the ball sampler: `None` after 64 rejected
    /// draws.
    pub fn random_in_unit_disk(rng: &mut rand::rngs::StdRng) -> (r: Option<Point>)
        ensures
            r matches Some(p) ==> p.wf() && q_lt(v3_len_sq(p@), q_one()) && p@.z == q_int(0),
    {
        let minus_one = Rat::from_int(-1);
        let one = Rat::one();
        let mut tries: u32 = 0;
        while tries < 64
            invariant
                minus_one.wf(),
                one.wf(),
                minus_one@ == q_int(-1),
                one@ == q_one(),
            decreases 64 - tries,
        {
            tries = tries + 1;
            let x = match rand_coord(rng, &minus_one, &one) {
                Some(v) => v,
                None => {
                    return None;
                },
            };
            let y = match rand_coord(rng, &minus_one, &one) {
                Some(v) => v,
                None => {
                    return None;
                },
            };
            let p = Point { x, y, z: Rat::zero() };
            let ls = match p.length_squared() {
                Some(v) => v,
                None => {
                    return None;
                },
            };
            if ls.lt(&one) {
                proof {
                    lemma_c_dot_val(p@, p@);
                    lemma_len_sq_nonneg(p@);
                    lemma_q_lt_congr(c_len_sq(p@), q_one(), v3_len_sq(p@), q_one());
                }
                return Some(p);
            }
        }
        None
    }
}

/// The computed refraction, mirroring `Point::refract`.
pub open spec fn c_refract(v: V3, n: V3, e: Q) -> V3 {
    let cos = q_neg(c_dot(v, n));
    let perp = c_scale(c_add(v, c_scale(n, cos)), e);
    let rad0 = r_sub(q_one(), c_len_sq(perp));
    let rad = if rad0.n < 0 {
        q_zero()
    } else {
        rad0
    };
    c_add(perp, v3_neg(c_scale(n, q_sqrt(rad))))
}

/// One uniform draw from `[0, 1)` on the sample grid.
pub(crate) fn rand01(rng: &mut rand::rngs::StdRng) -> (r: Rat)
    ensures
        r.wf(),
        q_le(q_zero(), r@),
        q_lt(r@, q_one()),
{
    let k = rand_in_range(rng, 0, SAMPLE_RES);
    Rat::new(k, SAMPLE_RES)
}

/// One uniform coordinate in `[min, max)`: `min + (max - min) * t` for a
/// grid draw `t` in `[0, 1)`.
pub(crate) fn rand_coord(rng: &mut rand::rngs::StdRng, min: &Rat, max: &Rat) -> (r: Option<Rat>)
    requires
        min.wf(),
        max.wf(),
        q_lt(min@, max@),
    ensures
        r matches Some(c) ==> c.wf() && q_le(min@, c@) && q_lt(c@, max@),
{
    let t = rand01(rng);
    let span = match max.sub(min) {
        Some(v) => v,
        None => {
            return None;
        },
    };
    let st = match span.mul(&t) {
        Some(v) => v,
        None => {
            return None;
        },
    };
    let c = match min.add(&st) {
        Some(v) => v,
        None => {
            return None;
        },
    };
    proof {
        lemma_lerp_bounds(min@, max@, t@);
        let sraw = q_sub(max@, min@);
        let mraw = q_mul(sraw, t@);
        crate::num::lemma_mul_pos(max@.d, min@.d);
        crate::num::lemma_mul_pos(sraw.d, t@.d);
        lemma_q_red(sraw);
        lemma_q_mul_congr(q_red(sraw), t@, sraw, t@);
        crate::num::lemma_mul_pos(q_red(sraw).d, t@.d);
        lemma_q_red(q_mul(q_red(sraw), t@));
        lemma_q_eq_trans(st@, q_mul(q_red(sraw), t@), mraw);
        let araw = q_add(min@, st@);
        crate::num::lemma_mul_pos(min@.d, st@.d);
        lemma_q_red(araw);
        lemma_q_add_congr(min@, st@, min@, mraw);
        crate::num::lemma_mul_pos(min@.d, mraw.d);
        lemma_q_eq_trans(c@, araw, q_add(min@, mraw));
        lemma_q_lt_congr(c@, max@, q_add(min@, mraw), max@);
        lemma_q_lt_congr(min@, c@, min@, q_add(min@, mraw));
    }
    Some(c)
}

/// Linear interpolation `lo + (hi - lo) * t` stays in `[lo, hi)` for
/// `t` in `[0, 1)`.
pub proof fn lemma_lerp_bounds(lo: Q, hi: Q, t: Q)
    requires
        q_wf(lo),
        q_wf(hi),
        q_wf(t),
        q_lt(lo, hi),
        q_le(q_zero(), t),
        q_lt(t, q_one()),
    ensures
        q_wf(q_add(lo, q_mul(q_sub(hi, lo), t))),
        q_le(lo, q_add(lo, q_mul(q_sub(hi, lo), t))),
        q_lt(q_add(lo, q_mul(q_sub(hi, lo), t)), hi),
{
    let s = q_sub(hi, lo);
    let m = q_mul(s, t);
    let a = q_add(lo, m);
    crate::num::lemma_mul_pos(hi.d, lo.d);
    crate::num::lemma_mul_pos(s.d, t.d);
    crate::num::lemma_mul_pos(lo.d, m.d);
    assert(0 <= t.n && t.n < t.d);
    assert(s.n > 0);
    assert(0 <= m.n) by (nonlinear_arith)
        requires
            0 <= s.n,
            0 <= t.n,
            m.n == s.n * t.n,
    ;
    assert(lo.n * a.d <= a.n * lo.d) by (nonlinear_arith)
        requires
            a.n == lo.n * m.d + m.n * lo.d,
            a.d == lo.d * m.d,
            0 <= m.n,
            0 < lo.d,
            0 < m.d,
    ;
    assert(a.n * hi.d < hi.n * a.d) by (nonlinear_arith)
        requires
            a.n == lo.n * m.d + m.n * lo.d,
            a.d == lo.d * m.d,
            m.n == s.n * t.n,
            m.d == s.d * t.d,
            s.n == hi.n * lo.d - lo.n * hi.d,
            s.d == hi.d * lo.d,
            0 <= t.n,
            t.n < t.d,
            0 < t.d,
            0 < lo.d,
            0 < hi.d,
            0 < s.n,
    ;
}

/// Well-formedness of a dot product of well-formed vectors.
pub proof fn proof_dot_wf(a: V3, b: V3)
    requires
        v3_wf(a),
        v3_wf(b),
    ensures
        q_wf(v3_dot(a, b)),
{
    crate::num::lemma_mul_pos(a.x.d, b.x.d);
    crate::num::lemma_mul_pos(a.y.d, b.y.d);
    crate::num::lemma_mul_pos(a.z.d, b.z.d);
    crate::num::lemma_mul_pos(q_mul(a.x, b.x).d, q_mul(a.y, b.y).d);
    crate::num::lemma_mul_pos(q_add(q_mul(a.x, b.x), q_mul(a.y, b.y)).d, q_mul(a.z, b.z).d);
}

/// A squared length is never negative.
pub proof fn lemma_len_sq_nonneg(a: V3)
    requires
        v3_wf(a),
    ensures
        q_wf(v3_len_sq(a)),
        0 <= v3_len_sq(a).n,
{
    assert(0 <= v3_len_sq(a).n && 0 < v3_len_sq(a).d) by (nonlinear_arith)
        requires
            a.x.d > 0,
            a.y.d > 0,
            a.z.d > 0,
            v3_len_sq(a) == q_add(
                q_add(q_mul(a.x, a.x), q_mul(a.y, a.y)),
                q_mul(a.z, a.z),
            ),
    ;
}

} // verus!
