//! Exact rational scalars.
//!
//! The renderer's real-number formulas are carried out over rationals held as
//! an `i64` numerator and positive `i64` denominator. Every operation states
//! its result exactly over the mathematical model [`Q`]; operations whose
//! result would leave the representable range report `None` instead of
//! silently propagating a wrong value (the analogue of refusing to produce a
//! non-finite number). Square roots, the one irrational spot, round down to
//! the nearest representable value with an exact floor contract.

use vstd::prelude::*;

verus! {

/// Mathematical rational value `n / d`; meaningful when `d > 0`.
pub struct Q {
    pub n: int,
    pub d: int,
}

/// A rational model value is well formed when its denominator is positive.
pub open spec fn q_wf(a: Q) -> bool {
    a.d > 0
}

pub open spec fn q_int(i: int) -> Q {
    Q { n: i, d: 1 }
}

pub open spec fn q_zero() -> Q {
    q_int(0)
}

pub open spec fn q_one() -> Q {
    q_int(1)
}

/// Value equality by cross-multiplication (sound for positive denominators).
pub open spec fn q_eq(a: Q, b: Q) -> bool {
    a.n * b.d == b.n * a.d
}

pub open spec fn q_le(a: Q, b: Q) -> bool {
    a.n * b.d <= b.n * a.d
}

pub open spec fn q_lt(a: Q, b: Q) -> bool {
    a.n * b.d < b.n * a.d
}

pub open spec fn q_add(a: Q, b: Q) -> Q {
    Q { n: a.n * b.d + b.n * a.d, d: a.d * b.d }
}

pub open spec fn q_sub(a: Q, b: Q) -> Q {
    Q { n: a.n * b.d - b.n * a.d, d: a.d * b.d }
}

pub open spec fn q_neg(a: Q) -> Q {
    Q { n: -a.n, d: a.d }
}

pub open spec fn q_mul(a: Q, b: Q) -> Q {
    Q { n: a.n * b.n, d: a.d * b.d }
}

/// Division, with the sign moved into the numerator so the denominator stays
/// positive whenever `b.n != 0`.
pub open spec fn q_div(a: Q, b: Q) -> Q {
    if b.n >= 0 {
        Q { n: a.n * b.d, d: a.d * b.n }
    } else {
        Q { n: -(a.n * b.d), d: -(a.d * b.n) }
    }
}

pub open spec fn q_min(a: Q, b: Q) -> Q {
    if q_le(a, b) {
        a
    } else {
        b
    }
}

/// The model values that the `i64` representation can hold. The numerator is
/// kept strictly above `i64::MIN` so that negation never leaves the range.
pub open spec fn q_fits(a: Q) -> bool {
    &&& -(i64::MAX as int) <= a.n <= i64::MAX as int
    &&& 0 < a.d <= i64::MAX as int
}

pub open spec fn abs_int(x: int) -> int {
    if x >= 0 {
        x
    } else {
        -x
    }
}

/// Euclid's greatest common divisor on nonnegative arguments.
pub open spec fn gcd_s(a: int, b: int) -> int
    recommends
        0 <= a,
        0 <= b,
    decreases b,
        when 0 <= b
{
    if b == 0 {
        a
    } else {
        gcd_s(b, a % b)
    }
}

/// The representation every arithmetic result is brought to: numerator and
/// denominator divided by their greatest common divisor.
pub open spec fn q_red(a: Q) -> Q {
    let g = gcd_s(abs_int(a.n), a.d);
    Q { n: a.n / g, d: a.d / g }
}

/// Reduced forms of the operations, mirroring what the executable scalar
/// arithmetic stores.
pub open spec fn r_add(a: Q, b: Q) -> Q {
    q_red(q_add(a, b))
}

pub open spec fn r_sub(a: Q, b: Q) -> Q {
    q_red(q_sub(a, b))
}

pub open spec fn r_mul(a: Q, b: Q) -> Q {
    q_red(q_mul(a, b))
}

pub open spec fn r_div(a: Q, b: Q) -> Q {
    q_red(q_div(a, b))
}

/// `r` is the floor of the square root of `x`.
pub open spec fn is_isqrt(x: int, r: int) -> bool {
    0 <= r && r * r <= x && x < (r + 1) * (r + 1)
}

/// The floor square root as a function (unique where it exists).
pub open spec fn isqrt_spec(x: int) -> int {
    choose|r: int| is_isqrt(x, r)
}

/// Floor square root of a nonnegative rational: `floor(sqrt(n * d)) / d`,
/// which equals `sqrt(n / d)` up to the floor on the numerator.
pub open spec fn q_sqrt(a: Q) -> Q {
    Q { n: isqrt_spec(a.n * a.d), d: a.d }
}

/// The greatest common divisor is positive and divides both arguments.
pub proof fn lemma_gcd_props(a: int, b: int)
    requires
        0 <= a,
        0 <= b,
    ensures
        a > 0 || b > 0 ==> gcd_s(a, b) > 0,
        gcd_s(a, b) > 0 ==> a % gcd_s(a, b) == 0 && b % gcd_s(a, b) == 0,
    decreases b,
{
    let g = gcd_s(a, b);
    if b == 0 {
        if a > 0 {
            vstd::arithmetic::div_mod::lemma_mod_self_0(a);
            vstd::arithmetic::div_mod::lemma_small_mod(0, a as nat);
        }
    } else {
        lemma_gcd_props(b, a % b);
        if g > 0 {
            vstd::arithmetic::div_mod::lemma_fundamental_div_mod(a, b);
            let m1 = b / g;
            let m2 = (a % b) / g;
            vstd::arithmetic::div_mod::lemma_fundamental_div_mod(b, g);
            vstd::arithmetic::div_mod::lemma_fundamental_div_mod(a % b, g);
            assert(a == (m1 * (a / b) + m2) * g) by (nonlinear_arith)
                requires
                    a == b * (a / b) + a % b,
                    b == g * m1,
                    a % b == g * m2,
            ;
            vstd::arithmetic::div_mod::lemma_mod_multiples_basic(m1 * (a / b) + m2, g);
        }
    }
}

/// An exact multiple divides back to its cofactor.
pub proof fn lemma_div_exact(x: int, g: int)
    requires
        g > 0,
        x % g == 0,
    ensures
        x == g * (x / g),
{
    vstd::arithmetic::div_mod::lemma_fundamental_div_mod(x, g);
}

/// Reduction keeps the value, keeps well-formedness, and never grows the
/// representation.
pub proof fn lemma_q_red(a: Q)
    requires
        q_wf(a),
    ensures
        q_wf(q_red(a)),
        q_eq(q_red(a), a),
        q_red(a).d <= a.d,
        abs_int(q_red(a).n) <= abs_int(a.n),
        q_red(a).n >= 0 <==> a.n >= 0,
{
    let g = gcd_s(abs_int(a.n), a.d);
    lemma_gcd_props(abs_int(a.n), a.d);
    let dq = a.d / g;
    lemma_div_exact(a.d, g);
    assert(dq >= 1) by (nonlinear_arith)
        requires
            a.d == g * dq,
            a.d > 0,
            g > 0,
    ;
    assert(dq <= a.d) by {
        vstd::arithmetic::div_mod::lemma_div_nonincreasing(a.d, g);
    }
    let m = abs_int(a.n) / g;
    lemma_div_exact(abs_int(a.n), g);
    vstd::arithmetic::div_mod::lemma_div_pos_is_pos(abs_int(a.n), g);
    vstd::arithmetic::div_mod::lemma_div_nonincreasing(abs_int(a.n), g);
    if a.n >= 0 {
        assert(q_red(a).n * a.d == a.n * dq) by (nonlinear_arith)
            requires
                a.n == g * m,
                a.d == g * dq,
                q_red(a).n == m,
        ;
    } else {
        // a.n == -(g * m), and exact division of the multiple gives -m.
        assert(g * (-m) == a.n) by (nonlinear_arith)
            requires
                -a.n == g * m,
        ;
        vstd::arithmetic::div_mod::lemma_div_multiples_vanish(-m, g);
        assert(q_red(a).n * a.d == a.n * dq) by (nonlinear_arith)
            requires
                a.n == g * -m,
                a.d == g * dq,
                q_red(a).n == -m,
        ;
    }
}

/// Zero over any positive denominator reduces to the canonical zero.
pub proof fn lemma_q_red_zero(d: int)
    requires
        d > 0,
    ensures
        q_red(Q { n: 0, d }) == q_zero(),
{
    vstd::arithmetic::div_mod::lemma_small_mod(0, d as nat);
    assert(gcd_s(0, d) == gcd_s(d, 0));
    vstd::arithmetic::div_mod::lemma_div_of0(d);
    vstd::arithmetic::div_mod::lemma_div_by_self(d);
}

/// The reduced operations keep the raw operations' values.
pub proof fn lemma_r_ops_val(a: Q, b: Q)
    requires
        q_wf(a),
        q_wf(b),
    ensures
        q_wf(r_add(a, b)) && q_eq(r_add(a, b), q_add(a, b)),
        q_wf(r_sub(a, b)) && q_eq(r_sub(a, b), q_sub(a, b)),
        q_wf(r_mul(a, b)) && q_eq(r_mul(a, b), q_mul(a, b)),
{
    lemma_mul_pos(a.d, b.d);
    lemma_q_red(q_add(a, b));
    lemma_q_red(q_sub(a, b));
    lemma_q_red(q_mul(a, b));
}

/// A difference of two products keeps its value through reduction.
pub proof fn lemma_r_submul_val(a1: Q, b1: Q, a2: Q, b2: Q)
    requires
        q_wf(a1),
        q_wf(b1),
        q_wf(a2),
        q_wf(b2),
    ensures
        q_wf(r_sub(r_mul(a1, b1), r_mul(a2, b2))),
        q_eq(r_sub(r_mul(a1, b1), r_mul(a2, b2)), q_sub(q_mul(a1, b1), q_mul(a2, b2))),
{
    lemma_r_ops_val(a1, b1);
    lemma_r_ops_val(a2, b2);
    lemma_r_ops_val(r_mul(a1, b1), r_mul(a2, b2));
    lemma_mul_pos(a1.d, b1.d);
    lemma_mul_pos(a2.d, b2.d);
    lemma_mul_pos(r_mul(a1, b1).d, r_mul(a2, b2).d);
    lemma_mul_pos(q_mul(a1, b1).d, q_mul(a2, b2).d);
    lemma_q_sub_congr(r_mul(a1, b1), r_mul(a2, b2), q_mul(a1, b1), q_mul(a2, b2));
    lemma_q_eq_trans(
        r_sub(r_mul(a1, b1), r_mul(a2, b2)),
        q_sub(r_mul(a1, b1), r_mul(a2, b2)),
        q_sub(q_mul(a1, b1), q_mul(a2, b2)),
    );
}

pub proof fn lemma_q_lt_trans(a: Q, b: Q, c: Q)
    by (nonlinear_arith)
    requires
        q_wf(a),
        q_wf(b),
        q_wf(c),
    ensures
        q_lt(a, b) && q_lt(b, c) ==> q_lt(a, c),
        q_le(a, b) && q_lt(b, c) ==> q_lt(a, c),
        q_lt(a, b) && q_le(b, c) ==> q_lt(a, c),
        q_le(a, b) && q_le(b, c) ==> q_le(a, c),
{
}

pub proof fn lemma_q_eq_trans(a: Q, b: Q, c: Q)
    by (nonlinear_arith)
    requires
        q_wf(a),
        q_wf(b),
        q_wf(c),
        q_eq(a, b),
        q_eq(b, c),
    ensures
        q_eq(a, c),
{
}

pub proof fn lemma_q_add_congr(a: Q, b: Q, a2: Q, b2: Q)
    requires
        q_wf(a),
        q_wf(b),
        q_wf(a2),
        q_wf(b2),
        q_eq(a, a2),
        q_eq(b, b2),
    ensures
        q_eq(q_add(a, b), q_add(a2, b2)),
{
    let z = a2.d * b2.d;
    let w = a.d * b.d;
    let u = b.d * b2.d;
    let v = a.d * a2.d;
    assert((a.n * b.d + b.n * a.d) * z == (a.n * b.d) * z + (b.n * a.d) * z) by (nonlinear_arith);
    assert((a2.n * b2.d + b2.n * a2.d) * w == (a2.n * b2.d) * w + (b2.n * a2.d) * w)
        by (nonlinear_arith);
    assert((a.n * b.d) * z == (a.n * a2.d) * u) by (nonlinear_arith)
        requires
            z == a2.d * b2.d,
            u == b.d * b2.d,
    ;
    assert((b.n * a.d) * z == (b.n * b2.d) * v) by (nonlinear_arith)
        requires
            z == a2.d * b2.d,
            v == a.d * a2.d,
    ;
    assert((a2.n * b2.d) * w == (a2.n * a.d) * u) by (nonlinear_arith)
        requires
            w == a.d * b.d,
            u == b.d * b2.d,
    ;
    assert((b2.n * a2.d) * w == (b2.n * b.d) * v) by (nonlinear_arith)
        requires
            w == a.d * b.d,
            v == a.d * a2.d,
    ;
    assert((a.n * a2.d) * u == (a2.n * a.d) * u) by (nonlinear_arith)
        requires
            a.n * a2.d == a2.n * a.d,
    ;
    assert((b.n * b2.d) * v == (b2.n * b.d) * v) by (nonlinear_arith)
        requires
            b.n * b2.d == b2.n * b.d,
    ;
    assert((a.n * b.d + b.n * a.d) * z == (a2.n * b2.d + b2.n * a2.d) * w);
}

pub proof fn lemma_q_sub_congr(a: Q, b: Q, a2: Q, b2: Q)
    requires
        q_wf(a),
        q_wf(b),
        q_wf(a2),
        q_wf(b2),
        q_eq(a, a2),
        q_eq(b, b2),
    ensures
        q_eq(q_sub(a, b), q_sub(a2, b2)),
{
    let z = a2.d * b2.d;
    let w = a.d * b.d;
    let u = b.d * b2.d;
    let v = a.d * a2.d;
    assert((a.n * b.d - b.n * a.d) * z == (a.n * b.d) * z - (b.n * a.d) * z) by (nonlinear_arith);
    assert((a2.n * b2.d - b2.n * a2.d) * w == (a2.n * b2.d) * w - (b2.n * a2.d) * w)
        by (nonlinear_arith);
    assert((a.n * b.d) * z == (a.n * a2.d) * u) by (nonlinear_arith)
        requires
            z == a2.d * b2.d,
            u == b.d * b2.d,
    ;
    assert((b.n * a.d) * z == (b.n * b2.d) * v) by (nonlinear_arith)
        requires
            z == a2.d * b2.d,
            v == a.d * a2.d,
    ;
    assert((a2.n * b2.d) * w == (a2.n * a.d) * u) by (nonlinear_arith)
        requires
            w == a.d * b.d,
            u == b.d * b2.d,
    ;
    assert((b2.n * a2.d) * w == (b2.n * b.d) * v) by (nonlinear_arith)
        requires
            w == a.d * b.d,
            v == a.d * a2.d,
    ;
    assert((a.n * a2.d) * u == (a2.n * a.d) * u) by (nonlinear_arith)
        requires
            a.n * a2.d == a2.n * a.d,
    ;
    assert((b.n * b2.d) * v == (b2.n * b.d) * v) by (nonlinear_arith)
        requires
            b.n * b2.d == b2.n * b.d,
    ;
    assert((a.n * b.d - b.n * a.d) * z == (a2.n * b2.d - b2.n * a2.d) * w);
}

pub proof fn lemma_q_mul_congr(a: Q, b: Q, a2: Q, b2: Q)
    by (nonlinear_arith)
    requires
        q_wf(a),
        q_wf(b),
        q_wf(a2),
        q_wf(b2),
        q_eq(a, a2),
        q_eq(b, b2),
    ensures
        q_eq(q_mul(a, b), q_mul(a2, b2)),
{
}

pub proof fn lemma_q_lt_congr(a: Q, b: Q, a2: Q, b2: Q)
    by (nonlinear_arith)
    requires
        q_wf(a),
        q_wf(b),
        q_wf(a2),
        q_wf(b2),
        q_eq(a, a2),
        q_eq(b, b2),
    ensures
        q_lt(a, b) == q_lt(a2, b2),
        q_le(a, b) == q_le(a2, b2),
{
}

pub proof fn lemma_mul_bound(x: int, y: int, bx: int, by: int)
    by (nonlinear_arith)
    requires
        -bx <= x <= bx,
        -by <= y <= by,
        0 <= bx,
        0 <= by,
    ensures
        -(bx * by) <= x * y <= bx * by,
{
}

pub proof fn lemma_mul_pos(x: int, y: int)
    by (nonlinear_arith)
    requires
        0 < x,
        0 < y,
    ensures
        0 < x * y,
{
}

pub proof fn lemma_isqrt_unique(x: int, a: int, b: int)
    by (nonlinear_arith)
    requires
        is_isqrt(x, a),
        is_isqrt(x, b),
    ensures
        a == b,
{
}

pub proof fn lemma_isqrt_exists(x: int)
    requires
        0 <= x,
    ensures
        is_isqrt(x, isqrt_spec(x)),
    decreases x,
{
    if x == 0 {
        assert(is_isqrt(0, 0));
    } else {
        lemma_isqrt_exists(x - 1);
        let r = isqrt_spec(x - 1);
        if (r + 1) * (r + 1) <= x {
            // x - 1 < (r + 1) * (r + 1) <= x forces x == (r + 1) * (r + 1).
            assert((r + 2) * (r + 2) > x) by (nonlinear_arith)
                requires
                    0 <= r,
                    x == (r + 1) * (r + 1),
            ;
            assert(is_isqrt(x, r + 1));
        } else {
            assert(is_isqrt(x, r));
        }
        assert(exists|s: int| is_isqrt(x, s));
    }
}

/// Floor square root of an integer, by binary search.
pub fn isqrt64(x: u128) -> (r: u64)
    requires
        (x as int) < 0x4000_0000_0000_0000_0000_0000_0000_0000,
    ensures
        is_isqrt(x as int, r as int),
        r as int == isqrt_spec(x as int),
{
    let mut lo: u128 = 0;
    let mut hi: u128 = 0x1_0000_0000_0000_0000;
    while lo + 1 < hi
        invariant
            lo < hi <= 0x1_0000_0000_0000_0000,
            (lo as int) * (lo as int) <= x as int,
            (hi as int) * (hi as int) > x as int,
        decreases hi - lo,
    {
        let mid: u128 = lo + (hi - lo) / 2;
        proof {
            lemma_mul_bound(mid as int, mid as int, 0xFFFF_FFFF_FFFF_FFFF, 0xFFFF_FFFF_FFFF_FFFF);
        }
        if mid * mid <= x {
            lo = mid;
        } else {
            hi = mid;
        }
    }
    proof {
        lemma_isqrt_exists(x as int);
        lemma_isqrt_unique(x as int, lo as int, isqrt_spec(x as int));
    }
    lo as u64
}

/// Exact rational scalar: the value `num / den`.
#[derive(Clone, Copy, Debug, PartialEq, Eq, Structural)]
pub struct Rat {
    pub num: i64,
    pub den: i64,
}

impl View for Rat {
    type V = Q;

    open spec fn view(&self) -> Q {
        Q { n: self.num as int, d: self.den as int }
    }
}

impl Rat {
    /// Well-formed scalars have a positive denominator and a numerator that
    /// can be negated in place.
    pub open spec fn wf(self) -> bool {
        q_fits(self@)
    }

    pub fn new(num: i64, den: i64) -> (r: Rat)
        requires
            den > 0,
            num > i64::MIN,
        ensures
            r@ == (Q { n: num as int, d: den as int }),
            r.wf(),
    {
        Rat { num, den }
    }

    pub fn from_int(i: i64) -> (r: Rat)
        requires
            i > i64::MIN,
        ensures
            r@ == q_int(i as int),
            r.wf(),
    {
        Rat { num: i, den: 1 }
    }

    pub fn zero() -> (r: Rat)
        ensures
            r@ == q_zero(),
            r.wf(),
    {
        Rat { num: 0, den: 1 }
    }

    pub fn one() -> (r: Rat)
        ensures
            r@ == q_one(),
            r.wf(),
    {
        Rat { num: 1, den: 1 }
    }

    /// Exact sum; `None` when the result leaves the representable range.
    pub fn add(&self, rhs: &Rat) -> (r: Option<Rat>)
        requires
            self.wf(),
            rhs.wf(),
        ensures
            r matches Some(s) ==> s@ == r_add(self@, rhs@) && s.wf(),
            r matches Some(s) ==> q_eq(s@, q_add(self@, rhs@)),
            r is Some <==> q_fits(r_add(self@, rhs@)),
    {
        proof {
            lemma_mul_bound(self@.n, rhs@.d, i64::MAX as int, i64::MAX as int);
            lemma_mul_bound(rhs@.n, self@.d, i64::MAX as int, i64::MAX as int);
            lemma_mul_bound(self@.d, rhs@.d, i64::MAX as int, i64::MAX as int);
            lemma_mul_pos(self@.d, rhs@.d);
        }
        let n: i128 = self.num as i128 * rhs.den as i128 + rhs.num as i128 * self.den as i128;
        let d: i128 = self.den as i128 * rhs.den as i128;
        clamp_rat(n, d)
    }

    /// Exact difference; `None` when the result leaves the range.
    pub fn sub(&self, rhs: &Rat) -> (r: Option<Rat>)
        requires
            self.wf(),
            rhs.wf(),
        ensures
            r matches Some(s) ==> s@ == r_sub(self@, rhs@) && s.wf(),
            r matches Some(s) ==> q_eq(s@, q_sub(self@, rhs@)),
            r is Some <==> q_fits(r_sub(self@, rhs@)),
    {
        proof {
            lemma_mul_bound(self@.n, rhs@.d, i64::MAX as int, i64::MAX as int);
            lemma_mul_bound(rhs@.n, self@.d, i64::MAX as int, i64::MAX as int);
            lemma_mul_bound(self@.d, rhs@.d, i64::MAX as int, i64::MAX as int);
            lemma_mul_pos(self@.d, rhs@.d);
        }
        let n: i128 = self.num as i128 * rhs.den as i128 - rhs.num as i128 * self.den as i128;
        let d: i128 = self.den as i128 * rhs.den as i128;
        clamp_rat(n, d)
    }

    /// Exact product; `None` when the result leaves the range.
    pub fn mul(&self, rhs: &Rat) -> (r: Option<Rat>)
        requires
            self.wf(),
            rhs.wf(),
        ensures
            r matches Some(s) ==> s@ == r_mul(self@, rhs@) && s.wf(),
            r matches Some(s) ==> q_eq(s@, q_mul(self@, rhs@)),
            r is Some <==> q_fits(r_mul(self@, rhs@)),
    {
        proof {
            lemma_mul_bound(self@.n, rhs@.n, i64::MAX as int, i64::MAX as int);
            lemma_mul_bound(self@.d, rhs@.d, i64::MAX as int, i64::MAX as int);
            lemma_mul_pos(self@.d, rhs@.d);
        }
        let n: i128 = self.num as i128 * rhs.num as i128;
        let d: i128 = self.den as i128 * rhs.den as i128;
        clamp_rat(n, d)
    }

    /// Exact quotient; `None` on division by zero or when the result leaves
    /// the range.
    pub fn div(&self, rhs: &Rat) -> (r: Option<Rat>)
        requires
            self.wf(),
            rhs.wf(),
        ensures
            r matches Some(s) ==> s@ == r_div(self@, rhs@) && s.wf(),
            r matches Some(s) ==> q_eq(s@, q_div(self@, rhs@)),
            r is Some <==> rhs@.n != 0 && q_fits(r_div(self@, rhs@)),
    {
        proof {
            lemma_mul_bound(self@.n, rhs@.d, i64::MAX as int, i64::MAX as int);
            lemma_mul_bound(self@.d, rhs@.n, i64::MAX as int, i64::MAX as int);
        }
        if rhs.num == 0 {
            return None;
        }
        let n: i128 = self.num as i128 * rhs.den as i128;
        let d: i128 = self.den as i128 * rhs.num as i128;
        if rhs.num > 0 {
            proof {
                lemma_mul_pos(self@.d, rhs@.n);
            }
            clamp_rat(n, d)
        } else {
            proof {
                lemma_mul_pos(self@.d, -rhs@.n);
                assert(self@.d * -rhs@.n == -(self@.d * rhs@.n)) by (nonlinear_arith);
            }
            clamp_rat(-n, -d)
        }
    }

    /// Exact negation.
    pub fn neg(&self) -> (r: Rat)
        requires
            self.wf(),
        ensures
            r@ == q_neg(self@),
            r.wf(),
    {
        Rat { num: -self.num, den: self.den }
    }

    pub fn lt(&self, rhs: &Rat) -> (r: bool)
        requires
            self.wf(),
            rhs.wf(),
        ensures
            r == q_lt(self@, rhs@),
    {
        proof {
            lemma_mul_bound(self@.n, rhs@.d, i64::MAX as int, i64::MAX as int);
            lemma_mul_bound(rhs@.n, self@.d, i64::MAX as int, i64::MAX as int);
        }
        (self.num as i128) * (rhs.den as i128) < (rhs.num as i128) * (self.den as i128)
    }

    pub fn le(&self, rhs: &Rat) -> (r: bool)
        requires
            self.wf(),
            rhs.wf(),
        ensures
            r == q_le(self@, rhs@),
    {
        proof {
            lemma_mul_bound(self@.n, rhs@.d, i64::MAX as int, i64::MAX as int);
            lemma_mul_bound(rhs@.n, self@.d, i64::MAX as int, i64::MAX as int);
        }
        (self.num as i128) * (rhs.den as i128) <= (rhs.num as i128) * (self.den as i128)
    }

    /// Value equality (the derived `==` is representation equality instead).
    pub fn eq_val(&self, rhs: &Rat) -> (r: bool)
        requires
            self.wf(),
            rhs.wf(),
        ensures
            r == q_eq(self@, rhs@),
    {
        proof {
            lemma_mul_bound(self@.n, rhs@.d, i64::MAX as int, i64::MAX as int);
            lemma_mul_bound(rhs@.n, self@.d, i64::MAX as int, i64::MAX as int);
        }
        (self.num as i128) * (rhs.den as i128) == (rhs.num as i128) * (self.den as i128)
    }

    /// The smaller of two values (left on ties).
    pub fn min_val(&self, rhs: &Rat) -> (r: Rat)
        requires
            self.wf(),
            rhs.wf(),
        ensures
            r@ == q_min(self@, rhs@),
            r.wf(),
    {
        if self.le(rhs) {
            *self
        } else {
            *rhs
        }
    }

    /// Floor square root: exact when the radicand is a perfect square,
    /// otherwise the largest representable value whose square is below.
    pub fn sqrt_floor(&self) -> (r: Rat)
        requires
            self.wf(),
            0 <= self@.n,
        ensures
            r@ == q_sqrt(self@),
            r.wf(),
            is_isqrt(self@.n * self@.d, r@.n),
    {
        proof {
            lemma_mul_bound(self@.n, self@.d, i64::MAX as int, i64::MAX as int);
            if self@.n == 0 {
                assert(self@.n * self@.d == 0) by (nonlinear_arith)
                    requires
                        self@.n == 0,
                ;
            } else {
                lemma_mul_pos(self@.n, self@.d);
            }
        }
        let p: i128 = self.num as i128 * self.den as i128;
        let s: u64 = isqrt64(p as u128);
        proof {
            let pp = self@.n * self@.d;
            assert((s as int) * (s as int) <= pp);
            assert((s as int) < 0x8000_0000_0000_0000) by (nonlinear_arith)
                requires
                    (s as int) * (s as int) <= pp,
                    pp <= (i64::MAX as int) * (i64::MAX as int),
                    0 <= s as int,
            ;
        }
        Rat { num: s as i64, den: self.den }
    }
}

/// Euclid's algorithm.
fn gcd_u128(a: u128, b: u128) -> (g: u128)
    ensures
        g as int == gcd_s(a as int, b as int),
        a > 0 || b > 0 ==> g > 0,
{
    let mut x: u128 = a;
    let mut y: u128 = b;
    while y != 0
        invariant
            gcd_s(x as int, y as int) == gcd_s(a as int, b as int),
            x > 0 || y > 0 <==> a > 0 || b > 0,
        decreases y,
    {
        let r: u128 = x % y;
        x = y;
        y = r;
    }
    proof {
        lemma_gcd_props(a as int, b as int);
    }
    x
}

/// Brings an exactly computed numerator and positive denominator to lowest
/// terms and narrows them back to `i64` fields, refusing values whose reduced
/// form still leaves the representable range.
fn clamp_rat(n: i128, d: i128) -> (r: Option<Rat>)
    requires
        d > 0,
        n > i128::MIN,
    ensures
        r matches Some(s) ==> s@ == q_red(Q { n: n as int, d: d as int }) && s.wf(),
        r matches Some(s) ==> q_eq(s@, Q { n: n as int, d: d as int }),
        r is Some <==> q_fits(q_red(Q { n: n as int, d: d as int })),
{
    let ghost q0 = Q { n: n as int, d: d as int };
    proof {
        lemma_q_red(q0);
        lemma_gcd_props(abs_int(q0.n), q0.d);
    }
    let na: u128 = if n >= 0 {
        n as u128
    } else {
        (-n) as u128
    };
    let du: u128 = d as u128;
    let g: u128 = gcd_u128(na, du);
    let qn: u128 = na / g;
    let qd: u128 = du / g;
    proof {
        let gi = gcd_s(abs_int(q0.n), q0.d);
        if q0.n < 0 {
            lemma_div_exact(abs_int(q0.n), gi);
            assert(gi * -(abs_int(q0.n) / gi) == q0.n) by (nonlinear_arith)
                requires
                    abs_int(q0.n) == gi * (abs_int(q0.n) / gi),
                    q0.n == -abs_int(q0.n),
            ;
            vstd::arithmetic::div_mod::lemma_div_multiples_vanish(-(abs_int(q0.n) / gi), gi);
        }
    }
    let max: u128 = 0x7FFF_FFFF_FFFF_FFFF;
    if qn <= max && qd <= max {
        let num: i64 = if n >= 0 {
            qn as i64
        } else {
            -(qn as i64)
        };
        Some(Rat { num, den: qd as i64 })
    } else {
        None
    }
}

} // verus!
