//! The library's algebraic laws and the lemma kit behind them: congruence
//! and distribution facts for rational arithmetic, bilinearity of the dot
//! product, and the reflection and refraction theorems.

use vstd::prelude::*;

use crate::num::{
    lemma_q_add_congr, lemma_q_eq_trans, lemma_q_mul_congr, lemma_q_sub_congr, q_add, q_eq, q_le,
    q_int, q_mul, q_neg, q_one, q_sub, q_wf, q_zero, Q,
};
use crate::num::{lemma_r_ops_val, q_wf as q_wf_again, r_mul};
use crate::point::{
    c_dot, c_reflect, lemma_c_dot_val, proof_dot_wf, v3_add, v3_dot, v3_eq, v3_len_sq, v3_neg,
    v3_reflect, v3_scale, v3_sub, v3_wf, V3,
};

verus! {

/// Sums of well-formed vectors are well formed.
pub proof fn v3_add_wf(a: V3, b: V3)
    requires
        v3_wf(a),
        v3_wf(b),
    ensures
        v3_wf(v3_add(a, b)),
        v3_wf(v3_sub(a, b)),
{
    crate::num::lemma_mul_pos(a.x.d, b.x.d);
    crate::num::lemma_mul_pos(a.y.d, b.y.d);
    crate::num::lemma_mul_pos(a.z.d, b.z.d);
}

/// Scalings of well-formed vectors are well formed.
pub proof fn v3_scale_wf(a: V3, s: Q)
    requires
        v3_wf(a),
        q_wf(s),
    ensures
        v3_wf(v3_scale(a, s)),
{
    crate::num::lemma_mul_pos(a.x.d, s.d);
    crate::num::lemma_mul_pos(a.y.d, s.d);
    crate::num::lemma_mul_pos(a.z.d, s.d);
}

pub proof fn lemma_q_mul_one(a: Q)
    by (nonlinear_arith)
    requires
        q_wf(a),
    ensures
        q_eq(q_mul(a, q_one()), a),
        q_eq(q_mul(q_one(), a), a),
{
}

/// Multiplication distributes over subtraction, on the left factor.
pub proof fn lemma_q_mul_sub_dist(a: Q, b: Q, c: Q)
    requires
        q_wf(a),
        q_wf(b),
        q_wf(c),
    ensures
        q_wf(q_mul(q_sub(a, b), c)),
        q_eq(q_mul(q_sub(a, b), c), q_sub(q_mul(a, c), q_mul(b, c))),
{
    crate::num::lemma_mul_pos(a.d, b.d);
    crate::num::lemma_mul_pos(q_sub(a, b).d, c.d);
    let rd = (a.d * c.d) * (b.d * c.d);
    let ld = (a.d * b.d) * c.d;
    let t1 = (a.n * b.d) * c.n;
    let t2 = (b.n * a.d) * c.n;
    let u1 = (a.n * c.n) * (b.d * c.d);
    let u2 = (b.n * c.n) * (a.d * c.d);
    assert((a.n * b.d - b.n * a.d) * c.n == t1 - t2) by (nonlinear_arith)
        requires
            t1 == (a.n * b.d) * c.n,
            t2 == (b.n * a.d) * c.n,
    ;
    assert((t1 - t2) * rd == t1 * rd - t2 * rd) by (nonlinear_arith);
    assert((u1 - u2) * ld == u1 * ld - u2 * ld) by (nonlinear_arith);
    assert(t1 * rd == u1 * ld) by (nonlinear_arith)
        requires
            t1 == (a.n * b.d) * c.n,
            rd == (a.d * c.d) * (b.d * c.d),
            u1 == (a.n * c.n) * (b.d * c.d),
            ld == (a.d * b.d) * c.d,
    ;
    assert(t2 * rd == u2 * ld) by (nonlinear_arith)
        requires
            t2 == (b.n * a.d) * c.n,
            rd == (a.d * c.d) * (b.d * c.d),
            u2 == (b.n * c.n) * (a.d * c.d),
            ld == (a.d * b.d) * c.d,
    ;
}

/// Multiplication distributes over addition, on the left factor.
pub proof fn lemma_q_mul_add_dist(a: Q, b: Q, c: Q)
    requires
        q_wf(a),
        q_wf(b),
        q_wf(c),
    ensures
        q_wf(q_mul(q_add(a, b), c)),
        q_eq(q_mul(q_add(a, b), c), q_add(q_mul(a, c), q_mul(b, c))),
{
    crate::num::lemma_mul_pos(a.d, b.d);
    crate::num::lemma_mul_pos(q_add(a, b).d, c.d);
    let rd = (a.d * c.d) * (b.d * c.d);
    let ld = (a.d * b.d) * c.d;
    let t1 = (a.n * b.d) * c.n;
    let t2 = (b.n * a.d) * c.n;
    let u1 = (a.n * c.n) * (b.d * c.d);
    let u2 = (b.n * c.n) * (a.d * c.d);
    assert((a.n * b.d + b.n * a.d) * c.n == t1 + t2) by (nonlinear_arith)
        requires
            t1 == (a.n * b.d) * c.n,
            t2 == (b.n * a.d) * c.n,
    ;
    assert((t1 + t2) * rd == t1 * rd + t2 * rd) by (nonlinear_arith);
    assert((u1 + u2) * ld == u1 * ld + u2 * ld) by (nonlinear_arith);
    assert(t1 * rd == u1 * ld) by (nonlinear_arith)
        requires
            t1 == (a.n * b.d) * c.n,
            rd == (a.d * c.d) * (b.d * c.d),
            u1 == (a.n * c.n) * (b.d * c.d),
            ld == (a.d * b.d) * c.d,
    ;
    assert(t2 * rd == u2 * ld) by (nonlinear_arith)
        requires
            t2 == (b.n * a.d) * c.n,
            rd == (a.d * c.d) * (b.d * c.d),
            u2 == (b.n * c.n) * (a.d * c.d),
            ld == (a.d * b.d) * c.d,
    ;
}

/// `(a b) c` and `b (a c)` agree.
pub proof fn lemma_q_mul_assoc_comm(a: Q, b: Q, c: Q)
    by (nonlinear_arith)
    requires
        q_wf(a),
        q_wf(b),
        q_wf(c),
    ensures
        q_wf(q_mul(q_mul(a, b), c)),
        q_eq(q_mul(q_mul(a, b), c), q_mul(b, q_mul(a, c))),
{
}

/// Sums of differences regroup into a difference of sums.
pub proof fn lemma_q_add_sub_swap(p1: Q, n1: Q, p2: Q, n2: Q)
    requires
        q_wf(p1),
        q_wf(n1),
        q_wf(p2),
        q_wf(n2),
    ensures
        q_wf(q_add(q_sub(p1, n1), q_sub(p2, n2))),
        q_eq(
            q_add(q_sub(p1, n1), q_sub(p2, n2)),
            q_sub(q_add(p1, p2), q_add(n1, n2)),
        ),
{
    crate::num::lemma_mul_pos(p1.d, n1.d);
    crate::num::lemma_mul_pos(p2.d, n2.d);
    crate::num::lemma_mul_pos(p1.d * n1.d, p2.d * n2.d);
    crate::num::lemma_mul_pos(p1.d, p2.d);
    crate::num::lemma_mul_pos(n1.d, n2.d);
    crate::num::lemma_mul_pos(p1.d * p2.d, n1.d * n2.d);
    let la = q_add(q_sub(p1, n1), q_sub(p2, n2));
    let ra = q_sub(q_add(p1, p2), q_add(n1, n2));
    // Both numerators expand to the same four monomials.
    assert((p1.n * n1.d - n1.n * p1.d) * (p2.d * n2.d) == p1.n * n1.d * (p2.d * n2.d) - n1.n * p1.d
        * (p2.d * n2.d)) by (nonlinear_arith);
    assert((p2.n * n2.d - n2.n * p2.d) * (p1.d * n1.d) == p2.n * n2.d * (p1.d * n1.d) - n2.n * p2.d
        * (p1.d * n1.d)) by (nonlinear_arith);
    assert((p1.n * p2.d + p2.n * p1.d) * (n1.d * n2.d) == p1.n * p2.d * (n1.d * n2.d) + p2.n * p1.d
        * (n1.d * n2.d)) by (nonlinear_arith);
    assert((n1.n * n2.d + n2.n * n1.d) * (p1.d * p2.d) == n1.n * n2.d * (p1.d * p2.d) + n2.n * n1.d
        * (p1.d * p2.d)) by (nonlinear_arith);
    assert(p1.n * n1.d * (p2.d * n2.d) == p1.n * p2.d * (n1.d * n2.d)) by (nonlinear_arith);
    assert(n1.n * p1.d * (p2.d * n2.d) == n1.n * n2.d * (p1.d * p2.d)) by (nonlinear_arith);
    assert(p2.n * n2.d * (p1.d * n1.d) == p2.n * p1.d * (n1.d * n2.d)) by (nonlinear_arith);
    assert(n2.n * p2.d * (p1.d * n1.d) == n2.n * n1.d * (p1.d * p2.d)) by (nonlinear_arith);
    assert(la.n == ra.n);
    assert((p1.d * n1.d) * (p2.d * n2.d) == (p1.d * p2.d) * (n1.d * n2.d)) by (nonlinear_arith);
    assert(la.d == ra.d);
    assert(la.n * ra.d == ra.n * la.d);
}

/// The dot product is symmetric, representation and all.
pub proof fn lemma_dot_sym(a: V3, b: V3)
    by (nonlinear_arith)
    requires
        v3_wf(a),
        v3_wf(b),
    ensures
        v3_dot(a, b) == v3_dot(b, a),
        q_wf(v3_dot(a, b)),
{
}

/// The dot product pulls a difference out of its left argument.
pub proof fn lemma_dot_sub_left(a: V3, b: V3, c: V3)
    requires
        v3_wf(a),
        v3_wf(b),
        v3_wf(c),
    ensures
        q_wf(v3_dot(v3_sub(a, b), c)),
        q_wf(q_sub(v3_dot(a, c), v3_dot(b, c))),
        q_eq(v3_dot(v3_sub(a, b), c), q_sub(v3_dot(a, c), v3_dot(b, c))),
{
    let m1 = q_mul(q_sub(a.x, b.x), c.x);
    let m2 = q_mul(q_sub(a.y, b.y), c.y);
    let m3 = q_mul(q_sub(a.z, b.z), c.z);
    let p1 = q_mul(a.x, c.x);
    let p2 = q_mul(a.y, c.y);
    let p3 = q_mul(a.z, c.z);
    let n1 = q_mul(b.x, c.x);
    let n2 = q_mul(b.y, c.y);
    let n3 = q_mul(b.z, c.z);
    lemma_q_mul_sub_dist(a.x, b.x, c.x);
    lemma_q_mul_sub_dist(a.y, b.y, c.y);
    lemma_q_mul_sub_dist(a.z, b.z, c.z);
    crate::num::lemma_mul_pos(a.x.d, c.x.d);
    crate::num::lemma_mul_pos(a.y.d, c.y.d);
    crate::num::lemma_mul_pos(a.z.d, c.z.d);
    crate::num::lemma_mul_pos(b.x.d, c.x.d);
    crate::num::lemma_mul_pos(b.y.d, c.y.d);
    crate::num::lemma_mul_pos(b.z.d, c.z.d);
    crate::num::lemma_mul_pos(p1.d, p2.d);
    crate::num::lemma_mul_pos(n1.d, n2.d);
    crate::num::lemma_mul_pos(m1.d, m2.d);
    crate::num::lemma_mul_pos(q_add(m1, m2).d, m3.d);
    crate::num::lemma_mul_pos(p1.d, n1.d);
    crate::num::lemma_mul_pos(p2.d, n2.d);
    crate::num::lemma_mul_pos(p3.d, n3.d);
    crate::num::lemma_mul_pos(q_add(p1, p2).d, q_add(n1, n2).d);
    crate::num::lemma_mul_pos(q_add(p1, p2).d, p3.d);
    crate::num::lemma_mul_pos(q_add(n1, n2).d, n3.d);
    crate::num::lemma_mul_pos(q_add(q_add(p1, p2), p3).d, q_add(q_add(n1, n2), n3).d);
    // First two components.
    lemma_q_add_congr(m1, m2, q_sub(p1, n1), q_sub(p2, n2));
    lemma_q_add_sub_swap(p1, n1, p2, n2);
    lemma_q_eq_trans(
        q_add(m1, m2),
        q_add(q_sub(p1, n1), q_sub(p2, n2)),
        q_sub(q_add(p1, p2), q_add(n1, n2)),
    );
    // Bring in the third.
    lemma_q_add_congr(q_add(m1, m2), m3, q_sub(q_add(p1, p2), q_add(n1, n2)), q_sub(p3, n3));
    lemma_q_add_sub_swap(q_add(p1, p2), q_add(n1, n2), p3, n3);
    lemma_q_eq_trans(
        q_add(q_add(m1, m2), m3),
        q_add(q_sub(q_add(p1, p2), q_add(n1, n2)), q_sub(p3, n3)),
        q_sub(q_add(q_add(p1, p2), p3), q_add(q_add(n1, n2), n3)),
    );
}

/// The dot product pulls a scalar out of its left argument.
pub proof fn lemma_dot_scale_left(n: V3, s: Q, c: V3)
    requires
        v3_wf(n),
        q_wf(s),
        v3_wf(c),
    ensures
        q_wf(v3_dot(v3_scale(n, s), c)),
        q_wf(q_mul(s, v3_dot(n, c))),
        q_eq(v3_dot(v3_scale(n, s), c), q_mul(s, v3_dot(n, c))),
{
    let m1 = q_mul(q_mul(n.x, s), c.x);
    let m2 = q_mul(q_mul(n.y, s), c.y);
    let m3 = q_mul(q_mul(n.z, s), c.z);
    let p1 = q_mul(n.x, c.x);
    let p2 = q_mul(n.y, c.y);
    let p3 = q_mul(n.z, c.z);
    lemma_q_mul_assoc_comm(n.x, s, c.x);
    lemma_q_mul_assoc_comm(n.y, s, c.y);
    lemma_q_mul_assoc_comm(n.z, s, c.z);
    crate::num::lemma_mul_pos(n.x.d, c.x.d);
    crate::num::lemma_mul_pos(n.y.d, c.y.d);
    crate::num::lemma_mul_pos(n.z.d, c.z.d);
    crate::num::lemma_mul_pos(s.d, p1.d);
    crate::num::lemma_mul_pos(s.d, p2.d);
    crate::num::lemma_mul_pos(s.d, p3.d);
    crate::num::lemma_mul_pos(m1.d, m2.d);
    crate::num::lemma_mul_pos(q_add(m1, m2).d, m3.d);
    crate::num::lemma_mul_pos(p1.d, p2.d);
    crate::num::lemma_mul_pos(q_add(p1, p2).d, p3.d);
    crate::num::lemma_mul_pos(q_mul(s, p1).d, q_mul(s, p2).d);
    crate::num::lemma_mul_pos(s.d, q_add(p1, p2).d);
    crate::num::lemma_mul_pos(q_mul(s, q_add(p1, p2)).d, q_mul(s, p3).d);
    crate::num::lemma_mul_pos(s.d, q_add(q_add(p1, p2), p3).d);
    // Each component: (n_i s) c_i ~ s (n_i c_i).
    lemma_q_add_congr(m1, m2, q_mul(s, p1), q_mul(s, p2));
    crate::num::lemma_mul_pos(s.d, q_add(p1, p2).d);
    assert(q_eq(q_add(q_mul(s, p1), q_mul(s, p2)), q_mul(s, q_add(p1, p2)))) by {
        lemma_q_mul_add_dist(p1, p2, s);
        lemma_q_mul_comm_pair(p1, p2, s);
    }
    lemma_q_eq_trans(
        q_add(m1, m2),
        q_add(q_mul(s, p1), q_mul(s, p2)),
        q_mul(s, q_add(p1, p2)),
    );
    lemma_q_add_congr(q_add(m1, m2), m3, q_mul(s, q_add(p1, p2)), q_mul(s, p3));
    assert(q_eq(q_add(q_mul(s, q_add(p1, p2)), q_mul(s, p3)), q_mul(s, q_add(q_add(p1, p2), p3))))
        by {
        lemma_q_mul_add_dist(q_add(p1, p2), p3, s);
        lemma_q_mul_comm_pair(q_add(p1, p2), p3, s);
    }
    lemma_q_eq_trans(
        q_add(q_add(m1, m2), m3),
        q_add(q_mul(s, q_add(p1, p2)), q_mul(s, p3)),
        q_mul(s, q_add(q_add(p1, p2), p3)),
    );
}

/// `(a + b) s` regrouped as `s a + s b` and `s (a + b)`; multiplication
/// commutes representation-exactly.
pub proof fn lemma_q_mul_comm_pair(a: Q, b: Q, s: Q)
    by (nonlinear_arith)
    requires
        q_wf(a),
        q_wf(b),
        q_wf(s),
    ensures
        q_mul(a, s) == q_mul(s, a),
        q_mul(b, s) == q_mul(s, b),
        q_mul(q_add(a, b), s) == q_mul(s, q_add(a, b)),
{
}

/// Reflecting about a unit normal flips the normal component of a vector:
/// `dot(reflect(v, n), n) == -dot(v, n)` whenever `|n|^2 == 1`.
pub proof fn lemma_reflect_preserves_dot(v: V3, n: V3)
    requires
        v3_wf(v),
        v3_wf(n),
        q_eq(v3_len_sq(n), q_one()),
    ensures
        q_eq(v3_dot(v3_reflect(v, n), n), q_neg(v3_dot(v, n))),
{
    let d = v3_dot(v, n);
    let k = q_mul(d, q_int(2));
    let w = v3_scale(n, k);
    proof_dot_wf(v, n);
    proof_dot_wf(n, n);
    crate::num::lemma_mul_pos(d.d, 1);
    crate::num::lemma_mul_pos(n.x.d, k.d);
    crate::num::lemma_mul_pos(n.y.d, k.d);
    crate::num::lemma_mul_pos(n.z.d, k.d);
    crate::num::lemma_mul_pos(k.d, v3_dot(n, n).d);
    crate::num::lemma_mul_pos(k.d, 1);
    crate::num::lemma_mul_pos(d.d, k.d);
    lemma_dot_sub_left(v, w, n);
    lemma_dot_scale_left(n, k, n);
    // dot(w, n) ~ k * dot(n, n) ~ k * 1 ~ k.
    lemma_q_mul_congr(k, v3_dot(n, n), k, q_one());
    lemma_q_mul_one(k);
    lemma_q_eq_trans(v3_dot(w, n), q_mul(k, v3_dot(n, n)), q_mul(k, q_one()));
    lemma_q_eq_trans(v3_dot(w, n), q_mul(k, q_one()), k);
    // dot(v - w, n) ~ d - k ~ -d.
    lemma_q_sub_congr(v3_dot(v, n), v3_dot(w, n), d, k);
    assert(q_eq(q_sub(d, k), q_neg(d))) by (nonlinear_arith)
        requires
            q_wf(d),
            k == q_mul(d, q_int(2)),
    ;
    lemma_q_eq_trans(
        v3_dot(v3_sub(v, w), n),
        q_sub(v3_dot(v, n), v3_dot(w, n)),
        q_sub(d, k),
    );
    lemma_q_eq_trans(v3_dot(v3_sub(v, w), n), q_sub(d, k), q_neg(d));
}

/// Sums of sums regroup pairwise.
pub proof fn lemma_q_add_add_swap(p1: Q, n1: Q, p2: Q, n2: Q)
    requires
        q_wf(p1),
        q_wf(n1),
        q_wf(p2),
        q_wf(n2),
    ensures
        q_wf(q_add(q_add(p1, n1), q_add(p2, n2))),
        q_eq(
            q_add(q_add(p1, n1), q_add(p2, n2)),
            q_add(q_add(p1, p2), q_add(n1, n2)),
        ),
{
    crate::num::lemma_mul_pos(p1.d, n1.d);
    crate::num::lemma_mul_pos(p2.d, n2.d);
    crate::num::lemma_mul_pos(p1.d * n1.d, p2.d * n2.d);
    crate::num::lemma_mul_pos(p1.d, p2.d);
    crate::num::lemma_mul_pos(n1.d, n2.d);
    crate::num::lemma_mul_pos(p1.d * p2.d, n1.d * n2.d);
    let la = q_add(q_add(p1, n1), q_add(p2, n2));
    let ra = q_add(q_add(p1, p2), q_add(n1, n2));
    assert((p1.n * n1.d + n1.n * p1.d) * (p2.d * n2.d) == p1.n * n1.d * (p2.d * n2.d) + n1.n * p1.d
        * (p2.d * n2.d)) by (nonlinear_arith);
    assert((p2.n * n2.d + n2.n * p2.d) * (p1.d * n1.d) == p2.n * n2.d * (p1.d * n1.d) + n2.n * p2.d
        * (p1.d * n1.d)) by (nonlinear_arith);
    assert((p1.n * p2.d + p2.n * p1.d) * (n1.d * n2.d) == p1.n * p2.d * (n1.d * n2.d) + p2.n * p1.d
        * (n1.d * n2.d)) by (nonlinear_arith);
    assert((n1.n * n2.d + n2.n * n1.d) * (p1.d * p2.d) == n1.n * n2.d * (p1.d * p2.d) + n2.n * n1.d
        * (p1.d * p2.d)) by (nonlinear_arith);
    assert(p1.n * n1.d * (p2.d * n2.d) == p1.n * p2.d * (n1.d * n2.d)) by (nonlinear_arith);
    assert(n1.n * p1.d * (p2.d * n2.d) == n1.n * n2.d * (p1.d * p2.d)) by (nonlinear_arith);
    assert(p2.n * n2.d * (p1.d * n1.d) == p2.n * p1.d * (n1.d * n2.d)) by (nonlinear_arith);
    assert(n2.n * p2.d * (p1.d * n1.d) == n2.n * n1.d * (p1.d * p2.d)) by (nonlinear_arith);
    assert(la.n == ra.n);
    assert((p1.d * n1.d) * (p2.d * n2.d) == (p1.d * p2.d) * (n1.d * n2.d)) by (nonlinear_arith);
    assert(la.d == ra.d);
    assert(la.n * ra.d == ra.n * la.d);
}

/// The dot product pulls a sum out of its left argument.
pub proof fn lemma_dot_add_left(a: V3, b: V3, c: V3)
    requires
        v3_wf(a),
        v3_wf(b),
        v3_wf(c),
    ensures
        q_wf(v3_dot(v3_add(a, b), c)),
        q_wf(q_add(v3_dot(a, c), v3_dot(b, c))),
        q_eq(v3_dot(v3_add(a, b), c), q_add(v3_dot(a, c), v3_dot(b, c))),
{
    let m1 = q_mul(q_add(a.x, b.x), c.x);
    let m2 = q_mul(q_add(a.y, b.y), c.y);
    let m3 = q_mul(q_add(a.z, b.z), c.z);
    let p1 = q_mul(a.x, c.x);
    let p2 = q_mul(a.y, c.y);
    let p3 = q_mul(a.z, c.z);
    let n1 = q_mul(b.x, c.x);
    let n2 = q_mul(b.y, c.y);
    let n3 = q_mul(b.z, c.z);
    lemma_q_mul_add_dist(a.x, b.x, c.x);
    lemma_q_mul_add_dist(a.y, b.y, c.y);
    lemma_q_mul_add_dist(a.z, b.z, c.z);
    crate::num::lemma_mul_pos(a.x.d, c.x.d);
    crate::num::lemma_mul_pos(a.y.d, c.y.d);
    crate::num::lemma_mul_pos(a.z.d, c.z.d);
    crate::num::lemma_mul_pos(b.x.d, c.x.d);
    crate::num::lemma_mul_pos(b.y.d, c.y.d);
    crate::num::lemma_mul_pos(b.z.d, c.z.d);
    crate::num::lemma_mul_pos(p1.d, p2.d);
    crate::num::lemma_mul_pos(n1.d, n2.d);
    crate::num::lemma_mul_pos(m1.d, m2.d);
    crate::num::lemma_mul_pos(q_add(m1, m2).d, m3.d);
    crate::num::lemma_mul_pos(p1.d, n1.d);
    crate::num::lemma_mul_pos(p2.d, n2.d);
    crate::num::lemma_mul_pos(p3.d, n3.d);
    crate::num::lemma_mul_pos(q_add(p1, p2).d, q_add(n1, n2).d);
    crate::num::lemma_mul_pos(q_add(p1, p2).d, p3.d);
    crate::num::lemma_mul_pos(q_add(n1, n2).d, n3.d);
    crate::num::lemma_mul_pos(q_add(q_add(p1, p2), p3).d, q_add(q_add(n1, n2), n3).d);
    lemma_q_add_congr(m1, m2, q_add(p1, n1), q_add(p2, n2));
    lemma_q_add_add_swap(p1, n1, p2, n2);
    lemma_q_eq_trans(
        q_add(m1, m2),
        q_add(q_add(p1, n1), q_add(p2, n2)),
        q_add(q_add(p1, p2), q_add(n1, n2)),
    );
    lemma_q_add_congr(q_add(m1, m2), m3, q_add(q_add(p1, p2), q_add(n1, n2)), q_add(p3, n3));
    lemma_q_add_add_swap(q_add(p1, p2), q_add(n1, n2), p3, n3);
    lemma_q_eq_trans(
        q_add(q_add(m1, m2), m3),
        q_add(q_add(q_add(p1, p2), q_add(n1, n2)), q_add(p3, n3)),
        q_add(q_add(q_add(p1, p2), p3), q_add(q_add(n1, n2), n3)),
    );
}

/// Negating the left argument negates the dot product, representation and
/// all.
pub proof fn lemma_dot_neg_left(a: V3, b: V3)
    by (nonlinear_arith)
    requires
        v3_wf(a),
        v3_wf(b),
    ensures
        v3_dot(v3_neg(a), b) == q_neg(v3_dot(a, b)),
{
}

/// The perpendicular part of a refracted direction:
/// `ratio (v + n (-v . n))`.
pub open spec fn refract_perp(v: V3, n: V3, e: Q) -> V3 {
    v3_scale(v3_add(v, v3_scale(n, q_neg(v3_dot(v, n)))), e)
}

/// A refracted direction assembled from its perpendicular part and an
/// explicit parallel magnitude `s` standing for the square root of
/// `1 - |perp|^2`.
pub open spec fn refract_with(v: V3, n: V3, e: Q, s: Q) -> V3 {
    v3_add(refract_perp(v, n, e), v3_neg(v3_scale(n, s)))
}

/// The squared length of a sum expands bilinearly.
pub proof fn lemma_len_sq_add(a: V3, b: V3)
    requires
        v3_wf(a),
        v3_wf(b),
    ensures
        q_wf(v3_len_sq(v3_add(a, b))),
        q_eq(
            v3_len_sq(v3_add(a, b)),
            q_add(q_add(v3_len_sq(a), q_mul(q_int(2), v3_dot(a, b))), v3_len_sq(b)),
        ),
{
    let ab = v3_add(a, b);
    v3_add_wf(a, b);
    proof_dot_wf(a, a);
    proof_dot_wf(a, b);
    proof_dot_wf(b, b);
    proof_dot_wf(a, ab);
    proof_dot_wf(b, ab);
    lemma_dot_add_left(a, b, ab);
    // dot(a, ab) and dot(b, ab): flip and expand.
    lemma_dot_sym(a, ab);
    lemma_dot_add_left(a, b, a);
    lemma_dot_sym(b, ab);
    lemma_dot_add_left(a, b, b);
    lemma_dot_sym(a, a);
    lemma_dot_sym(b, a);
    lemma_dot_sym(b, b);
    // dot(ab, a) ~ dot(a,a) + dot(b,a); dot(ab, b) ~ dot(a,b) + dot(b,b).
    crate::num::lemma_mul_pos(v3_dot(a, a).d, v3_dot(b, a).d);
    crate::num::lemma_mul_pos(v3_dot(a, b).d, v3_dot(b, b).d);
    lemma_q_add_congr(
        v3_dot(a, ab),
        v3_dot(b, ab),
        q_add(v3_dot(a, a), v3_dot(a, b)),
        q_add(v3_dot(a, b), v3_dot(b, b)),
    );
    crate::num::lemma_mul_pos(
        q_add(v3_dot(a, a), v3_dot(a, b)).d,
        q_add(v3_dot(a, b), v3_dot(b, b)).d,
    );
    lemma_q_eq_trans(
        v3_dot(ab, ab),
        q_add(v3_dot(a, ab), v3_dot(b, ab)),
        q_add(q_add(v3_dot(a, a), v3_dot(a, b)), q_add(v3_dot(a, b), v3_dot(b, b))),
    );
    let la = v3_dot(a, a);
    let d = v3_dot(a, b);
    let lb = v3_dot(b, b);
    crate::num::lemma_mul_pos(la.d, d.d);
    crate::num::lemma_mul_pos(d.d, lb.d);
    crate::num::lemma_mul_pos(q_add(la, d).d, q_add(d, lb).d);
    crate::num::lemma_mul_pos(la.d, 1 * d.d);
    crate::num::lemma_mul_pos(q_add(la, q_mul(q_int(2), d)).d, lb.d);
    let lsum = q_add(q_add(la, d), q_add(d, lb));
    let rsum = q_add(q_add(la, q_mul(q_int(2), d)), lb);
    // Both sides share the factor d.d: the left numerator and denominator
    // are the right ones times d.d.
    assert((la.n * d.d + d.n * la.d) * (d.d * lb.d) == (la.n * d.d) * (d.d * lb.d) + (d.n * la.d)
        * (d.d * lb.d)) by (nonlinear_arith);
    assert((d.n * lb.d + lb.n * d.d) * (la.d * d.d) == (d.n * lb.d) * (la.d * d.d) + (lb.n * d.d)
        * (la.d * d.d)) by (nonlinear_arith);
    assert((la.n * (1 * d.d) + (2 * d.n) * la.d) * lb.d == (la.n * (1 * d.d)) * lb.d + ((2 * d.n)
        * la.d) * lb.d) by (nonlinear_arith);
    assert((la.n * d.d) * (d.d * lb.d) == d.d * ((la.n * (1 * d.d)) * lb.d)) by (nonlinear_arith);
    assert((d.n * la.d) * (d.d * lb.d) + (d.n * lb.d) * (la.d * d.d) == d.d * (((2 * d.n) * la.d)
        * lb.d)) by (nonlinear_arith);
    assert((lb.n * d.d) * (la.d * d.d) == d.d * (lb.n * (la.d * (1 * d.d)))) by (nonlinear_arith);
    assert(d.d * ((la.n * (1 * d.d) + (2 * d.n) * la.d) * lb.d + lb.n * (la.d * (1 * d.d)))
        == d.d * ((la.n * (1 * d.d) + (2 * d.n) * la.d) * lb.d) + d.d * (lb.n * (la.d * (1
        * d.d)))) by (nonlinear_arith);
    assert(d.d * ((la.n * (1 * d.d) + (2 * d.n) * la.d) * lb.d) == d.d * ((la.n * (1 * d.d))
        * lb.d) + d.d * (((2 * d.n) * la.d) * lb.d)) by (nonlinear_arith)
        requires
            (la.n * (1 * d.d) + (2 * d.n) * la.d) * lb.d == (la.n * (1 * d.d)) * lb.d + ((2 * d.n)
                * la.d) * lb.d,
    ;
    assert((la.n * d.d + d.n * la.d) * (d.d * lb.d) + (d.n * lb.d + lb.n * d.d) * (la.d * d.d)
        == d.d * ((la.n * (1 * d.d) + (2 * d.n) * la.d) * lb.d + lb.n * (la.d * (1 * d.d))));
    assert((la.d * d.d) * (d.d * lb.d) == d.d * ((la.d * (1 * d.d)) * lb.d)) by (nonlinear_arith);
    assert(lsum.n * rsum.d == rsum.n * lsum.d) by (nonlinear_arith)
        requires
            lsum.n == d.d * rsum.n,
            lsum.d == d.d * rsum.d,
    ;
    assert(q_eq(lsum, rsum));
    lemma_q_eq_trans(
        v3_dot(ab, ab),
        q_add(q_add(la, d), q_add(d, lb)),
        q_add(q_add(la, q_mul(q_int(2), d)), lb),
    );
}

/// The squared length of a scaled vector: `|s a|^2 == s^2 |a|^2`.
pub proof fn lemma_len_sq_scale(a: V3, s: Q)
    requires
        v3_wf(a),
        q_wf(s),
    ensures
        q_wf(v3_len_sq(v3_scale(a, s))),
        q_eq(v3_len_sq(v3_scale(a, s)), q_mul(q_mul(s, s), v3_len_sq(a))),
{
    let sa = v3_scale(a, s);
    v3_scale_wf(a, s);
    lemma_dot_scale_left(a, s, sa);
    lemma_dot_sym(a, sa);
    lemma_dot_scale_left(a, s, a);
    proof_dot_wf(a, a);
    proof_dot_wf(a, sa);
    proof_dot_wf(sa, sa);
    crate::num::lemma_mul_pos(s.d, v3_dot(a, a).d);
    crate::num::lemma_mul_pos(s.d, v3_dot(a, sa).d);
    crate::num::lemma_mul_pos(s.d, s.d);
    crate::num::lemma_mul_pos(s.d * s.d, v3_dot(a, a).d);
    crate::num::lemma_mul_pos(s.d, s.d * v3_dot(a, a).d);
    // dot(sa, sa) ~ s dot(a, sa) == s dot(sa, a) ~ s (s dot(a, a)).
    lemma_q_mul_congr(s, v3_dot(a, sa), s, q_mul(s, v3_dot(a, a)));
    lemma_q_eq_trans(v3_dot(sa, sa), q_mul(s, v3_dot(a, sa)), q_mul(s, q_mul(s, v3_dot(a, a))));
    assert(q_eq(q_mul(s, q_mul(s, v3_dot(a, a))), q_mul(q_mul(s, s), v3_dot(a, a))))
        by (nonlinear_arith)
        requires
            q_wf(s),
            q_wf(v3_dot(a, a)),
    ;
    lemma_q_eq_trans(
        v3_dot(sa, sa),
        q_mul(s, q_mul(s, v3_dot(a, a))),
        q_mul(q_mul(s, s), v3_dot(a, a)),
    );
}

/// The perpendicular part is perpendicular: `refract_perp(v, n, e) . n ~ 0`
/// whenever `|n|^2 == 1`.
pub proof fn lemma_refract_perp_orth(v: V3, n: V3, e: Q)
    requires
        v3_wf(v),
        v3_wf(n),
        q_wf(e),
        q_eq(v3_len_sq(n), q_one()),
    ensures
        q_wf(v3_dot(refract_perp(v, n, e), n)),
        q_eq(v3_dot(refract_perp(v, n, e), n), q_zero()),
{
    let d = v3_dot(v, n);
    proof_dot_wf(v, n);
    let w = v3_scale(n, q_neg(d));
    v3_scale_wf(n, q_neg(d));
    let vw = v3_add(v, w);
    v3_add_wf(v, w);
    v3_scale_wf(vw, e);
    proof_dot_wf(n, n);
    lemma_dot_scale_left(vw, e, n);
    lemma_dot_add_left(v, w, n);
    lemma_dot_scale_left(n, q_neg(d), n);
    // dot(w, n) ~ (-d) dot(n, n) ~ -d.
    lemma_q_mul_congr(q_neg(d), v3_dot(n, n), q_neg(d), q_one());
    lemma_q_mul_one(q_neg(d));
    crate::num::lemma_mul_pos(d.d, v3_dot(n, n).d);
    crate::num::lemma_mul_pos(d.d, 1);
    lemma_q_eq_trans(v3_dot(w, n), q_mul(q_neg(d), v3_dot(n, n)), q_mul(q_neg(d), q_one()));
    lemma_q_eq_trans(v3_dot(w, n), q_mul(q_neg(d), q_one()), q_neg(d));
    // dot(v + w, n) ~ d + (-d) ~ 0.
    proof_dot_wf(w, n);
    crate::num::lemma_mul_pos(d.d, d.d);
    lemma_q_add_congr(v3_dot(v, n), v3_dot(w, n), d, q_neg(d));
    lemma_q_eq_trans(v3_dot(vw, n), q_add(v3_dot(v, n), v3_dot(w, n)), q_add(d, q_neg(d)));
    assert(q_eq(q_add(d, q_neg(d)), q_zero())) by (nonlinear_arith)
        requires
            q_wf(d),
    ;
    lemma_q_eq_trans(v3_dot(vw, n), q_add(d, q_neg(d)), q_zero());
    // dot(e (v + w), n) ~ e dot(v + w, n) ~ e 0 ~ 0.
    lemma_q_mul_congr(e, v3_dot(vw, n), e, q_zero());
    proof_dot_wf(vw, n);
    crate::num::lemma_mul_pos(e.d, v3_dot(vw, n).d);
    assert(q_eq(q_mul(e, q_zero()), q_zero())) by (nonlinear_arith)
        requires
            q_wf(e),
    ;
    lemma_q_eq_trans(
        v3_dot(refract_perp(v, n, e), n),
        q_mul(e, v3_dot(vw, n)),
        q_mul(e, q_zero()),
    );
    lemma_q_eq_trans(v3_dot(refract_perp(v, n, e), n), q_mul(e, q_zero()), q_zero());
}

/// Refraction preserves unit length: for a unit normal and any exact
/// square root `s` of the radicand `1 - |perp|^2`, the assembled direction
/// has squared length one.
pub proof fn lemma_refract_preserves_unit(v: V3, n: V3, e: Q, s: Q)
    requires
        v3_wf(v),
        v3_wf(n),
        q_wf(e),
        q_wf(s),
        q_eq(v3_len_sq(n), q_one()),
        q_eq(q_mul(s, s), q_sub(q_one(), v3_len_sq(refract_perp(v, n, e)))),
    ensures
        q_eq(v3_len_sq(refract_with(v, n, e, s)), q_one()),
{
    let perp = refract_perp(v, n, e);
    let par = v3_neg(v3_scale(n, s));
    let pl = v3_len_sq(perp);
    proof_dot_wf(v, n);
    v3_scale_wf(n, q_neg(v3_dot(v, n)));
    v3_add_wf(v, v3_scale(n, q_neg(v3_dot(v, n))));
    v3_scale_wf(v3_add(v, v3_scale(n, q_neg(v3_dot(v, n)))), e);
    v3_scale_wf(n, s);
    assert(v3_wf(par));
    proof_dot_wf(perp, perp);
    proof_dot_wf(n, n);
    lemma_len_sq_add(perp, par);
    let cross = v3_dot(perp, par);
    // Cross term: dot(perp, par) == -(dot(perp, n) s)-ish ~ 0.
    lemma_dot_sym(perp, par);
    lemma_dot_neg_left(v3_scale(n, s), perp);
    lemma_dot_scale_left(n, s, perp);
    lemma_dot_sym(perp, n);
    lemma_refract_perp_orth(v, n, e);
    // dot(par, perp) == -(s dot(n, perp)) with dot(n, perp) == dot(perp, n) ~ 0.
    proof_dot_wf(n, perp);
    crate::num::lemma_mul_pos(s.d, v3_dot(n, perp).d);
    crate::num::lemma_mul_pos(s.d, 1);
    lemma_q_mul_congr(s, v3_dot(n, perp), s, q_zero());
    assert(q_eq(q_mul(s, q_zero()), q_zero())) by (nonlinear_arith)
        requires
            q_wf(s),
    ;
    lemma_q_eq_trans(q_mul(s, v3_dot(n, perp)), q_mul(s, q_zero()), q_zero());
    assert(q_eq(q_neg(q_mul(s, v3_dot(n, perp))), q_zero())) by (nonlinear_arith)
        requires
            q_wf(s),
            q_wf(v3_dot(n, perp)),
            q_eq(q_mul(s, v3_dot(n, perp)), q_zero()),
    ;
    // cross == -(dot(scale(n, s), perp)) representation-wise, and the
    // scaled dot has value s * dot(n, perp).
    proof_dot_wf(v3_scale(n, s), perp);
    assert(q_eq(
        q_neg(v3_dot(v3_scale(n, s), perp)),
        q_neg(q_mul(s, v3_dot(n, perp))),
    )) by (nonlinear_arith)
        requires
            q_eq(v3_dot(v3_scale(n, s), perp), q_mul(s, v3_dot(n, perp))),
    ;
    lemma_q_eq_trans(
        cross,
        q_neg(q_mul(s, v3_dot(n, perp))),
        q_zero(),
    );
    // |par|^2 == |s n|^2 ~ s^2 |n|^2 ~ s^2 ~ 1 - |perp|^2.
    lemma_len_sq_neg(v3_scale(n, s));
    lemma_len_sq_scale(n, s);
    crate::num::lemma_mul_pos(s.d, s.d);
    crate::num::lemma_mul_pos(s.d * s.d, v3_dot(n, n).d);
    lemma_q_mul_congr(q_mul(s, s), v3_len_sq(n), q_mul(s, s), q_one());
    lemma_q_mul_one(q_mul(s, s));
    lemma_q_eq_trans(
        v3_len_sq(par),
        v3_len_sq(v3_scale(n, s)),
        q_mul(q_mul(s, s), v3_len_sq(n)),
    );
    lemma_q_eq_trans(
        v3_len_sq(par),
        q_mul(q_mul(s, s), v3_len_sq(n)),
        q_mul(q_mul(s, s), q_one()),
    );
    lemma_q_eq_trans(v3_len_sq(par), q_mul(q_mul(s, s), q_one()), q_mul(s, s));
    crate::num::lemma_mul_pos(pl.d, 1);
    lemma_q_eq_trans(v3_len_sq(par), q_mul(s, s), q_sub(q_one(), pl));
    // Assemble: |perp|^2 + 2 * 0 + (1 - |perp|^2) ~ 1.
    proof_dot_wf(perp, par);
    crate::num::lemma_mul_pos(cross.d, 1);
    lemma_q_mul_congr(q_int(2), cross, q_int(2), q_zero());
    proof_dot_wf(par, par);
    crate::num::lemma_mul_pos(pl.d, q_mul(q_int(2), cross).d);
    lemma_q_add_congr(pl, q_mul(q_int(2), cross), pl, q_mul(q_int(2), q_zero()));
    crate::num::lemma_mul_pos(q_add(pl, q_mul(q_int(2), cross)).d, v3_len_sq(par).d);
    crate::num::lemma_mul_pos(pl.d, 2);
    lemma_q_add_congr(
        q_add(pl, q_mul(q_int(2), cross)),
        v3_len_sq(par),
        q_add(pl, q_mul(q_int(2), q_zero())),
        q_sub(q_one(), pl),
    );
    crate::num::lemma_mul_pos(q_add(pl, q_mul(q_int(2), q_zero())).d, q_sub(q_one(), pl).d);
    lemma_q_eq_trans(
        v3_len_sq(refract_with(v, n, e, s)),
        q_add(q_add(pl, q_mul(q_int(2), cross)), v3_len_sq(par)),
        q_add(q_add(pl, q_mul(q_int(2), q_zero())), q_sub(q_one(), pl)),
    );
    assert(q_eq(q_add(q_add(pl, q_mul(q_int(2), q_zero())), q_sub(q_one(), pl)), q_one()))
        by (nonlinear_arith)
        requires
            q_wf(pl),
    ;
    crate::num::lemma_mul_pos(q_add(pl, q_mul(q_int(2), q_zero())).d, q_sub(q_one(), pl).d);
    lemma_q_eq_trans(
        v3_len_sq(refract_with(v, n, e, s)),
        q_add(q_add(pl, q_mul(q_int(2), q_zero())), q_sub(q_one(), pl)),
        q_one(),
    );
}

/// Negation keeps the squared length, representation and all.
pub proof fn lemma_len_sq_neg(a: V3)
    by (nonlinear_arith)
    requires
        v3_wf(a),
    ensures
        v3_len_sq(v3_neg(a)) == v3_len_sq(a),
{
}


/// Adding a term and subtracting an equal one cancels.
pub proof fn lemma_add_cancel(a: Q, x: Q, y: Q)
    requires
        q_wf(a),
        q_wf(x),
        q_wf(y),
        q_eq(x, y),
    ensures
        q_wf(q_add(q_add(a, x), q_neg(y))),
        q_eq(q_add(q_add(a, x), q_neg(y)), a),
{
    crate::num::lemma_mul_pos(a.d, x.d);
    crate::num::lemma_mul_pos(a.d * x.d, y.d);
    let l = q_add(q_add(a, x), q_neg(y));
    assert((a.n * x.d + x.n * a.d) * y.d == (a.n * x.d) * y.d + (x.n * a.d) * y.d)
        by (nonlinear_arith);
    assert(((a.n * x.d) * y.d + (x.n * a.d) * y.d + (-y.n) * (a.d * x.d)) * a.d == ((a.n * x.d)
        * y.d) * a.d + ((x.n * a.d) * y.d) * a.d + ((-y.n) * (a.d * x.d)) * a.d)
        by (nonlinear_arith);
    assert(((x.n * a.d) * y.d) * a.d == (x.n * y.d) * (a.d * a.d)) by (nonlinear_arith);
    assert(((-y.n) * (a.d * x.d)) * a.d == -((y.n * x.d) * (a.d * a.d))) by (nonlinear_arith);
    assert((x.n * y.d) * (a.d * a.d) == (y.n * x.d) * (a.d * a.d)) by (nonlinear_arith)
        requires
            x.n * y.d == y.n * x.d,
    ;
    assert(((a.n * x.d) * y.d) * a.d == a.n * ((a.d * x.d) * y.d)) by (nonlinear_arith);
    assert(l.n * a.d == a.n * l.d);
}

/// A nonnegative value whose square equals the square of a nonpositive
/// value's negation is that negation.
pub proof fn lemma_sqrt_of_square(s: Q, d: Q)
    requires
        q_wf(s),
        q_wf(d),
        q_le(q_zero(), s),
        q_le(d, q_zero()),
        q_eq(q_mul(s, s), q_mul(d, d)),
    ensures
        q_eq(s, q_neg(d)),
{
    let x = s.n * d.d;
    let y = (-d.n) * s.d;
    assert(x * x == y * y) by (nonlinear_arith)
        requires
            x == s.n * d.d,
            y == (-d.n) * s.d,
            (s.n * s.n) * (d.d * d.d) == (d.n * d.n) * (s.d * s.d),
    ;
    assert(x == y) by (nonlinear_arith)
        requires
            x * x == y * y,
            x >= 0,
            y >= 0,
    ;
}

/// A dielectric with refraction ratio one passes an entering unit ray
/// through with its direction unchanged: for unit `v` and `n`,
/// `v . n <= 0`, and any exact square root `s` of the radicand,
/// `refract_with(v, n, 1, s)` equals `v`.
pub proof fn lemma_refract_identity(v: V3, n: V3, s: Q)
    requires
        v3_wf(v),
        v3_wf(n),
        q_wf(s),
        q_eq(v3_len_sq(v), q_one()),
        q_eq(v3_len_sq(n), q_one()),
        crate::num::q_le(v3_dot(v, n), q_zero()),
        crate::num::q_le(q_zero(), s),
        q_eq(q_mul(s, s), q_sub(q_one(), v3_len_sq(refract_perp(v, n, q_one())))),
    ensures
        v3_eq(refract_with(v, n, q_one(), s), v),
{
    let d = v3_dot(v, n);
    proof_dot_wf(v, n);
    let w = v3_scale(n, q_neg(d));
    v3_scale_wf(n, q_neg(d));
    let vw = v3_add(v, w);
    v3_add_wf(v, w);
    let perp = refract_perp(v, n, q_one());
    v3_scale_wf(vw, q_one());
    // |perp|^2 == |vw|^2 in value: scaling by one.
    lemma_len_sq_scale(vw, q_one());
    proof_dot_wf(vw, vw);
    crate::num::lemma_mul_pos(1int * 1int, v3_len_sq(vw).d);
    lemma_q_mul_one(v3_len_sq(vw));
    assert(q_eq(q_mul(q_mul(q_one(), q_one()), v3_len_sq(vw)), v3_len_sq(vw)))
        by (nonlinear_arith)
        requires
            q_wf(v3_len_sq(vw)),
    ;
    lemma_q_eq_trans(
        v3_len_sq(perp),
        q_mul(q_mul(q_one(), q_one()), v3_len_sq(vw)),
        v3_len_sq(vw),
    );
    // |vw|^2 == |v|^2 + 2 (v . w) + |w|^2 with v . w ~ -d^2 and
    // |w|^2 ~ d^2.
    lemma_len_sq_add(v, w);
    lemma_dot_sym(v, w);
    lemma_dot_scale_left(n, q_neg(d), v);
    lemma_dot_sym(n, v);
    proof_dot_wf(n, v);
    crate::num::lemma_mul_pos(d.d, d.d);
    crate::num::lemma_mul_pos(d.d, v3_dot(n, v).d);
    lemma_len_sq_scale(n, q_neg(d));
    proof_dot_wf(n, n);
    crate::num::lemma_mul_pos(d.d * d.d, v3_dot(n, n).d);
    // v . w == w . v ~ (-d) dot(n, v), and dot(n, v) == d as a
    // representation.
    lemma_q_mul_congr(q_neg(d), v3_dot(n, v), q_neg(d), d);
    // |w|^2 ~ (-d)(-d) |n|^2 ~ (-d)(-d).
    lemma_q_mul_congr(
        q_mul(q_neg(d), q_neg(d)),
        v3_len_sq(n),
        q_mul(q_neg(d), q_neg(d)),
        q_one(),
    );
    lemma_q_mul_one(q_mul(q_neg(d), q_neg(d)));
    lemma_q_eq_trans(
        v3_len_sq(w),
        q_mul(q_mul(q_neg(d), q_neg(d)), v3_len_sq(n)),
        q_mul(q_mul(q_neg(d), q_neg(d)), q_one()),
    );
    lemma_q_eq_trans(
        v3_len_sq(w),
        q_mul(q_mul(q_neg(d), q_neg(d)), q_one()),
        q_mul(q_neg(d), q_neg(d)),
    );
    // Collect: |vw|^2 ~ 1 + 2 (-d d) + d d ~ 1 - d^2.
    proof_dot_wf(v, w);
    proof_dot_wf(w, w);
    proof_dot_wf(v, v);
    crate::num::lemma_mul_pos(v3_len_sq(v).d, q_mul(q_int(2), v3_dot(v, w)).d);
    lemma_q_eq_trans(v3_dot(v, w), q_mul(q_neg(d), v3_dot(n, v)), q_mul(q_neg(d), d));
    lemma_q_mul_congr(q_int(2), v3_dot(v, w), q_int(2), q_mul(q_neg(d), d));
    lemma_q_add_congr(
        v3_len_sq(v),
        q_mul(q_int(2), v3_dot(v, w)),
        q_one(),
        q_mul(q_int(2), q_mul(q_neg(d), d)),
    );
    crate::num::lemma_mul_pos(1int, q_mul(q_int(2), q_mul(q_neg(d), d)).d);
    lemma_q_add_congr(
        q_add(v3_len_sq(v), q_mul(q_int(2), v3_dot(v, w))),
        v3_len_sq(w),
        q_add(q_one(), q_mul(q_int(2), q_mul(q_neg(d), d))),
        q_mul(q_neg(d), q_neg(d)),
    );
    crate::num::lemma_mul_pos(q_add(v3_len_sq(v), q_mul(q_int(2), v3_dot(v, w))).d, v3_len_sq(w).d);
    crate::num::lemma_mul_pos(
        q_add(q_one(), q_mul(q_int(2), q_mul(q_neg(d), d))).d,
        q_mul(q_neg(d), q_neg(d)).d,
    );
    lemma_q_eq_trans(
        v3_len_sq(vw),
        q_add(q_add(v3_len_sq(v), q_mul(q_int(2), v3_dot(v, w))), v3_len_sq(w)),
        q_add(q_add(q_one(), q_mul(q_int(2), q_mul(q_neg(d), d))), q_mul(q_neg(d), q_neg(d))),
    );
    assert(q_eq(
        q_add(q_add(q_one(), q_mul(q_int(2), q_mul(q_neg(d), d))), q_mul(q_neg(d), q_neg(d))),
        q_sub(q_one(), q_mul(d, d)),
    )) by (nonlinear_arith)
        requires
            q_wf(d),
    ;
    crate::num::lemma_mul_pos(1int, q_mul(d, d).d);
    lemma_q_eq_trans(
        v3_len_sq(vw),
        q_add(q_add(q_one(), q_mul(q_int(2), q_mul(q_neg(d), d))), q_mul(q_neg(d), q_neg(d))),
        q_sub(q_one(), q_mul(d, d)),
    );
    lemma_q_eq_trans(v3_len_sq(perp), v3_len_sq(vw), q_sub(q_one(), q_mul(d, d)));
    // s^2 ~ 1 - |perp|^2 ~ 1 - (1 - d^2) ~ d^2.
    proof_dot_wf(perp, perp);
    crate::num::lemma_mul_pos(1int, v3_len_sq(perp).d);
    lemma_q_sub_congr(q_one(), v3_len_sq(perp), q_one(), q_sub(q_one(), q_mul(d, d)));
    crate::num::lemma_mul_pos(1int, q_sub(q_one(), q_mul(d, d)).d);
    assert(q_eq(q_sub(q_one(), q_sub(q_one(), q_mul(d, d))), q_mul(d, d))) by (nonlinear_arith)
        requires
            q_wf(d),
    ;
    crate::num::lemma_mul_pos(s.d, s.d);
    lemma_q_eq_trans(
        q_mul(s, s),
        q_sub(q_one(), v3_len_sq(perp)),
        q_sub(q_one(), q_sub(q_one(), q_mul(d, d))),
    );
    lemma_q_eq_trans(
        q_mul(s, s),
        q_sub(q_one(), q_sub(q_one(), q_mul(d, d))),
        q_mul(d, d),
    );
    lemma_sqrt_of_square(s, d);
    // Each component: perp_i + (-(n_i s)) ~ v_i.
    v3_scale_wf(n, s);
    lemma_q_mul_one(vw.x);
    lemma_q_mul_one(vw.y);
    lemma_q_mul_one(vw.z);
    // n_i s ~ n_i (-d).
    lemma_q_mul_congr(n.x, s, n.x, q_neg(d));
    lemma_q_mul_congr(n.y, s, n.y, q_neg(d));
    lemma_q_mul_congr(n.z, s, n.z, q_neg(d));
    lemma_comp_cancel(v.x, n.x, d, s);
    lemma_comp_cancel(v.y, n.y, d, s);
    lemma_comp_cancel(v.z, n.z, d, s);
}

/// One component of the ratio-one refraction: `(a + m (-d)) 1 - m s ~ a`
/// when `s ~ -d`.
proof fn lemma_comp_cancel(a: Q, m: Q, d: Q, s: Q)
    requires
        q_wf(a),
        q_wf(m),
        q_wf(d),
        q_wf(s),
        q_eq(s, q_neg(d)),
    ensures
        q_eq(
            q_add(q_mul(q_add(a, q_mul(m, q_neg(d))), q_one()), q_neg(q_mul(m, s))),
            a,
        ),
{
    let x = q_mul(m, q_neg(d));
    let y = q_mul(m, s);
    crate::num::lemma_mul_pos(m.d, d.d);
    crate::num::lemma_mul_pos(m.d, s.d);
    crate::num::lemma_mul_pos(a.d, x.d);
    crate::num::lemma_mul_pos(a.d * x.d, 1int);
    assert(q_eq(y, x)) by (nonlinear_arith)
        requires
            s.n * d.d == -d.n * s.d,
            x == q_mul(m, q_neg(d)),
            y == q_mul(m, s),
            m.d > 0,
            s.d > 0,
            d.d > 0,
    ;
    lemma_add_cancel(a, x, y);
    // Scaling the inner sum by one keeps the value.
    let inner = q_add(a, x);
    crate::num::lemma_mul_pos(inner.d, 1int);
    lemma_q_mul_one(inner);
    crate::num::lemma_mul_pos(m.d, s.d);
    lemma_q_add_congr(q_mul(inner, q_one()), q_neg(y), inner, q_neg(y));
    crate::num::lemma_mul_pos(q_mul(inner, q_one()).d, y.d);
    crate::num::lemma_mul_pos(a.d, y.d);
    crate::num::lemma_mul_pos(inner.d, y.d);
    lemma_q_eq_trans(
        q_add(q_mul(inner, q_one()), q_neg(y)),
        q_add(inner, q_neg(y)),
        a,
    );
}

/// Division by a value equal to one keeps the value.
pub proof fn lemma_q_div_one_like(x: Q, y: Q)
    requires
        q_wf(x),
        q_wf(y),
        q_eq(y, q_one()),
    ensures
        q_eq(crate::num::q_div(x, y), x),
{
    assert(y.n == y.d);
    assert((x.n * y.d) * x.d == x.n * (x.d * y.n)) by (nonlinear_arith)
        requires
            y.n == y.d,
    ;
}

/// A ray aimed at a sphere's center from distance `d > radius` with a unit
/// direction meets it at parameters exactly `d - radius` and `d + radius`:
/// the discriminant collapses to `radius^2`, and with any exact nonnegative
/// root `s` of it the two quadratic roots are those two values. The offset
/// `origin - center` is `-d` times the direction.
pub proof fn lemma_center_aim_roots(dir: V3, d: Q, r: Q, s: Q)
    requires
        v3_wf(dir),
        q_wf(d),
        q_wf(r),
        q_wf(s),
        q_eq(v3_len_sq(dir), q_one()),
        crate::num::q_lt(q_zero(), r),
        crate::num::q_lt(r, d),
        q_le(q_zero(), s),
        q_eq(
            q_mul(s, s),
            q_sub(
                q_mul(
                    v3_dot(v3_scale(dir, q_neg(d)), dir),
                    v3_dot(v3_scale(dir, q_neg(d)), dir),
                ),
                q_mul(
                    v3_len_sq(dir),
                    q_sub(v3_len_sq(v3_scale(dir, q_neg(d))), q_mul(r, r)),
                ),
            ),
        ),
    ensures
        q_eq(
            q_sub(
                q_mul(
                    v3_dot(v3_scale(dir, q_neg(d)), dir),
                    v3_dot(v3_scale(dir, q_neg(d)), dir),
                ),
                q_mul(
                    v3_len_sq(dir),
                    q_sub(v3_len_sq(v3_scale(dir, q_neg(d))), q_mul(r, r)),
                ),
            ),
            q_mul(r, r),
        ),
        q_eq(
            crate::num::q_div(
                q_sub(q_neg(v3_dot(v3_scale(dir, q_neg(d)), dir)), s),
                v3_len_sq(dir),
            ),
            q_sub(d, r),
        ),
        q_eq(
            crate::num::q_div(
                q_add(q_neg(v3_dot(v3_scale(dir, q_neg(d)), dir)), s),
                v3_len_sq(dir),
            ),
            q_add(d, r),
        ),
{
    let oc = v3_scale(dir, q_neg(d));
    v3_scale_wf(dir, q_neg(d));
    let hbe = v3_dot(oc, dir);
    let ae = v3_len_sq(dir);
    proof_dot_wf(oc, dir);
    proof_dot_wf(dir, dir);
    // half_b ~ (-d) |dir|^2 ~ -d.
    lemma_dot_scale_left(dir, q_neg(d), dir);
    crate::num::lemma_mul_pos(d.d, ae.d);
    crate::num::lemma_mul_pos(d.d, 1int);
    lemma_q_mul_congr(q_neg(d), v3_dot(dir, dir), q_neg(d), q_one());
    lemma_q_mul_one(q_neg(d));
    lemma_q_eq_trans(hbe, q_mul(q_neg(d), v3_dot(dir, dir)), q_mul(q_neg(d), q_one()));
    lemma_q_eq_trans(hbe, q_mul(q_neg(d), q_one()), q_neg(d));
    // |oc|^2 ~ d^2.
    lemma_len_sq_scale(dir, q_neg(d));
    proof_dot_wf(oc, oc);
    crate::num::lemma_mul_pos(d.d, d.d);
    crate::num::lemma_mul_pos(d.d * d.d, ae.d);
    lemma_q_mul_congr(q_mul(q_neg(d), q_neg(d)), ae, q_mul(q_neg(d), q_neg(d)), q_one());
    lemma_q_mul_one(q_mul(q_neg(d), q_neg(d)));
    lemma_q_eq_trans(
        v3_len_sq(oc),
        q_mul(q_mul(q_neg(d), q_neg(d)), ae),
        q_mul(q_mul(q_neg(d), q_neg(d)), q_one()),
    );
    lemma_q_eq_trans(
        v3_len_sq(oc),
        q_mul(q_mul(q_neg(d), q_neg(d)), q_one()),
        q_mul(q_neg(d), q_neg(d)),
    );
    // The discriminant, by congruence and algebra, is r^2.
    crate::num::lemma_mul_pos(r.d, r.d);
    crate::num::lemma_mul_pos(v3_len_sq(oc).d, q_mul(r, r).d);
    lemma_q_sub_congr(v3_len_sq(oc), q_mul(r, r), q_mul(q_neg(d), q_neg(d)), q_mul(r, r));
    crate::num::lemma_mul_pos(hbe.d, hbe.d);
    crate::num::lemma_mul_pos(d.d * d.d, q_mul(r, r).d);
    lemma_q_mul_congr(hbe, hbe, q_neg(d), q_neg(d));
    lemma_q_mul_congr(
        ae,
        q_sub(v3_len_sq(oc), q_mul(r, r)),
        q_one(),
        q_sub(q_mul(q_neg(d), q_neg(d)), q_mul(r, r)),
    );
    crate::num::lemma_mul_pos(ae.d, q_sub(v3_len_sq(oc), q_mul(r, r)).d);
    crate::num::lemma_mul_pos(1int, q_sub(q_mul(q_neg(d), q_neg(d)), q_mul(r, r)).d);
    lemma_q_sub_congr(
        q_mul(hbe, hbe),
        q_mul(ae, q_sub(v3_len_sq(oc), q_mul(r, r))),
        q_mul(q_neg(d), q_neg(d)),
        q_mul(q_one(), q_sub(q_mul(q_neg(d), q_neg(d)), q_mul(r, r))),
    );
    let disc = q_sub(q_mul(hbe, hbe), q_mul(ae, q_sub(v3_len_sq(oc), q_mul(r, r))));
    let dd = q_mul(q_neg(d), q_neg(d));
    let lhs = q_sub(dd, q_mul(q_one(), q_sub(dd, q_mul(r, r))));
    assert((((-d.n) * (-d.n)) * (1 * ((d.d * d.d) * (r.d * r.d))) - (1 * (((-d.n) * (-d.n)) * (
    r.d * r.d) - (r.n * r.n) * (d.d * d.d))) * (d.d * d.d)) * (r.d * r.d) == (r.n * r.n) * ((d.d
        * d.d) * (1 * ((d.d * d.d) * (r.d * r.d)))) * 1) by (nonlinear_arith);
    assert(q_eq(lhs, q_mul(r, r)));
    crate::num::lemma_mul_pos(q_mul(hbe, hbe).d, q_mul(ae, q_sub(v3_len_sq(oc), q_mul(r, r))).d);
    crate::num::lemma_mul_pos(
        q_mul(q_neg(d), q_neg(d)).d,
        q_mul(q_one(), q_sub(q_mul(q_neg(d), q_neg(d)), q_mul(r, r))).d,
    );
    lemma_q_eq_trans(
        disc,
        q_sub(
            q_mul(q_neg(d), q_neg(d)),
            q_mul(q_one(), q_sub(q_mul(q_neg(d), q_neg(d)), q_mul(r, r))),
        ),
        q_mul(r, r),
    );
    // s is exactly r.
    crate::num::lemma_mul_pos(s.d, s.d);
    lemma_q_eq_trans(q_mul(s, s), disc, q_mul(r, r));
    assert(q_mul(q_neg(r), q_neg(r)) == q_mul(r, r)) by (nonlinear_arith);
    lemma_sqrt_of_square(s, q_neg(r));
    assert(q_neg(q_neg(r)) == r);
    // Both roots, with the denominator equal to one.
    crate::num::lemma_mul_pos(hbe.d, s.d);
    crate::num::lemma_mul_pos(d.d, r.d);
    assert(q_eq(q_neg(hbe), d)) by (nonlinear_arith)
        requires
            q_eq(hbe, q_neg(d)),
    ;
    lemma_q_sub_congr(q_neg(hbe), s, d, r);
    lemma_q_add_congr(q_neg(hbe), s, d, r);
    lemma_q_div_one_like(q_sub(q_neg(hbe), s), ae);
    lemma_q_div_one_like(q_add(q_neg(hbe), s), ae);
    crate::num::lemma_mul_pos(q_sub(q_neg(hbe), s).d, ae.n);
    lemma_q_eq_trans(
        crate::num::q_div(q_sub(q_neg(hbe), s), ae),
        q_sub(q_neg(hbe), s),
        q_sub(d, r),
    );
    lemma_q_eq_trans(
        crate::num::q_div(q_add(q_neg(hbe), s), ae),
        q_add(q_neg(hbe), s),
        q_add(d, r),
    );
}

/// The computed reflection has the textbook reflection's value, so the
/// reflection law transfers to what the executable operation stores.
pub proof fn lemma_c_reflect_val(v: V3, n: V3)
    requires
        v3_wf(v),
        v3_wf(n),
    ensures
        v3_eq(c_reflect(v, n), v3_reflect(v, n)),
{
    lemma_c_dot_val(v, n);
    proof_dot_wf(v, n);
    let kc = r_mul(c_dot(v, n), q_int(2));
    let kr = q_mul(v3_dot(v, n), q_int(2));
    lemma_r_ops_val(c_dot(v, n), q_int(2));
    lemma_q_mul_congr(c_dot(v, n), q_int(2), v3_dot(v, n), q_int(2));
    crate::num::lemma_mul_pos(v3_dot(v, n).d, 1int);
    lemma_q_eq_trans(kc, q_mul(c_dot(v, n), q_int(2)), kr);
    lemma_reflect_comp_val(v.x, n.x, kc, kr);
    lemma_reflect_comp_val(v.y, n.y, kc, kr);
    lemma_reflect_comp_val(v.z, n.z, kc, kr);
}

/// One component of the reflection bridge: subtracting the scaled normal
/// component keeps its value through reduction.
proof fn lemma_reflect_comp_val(vi: Q, ni: Q, kc: Q, kr: Q)
    requires
        q_wf(vi),
        q_wf(ni),
        q_wf(kc),
        q_wf(kr),
        q_eq(kc, kr),
    ensures
        q_eq(
            crate::num::r_sub(vi, r_mul(ni, kc)),
            q_sub(vi, q_mul(ni, kr)),
        ),
{
    lemma_r_ops_val(ni, kc);
    crate::num::lemma_mul_pos(ni.d, kc.d);
    crate::num::lemma_mul_pos(ni.d, kr.d);
    lemma_q_mul_congr(ni, kc, ni, kr);
    lemma_q_eq_trans(r_mul(ni, kc), q_mul(ni, kc), q_mul(ni, kr));
    lemma_r_ops_val(vi, r_mul(ni, kc));
    lemma_q_sub_congr(vi, r_mul(ni, kc), vi, q_mul(ni, kr));
    crate::num::lemma_mul_pos(vi.d, r_mul(ni, kc).d);
    crate::num::lemma_mul_pos(vi.d, q_mul(ni, kr).d);
    lemma_q_eq_trans(
        crate::num::r_sub(vi, r_mul(ni, kc)),
        q_sub(vi, r_mul(ni, kc)),
        q_sub(vi, q_mul(ni, kr)),
    );
}

} // verus!
