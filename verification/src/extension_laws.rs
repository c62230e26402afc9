//! The ring laws of the quintic extension and the theory of its norm.
//!
//! Multiplication in the extension is multiplication of integer
//! polynomials modulo `x^5 - 3`, reduced modulo the field characteristic.
//! The laws are proved for the integer product first, where multiplying by
//! `x` is a shift of the coefficients, and carried over by reduction.
//!
//! The norm of an element is its product with its four proper Frobenius
//! conjugates. That product is fixed by the Frobenius map, so it lies in
//! the base field; where it is not zero, the conjugates divided by it are
//! the inverse of the element.

use crate::extension::{
    ext_add, ext_neg, ext_sub, ext_conjugates, ext_frobenius, ext_inv, ext_mul, ext_norm, ext_scale, Fp5, FROBENIUS_1,
    FROBENIUS_2, FROBENIUS_3, FROBENIUS_4,
};
use crate::field::{fp_inv, fp_mul, lemma_mul_inverse, lemma_no_zero_divisors, modulus};
use vstd::arithmetic::div_mod::*;
use vstd::arithmetic::mul::*;
use vstd::prelude::*;

verus! {

/// Every coefficient reduced modulo the field characteristic.
pub open spec fn ext_reduce(a: Fp5) -> Fp5 {
    Fp5 {
        c0: a.c0 % modulus(),
        c1: a.c1 % modulus(),
        c2: a.c2 % modulus(),
        c3: a.c3 % modulus(),
        c4: a.c4 % modulus(),
    }
}

/// The product of two integer polynomials modulo `x^5 - 3`.
pub open spec fn raw_mul(a: Fp5, b: Fp5) -> Fp5 {
    Fp5 {
        c0: a.c0 * b.c0 + 3 * (a.c1 * b.c4 + a.c2 * b.c3 + a.c3 * b.c2 + a.c4 * b.c1),
        c1: a.c0 * b.c1 + a.c1 * b.c0 + 3 * (a.c2 * b.c4 + a.c3 * b.c3 + a.c4 * b.c2),
        c2: a.c0 * b.c2 + a.c1 * b.c1 + a.c2 * b.c0 + 3 * (a.c3 * b.c4 + a.c4 * b.c3),
        c3: a.c0 * b.c3 + a.c1 * b.c2 + a.c2 * b.c1 + a.c3 * b.c0 + 3 * (a.c4 * b.c4),
        c4: a.c0 * b.c4 + a.c1 * b.c3 + a.c2 * b.c2 + a.c3 * b.c1 + a.c4 * b.c0,
    }
}

/// Coefficient-wise sum of integer polynomials.
pub open spec fn raw_add(a: Fp5, b: Fp5) -> Fp5 {
    Fp5 {
        c0: a.c0 + b.c0,
        c1: a.c1 + b.c1,
        c2: a.c2 + b.c2,
        c3: a.c3 + b.c3,
        c4: a.c4 + b.c4,
    }
}

/// An integer times an integer polynomial.
pub open spec fn raw_scale(k: int, a: Fp5) -> Fp5 {
    Fp5 { c0: k * a.c0, c1: k * a.c1, c2: k * a.c2, c3: k * a.c3, c4: k * a.c4 }
}

/// The polynomial times `x`, modulo `x^5 - 3`.
pub open spec fn shift(a: Fp5) -> Fp5 {
    Fp5 { c0: 3 * a.c4, c1: a.c0, c2: a.c1, c3: a.c2, c4: a.c3 }
}

/// The combination `a0 b + a1 x b + a2 x^2 b + a3 x^3 b + a4 x^4 b`.
pub open spec fn by_shifts(a: Fp5, b: Fp5) -> Fp5 {
    raw_add(
        raw_add(
            raw_add(
                raw_add(raw_scale(a.c0, b), raw_scale(a.c1, shift(b))),
                raw_scale(a.c2, shift(shift(b))),
            ),
            raw_scale(a.c3, shift(shift(shift(b)))),
        ),
        raw_scale(a.c4, shift(shift(shift(shift(b))))),
    )
}

/// The coefficients of an element with each multiplied by an integer of
/// its own.
pub open spec fn twist(a: Fp5, w1: int, w2: int, w3: int, w4: int) -> Fp5 {
    Fp5 { c0: a.c0, c1: a.c1 * w1, c2: a.c2 * w2, c3: a.c3 * w3, c4: a.c4 * w4 }
}

/// A factor three may be pulled out of a product.
proof fn lemma_pull_three(x: int, y: int)
    ensures
        x * (3 * y) == 3 * (x * y),
        (3 * x) * y == 3 * (x * y),
{
    lemma_mul_is_associative(x, 3, y);
    lemma_mul_is_associative(3, x, y);
    lemma_mul_is_commutative(x, 3);
}

/// A factor may be moved past a factor three.
proof fn lemma_scale_three(k: int, t: int)
    ensures
        k * (3 * t) == 3 * (k * t),
{
    lemma_pull_three(k, t);
}

/// A factor distributes over a row with one plain term.
proof fn lemma_scale_row1(k: int, t0: int, t1: int, t2: int, t3: int, t4: int)
    ensures
        k * (t0 + 3 * (t1 + t2 + t3 + t4)) == k * t0 + 3 * (k * t1 + k * t2 + k * t3 + k * t4),
{
    lemma_mul_is_distributive_add(k, t1, t2);
    lemma_mul_is_distributive_add(k, t1 + t2, t3);
    lemma_mul_is_distributive_add(k, t1 + t2 + t3, t4);
    lemma_scale_three(k, t1 + t2 + t3 + t4);
    lemma_mul_is_distributive_add(k, t0, 3 * (t1 + t2 + t3 + t4));
}

/// A factor distributes over a row with two plain terms.
proof fn lemma_scale_row2(k: int, t0: int, t1: int, t2: int, t3: int, t4: int)
    ensures
        k * (t0 + t1 + 3 * (t2 + t3 + t4)) == k * t0 + k * t1 + 3 * (k * t2 + k * t3 + k * t4),
{
    lemma_mul_is_distributive_add(k, t0, t1);
    lemma_mul_is_distributive_add(k, t2, t3);
    lemma_mul_is_distributive_add(k, t2 + t3, t4);
    lemma_scale_three(k, t2 + t3 + t4);
    lemma_mul_is_distributive_add(k, t0 + t1, 3 * (t2 + t3 + t4));
}

/// A factor distributes over a row with three plain terms.
proof fn lemma_scale_row3(k: int, t0: int, t1: int, t2: int, t3: int, t4: int)
    ensures
        k * (t0 + t1 + t2 + 3 * (t3 + t4)) == k * t0 + k * t1 + k * t2 + 3 * (k * t3 + k * t4),
{
    lemma_mul_is_distributive_add(k, t0, t1);
    lemma_mul_is_distributive_add(k, t0 + t1, t2);
    lemma_mul_is_distributive_add(k, t3, t4);
    lemma_scale_three(k, t3 + t4);
    lemma_mul_is_distributive_add(k, t0 + t1 + t2, 3 * (t3 + t4));
}

/// A factor distributes over a row with four plain terms.
proof fn lemma_scale_row4(k: int, t0: int, t1: int, t2: int, t3: int, t4: int)
    ensures
        k * (t0 + t1 + t2 + t3 + 3 * (t4)) == k * t0 + k * t1 + k * t2 + k * t3 + 3 * (k * t4),
{
    lemma_mul_is_distributive_add(k, t0, t1);
    lemma_mul_is_distributive_add(k, t0 + t1, t2);
    lemma_mul_is_distributive_add(k, t0 + t1 + t2, t3);
    lemma_scale_three(k, t4);
    lemma_mul_is_distributive_add(k, t0 + t1 + t2 + t3, 3 * (t4));
}

/// A factor distributes over a row of plain terms.
proof fn lemma_scale_row5(k: int, t0: int, t1: int, t2: int, t3: int, t4: int)
    ensures
        k * (t0 + t1 + t2 + t3 + t4) == k * t0 + k * t1 + k * t2 + k * t3 + k * t4,
{
    lemma_mul_is_distributive_add(k, t0, t1);
    lemma_mul_is_distributive_add(k, t0 + t1, t2);
    lemma_mul_is_distributive_add(k, t0 + t1 + t2, t3);
    lemma_mul_is_distributive_add(k, t0 + t1 + t2 + t3, t4);
}

/// The integer product is the combination of the shifts of the second
/// factor with the coefficients of the first.
proof fn lemma_raw_mul_by_shifts(a: Fp5, b: Fp5)
    ensures
        raw_mul(a, b) == by_shifts(a, b),
{

    lemma_pull_three(a.c1, b.c4);
    lemma_pull_three(a.c2, b.c3);
    lemma_pull_three(a.c3, b.c2);
    lemma_pull_three(a.c4, b.c1);
    lemma_pull_three(a.c2, b.c4);
    lemma_pull_three(a.c3, b.c3);
    lemma_pull_three(a.c4, b.c2);
    lemma_pull_three(a.c3, b.c4);
    lemma_pull_three(a.c4, b.c3);
    lemma_pull_three(a.c4, b.c4);
}

/// Shifting the first factor shifts the integer product.
proof fn lemma_raw_mul_shift(b: Fp5, c: Fp5)
    ensures
        raw_mul(shift(b), c) == shift(raw_mul(b, c)),
{

    lemma_pull_three(b.c4, c.c0);
    lemma_pull_three(b.c4, c.c1);
    lemma_pull_three(b.c4, c.c2);
    lemma_pull_three(b.c4, c.c3);
    lemma_pull_three(b.c4, c.c4);
}

/// The integer product is additive in its first factor.
proof fn lemma_raw_mul_adds(x: Fp5, y: Fp5, c: Fp5)
    ensures
        raw_mul(raw_add(x, y), c) == raw_add(raw_mul(x, c), raw_mul(y, c)),
{

    lemma_mul_is_distributive_add_other_way(c.c0, x.c0, y.c0);
    lemma_mul_is_distributive_add_other_way(c.c1, x.c0, y.c0);
    lemma_mul_is_distributive_add_other_way(c.c2, x.c0, y.c0);
    lemma_mul_is_distributive_add_other_way(c.c3, x.c0, y.c0);
    lemma_mul_is_distributive_add_other_way(c.c4, x.c0, y.c0);
    lemma_mul_is_distributive_add_other_way(c.c0, x.c1, y.c1);
    lemma_mul_is_distributive_add_other_way(c.c1, x.c1, y.c1);
    lemma_mul_is_distributive_add_other_way(c.c2, x.c1, y.c1);
    lemma_mul_is_distributive_add_other_way(c.c3, x.c1, y.c1);
    lemma_mul_is_distributive_add_other_way(c.c4, x.c1, y.c1);
    lemma_mul_is_distributive_add_other_way(c.c0, x.c2, y.c2);
    lemma_mul_is_distributive_add_other_way(c.c1, x.c2, y.c2);
    lemma_mul_is_distributive_add_other_way(c.c2, x.c2, y.c2);
    lemma_mul_is_distributive_add_other_way(c.c3, x.c2, y.c2);
    lemma_mul_is_distributive_add_other_way(c.c4, x.c2, y.c2);
    lemma_mul_is_distributive_add_other_way(c.c0, x.c3, y.c3);
    lemma_mul_is_distributive_add_other_way(c.c1, x.c3, y.c3);
    lemma_mul_is_distributive_add_other_way(c.c2, x.c3, y.c3);
    lemma_mul_is_distributive_add_other_way(c.c3, x.c3, y.c3);
    lemma_mul_is_distributive_add_other_way(c.c4, x.c3, y.c3);
    lemma_mul_is_distributive_add_other_way(c.c0, x.c4, y.c4);
    lemma_mul_is_distributive_add_other_way(c.c1, x.c4, y.c4);
    lemma_mul_is_distributive_add_other_way(c.c2, x.c4, y.c4);
    lemma_mul_is_distributive_add_other_way(c.c3, x.c4, y.c4);
    lemma_mul_is_distributive_add_other_way(c.c4, x.c4, y.c4);
}

/// An integer factor of the first factor may be pulled out of the integer
/// product.
proof fn lemma_raw_mul_scales(k: int, x: Fp5, c: Fp5)
    ensures
        raw_mul(raw_scale(k, x), c) == raw_scale(k, raw_mul(x, c)),
{

    lemma_mul_is_associative(k, x.c0, c.c0);
    lemma_mul_is_associative(k, x.c0, c.c1);
    lemma_mul_is_associative(k, x.c0, c.c2);
    lemma_mul_is_associative(k, x.c0, c.c3);
    lemma_mul_is_associative(k, x.c0, c.c4);
    lemma_mul_is_associative(k, x.c1, c.c0);
    lemma_mul_is_associative(k, x.c1, c.c1);
    lemma_mul_is_associative(k, x.c1, c.c2);
    lemma_mul_is_associative(k, x.c1, c.c3);
    lemma_mul_is_associative(k, x.c1, c.c4);
    lemma_mul_is_associative(k, x.c2, c.c0);
    lemma_mul_is_associative(k, x.c2, c.c1);
    lemma_mul_is_associative(k, x.c2, c.c2);
    lemma_mul_is_associative(k, x.c2, c.c3);
    lemma_mul_is_associative(k, x.c2, c.c4);
    lemma_mul_is_associative(k, x.c3, c.c0);
    lemma_mul_is_associative(k, x.c3, c.c1);
    lemma_mul_is_associative(k, x.c3, c.c2);
    lemma_mul_is_associative(k, x.c3, c.c3);
    lemma_mul_is_associative(k, x.c3, c.c4);
    lemma_mul_is_associative(k, x.c4, c.c0);
    lemma_mul_is_associative(k, x.c4, c.c1);
    lemma_mul_is_associative(k, x.c4, c.c2);
    lemma_mul_is_associative(k, x.c4, c.c3);
    lemma_mul_is_associative(k, x.c4, c.c4);
    lemma_scale_row1(k, x.c0 * c.c0, x.c1 * c.c4, x.c2 * c.c3, x.c3 * c.c2, x.c4 * c.c1);
    lemma_scale_row2(k, x.c0 * c.c1, x.c1 * c.c0, x.c2 * c.c4, x.c3 * c.c3, x.c4 * c.c2);
    lemma_scale_row3(k, x.c0 * c.c2, x.c1 * c.c1, x.c2 * c.c0, x.c3 * c.c4, x.c4 * c.c3);
    lemma_scale_row4(k, x.c0 * c.c3, x.c1 * c.c2, x.c2 * c.c1, x.c3 * c.c0, x.c4 * c.c4);
    lemma_scale_row5(k, x.c0 * c.c4, x.c1 * c.c3, x.c2 * c.c2, x.c3 * c.c1, x.c4 * c.c0);
}

/// The integer product is associative.
pub proof fn lemma_raw_mul_associative(a: Fp5, b: Fp5, c: Fp5)
    ensures
        raw_mul(raw_mul(a, b), c) == raw_mul(a, raw_mul(b, c)),
{
    let s1 = shift(b);
    let s2 = shift(s1);
    let s3 = shift(s2);
    let s4 = shift(s3);
    let t0 = raw_scale(a.c0, b);
    let t1 = raw_scale(a.c1, s1);
    let t2 = raw_scale(a.c2, s2);
    let t3 = raw_scale(a.c3, s3);
    let t4 = raw_scale(a.c4, s4);
    let d = raw_mul(b, c);
    // the product a * b, term by term, times c
    lemma_raw_mul_by_shifts(a, b);
    lemma_raw_mul_adds(raw_add(raw_add(raw_add(t0, t1), t2), t3), t4, c);
    lemma_raw_mul_adds(raw_add(raw_add(t0, t1), t2), t3, c);
    lemma_raw_mul_adds(raw_add(t0, t1), t2, c);
    lemma_raw_mul_adds(t0, t1, c);
    lemma_raw_mul_scales(a.c0, b, c);
    lemma_raw_mul_scales(a.c1, s1, c);
    lemma_raw_mul_scales(a.c2, s2, c);
    lemma_raw_mul_scales(a.c3, s3, c);
    lemma_raw_mul_scales(a.c4, s4, c);
    // shifting commutes with the product by c
    lemma_raw_mul_shift(b, c);
    lemma_raw_mul_shift(s1, c);
    lemma_raw_mul_shift(s2, c);
    lemma_raw_mul_shift(s3, c);
    assert(raw_mul(raw_mul(a, b), c) == by_shifts(a, d));
    lemma_raw_mul_by_shifts(a, d);
}

/// The integer product is commutative.
pub proof fn lemma_raw_mul_commutative(a: Fp5, b: Fp5)
    ensures
        raw_mul(a, b) == raw_mul(b, a),
{
}

/// Five congruent pairs have congruent sums.
proof fn lemma_sum_congruent(
    u0: int,
    u1: int,
    u2: int,
    u3: int,
    u4: int,
    v0: int,
    v1: int,
    v2: int,
    v3: int,
    v4: int,
)
    requires
        u0 % modulus() == v0 % modulus(),
        u1 % modulus() == v1 % modulus(),
        u2 % modulus() == v2 % modulus(),
        u3 % modulus() == v3 % modulus(),
        u4 % modulus() == v4 % modulus(),
    ensures
        (u0 + u1 + u2 + u3 + u4) % modulus() == (v0 + v1 + v2 + v3 + v4) % modulus(),
{
    let p = modulus();
    lemma_add_mod_noop(u0, u1, p);
    lemma_add_mod_noop(v0, v1, p);
    lemma_add_mod_noop(u0 + u1, u2, p);
    lemma_add_mod_noop(v0 + v1, v2, p);
    lemma_add_mod_noop(u0 + u1 + u2, u3, p);
    lemma_add_mod_noop(v0 + v1 + v2, v3, p);
    lemma_add_mod_noop(u0 + u1 + u2 + u3, u4, p);
    lemma_add_mod_noop(v0 + v1 + v2 + v3, v4, p);
}

/// A congruence may be multiplied by three.
proof fn lemma_triple_congruent(u: int, v: int)
    requires
        u % modulus() == v % modulus(),
    ensures
        (3 * u) % modulus() == (3 * v) % modulus(),
{
    lemma_mul_mod_noop_right(3, u, modulus());
    lemma_mul_mod_noop_right(3, v, modulus());
}

/// Coordinate-wise congruent factors give congruent integer products.
proof fn lemma_raw_mul_congruent(a: Fp5, b: Fp5, c: Fp5, d: Fp5)
    requires
        ext_reduce(a) == ext_reduce(c),
        ext_reduce(b) == ext_reduce(d),
    ensures
        ext_reduce(raw_mul(a, b)) == ext_reduce(raw_mul(c, d)),
{
    let p = modulus();

    lemma_mul_mod_noop_general(a.c0, b.c0, p);
    lemma_mul_mod_noop_general(c.c0, d.c0, p);
    lemma_mul_mod_noop_general(a.c0, b.c1, p);
    lemma_mul_mod_noop_general(c.c0, d.c1, p);
    lemma_mul_mod_noop_general(a.c0, b.c2, p);
    lemma_mul_mod_noop_general(c.c0, d.c2, p);
    lemma_mul_mod_noop_general(a.c0, b.c3, p);
    lemma_mul_mod_noop_general(c.c0, d.c3, p);
    lemma_mul_mod_noop_general(a.c0, b.c4, p);
    lemma_mul_mod_noop_general(c.c0, d.c4, p);
    lemma_mul_mod_noop_general(a.c1, b.c0, p);
    lemma_mul_mod_noop_general(c.c1, d.c0, p);
    lemma_mul_mod_noop_general(a.c1, b.c1, p);
    lemma_mul_mod_noop_general(c.c1, d.c1, p);
    lemma_mul_mod_noop_general(a.c1, b.c2, p);
    lemma_mul_mod_noop_general(c.c1, d.c2, p);
    lemma_mul_mod_noop_general(a.c1, b.c3, p);
    lemma_mul_mod_noop_general(c.c1, d.c3, p);
    lemma_mul_mod_noop_general(a.c1, b.c4, p);
    lemma_mul_mod_noop_general(c.c1, d.c4, p);
    lemma_mul_mod_noop_general(a.c2, b.c0, p);
    lemma_mul_mod_noop_general(c.c2, d.c0, p);
    lemma_mul_mod_noop_general(a.c2, b.c1, p);
    lemma_mul_mod_noop_general(c.c2, d.c1, p);
    lemma_mul_mod_noop_general(a.c2, b.c2, p);
    lemma_mul_mod_noop_general(c.c2, d.c2, p);
    lemma_mul_mod_noop_general(a.c2, b.c3, p);
    lemma_mul_mod_noop_general(c.c2, d.c3, p);
    lemma_mul_mod_noop_general(a.c2, b.c4, p);
    lemma_mul_mod_noop_general(c.c2, d.c4, p);
    lemma_mul_mod_noop_general(a.c3, b.c0, p);
    lemma_mul_mod_noop_general(c.c3, d.c0, p);
    lemma_mul_mod_noop_general(a.c3, b.c1, p);
    lemma_mul_mod_noop_general(c.c3, d.c1, p);
    lemma_mul_mod_noop_general(a.c3, b.c2, p);
    lemma_mul_mod_noop_general(c.c3, d.c2, p);
    lemma_mul_mod_noop_general(a.c3, b.c3, p);
    lemma_mul_mod_noop_general(c.c3, d.c3, p);
    lemma_mul_mod_noop_general(a.c3, b.c4, p);
    lemma_mul_mod_noop_general(c.c3, d.c4, p);
    lemma_mul_mod_noop_general(a.c4, b.c0, p);
    lemma_mul_mod_noop_general(c.c4, d.c0, p);
    lemma_mul_mod_noop_general(a.c4, b.c1, p);
    lemma_mul_mod_noop_general(c.c4, d.c1, p);
    lemma_mul_mod_noop_general(a.c4, b.c2, p);
    lemma_mul_mod_noop_general(c.c4, d.c2, p);
    lemma_mul_mod_noop_general(a.c4, b.c3, p);
    lemma_mul_mod_noop_general(c.c4, d.c3, p);
    lemma_mul_mod_noop_general(a.c4, b.c4, p);
    lemma_mul_mod_noop_general(c.c4, d.c4, p);
    lemma_triple_congruent(a.c1 * b.c4, c.c1 * d.c4);
    lemma_triple_congruent(a.c2 * b.c3, c.c2 * d.c3);
    lemma_triple_congruent(a.c3 * b.c2, c.c3 * d.c2);
    lemma_triple_congruent(a.c4 * b.c1, c.c4 * d.c1);
    lemma_sum_congruent(a.c0 * b.c0, 3 * (a.c1 * b.c4), 3 * (a.c2 * b.c3), 3 * (a.c3 * b.c2), 3 * (a.c4 * b.c1), c.c0 * d.c0, 3 * (c.c1 * d.c4), 3 * (c.c2 * d.c3), 3 * (c.c3 * d.c2), 3 * (c.c4 * d.c1));
    lemma_triple_congruent(a.c2 * b.c4, c.c2 * d.c4);
    lemma_triple_congruent(a.c3 * b.c3, c.c3 * d.c3);
    lemma_triple_congruent(a.c4 * b.c2, c.c4 * d.c2);
    lemma_sum_congruent(a.c0 * b.c1, a.c1 * b.c0, 3 * (a.c2 * b.c4), 3 * (a.c3 * b.c3), 3 * (a.c4 * b.c2), c.c0 * d.c1, c.c1 * d.c0, 3 * (c.c2 * d.c4), 3 * (c.c3 * d.c3), 3 * (c.c4 * d.c2));
    lemma_triple_congruent(a.c3 * b.c4, c.c3 * d.c4);
    lemma_triple_congruent(a.c4 * b.c3, c.c4 * d.c3);
    lemma_sum_congruent(a.c0 * b.c2, a.c1 * b.c1, a.c2 * b.c0, 3 * (a.c3 * b.c4), 3 * (a.c4 * b.c3), c.c0 * d.c2, c.c1 * d.c1, c.c2 * d.c0, 3 * (c.c3 * d.c4), 3 * (c.c4 * d.c3));
    lemma_triple_congruent(a.c4 * b.c4, c.c4 * d.c4);
    lemma_sum_congruent(a.c0 * b.c3, a.c1 * b.c2, a.c2 * b.c1, a.c3 * b.c0, 3 * (a.c4 * b.c4), c.c0 * d.c3, c.c1 * d.c2, c.c2 * d.c1, c.c3 * d.c0, 3 * (c.c4 * d.c4));
    lemma_sum_congruent(a.c0 * b.c4, a.c1 * b.c3, a.c2 * b.c2, a.c3 * b.c1, a.c4 * b.c0, c.c0 * d.c4, c.c1 * d.c3, c.c2 * d.c2, c.c3 * d.c1, c.c4 * d.c0);
}

/// Reduction is idempotent.
proof fn lemma_reduce_twice(a: Fp5)
    ensures
        ext_reduce(ext_reduce(a)) == ext_reduce(a),
{
    let p = modulus();
    lemma_mod_twice(a.c0, p);
    lemma_mod_twice(a.c1, p);
    lemma_mod_twice(a.c2, p);
    lemma_mod_twice(a.c3, p);
    lemma_mod_twice(a.c4, p);
}

/// Multiplication in the extension is associative.
pub proof fn lemma_ext_mul_associative(a: Fp5, b: Fp5, c: Fp5)
    ensures
        ext_mul(ext_mul(a, b), c) == ext_mul(a, ext_mul(b, c)),
{
    let ab = raw_mul(a, b);
    let bc = raw_mul(b, c);
    lemma_reduce_twice(ab);
    lemma_reduce_twice(bc);
    lemma_raw_mul_congruent(ext_reduce(ab), c, ab, c);
    lemma_raw_mul_congruent(a, ext_reduce(bc), a, bc);
    lemma_raw_mul_associative(a, b, c);
}

/// Multiplication in the extension is commutative.
pub proof fn lemma_ext_mul_commutative(a: Fp5, b: Fp5)
    ensures
        ext_mul(a, b) == ext_mul(b, a),
{
    lemma_raw_mul_commutative(a, b);
}

/// The powers of the fifth root of unity multiply as their exponents add
/// modulo five.
proof fn lemma_frobenius_roots()
    ensures
        ((FROBENIUS_1 as int) * (FROBENIUS_1 as int)) % modulus() == (FROBENIUS_2 as int),
        ((FROBENIUS_1 as int) * (FROBENIUS_2 as int)) % modulus() == (FROBENIUS_3 as int),
        ((FROBENIUS_1 as int) * (FROBENIUS_3 as int)) % modulus() == (FROBENIUS_4 as int),
        ((FROBENIUS_1 as int) * (FROBENIUS_4 as int)) % modulus() == 1,
        ((FROBENIUS_2 as int) * (FROBENIUS_2 as int)) % modulus() == (FROBENIUS_4 as int),
        ((FROBENIUS_2 as int) * (FROBENIUS_3 as int)) % modulus() == 1,
        ((FROBENIUS_2 as int) * (FROBENIUS_4 as int)) % modulus() == (FROBENIUS_1 as int),
        ((FROBENIUS_3 as int) * (FROBENIUS_3 as int)) % modulus() == (FROBENIUS_1 as int),
        ((FROBENIUS_3 as int) * (FROBENIUS_4 as int)) % modulus() == (FROBENIUS_2 as int),
        ((FROBENIUS_4 as int) * (FROBENIUS_4 as int)) % modulus() == (FROBENIUS_3 as int),
{
}

/// The Frobenius map is the twist by the powers of the root, reduced.
proof fn lemma_frobenius_is_twist(a: Fp5)
    ensures
        ext_frobenius(a) == ext_reduce(
            twist(
                a,
                FROBENIUS_1 as int,
                FROBENIUS_2 as int,
                FROBENIUS_3 as int,
                FROBENIUS_4 as int,
            ),
        ),
{
}

/// The twist of a reduced element is congruent to the twist of the
/// element.
proof fn lemma_twist_congruent(a: Fp5, w1: int, w2: int, w3: int, w4: int)
    ensures
        ext_reduce(twist(ext_reduce(a), w1, w2, w3, w4)) == ext_reduce(twist(a, w1, w2, w3, w4)),
{
    let p = modulus();
    lemma_mod_twice(a.c0, p);
    lemma_mul_mod_noop_left(a.c1, w1, p);
    lemma_mul_mod_noop_left(a.c2, w2, p);
    lemma_mul_mod_noop_left(a.c3, w3, p);
    lemma_mul_mod_noop_left(a.c4, w4, p);
}

/// A product of two twisted coefficients is the twisted product of the
/// coefficients, where the two weights multiply to the third.
proof fn lemma_twisted_term(x: int, wi: int, y: int, wj: int, wk: int)
    requires
        (wi * wj) % modulus() == wk % modulus(),
    ensures
        ((x * wi) * (y * wj)) % modulus() == (wk * (x * y)) % modulus(),
{
    let p = modulus();
    lemma_mul_is_associative(x, wi, y * wj);
    lemma_mul_is_associative(wi, y, wj);
    lemma_mul_is_commutative(wi, y);
    lemma_mul_is_associative(y, wi, wj);
    lemma_mul_is_associative(x, y, wi * wj);
    lemma_mul_is_commutative(x * y, wi * wj);
    assert((x * wi) * (y * wj) == (wi * wj) * (x * y));
    lemma_mul_mod_noop_left(wi * wj, x * y, p);
    lemma_mul_mod_noop_left(wk, x * y, p);
}

/// A twisted coefficient times a plain one.
proof fn lemma_twisted_left(x: int, wi: int, y: int)
    ensures
        (x * wi) * y == wi * (x * y),
        y * (x * wi) == wi * (y * x),
{
    lemma_mul_is_associative(x, wi, y);
    lemma_mul_is_commutative(wi, y);
    lemma_mul_is_associative(x, y, wi);
    lemma_mul_is_commutative(x * y, wi);
    lemma_mul_is_commutative(y, x * wi);
    lemma_mul_is_commutative(x, y);
}

/// The integer product of two twisted elements is congruent to the twisted
/// integer product.
proof fn lemma_raw_mul_twisted(a: Fp5, b: Fp5)
    ensures
        ext_reduce(
            raw_mul(
                twist(
                    a,
                    FROBENIUS_1 as int,
                    FROBENIUS_2 as int,
                    FROBENIUS_3 as int,
                    FROBENIUS_4 as int,
                ),
                twist(
                    b,
                    FROBENIUS_1 as int,
                    FROBENIUS_2 as int,
                    FROBENIUS_3 as int,
                    FROBENIUS_4 as int,
                ),
            ),
        ) == ext_reduce(
            twist(
                raw_mul(a, b),
                FROBENIUS_1 as int,
                FROBENIUS_2 as int,
                FROBENIUS_3 as int,
                FROBENIUS_4 as int,
            ),
        ),
{
    let p = modulus();
    let w1 = FROBENIUS_1 as int;
    let w2 = FROBENIUS_2 as int;
    let w3 = FROBENIUS_3 as int;
    let w4 = FROBENIUS_4 as int;
    lemma_frobenius_roots();
    // coefficient 0
    lemma_twisted_term(a.c1, w1, b.c4, w4, 1);
    assert(1 * (a.c1 * b.c4) == a.c1 * b.c4);
    lemma_triple_congruent((a.c1 * w1) * (b.c4 * w4), a.c1 * b.c4);
    lemma_twisted_term(a.c2, w2, b.c3, w3, 1);
    assert(1 * (a.c2 * b.c3) == a.c2 * b.c3);
    lemma_triple_congruent((a.c2 * w2) * (b.c3 * w3), a.c2 * b.c3);
    lemma_twisted_term(a.c3, w3, b.c2, w2, 1);
    assert(1 * (a.c3 * b.c2) == a.c3 * b.c2);
    lemma_triple_congruent((a.c3 * w3) * (b.c2 * w2), a.c3 * b.c2);
    lemma_twisted_term(a.c4, w4, b.c1, w1, 1);
    assert(1 * (a.c4 * b.c1) == a.c4 * b.c1);
    lemma_triple_congruent((a.c4 * w4) * (b.c1 * w1), a.c4 * b.c1);
    lemma_sum_congruent(a.c0 * b.c0, 3 * ((a.c1 * w1) * (b.c4 * w4)), 3 * ((a.c2 * w2) * (b.c3 * w3)), 3 * ((a.c3 * w3) * (b.c2 * w2)), 3 * ((a.c4 * w4) * (b.c1 * w1)), a.c0 * b.c0, 3 * (a.c1 * b.c4), 3 * (a.c2 * b.c3), 3 * (a.c3 * b.c2), 3 * (a.c4 * b.c1));
    // coefficient 1
    lemma_twisted_left(b.c1, w1, a.c0);
    lemma_twisted_left(a.c1, w1, b.c0);
    lemma_twisted_term(a.c2, w2, b.c4, w4, w1);
    lemma_triple_congruent((a.c2 * w2) * (b.c4 * w4), w1 * (a.c2 * b.c4));
    lemma_twisted_term(a.c3, w3, b.c3, w3, w1);
    lemma_triple_congruent((a.c3 * w3) * (b.c3 * w3), w1 * (a.c3 * b.c3));
    lemma_twisted_term(a.c4, w4, b.c2, w2, w1);
    lemma_triple_congruent((a.c4 * w4) * (b.c2 * w2), w1 * (a.c4 * b.c2));
    lemma_sum_congruent(a.c0 * (b.c1 * w1), (a.c1 * w1) * b.c0, 3 * ((a.c2 * w2) * (b.c4 * w4)), 3 * ((a.c3 * w3) * (b.c3 * w3)), 3 * ((a.c4 * w4) * (b.c2 * w2)), w1 * (a.c0 * b.c1), w1 * (a.c1 * b.c0), 3 * (w1 * (a.c2 * b.c4)), 3 * (w1 * (a.c3 * b.c3)), 3 * (w1 * (a.c4 * b.c2)));
    lemma_scale_row2(w1, a.c0 * b.c1, a.c1 * b.c0, a.c2 * b.c4, a.c3 * b.c3, a.c4 * b.c2);
    lemma_mul_is_commutative(raw_mul(a, b).c1, w1);
    // coefficient 2
    lemma_twisted_left(b.c2, w2, a.c0);
    lemma_twisted_term(a.c1, w1, b.c1, w1, w2);
    lemma_twisted_left(a.c2, w2, b.c0);
    lemma_twisted_term(a.c3, w3, b.c4, w4, w2);
    lemma_triple_congruent((a.c3 * w3) * (b.c4 * w4), w2 * (a.c3 * b.c4));
    lemma_twisted_term(a.c4, w4, b.c3, w3, w2);
    lemma_triple_congruent((a.c4 * w4) * (b.c3 * w3), w2 * (a.c4 * b.c3));
    lemma_sum_congruent(a.c0 * (b.c2 * w2), (a.c1 * w1) * (b.c1 * w1), (a.c2 * w2) * b.c0, 3 * ((a.c3 * w3) * (b.c4 * w4)), 3 * ((a.c4 * w4) * (b.c3 * w3)), w2 * (a.c0 * b.c2), w2 * (a.c1 * b.c1), w2 * (a.c2 * b.c0), 3 * (w2 * (a.c3 * b.c4)), 3 * (w2 * (a.c4 * b.c3)));
    lemma_scale_row3(w2, a.c0 * b.c2, a.c1 * b.c1, a.c2 * b.c0, a.c3 * b.c4, a.c4 * b.c3);
    lemma_mul_is_commutative(raw_mul(a, b).c2, w2);
    // coefficient 3
    lemma_twisted_left(b.c3, w3, a.c0);
    lemma_twisted_term(a.c1, w1, b.c2, w2, w3);
    lemma_twisted_term(a.c2, w2, b.c1, w1, w3);
    lemma_twisted_left(a.c3, w3, b.c0);
    lemma_twisted_term(a.c4, w4, b.c4, w4, w3);
    lemma_triple_congruent((a.c4 * w4) * (b.c4 * w4), w3 * (a.c4 * b.c4));
    lemma_sum_congruent(a.c0 * (b.c3 * w3), (a.c1 * w1) * (b.c2 * w2), (a.c2 * w2) * (b.c1 * w1), (a.c3 * w3) * b.c0, 3 * ((a.c4 * w4) * (b.c4 * w4)), w3 * (a.c0 * b.c3), w3 * (a.c1 * b.c2), w3 * (a.c2 * b.c1), w3 * (a.c3 * b.c0), 3 * (w3 * (a.c4 * b.c4)));
    lemma_scale_row4(w3, a.c0 * b.c3, a.c1 * b.c2, a.c2 * b.c1, a.c3 * b.c0, a.c4 * b.c4);
    lemma_mul_is_commutative(raw_mul(a, b).c3, w3);
    // coefficient 4
    lemma_twisted_left(b.c4, w4, a.c0);
    lemma_twisted_term(a.c1, w1, b.c3, w3, w4);
    lemma_twisted_term(a.c2, w2, b.c2, w2, w4);
    lemma_twisted_term(a.c3, w3, b.c1, w1, w4);
    lemma_twisted_left(a.c4, w4, b.c0);
    lemma_sum_congruent(a.c0 * (b.c4 * w4), (a.c1 * w1) * (b.c3 * w3), (a.c2 * w2) * (b.c2 * w2), (a.c3 * w3) * (b.c1 * w1), (a.c4 * w4) * b.c0, w4 * (a.c0 * b.c4), w4 * (a.c1 * b.c3), w4 * (a.c2 * b.c2), w4 * (a.c3 * b.c1), w4 * (a.c4 * b.c0));
    lemma_scale_row5(w4, a.c0 * b.c4, a.c1 * b.c3, a.c2 * b.c2, a.c3 * b.c1, a.c4 * b.c0);
    lemma_mul_is_commutative(raw_mul(a, b).c4, w4);
}

/// The Frobenius map respects multiplication.
pub proof fn lemma_frobenius_multiplicative(a: Fp5, b: Fp5)
    ensures
        ext_frobenius(ext_mul(a, b)) == ext_mul(ext_frobenius(a), ext_frobenius(b)),
{
    let w1 = FROBENIUS_1 as int;
    let w2 = FROBENIUS_2 as int;
    let w3 = FROBENIUS_3 as int;
    let w4 = FROBENIUS_4 as int;
    let ta = twist(a, w1, w2, w3, w4);
    let tb = twist(b, w1, w2, w3, w4);
    lemma_frobenius_is_twist(a);
    lemma_frobenius_is_twist(b);
    lemma_frobenius_is_twist(ext_mul(a, b));
    lemma_twist_congruent(raw_mul(a, b), w1, w2, w3, w4);
    lemma_reduce_twice(ta);
    lemma_reduce_twice(tb);
    lemma_raw_mul_congruent(ext_reduce(ta), ext_reduce(tb), ta, tb);
    lemma_raw_mul_twisted(a, b);
}

/// Multiplying by two weights in turn is multiplying by their product.
proof fn lemma_weights_compose(x: int, u: int, v: int, uv: int)
    requires
        (u * v) % modulus() == uv % modulus(),
    ensures
        fp_mul(fp_mul(x, u), v) == fp_mul(x, uv),
{
    let p = modulus();
    lemma_mul_mod_noop_left(x * u, v, p);
    lemma_mul_is_associative(x, u, v);
    lemma_mul_mod_noop_right(x, u * v, p);
    lemma_mul_mod_noop_right(x, uv, p);
}

/// Each coefficient of an element multiplied by a weight of its own, in
/// the field.
pub open spec fn ext_twist(a: Fp5, w1: int, w2: int, w3: int, w4: int) -> Fp5 {
    Fp5 {
        c0: a.c0 % modulus(),
        c1: fp_mul(a.c1, w1),
        c2: fp_mul(a.c2, w2),
        c3: fp_mul(a.c3, w3),
        c4: fp_mul(a.c4, w4),
    }
}

/// Twisting twice is twisting by the products of the weights.
proof fn lemma_twists_compose(
    a: Fp5,
    u1: int,
    u2: int,
    u3: int,
    u4: int,
    v1: int,
    v2: int,
    v3: int,
    v4: int,
    t1: int,
    t2: int,
    t3: int,
    t4: int,
)
    requires
        (u1 * v1) % modulus() == t1 % modulus(),
        (u2 * v2) % modulus() == t2 % modulus(),
        (u3 * v3) % modulus() == t3 % modulus(),
        (u4 * v4) % modulus() == t4 % modulus(),
    ensures
        ext_twist(ext_twist(a, u1, u2, u3, u4), v1, v2, v3, v4) == ext_twist(a, t1, t2, t3, t4),
{
    lemma_mod_twice(a.c0, modulus());
    lemma_weights_compose(a.c1, u1, v1, t1);
    lemma_weights_compose(a.c2, u2, v2, t2);
    lemma_weights_compose(a.c3, u3, v3, t3);
    lemma_weights_compose(a.c4, u4, v4, t4);
}

/// Twisting a canonical element by ones changes nothing.
proof fn lemma_twist_by_ones(a: Fp5)
    requires
        a.canonical(),
    ensures
        ext_twist(a, 1, 1, 1, 1) == a,
{
    assert(a.c1 * 1 == a.c1 && a.c2 * 1 == a.c2 && a.c3 * 1 == a.c3 && a.c4 * 1 == a.c4);
}

/// Five applications of the Frobenius map give a canonical element back.
pub proof fn lemma_frobenius_order(a: Fp5)
    requires
        a.canonical(),
    ensures
        ext_frobenius(ext_frobenius(ext_frobenius(ext_frobenius(ext_frobenius(a))))) == a,
{
    let w1 = FROBENIUS_1 as int;
    let w2 = FROBENIUS_2 as int;
    let w3 = FROBENIUS_3 as int;
    let w4 = FROBENIUS_4 as int;
    let f1 = ext_frobenius(a);
    let f2 = ext_frobenius(f1);
    let f3 = ext_frobenius(f2);
    let f4 = ext_frobenius(f3);
    let f5 = ext_frobenius(f4);
    assert(f1 == ext_twist(a, w1, w2, w3, w4));
    assert(f2 == ext_twist(f1, w1, w2, w3, w4));
    assert(f3 == ext_twist(f2, w1, w2, w3, w4));
    assert(f4 == ext_twist(f3, w1, w2, w3, w4));
    assert(f5 == ext_twist(f4, w1, w2, w3, w4));
    lemma_frobenius_roots();
    lemma_twists_compose(a, w1, w2, w3, w4, w1, w2, w3, w4, w2, w4, w1, w3);
    lemma_twists_compose(a, w2, w4, w1, w3, w1, w2, w3, w4, w3, w1, w4, w2);
    lemma_twists_compose(a, w3, w1, w4, w2, w1, w2, w3, w4, w4, w3, w2, w1);
    lemma_twists_compose(a, w4, w3, w2, w1, w1, w2, w3, w4, 1, 1, 1, 1);
    lemma_twist_by_ones(a);
}

/// An element times its conjugates is fixed by the Frobenius map.
pub proof fn lemma_norm_product_fixed(a: Fp5)
    requires
        a.canonical(),
    ensures
        ext_frobenius(ext_mul(a, ext_conjugates(a))) == ext_mul(a, ext_conjugates(a)),
{
    let f1 = ext_frobenius(a);
    let f2 = ext_frobenius(f1);
    let f3 = ext_frobenius(f2);
    let f4 = ext_frobenius(f3);
    let rest = ext_mul(ext_mul(f2, f3), f4);
    lemma_frobenius_order(a);
    // the map sends each factor to the next, and the last to the first
    lemma_frobenius_multiplicative(a, ext_conjugates(a));
    lemma_frobenius_multiplicative(ext_mul(ext_mul(f1, f2), f3), f4);
    lemma_frobenius_multiplicative(ext_mul(f1, f2), f3);
    lemma_frobenius_multiplicative(f1, f2);
    assert(ext_frobenius(ext_mul(a, ext_conjugates(a))) == ext_mul(f1, ext_mul(rest, a)));
    // the same five factors, in another order
    lemma_ext_mul_commutative(rest, a);
    lemma_ext_mul_associative(f1, a, rest);
    lemma_ext_mul_commutative(f1, a);
    lemma_ext_mul_associative(a, f1, rest);
    assert(ext_mul(f1, ext_mul(rest, a)) == ext_mul(a, ext_mul(f1, rest)));
    lemma_ext_mul_associative(f1, ext_mul(f2, f3), f4);
    lemma_ext_mul_associative(f1, f2, f3);
    assert(ext_mul(f1, rest) == ext_conjugates(a));
}

/// A canonical element fixed by the Frobenius map lies in the base field.
pub proof fn lemma_fixed_is_embedded(x: Fp5)
    requires
        x.canonical(),
        ext_frobenius(x) == x,
    ensures
        x == Fp5::embed(x.c0),
{
    let p = modulus();
    lemma_fixed_coefficient(x.c1, FROBENIUS_1 as int);
    lemma_fixed_coefficient(x.c2, FROBENIUS_2 as int);
    lemma_fixed_coefficient(x.c3, FROBENIUS_3 as int);
    lemma_fixed_coefficient(x.c4, FROBENIUS_4 as int);
}

/// A canonical coefficient fixed by multiplication by a weight other than
/// one is zero.
proof fn lemma_fixed_coefficient(c: int, w: int)
    requires
        0 <= c < modulus(),
        1 < w < modulus(),
        fp_mul(c, w) == c,
    ensures
        c == 0,
{
    let p = modulus();
    lemma_mul_is_distributive_sub(c, w, 1);
    assert(c * (w - 1) == c * w - c);
    lemma_fundamental_div_mod(c * w, p);
    let q = (c * w) / p;
    assert(c * (w - 1) == p * q);
    lemma_mod_multiples_basic(q, p);
    lemma_mul_is_commutative(p, q);
    assert(fp_mul(c, w - 1) == 0);
    lemma_no_zero_divisors(c, w - 1);
    lemma_small_mod(c as nat, p as nat);
    lemma_small_mod((w - 1) as nat, p as nat);
}

/// The norm of a canonical element, embedded, is the element times its
/// conjugates.
pub proof fn lemma_norm_is_product(a: Fp5)
    requires
        a.canonical(),
    ensures
        ext_mul(a, ext_conjugates(a)) == Fp5::embed(ext_norm(a)),
{
    lemma_norm_product_fixed(a);
    lemma_fixed_is_embedded(ext_mul(a, ext_conjugates(a)));
}

/// Scaling is multiplication by an embedded base-field element.
pub proof fn lemma_scale_is_mul(a: Fp5, k: int)
    ensures
        ext_scale(a, k) == ext_mul(a, Fp5::embed(k)),
{
    assert(a.c0 * 0 == 0 && a.c1 * 0 == 0 && a.c2 * 0 == 0 && a.c3 * 0 == 0 && a.c4 * 0 == 0);
}

/// An element of nonzero norm times its `ext_inv` is one.
pub proof fn lemma_ext_inverse(a: Fp5)
    requires
        a.canonical(),
        ext_norm(a) != 0,
    ensures
        ext_mul(a, ext_inv(a)) == Fp5::one(),
{
    let n = ext_norm(a);
    let k = fp_inv(n);
    let conj = ext_conjugates(a);
    lemma_norm_is_product(a);
    lemma_scale_is_mul(conj, k);
    lemma_ext_mul_associative(a, conj, Fp5::embed(k));
    lemma_scale_is_mul(Fp5::embed(n), k);
    lemma_small_mod(n as nat, modulus() as nat);
    lemma_mul_inverse(n);
    assert(0 * k == 0);
}

/// An element of norm zero has `ext_inv` zero; zero is such an element.
pub proof fn lemma_ext_inverse_of_norm_zero(a: Fp5)
    requires
        ext_norm(a) == 0,
    ensures
        ext_inv(a) == Fp5::zero(),
{
    crate::field::lemma_zero_has_no_inverse(0);
    let c = ext_conjugates(a);
    assert(c.c0 * 0 == 0 && c.c1 * 0 == 0 && c.c2 * 0 == 0 && c.c3 * 0 == 0 && c.c4 * 0 == 0);
}

/// The norm of zero is zero.
pub proof fn lemma_norm_of_zero()
    ensures
        ext_norm(Fp5::zero()) == 0,
{
    let c = ext_conjugates(Fp5::zero());
    assert(0 * c.c0 == 0 && 0 * c.c1 == 0 && 0 * c.c2 == 0 && 0 * c.c3 == 0 && 0 * c.c4 == 0);
}

/// Coordinate-wise congruent summands give congruent integer sums.
proof fn lemma_raw_add_congruent(a: Fp5, b: Fp5, c: Fp5, d: Fp5)
    requires
        ext_reduce(a) == ext_reduce(c),
        ext_reduce(b) == ext_reduce(d),
    ensures
        ext_reduce(raw_add(a, b)) == ext_reduce(raw_add(c, d)),
{
    let p = modulus();
    lemma_add_mod_noop(a.c0, b.c0, p);
    lemma_add_mod_noop(c.c0, d.c0, p);
    lemma_add_mod_noop(a.c1, b.c1, p);
    lemma_add_mod_noop(c.c1, d.c1, p);
    lemma_add_mod_noop(a.c2, b.c2, p);
    lemma_add_mod_noop(c.c2, d.c2, p);
    lemma_add_mod_noop(a.c3, b.c3, p);
    lemma_add_mod_noop(c.c3, d.c3, p);
    lemma_add_mod_noop(a.c4, b.c4, p);
    lemma_add_mod_noop(c.c4, d.c4, p);
}

/// Multiplication in the extension distributes over addition.
pub proof fn lemma_ext_mul_distributive(a: Fp5, b: Fp5, c: Fp5)
    ensures
        ext_mul(a, ext_add(b, c)) == ext_add(ext_mul(a, b), ext_mul(a, c)),
        ext_mul(ext_add(b, c), a) == ext_add(ext_mul(b, a), ext_mul(c, a)),
{
    let sum = raw_add(b, c);
    assert(ext_add(b, c) == ext_reduce(sum));
    lemma_reduce_twice(sum);
    lemma_reduce_twice(a);
    // a times the reduced sum, as the integer product with the sum
    lemma_raw_mul_congruent(a, ext_reduce(sum), a, sum);
    lemma_raw_mul_commutative(a, sum);
    lemma_raw_mul_adds(b, c, a);
    lemma_raw_mul_commutative(b, a);
    lemma_raw_mul_commutative(c, a);
    // the sum of the reduced products, as the sum of the integer products
    lemma_reduce_twice(raw_mul(a, b));
    lemma_reduce_twice(raw_mul(a, c));
    lemma_raw_add_congruent(
        ext_reduce(raw_mul(a, b)),
        ext_reduce(raw_mul(a, c)),
        raw_mul(a, b),
        raw_mul(a, c),
    );
    assert(ext_add(ext_mul(a, b), ext_mul(a, c)) == ext_reduce(
        raw_add(ext_reduce(raw_mul(a, b)), ext_reduce(raw_mul(a, c))),
    ));
    lemma_ext_mul_commutative(a, ext_add(b, c));
    lemma_ext_mul_commutative(a, b);
    lemma_ext_mul_commutative(a, c);
}

/// Addition in the extension is associative.
pub proof fn lemma_ext_add_associative(a: Fp5, b: Fp5, c: Fp5)
    ensures
        ext_add(ext_add(a, b), c) == ext_add(a, ext_add(b, c)),
{
    crate::field::lemma_add_associative(a.c0, b.c0, c.c0);
    crate::field::lemma_add_associative(a.c1, b.c1, c.c1);
    crate::field::lemma_add_associative(a.c2, b.c2, c.c2);
    crate::field::lemma_add_associative(a.c3, b.c3, c.c3);
    crate::field::lemma_add_associative(a.c4, b.c4, c.c4);
}

/// Addition in the extension is commutative.
pub proof fn lemma_ext_add_commutative(a: Fp5, b: Fp5)
    ensures
        ext_add(a, b) == ext_add(b, a),
{
}

/// An element and its negation add to zero.
pub proof fn lemma_ext_add_negation(a: Fp5)
    ensures
        ext_add(a, ext_neg(a)) == Fp5::zero(),
{
    let p = modulus();
    lemma_add_mod_noop_right(a.c0, -a.c0, p);
    lemma_add_mod_noop_right(a.c1, -a.c1, p);
    lemma_add_mod_noop_right(a.c2, -a.c2, p);
    lemma_add_mod_noop_right(a.c3, -a.c3, p);
    lemma_add_mod_noop_right(a.c4, -a.c4, p);
}

/// Subtracting is adding the negation.
pub proof fn lemma_ext_sub_is_add_neg(a: Fp5, b: Fp5)
    ensures
        ext_sub(a, b) == ext_add(a, ext_neg(b)),
{
    let p = modulus();
    lemma_add_mod_noop_right(a.c0, -b.c0, p);
    lemma_add_mod_noop_right(a.c1, -b.c1, p);
    lemma_add_mod_noop_right(a.c2, -b.c2, p);
    lemma_add_mod_noop_right(a.c3, -b.c3, p);
    lemma_add_mod_noop_right(a.c4, -b.c4, p);
}

/// Zero is neutral for addition of canonical elements.
pub proof fn lemma_ext_add_zero(a: Fp5)
    requires
        a.canonical(),
    ensures
        ext_add(a, Fp5::zero()) == a,
        ext_add(Fp5::zero(), a) == a,
{
    let p = modulus() as nat;
    lemma_small_mod(a.c0 as nat, p);
    lemma_small_mod(a.c1 as nat, p);
    lemma_small_mod(a.c2 as nat, p);
    lemma_small_mod(a.c3 as nat, p);
    lemma_small_mod(a.c4 as nat, p);
}

/// A product with a negated factor is the negated product.
pub proof fn lemma_ext_mul_neg(a: Fp5, b: Fp5)
    ensures
        ext_mul(a, ext_neg(b)) == ext_neg(ext_mul(a, b)),
        ext_mul(ext_neg(a), b) == ext_neg(ext_mul(a, b)),
{
    // a * b + a * (-b) == a * (b + (-b)) == a * 0 == 0
    lemma_ext_mul_distributive(a, b, ext_neg(b));
    lemma_ext_add_negation(b);
    assert(a.c0 * 0 == 0 && a.c1 * 0 == 0 && a.c2 * 0 == 0 && a.c3 * 0 == 0 && a.c4 * 0 == 0);
    assert(ext_mul(a, Fp5::zero()) == Fp5::zero());
    lemma_negation_unique(ext_mul(a, b), ext_mul(a, ext_neg(b)));
    lemma_ext_mul_distributive(b, a, ext_neg(a));
    lemma_ext_add_negation(a);
    assert(b.c0 * 0 == 0 && b.c1 * 0 == 0 && b.c2 * 0 == 0 && b.c3 * 0 == 0 && b.c4 * 0 == 0);
    assert(ext_mul(b, Fp5::zero()) == Fp5::zero());
    lemma_negation_unique(ext_mul(b, a), ext_mul(b, ext_neg(a)));
    lemma_ext_mul_commutative(b, a);
    lemma_ext_mul_commutative(b, ext_neg(a));
}

/// What adds to zero with a canonical element is its negation.
proof fn lemma_negation_unique(x: Fp5, y: Fp5)
    requires
        x.canonical(),
        y.canonical(),
        ext_add(x, y) == Fp5::zero(),
    ensures
        y == ext_neg(x),
{
    lemma_fp_negation_unique(x.c0, y.c0);
    lemma_fp_negation_unique(x.c1, y.c1);
    lemma_fp_negation_unique(x.c2, y.c2);
    lemma_fp_negation_unique(x.c3, y.c3);
    lemma_fp_negation_unique(x.c4, y.c4);
}

/// In the base field, what adds to zero with `x` is the negation of `x`.
proof fn lemma_fp_negation_unique(x: int, y: int)
    requires
        0 <= x < modulus(),
        0 <= y < modulus(),
        (x + y) % modulus() == 0,
    ensures
        y == (-x) % modulus(),
{
    let p = modulus();
    if x == 0 {
        lemma_small_mod(y as nat, p as nat);
    } else {
        lemma_fundamental_div_mod(x + y, p);
        let q = (x + y) / p;
        assert(q == 1) by (nonlinear_arith)
            requires
                x + y == p * q,
                0 < x + y < 2 * p,
                p > 0,
        ;
        lemma_fundamental_div_mod_converse(-x, p, -1, y);
    }
}

} // verus!
