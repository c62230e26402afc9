//! The quintic extension has no zero divisors.
//!
//! A zero divisor of degree one, `x - b`, makes `b` a fifth root of three:
//! `x - b` divides `x^5 - b^5`, which is `3 - b^5` in the extension. A zero
//! divisor of degree two leaves a remainder of degree at most one when
//! `x^5 - 3` is divided by it, and that remainder is a zero divisor or
//! zero; where it is zero a fifth root of three is read off the divisor.
//! A zero divisor of higher degree has a multiple of degree at most two
//! that is a zero divisor. Three has no fifth root.

use crate::extension::{
    ext_conjugates, ext_frobenius, ext_has_inverse, ext_inv, ext_is_inverse, ext_mul, ext_norm,
    ext_scale, lemma_ext_mul_zero_left, Fp5,
};
use crate::extension_laws::{
    lemma_ext_inverse, lemma_ext_mul_associative, lemma_ext_mul_commutative,
    lemma_frobenius_order, lemma_norm_is_product, lemma_scale_is_mul,
};
use crate::fermat::{lemma_product_nonzero, power_mod};
use crate::field::{
    fp_canonical, fp_inv, fp_mul, fp_neg, lemma_mul_inverse, lemma_no_zero_divisors, modulus,
};
use crate::residue::lemma_three_is_no_fifth_power;
use vstd::arithmetic::div_mod::*;
use vstd::arithmetic::mul::*;
use vstd::arithmetic::power::*;
use vstd::prelude::*;

verus! {

/// The element `c0 + c1 x + c2 x^2`.
pub open spec fn low(c0: int, c1: int, c2: int) -> Fp5 {
    Fp5 { c0: c0, c1: c1, c2: c2, c3: 0, c4: 0 }
}

/// A product with zero is zero.
proof fn lemma_mul_zero(a: Fp5)
    ensures
        ext_mul(a, Fp5::zero()) == Fp5::zero(),
        ext_mul(Fp5::zero(), a) == Fp5::zero(),
{
    lemma_ext_mul_zero_left(a);
    lemma_ext_mul_commutative(a, Fp5::zero());
}

/// A multiple of a zero divisor annihilates what the zero divisor does.
proof fn lemma_multiple_annihilates(q: Fp5, g: Fp5, w: Fp5)
    requires
        ext_mul(g, w) == Fp5::zero(),
    ensures
        ext_mul(ext_mul(q, g), w) == Fp5::zero(),
{
    lemma_ext_mul_associative(q, g, w);
    lemma_mul_zero(q);
}

/// A scaled zero divisor annihilates what the zero divisor does.
proof fn lemma_scaled_annihilates(g: Fp5, k: int, w: Fp5)
    requires
        ext_mul(g, w) == Fp5::zero(),
    ensures
        ext_mul(ext_scale(g, k), w) == Fp5::zero(),
{
    lemma_scale_is_mul(g, k);
    lemma_ext_mul_commutative(g, Fp5::embed(k));
    lemma_multiple_annihilates(Fp5::embed(k), g, w);
}

/// A base-field element that annihilates a nonzero element is zero.
proof fn lemma_scalar_annihilates(t: int, w: Fp5)
    requires
        w.canonical(),
        w != Fp5::zero(),
        ext_mul(Fp5::embed(t), w) == Fp5::zero(),
    ensures
        t % modulus() == 0,
{
    let p = modulus();
    lemma_scale_is_mul(w, t);
    lemma_ext_mul_commutative(w, Fp5::embed(t));
    assert(ext_scale(w, t) == Fp5::zero());
    if w.c0 != 0 {
        lemma_no_zero_divisors(w.c0, t);
        lemma_small_mod(w.c0 as nat, p as nat);
    } else if w.c1 != 0 {
        lemma_no_zero_divisors(w.c1, t);
        lemma_small_mod(w.c1 as nat, p as nat);
    } else if w.c2 != 0 {
        lemma_no_zero_divisors(w.c2, t);
        lemma_small_mod(w.c2 as nat, p as nat);
    } else if w.c3 != 0 {
        lemma_no_zero_divisors(w.c3, t);
        lemma_small_mod(w.c3 as nat, p as nat);
    } else {
        lemma_no_zero_divisors(w.c4, t);
        lemma_small_mod(w.c4 as nat, p as nat);
    }
}

/// A term and the next power times the negated base cancel.
proof fn lemma_step_cancels(lower: int, b: int)
    ensures
        (fp_mul(lower, b) + lower * fp_neg(b)) % modulus() == 0,
{
    let p = modulus();
    lemma_mul_mod_noop_right(lower, -b, p);
    lemma_add_mod_noop(lower * b, lower * (-b), p);
    lemma_mod_twice(lower * b, p);
    lemma_mul_is_distributive_add(lower, b, -b);
    lemma_mul_basics(lower);
    assert(lower * b + lower * (-b) == 0);
    lemma_add_mod_noop(fp_mul(lower, b), lower * fp_neg(b), p);
}

/// The fifth power, as four multiplications in the field.
proof fn lemma_fifth_power(b: int)
    ensures
        power_mod(b, 5) == fp_mul(fp_mul(fp_mul(fp_mul(b, b), b), b), b),
{
    let p = modulus();
    reveal_with_fuel(pow, 6);
    let b2 = b * b;
    let b3 = b2 * b;
    let b4 = b3 * b;
    assert(pow(b, 5) == b4 * b) by {
        lemma_mul_is_commutative(b, b2);
        lemma_mul_is_commutative(b, b3);
        lemma_mul_is_commutative(b, b4);
        lemma_mul_basics(b);
    }
    lemma_mul_mod_noop_left(b2, b, p);
    lemma_mul_mod_noop_left(b3, b, p);
    lemma_mul_mod_noop_left(b4, b, p);
}

/// A polynomial of degree one that annihilates a nonzero element gives a
/// fifth root of three.
proof fn lemma_linear_gives_fifth_root(c0: int, c1: int, w: Fp5)
    requires
        fp_canonical(c0),
        fp_canonical(c1),
        c1 != 0,
        w.canonical(),
        w != Fp5::zero(),
        ext_mul(low(c0, c1, 0), w) == Fp5::zero(),
    ensures
        exists|b: int| power_mod(b, 5) == 3,
{
    let p = modulus();
    let g = low(c0, c1, 0);
    // make the divisor monic: x - b
    lemma_small_mod(c1 as nat, p as nat);
    lemma_mul_inverse(c1);
    let i1 = fp_inv(c1);
    let l = ext_scale(g, i1);
    lemma_scaled_annihilates(g, i1, w);
    assert(0 * i1 == 0);
    let nb = l.c0;
    let b = fp_neg(nb);
    assert(fp_neg(b) == nb) by {
        if nb != 0 {
            lemma_fundamental_div_mod_converse(-nb, p, -1, p - nb);
            lemma_fundamental_div_mod_converse(-(p - nb), p, -1, nb);
        }
    }
    assert(l == low(fp_neg(b), 1, 0));
    // the quotient of x^5 - b^5 by x - b
    let b2 = fp_mul(b, b);
    let b3 = fp_mul(b2, b);
    let b4 = fp_mul(b3, b);
    let b5 = fp_mul(b4, b);
    let q = Fp5 { c0: b4, c1: b3, c2: b2, c3: b, c4: 1 };
    let t = (3 - b5) % p;
    assert(ext_mul(q, l) == Fp5::embed(t)) by {
        lemma_step_cancels(b4, b);
        lemma_step_cancels(b3, b);
        lemma_step_cancels(b2, b);
        lemma_step_cancels(b, b);
        lemma_step_cancels(1, b);
        lemma_mul_basics(b4);
        lemma_mul_basics(b3);
        lemma_mul_basics(b2);
        lemma_mul_basics(b);
        lemma_mul_basics(1);
        lemma_mul_basics(nb);
        lemma_small_mod(b as nat, p as nat);
        lemma_small_mod(b4 as nat, p as nat);
        lemma_small_mod(b3 as nat, p as nat);
        lemma_small_mod(b2 as nat, p as nat);
        let r = ext_mul(q, l);
        assert(r.c0 == (b4 * nb + 3) % p);
        assert(r.c0 == t) by {
            lemma_add_mod_noop(b5 + b4 * nb, 3 - b5, p);
            lemma_small_mod(0, p as nat);
        }
        assert(r.c1 == (b4 + b3 * nb) % p);
        assert(r.c2 == (b3 + b2 * nb) % p);
        assert(r.c3 == (b2 + b * nb) % p);
        assert(r.c4 == (b + nb) % p);
    }
    lemma_multiple_annihilates(q, l, w);
    lemma_scalar_annihilates(t, w);
    lemma_mod_twice(3 - b5, p);
    assert(b5 == 3) by {
        lemma_fundamental_div_mod(3 - b5, p);
        let k = (3 - b5) / p;
        assert(k == 0) by (nonlinear_arith)
            requires
                3 - b5 == p * k,
                0 <= b5 < p,
                p > 3,
        ;
    }
    lemma_fifth_power(b);
    assert(power_mod(b, 5) == 3);
}

/// A combination of three reduced coefficients is congruent to the
/// combination of the coefficients.
proof fn lemma_combination(a0: int, a1: int, a2: int, x0: int, x1: int, x2: int, rest: int)
    ensures
        ((a0 % modulus()) * x0 + (a1 % modulus()) * x1 + (a2 % modulus()) * x2 + rest)
            % modulus() == (a0 * x0 + a1 * x1 + a2 * x2 + rest) % modulus(),
{
    let p = modulus();
    lemma_mul_mod_noop_left(a0, x0, p);
    lemma_mul_mod_noop_left(a1, x1, p);
    lemma_mul_mod_noop_left(a2, x2, p);
    let u0 = (a0 % p) * x0;
    let u1 = (a1 % p) * x1;
    let u2 = (a2 % p) * x2;
    lemma_add_mod_noop(u0, u1, p);
    lemma_add_mod_noop(a0 * x0, a1 * x1, p);
    lemma_add_mod_noop(u0 + u1, u2, p);
    lemma_add_mod_noop(a0 * x0 + a1 * x1, a2 * x2, p);
    lemma_add_mod_noop(u0 + u1 + u2, rest, p);
    lemma_add_mod_noop(a0 * x0 + a1 * x1 + a2 * x2, rest, p);
}

/// The quotient of `x^5 - 3` by `x^2 + s x + v`, reduced.
pub open spec fn quotient(s: int, v: int) -> Fp5 {
    Fp5 {
        c0: (2 * s * v - s * s * s) % modulus(),
        c1: (s * s - v) % modulus(),
        c2: (-s) % modulus(),
        c3: 1,
        c4: 0,
    }
}

/// The quotient times the divisor is the remainder, negated: an element of
/// degree at most one.
proof fn lemma_remainder(s: int, v: int)
    requires
        fp_canonical(s),
        fp_canonical(v),
    ensures
        ({
            let r = ext_mul(quotient(s, v), low(v, s, 1));
            &&& r == low(r.c0, r.c1, 0)
            &&& r.c0 == ((2 * s * v - s * s * s) * v + 3) % modulus()
            &&& r.c1 == ((2 * s * v - s * s * s) * s + (s * s - v) * v) % modulus()
        }),
{
    let p = modulus();
    let q = quotient(s, v);
    let g = low(v, s, 1);
    let r = ext_mul(q, g);
    let a0 = 2 * s * v - s * s * s;
    let a1 = s * s - v;
    let a2 = -s;
    lemma_mul_basics(q.c0);
    lemma_mul_basics(q.c1);
    lemma_mul_basics(q.c2);
    lemma_mul_basics(s);
    lemma_mul_basics(v);
    lemma_mul_basics(1);
    lemma_mul_basics(0);
    assert(r.c0 == (q.c0 * v + 3) % p);
    assert(r.c1 == (q.c0 * s + q.c1 * v) % p);
    assert(r.c2 == (q.c0 + q.c1 * s + q.c2 * v) % p);
    assert(r.c3 == (q.c1 + q.c2 * s + v) % p);
    assert(r.c4 == (q.c2 + s) % p);
    lemma_combination(a0, 0, 0, v, 0, 0, 3);
    lemma_combination(a0, a1, 0, s, v, 0, 0);
    lemma_combination(a0, a1, a2, 1, s, v, 0);
    lemma_combination(a1, a2, 0, 1, s, 0, v);
    lemma_combination(a2, 0, 0, 1, 0, 0, s);
    assert((2 * s * v - s * s * s) * 1 + (s * s - v) * s + (-s) * v + 0 == 0)
        by (nonlinear_arith);
    assert((s * s - v) * 1 + (-s) * s + 0 * 0 + v == 0) by (nonlinear_arith);
    assert((-s) * 1 + 0 * 0 + 0 * 0 + s == 0) by (nonlinear_arith);
    lemma_small_mod(0, p as nat);
}

/// Whether two integers are congruent modulo the field characteristic.
pub open spec fn cong(x: int, y: int) -> bool {
    (x - y) % modulus() == 0
}

/// Congruence is symmetric.
proof fn lemma_cong_sym(x: int, y: int)
    requires
        cong(x, y),
    ensures
        cong(y, x),
{
    let p = modulus();
    lemma_fundamental_div_mod(x - y, p);
    let k = (x - y) / p;
    lemma_mul_is_commutative(p, k);
    lemma_mul_unary_negation(k, p);
    assert(y - x == (-k) * p);
    lemma_mod_multiples_basic(-k, p);
}

/// Congruence is transitive.
proof fn lemma_cong_trans(x: int, y: int, z: int)
    requires
        cong(x, y),
        cong(y, z),
    ensures
        cong(x, z),
{
    lemma_add_mod_noop(x - y, y - z, modulus());
}

/// Congruences may be added and subtracted.
proof fn lemma_cong_add(x: int, y: int, u: int, w: int)
    requires
        cong(x, y),
        cong(u, w),
    ensures
        cong(x + u, y + w),
        cong(x - u, y - w),
{
    let p = modulus();
    lemma_add_mod_noop(x - y, u - w, p);
    lemma_sub_mod_noop(x - y, u - w, p);
}

/// A congruence may be multiplied by an integer.
proof fn lemma_cong_scale(x: int, y: int, k: int)
    requires
        cong(x, y),
    ensures
        cong(k * x, k * y),
{
    let p = modulus();
    lemma_mul_is_distributive_sub(k, x, y);
    lemma_mul_mod_noop_right(k, x - y, p);
    lemma_mul_basics(k);
}

/// Congruent integers have the same remainder.
proof fn lemma_cong_remainder(x: int, y: int)
    requires
        cong(x, y),
    ensures
        x % modulus() == y % modulus(),
{
    let p = modulus();
    lemma_fundamental_div_mod(x - y, p);
    let k = (x - y) / p;
    lemma_mul_is_commutative(p, k);
    lemma_mod_multiples_vanish(k, y, p);
}

/// The square of `b`, where `b s` is congruent to `c` and
/// `c^2 + t c - t^2` to zero, with `t = s^2` not zero: `b^2` is congruent
/// to `t - s b`.
proof fn lemma_golden_square(b: int, s: int, t: int, c: int)
    requires
        t == s * s,
        t % modulus() != 0,
        cong(b * s, c),
        cong(c * c + t * c - t * t, 0),
    ensures
        cong(b * b, t - s * b),
{
    let p = modulus();
    let bs = b * s;
    // c c is (b s)(b s), and t c is t (b s)
    lemma_cong_scale(bs, c, bs);
    lemma_cong_scale(bs, c, c);
    lemma_mul_is_commutative(c, bs);
    lemma_cong_trans(bs * bs, bs * c, c * c);
    lemma_cong_scale(bs, c, t);
    lemma_cong_add(bs * bs, c * c, t * bs, t * c);
    lemma_cong_add(bs * bs + t * bs, c * c + t * c, t * t, t * t);
    lemma_cong_trans(bs * bs + t * bs - t * t, c * c + t * c - t * t, 0);
    // which is t (b b + s b - t)
    assert((b * s) * (b * s) + (s * s) * (b * s) - (s * s) * (s * s) == (s * s) * (b * b + s * b
        - s * s)) by (nonlinear_arith);
    lemma_no_zero_divisors(t, b * b + s * b - t);
}

/// The fifth power of `b`, where `b^2` is congruent to `t - s b` and
/// `t = s^2`: it is congruent to `5 t^2 b - 3 s t^2`.
proof fn lemma_golden_fifth(b: int, s: int, t: int)
    requires
        t == s * s,
        cong(b * b, t - s * b),
    ensures
        cong(b * (b * (b * (b * b))), 5 * ((t * t) * b) - 3 * (s * (t * t))),
{
    let b2 = b * b;
    let b3 = b * b2;
    let b4 = b * b3;
    let b5 = b * b4;
    let r = t - s * b;
    // the cube
    lemma_cong_scale(b2, r, b);
    lemma_cong_scale(b2, r, s);
    assert(b * (t - s * b) == t * b - s * (b * b)) by (nonlinear_arith);
    lemma_cong_add(t * b, t * b, s * b2, s * r);
    lemma_cong_trans(b3, t * b - s * b2, t * b - s * r);
    let c3 = 2 * (t * b) - s * t;
    assert(t * b - s * (t - s * b) == t * b - s * t + (s * s) * b) by (nonlinear_arith);
    assert(t * b - s * r == c3);
    // the fourth power
    lemma_cong_scale(b3, c3, b);
    lemma_cong_scale(b2, r, t);
    lemma_cong_scale(t * b2, t * r, 2);
    assert(b * (2 * (t * b) - s * t) == 2 * (t * (b * b)) - (s * t) * b) by (nonlinear_arith);
    lemma_cong_add(2 * (t * b2), 2 * (t * r), (s * t) * b, (s * t) * b);
    lemma_cong_trans(b4, 2 * (t * b2) - (s * t) * b, 2 * (t * r) - (s * t) * b);
    let c4 = 2 * (t * t) - 3 * ((s * t) * b);
    assert(2 * (t * (t - s * b)) - (s * t) * b == 2 * (t * t) - 3 * ((s * t) * b))
        by (nonlinear_arith);
    // the fifth power
    lemma_cong_scale(b4, c4, b);
    lemma_cong_scale(b2, r, s * t);
    lemma_cong_scale((s * t) * b2, (s * t) * r, 3);
    assert(b * (2 * (t * t) - 3 * ((s * t) * b)) == 2 * ((t * t) * b) - 3 * ((s * t) * (b * b)))
        by (nonlinear_arith);
    lemma_cong_add(2 * ((t * t) * b), 2 * ((t * t) * b), 3 * ((s * t) * b2), 3 * ((s * t) * r));
    lemma_cong_trans(
        b5,
        2 * ((t * t) * b) - 3 * ((s * t) * b2),
        2 * ((t * t) * b) - 3 * ((s * t) * r),
    );
    assert(2 * ((t * t) * b) - 3 * ((s * t) * (t - s * b)) == 2 * ((t * t) * b) - 3 * (s * (t * t))
        + 3 * ((s * s) * (t * b))) by (nonlinear_arith);
    lemma_mul_is_associative(t, t, b);
}

/// The constant term `s^3 v - 2 s v^2`, where `c = t - v`, `t = s^2`,
/// `b s` is congruent to `c` and `c^2 + t c - t^2` to zero: it is
/// congruent to `5 t^2 b - 3 s t^2`.
proof fn lemma_golden_constant(b: int, s: int, t: int, c: int, v: int)
    requires
        t == s * s,
        c == t - v,
        cong(b * s, c),
        cong(c * c + t * c - t * t, 0),
    ensures
        cong(s * s * s * v - 2 * (s * v * v), 5 * ((t * t) * b) - 3 * (s * (t * t))),
{
    let big_b = s * s * s * v - 2 * (s * v * v);
    let cc = c * c;
    let tc = t * c;
    let tt = t * t;
    assert(t * s * (t - c) - 2 * (s * (t - c) * (t - c)) == s * (3 * (t * c) - t * t - 2 * (c * c)))
        by (nonlinear_arith);
    assert(big_b == s * (3 * tc - tt - 2 * cc));
    // c c is congruent to t t - t c
    lemma_cong_add(cc + tc - tt, 0, tt - tc, tt - tc);
    assert(cc + tc - tt + (tt - tc) == cc);
    lemma_cong_scale(cc, tt - tc, 2);
    lemma_cong_add(3 * tc - tt, 3 * tc - tt, 2 * cc, 2 * (tt - tc));
    assert(3 * tc - tt - 2 * (tt - tc) == 5 * tc - 3 * tt);
    lemma_cong_scale(3 * tc - tt - 2 * cc, 5 * tc - 3 * tt, s);
    // s c is congruent to t b
    lemma_mul_is_commutative(b, s);
    lemma_cong_scale(s * b, c, s);
    lemma_cong_sym(s * (s * b), s * c);
    lemma_cong_scale(s * c, s * (s * b), t);
    lemma_cong_scale(t * (s * c), t * (s * (s * b)), 5);
    lemma_cong_add(5 * (t * (s * c)), 5 * (t * (s * (s * b))), 3 * (s * tt), 3 * (s * tt));
    assert(s * (5 * (t * c) - 3 * (t * t)) == 5 * (t * (s * c)) - 3 * (s * (t * t)))
        by (nonlinear_arith);
    lemma_mul_is_associative(s, s, b);
    lemma_mul_is_associative(t, t, b);
    assert(5 * (t * (s * (s * b))) - 3 * (s * tt) == 5 * (tt * b) - 3 * (s * tt));
    lemma_cong_trans(big_b, s * (5 * tc - 3 * tt), 5 * (tt * b) - 3 * (s * tt));
}

/// Where `x^2 + s x + v` divides `x^5 - 3` exactly, `(s^2 - v) / s` is a
/// fifth root of three.
proof fn lemma_quadratic_factor_gives_fifth_root(s: int, v: int)
    requires
        fp_canonical(s),
        fp_canonical(v),
        ((2 * s * v - s * s * s) * v + 3) % modulus() == 0,
        ((2 * s * v - s * s * s) * s + (s * s - v) * v) % modulus() == 0,
    ensures
        exists|b: int| power_mod(b, 5) == 3,
{
    let p = modulus();
    let a0 = 2 * s * v - s * s * s;
    let t = s * s;
    let c = t - v;
    // s is not zero, or three would be
    if s == 0 {
        assert((2 * s * v - s * s * s) * v + 3 == 3) by (nonlinear_arith)
            requires
                s == 0,
        ;
    }
    lemma_small_mod(s as nat, p as nat);
    lemma_product_nonzero(s, s);
    // the two conditions, in terms of c and t
    assert((2 * s * v - s * s * s) * s + (s * s - v) * v == -((s * s - v) * (s * s - v) + (s * s)
        * (s * s - v) - (s * s) * (s * s))) by (nonlinear_arith);
    lemma_neg_congruent_zero(a0 * s + c * v);
    assert(cong(c * c + t * c - t * t, 0));
    let big_b = s * s * s * v - 2 * (s * v * v);
    assert((2 * s * v - s * s * s) * v + 3 == 3 - (s * s * s * v - 2 * (s * v * v)))
        by (nonlinear_arith);
    assert(cong(3, big_b));
    // the root
    lemma_mul_inverse(s);
    let i = fp_inv(s);
    let b = fp_mul(c, i);
    assert(cong(b * s, c)) by {
        lemma_mul_mod_noop_left(c * i, s, p);
        lemma_mul_is_associative(c, i, s);
        lemma_mul_is_commutative(i, s);
        lemma_mul_mod_noop_right(c, s * i, p);
        lemma_mul_basics(c);
        lemma_sub_mod_noop(b * s, c, p);
        lemma_small_mod(0, p as nat);
    }
    lemma_golden_square(b, s, t, c);
    lemma_golden_fifth(b, s, t);
    lemma_golden_constant(b, s, t, c, v);
    let target = 5 * ((t * t) * b) - 3 * (s * (t * t));
    let b5 = b * (b * (b * (b * b)));
    lemma_cong_sym(big_b, target);
    lemma_cong_trans(b5, target, big_b);
    lemma_cong_sym(3, big_b);
    lemma_cong_trans(b5, big_b, 3);
    lemma_cong_remainder(b5, 3);
    lemma_small_mod(3, p as nat);
    assert(pow(b, 5) == b5) by {
        reveal_with_fuel(pow, 6);
        lemma_mul_basics(b);
    }
    assert(power_mod(b, 5) == 3);
}

/// The negation of a multiple of the modulus is a multiple of the modulus.
proof fn lemma_neg_congruent_zero(x: int)
    requires
        x % modulus() == 0,
    ensures
        (-x) % modulus() == 0,
{
    let p = modulus();
    lemma_fundamental_div_mod(x, p);
    let k = x / p;
    lemma_mul_is_commutative(p, k);
    lemma_mul_unary_negation(k, p);
    lemma_mod_multiples_basic(-k, p);
}

/// A polynomial of degree two that annihilates a nonzero element gives a
/// fifth root of three.
proof fn lemma_quadratic_gives_fifth_root(c0: int, c1: int, c2: int, w: Fp5)
    requires
        fp_canonical(c0),
        fp_canonical(c1),
        fp_canonical(c2),
        c2 != 0,
        w.canonical(),
        w != Fp5::zero(),
        ext_mul(low(c0, c1, c2), w) == Fp5::zero(),
    ensures
        exists|b: int| power_mod(b, 5) == 3,
{
    let p = modulus();
    let g = low(c0, c1, c2);
    // make the divisor monic: x^2 + s x + v
    lemma_small_mod(c2 as nat, p as nat);
    lemma_mul_inverse(c2);
    let i2 = fp_inv(c2);
    let v = fp_mul(c0, i2);
    let s = fp_mul(c1, i2);
    lemma_scaled_annihilates(g, i2, w);
    assert(0 * i2 == 0);
    assert(ext_scale(g, i2) == low(v, s, 1));
    // the remainder annihilates w as well
    lemma_remainder(s, v);
    let r = ext_mul(quotient(s, v), low(v, s, 1));
    lemma_multiple_annihilates(quotient(s, v), low(v, s, 1), w);
    if r.c1 != 0 {
        lemma_linear_gives_fifth_root(r.c0, r.c1, w);
    } else {
        assert(r == Fp5::embed(r.c0));
        lemma_scalar_annihilates(r.c0, w);
        lemma_small_mod(r.c0 as nat, p as nat);
        lemma_quadratic_factor_gives_fifth_root(s, v);
    }
}

/// A nonzero polynomial of degree at most two that annihilates a nonzero
/// element gives a fifth root of three.
proof fn lemma_low_gives_fifth_root(c0: int, c1: int, c2: int, w: Fp5)
    requires
        fp_canonical(c0),
        fp_canonical(c1),
        fp_canonical(c2),
        low(c0, c1, c2) != Fp5::zero(),
        w.canonical(),
        w != Fp5::zero(),
        ext_mul(low(c0, c1, c2), w) == Fp5::zero(),
    ensures
        exists|b: int| power_mod(b, 5) == 3,
{
    if c2 != 0 {
        lemma_quadratic_gives_fifth_root(c0, c1, c2, w);
    } else if c1 != 0 {
        lemma_linear_gives_fifth_root(c0, c1, w);
    } else {
        // a nonzero constant annihilates zero only
        lemma_scalar_annihilates(c0, w);
        lemma_small_mod(c0 as nat, modulus() as nat);
    }
}

/// A zero divisor times a polynomial of degree at most two, where the
/// product has degree at most two: the product or the polynomial is a
/// zero divisor of degree at most two.
proof fn lemma_eliminated(u: Fp5, w: Fp5, a1: int, a2: int, a3: int)
    requires
        u.canonical(),
        u != Fp5::zero(),
        w.canonical(),
        w != Fp5::zero(),
        ext_mul(u, w) == Fp5::zero(),
        fp_canonical(a1),
        fp_canonical(a2),
        fp_canonical(a3),
        low(a1, a2, a3) != Fp5::zero(),
        (a1 * u.c4 + a2 * u.c3 + a3 * u.c2) % modulus() == 0,
        (a1 * u.c3 + a2 * u.c2 + a3 * u.c1) % modulus() == 0,
    ensures
        exists|b: int| power_mod(b, 5) == 3,
{
    let g = low(a1, a2, a3);
    let h = ext_mul(g, u);
    lemma_mul_basics(u.c0);
    lemma_mul_basics(u.c1);
    lemma_mul_basics(u.c2);
    lemma_mul_basics(u.c3);
    lemma_mul_basics(u.c4);
    assert(h.c4 == (a1 * u.c4 + a2 * u.c3 + a3 * u.c2) % modulus());
    assert(h.c3 == (a1 * u.c3 + a2 * u.c2 + a3 * u.c1) % modulus());
    assert(h == low(h.c0, h.c1, h.c2));
    if h != Fp5::zero() {
        lemma_multiple_annihilates(g, u, w);
        lemma_low_gives_fifth_root(h.c0, h.c1, h.c2, w);
    } else {
        lemma_low_gives_fifth_root(a1, a2, a3, u);
    }
}

/// The vector product of `(u4, u3, u2)` and `(u3, u2, u1)` is orthogonal to
/// both.
proof fn lemma_cross_product(u1: int, u2: int, u3: int, u4: int)
    ensures
        (u3 * u1 - u2 * u2) * u4 + (u2 * u3 - u4 * u1) * u3 + (u4 * u2 - u3 * u3) * u2 + 0 == 0,
        (u3 * u1 - u2 * u2) * u3 + (u2 * u3 - u4 * u1) * u2 + (u4 * u2 - u3 * u3) * u1 + 0 == 0,
{
    assert((u3 * u1 - u2 * u2) * u4 + (u2 * u3 - u4 * u1) * u3 + (u4 * u2 - u3 * u3) * u2 + 0 == 0)
        by (nonlinear_arith);
    assert((u3 * u1 - u2 * u2) * u3 + (u2 * u3 - u4 * u1) * u2 + (u4 * u2 - u3 * u3) * u1 + 0 == 0)
        by (nonlinear_arith);
}

/// A zero divisor gives a fifth root of three.
proof fn lemma_zero_divisor_gives_fifth_root(u: Fp5, w: Fp5)
    requires
        u.canonical(),
        u != Fp5::zero(),
        w.canonical(),
        w != Fp5::zero(),
        ext_mul(u, w) == Fp5::zero(),
    ensures
        exists|b: int| power_mod(b, 5) == 3,
{
    let p = modulus();
    if u.c3 == 0 && u.c4 == 0 {
        assert(u == low(u.c0, u.c1, u.c2));
        lemma_low_gives_fifth_root(u.c0, u.c1, u.c2, w);
    } else {
        // a combination of u, x u and x^2 u without the two top terms
        let x1 = u.c3 * u.c1 - u.c2 * u.c2;
        let x2 = u.c2 * u.c3 - u.c4 * u.c1;
        let x3 = u.c4 * u.c2 - u.c3 * u.c3;
        lemma_cross_product(u.c1, u.c2, u.c3, u.c4);
        lemma_combination(x1, x2, x3, u.c4, u.c3, u.c2, 0);
        lemma_combination(x1, x2, x3, u.c3, u.c2, u.c1, 0);
        lemma_small_mod(0, p as nat);
        if x1 % p != 0 || x2 % p != 0 || x3 % p != 0 {
            lemma_eliminated(u, w, x1 % p, x2 % p, x3 % p);
        } else if u.c4 != 0 {
            // the three top pairs are proportional: two of them suffice
            lemma_combination(-u.c3, u.c4, 0, u.c4, u.c3, u.c2, 0);
            lemma_combination(-u.c3, u.c4, 0, u.c3, u.c2, u.c1, 0);
            assert((-u.c3) * u.c4 + u.c4 * u.c3 + 0 * u.c2 + 0 == 0) by (nonlinear_arith);
            assert((-u.c3) * u.c3 + u.c4 * u.c2 + 0 * u.c1 + 0 == u.c4 * u.c2 - u.c3 * u.c3)
                by (nonlinear_arith);
            lemma_small_mod(u.c4 as nat, p as nat);
            lemma_eliminated(u, w, (-u.c3) % p, u.c4, 0);
        } else {
            // then the square of the next coefficient is zero, and so is it
            lemma_mul_basics(u.c2);
            assert(x3 == -(u.c3 * u.c3));
            lemma_neg_congruent_zero(x3);
            lemma_no_zero_divisors(u.c3, u.c3);
            lemma_small_mod(u.c3 as nat, p as nat);
        }
    }
}

/// The Frobenius map sends zero to zero.
proof fn lemma_frobenius_of_zero()
    ensures
        ext_frobenius(Fp5::zero()) == Fp5::zero(),
{
    assert(0 * crate::extension::FROBENIUS_1 as int == 0);
    assert(0 * crate::extension::FROBENIUS_2 as int == 0);
    assert(0 * crate::extension::FROBENIUS_3 as int == 0);
    assert(0 * crate::extension::FROBENIUS_4 as int == 0);
}

/// A nonzero element of norm zero would give a fifth root of three.
proof fn lemma_norm_zero_gives_fifth_root(a: Fp5)
    requires
        a.canonical(),
        a != Fp5::zero(),
        ext_norm(a) == 0,
    ensures
        exists|b: int| power_mod(b, 5) == 3,
{
    let f1 = ext_frobenius(a);
    let f2 = ext_frobenius(f1);
    let f3 = ext_frobenius(f2);
    let f4 = ext_frobenius(f3);
    // the conjugates are not zero: five applications give a back
    lemma_frobenius_order(a);
    lemma_frobenius_of_zero();
    assert(f1 != Fp5::zero() && f2 != Fp5::zero() && f3 != Fp5::zero() && f4 != Fp5::zero());
    let p12 = ext_mul(f1, f2);
    let p123 = ext_mul(p12, f3);
    let conj = ext_conjugates(a);
    assert(conj == ext_mul(p123, f4));
    lemma_norm_is_product(a);
    assert(ext_mul(a, conj) == Fp5::zero());
    // some partial product is a zero divisor
    if conj != Fp5::zero() {
        lemma_zero_divisor_gives_fifth_root(a, conj);
    } else if p12 == Fp5::zero() {
        lemma_zero_divisor_gives_fifth_root(f1, f2);
    } else if p123 == Fp5::zero() {
        lemma_zero_divisor_gives_fifth_root(p12, f3);
    } else {
        lemma_zero_divisor_gives_fifth_root(p123, f4);
    }
}

/// Only zero has norm zero.
pub proof fn lemma_nonzero_norm(a: Fp5)
    requires
        a.canonical(),
        a != Fp5::zero(),
    ensures
        ext_norm(a) != 0,
{
    if ext_norm(a) == 0 {
        lemma_norm_zero_gives_fifth_root(a);
        let b = choose|b: int| power_mod(b, 5) == 3;
        lemma_three_is_no_fifth_power(b);
    }
}

/// The extension is a field: every nonzero element has an inverse, the one
/// that the norm formula gives.
pub proof fn lemma_nonzero_has_inverse(a: Fp5)
    requires
        a.canonical(),
        a != Fp5::zero(),
    ensures
        ext_mul(a, ext_inv(a)) == Fp5::one(),
        ext_is_inverse(a, ext_inv(a)),
        ext_has_inverse(a),
{
    lemma_nonzero_norm(a);
    crate::units::lemma_units_have_nonzero_norm(a);
    assert(ext_mul(a, ext_inv(a)) == Fp5::one()) by {
        lemma_ext_inverse(a);
    }
}

/// The extension has no zero divisors.
pub proof fn lemma_ext_no_zero_divisors(a: Fp5, b: Fp5)
    requires
        a.canonical(),
        b.canonical(),
        ext_mul(a, b) == Fp5::zero(),
    ensures
        a == Fp5::zero() || b == Fp5::zero(),
{
    if a != Fp5::zero() && b != Fp5::zero() {
        lemma_zero_divisor_gives_fifth_root(a, b);
        let r = choose|r: int| power_mod(r, 5) == 3;
        lemma_three_is_no_fifth_power(r);
    }
}

} // verus!
