//! Laws of the group law: the chord-and-tangent construction stays on the
//! curve, and addition commutes.
//!
//! The proofs use the extension only through its ring laws, as `ring`
//! states them. A line of slope `l` through a curve point `(x1, y1)` meets
//! the curve where the cubic `x^3 + A x + B` equals the square of
//! `y1 + l (x - x1)`; the difference of the two vanishes at `x1`, at the
//! second point, and at `l^2 - x1 - x2`.

use crate::curve::{
    chord, chord_slope, curve_a, curve_b, generator, on_curve, point_add, point_double, point_mul,
    point_neg, tangent_slope, Point,
};
use crate::extension::{ext_add, ext_inv, ext_is_inverse, ext_mul, ext_norm, ext_sub, Fp5};
use crate::extension_laws::{lemma_ext_inverse, lemma_ext_sub_is_add_neg};
use crate::units::{lemma_inverse_unique, lemma_unit_has_nonzero_norm};
use crate::zero_divisors::lemma_nonzero_norm;
use crate::field::modulus;
use crate::ring::{
    lemma_add_back, lemma_opp_canonical, lemma_opp_opp, lemma_opp_sum, lemma_prod_associates,
    lemma_prod_canonical, lemma_prod_commutes, lemma_prod_distributes, lemma_prod_one,
    lemma_prod_opp, lemma_prod_zero, lemma_square_opp, lemma_sum_associates, lemma_sum_cancels,
    lemma_sum_canonical, lemma_sum_commutes, lemma_sum_opp, lemma_sum_zero, opp, prod, sum,
};
use vstd::prelude::*;

verus! {

/// The square of a sum: with `t == s + r`, `t t == s s + r (s + t)`.
pub proof fn lemma_square_step(s: Fp5, r: Fp5, t: Fp5)
    requires
        t == sum(s, r),
    ensures
        prod(t, t) == sum(prod(s, s), prod(r, sum(s, t))),
{
    broadcast use lemma_sum_commutes, lemma_sum_associates, lemma_prod_commutes;
    lemma_prod_distributes(t, s, r);
    lemma_prod_distributes(s, s, r);
    lemma_prod_distributes(r, s, t);
    assert(prod(t, t) == sum(prod(t, s), prod(t, r)));
    assert(prod(t, s) == sum(prod(s, s), prod(s, r)));
}

/// The cube of a sum: with `v == u + d`,
/// `v v v == u u u + d (v v + v u + u u)`.
pub proof fn lemma_cube_step(u: Fp5, d: Fp5, v: Fp5)
    requires
        v == sum(u, d),
    ensures
        prod(prod(v, v), v) == sum(
            prod(prod(u, u), u),
            prod(d, sum(sum(prod(v, v), prod(v, u)), prod(u, u))),
        ),
{
    broadcast use
        lemma_sum_commutes,
        lemma_sum_associates,
        lemma_prod_commutes,
        lemma_prod_associates,
    ;
    let vv = prod(v, v);
    let vu = prod(v, u);
    let uu = prod(u, u);
    // v v v == v v u + v v d
    lemma_prod_distributes(vv, u, d);
    assert(prod(vv, v) == sum(prod(vv, u), prod(vv, d)));
    // v v u == v u u + v d u
    lemma_prod_distributes(vu, u, d);
    assert(prod(vv, u) == prod(vu, v));
    assert(prod(vu, v) == sum(prod(vu, u), prod(vu, d)));
    // v u u == u u u + u u d
    lemma_prod_distributes(uu, u, d);
    assert(prod(vu, u) == prod(uu, v));
    assert(prod(uu, v) == sum(prod(uu, u), prod(uu, d)));
    // collect the three multiples of d
    lemma_prod_distributes(d, vv, vu);
    lemma_prod_distributes(d, sum(vv, vu), uu);
    assert(prod(d, sum(sum(vv, vu), uu)) == sum(sum(prod(d, vv), prod(d, vu)), prod(d, uu)));
    assert(prod(vv, d) == prod(d, vv));
    assert(prod(vu, d) == prod(d, vu));
    assert(prod(uu, d) == prod(d, uu));
}

/// The right-hand side of the curve equation with coefficients `a` and
/// `b`: `x x x + a x + b`.
pub open spec fn cubic(a: Fp5, b: Fp5, x: Fp5) -> Fp5 {
    sum(sum(prod(prod(x, x), x), prod(a, x)), b)
}

/// The slope numerator of the line through the curve points of first
/// coordinates `u` and `v`: `v v + v u + u u + a`.
pub open spec fn secant(a: Fp5, u: Fp5, v: Fp5) -> Fp5 {
    sum(sum(sum(prod(v, v), prod(v, u)), prod(u, u)), a)
}

/// How the cubic changes along a step: with `v == u + d`,
/// `cubic(v) == cubic(u) + d secant(u, v)`.
pub proof fn lemma_cubic_step(a: Fp5, b: Fp5, u: Fp5, d: Fp5, v: Fp5)
    requires
        v == sum(u, d),
    ensures
        cubic(a, b, v) == sum(cubic(a, b, u), prod(d, secant(a, u, v))),
{
    broadcast use lemma_sum_commutes, lemma_sum_associates, lemma_prod_commutes;
    let q = sum(sum(prod(v, v), prod(v, u)), prod(u, u));
    let uuu = prod(prod(u, u), u);
    lemma_cube_step(u, d, v);
    lemma_prod_distributes(a, u, d);
    lemma_prod_distributes(d, q, a);
    assert(prod(prod(v, v), v) == sum(uuu, prod(d, q)));
    assert(prod(a, v) == sum(prod(a, u), prod(d, a)));
    assert(prod(d, secant(a, u, v)) == sum(prod(d, q), prod(d, a)));
    assert(sum(sum(uuu, prod(d, q)), sum(prod(a, u), prod(d, a))) == sum(
        sum(uuu, prod(a, u)),
        sum(prod(d, q), prod(d, a)),
    ));
}

/// How the secant changes along a step of its second argument: with
/// `v == w + g`, `secant(u, v) == secant(u, w) + g (v + w + u)`.
pub proof fn lemma_secant_step(a: Fp5, u: Fp5, w: Fp5, g: Fp5, v: Fp5)
    requires
        v == sum(w, g),
    ensures
        secant(a, u, v) == sum(secant(a, u, w), prod(g, sum(sum(v, w), u))),
{
    broadcast use lemma_sum_commutes, lemma_sum_associates, lemma_prod_commutes;
    lemma_square_step(w, g, v);
    lemma_prod_distributes(u, w, g);
    lemma_prod_distributes(g, sum(w, v), u);
    let ww = prod(w, w);
    let wu = prod(w, u);
    let uu = prod(u, u);
    let gwv = prod(g, sum(w, v));
    let gu = prod(g, u);
    assert(prod(v, v) == sum(ww, gwv));
    assert(prod(v, u) == sum(wu, gu));
    assert(prod(g, sum(sum(v, w), u)) == sum(gwv, gu));
    assert(sum(sum(ww, gwv), sum(wu, gu)) == sum(sum(ww, wu), sum(gwv, gu)));
    assert(sum(sum(sum(ww, wu), sum(gwv, gu)), uu) == sum(sum(sum(ww, wu), uu), sum(gwv, gu)));
    assert(sum(sum(sum(sum(ww, wu), uu), sum(gwv, gu)), a) == sum(
        sum(sum(sum(ww, wu), uu), a),
        sum(gwv, gu),
    ));
}

/// The third point of a line. Let `(x1, y1)` lie on the curve, let
/// `(x2, y2)` and `(x3, yb)` lie on the line of slope `l` through it, let
/// the slope satisfy `l (y1 + y2) == secant(x1, x2)`, and let the three
/// first coordinates add up to `l l`. Then `(x3, yb)` lies on the curve.
pub proof fn lemma_third_point(
    a: Fp5,
    b: Fp5,
    x1: Fp5,
    y1: Fp5,
    x2: Fp5,
    y2: Fp5,
    x3: Fp5,
    yb: Fp5,
    l: Fp5,
    d: Fp5,
    g: Fp5,
)
    requires
        prod(y1, y1) == cubic(a, b, x1),
        x2 == sum(x1, d),
        y2 == sum(y1, prod(l, d)),
        x3 == sum(x2, g),
        yb == sum(y2, prod(l, g)),
        prod(l, sum(y1, y2)) == secant(a, x1, x2),
        sum(sum(x3, x2), x1) == prod(l, l),
    ensures
        prod(yb, yb) == cubic(a, b, x3),
{
    broadcast use
        lemma_sum_commutes,
        lemma_sum_associates,
        lemma_prod_commutes,
        lemma_prod_associates,
    ;
    let d3 = sum(d, g);
    // the third point, seen from the first
    assert(x3 == sum(x1, d3));
    lemma_prod_distributes(l, d, g);
    assert(yb == sum(y1, prod(l, d3)));
    lemma_cubic_step(a, b, x1, d3, x3);
    lemma_square_step(y1, prod(l, d3), yb);
    // the slope condition carries over to the third point
    lemma_secant_step(a, x1, x2, g, x3);
    lemma_prod_distributes(l, sum(y1, y2), prod(l, g));
    assert(sum(y1, yb) == sum(sum(y1, y2), prod(l, g)));
    assert(prod(l, prod(l, g)) == prod(g, prod(l, l)));
    assert(prod(l, sum(y1, yb)) == secant(a, x1, x3));
    assert(prod(prod(l, d3), sum(y1, yb)) == prod(d3, prod(l, sum(y1, yb))));
}

/// The slope of the chord through two curve points whose first coordinates
/// differ by an invertible element satisfies the slope condition.
pub proof fn lemma_chord_slope(
    a: Fp5,
    b: Fp5,
    x1: Fp5,
    y1: Fp5,
    x2: Fp5,
    y2: Fp5,
    l: Fp5,
    d: Fp5,
    i: Fp5,
)
    requires
        prod(y1, y1) == cubic(a, b, x1),
        prod(y2, y2) == cubic(a, b, x2),
        x2 == sum(x1, d),
        y2 == sum(y1, prod(l, d)),
        prod(d, i) == Fp5::one(),
    ensures
        prod(l, sum(y1, y2)) == secant(a, x1, x2),
{
    broadcast use
        lemma_sum_commutes,
        lemma_prod_commutes,
        lemma_prod_associates,
        lemma_sum_canonical, lemma_prod_canonical, lemma_opp_canonical,
    ;
    let t = prod(l, sum(y1, y2));
    let q = secant(a, x1, x2);
    lemma_cubic_step(a, b, x1, d, x2);
    lemma_square_step(y1, prod(l, d), y2);
    assert(prod(prod(l, d), sum(y1, y2)) == prod(d, t));
    // both d t and d q add to the square of y2 with the square of y1
    lemma_sum_cancels(prod(d, t), prod(d, q), prod(y1, y1));
    // and d is invertible
    lemma_prod_one(t);
    lemma_prod_one(q);
    assert(prod(i, prod(d, t)) == prod(prod(d, i), t));
    assert(prod(i, prod(d, q)) == prod(prod(d, i), q));
}

/// The chord-and-tangent point lies on the curve. Let `(x1, y1)` lie on
/// the curve, let `(x2, y2)` lie on the line of slope `l` through it, and
/// let the slope satisfy the slope condition. Then the point
/// `(l l - x1 - x2, l (x1 - x3) - y1)` lies on the curve.
pub proof fn lemma_third_point_on_curve(
    a: Fp5,
    b: Fp5,
    x1: Fp5,
    y1: Fp5,
    x2: Fp5,
    y2: Fp5,
    l: Fp5,
)
    requires
        x1.canonical(),
        y1.canonical(),
        x2.canonical(),
        y2.canonical(),
        prod(y1, y1) == cubic(a, b, x1),
        y2 == sum(y1, prod(l, sum(x2, opp(x1)))),
        prod(l, sum(y1, y2)) == secant(a, x1, x2),
    ensures
        ({
            let x3 = sum(sum(prod(l, l), opp(x1)), opp(x2));
            let y3 = sum(prod(l, sum(x1, opp(x3))), opp(y1));
            prod(y3, y3) == cubic(a, b, x3)
        }),
{
    broadcast use lemma_sum_canonical, lemma_prod_canonical, lemma_opp_canonical;
    let ll = prod(l, l);
    let x3 = sum(sum(ll, opp(x1)), opp(x2));
    let m = sum(x1, opp(x3));
    let y3 = sum(prod(l, m), opp(y1));
    let d = sum(x2, opp(x1));
    let g = sum(x3, opp(x2));
    let yb = opp(y3);
    lemma_add_back(x2, x1);
    lemma_add_back(x3, x2);
    // the three first coordinates add up to l l
    lemma_add_back(sum(ll, opp(x1)), x2);
    lemma_add_back(ll, x1);
    assert(sum(sum(x3, x2), x1) == ll);
    // the mirror image of the new point lies on the line
    assert(yb == sum(y2, prod(l, g))) by {
        broadcast use lemma_sum_commutes, lemma_sum_associates;
        lemma_opp_sum(prod(l, m), opp(y1));
        lemma_opp_opp(y1);
        lemma_prod_opp(l, m);
        lemma_opp_sum(x1, opp(x3));
        lemma_opp_opp(x3);
        assert(yb == sum(y1, prod(l, sum(x3, opp(x1)))));
        lemma_prod_distributes(l, d, g);
        assert(sum(y2, prod(l, g)) == sum(y1, prod(l, sum(d, g))));
        lemma_sum_opp(x2);
        lemma_sum_zero(sum(x3, opp(x1)));
        assert(sum(d, g) == sum(sum(x3, opp(x1)), sum(x2, opp(x2))));
    }
    lemma_third_point(a, b, x1, y1, x2, y2, x3, yb, l, d, g);
    lemma_square_opp(y3);
}

/// A nonzero difference of canonical elements has nonzero norm.
proof fn lemma_difference_norm(a: Fp5, b: Fp5)
    requires
        a.canonical(),
        b.canonical(),
        a != b,
    ensures
        ext_norm(ext_sub(a, b)) != 0,
{
    let d = ext_sub(a, b);
    if d == Fp5::zero() {
        lemma_equal_residues(a.c0, b.c0);
        lemma_equal_residues(a.c1, b.c1);
        lemma_equal_residues(a.c2, b.c2);
        lemma_equal_residues(a.c3, b.c3);
        lemma_equal_residues(a.c4, b.c4);
    }
    lemma_nonzero_norm(d);
}

/// Canonical residues with difference congruent to zero are equal.
proof fn lemma_equal_residues(x: int, y: int)
    requires
        0 <= x < modulus(),
        0 <= y < modulus(),
        (x - y) % modulus() == 0,
    ensures
        x == y,
{
    let p = modulus();
    if x > y {
        vstd::arithmetic::div_mod::lemma_small_mod((x - y) as nat, p as nat);
    } else if x < y {
        vstd::arithmetic::div_mod::lemma_fundamental_div_mod_converse(x - y, p, -1, p - (y - x));
    }
}

/// The double of a nonzero canonical element has nonzero norm.
proof fn lemma_double_norm(y: Fp5)
    requires
        y.canonical(),
        y != Fp5::zero(),
    ensures
        ext_norm(ext_add(y, y)) != 0,
{
    let d = ext_add(y, y);
    if d == Fp5::zero() {
        lemma_half_residue(y.c0);
        lemma_half_residue(y.c1);
        lemma_half_residue(y.c2);
        lemma_half_residue(y.c3);
        lemma_half_residue(y.c4);
    }
    lemma_nonzero_norm(d);
}

/// A canonical residue whose double is congruent to zero is zero, the
/// modulus being odd.
proof fn lemma_half_residue(x: int)
    requires
        0 <= x < modulus(),
        (x + x) % modulus() == 0,
    ensures
        x == 0,
{
    let p = modulus();
    if x != 0 {
        if x + x < p {
            vstd::arithmetic::div_mod::lemma_small_mod((x + x) as nat, p as nat);
        } else {
            vstd::arithmetic::div_mod::lemma_fundamental_div_mod_converse(x + x, p, 1, x + x - p);
        }
    }
}

/// The chord through two curve points of distinct first coordinates meets
/// the curve in a third point, whose mirror image is their sum: the chord
/// construction gives a curve point.
pub proof fn lemma_chord_on_curve(p: Point, q: Point)
    requires
        p.wf(),
        q.wf(),
        !p.inf,
        !q.inf,
        on_curve(p),
        on_curve(q),
        p.x != q.x,
    ensures
        on_curve(chord(p, chord_slope(p, q), q.x)),
{
    lemma_difference_norm(q.x, p.x);
    reveal(sum);
    reveal(prod);
    reveal(opp);
    let a = curve_a();
    let b = curve_b();
    let d = ext_sub(q.x, p.x);
    let e = ext_sub(q.y, p.y);
    let i = ext_inv(d);
    let l = chord_slope(p, q);
    let x3 = ext_sub(ext_sub(ext_mul(l, l), p.x), q.x);
    lemma_ext_sub_is_add_neg(q.x, p.x);
    lemma_ext_sub_is_add_neg(q.y, p.y);
    lemma_ext_sub_is_add_neg(ext_mul(l, l), p.x);
    lemma_ext_sub_is_add_neg(ext_sub(ext_mul(l, l), p.x), q.x);
    lemma_ext_sub_is_add_neg(p.x, x3);
    lemma_ext_sub_is_add_neg(ext_mul(l, ext_sub(p.x, x3)), p.y);
    // the slope times the difference of the first coordinates is the
    // difference of the second
    lemma_ext_inverse(d);
    assert(prod(l, d) == e) by {
        lemma_prod_associates(e, i, d);
        lemma_prod_commutes(i, d);
        lemma_prod_one(e);
    }
    lemma_add_back(q.x, p.x);
    lemma_add_back(q.y, p.y);
    lemma_chord_slope(a, b, p.x, p.y, q.x, q.y, l, d, i);
    lemma_third_point_on_curve(a, b, p.x, p.y, q.x, q.y, l);
}

/// The tangent at a curve point that is not of order two meets the curve
/// in one more point, whose mirror image is the double: the tangent
/// construction gives a curve point.
pub proof fn lemma_tangent_on_curve(p: Point)
    requires
        p.wf(),
        !p.inf,
        on_curve(p),
        p.y != Fp5::zero(),
    ensures
        on_curve(chord(p, tangent_slope(p), p.x)),
{
    lemma_double_norm(p.y);
    reveal(sum);
    reveal(prod);
    reveal(opp);
    let a = curve_a();
    let b = curve_b();
    let twice = ext_add(p.y, p.y);
    let i = ext_inv(twice);
    let l = tangent_slope(p);
    let numerator = secant(a, p.x, p.x);
    let x3 = ext_sub(ext_sub(ext_mul(l, l), p.x), p.x);
    lemma_ext_sub_is_add_neg(ext_mul(l, l), p.x);
    lemma_ext_sub_is_add_neg(ext_sub(ext_mul(l, l), p.x), p.x);
    lemma_ext_sub_is_add_neg(p.x, x3);
    lemma_ext_sub_is_add_neg(ext_mul(l, ext_sub(p.x, x3)), p.y);
    // the point is its own neighbour on the tangent
    lemma_sum_opp(p.x);
    lemma_prod_zero(l);
    lemma_sum_zero(p.y);
    // the slope times the doubled second coordinate is the numerator
    lemma_ext_inverse(twice);
    assert(prod(l, twice) == numerator) by {
        lemma_prod_associates(numerator, i, twice);
        lemma_prod_commutes(i, twice);
        lemma_prod_one(numerator);
    }
    lemma_third_point_on_curve(a, b, p.x, p.y, p.x, p.y, l);
}

/// The mirror image of a curve point is a curve point.
pub proof fn lemma_negation_on_curve(p: Point)
    requires
        on_curve(p),
    ensures
        on_curve(point_neg(p)),
{
    reveal(prod);
    reveal(opp);
    lemma_square_opp(p.y);
}

/// The double of a curve point is a curve point.
pub proof fn lemma_double_on_curve(p: Point)
    requires
        p.wf(),
        on_curve(p),
    ensures
        on_curve(point_double(p)),
        point_double(p).wf(),
{
    if !p.inf && p.y != Fp5::zero() {
        lemma_tangent_on_curve(p);
    }
}

/// The sum of two curve points is a curve point.
pub proof fn lemma_add_on_curve(p: Point, q: Point)
    requires
        p.wf(),
        q.wf(),
        on_curve(p),
        on_curve(q),
    ensures
        on_curve(point_add(p, q)),
        point_add(p, q).wf(),
{
    if !p.inf && !q.inf {
        if p.x == q.x {
            lemma_double_on_curve(p);
        } else {
            lemma_chord_on_curve(p, q);
        }
    }
}

/// Every multiple of a curve point is a curve point.
pub proof fn lemma_mul_on_curve(k: nat, p: Point)
    requires
        p.wf(),
        on_curve(p),
    ensures
        on_curve(point_mul(k, p)),
        point_mul(k, p).wf(),
    decreases k,
{
    if k != 0 {
        lemma_mul_on_curve(k / 2, p);
        lemma_double_on_curve(point_mul(k / 2, p));
        lemma_add_on_curve(point_double(point_mul(k / 2, p)), p);
    }
}

/// The generator lies on the curve.
pub proof fn lemma_generator_on_curve()
    ensures
        on_curve(generator()),
        generator().wf(),
{
    let g = generator();
    let x = Fp5 {
        c0: 11712523173042564207,
        c1: 14090224426659529053,
        c2: 13197813503519687414,
        c3: 16280770174934269299,
        c4: 15998333998318935536,
    };
    let y = Fp5 {
        c0: 14639054205878357578,
        c1: 17426078571020221072,
        c2: 2548978194165003307,
        c3: 8663895577921260088,
        c4: 9793640284382595140,
    };
    let a = Fp5 { c0: 6148914689804861439, c1: 263, c2: 0, c3: 0, c4: 0 };
    let b = Fp5 { c0: 15713893096167979237, c1: 6148914689804861265, c2: 0, c3: 0, c4: 0 };
    assert(g.x == x);
    assert(g.y == y);
    assert(curve_a() == a);
    assert(curve_b() == b);
    let square = Fp5 {
        c0: 3323134212246623208,
        c1: 13135923111885684352,
        c2: 5601203646879640924,
        c3: 9830803113269199745,
        c4: 11649029761638943486,
    };
    let cube = Fp5 {
        c0: 5106670868292580776,
        c1: 14667751996289624078,
        c2: 12196962714701657296,
        c3: 13107820632031715616,
        c4: 11793816871631796459,
    };
    let ax = Fp5 {
        c0: 7942627699422294385,
        c1: 17893857154575268072,
        c2: 11080955036789416401,
        c3: 18222860947986080444,
        c4: 11611393354794989652,
    };
    let yy = Fp5 {
        c0: 10316447594468270077,
        c1: 1817035701840584773,
        c2: 4831173682076489376,
        c3: 12883937510603211739,
        c4: 4958466157012201790,
    };
    assert(ext_mul(x, x) == square) by {
        assert((11712523173042564207int * 11712523173042564207 + 3 * (14090224426659529053int * 15998333998318935536 + 13197813503519687414int * 16280770174934269299 + 16280770174934269299int * 13197813503519687414 + 15998333998318935536int * 14090224426659529053)) % modulus() == 3323134212246623208);
        assert((11712523173042564207int * 14090224426659529053 + 14090224426659529053int * 11712523173042564207 + 3 * (13197813503519687414int * 15998333998318935536 + 16280770174934269299int * 16280770174934269299 + 15998333998318935536int * 13197813503519687414)) % modulus() == 13135923111885684352);
        assert((11712523173042564207int * 13197813503519687414 + 14090224426659529053int * 14090224426659529053 + 13197813503519687414int * 11712523173042564207 + 3 * (16280770174934269299int * 15998333998318935536 + 15998333998318935536int * 16280770174934269299)) % modulus() == 5601203646879640924);
        assert((11712523173042564207int * 16280770174934269299 + 14090224426659529053int * 13197813503519687414 + 13197813503519687414int * 14090224426659529053 + 16280770174934269299int * 11712523173042564207 + 3 * (15998333998318935536int * 15998333998318935536)) % modulus() == 9830803113269199745);
        assert((11712523173042564207int * 15998333998318935536 + 14090224426659529053int * 16280770174934269299 + 13197813503519687414int * 13197813503519687414 + 16280770174934269299int * 14090224426659529053 + 15998333998318935536int * 11712523173042564207) % modulus() == 11649029761638943486);
    }
    assert(ext_mul(square, x) == cube) by {
        lemma_product_value(square, x, cube);
    }
    assert(ext_mul(a, x) == ax) by {
        lemma_product_value(a, x, ax);
    }
    assert(ext_mul(y, y) == yy) by {
        assert((14639054205878357578int * 14639054205878357578 + 3 * (17426078571020221072int * 9793640284382595140 + 2548978194165003307int * 8663895577921260088 + 8663895577921260088int * 2548978194165003307 + 9793640284382595140int * 17426078571020221072)) % modulus() == 10316447594468270077);
        assert((14639054205878357578int * 17426078571020221072 + 17426078571020221072int * 14639054205878357578 + 3 * (2548978194165003307int * 9793640284382595140 + 8663895577921260088int * 8663895577921260088 + 9793640284382595140int * 2548978194165003307)) % modulus() == 1817035701840584773);
        assert((14639054205878357578int * 2548978194165003307 + 17426078571020221072int * 17426078571020221072 + 2548978194165003307int * 14639054205878357578 + 3 * (8663895577921260088int * 9793640284382595140 + 9793640284382595140int * 8663895577921260088)) % modulus() == 4831173682076489376);
        assert((14639054205878357578int * 8663895577921260088 + 17426078571020221072int * 2548978194165003307 + 2548978194165003307int * 17426078571020221072 + 8663895577921260088int * 14639054205878357578 + 3 * (9793640284382595140int * 9793640284382595140)) % modulus() == 12883937510603211739);
        assert((14639054205878357578int * 9793640284382595140 + 17426078571020221072int * 8663895577921260088 + 2548978194165003307int * 2548978194165003307 + 8663895577921260088int * 17426078571020221072 + 9793640284382595140int * 14639054205878357578) % modulus() == 4958466157012201790);
    }
    assert(ext_add(ext_add(cube, ax), b) == yy);
}

/// A product, from the values of its coefficients.
proof fn lemma_product_value(a: Fp5, b: Fp5, c: Fp5)
    requires
        c.c0 == (a.c0 * b.c0 + 3 * (a.c1 * b.c4 + a.c2 * b.c3 + a.c3 * b.c2 + a.c4 * b.c1))
            % modulus(),
        c.c1 == (a.c0 * b.c1 + a.c1 * b.c0 + 3 * (a.c2 * b.c4 + a.c3 * b.c3 + a.c4 * b.c2))
            % modulus(),
        c.c2 == (a.c0 * b.c2 + a.c1 * b.c1 + a.c2 * b.c0 + 3 * (a.c3 * b.c4 + a.c4 * b.c3))
            % modulus(),
        c.c3 == (a.c0 * b.c3 + a.c1 * b.c2 + a.c2 * b.c1 + a.c3 * b.c0 + 3 * (a.c4 * b.c4))
            % modulus(),
        c.c4 == (a.c0 * b.c4 + a.c1 * b.c3 + a.c2 * b.c2 + a.c3 * b.c1 + a.c4 * b.c0)
            % modulus(),
    ensures
        ext_mul(a, b) == c,
{
}

/// The difference the other way round is the negated difference.
proof fn lemma_difference_reversed(a: Fp5, b: Fp5)
    requires
        a.canonical(),
        b.canonical(),
    ensures
        sum(b, opp(a)) == opp(sum(a, opp(b))),
{
    lemma_opp_sum(a, opp(b));
    lemma_opp_opp(b);
    lemma_sum_commutes(opp(a), b);
}

/// The opposite of an element of nonzero norm has nonzero norm, and its
/// inverse is the opposite of the inverse.
proof fn lemma_inverse_of_opposite(d: Fp5)
    requires
        d.canonical(),
        ext_norm(d) != 0,
    ensures
        ext_norm(opp(d)) != 0,
        ext_inv(opp(d)) == opp(ext_inv(d)),
{
    broadcast use lemma_opp_canonical;
    let i = ext_inv(d);
    lemma_ext_inverse(d);
    assert(prod(d, i) == Fp5::one()) by {
        reveal(prod);
    }
    // (-d) (-i) == d i
    lemma_prod_opp(opp(d), i);
    lemma_prod_opp(d, i);
    lemma_opp_opp(Fp5::one());
    assert(prod(opp(d), opp(i)) == Fp5::one());
    assert(ext_is_inverse(opp(d), opp(i))) by {
        reveal(prod);
    }
    lemma_unit_has_nonzero_norm(opp(d), opp(i));
    lemma_inverse_unique(opp(d), opp(i));
}

/// The chord through two points does not depend on their order.
proof fn lemma_chord_symmetric(p: Point, q: Point)
    requires
        p.wf(),
        q.wf(),
        !p.inf,
        !q.inf,
        p.x != q.x,
    ensures
        chord(q, chord_slope(q, p), p.x) == chord(p, chord_slope(p, q), q.x),
{
    lemma_difference_norm(q.x, p.x);
    broadcast use lemma_sum_canonical, lemma_prod_canonical, lemma_opp_canonical;
    let d = sum(q.x, opp(p.x));
    let e = sum(q.y, opp(p.y));
    let i = ext_inv(d);
    let l = prod(e, i);
    assert(d == ext_sub(q.x, p.x) && e == ext_sub(q.y, p.y) && sum(p.x, opp(q.x)) == ext_sub(
        p.x,
        q.x,
    ) && sum(p.y, opp(q.y)) == ext_sub(p.y, q.y) && l == chord_slope(p, q)) by {
        reveal(sum);
        reveal(prod);
        reveal(opp);
        lemma_ext_sub_is_add_neg(q.x, p.x);
        lemma_ext_sub_is_add_neg(q.y, p.y);
        lemma_ext_sub_is_add_neg(p.x, q.x);
        lemma_ext_sub_is_add_neg(p.y, q.y);
    }
    // the slope is the same
    lemma_difference_reversed(q.x, p.x);
    lemma_difference_reversed(q.y, p.y);
    lemma_inverse_of_opposite(d);
    lemma_prod_opp(opp(e), i);
    lemma_prod_opp(e, i);
    lemma_opp_opp(l);
    assert(prod(opp(e), opp(i)) == l);
    assert(chord_slope(q, p) == l) by {
        reveal(prod);
    }
    // the first coordinate is the same
    let ll = prod(l, l);
    let x3 = sum(sum(ll, opp(p.x)), opp(q.x));
    assert(sum(sum(ll, opp(q.x)), opp(p.x)) == x3) by {
        broadcast use lemma_sum_commutes, lemma_sum_associates;
    }
    // and so is the second: l (x1 - x3) - y1 == l (x2 - x3) - y2,
    // since l (x2 - x1) == y2 - y1
    lemma_ext_inverse(d);
    assert(prod(l, d) == e) by {
        assert(prod(d, i) == Fp5::one()) by {
            reveal(prod);
        }
        lemma_prod_associates(e, i, d);
        lemma_prod_commutes(i, d);
        lemma_prod_one(e);
    }
    let m1 = sum(p.x, opp(x3));
    let m2 = sum(q.x, opp(x3));
    assert(m2 == sum(m1, d)) by {
        broadcast use lemma_sum_commutes, lemma_sum_associates;
        lemma_add_back(q.x, p.x);
        assert(sum(m1, d) == sum(sum(p.x, d), opp(x3)));
    }
    lemma_prod_distributes(l, m1, d);
    assert(sum(prod(l, m2), opp(q.y)) == sum(prod(l, m1), opp(p.y))) by {
        broadcast use lemma_sum_commutes, lemma_sum_associates;
        lemma_add_back(q.y, p.y);
        lemma_sum_opp(q.y);
        lemma_sum_zero(sum(prod(l, m1), opp(p.y)));
        assert(sum(sum(prod(l, m1), e), opp(q.y)) == sum(
            sum(prod(l, m1), opp(p.y)),
            sum(q.y, opp(q.y)),
        ));
    }
    assert(chord(q, l, p.x) == chord(p, l, q.x)) by {
        reveal(sum);
        reveal(prod);
        reveal(opp);
        lemma_ext_sub_is_add_neg(ext_mul(l, l), p.x);
        lemma_ext_sub_is_add_neg(ext_mul(l, l), q.x);
        lemma_ext_sub_is_add_neg(ext_sub(ext_mul(l, l), p.x), q.x);
        lemma_ext_sub_is_add_neg(ext_sub(ext_mul(l, l), q.x), p.x);
        lemma_ext_sub_is_add_neg(p.x, x3);
        lemma_ext_sub_is_add_neg(q.x, x3);
        lemma_ext_sub_is_add_neg(ext_mul(l, ext_sub(p.x, x3)), p.y);
        lemma_ext_sub_is_add_neg(ext_mul(l, ext_sub(q.x, x3)), q.y);
    }
}

/// The group law is commutative.
pub proof fn lemma_add_commutative(p: Point, q: Point)
    requires
        p.wf(),
        q.wf(),
    ensures
        point_add(p, q) == point_add(q, p),
{
    if !p.inf && !q.inf && p.x != q.x {
        lemma_chord_symmetric(p, q);
    }
}

} // verus!
