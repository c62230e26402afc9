//! The prime-order group of the ECgFp5 curve, as points of the short
//! Weierstrass curve `y^2 = x^3 + A x + B` over the quintic extension.
//!
//! Contracts state each operation by the chord-and-tangent formulas, with
//! the point at infinity and the singular cases of addition handled apart.
//! Every executable point lies on the curve: `curve_laws` proves that the
//! formulas map curve points to curve points.
//!
//! Multiples are stated by doubling and adding. That the group law is
//! associative, so that a multiple is also a repeated sum, is not proved
//! here.

use crate::curve_laws::{
    lemma_chord_on_curve, lemma_generator_on_curve, lemma_negation_on_curve,
    lemma_tangent_on_curve,
};
use crate::extension::{
    ext_add, ext_div, ext_from_raw, ext_mul, ext_neg, ext_sub, ExtensionField, Fp5,
};
use crate::field::modulus;
use crate::scalar::{lemma_limb_powers, limbs_bound, limbs_value, shift_left, Scalar};
use vstd::arithmetic::power2::*;
use vstd::prelude::*;

verus! {

/// The coefficient `A` of the curve equation.
pub const CURVE_A: [u64; 5] = [6148914689804861439, 263, 0, 0, 0];

/// The coefficient `B` of the curve equation.
pub const CURVE_B: [u64; 5] = [15713893096167979237, 6148914689804861265, 0, 0, 0];

/// A third of the coefficient `a = 2` of the curve in the form
/// `y^2 = x (x^2 + a x + b)`: the shift between that form and this one.
pub const CURVE_SHIFT: [u64; 5] = [6148914689804861441, 0, 0, 0, 0];

/// The first coordinate of the generator.
pub const GENERATOR_X: [u64; 5] = [
    11712523173042564207,
    14090224426659529053,
    13197813503519687414,
    16280770174934269299,
    15998333998318935536,
];

/// The second coordinate of the generator.
pub const GENERATOR_Y: [u64; 5] = [
    14639054205878357578,
    17426078571020221072,
    2548978194165003307,
    8663895577921260088,
    9793640284382595140,
];

/// A mathematical point: the point at infinity, or a pair of coordinates.
pub struct Point {
    pub x: Fp5,
    pub y: Fp5,
    pub inf: bool,
}

impl Point {
    /// The point at infinity, the identity of the group.
    pub open spec fn identity() -> Point {
        Point { x: Fp5::zero(), y: Fp5::zero(), inf: true }
    }

    /// Whether the coordinates are canonical, and zero at infinity.
    pub open spec fn wf(self) -> bool {
        &&& self.x.canonical()
        &&& self.y.canonical()
        &&& self.inf ==> self == Point::identity()
    }
}

/// The coefficient `A` as an extension-field element.
pub open spec fn curve_a() -> Fp5 {
    ext_from_raw(CURVE_A@)
}

/// The coefficient `B` as an extension-field element.
pub open spec fn curve_b() -> Fp5 {
    ext_from_raw(CURVE_B@)
}

/// The shift `a / 3` as an extension-field element.
pub open spec fn curve_shift() -> Fp5 {
    ext_from_raw(CURVE_SHIFT@)
}

/// The generator of the group.
pub open spec fn generator() -> Point {
    Point { x: ext_from_raw(GENERATOR_X@), y: ext_from_raw(GENERATOR_Y@), inf: false }
}

/// `x^3 + A x + B`.
pub open spec fn curve_rhs(x: Fp5) -> Fp5 {
    ext_add(ext_add(ext_mul(ext_mul(x, x), x), ext_mul(curve_a(), x)), curve_b())
}

/// Whether the point is at infinity or satisfies the curve equation.
pub open spec fn on_curve(p: Point) -> bool {
    p.inf || ext_mul(p.y, p.y) == curve_rhs(p.x)
}

/// The additive inverse: the mirror image.
pub open spec fn point_neg(p: Point) -> Point {
    if p.inf {
        Point::identity()
    } else {
        Point { x: p.x, y: ext_neg(p.y), inf: false }
    }
}

/// The third point of the line of slope `lambda` through `p` and a point
/// of first coordinate `x2`, mirrored.
pub open spec fn chord(p: Point, lambda: Fp5, x2: Fp5) -> Point {
    let x3 = ext_sub(ext_sub(ext_mul(lambda, lambda), p.x), x2);
    let y3 = ext_sub(ext_mul(lambda, ext_sub(p.x, x3)), p.y);
    Point { x: x3, y: y3, inf: false }
}

/// The slope of the tangent at `p`: `(3 x^2 + A) / (2 y)`.
pub open spec fn tangent_slope(p: Point) -> Fp5 {
    let xx = ext_mul(p.x, p.x);
    ext_div(ext_add(ext_add(ext_add(xx, xx), xx), curve_a()), ext_add(p.y, p.y))
}

/// Doubling. Infinity doubles to infinity, and so does a point of order
/// two, whose tangent is vertical.
pub open spec fn point_double(p: Point) -> Point {
    if p.inf || p.y == Fp5::zero() {
        Point::identity()
    } else {
        chord(p, tangent_slope(p), p.x)
    }
}

/// The slope of the line through `p` and `q`.
pub open spec fn chord_slope(p: Point, q: Point) -> Fp5 {
    ext_div(ext_sub(q.y, p.y), ext_sub(q.x, p.x))
}

/// The group law: infinity is neutral, a point and its mirror image add
/// to infinity, equal points are doubled, and any other two points are
/// joined by a chord.
pub open spec fn point_add(p: Point, q: Point) -> Point {
    if p.inf {
        q
    } else if q.inf {
        p
    } else if p.x == q.x {
        if p.y == q.y {
            point_double(p)
        } else {
            Point::identity()
        }
    } else {
        chord(p, chord_slope(p, q), q.x)
    }
}

/// The multiple `k * p` by doubling and adding: `k * p` is twice
/// `(k / 2) * p`, plus `p` where `k` is odd.
pub open spec fn point_mul(k: nat, p: Point) -> Point
    decreases k,
{
    if k == 0 {
        Point::identity()
    } else {
        let d = point_double(point_mul(k / 2, p));
        if k % 2 == 1 {
            point_add(d, p)
        } else {
            d
        }
    }
}

/// The encoding of a point as one extension-field element: zero for
/// infinity, and `y / (a/3 - x)` otherwise.
pub open spec fn point_encode(p: Point) -> Fp5 {
    if p.inf {
        Fp5::zero()
    } else {
        ext_div(p.y, ext_sub(curve_shift(), p.x))
    }
}

/// Infinity is neutral on both sides.
pub proof fn lemma_add_identity(p: Point)
    requires
        p.wf(),
    ensures
        point_add(Point::identity(), p) == p,
        point_add(p, Point::identity()) == p,
{
}

/// A point and its negation add to infinity.
pub proof fn lemma_add_negation(p: Point)
    requires
        p.wf(),
    ensures
        point_add(p, point_neg(p)) == Point::identity(),
{
    if !p.inf && p.y == ext_neg(p.y) {
        // an element equal to its negation is zero, the modulus being odd
        lemma_self_opposite_is_zero(p.y.c0);
        lemma_self_opposite_is_zero(p.y.c1);
        lemma_self_opposite_is_zero(p.y.c2);
        lemma_self_opposite_is_zero(p.y.c3);
        lemma_self_opposite_is_zero(p.y.c4);
        assert(p.y == Fp5::zero());
    }
}

/// In the base field, only zero is its own negation.
proof fn lemma_self_opposite_is_zero(c: int)
    requires
        0 <= c < modulus(),
        c == (-c) % modulus(),
    ensures
        c == 0,
{
    let p = modulus();
    if c != 0 {
        vstd::arithmetic::div_mod::lemma_fundamental_div_mod_converse(-c, p, -1, p - c);
    }
}

/// Negating twice gives the point back.
pub proof fn lemma_neg_involution(p: Point)
    requires
        p.wf(),
    ensures
        point_neg(point_neg(p)) == p,
{
    if !p.inf {
        lemma_double_opposite(p.y.c0);
        lemma_double_opposite(p.y.c1);
        lemma_double_opposite(p.y.c2);
        lemma_double_opposite(p.y.c3);
        lemma_double_opposite(p.y.c4);
    }
}

/// In the base field, negating twice gives a canonical element back.
proof fn lemma_double_opposite(c: int)
    requires
        0 <= c < modulus(),
    ensures
        (-((-c) % modulus())) % modulus() == c,
{
    let p = modulus();
    if c != 0 {
        vstd::arithmetic::div_mod::lemma_fundamental_div_mod_converse(-c, p, -1, p - c);
        vstd::arithmetic::div_mod::lemma_fundamental_div_mod_converse(-(p - c), p, -1, c);
    }
}

/// Zero times any point is infinity, and infinity doubles to itself.
pub proof fn lemma_mul_zero(p: Point)
    ensures
        point_mul(0, p) == Point::identity(),
        point_double(Point::identity()) == Point::identity(),
{
}

/// One times a point is the point.
pub proof fn lemma_mul_one(p: Point)
    requires
        p.wf(),
    ensures
        point_mul(1, p) == p,
{
    reveal_with_fuel(point_mul, 2);
}

/// How the multiple by `2 k + bit` arises from the multiple by `k`.
pub proof fn lemma_mul_step(k: nat, bit: nat, p: Point)
    requires
        bit <= 1,
    ensures
        point_mul(2 * k + bit, p) == if bit == 1 {
            point_add(point_double(point_mul(k, p)), p)
        } else {
            point_double(point_mul(k, p))
        },
{
    assert((2 * k + bit) / 2 == k);
    assert((2 * k + bit) % 2 == bit);
    if 2 * k + bit == 0 {
        assert(k == 0);
    }
}

/// A point of the curve group: infinity or a pair of coordinates.
#[derive(Clone, Copy, PartialEq, Eq, Structural, Debug)]
pub struct CurvePoint {
    x: ExtensionField,
    y: ExtensionField,
    inf: bool,
}

impl View for CurvePoint {
    type V = Point;

    closed spec fn view(&self) -> Point {
        Point { x: self.x@, y: self.y@, inf: self.inf }
    }
}

impl CurvePoint {
    /// Canonical coordinates, zero at infinity, on the curve.
    #[verifier::type_invariant]
    spec fn valid(self) -> bool {
        &&& self.x@.canonical()
        &&& self.y@.canonical()
        &&& self.inf ==> self.x@ == Fp5::zero() && self.y@ == Fp5::zero()
        &&& on_curve(Point { x: self.x@, y: self.y@, inf: self.inf })
    }

    /// The point at infinity.
    pub fn identity() -> (r: CurvePoint)
        ensures
            r@ == Point::identity(),
    {
        CurvePoint { x: ExtensionField::zero(), y: ExtensionField::zero(), inf: true }
    }

    /// The generator of the group.
    pub fn generator() -> (r: CurvePoint)
        ensures
            r@ == generator(),
    {
        proof {
            lemma_generator_on_curve();
        }
        CurvePoint {
            x: ExtensionField::from_raw(&GENERATOR_X),
            y: ExtensionField::from_raw(&GENERATOR_Y),
            inf: false,
        }
    }

    /// Whether the coordinates satisfy the curve equation.
    fn satisfies_equation(x: &ExtensionField, y: &ExtensionField) -> (b: bool)
        ensures
            b == on_curve(Point { x: x@, y: y@, inf: false }),
    {
        let a = ExtensionField::from_raw(&CURVE_A);
        let b = ExtensionField::from_raw(&CURVE_B);
        let rhs = x.mul(x).mul(x).add(&a.mul(x)).add(&b);
        y.mul(y).equals(&rhs)
    }

    /// The point with the given coordinates, if it lies on the curve.
    pub fn new(x: ExtensionField, y: ExtensionField) -> (r: Option<CurvePoint>)
        ensures
            r is Some <==> on_curve(Point { x: x@, y: y@, inf: false }),
            r matches Some(p) ==> p@ == (Point { x: x@, y: y@, inf: false }),
    {
        let _ = x.to_canonical_u64s();
        let _ = y.to_canonical_u64s();
        if CurvePoint::satisfies_equation(&x, &y) {
            Some(CurvePoint { x, y, inf: false })
        } else {
            None
        }
    }

    /// Whether the point is at infinity. Every point is well formed and
    /// lies on the curve.
    pub fn is_identity(&self) -> (b: bool)
        ensures
            b == self@.inf,
            self@.wf(),
            on_curve(self@),
    {
        proof {
            use_type_invariant(self);
        }
        self.inf
    }

    /// The first coordinate; zero at infinity.
    pub fn x(&self) -> (r: ExtensionField)
        ensures
            r@ == self@.x,
    {
        self.x
    }

    /// The second coordinate; zero at infinity.
    pub fn y(&self) -> (r: ExtensionField)
        ensures
            r@ == self@.y,
    {
        self.y
    }

    /// Equality of points.
    pub fn equals(&self, rhs: &CurvePoint) -> (b: bool)
        ensures
            b == (self@ == rhs@),
    {
        self.inf == rhs.inf && self.x.equals(&rhs.x) && self.y.equals(&rhs.y)
    }

    /// The additive inverse.
    pub fn negate(&self) -> (r: CurvePoint)
        ensures
            r@ == point_neg(self@),
    {
        proof {
            use_type_invariant(self);
            lemma_negation_on_curve(self@);
        }
        if self.inf {
            CurvePoint::identity()
        } else {
            CurvePoint { x: self.x, y: self.y.neg(), inf: false }
        }
    }

    /// The third point of a line through `self`, mirrored.
    fn chord(&self, lambda: &ExtensionField, x2: &ExtensionField) -> (r: CurvePoint)
        requires
            on_curve(chord(self@, lambda@, x2@)),
        ensures
            r@ == chord(self@, lambda@, x2@),
    {
        let x3 = lambda.mul(lambda).sub(&self.x).sub(x2);
        let y3 = lambda.mul(&self.x.sub(&x3)).sub(&self.y);
        CurvePoint { x: x3, y: y3, inf: false }
    }

    /// Doubling, identity-preserving.
    pub fn double(&self) -> (r: CurvePoint)
        ensures
            r@ == point_double(self@),
    {
        if self.inf || self.y.is_zero() {
            return CurvePoint::identity();
        }
        let a = ExtensionField::from_raw(&CURVE_A);
        let xx = self.x.mul(&self.x);
        let lambda = xx.add(&xx).add(&xx).add(&a).div(&self.y.add(&self.y));
        proof {
            use_type_invariant(self);
            lemma_tangent_on_curve(self@);
        }
        self.chord(&lambda, &self.x)
    }

    /// The group law, with its cases told apart.
    pub fn add(&self, rhs: &CurvePoint) -> (r: CurvePoint)
        ensures
            r@ == point_add(self@, rhs@),
    {
        if self.inf {
            return *rhs;
        }
        if rhs.inf {
            return *self;
        }
        if self.x.equals(&rhs.x) {
            if self.y.equals(&rhs.y) {
                return self.double();
            }
            return CurvePoint::identity();
        }
        let lambda = rhs.y.sub(&self.y).div(&rhs.x.sub(&self.x));
        proof {
            use_type_invariant(self);
            use_type_invariant(rhs);
            lemma_chord_on_curve(self@, rhs@);
        }
        self.chord(&lambda, &rhs.x)
    }

    /// The multiple `k * self`, by doubling and adding over the bits of
    /// `k`, most significant first.
    pub fn scalar_mul(&self, k: &Scalar) -> (r: CurvePoint)
        ensures
            r@ == point_mul(k@ as nat, self@),
    {
        let mut window = k.to_limbs();
        let ghost value = k@;
        let mut acc = CurvePoint::identity();
        let ghost mut prefix: nat = 0;
        let ghost mut scaled: int = value;
        let mut i: usize = 0;
        proof {
            lemma2_to64();
            assert(value * 1 == value);
        }
        while i < 320
            invariant
                i <= 320,
                0 <= value,
                prefix * limbs_bound() + limbs_value(window@) == scaled,
                scaled == value * pow2(i as nat),
                acc@ == point_mul(prefix, self@),
            decreases 320 - i,
        {
            let (shifted, top) = shift_left(&window);
            let doubled = acc.double();
            let ghost bit: nat = if top {
                1
            } else {
                0
            };
            let next = if top {
                doubled.add(self)
            } else {
                doubled
            };
            proof {
                lemma_pow2_unfold((i + 1) as nat);
                assert(value * (2 * pow2(i as nat)) == 2 * (value * pow2(i as nat)))
                    by (nonlinear_arith);
                lemma_mul_step(prefix, bit, self@);
                prefix = 2 * prefix + bit;
                scaled = 2 * scaled;
            }
            acc = next;
            window = shifted;
            i += 1;
        }
        proof {
            lemma_limb_powers();
            let k = limbs_bound();
            let rest = limbs_value(window@);
            assert((prefix - value) * k == -rest) by (nonlinear_arith)
                requires
                    prefix * k + rest == value * k,
            ;
            assert(prefix - value == 0) by (nonlinear_arith)
                requires
                    (prefix - value) * k == -rest,
                    0 <= rest < k,
                    k > 0,
            ;
        }
        acc
    }

    /// The encoding of the point as one extension-field element.
    pub fn encode(&self) -> (r: ExtensionField)
        ensures
            r@ == point_encode(self@),
    {
        if self.inf {
            return ExtensionField::zero();
        }
        let shift = ExtensionField::from_raw(&CURVE_SHIFT);
        self.y.div(&shift.sub(&self.x))
    }
}

} // verus!
