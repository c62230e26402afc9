//! The Goldilocks prime field: integers modulo `2^64 - 2^32 + 1`.
//!
//! Specifications speak of field elements as mathematical integers in
//! `[0, MODULUS)`; the executable type `BaseField` always holds that
//! canonical representative.

use crate::prime::lemma_modulus_prime;
use vstd::arithmetic::div_mod::*;
use vstd::arithmetic::mul::*;
use vstd::prelude::*;

verus! {

/// The field characteristic `p = 2^64 - 2^32 + 1`.
pub const MODULUS: u64 = 0xFFFF_FFFF_0000_0001;

/// The field characteristic as a mathematical integer.
pub open spec fn modulus() -> int {
    0xFFFF_FFFF_0000_0001
}

/// Whether `a` is the canonical representative of its residue class.
pub open spec fn fp_canonical(a: int) -> bool {
    0 <= a < modulus()
}

/// Canonical representative of an arbitrary integer.
pub open spec fn fp_reduce(a: int) -> int {
    a % modulus()
}

/// Field addition.
pub open spec fn fp_add(a: int, b: int) -> int {
    (a + b) % modulus()
}

/// Field subtraction.
pub open spec fn fp_sub(a: int, b: int) -> int {
    (a - b) % modulus()
}

/// Field negation.
pub open spec fn fp_neg(a: int) -> int {
    (-a) % modulus()
}

/// Field multiplication.
pub open spec fn fp_mul(a: int, b: int) -> int {
    (a * b) % modulus()
}

/// Whether `r` is the canonical multiplicative inverse of `a`.
pub open spec fn fp_is_inverse(a: int, r: int) -> bool {
    fp_canonical(r) && fp_mul(a, r) == 1
}

/// The multiplicative inverse of `a`, and `0` where `a` has none.
pub open spec fn fp_inv(a: int) -> int {
    if exists|r: int| fp_is_inverse(a, r) {
        choose|r: int| fp_is_inverse(a, r)
    } else {
        0
    }
}

/// The ways a field operation can fail.
#[derive(Clone, Copy, PartialEq, Eq, Structural, Debug)]
pub enum FieldError {
    /// The additive identity has no multiplicative inverse.
    DivisionByZero,
}

/// An element of the Goldilocks field, held in canonical form.
#[derive(Clone, Copy, PartialEq, Eq, Structural, Debug)]
pub struct BaseField {
    value: u64,
}

impl View for BaseField {
    type V = int;

    closed spec fn view(&self) -> int {
        self.value as int
    }
}

/// The integers that a sequence of raw encodings holds.
pub open spec fn encodings_view(s: Seq<u64>) -> Seq<int> {
    s.map_values(|x: u64| x as int)
}

/// The field elements that a sequence of executable elements holds.
pub open spec fn elements_view(s: Seq<BaseField>) -> Seq<int> {
    s.map_values(|x: BaseField| x@)
}

/// Addition is associative.
pub proof fn lemma_add_associative(a: int, b: int, c: int)
    ensures
        fp_add(fp_add(a, b), c) == fp_add(a, fp_add(b, c)),
{
}

/// Addition is commutative.
pub proof fn lemma_add_commutative(a: int, b: int)
    ensures
        fp_add(a, b) == fp_add(b, a),
{
}

/// Multiplication is commutative.
pub proof fn lemma_mul_commutative(a: int, b: int)
    ensures
        fp_mul(a, b) == fp_mul(b, a),
{
    lemma_mul_is_commutative(a, b);
}

/// Multiplication is associative.
pub proof fn lemma_mul_associative(a: int, b: int, c: int)
    ensures
        fp_mul(fp_mul(a, b), c) == fp_mul(a, fp_mul(b, c)),
{
    let p = modulus();
    lemma_mul_mod_noop_left(a * b, c, p);
    lemma_mul_mod_noop_right(a, b * c, p);
    lemma_mul_is_associative(a, b, c);
}

/// Multiplication distributes over addition.
pub proof fn lemma_mul_distributes_over_add(a: int, b: int, c: int)
    ensures
        fp_mul(a, fp_add(b, c)) == fp_add(fp_mul(a, b), fp_mul(a, c)),
{
    let p = modulus();
    lemma_mul_mod_noop_right(a, b + c, p);
    lemma_mul_is_distributive_add(a, b, c);
    lemma_add_mod_noop(a * b, a * c, p);
}

/// Subtracting is adding the negation.
pub proof fn lemma_sub_is_add_neg(a: int, b: int)
    ensures
        fp_sub(a, b) == fp_add(a, fp_neg(b)),
{
    let p = modulus();
    lemma_add_mod_noop_right(a, -b, p);
}

/// A residue has at most one canonical inverse.
pub proof fn lemma_inverse_unique(a: int, r1: int, r2: int)
    requires
        fp_is_inverse(a, r1),
        fp_is_inverse(a, r2),
    ensures
        r1 == r2,
{
    let p = modulus();
    // r1 == r1 * (a * r2) == (r1 * a) * r2 == r2 modulo p
    lemma_mul_mod_noop_right(r1, a * r2, p);
    lemma_mul_mod_noop_left(r1 * a, r2, p);
    lemma_mul_is_associative(r1, a, r2);
    lemma_mul_is_commutative(r1, a);
    assert((r1 * (a * r2)) % p == (r1 * 1) % p);
    assert(((r1 * a) * r2) % p == (1 * r2) % p);
    lemma_small_mod(r1 as nat, p as nat);
    lemma_small_mod(r2 as nat, p as nat);
}

/// Whoever exhibits an inverse has found `fp_inv`.
pub proof fn lemma_inverse_is_fp_inv(a: int, r: int)
    requires
        fp_is_inverse(a, r),
    ensures
        fp_inv(a) == r,
{
    let c = choose|r: int| fp_is_inverse(a, r);
    lemma_inverse_unique(a, c, r);
}

/// Zero has no inverse.
pub proof fn lemma_zero_has_no_inverse(a: int)
    requires
        a % modulus() == 0,
    ensures
        forall|r: int| !fp_is_inverse(a, r),
        fp_inv(a) == 0,
{
    let p = modulus();
    assert forall|r: int| !fp_is_inverse(a, r) by {
        lemma_mul_mod_noop_left(a, r, p);
        assert((a * r) % p == (0 * r) % p);
    }
}

/// One step of the extended Euclidean algorithm keeps the cofactor in
/// step with the remainder.
proof fn lemma_euclid_step(a: int, t0: int, t1: int, r0: int, r1: int, q: int)
    requires
        (t0 * a) % modulus() == r0 % modulus(),
        (t1 * a) % modulus() == r1 % modulus(),
    ensures
        (fp_sub(t0, fp_mul(fp_reduce(q), t1)) * a) % modulus() == (r0 - q * r1) % modulus(),
{
    let p = modulus();
    let t2 = fp_sub(t0, fp_mul(fp_reduce(q), t1));
    // t2 is t0 - q * t1 modulo p
    lemma_mul_mod_noop_left(q, t1, p);
    lemma_sub_mod_noop_right(t0, q * t1, p);
    assert(t2 == (t0 - q * t1) % p);
    // so t2 * a is (t0 - q * t1) * a modulo p
    lemma_mul_mod_noop_left(t0 - q * t1, a, p);
    assert((t0 - q * t1) * a == t0 * a - q * (t1 * a)) by (nonlinear_arith);
    // and t0 * a, t1 * a may be replaced by r0, r1
    lemma_mul_mod_noop_right(q, t1 * a, p);
    lemma_mul_mod_noop_right(q, r1, p);
    lemma_sub_mod_noop(t0 * a, q * (t1 * a), p);
    lemma_sub_mod_noop(r0, q * r1, p);
}

/// A common divisor of a nonzero canonical residue and the modulus is one,
/// the modulus being prime.
proof fn lemma_common_divisor_is_one(a: int, g: int, u0: int, u1: int)
    requires
        0 < a < modulus(),
        0 < g,
        modulus() == u0 * g,
        a == u1 * g,
    ensures
        g == 1,
{
    let p = modulus();
    assert(g <= a) by (nonlinear_arith)
        requires
            a == u1 * g,
            0 < a,
            0 < g,
    ;
    if g > 1 {
        lemma_mod_multiples_basic(u0, g);
        lemma_modulus_prime(g);
    }
}

/// Bezout coefficients by Euclid's algorithm: a common divisor `g` of `a`
/// and `b` with `g == a * x + b * y`, and the cofactors `a == u * g`,
/// `b == v * g`.
proof fn lemma_bezout(a: int, b: int) -> (r: (int, int, int, int, int))
    requires
        a > 0,
        b >= 0,
    ensures
        ({
            let (g, x, y, u, v) = r;
            &&& g > 0
            &&& g == a * x + b * y
            &&& a == u * g
            &&& b == v * g
        }),
    decreases b,
{
    if b == 0 {
        assert(a * 1 + b * 0 == a) by (nonlinear_arith)
            requires
                b == 0,
        ;
        assert(a == 1 * a && b == 0 * a);
        (a, 1, 0, 1, 0)
    } else {
        let q = a / b;
        let m = a % b;
        lemma_fundamental_div_mod(a, b);
        let (g, x, y, u, v) = lemma_bezout(b, m);
        assert(g == a * y + b * (x - q * y)) by (nonlinear_arith)
            requires
                g == b * x + m * y,
                a == b * q + m,
        ;
        assert(a == (u * q + v) * g) by (nonlinear_arith)
            requires
                a == b * q + m,
                b == u * g,
                m == v * g,
        ;
        (g, y, x - q * y, u * q + v, u)
    }
}

/// Every nonzero residue has an inverse, and `fp_inv` is it.
pub proof fn lemma_mul_inverse(a: int)
    requires
        fp_reduce(a) != 0,
    ensures
        fp_is_inverse(a, fp_inv(a)),
        fp_mul(a, fp_inv(a)) == 1,
{
    let p = modulus();
    let a0 = a % p;
    let (g, x, y, u, v) = lemma_bezout(a0, p);
    lemma_common_divisor_is_one(a0, g, v, u);
    // 1 == a0 * x + p * y, so a0 * x is one modulo p
    assert(a0 * x == (-y) * p + 1) by (nonlinear_arith)
        requires
            1 == a0 * x + p * y,
    ;
    lemma_fundamental_div_mod_converse(a0 * x, p, -y, 1);
    let r = x % p;
    lemma_mul_mod_noop_general(a, x, p);
    lemma_mul_mod_noop_general(a0, x, p);
    lemma_mul_mod_noop_right(a, r, p);
    lemma_mod_twice(x, p);
    assert(fp_is_inverse(a, r));
}

/// The field has no zero divisors.
pub proof fn lemma_no_zero_divisors(a: int, b: int)
    requires
        fp_mul(a, b) == 0,
    ensures
        fp_reduce(a) == 0 || fp_reduce(b) == 0,
{
    let p = modulus();
    if fp_reduce(a) != 0 {
        // b == (inv * a) * b == inv * (a * b) == 0 modulo p
        lemma_mul_inverse(a);
        let i = fp_inv(a);
        lemma_mul_is_commutative(a, i);
        lemma_mul_is_associative(i, a, b);
        lemma_mul_mod_noop_left(i * a, b, p);
        lemma_mul_mod_noop_right(i, a * b, p);
        assert((i * (a * b)) % p == (i * 0) % p);
        assert(((i * a) * b) % p == (1 * b) % p);
    }
}

impl BaseField {
    /// The value is below the modulus.
    #[verifier::type_invariant]
    spec fn canonical(self) -> bool {
        self.value < MODULUS
    }

    /// The element that the raw encoding `x` stands for: `x` reduced.
    pub fn new(x: u64) -> (r: BaseField)
        ensures
            r@ == fp_reduce(x as int),
    {
        if x >= MODULUS {
            BaseField { value: x - MODULUS }
        } else {
            BaseField { value: x }
        }
    }

    /// The element that a wide accumulator stands for.
    pub fn from_u128(x: u128) -> (r: BaseField)
        ensures
            r@ == fp_reduce(x as int),
    {
        let m: u128 = x % (MODULUS as u128);
        BaseField { value: m as u64 }
    }

    /// The canonical encoding of the element.
    pub fn to_canonical_u64(&self) -> (r: u64)
        ensures
            r as int == self@,
            r < MODULUS,
            fp_canonical(self@),
    {
        proof {
            use_type_invariant(self);
        }
        self.value
    }

    /// The additive identity.
    pub fn zero() -> (r: BaseField)
        ensures
            r@ == 0,
    {
        BaseField { value: 0 }
    }

    /// The multiplicative identity.
    pub fn one() -> (r: BaseField)
        ensures
            r@ == 1,
    {
        BaseField { value: 1 }
    }

    /// Whether the element is the additive identity.
    pub fn is_zero(&self) -> (b: bool)
        ensures
            b == (self@ == 0),
    {
        self.value == 0
    }

    /// Equality of field elements.
    pub fn equals(&self, rhs: &BaseField) -> (b: bool)
        ensures
            b == (self@ == rhs@),
            b == (*self == *rhs),
    {
        self.value == rhs.value
    }

    /// Field addition.
    pub fn add(&self, rhs: &BaseField) -> (r: BaseField)
        ensures
            r@ == fp_add(self@, rhs@),
    {
        proof {
            use_type_invariant(self);
            use_type_invariant(rhs);
        }
        let s: u128 = self.value as u128 + rhs.value as u128;
        let m: u128 = MODULUS as u128;
        if s >= m {
            BaseField { value: (s - m) as u64 }
        } else {
            BaseField { value: s as u64 }
        }
    }

    /// Field subtraction.
    pub fn sub(&self, rhs: &BaseField) -> (r: BaseField)
        ensures
            r@ == fp_sub(self@, rhs@),
    {
        proof {
            use_type_invariant(self);
            use_type_invariant(rhs);
        }
        if self.value >= rhs.value {
            BaseField { value: self.value - rhs.value }
        } else {
            BaseField { value: MODULUS - (rhs.value - self.value) }
        }
    }

    /// Field negation.
    pub fn neg(&self) -> (r: BaseField)
        ensures
            r@ == fp_neg(self@),
    {
        proof {
            use_type_invariant(self);
        }
        if self.value == 0 {
            BaseField { value: 0 }
        } else {
            BaseField { value: MODULUS - self.value }
        }
    }

    /// Field multiplication.
    pub fn mul(&self, rhs: &BaseField) -> (r: BaseField)
        ensures
            r@ == fp_mul(self@, rhs@),
    {
        proof {
            use_type_invariant(self);
            use_type_invariant(rhs);
            lemma_mul_upper_bound(
                self.value as int,
                0xFFFF_FFFF_FFFF_FFFF,
                rhs.value as int,
                0xFFFF_FFFF_FFFF_FFFF,
            );
        }
        let wide: u128 = (self.value as u128) * (rhs.value as u128);
        let m: u128 = wide % (MODULUS as u128);
        BaseField { value: m as u64 }
    }

    /// The multiplicative inverse, by the extended Euclidean algorithm on
    /// the element and the modulus. Only zero is refused.
    pub fn invert(&self) -> (res: Result<BaseField, FieldError>)
        ensures
            res is Err <==> self@ == 0,
            res matches Ok(r) ==> fp_mul(self@, r@) == 1 && r@ == fp_inv(self@),
            res matches Err(e) ==> e == FieldError::DivisionByZero,
    {
        proof {
            use_type_invariant(self);
        }
        if self.value == 0 {
            return Err(FieldError::DivisionByZero);
        }
        let ghost a = self.value as int;
        let ghost p = modulus();
        let mut r0: u64 = MODULUS;
        let mut r1: u64 = self.value;
        let mut t0 = BaseField::zero();
        let mut t1 = BaseField::one();
        // the modulus and the element, as combinations of the two remainders
        let ghost mut u0: int = 1;
        let ghost mut v0: int = 0;
        let ghost mut u1: int = 0;
        let ghost mut v1: int = 1;
        proof {
            lemma_mod_self_0(p);
            assert((0 * a) % p == 0);
            assert(1 * a == a);
        }
        while r1 != 0
            invariant
                a == self.value as int,
                0 < a < modulus(),
                p == modulus(),
                r1 < r0 <= MODULUS,
                (t0@ * a) % p == (r0 as int) % p,
                (t1@ * a) % p == (r1 as int) % p,
                p == u0 * r0 + v0 * r1,
                a == u1 * r0 + v1 * r1,
            decreases r1,
        {
            let q = r0 / r1;
            let r2 = r0 % r1;
            let t2 = t0.sub(&BaseField::new(q).mul(&t1));
            proof {
                lemma_fundamental_div_mod(r0 as int, r1 as int);
                assert(r2 == r0 - q * r1) by (nonlinear_arith)
                    requires
                        r0 == r1 * q + r2,
                ;
                lemma_euclid_step(a, t0@, t1@, r0 as int, r1 as int, q as int);
                assert(p == (u0 * q + v0) * r1 + u0 * r2) by (nonlinear_arith)
                    requires
                        p == u0 * r0 + v0 * r1,
                        r0 == r1 * q + r2,
                ;
                assert(a == (u1 * q + v1) * r1 + u1 * r2) by (nonlinear_arith)
                    requires
                        a == u1 * r0 + v1 * r1,
                        r0 == r1 * q + r2,
                ;
                let nu0 = u0 * q + v0;
                let nu1 = u1 * q + v1;
                v0 = u0;
                v1 = u1;
                u0 = nu0;
                u1 = nu1;
            }
            r0 = r1;
            r1 = r2;
            t0 = t1;
            t1 = t2;
        }
        proof {
            assert(p == u0 * r0) by (nonlinear_arith)
                requires
                    p == u0 * r0 + v0 * r1,
                    r1 == 0,
            ;
            assert(a == u1 * r0) by (nonlinear_arith)
                requires
                    a == u1 * r0 + v1 * r1,
                    r1 == 0,
            ;
            lemma_common_divisor_is_one(a, r0 as int, u0, u1);
            lemma_mul_is_commutative(t0@, a);
            use_type_invariant(&t0);
            lemma_inverse_is_fp_inv(a, t0@);
        }
        Ok(t0)
    }

    /// The square of the element.
    pub fn square(&self) -> (r: BaseField)
        ensures
            r@ == fp_mul(self@, self@),
    {
        self.mul(self)
    }
}

} // verus!
