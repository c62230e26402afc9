//! The quintic extension of the Goldilocks field: polynomials of degree at
//! most four in `x`, multiplied modulo `x^5 - 3`.

use crate::field::{
    elements_view, encodings_view, fp_add, fp_canonical, fp_inv, fp_mul, fp_neg, fp_reduce, fp_sub, modulus, BaseField, FieldError,
};
use crate::extension_laws::{lemma_ext_inverse_of_norm_zero, lemma_norm_of_zero};
use crate::zero_divisors::{lemma_nonzero_has_inverse, lemma_nonzero_norm};
use vstd::arithmetic::div_mod::*;
use vstd::prelude::*;

verus! {

/// The constant `3` of the reduction polynomial `x^5 - 3`.
pub const NON_RESIDUE: u64 = 3;

/// `3^((p - 1) / 5)`: a primitive fifth root of unity of the base field.
/// Raising `x` to the power `p` multiplies it by this constant.
pub const FROBENIUS_1: u64 = 1041288259238279555;

/// The square of `FROBENIUS_1`.
pub const FROBENIUS_2: u64 = 15820824984080659046;

/// The cube of `FROBENIUS_1`.
pub const FROBENIUS_3: u64 = 211587555138949697;

/// The fourth power of `FROBENIUS_1`.
pub const FROBENIUS_4: u64 = 1373043270956696022;

/// A mathematical element of the extension: the coefficients of
/// `c0 + c1 x + c2 x^2 + c3 x^3 + c4 x^4`.
pub struct Fp5 {
    pub c0: int,
    pub c1: int,
    pub c2: int,
    pub c3: int,
    pub c4: int,
}

impl Fp5 {
    /// Whether every coefficient is canonical.
    pub open spec fn canonical(self) -> bool {
        &&& fp_canonical(self.c0)
        &&& fp_canonical(self.c1)
        &&& fp_canonical(self.c2)
        &&& fp_canonical(self.c3)
        &&& fp_canonical(self.c4)
    }

    /// The additive identity.
    pub open spec fn zero() -> Fp5 {
        Fp5 { c0: 0, c1: 0, c2: 0, c3: 0, c4: 0 }
    }

    /// The multiplicative identity.
    pub open spec fn one() -> Fp5 {
        Fp5 { c0: 1, c1: 0, c2: 0, c3: 0, c4: 0 }
    }

    /// The image of a base-field element.
    pub open spec fn embed(c: int) -> Fp5 {
        Fp5 { c0: c, c1: 0, c2: 0, c3: 0, c4: 0 }
    }

    /// The coefficients in order.
    pub open spec fn coefficients(self) -> Seq<int> {
        seq![self.c0, self.c1, self.c2, self.c3, self.c4]
    }
}

/// Coefficient-wise reduction of five raw encodings.
pub open spec fn ext_from_raw(raw: Seq<u64>) -> Fp5 {
    Fp5 {
        c0: fp_reduce(raw[0] as int),
        c1: fp_reduce(raw[1] as int),
        c2: fp_reduce(raw[2] as int),
        c3: fp_reduce(raw[3] as int),
        c4: fp_reduce(raw[4] as int),
    }
}

/// Coefficient-wise addition.
pub open spec fn ext_add(a: Fp5, b: Fp5) -> Fp5 {
    Fp5 {
        c0: fp_add(a.c0, b.c0),
        c1: fp_add(a.c1, b.c1),
        c2: fp_add(a.c2, b.c2),
        c3: fp_add(a.c3, b.c3),
        c4: fp_add(a.c4, b.c4),
    }
}

/// Coefficient-wise subtraction.
pub open spec fn ext_sub(a: Fp5, b: Fp5) -> Fp5 {
    Fp5 {
        c0: fp_sub(a.c0, b.c0),
        c1: fp_sub(a.c1, b.c1),
        c2: fp_sub(a.c2, b.c2),
        c3: fp_sub(a.c3, b.c3),
        c4: fp_sub(a.c4, b.c4),
    }
}

/// Coefficient-wise negation.
pub open spec fn ext_neg(a: Fp5) -> Fp5 {
    Fp5 {
        c0: fp_neg(a.c0),
        c1: fp_neg(a.c1),
        c2: fp_neg(a.c2),
        c3: fp_neg(a.c3),
        c4: fp_neg(a.c4),
    }
}

/// Multiplication by a base-field element.
pub open spec fn ext_scale(a: Fp5, k: int) -> Fp5 {
    Fp5 {
        c0: fp_mul(a.c0, k),
        c1: fp_mul(a.c1, k),
        c2: fp_mul(a.c2, k),
        c3: fp_mul(a.c3, k),
        c4: fp_mul(a.c4, k),
    }
}

/// The product of the two polynomials, with `x^5` replaced by `3`.
pub open spec fn ext_mul(a: Fp5, b: Fp5) -> Fp5 {
    Fp5 {
        c0: (a.c0 * b.c0 + 3 * (a.c1 * b.c4 + a.c2 * b.c3 + a.c3 * b.c2 + a.c4 * b.c1))
            % modulus(),
        c1: (a.c0 * b.c1 + a.c1 * b.c0 + 3 * (a.c2 * b.c4 + a.c3 * b.c3 + a.c4 * b.c2))
            % modulus(),
        c2: (a.c0 * b.c2 + a.c1 * b.c1 + a.c2 * b.c0 + 3 * (a.c3 * b.c4 + a.c4 * b.c3))
            % modulus(),
        c3: (a.c0 * b.c3 + a.c1 * b.c2 + a.c2 * b.c1 + a.c3 * b.c0 + 3 * (a.c4 * b.c4))
            % modulus(),
        c4: (a.c0 * b.c4 + a.c1 * b.c3 + a.c2 * b.c2 + a.c3 * b.c1 + a.c4 * b.c0) % modulus(),
    }
}

/// The Frobenius map `a -> a^p`, which multiplies the coefficient of `x^i`
/// by the `i`-th power of `FROBENIUS_1`.
pub open spec fn ext_frobenius(a: Fp5) -> Fp5 {
    Fp5 {
        c0: fp_reduce(a.c0),
        c1: fp_mul(a.c1, FROBENIUS_1 as int),
        c2: fp_mul(a.c2, FROBENIUS_2 as int),
        c3: fp_mul(a.c3, FROBENIUS_3 as int),
        c4: fp_mul(a.c4, FROBENIUS_4 as int),
    }
}

/// The product of the four proper Frobenius conjugates of `a`.
pub open spec fn ext_conjugates(a: Fp5) -> Fp5 {
    let f1 = ext_frobenius(a);
    let f2 = ext_frobenius(f1);
    let f3 = ext_frobenius(f2);
    let f4 = ext_frobenius(f3);
    ext_mul(ext_mul(ext_mul(f1, f2), f3), f4)
}

/// The field norm of `a`: the constant coefficient of `a` times its
/// conjugates, a base-field element.
pub open spec fn ext_norm(a: Fp5) -> int {
    ext_mul(a, ext_conjugates(a)).c0
}

/// The inverse of `a` by the norm formula: the conjugates of `a` divided
/// by its norm. For zero, whose norm is zero, this is zero.
pub open spec fn ext_inv(a: Fp5) -> Fp5 {
    ext_scale(ext_conjugates(a), fp_inv(ext_norm(a)))
}

/// Whether `r` is a canonical inverse of `a`.
pub open spec fn ext_is_inverse(a: Fp5, r: Fp5) -> bool {
    r.canonical() && ext_mul(a, r) == Fp5::one()
}

/// Whether `a` has an inverse in the extension.
pub open spec fn ext_has_inverse(a: Fp5) -> bool {
    exists|r: Fp5| ext_is_inverse(a, r)
}

/// Division: multiplication by `ext_inv`.
pub open spec fn ext_div(a: Fp5, b: Fp5) -> Fp5 {
    ext_mul(a, ext_inv(b))
}

/// Zero times anything is zero.
pub proof fn lemma_ext_mul_zero_left(b: Fp5)
    ensures
        ext_mul(Fp5::zero(), b) == Fp5::zero(),
{
    assert(0 * b.c0 == 0 && 0 * b.c1 == 0 && 0 * b.c2 == 0 && 0 * b.c3 == 0 && 0 * b.c4 == 0);
}

/// One is the identity of multiplication.
pub proof fn lemma_ext_mul_one(a: Fp5)
    requires
        a.canonical(),
    ensures
        ext_mul(a, Fp5::one()) == a,
        ext_mul(Fp5::one(), a) == a,
{
    assert(a.c0 * 0 == 0 && a.c1 * 0 == 0 && a.c2 * 0 == 0 && a.c3 * 0 == 0 && a.c4 * 0 == 0);
    assert(0 * a.c0 == 0 && 0 * a.c1 == 0 && 0 * a.c2 == 0 && 0 * a.c3 == 0 && 0 * a.c4 == 0);
    assert(a.c0 * 1 == a.c0 && a.c1 * 1 == a.c1 && a.c2 * 1 == a.c2 && a.c3 * 1 == a.c3 && a.c4
        * 1 == a.c4);
    assert(1 * a.c0 == a.c0 && 1 * a.c1 == a.c1 && 1 * a.c2 == a.c2 && 1 * a.c3 == a.c3 && 1
        * a.c4 == a.c4);
}

/// An element of the quintic extension, every coefficient canonical.
#[derive(Clone, Copy, PartialEq, Eq, Structural, Debug)]
pub struct ExtensionField {
    c0: BaseField,
    c1: BaseField,
    c2: BaseField,
    c3: BaseField,
    c4: BaseField,
}

impl View for ExtensionField {
    type V = Fp5;

    closed spec fn view(&self) -> Fp5 {
        Fp5 { c0: self.c0@, c1: self.c1@, c2: self.c2@, c3: self.c3@, c4: self.c4@ }
    }
}

/// The sum of two products of base-field elements.
fn dot2(a0: &BaseField, b0: &BaseField, a1: &BaseField, b1: &BaseField) -> (r: BaseField)
    ensures
        r@ == (a0@ * b0@ + a1@ * b1@) % modulus(),
{
    let r = a0.mul(b0).add(&a1.mul(b1));
    proof {
        lemma_add_mod_noop(a0@ * b0@, a1@ * b1@, modulus());
    }
    r
}

/// `acc + a * b`, where `acc` stands for the integer `s` modulo the modulus.
fn mul_acc(acc: &BaseField, a: &BaseField, b: &BaseField, Ghost(s): Ghost<int>) -> (r: BaseField)
    requires
        acc@ == s % modulus(),
    ensures
        r@ == (s + a@ * b@) % modulus(),
{
    let r = acc.add(&a.mul(b));
    proof {
        lemma_add_mod_noop(s, a@ * b@, modulus());
    }
    r
}

/// `low + 3 * high`, where the two stand for `l` and `h` modulo the modulus.
fn fold(low: &BaseField, high: &BaseField, Ghost(l): Ghost<int>, Ghost(h): Ghost<int>) -> (r:
    BaseField)
    requires
        low@ == l % modulus(),
        high@ == h % modulus(),
    ensures
        r@ == (l + 3 * h) % modulus(),
{
    let three = BaseField::new(NON_RESIDUE);
    let r = low.add(&three.mul(high));
    proof {
        lemma_mul_mod_noop_right(3, h, modulus());
        lemma_add_mod_noop(l, 3 * h, modulus());
    }
    r
}

impl ExtensionField {
    /// The element with the given coefficients, lowest degree first.
    pub fn new(c0: BaseField, c1: BaseField, c2: BaseField, c3: BaseField, c4: BaseField) -> (r:
        ExtensionField)
        ensures
            r@ == (Fp5 { c0: c0@, c1: c1@, c2: c2@, c3: c3@, c4: c4@ }),
    {
        ExtensionField { c0, c1, c2, c3, c4 }
    }

    /// The element that five raw encodings stand for, each reduced.
    pub fn from_raw(raw: &[u64; 5]) -> (r: ExtensionField)
        ensures
            r@ == ext_from_raw(raw@),
    {
        ExtensionField {
            c0: BaseField::new(raw[0]),
            c1: BaseField::new(raw[1]),
            c2: BaseField::new(raw[2]),
            c3: BaseField::new(raw[3]),
            c4: BaseField::new(raw[4]),
        }
    }

    /// The image of a base-field element.
    pub fn from_base(c: BaseField) -> (r: ExtensionField)
        ensures
            r@ == Fp5::embed(c@),
    {
        ExtensionField {
            c0: c,
            c1: BaseField::zero(),
            c2: BaseField::zero(),
            c3: BaseField::zero(),
            c4: BaseField::zero(),
        }
    }

    /// The additive identity.
    pub fn zero() -> (r: ExtensionField)
        ensures
            r@ == Fp5::zero(),
    {
        ExtensionField::from_base(BaseField::zero())
    }

    /// The multiplicative identity.
    pub fn one() -> (r: ExtensionField)
        ensures
            r@ == Fp5::one(),
    {
        ExtensionField::from_base(BaseField::one())
    }

    /// The canonical encodings of the five coefficients, lowest degree first.
    pub fn to_canonical_u64s(&self) -> (r: [u64; 5])
        ensures
            encodings_view(r@) == self@.coefficients(),
            forall|i: int| 0 <= i < 5 ==> r[i] < crate::field::MODULUS,
            self@.canonical(),
    {
        let r = [
            self.c0.to_canonical_u64(),
            self.c1.to_canonical_u64(),
            self.c2.to_canonical_u64(),
            self.c3.to_canonical_u64(),
            self.c4.to_canonical_u64(),
        ];
        assert(encodings_view(r@) =~= self@.coefficients());
        r
    }

    /// The five coefficients, lowest degree first.
    pub fn coefficients(&self) -> (r: [BaseField; 5])
        ensures
            elements_view(r@) == self@.coefficients(),
            self@.canonical(),
    {
        let r = [self.c0, self.c1, self.c2, self.c3, self.c4];
        let _ = self.to_canonical_u64s();
        assert(elements_view(r@) =~= self@.coefficients());
        r
    }

    /// Coefficient `i`, for `i` below five.
    pub(crate) fn coefficient(&self, i: usize) -> (r: BaseField)
        requires
            i < 5,
        ensures
            r@ == self@.coefficients()[i as int],
    {
        if i == 0 {
            self.c0
        } else if i == 1 {
            self.c1
        } else if i == 2 {
            self.c2
        } else if i == 3 {
            self.c3
        } else {
            self.c4
        }
    }

    /// Whether the element is zero.
    pub fn is_zero(&self) -> (b: bool)
        ensures
            b == (self@ == Fp5::zero()),
    {
        self.c0.is_zero() && self.c1.is_zero() && self.c2.is_zero() && self.c3.is_zero()
            && self.c4.is_zero()
    }

    /// Coefficient-wise equality.
    pub fn equals(&self, rhs: &ExtensionField) -> (b: bool)
        ensures
            b == (self@ == rhs@),
    {
        self.c0.equals(&rhs.c0) && self.c1.equals(&rhs.c1) && self.c2.equals(&rhs.c2)
            && self.c3.equals(&rhs.c3) && self.c4.equals(&rhs.c4)
    }

    /// Coefficient-wise addition.
    pub fn add(&self, rhs: &ExtensionField) -> (r: ExtensionField)
        ensures
            r@ == ext_add(self@, rhs@),
    {
        ExtensionField {
            c0: self.c0.add(&rhs.c0),
            c1: self.c1.add(&rhs.c1),
            c2: self.c2.add(&rhs.c2),
            c3: self.c3.add(&rhs.c3),
            c4: self.c4.add(&rhs.c4),
        }
    }

    /// Coefficient-wise subtraction.
    pub fn sub(&self, rhs: &ExtensionField) -> (r: ExtensionField)
        ensures
            r@ == ext_sub(self@, rhs@),
    {
        ExtensionField {
            c0: self.c0.sub(&rhs.c0),
            c1: self.c1.sub(&rhs.c1),
            c2: self.c2.sub(&rhs.c2),
            c3: self.c3.sub(&rhs.c3),
            c4: self.c4.sub(&rhs.c4),
        }
    }

    /// Coefficient-wise negation.
    pub fn neg(&self) -> (r: ExtensionField)
        ensures
            r@ == ext_neg(self@),
    {
        ExtensionField {
            c0: self.c0.neg(),
            c1: self.c1.neg(),
            c2: self.c2.neg(),
            c3: self.c3.neg(),
            c4: self.c4.neg(),
        }
    }

    /// Multiplication by a base-field element.
    pub fn scale(&self, k: &BaseField) -> (r: ExtensionField)
        ensures
            r@ == ext_scale(self@, k@),
    {
        ExtensionField {
            c0: self.c0.mul(k),
            c1: self.c1.mul(k),
            c2: self.c2.mul(k),
            c3: self.c3.mul(k),
            c4: self.c4.mul(k),
        }
    }

    /// Schoolbook multiplication: twenty-five base-field products, the ones
    /// of degree five and above folded back with the factor three.
    pub fn mul(&self, rhs: &ExtensionField) -> (r: ExtensionField)
        ensures
            r@ == ext_mul(self@, rhs@),
    {
        let a = self;
        let b = rhs;
        let ghost (a0, a1, a2, a3, a4) = (a.c0@, a.c1@, a.c2@, a.c3@, a.c4@);
        let ghost (b0, b1, b2, b3, b4) = (b.c0@, b.c1@, b.c2@, b.c3@, b.c4@);

        let h0 = dot2(&a.c1, &b.c4, &a.c2, &b.c3);
        let h0 = mul_acc(&h0, &a.c3, &b.c2, Ghost(a1 * b4 + a2 * b3));
        let h0 = mul_acc(&h0, &a.c4, &b.c1, Ghost(a1 * b4 + a2 * b3 + a3 * b2));
        let l0 = a.c0.mul(&b.c0);
        let c0 = fold(&l0, &h0, Ghost(a0 * b0), Ghost(a1 * b4 + a2 * b3 + a3 * b2 + a4 * b1));

        let h1 = dot2(&a.c2, &b.c4, &a.c3, &b.c3);
        let h1 = mul_acc(&h1, &a.c4, &b.c2, Ghost(a2 * b4 + a3 * b3));
        let l1 = dot2(&a.c0, &b.c1, &a.c1, &b.c0);
        let c1 = fold(&l1, &h1, Ghost(a0 * b1 + a1 * b0), Ghost(a2 * b4 + a3 * b3 + a4 * b2));

        let h2 = dot2(&a.c3, &b.c4, &a.c4, &b.c3);
        let l2 = dot2(&a.c0, &b.c2, &a.c1, &b.c1);
        let l2 = mul_acc(&l2, &a.c2, &b.c0, Ghost(a0 * b2 + a1 * b1));
        let c2 = fold(&l2, &h2, Ghost(a0 * b2 + a1 * b1 + a2 * b0), Ghost(a3 * b4 + a4 * b3));

        let h3 = a.c4.mul(&b.c4);
        let l3 = dot2(&a.c0, &b.c3, &a.c1, &b.c2);
        let l3 = mul_acc(&l3, &a.c2, &b.c1, Ghost(a0 * b3 + a1 * b2));
        let l3 = mul_acc(&l3, &a.c3, &b.c0, Ghost(a0 * b3 + a1 * b2 + a2 * b1));
        let c3 = fold(&l3, &h3, Ghost(a0 * b3 + a1 * b2 + a2 * b1 + a3 * b0), Ghost(a4 * b4));

        let l4 = dot2(&a.c0, &b.c4, &a.c1, &b.c3);
        let l4 = mul_acc(&l4, &a.c2, &b.c2, Ghost(a0 * b4 + a1 * b3));
        let l4 = mul_acc(&l4, &a.c3, &b.c1, Ghost(a0 * b4 + a1 * b3 + a2 * b2));
        let c4 = mul_acc(&l4, &a.c4, &b.c0, Ghost(a0 * b4 + a1 * b3 + a2 * b2 + a3 * b1));

        ExtensionField { c0, c1, c2, c3, c4 }
    }

    /// The square of the element.
    pub fn square(&self) -> (r: ExtensionField)
        ensures
            r@ == ext_mul(self@, self@),
    {
        self.mul(self)
    }

    /// The Frobenius conjugate `self^p`.
    pub fn frobenius(&self) -> (r: ExtensionField)
        ensures
            r@ == ext_frobenius(self@),
    {
        let _ = self.c0.to_canonical_u64();
        ExtensionField {
            c0: self.c0,
            c1: self.c1.mul(&BaseField::new(FROBENIUS_1)),
            c2: self.c2.mul(&BaseField::new(FROBENIUS_2)),
            c3: self.c3.mul(&BaseField::new(FROBENIUS_3)),
            c4: self.c4.mul(&BaseField::new(FROBENIUS_4)),
        }
    }

    /// The inverse, by the norm formula: the product of the four conjugates,
    /// divided by the norm. Only zero is refused: the extension is a field.
    pub fn invert(&self) -> (res: Result<ExtensionField, FieldError>)
        ensures
            res is Err <==> self@ == Fp5::zero(),
            res matches Ok(r) ==> r@ == ext_inv(self@) && ext_mul(self@, r@) == Fp5::one(),
            res matches Err(e) ==> e == FieldError::DivisionByZero,
    {
        let _ = self.to_canonical_u64s();
        let f1 = self.frobenius();
        let f2 = f1.frobenius();
        let f3 = f2.frobenius();
        let f4 = f3.frobenius();
        let conjugates = f1.mul(&f2).mul(&f3).mul(&f4);
        let norm = self.mul(&conjugates).c0;
        proof {
            lemma_norm_of_zero();
            if self@ != Fp5::zero() {
                lemma_nonzero_has_inverse(self@);
                lemma_nonzero_norm(self@);
            }
        }
        match norm.invert() {
            Ok(k) => Ok(conjugates.scale(&k)),
            Err(e) => Err(e),
        }
    }

    /// The inverse, and zero for zero.
    pub fn invert_or_zero(&self) -> (r: ExtensionField)
        ensures
            r@ == ext_inv(self@),
    {
        proof {
            lemma_norm_of_zero();
            lemma_ext_inverse_of_norm_zero(Fp5::zero());
        }
        match self.invert() {
            Ok(r) => r,
            Err(_) => ExtensionField::zero(),
        }
    }

    /// Division: multiplication by `invert_or_zero`.
    pub fn div(&self, rhs: &ExtensionField) -> (r: ExtensionField)
        ensures
            r@ == ext_div(self@, rhs@),
    {
        self.mul(&rhs.invert_or_zero())
    }
}

} // verus!
