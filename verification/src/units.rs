//! The units of the quintic extension: the elements that have an inverse
//! are the elements of nonzero norm.
//!
//! The norm is multiplicative and the norm of one is one, so an element
//! with an inverse has a norm with an inverse, which is not zero.
//! Conversely an element of nonzero norm has the inverse that the norm
//! formula gives, and no other.
//!
//! That only zero has norm zero, which makes the extension a field, is
//! proved in `zero_divisors`.

use crate::extension::{
    ext_conjugates, ext_frobenius, ext_has_inverse, ext_inv, ext_is_inverse, ext_mul, ext_norm,
    lemma_ext_mul_one, Fp5,
};
use crate::extension_laws::{
    lemma_ext_inverse, lemma_ext_mul_associative, lemma_ext_mul_commutative,
    lemma_frobenius_multiplicative, lemma_norm_is_product,
};
use crate::field::fp_mul;
use crate::ring::{lemma_prod_associates, lemma_prod_commutes, prod};
use vstd::prelude::*;

verus! {

/// The Frobenius map, as an opaque operation.
#[verifier::opaque]
pub open spec fn frob(a: Fp5) -> Fp5 {
    ext_frobenius(a)
}

/// The product of the four proper conjugates, over the opaque operations.
pub open spec fn conjugates(a: Fp5) -> Fp5 {
    let f1 = frob(a);
    let f2 = frob(f1);
    let f3 = frob(f2);
    let f4 = frob(f3);
    prod(prod(prod(f1, f2), f3), f4)
}

/// The Frobenius map respects products.
proof fn lemma_frob_prod(a: Fp5, b: Fp5)
    ensures
        frob(prod(a, b)) == prod(frob(a), frob(b)),
{
    reveal(frob);
    reveal(prod);
    lemma_frobenius_multiplicative(a, b);
}

/// The conjugates of a product are the products of the conjugates.
proof fn lemma_conjugates_multiplicative(a: Fp5, b: Fp5)
    ensures
        conjugates(prod(a, b)) == prod(conjugates(a), conjugates(b)),
{
    broadcast use lemma_prod_commutes, lemma_prod_associates;
    let a1 = frob(a);
    let a2 = frob(a1);
    let a3 = frob(a2);
    let a4 = frob(a3);
    let b1 = frob(b);
    let b2 = frob(b1);
    let b3 = frob(b2);
    let b4 = frob(b3);
    lemma_frob_prod(a, b);
    lemma_frob_prod(a1, b1);
    lemma_frob_prod(a2, b2);
    lemma_frob_prod(a3, b3);
    let c1 = prod(a1, b1);
    let c2 = prod(a2, b2);
    let c3 = prod(a3, b3);
    let c4 = prod(a4, b4);
    assert(conjugates(prod(a, b)) == prod(prod(prod(c1, c2), c3), c4));
    assert(prod(c1, c2) == prod(prod(a1, a2), prod(b1, b2)));
    assert(prod(prod(c1, c2), c3) == prod(prod(prod(a1, a2), a3), prod(prod(b1, b2), b3)));
    assert(prod(prod(prod(c1, c2), c3), c4) == prod(
        prod(prod(prod(a1, a2), a3), a4),
        prod(prod(prod(b1, b2), b3), b4),
    ));
}

/// The product of two embedded base-field elements is their embedded
/// product.
proof fn lemma_embedded_product(x: int, y: int)
    ensures
        ext_mul(Fp5::embed(x), Fp5::embed(y)) == Fp5::embed(fp_mul(x, y)),
{
    assert(0 * y == 0);
    assert(x * 0 == 0);
    assert(0 * 0 == 0);
}

/// The norm is multiplicative.
pub proof fn lemma_norm_multiplicative(a: Fp5, b: Fp5)
    requires
        a.canonical(),
        b.canonical(),
    ensures
        ext_norm(ext_mul(a, b)) == fp_mul(ext_norm(a), ext_norm(b)),
{
    let ab = prod(a, b);
    let ca = conjugates(a);
    let cb = conjugates(b);
    assert(ab == ext_mul(a, b) && ca == ext_conjugates(a) && cb == ext_conjugates(b)
        && conjugates(ab) == ext_conjugates(ab)) by {
        reveal(frob);
        reveal(prod);
    }
    lemma_norm_is_product(a);
    lemma_norm_is_product(b);
    lemma_norm_is_product(ab);
    lemma_conjugates_multiplicative(a, b);
    assert(prod(ab, prod(ca, cb)) == prod(prod(a, ca), prod(b, cb))) by {
        broadcast use lemma_prod_commutes, lemma_prod_associates;
    }
    assert(prod(ab, conjugates(ab)) == Fp5::embed(ext_norm(ab)) && prod(a, ca) == Fp5::embed(
        ext_norm(a),
    ) && prod(b, cb) == Fp5::embed(ext_norm(b)) && prod(
        Fp5::embed(ext_norm(a)),
        Fp5::embed(ext_norm(b)),
    ) == ext_mul(Fp5::embed(ext_norm(a)), Fp5::embed(ext_norm(b)))) by {
        reveal(prod);
    }
    lemma_embedded_product(ext_norm(a), ext_norm(b));
}

/// The norm of one is one.
pub proof fn lemma_norm_of_one()
    ensures
        ext_norm(Fp5::one()) == 1,
{
    let one = Fp5::one();
    assert(ext_frobenius(one) == one) by {
        assert(0 * crate::extension::FROBENIUS_1 as int == 0);
        assert(0 * crate::extension::FROBENIUS_2 as int == 0);
        assert(0 * crate::extension::FROBENIUS_3 as int == 0);
        assert(0 * crate::extension::FROBENIUS_4 as int == 0);
    }
    lemma_ext_mul_one(one);
    assert(ext_conjugates(one) == one);
}

/// An element with an inverse has a nonzero norm.
pub proof fn lemma_unit_has_nonzero_norm(a: Fp5, r: Fp5)
    requires
        a.canonical(),
        ext_is_inverse(a, r),
    ensures
        ext_norm(a) != 0,
{
    lemma_norm_multiplicative(a, r);
    lemma_norm_of_one();
    if ext_norm(a) == 0 {
        assert(0 * ext_norm(r) == 0);
    }
}

/// An element has at most one inverse: the one that the norm formula
/// gives.
pub proof fn lemma_inverse_unique(a: Fp5, r: Fp5)
    requires
        a.canonical(),
        ext_is_inverse(a, r),
    ensures
        r == ext_inv(a),
{
    let i = ext_inv(a);
    lemma_unit_has_nonzero_norm(a, r);
    lemma_ext_inverse(a);
    // r == r (a i) == (r a) i == i
    lemma_ext_mul_associative(r, a, i);
    lemma_ext_mul_commutative(r, a);
    lemma_ext_mul_one(r);
    assert(i.canonical());
    lemma_ext_mul_one(i);
}

/// The elements with an inverse are the elements of nonzero norm.
pub proof fn lemma_units_have_nonzero_norm(a: Fp5)
    requires
        a.canonical(),
    ensures
        ext_has_inverse(a) <==> ext_norm(a) != 0,
        ext_has_inverse(a) ==> ext_is_inverse(a, ext_inv(a)),
{
    if ext_has_inverse(a) {
        let r = choose|r: Fp5| ext_is_inverse(a, r);
        lemma_unit_has_nonzero_norm(a, r);
    }
    if ext_norm(a) != 0 {
        lemma_ext_inverse(a);
        assert(ext_is_inverse(a, ext_inv(a)));
    }
}

} // verus!
