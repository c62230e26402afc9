//! The quintic extension as a commutative ring.
//!
//! Sums, products and negations are taken as opaque operations, with the
//! laws of `extension_laws` stated over them, so that a proof can rearrange
//! an expression without looking into the coefficients.

use crate::extension::{
    ext_add, ext_mul, ext_neg, lemma_ext_mul_one, lemma_ext_mul_zero_left, Fp5,
};
use crate::extension_laws::{
    lemma_ext_add_associative, lemma_ext_add_commutative, lemma_ext_add_negation,
    lemma_ext_add_zero, lemma_ext_mul_associative, lemma_ext_mul_commutative,
    lemma_ext_mul_distributive, lemma_ext_mul_neg,
};
use vstd::prelude::*;

verus! {

/// The sum of two elements, as an opaque operation.
#[verifier::opaque]
pub open spec fn sum(a: Fp5, b: Fp5) -> Fp5 {
    ext_add(a, b)
}

/// The product of two elements, as an opaque operation.
#[verifier::opaque]
pub open spec fn prod(a: Fp5, b: Fp5) -> Fp5 {
    ext_mul(a, b)
}

/// The negation of an element, as an opaque operation.
#[verifier::opaque]
pub open spec fn opp(a: Fp5) -> Fp5 {
    ext_neg(a)
}

/// A sum is canonical.
pub broadcast proof fn lemma_sum_canonical(a: Fp5, b: Fp5)
    ensures
        (#[trigger] sum(a, b)).canonical(),
{
    reveal(sum);
}

/// A product is canonical.
pub broadcast proof fn lemma_prod_canonical(a: Fp5, b: Fp5)
    ensures
        (#[trigger] prod(a, b)).canonical(),
{
    reveal(prod);
}

/// A negation is canonical.
pub broadcast proof fn lemma_opp_canonical(a: Fp5)
    ensures
        (#[trigger] opp(a)).canonical(),
{
    reveal(opp);
}

/// Addition commutes.
pub broadcast proof fn lemma_sum_commutes(a: Fp5, b: Fp5)
    ensures
        #[trigger] sum(a, b) == sum(b, a),
{
    reveal(sum);
    lemma_ext_add_commutative(a, b);
}

/// Addition associates.
pub broadcast proof fn lemma_sum_associates(a: Fp5, b: Fp5, c: Fp5)
    ensures
        #[trigger] sum(sum(a, b), c) == sum(a, sum(b, c)),
{
    reveal(sum);
    lemma_ext_add_associative(a, b, c);
}

/// Multiplication commutes.
pub broadcast proof fn lemma_prod_commutes(a: Fp5, b: Fp5)
    ensures
        #[trigger] prod(a, b) == prod(b, a),
{
    reveal(prod);
    lemma_ext_mul_commutative(a, b);
}

/// Multiplication associates.
pub broadcast proof fn lemma_prod_associates(a: Fp5, b: Fp5, c: Fp5)
    ensures
        #[trigger] prod(prod(a, b), c) == prod(a, prod(b, c)),
{
    reveal(prod);
    lemma_ext_mul_associative(a, b, c);
}

/// Multiplication distributes over addition.
pub broadcast proof fn lemma_prod_distributes(a: Fp5, b: Fp5, c: Fp5)
    ensures
        #[trigger] prod(a, sum(b, c)) == sum(prod(a, b), prod(a, c)),
{
    reveal(sum);
    reveal(prod);
    lemma_ext_mul_distributive(a, b, c);
}

/// Zero is neutral for the addition of canonical elements.
pub proof fn lemma_sum_zero(a: Fp5)
    requires
        a.canonical(),
    ensures
        sum(a, Fp5::zero()) == a,
        sum(Fp5::zero(), a) == a,
{
    reveal(sum);
    lemma_ext_add_zero(a);
}

/// An element and its negation add to zero.
pub proof fn lemma_sum_opp(a: Fp5)
    ensures
        sum(a, opp(a)) == Fp5::zero(),
        sum(opp(a), a) == Fp5::zero(),
{
    reveal(sum);
    reveal(opp);
    lemma_ext_add_negation(a);
    lemma_ext_add_commutative(a, ext_neg(a));
}

/// A product with a negated factor is the negated product.
pub proof fn lemma_prod_opp(a: Fp5, b: Fp5)
    ensures
        prod(a, opp(b)) == opp(prod(a, b)),
        prod(opp(a), b) == opp(prod(a, b)),
{
    reveal(prod);
    reveal(opp);
    lemma_ext_mul_neg(a, b);
}

/// Equal sums with a common summand have equal other summands.
pub proof fn lemma_sum_cancels(a: Fp5, b: Fp5, c: Fp5)
    requires
        a.canonical(),
        b.canonical(),
        sum(a, c) == sum(b, c),
    ensures
        a == b,
{
    lemma_sum_associates(a, c, opp(c));
    lemma_sum_associates(b, c, opp(c));
    lemma_sum_opp(c);
    lemma_sum_zero(a);
    lemma_sum_zero(b);
}

/// One is neutral for the multiplication of canonical elements.
pub proof fn lemma_prod_one(a: Fp5)
    requires
        a.canonical(),
    ensures
        prod(a, Fp5::one()) == a,
        prod(Fp5::one(), a) == a,
{
    reveal(prod);
    lemma_ext_mul_one(a);
}

/// A product with zero is zero.
pub proof fn lemma_prod_zero(a: Fp5)
    ensures
        prod(a, Fp5::zero()) == Fp5::zero(),
        prod(Fp5::zero(), a) == Fp5::zero(),
{
    reveal(prod);
    lemma_ext_mul_zero_left(a);
    lemma_ext_mul_commutative(a, Fp5::zero());
}

/// Two canonical elements that add to zero with the same element are
/// equal.
pub proof fn lemma_opposite_unique(x: Fp5, y: Fp5, z: Fp5)
    requires
        y.canonical(),
        z.canonical(),
        sum(x, y) == Fp5::zero(),
        sum(x, z) == Fp5::zero(),
    ensures
        y == z,
{
    broadcast use lemma_sum_commutes;
    lemma_sum_associates(y, x, z);
    lemma_sum_zero(y);
    lemma_sum_zero(z);
}

/// The negation of a sum is the sum of the negations.
pub proof fn lemma_opp_sum(a: Fp5, b: Fp5)
    ensures
        opp(sum(a, b)) == sum(opp(a), opp(b)),
{
    broadcast use lemma_sum_canonical, lemma_opp_canonical;
    let na = opp(a);
    let nb = opp(b);
    // (a + b) + (-a + -b) == (a + -a) + (b + -b) == 0
    lemma_sum_associates(a, b, sum(na, nb));
    lemma_sum_associates(b, na, nb);
    lemma_sum_commutes(b, na);
    lemma_sum_associates(na, b, nb);
    lemma_sum_associates(a, na, sum(b, nb));
    assert(sum(sum(a, b), sum(na, nb)) == sum(sum(a, na), sum(b, nb)));
    lemma_sum_opp(a);
    lemma_sum_opp(b);
    lemma_sum_zero(Fp5::zero());
    lemma_sum_opp(sum(a, b));
    lemma_opposite_unique(sum(a, b), opp(sum(a, b)), sum(na, nb));
}

/// Negating twice gives a canonical element back.
pub proof fn lemma_opp_opp(a: Fp5)
    requires
        a.canonical(),
    ensures
        opp(opp(a)) == a,
{
    broadcast use lemma_sum_canonical, lemma_prod_canonical, lemma_opp_canonical;
    lemma_sum_opp(a);
    lemma_sum_opp(opp(a));
    lemma_opposite_unique(opp(a), opp(opp(a)), a);
}

/// An element and its negation have the same square.
pub proof fn lemma_square_opp(a: Fp5)
    ensures
        prod(opp(a), opp(a)) == prod(a, a),
{
    broadcast use lemma_sum_canonical, lemma_prod_canonical, lemma_opp_canonical;
    lemma_prod_opp(opp(a), a);
    lemma_prod_opp(a, a);
    lemma_opp_opp(prod(a, a));
}

/// Adding back what was subtracted: `b + (a - b) == a` and
/// `(a - b) + b == a` for canonical `a`.
pub proof fn lemma_add_back(a: Fp5, b: Fp5)
    requires
        a.canonical(),
    ensures
        sum(b, sum(a, opp(b))) == a,
        sum(sum(a, opp(b)), b) == a,
{
    broadcast use lemma_sum_commutes;
    lemma_sum_associates(a, opp(b), b);
    lemma_sum_opp(b);
    lemma_sum_zero(a);
}

} // verus!
