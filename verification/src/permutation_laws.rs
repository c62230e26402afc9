//! The Poseidon2 permutation is injective on canonical states, hence a
//! bijection of them, for every instance whose internal matrix is
//! invertible; the standard instance is one.
//!
//! Each layer is injective. The S-box is undone by the power whose
//! exponent is the inverse of seven modulo `p - 1`. The external layer is
//! undone block by block, the 4x4 matrix having determinant `-64`. The
//! internal layer is the diagonal plus the all-ones matrix; it is
//! injective where no diagonal entry is zero and one plus the sum of
//! their inverses is not zero.

use crate::fermat::{lemma_fermat, lemma_product_nonzero, power_mod};
use crate::field::{
    fp_add, fp_canonical, fp_inv, lemma_inverse_is_fp_inv, lemma_mul_inverse,
    lemma_no_zero_divisors, modulus,
};
use crate::poseidon2::{
    block_image, external_layer, full_round, full_rounds, internal_layer, mds4, partial_round,
    partial_rounds, permutation, sbox, standard_spec, state_sum, Poseidon2Spec,
    STANDARD_DIAGONAL,
};
use vstd::arithmetic::div_mod::*;
use vstd::arithmetic::mul::*;
use vstd::arithmetic::power::*;
use vstd::prelude::*;

verus! {

/// Whether the state has twelve entries, all canonical.
pub open spec fn state_canonical(s: Seq<int>) -> bool {
    &&& s.len() == 12
    &&& forall|i: int| 0 <= i < 12 ==> fp_canonical(#[trigger] s[i])
}

/// The sum of the inverses of the twelve diagonal entries.
pub open spec fn inverse_sum(d: Seq<int>) -> int {
    fp_inv(d[0]) + fp_inv(d[1]) + fp_inv(d[2]) + fp_inv(d[3]) + fp_inv(d[4]) + fp_inv(d[5])
        + fp_inv(d[6]) + fp_inv(d[7]) + fp_inv(d[8]) + fp_inv(d[9]) + fp_inv(d[10]) + fp_inv(
        d[11],
    )
}

/// Whether the internal matrix with this diagonal is invertible: no entry
/// is zero, and one plus the sum of the inverses is not zero.
pub open spec fn internal_invertible(d: Seq<int>) -> bool {
    &&& d.len() == 12
    &&& forall|i: int| 0 <= i < 12 ==> (#[trigger] d[i]) % modulus() != 0
    &&& (1 + inverse_sum(d)) % modulus() != 0
}

/// The inverse of seven modulo `p - 1`.
pub open spec fn root_exponent() -> nat {
    10540996611094048183
}

/// Canonical residues that are congruent are equal.
proof fn lemma_congruent_canonical(x: int, y: int)
    requires
        fp_canonical(x),
        fp_canonical(y),
        (x - y) % modulus() == 0,
    ensures
        x == y,
{
    let p = modulus();
    if x > y {
        lemma_small_mod((x - y) as nat, p as nat);
    } else if x < y {
        lemma_fundamental_div_mod_converse(x - y, p, -1, p - (y - x));
    }
}

/// Integers with the same remainder are congruent.
proof fn lemma_same_remainder(x: int, y: int)
    requires
        x % modulus() == y % modulus(),
    ensures
        (x - y) % modulus() == 0,
{
    lemma_sub_mod_noop(x, y, modulus());
    lemma_small_mod(0, modulus() as nat);
}

/// The S-box is the seventh power.
proof fn lemma_sbox_is_power(x: int)
    ensures
        sbox(x) == power_mod(x, 7),
{
    reveal_with_fuel(pow, 8);
    lemma_mul_basics(x);
    lemma_mul_is_commutative(x, x * x);
    lemma_mul_is_commutative(x, x * x * x);
    lemma_mul_is_commutative(x, x * x * x * x);
    lemma_mul_is_commutative(x, x * x * x * x * x);
    lemma_mul_is_commutative(x, x * x * x * x * x * x);
}

/// An exponent that sends the residue to one does so in every multiple.
proof fn lemma_power_one_multiple(b: int, d: nat, q: nat)
    requires
        power_mod(b, d) == 1,
    ensures
        power_mod(b, d * q) == 1,
    decreases q,
{
    let p = modulus();
    if q == 0 {
        lemma_mul_basics(d as int);
        lemma_pow0(b);
        lemma_small_mod(1, p as nat);
    } else {
        lemma_power_one_multiple(b, d, (q - 1) as nat);
        lemma_mul_is_distributive_sub(d as int, q as int, 1);
        assert(d * q == d * ((q - 1) as nat) + d);
        lemma_pow_adds(b, d * ((q - 1) as nat), d);
        lemma_mul_mod_noop_general(pow(b, d * ((q - 1) as nat)), pow(b, d), p);
        lemma_small_mod(1, p as nat);
    }
}

/// The power `root_exponent()` undoes the seventh power of a nonzero
/// canonical residue.
proof fn lemma_seventh_root(x: int)
    requires
        fp_canonical(x),
        x != 0,
    ensures
        power_mod(pow(x, 7), root_exponent()) == x,
{
    let p = modulus();
    let d = root_exponent();
    let n = (p - 1) as nat;
    lemma_small_mod(x as nat, p as nat);
    lemma_fermat(x);
    lemma_power_one_multiple(x, n, 4);
    lemma_pow_multiplies(x, 7, d);
    assert(7 * d == n * 4 + 1);
    lemma_pow_adds(x, n * 4, 1);
    lemma_pow1(x);
    lemma_mul_mod_noop_left(pow(x, n * 4), x, p);
    lemma_mul_basics(x);
}

/// The S-box is injective on canonical residues.
pub proof fn lemma_sbox_injective(x: int, y: int)
    requires
        fp_canonical(x),
        fp_canonical(y),
        sbox(x) == sbox(y),
    ensures
        x == y,
{
    let p = modulus();
    let d = root_exponent();
    lemma_sbox_is_power(x);
    lemma_sbox_is_power(y);
    if x != 0 && y != 0 {
        lemma_seventh_root(x);
        lemma_seventh_root(y);
        lemma_pow_mod_noop(pow(x, 7), d, p);
        lemma_pow_mod_noop(pow(y, 7), d, p);
    } else {
        // the seventh power of zero is zero, and of nothing else
        lemma0_pow(7);
        lemma_small_mod(0, p as nat);
        if x != 0 {
            lemma_small_mod(x as nat, p as nat);
            lemma_power_nonzero(x, 7);
        }
        if y != 0 {
            lemma_small_mod(y as nat, p as nat);
            lemma_power_nonzero(y, 7);
        }
    }
}

/// The powers of a nonzero residue are nonzero.
proof fn lemma_power_nonzero(b: int, k: nat)
    requires
        b % modulus() != 0,
    ensures
        power_mod(b, k) != 0,
    decreases k,
{
    if k == 0 {
        lemma_pow0(b);
        lemma_small_mod(1, modulus() as nat);
    } else {
        lemma_power_nonzero(b, (k - 1) as nat);
        lemma_pow_adds(b, (k - 1) as nat, 1);
        lemma_pow1(b);
        lemma_product_nonzero(pow(b, (k - 1) as nat), b);
    }
}

/// A multiple of the modulus, divided by an integer that is not one, is a
/// multiple of the modulus.
proof fn lemma_cancel_factor(k: int, z: int)
    requires
        k % modulus() != 0,
        (k * z) % modulus() == 0,
    ensures
        z % modulus() == 0,
{
    lemma_no_zero_divisors(k, z);
}

/// The 4x4 matrix is injective modulo the modulus: a vector that it sends
/// to multiples of the modulus consists of multiples of the modulus.
proof fn lemma_mds4_injective(a: int, b: int, c: int, d: int)
    requires
        mds4(a, b, c, d, 0) % modulus() == 0,
        mds4(a, b, c, d, 1) % modulus() == 0,
        mds4(a, b, c, d, 2) % modulus() == 0,
        mds4(a, b, c, d, 3) % modulus() == 0,
    ensures
        a % modulus() == 0,
        b % modulus() == 0,
        c % modulus() == 0,
        d % modulus() == 0,
{
    let p = modulus();
    let r0 = mds4(a, b, c, d, 0);
    let r1 = mds4(a, b, c, d, 1);
    let r2 = mds4(a, b, c, d, 2);
    let r3 = mds4(a, b, c, d, 3);
    // the rows of the adjugate, divided by eight
    lemma_combination4(r0, r1, r2, r3, 1, -3, 6, -7);
    lemma_combination4(r0, r1, r2, r3, -1, 1, -4, 5);
    lemma_combination4(r0, r1, r2, r3, 6, -7, 1, -3);
    lemma_combination4(r0, r1, r2, r3, -4, 5, -1, 1);
    assert(1 * r0 + (-3) * r1 + 6 * r2 + (-7) * r3 == (-8) * a);
    assert((-1) * r0 + 1 * r1 + (-4) * r2 + 5 * r3 == (-8) * b);
    assert(6 * r0 + (-7) * r1 + 1 * r2 + (-3) * r3 == (-8) * c);
    assert((-4) * r0 + 5 * r1 + (-1) * r2 + 1 * r3 == (-8) * d);
    lemma_cancel_factor(-8, a);
    lemma_cancel_factor(-8, b);
    lemma_cancel_factor(-8, c);
    lemma_cancel_factor(-8, d);
}

/// A combination of four multiples of the modulus is a multiple of the
/// modulus.
proof fn lemma_combination4(r0: int, r1: int, r2: int, r3: int, k0: int, k1: int, k2: int, k3: int)
    requires
        r0 % modulus() == 0,
        r1 % modulus() == 0,
        r2 % modulus() == 0,
        r3 % modulus() == 0,
    ensures
        (k0 * r0 + k1 * r1 + k2 * r2 + k3 * r3) % modulus() == 0,
{
    let p = modulus();
    lemma_mul_mod_noop_right(k0, r0, p);
    lemma_mul_mod_noop_right(k1, r1, p);
    lemma_mul_mod_noop_right(k2, r2, p);
    lemma_mul_mod_noop_right(k3, r3, p);
    lemma_mul_basics(k0);
    lemma_mul_basics(k1);
    lemma_mul_basics(k2);
    lemma_mul_basics(k3);
    lemma_add_mod_noop(k0 * r0, k1 * r1, p);
    lemma_add_mod_noop(k0 * r0 + k1 * r1, k2 * r2, p);
    lemma_add_mod_noop(k0 * r0 + k1 * r1 + k2 * r2, k3 * r3, p);
    lemma_small_mod(0, p as nat);
}


/// Entry `i` of the external layer, as the reduced sum of four block
/// images.
proof fn lemma_external_entry_value(s: Seq<int>, i: int)
    requires
        s.len() == 12,
        0 <= i < 12,
    ensures
        external_layer(s)[i] == (block_image(s, i) + block_image(s, i % 4) + block_image(
            s,
            4 + i % 4,
        ) + block_image(s, 8 + i % 4)) % modulus(),
{
}

/// Three values that agree, each with the sum of the three added, modulo
/// the modulus, agree modulo the modulus.
proof fn lemma_position_values(a0: int, a1: int, a2: int, b0: int, b1: int, b2: int)
    requires
        (a0 + (a0 + a1 + a2)) % modulus() == (b0 + (b0 + b1 + b2)) % modulus(),
        (a1 + (a0 + a1 + a2)) % modulus() == (b1 + (b0 + b1 + b2)) % modulus(),
        (a2 + (a0 + a1 + a2)) % modulus() == (b2 + (b0 + b1 + b2)) % modulus(),
    ensures
        (a0 - b0) % modulus() == 0,
        (a1 - b1) % modulus() == 0,
        (a2 - b2) % modulus() == 0,
{
    let p = modulus();
    let d0 = a0 - b0;
    let d1 = a1 - b1;
    let d2 = a2 - b2;
    let u = d0 + d1 + d2;
    lemma_same_remainder(a0 + (a0 + a1 + a2), b0 + (b0 + b1 + b2));
    lemma_same_remainder(a1 + (a0 + a1 + a2), b1 + (b0 + b1 + b2));
    lemma_same_remainder(a2 + (a0 + a1 + a2), b2 + (b0 + b1 + b2));
    // each difference plus their sum is a multiple; so is four times the sum
    assert((d0 + u) % p == 0 && (d1 + u) % p == 0 && (d2 + u) % p == 0);
    lemma_add_mod_noop(d0 + u, d1 + u, p);
    lemma_add_mod_noop(d0 + u + d1 + u, d2 + u, p);
    lemma_small_mod(0, p as nat);
    assert((4 * u) % p == 0);
    lemma_cancel_factor(4, u);
    lemma_sub_mod_noop(d0 + u, u, p);
    lemma_sub_mod_noop(d1 + u, u, p);
    lemma_sub_mod_noop(d2 + u, u, p);
}

/// Where two states have the same external layer, the block images at
/// position `k` of the three blocks differ by multiples of the modulus.
proof fn lemma_external_position(s: Seq<int>, t: Seq<int>, k: int)
    requires
        s.len() == 12,
        t.len() == 12,
        0 <= k < 4,
        external_layer(s) == external_layer(t),
    ensures
        (block_image(s, k) - block_image(t, k)) % modulus() == 0,
        (block_image(s, 4 + k) - block_image(t, 4 + k)) % modulus() == 0,
        (block_image(s, 8 + k) - block_image(t, 8 + k)) % modulus() == 0,
{
    lemma_external_entry_value(s, k);
    lemma_external_entry_value(s, 4 + k);
    lemma_external_entry_value(s, 8 + k);
    lemma_external_entry_value(t, k);
    lemma_external_entry_value(t, 4 + k);
    lemma_external_entry_value(t, 8 + k);
    assert(external_layer(s)[k] == external_layer(t)[k]);
    assert(external_layer(s)[4 + k] == external_layer(t)[4 + k]);
    assert(external_layer(s)[8 + k] == external_layer(t)[8 + k]);
    lemma_position_values(
        block_image(s, k),
        block_image(s, 4 + k),
        block_image(s, 8 + k),
        block_image(t, k),
        block_image(t, 4 + k),
        block_image(t, 8 + k),
    );
}

/// Where the four block images of block `j` of two states differ by
/// multiples of the modulus, so do the four entries of the block.
proof fn lemma_block_injective(s: Seq<int>, t: Seq<int>, j: int)
    requires
        s.len() == 12,
        t.len() == 12,
        j == 0 || j == 4 || j == 8,
        (block_image(s, j) - block_image(t, j)) % modulus() == 0,
        (block_image(s, j + 1) - block_image(t, j + 1)) % modulus() == 0,
        (block_image(s, j + 2) - block_image(t, j + 2)) % modulus() == 0,
        (block_image(s, j + 3) - block_image(t, j + 3)) % modulus() == 0,
    ensures
        (s[j] - t[j]) % modulus() == 0,
        (s[j + 1] - t[j + 1]) % modulus() == 0,
        (s[j + 2] - t[j + 2]) % modulus() == 0,
        (s[j + 3] - t[j + 3]) % modulus() == 0,
{
    if j == 0 {
        lemma_block_difference(s, t, 0, 0);
        lemma_block_difference(s, t, 0, 1);
        lemma_block_difference(s, t, 0, 2);
        lemma_block_difference(s, t, 0, 3);
    } else if j == 4 {
        lemma_block_difference(s, t, 4, 0);
        lemma_block_difference(s, t, 4, 1);
        lemma_block_difference(s, t, 4, 2);
        lemma_block_difference(s, t, 4, 3);
    } else {
        lemma_block_difference(s, t, 8, 0);
        lemma_block_difference(s, t, 8, 1);
        lemma_block_difference(s, t, 8, 2);
        lemma_block_difference(s, t, 8, 3);
    }
    lemma_mds4_injective(s[j] - t[j], s[j + 1] - t[j + 1], s[j + 2] - t[j + 2], s[j + 3] - t[j + 3]);
}

/// The difference of two block images is the block image of the
/// differences.
proof fn lemma_block_difference(s: Seq<int>, t: Seq<int>, j: int, row: int)
    requires
        s.len() == 12,
        t.len() == 12,
        j == 0 || j == 4 || j == 8,
        0 <= row < 4,
    ensures
        block_image(s, j + row) - block_image(t, j + row) == mds4(
            s[j] - t[j],
            s[j + 1] - t[j + 1],
            s[j + 2] - t[j + 2],
            s[j + 3] - t[j + 3],
            row,
        ),
{
    assert((j + row) / 4 * 4 == j);
    assert((j + row) % 4 == row);
}

/// The external layer is injective on canonical states.
pub proof fn lemma_external_layer_injective(s: Seq<int>, t: Seq<int>)
    requires
        state_canonical(s),
        state_canonical(t),
        external_layer(s) == external_layer(t),
    ensures
        s == t,
{
    lemma_external_position(s, t, 0);
    lemma_external_position(s, t, 1);
    lemma_external_position(s, t, 2);
    lemma_external_position(s, t, 3);
    lemma_block_injective(s, t, 0);
    lemma_block_injective(s, t, 4);
    lemma_block_injective(s, t, 8);
    assert forall|i: int| 0 <= i < 12 implies s[i] == t[i] by {
        lemma_congruent_canonical(s[i], t[i]);
    }
    assert(s =~= t);
}

/// One entry of two equal internal layers: the difference of the entries,
/// times the diagonal entry, plus the difference of the sums, is a
/// multiple of the modulus; hence so is the difference of the entries plus
/// the inverse of the diagonal entry times the difference of the sums.
proof fn lemma_internal_entry(x: int, y: int, d: int, sum_x: int, sum_y: int)
    requires
        d % modulus() != 0,
        (x * d + sum_x) % modulus() == (y * d + sum_y) % modulus(),
    ensures
        ((x - y) + fp_inv(d) * (sum_x - sum_y)) % modulus() == 0,
{
    let p = modulus();
    let e = fp_inv(d);
    let z = x - y;
    let u = sum_x - sum_y;
    lemma_mul_inverse(d);
    lemma_same_remainder(x * d + sum_x, y * d + sum_y);
    lemma_mul_is_distributive_sub_other_way(d, x, y);
    assert((z * d + u) % p == 0);
    // multiply by the inverse
    lemma_mul_mod_noop_right(e, z * d + u, p);
    lemma_mul_basics(e);
    lemma_mul_is_distributive_add(e, z * d, u);
    lemma_mul_is_associative(e, z, d);
    lemma_mul_is_commutative(e, z);
    lemma_mul_is_associative(z, e, d);
    lemma_mul_is_commutative(e, d);
    lemma_mul_mod_noop_right(z, d * e, p);
    lemma_mul_basics(z);
    assert((e * (z * d)) % p == z % p);
    lemma_add_mod_noop(e * (z * d), e * u, p);
    lemma_add_mod_noop(z, e * u, p);
    lemma_small_mod(0, p as nat);
}

/// Twelve congruences of the form `z + e u == 0`, added up.
proof fn lemma_twelve_added(
    z0: int, z1: int, z2: int, z3: int, z4: int, z5: int, z6: int, z7: int, z8: int, z9: int, z10: int, z11: int,
    e0: int, e1: int, e2: int, e3: int, e4: int, e5: int, e6: int, e7: int, e8: int, e9: int, e10: int, e11: int,
    u: int,
)
    requires
        (z0 + e0 * u) % modulus() == 0,
        (z1 + e1 * u) % modulus() == 0,
        (z2 + e2 * u) % modulus() == 0,
        (z3 + e3 * u) % modulus() == 0,
        (z4 + e4 * u) % modulus() == 0,
        (z5 + e5 * u) % modulus() == 0,
        (z6 + e6 * u) % modulus() == 0,
        (z7 + e7 * u) % modulus() == 0,
        (z8 + e8 * u) % modulus() == 0,
        (z9 + e9 * u) % modulus() == 0,
        (z10 + e10 * u) % modulus() == 0,
        (z11 + e11 * u) % modulus() == 0,
    ensures
        ((z0 + z1 + z2 + z3 + z4 + z5 + z6 + z7 + z8 + z9 + z10 + z11) + (e0 + e1 + e2 + e3 + e4 + e5 + e6 + e7 + e8 + e9 + e10 + e11) * u) % modulus() == 0,
{
    let p = modulus();
    lemma_add_mod_noop(z0 + e0 * u, z1 + e1 * u, p);
    lemma_add_mod_noop(z0 + e0 * u + (z1 + e1 * u), z2 + e2 * u, p);
    lemma_add_mod_noop(z0 + e0 * u + (z1 + e1 * u) + (z2 + e2 * u), z3 + e3 * u, p);
    lemma_add_mod_noop(z0 + e0 * u + (z1 + e1 * u) + (z2 + e2 * u) + (z3 + e3 * u), z4 + e4 * u, p);
    lemma_add_mod_noop(z0 + e0 * u + (z1 + e1 * u) + (z2 + e2 * u) + (z3 + e3 * u) + (z4 + e4 * u), z5 + e5 * u, p);
    lemma_add_mod_noop(z0 + e0 * u + (z1 + e1 * u) + (z2 + e2 * u) + (z3 + e3 * u) + (z4 + e4 * u) + (z5 + e5 * u), z6 + e6 * u, p);
    lemma_add_mod_noop(z0 + e0 * u + (z1 + e1 * u) + (z2 + e2 * u) + (z3 + e3 * u) + (z4 + e4 * u) + (z5 + e5 * u) + (z6 + e6 * u), z7 + e7 * u, p);
    lemma_add_mod_noop(z0 + e0 * u + (z1 + e1 * u) + (z2 + e2 * u) + (z3 + e3 * u) + (z4 + e4 * u) + (z5 + e5 * u) + (z6 + e6 * u) + (z7 + e7 * u), z8 + e8 * u, p);
    lemma_add_mod_noop(z0 + e0 * u + (z1 + e1 * u) + (z2 + e2 * u) + (z3 + e3 * u) + (z4 + e4 * u) + (z5 + e5 * u) + (z6 + e6 * u) + (z7 + e7 * u) + (z8 + e8 * u), z9 + e9 * u, p);
    lemma_add_mod_noop(z0 + e0 * u + (z1 + e1 * u) + (z2 + e2 * u) + (z3 + e3 * u) + (z4 + e4 * u) + (z5 + e5 * u) + (z6 + e6 * u) + (z7 + e7 * u) + (z8 + e8 * u) + (z9 + e9 * u), z10 + e10 * u, p);
    lemma_add_mod_noop(z0 + e0 * u + (z1 + e1 * u) + (z2 + e2 * u) + (z3 + e3 * u) + (z4 + e4 * u) + (z5 + e5 * u) + (z6 + e6 * u) + (z7 + e7 * u) + (z8 + e8 * u) + (z9 + e9 * u) + (z10 + e10 * u), z11 + e11 * u, p);
    lemma_mul_is_distributive_add_other_way(u, e0, e1);
    lemma_mul_is_distributive_add_other_way(u, e0 + e1, e2);
    lemma_mul_is_distributive_add_other_way(u, e0 + e1 + e2, e3);
    lemma_mul_is_distributive_add_other_way(u, e0 + e1 + e2 + e3, e4);
    lemma_mul_is_distributive_add_other_way(u, e0 + e1 + e2 + e3 + e4, e5);
    lemma_mul_is_distributive_add_other_way(u, e0 + e1 + e2 + e3 + e4 + e5, e6);
    lemma_mul_is_distributive_add_other_way(u, e0 + e1 + e2 + e3 + e4 + e5 + e6, e7);
    lemma_mul_is_distributive_add_other_way(u, e0 + e1 + e2 + e3 + e4 + e5 + e6 + e7, e8);
    lemma_mul_is_distributive_add_other_way(u, e0 + e1 + e2 + e3 + e4 + e5 + e6 + e7 + e8, e9);
    lemma_mul_is_distributive_add_other_way(u, e0 + e1 + e2 + e3 + e4 + e5 + e6 + e7 + e8 + e9, e10);
    lemma_mul_is_distributive_add_other_way(u, e0 + e1 + e2 + e3 + e4 + e5 + e6 + e7 + e8 + e9 + e10, e11);
    lemma_small_mod(0, p as nat);
}

/// The internal layer is injective on canonical states, where its matrix
/// is invertible.
pub proof fn lemma_internal_layer_injective(s: Seq<int>, t: Seq<int>, d: Seq<int>)
    requires
        state_canonical(s),
        state_canonical(t),
        internal_invertible(d),
        internal_layer(s, d) == internal_layer(t, d),
    ensures
        s == t,
{
    let p = modulus();
    let u = state_sum(s) - state_sum(t);
    let total = inverse_sum(d);
    assert forall|i: int| 0 <= i < 12 implies ((s[i] - t[i]) + fp_inv(d[i]) * u) % p == 0 by {
        let a = internal_layer(s, d);
        let b = internal_layer(t, d);
        assert(a[i] == (s[i] * d[i] + state_sum(s)) % p);
        assert(b[i] == (t[i] * d[i] + state_sum(t)) % p);
        assert(a[i] == b[i]);
        lemma_internal_entry(s[i], t[i], d[i], state_sum(s), state_sum(t));
    }
    lemma_twelve_added(
        s[0] - t[0],
        s[1] - t[1],
        s[2] - t[2],
        s[3] - t[3],
        s[4] - t[4],
        s[5] - t[5],
        s[6] - t[6],
        s[7] - t[7],
        s[8] - t[8],
        s[9] - t[9],
        s[10] - t[10],
        s[11] - t[11],
        fp_inv(d[0]),
        fp_inv(d[1]),
        fp_inv(d[2]),
        fp_inv(d[3]),
        fp_inv(d[4]),
        fp_inv(d[5]),
        fp_inv(d[6]),
        fp_inv(d[7]),
        fp_inv(d[8]),
        fp_inv(d[9]),
        fp_inv(d[10]),
        fp_inv(d[11]),
        u,
    );
    // the differences add up to the difference of the sums
    assert((u + total * u) % p == 0);
    lemma_mul_is_distributive_add_other_way(u, 1, total);
    lemma_mul_basics(u);
    lemma_cancel_factor(1 + total, u);
    // so each difference is a multiple of the modulus
    assert forall|i: int| 0 <= i < 12 implies s[i] == t[i] by {
        lemma_mul_mod_noop_right(fp_inv(d[i]), u, p);
        lemma_mul_basics(fp_inv(d[i]));
        lemma_add_mod_noop(s[i] - t[i], fp_inv(d[i]) * u, p);
        lemma_mod_twice(s[i] - t[i], p);
        lemma_small_mod(0, p as nat);
        lemma_congruent_canonical(s[i], t[i]);
    }
    assert(s =~= t);
}


/// Adding a constant is injective on canonical residues.
proof fn lemma_add_constant_injective(x: int, y: int, c: int)
    requires
        fp_canonical(x),
        fp_canonical(y),
        fp_add(x, c) == fp_add(y, c),
    ensures
        x == y,
{
    lemma_same_remainder(x + c, y + c);
    lemma_congruent_canonical(x, y);
}

/// A full round is injective on canonical states, and its outputs are
/// canonical.
pub proof fn lemma_full_round_injective(s: Seq<int>, t: Seq<int>, spec: Poseidon2Spec, r: int)
    requires
        state_canonical(s),
        state_canonical(t),
    ensures
        state_canonical(full_round(s, spec, r)),
        full_round(s, spec, r) == full_round(t, spec, r) ==> s == t,
{
    let a = Seq::new(12, |i: int| sbox(fp_add(s[i], spec.external[12 * r + i])));
    let b = Seq::new(12, |i: int| sbox(fp_add(t[i], spec.external[12 * r + i])));
    assert(state_canonical(a));
    assert(state_canonical(b));
    if full_round(s, spec, r) == full_round(t, spec, r) {
        lemma_external_layer_injective(a, b);
        assert forall|i: int| 0 <= i < 12 implies s[i] == t[i] by {
            assert(a[i] == b[i]);
            lemma_sbox_injective(
                fp_add(s[i], spec.external[12 * r + i]),
                fp_add(t[i], spec.external[12 * r + i]),
            );
            lemma_add_constant_injective(s[i], t[i], spec.external[12 * r + i]);
        }
        assert(s =~= t);
    }
}

/// A partial round is injective on canonical states, where the internal
/// matrix is invertible, and its outputs are canonical.
pub proof fn lemma_partial_round_injective(s: Seq<int>, t: Seq<int>, spec: Poseidon2Spec, r: int)
    requires
        state_canonical(s),
        state_canonical(t),
        internal_invertible(spec.diagonal),
    ensures
        state_canonical(partial_round(s, spec, r)),
        partial_round(s, spec, r) == partial_round(t, spec, r) ==> s == t,
{
    let a = s.update(0, sbox(fp_add(s[0], spec.internal[r])));
    let b = t.update(0, sbox(fp_add(t[0], spec.internal[r])));
    assert(state_canonical(a));
    assert(state_canonical(b));
    if partial_round(s, spec, r) == partial_round(t, spec, r) {
        lemma_internal_layer_injective(a, b, spec.diagonal);
        assert forall|i: int| 0 <= i < 12 implies s[i] == t[i] by {
            assert(a[i] == b[i]);
            if i == 0 {
                lemma_sbox_injective(
                    fp_add(s[0], spec.internal[r]),
                    fp_add(t[0], spec.internal[r]),
                );
                lemma_add_constant_injective(s[0], t[0], spec.internal[r]);
            }
        }
        assert(s =~= t);
    }
}

/// A run of full rounds is injective on canonical states.
pub proof fn lemma_full_rounds_injective(
    s: Seq<int>,
    t: Seq<int>,
    spec: Poseidon2Spec,
    from: int,
    to: int,
)
    requires
        state_canonical(s),
        state_canonical(t),
    ensures
        state_canonical(full_rounds(s, spec, from, to)),
        full_rounds(s, spec, from, to) == full_rounds(t, spec, from, to) ==> s == t,
    decreases to - from,
{
    if to > from {
        lemma_full_rounds_injective(s, t, spec, from, to - 1);
        lemma_full_round_injective(
            full_rounds(s, spec, from, to - 1),
            full_rounds(t, spec, from, to - 1),
            spec,
            to - 1,
        );
    }
}

/// A run of partial rounds is injective on canonical states, where the
/// internal matrix is invertible.
pub proof fn lemma_partial_rounds_injective(s: Seq<int>, t: Seq<int>, spec: Poseidon2Spec, n: int)
    requires
        state_canonical(s),
        state_canonical(t),
        internal_invertible(spec.diagonal),
    ensures
        state_canonical(partial_rounds(s, spec, n)),
        partial_rounds(s, spec, n) == partial_rounds(t, spec, n) ==> s == t,
    decreases n,
{
    if n > 0 {
        lemma_partial_rounds_injective(s, t, spec, n - 1);
        lemma_partial_round_injective(
            partial_rounds(s, spec, n - 1),
            partial_rounds(t, spec, n - 1),
            spec,
            n - 1,
        );
    }
}

/// The permutation is injective on canonical states, where the internal
/// matrix is invertible: a map of a finite set into itself that sends
/// distinct states to distinct states, and so a bijection.
pub proof fn lemma_permutation_injective(spec: Poseidon2Spec, s: Seq<int>, t: Seq<int>)
    requires
        state_canonical(s),
        state_canonical(t),
        internal_invertible(spec.diagonal),
        permutation(spec, s) == permutation(spec, t),
    ensures
        s == t,
{
    let s0 = external_layer(s);
    let t0 = external_layer(t);
    assert(state_canonical(s0));
    assert(state_canonical(t0));
    let s1 = full_rounds(s0, spec, 0, 4);
    let t1 = full_rounds(t0, spec, 0, 4);
    lemma_full_rounds_injective(s0, t0, spec, 0, 4);
    let s2 = partial_rounds(s1, spec, 22);
    let t2 = partial_rounds(t1, spec, 22);
    lemma_partial_rounds_injective(s1, t1, spec, 22);
    lemma_full_rounds_injective(s2, t2, spec, 4, 8);
    lemma_external_layer_injective(s, t);
}

/// The internal matrix of the standard instance is invertible.
pub proof fn lemma_standard_internal_invertible()
    ensures
        internal_invertible(standard_spec().diagonal),
{
    let d = standard_spec().diagonal;
    assert(d[0] == 14102670999874605824) by {
        assert(STANDARD_DIAGONAL@[0] == 14102670999874605824);
    }
    lemma_inverse_is_fp_inv(14102670999874605824, 13806053890864727292);
    assert(d[1] == 15585654191999307702) by {
        assert(STANDARD_DIAGONAL@[1] == 15585654191999307702);
    }
    lemma_inverse_is_fp_inv(15585654191999307702, 16039304555552744694);
    assert(d[2] == 940187017142450255) by {
        assert(STANDARD_DIAGONAL@[2] == 940187017142450255);
    }
    lemma_inverse_is_fp_inv(940187017142450255, 18000805539296046064);
    assert(d[3] == 8747386241522630711) by {
        assert(STANDARD_DIAGONAL@[3] == 8747386241522630711);
    }
    lemma_inverse_is_fp_inv(8747386241522630711, 1120712292707969966);
    assert(d[4] == 6750641561540124747) by {
        assert(STANDARD_DIAGONAL@[4] == 6750641561540124747);
    }
    lemma_inverse_is_fp_inv(6750641561540124747, 18151938884699337764);
    assert(d[5] == 7440998025584530007) by {
        assert(STANDARD_DIAGONAL@[5] == 7440998025584530007);
    }
    lemma_inverse_is_fp_inv(7440998025584530007, 16223473244271871235);
    assert(d[6] == 6136358134615751536) by {
        assert(STANDARD_DIAGONAL@[6] == 6136358134615751536);
    }
    lemma_inverse_is_fp_inv(6136358134615751536, 7784472447174841387);
    assert(d[7] == 12413576830284969611) by {
        assert(STANDARD_DIAGONAL@[7] == 12413576830284969611);
    }
    lemma_inverse_is_fp_inv(12413576830284969611, 11935060317972544447);
    assert(d[8] == 11675438539028694709) by {
        assert(STANDARD_DIAGONAL@[8] == 11675438539028694709);
    }
    lemma_inverse_is_fp_inv(11675438539028694709, 12400051796508006841);
    assert(d[9] == 17580553691069642926) by {
        assert(STANDARD_DIAGONAL@[9] == 17580553691069642926);
    }
    lemma_inverse_is_fp_inv(17580553691069642926, 5848187894058753806);
    assert(d[10] == 892707462476851331) by {
        assert(STANDARD_DIAGONAL@[10] == 892707462476851331);
    }
    lemma_inverse_is_fp_inv(892707462476851331, 1664410347336977730);
    assert(d[11] == 15167485180850043744) by {
        assert(STANDARD_DIAGONAL@[11] == 15167485180850043744);
    }
    lemma_inverse_is_fp_inv(15167485180850043744, 1496632066239311320);
    assert forall|i: int| 0 <= i < 12 implies (#[trigger] d[i]) % modulus() != 0 by {
        // the twelve entries, one by one
        assert(i == 0 || i == 1 || i == 2 || i == 3 || i == 4 || i == 5 || i == 6 || i == 7 || i == 8
            || i == 9 || i == 10 || i == 11);
    }
}

/// The permutation of the standard instance is injective on canonical
/// states.
pub proof fn lemma_standard_permutation_injective(s: Seq<int>, t: Seq<int>)
    requires
        state_canonical(s),
        state_canonical(t),
        permutation(standard_spec(), s) == permutation(standard_spec(), t),
    ensures
        s == t,
{
    lemma_standard_internal_invertible();
    lemma_permutation_injective(standard_spec(), s, t);
}

} // verus!
