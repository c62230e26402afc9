//! The Poseidon2 permutation on twelve Goldilocks elements.
//!
//! A permutation instance is its round constants and the diagonal of its
//! internal matrix; the round structure (four full rounds, twenty-two
//! partial rounds, four full rounds, with the S-box `x^7`) is fixed.

use crate::field::{fp_add, fp_reduce, modulus, BaseField, MODULUS};
use vstd::arithmetic::div_mod::*;
use vstd::prelude::*;

verus! {

/// The round constants of the eight full rounds of the standard instance,
/// twelve to a round: the published Poseidon2 constants for the Goldilocks
/// field at width 12.
pub const STANDARD_EXTERNAL_CONSTANTS: [u64; 96] = [
    0x13dcf33aba214f46, 0x30b3b654a1da6d83, 0x1fc634ada6159b56,
    0x937459964dc03466, 0xedd2ef2ca7949924, 0xede9affde0e22f68,
    0x8515b9d6bac9282d, 0x6b5c07b4e9e900d8, 0x1ec66368838c8a08,
    0x9042367d80d1fbab, 0x400283564a3c3799, 0x4a00be0466bca75e,
    0x7913beee58e3817f, 0xf545e88532237d90, 0x22f8cb8736042005,
    0x6f04990e247a2623, 0xfe22e87ba37c38cd, 0xd20e32c85ffe2815,
    0x117227674048fe73, 0x4e9fb7ea98a6b145, 0xe0866c232b8af08b,
    0x00bbc77916884964, 0x7031c0fb990d7116, 0x240a9e87cf35108f,
    0x2e6363a5a12244b3, 0x5e1c3787d1b5011c, 0x4132660e2a196e8b,
    0x3a013b648d3d4327, 0xf79839f49888ea43, 0xfe85658ebafe1439,
    0xb6889825a14240bd, 0x578453605541382b, 0x4508cda8f6b63ce9,
    0x9c3ef35848684c91, 0x0812bde23c87178c, 0xfe49638f7f722c14,
    0x8e3f688ce885cbf5, 0xb8e110acf746a87d, 0xb4b2e8973a6dabef,
    0x9e714c5da3d462ec, 0x6438f9033d3d0c15, 0x24312f7cf1a27199,
    0x23f843bb47acbf71, 0x9183f11a34be9f01, 0x839062fbb9d45dbf,
    0x24b56e7e6c2e43fa, 0xe1683da61c962a72, 0xa95c63971a19bfa7,
    0xc68be7c94882a24d, 0xaf996d5d5cdaedd9, 0x9717f025e7daf6a5,
    0x6436679e6e7216f4, 0x8a223d99047af267, 0xbb512e35a133ba9a,
    0xfbbf44097671aa03, 0xf04058ebf6811e61, 0x5cca84703fac7ffb,
    0x9b55c7945de6469f, 0x8e05bf09808e934f, 0x2ea900de876307d7,
    0x7748fff2b38dfb89, 0x6b99a676dd3b5d81, 0xac4bb7c627cf7c13,
    0xadb6ebe5e9e2f5ba, 0x2d33378cafa24ae3, 0x1e5b73807543f8c2,
    0x09208814bfebb10f, 0x782e64b6bb5b93dd, 0xadd5a48eac90b50f,
    0xadd4c54c736ea4b1, 0xd58dbb86ed817fd8, 0x6d5ed1a533f34ddd,
    0x28686aa3e36b7cb9, 0x591abd3476689f36, 0x047d766678f13875,
    0xa2a11112625f5b49, 0x21fd10a3f8304958, 0xf9b40711443b0280,
    0xd2697eb8b2bde88e, 0x3493790b51731b3f, 0x11caf9dd73764023,
    0x7acfb8f72878164e, 0x744ec4db23cefc26, 0x1e00e58f422c6340,
    0x21dd28d906a62dda, 0xf32a46ab5f465b5f, 0xbfce13201f3f7e6b,
    0xf30d2e7adb5304e2, 0xecdf4ee4abad48e9, 0xf94e82182d395019,
    0x4ee52e3744d887c5, 0xa1341c7cac0083b2, 0x2302fb26c30c834a,
    0xaea3c587273bf7d3, 0xf798e24961823ec7, 0x962deba3e9a2cd94,
];

/// The round constants of the twenty-two partial rounds of the standard
/// instance.
pub const STANDARD_INTERNAL_CONSTANTS: [u64; 22] = [
    0x4adf842aa75d4316, 0xf8fbb871aa4ab4eb, 0x68e85b6eb2dd6aeb,
    0x07a0b06b2d270380, 0xd94e0228bd282de4, 0x8bdd91d3250c5278,
    0x209c68b88bba778f, 0xb5e18cdab77f3877, 0xb296a3e808da93fa,
    0x8370ecbda11a327e, 0x3f9075283775dad8, 0xb78095bb23c6aa84,
    0x3f36b9fe72ad4e5f, 0x69bc96780b10b553, 0x3f1d341f2eb7b881,
    0x4e939e9815838818, 0xda366b3ae2a31604, 0xbc89db1e7287d509,
    0x6102f411f9ef5659, 0x58725c5e7ac1f0ab, 0x0df5856c798883e7,
    0xf7bb62a8da4c961b,
];

/// The diagonal of the internal matrix of the standard instance, less one.
pub const STANDARD_DIAGONAL: [u64; 12] = [
    0xc3b6c08e23ba9300, 0xd84b5de94a324fb6, 0x0d0c371c5b35b84f,
    0x7964f570e7188037, 0x5daf18bbd996604b, 0x6743bc47b9595257,
    0x5528b9362c59bb70, 0xac45e25b7127b68b, 0xa2077d7dfbb606b5,
    0xf3faac6faee378ae, 0x0c6388b51545e883, 0xd27dbb6944917b60,
];
/// The constants of a permutation instance, as mathematical sequences.
pub struct Poseidon2Spec {
    /// Twelve constants for each of the eight full rounds, round by round.
    pub external: Seq<int>,
    /// One constant for each of the twenty-two partial rounds.
    pub internal: Seq<int>,
    /// The diagonal of the internal matrix, less one.
    pub diagonal: Seq<int>,
}

/// Each raw encoding reduced to the field element it stands for.
pub open spec fn reduce_all(raw: Seq<u64>) -> Seq<int> {
    Seq::new(raw.len(), |i: int| fp_reduce(raw[i] as int))
}

/// The standard instance.
pub open spec fn standard_spec() -> Poseidon2Spec {
    Poseidon2Spec {
        external: reduce_all(STANDARD_EXTERNAL_CONSTANTS@),
        internal: reduce_all(STANDARD_INTERNAL_CONSTANTS@),
        diagonal: reduce_all(STANDARD_DIAGONAL@),
    }
}

/// The S-box: the seventh power.
pub open spec fn sbox(x: int) -> int {
    (x * x * x * x * x * x * x) % modulus()
}

/// Row `row` of the 4x4 matrix of the external layer, applied to
/// `(a, b, c, d)`.
pub open spec fn mds4(a: int, b: int, c: int, d: int, row: int) -> int {
    if row == 0 {
        5 * a + 7 * b + c + 3 * d
    } else if row == 1 {
        4 * a + 6 * b + c + d
    } else if row == 2 {
        a + 3 * b + 5 * c + 7 * d
    } else {
        a + b + 4 * c + 6 * d
    }
}

/// Entry `i` of the state after the 4x4 matrix has been applied to each of
/// its three blocks of four.
pub open spec fn block_image(s: Seq<int>, i: int) -> int {
    let j = (i / 4) * 4;
    mds4(s[j], s[j + 1], s[j + 2], s[j + 3], i % 4)
}

/// The external linear layer: the 4x4 matrix on each block, then each
/// entry plus the sum of the entries at its position in the three blocks.
pub open spec fn external_layer(s: Seq<int>) -> Seq<int> {
    Seq::new(
        12,
        |i: int|
            (block_image(s, i) + block_image(s, i % 4) + block_image(s, 4 + i % 4) + block_image(
                s,
                8 + i % 4,
            )) % modulus(),
    )
}

/// The sum of the twelve entries of a state.
pub open spec fn state_sum(s: Seq<int>) -> int {
    s[0] + s[1] + s[2] + s[3] + s[4] + s[5] + s[6] + s[7] + s[8] + s[9] + s[10] + s[11]
}

/// The internal linear layer: each entry times its diagonal constant, plus
/// the sum of all entries.
pub open spec fn internal_layer(s: Seq<int>, diagonal: Seq<int>) -> Seq<int> {
    Seq::new(12, |i: int| (s[i] * diagonal[i] + state_sum(s)) % modulus())
}

/// Full round `r`: add the round constants, apply the S-box to every
/// entry, then the external layer.
pub open spec fn full_round(s: Seq<int>, spec: Poseidon2Spec, r: int) -> Seq<int> {
    external_layer(Seq::new(12, |i: int| sbox(fp_add(s[i], spec.external[12 * r + i]))))
}

/// Partial round `r`: add the round constant to the first entry, apply the
/// S-box to it, then the internal layer.
pub open spec fn partial_round(s: Seq<int>, spec: Poseidon2Spec, r: int) -> Seq<int> {
    internal_layer(s.update(0, sbox(fp_add(s[0], spec.internal[r]))), spec.diagonal)
}

/// Full rounds `from` up to, not including, `to`, in order.
pub open spec fn full_rounds(s: Seq<int>, spec: Poseidon2Spec, from: int, to: int) -> Seq<int>
    decreases to - from,
{
    if to <= from {
        s
    } else {
        full_round(full_rounds(s, spec, from, to - 1), spec, to - 1)
    }
}

/// The first `n` partial rounds, in order.
pub open spec fn partial_rounds(s: Seq<int>, spec: Poseidon2Spec, n: int) -> Seq<int>
    decreases n,
{
    if n <= 0 {
        s
    } else {
        partial_round(partial_rounds(s, spec, n - 1), spec, n - 1)
    }
}

/// The permutation: the external layer, four full rounds, twenty-two
/// partial rounds, four full rounds.
pub open spec fn permutation(spec: Poseidon2Spec, s: Seq<int>) -> Seq<int> {
    let a = full_rounds(external_layer(s), spec, 0, 4);
    let b = partial_rounds(a, spec, 22);
    full_rounds(b, spec, 4, 8)
}

/// The field elements that a state holds.
pub open spec fn state_view(s: [BaseField; 12]) -> Seq<int> {
    Seq::new(12, |i: int| s[i]@)
}

/// The permutation keeps the state at twelve entries.
pub proof fn lemma_permutation_width(spec: Poseidon2Spec, s: Seq<int>)
    ensures
        permutation(spec, s).len() == 12,
{
    reveal_with_fuel(full_rounds, 2);
}

/// The seventh power, by way of the square, the cube and the fourth power.
proof fn lemma_seventh_power(x: int)
    ensures
        crate::field::fp_mul(
            crate::field::fp_mul(crate::field::fp_mul(x, x), crate::field::fp_mul(x, x)),
            crate::field::fp_mul(crate::field::fp_mul(x, x), x),
        ) == sbox(x),
{
    let p = modulus();
    let a = x * x;
    lemma_mul_mod_noop_left(a, x, p);
    lemma_mul_mod_noop_general(a, a, p);
    lemma_mul_mod_noop_general(a * a, a * x, p);
    assert((a * a) * (a * x) == x * x * x * x * x * x * x) by (nonlinear_arith)
        requires
            a == x * x,
    ;
}

/// The S-box, by four multiplications.
fn apply_sbox(x: &BaseField) -> (r: BaseField)
    ensures
        r@ == sbox(x@),
{
    let x2 = x.square();
    let x3 = x2.mul(x);
    let x4 = x2.square();
    proof {
        lemma_seventh_power(x@);
    }
    x4.mul(&x3)
}

/// Two states with the same twelve entries are equal.
proof fn lemma_states_equal(a: Seq<int>, b: Seq<int>)
    requires
        a.len() == 12,
        b.len() == 12,
        a[0] == b[0],
        a[1] == b[1],
        a[2] == b[2],
        a[3] == b[3],
        a[4] == b[4],
        a[5] == b[5],
        a[6] == b[6],
        a[7] == b[7],
        a[8] == b[8],
        a[9] == b[9],
        a[10] == b[10],
        a[11] == b[11],
    ensures
        a == b,
{
    assert(a =~= b);
}

/// The 4x4 matrix applied to one block, before reduction.
fn mds4_block(a: &BaseField, b: &BaseField, c: &BaseField, d: &BaseField) -> (r: (
    u128,
    u128,
    u128,
    u128,
))
    ensures
        r.0 == 5 * a@ + 7 * b@ + c@ + 3 * d@,
        r.1 == 4 * a@ + 6 * b@ + c@ + d@,
        r.2 == a@ + 3 * b@ + 5 * c@ + 7 * d@,
        r.3 == a@ + b@ + 4 * c@ + 6 * d@,
        r.0 <= 16 * 0xFFFF_FFFF_FFFF_FFFF,
        r.1 <= 16 * 0xFFFF_FFFF_FFFF_FFFF,
        r.2 <= 16 * 0xFFFF_FFFF_FFFF_FFFF,
        r.3 <= 16 * 0xFFFF_FFFF_FFFF_FFFF,
{
    let a: u128 = a.to_canonical_u64() as u128;
    let b: u128 = b.to_canonical_u64() as u128;
    let c: u128 = c.to_canonical_u64() as u128;
    let d: u128 = d.to_canonical_u64() as u128;
    (
        5 * a + 7 * b + c + 3 * d,
        4 * a + 6 * b + c + d,
        a + 3 * b + 5 * c + 7 * d,
        a + b + 4 * c + 6 * d,
    )
}

/// Entry `i` of the external layer, written out for one index.
proof fn lemma_external_entry(s: Seq<int>, i: int, t: int, u0: int, u1: int, u2: int)
    requires
        s.len() == 12,
        0 <= i < 12,
        t == block_image(s, i),
        u0 == block_image(s, i % 4),
        u1 == block_image(s, 4 + i % 4),
        u2 == block_image(s, 8 + i % 4),
    ensures
        external_layer(s)[i] == (t + u0 + u1 + u2) % modulus(),
{
}

/// One entry of the external layer: the block image plus the three block
/// images at its position, reduced.
fn mix_entry(t: u128, u0: u128, u1: u128, u2: u128) -> (r: BaseField)
    requires
        t <= 16 * 0xFFFF_FFFF_FFFF_FFFF,
        u0 <= 16 * 0xFFFF_FFFF_FFFF_FFFF,
        u1 <= 16 * 0xFFFF_FFFF_FFFF_FFFF,
        u2 <= 16 * 0xFFFF_FFFF_FFFF_FFFF,
    ensures
        r@ == (t + u0 + u1 + u2) % modulus(),
{
    BaseField::from_u128(t + u0 + u1 + u2)
}

/// The block images of a state, as the three executable blocks give them.
proof fn lemma_block_images(
    v: Seq<int>,
    b0: (u128, u128, u128, u128),
    b1: (u128, u128, u128, u128),
    b2: (u128, u128, u128, u128),
)
    requires
        v.len() == 12,
        b0.0 == 5 * v[0] + 7 * v[1] + v[2] + 3 * v[3],
        b0.1 == 4 * v[0] + 6 * v[1] + v[2] + v[3],
        b0.2 == v[0] + 3 * v[1] + 5 * v[2] + 7 * v[3],
        b0.3 == v[0] + v[1] + 4 * v[2] + 6 * v[3],
        b1.0 == 5 * v[4] + 7 * v[5] + v[6] + 3 * v[7],
        b1.1 == 4 * v[4] + 6 * v[5] + v[6] + v[7],
        b1.2 == v[4] + 3 * v[5] + 5 * v[6] + 7 * v[7],
        b1.3 == v[4] + v[5] + 4 * v[6] + 6 * v[7],
        b2.0 == 5 * v[8] + 7 * v[9] + v[10] + 3 * v[11],
        b2.1 == 4 * v[8] + 6 * v[9] + v[10] + v[11],
        b2.2 == v[8] + 3 * v[9] + 5 * v[10] + 7 * v[11],
        b2.3 == v[8] + v[9] + 4 * v[10] + 6 * v[11],
    ensures
        external_layer(v).len() == 12,
        external_layer(v)[0] == (b0.0 + b0.0 + b1.0 + b2.0) % modulus(),
        external_layer(v)[1] == (b0.1 + b0.1 + b1.1 + b2.1) % modulus(),
        external_layer(v)[2] == (b0.2 + b0.2 + b1.2 + b2.2) % modulus(),
        external_layer(v)[3] == (b0.3 + b0.3 + b1.3 + b2.3) % modulus(),
        external_layer(v)[4] == (b1.0 + b0.0 + b1.0 + b2.0) % modulus(),
        external_layer(v)[5] == (b1.1 + b0.1 + b1.1 + b2.1) % modulus(),
        external_layer(v)[6] == (b1.2 + b0.2 + b1.2 + b2.2) % modulus(),
        external_layer(v)[7] == (b1.3 + b0.3 + b1.3 + b2.3) % modulus(),
        external_layer(v)[8] == (b2.0 + b0.0 + b1.0 + b2.0) % modulus(),
        external_layer(v)[9] == (b2.1 + b0.1 + b1.1 + b2.1) % modulus(),
        external_layer(v)[10] == (b2.2 + b0.2 + b1.2 + b2.2) % modulus(),
        external_layer(v)[11] == (b2.3 + b0.3 + b1.3 + b2.3) % modulus(),
{
    assert(block_image(v, 0) == b0.0 && block_image(v, 1) == b0.1 && block_image(v, 2) == b0.2
        && block_image(v, 3) == b0.3);
    assert(block_image(v, 4) == b1.0 && block_image(v, 5) == b1.1 && block_image(v, 6) == b1.2
        && block_image(v, 7) == b1.3);
    assert(block_image(v, 8) == b2.0 && block_image(v, 9) == b2.1 && block_image(v, 10) == b2.2
        && block_image(v, 11) == b2.3);
    lemma_external_entry(v, 0, b0.0 as int, b0.0 as int, b1.0 as int, b2.0 as int);
    lemma_external_entry(v, 1, b0.1 as int, b0.1 as int, b1.1 as int, b2.1 as int);
    lemma_external_entry(v, 2, b0.2 as int, b0.2 as int, b1.2 as int, b2.2 as int);
    lemma_external_entry(v, 3, b0.3 as int, b0.3 as int, b1.3 as int, b2.3 as int);
    lemma_external_entry(v, 4, b1.0 as int, b0.0 as int, b1.0 as int, b2.0 as int);
    lemma_external_entry(v, 5, b1.1 as int, b0.1 as int, b1.1 as int, b2.1 as int);
    lemma_external_entry(v, 6, b1.2 as int, b0.2 as int, b1.2 as int, b2.2 as int);
    lemma_external_entry(v, 7, b1.3 as int, b0.3 as int, b1.3 as int, b2.3 as int);
    lemma_external_entry(v, 8, b2.0 as int, b0.0 as int, b1.0 as int, b2.0 as int);
    lemma_external_entry(v, 9, b2.1 as int, b0.1 as int, b1.1 as int, b2.1 as int);
    lemma_external_entry(v, 10, b2.2 as int, b0.2 as int, b1.2 as int, b2.2 as int);
    lemma_external_entry(v, 11, b2.3 as int, b0.3 as int, b1.3 as int, b2.3 as int);
}

/// The external linear layer.
fn apply_external_layer(s: &[BaseField; 12]) -> (r: [BaseField; 12])
    ensures
        state_view(r) == external_layer(state_view(*s)),
{
    let b0 = mds4_block(&s[0], &s[1], &s[2], &s[3]);
    let b1 = mds4_block(&s[4], &s[5], &s[6], &s[7]);
    let b2 = mds4_block(&s[8], &s[9], &s[10], &s[11]);
    let r = [
        mix_entry(b0.0, b0.0, b1.0, b2.0),
        mix_entry(b0.1, b0.1, b1.1, b2.1),
        mix_entry(b0.2, b0.2, b1.2, b2.2),
        mix_entry(b0.3, b0.3, b1.3, b2.3),
        mix_entry(b1.0, b0.0, b1.0, b2.0),
        mix_entry(b1.1, b0.1, b1.1, b2.1),
        mix_entry(b1.2, b0.2, b1.2, b2.2),
        mix_entry(b1.3, b0.3, b1.3, b2.3),
        mix_entry(b2.0, b0.0, b1.0, b2.0),
        mix_entry(b2.1, b0.1, b1.1, b2.1),
        mix_entry(b2.2, b0.2, b1.2, b2.2),
        mix_entry(b2.3, b0.3, b1.3, b2.3),
    ];
    proof {
        let v = state_view(*s);
        assert(v[0] == s[0]@ && v[1] == s[1]@ && v[2] == s[2]@ && v[3] == s[3]@);
        assert(v[4] == s[4]@ && v[5] == s[5]@ && v[6] == s[6]@ && v[7] == s[7]@);
        assert(v[8] == s[8]@ && v[9] == s[9]@ && v[10] == s[10]@ && v[11] == s[11]@);
        lemma_block_images(v, b0, b1, b2);
        lemma_states_equal(state_view(r), external_layer(v));
    }
    r
}

/// One entry of the internal layer: `x * d + sum`.
fn diagonal_mix(x: &BaseField, d: &BaseField, sum: u128) -> (r: BaseField)
    requires
        sum <= 12 * 0xFFFF_FFFF_FFFF_FFFF,
    ensures
        r@ == (x@ * d@ + sum) % modulus(),
{
    let m = x.mul(d).to_canonical_u64() as u128;
    proof {
        lemma_add_mod_noop(x@ * d@, sum as int, modulus());
        lemma_small_mod((sum % (MODULUS as u128)) as nat, modulus() as nat);
        lemma_mod_twice(sum as int, modulus());
    }
    BaseField::from_u128(m + sum)
}

/// The constants of a Poseidon2 instance.
#[derive(Clone, Copy, Debug)]
pub struct Poseidon2Params {
    external: [BaseField; 96],
    internal: [BaseField; 22],
    diagonal: [BaseField; 12],
}

impl View for Poseidon2Params {
    type V = Poseidon2Spec;

    closed spec fn view(&self) -> Poseidon2Spec {
        Poseidon2Spec {
            external: Seq::new(96, |i: int| self.external[i]@),
            internal: Seq::new(22, |i: int| self.internal[i]@),
            diagonal: Seq::new(12, |i: int| self.diagonal[i]@),
        }
    }
}

impl Poseidon2Params {
    /// The instance with the given constants, each reduced into the field.
    pub fn new(external: &[u64; 96], internal: &[u64; 22], diagonal: &[u64; 12]) -> (r:
        Poseidon2Params)
        ensures
            r@ == (Poseidon2Spec {
                external: reduce_all(external@),
                internal: reduce_all(internal@),
                diagonal: reduce_all(diagonal@),
            }),
    {
        let z = BaseField::zero();
        let mut ext = [z;96];
        let mut inner = [z;22];
        let mut diag = [z;12];
        let mut i: usize = 0;
        while i < 96
            invariant
                i <= 96,
                forall|j: int| 0 <= j < i ==> ext[j]@ == fp_reduce(external[j] as int),
            decreases 96 - i,
        {
            ext[i] = BaseField::new(external[i]);
            i += 1;
        }
        i = 0;
        while i < 22
            invariant
                i <= 22,
                forall|j: int| 0 <= j < i ==> inner[j]@ == fp_reduce(internal[j] as int),
            decreases 22 - i,
        {
            inner[i] = BaseField::new(internal[i]);
            i += 1;
        }
        i = 0;
        while i < 12
            invariant
                i <= 12,
                forall|j: int| 0 <= j < i ==> diag[j]@ == fp_reduce(diagonal[j] as int),
            decreases 12 - i,
        {
            diag[i] = BaseField::new(diagonal[i]);
            i += 1;
        }
        let r = Poseidon2Params { external: ext, internal: inner, diagonal: diag };
        assert(r@.external =~= reduce_all(external@));
        assert(r@.internal =~= reduce_all(internal@));
        assert(r@.diagonal =~= reduce_all(diagonal@));
        r
    }

    /// The standard instance.
    pub fn standard() -> (r: Poseidon2Params)
        ensures
            r@ == standard_spec(),
    {
        Poseidon2Params::new(
            &STANDARD_EXTERNAL_CONSTANTS,
            &STANDARD_INTERNAL_CONSTANTS,
            &STANDARD_DIAGONAL,
        )
    }

    /// The internal linear layer.
    fn apply_internal_layer(&self, s: &[BaseField; 12]) -> (r: [BaseField; 12])
        ensures
            state_view(r) == internal_layer(state_view(*s), self@.diagonal),
    {
        let v0: u128 = s[0].to_canonical_u64() as u128;
        let v1: u128 = s[1].to_canonical_u64() as u128;
        let v2: u128 = s[2].to_canonical_u64() as u128;
        let v3: u128 = s[3].to_canonical_u64() as u128;
        let v4: u128 = s[4].to_canonical_u64() as u128;
        let v5: u128 = s[5].to_canonical_u64() as u128;
        let v6: u128 = s[6].to_canonical_u64() as u128;
        let v7: u128 = s[7].to_canonical_u64() as u128;
        let v8: u128 = s[8].to_canonical_u64() as u128;
        let v9: u128 = s[9].to_canonical_u64() as u128;
        let v10: u128 = s[10].to_canonical_u64() as u128;
        let v11: u128 = s[11].to_canonical_u64() as u128;
        let sum: u128 = v0 + v1 + v2 + v3 + v4 + v5 + v6 + v7 + v8 + v9 + v10 + v11;
        let r = [
            diagonal_mix(&s[0], &self.diagonal[0], sum),
            diagonal_mix(&s[1], &self.diagonal[1], sum),
            diagonal_mix(&s[2], &self.diagonal[2], sum),
            diagonal_mix(&s[3], &self.diagonal[3], sum),
            diagonal_mix(&s[4], &self.diagonal[4], sum),
            diagonal_mix(&s[5], &self.diagonal[5], sum),
            diagonal_mix(&s[6], &self.diagonal[6], sum),
            diagonal_mix(&s[7], &self.diagonal[7], sum),
            diagonal_mix(&s[8], &self.diagonal[8], sum),
            diagonal_mix(&s[9], &self.diagonal[9], sum),
            diagonal_mix(&s[10], &self.diagonal[10], sum),
            diagonal_mix(&s[11], &self.diagonal[11], sum),
        ];
        assert(state_view(r) =~= internal_layer(state_view(*s), self@.diagonal));
        r
    }

    /// Full round `round`.
    fn apply_full_round(&self, s: &[BaseField; 12], round: usize) -> (r: [BaseField; 12])
        requires
            round < 8,
        ensures
            state_view(r) == full_round(state_view(*s), self@, round as int),
    {
        let b = 12 * round;
        let t = [
            apply_sbox(&s[0].add(&self.external[b + 0])),
            apply_sbox(&s[1].add(&self.external[b + 1])),
            apply_sbox(&s[2].add(&self.external[b + 2])),
            apply_sbox(&s[3].add(&self.external[b + 3])),
            apply_sbox(&s[4].add(&self.external[b + 4])),
            apply_sbox(&s[5].add(&self.external[b + 5])),
            apply_sbox(&s[6].add(&self.external[b + 6])),
            apply_sbox(&s[7].add(&self.external[b + 7])),
            apply_sbox(&s[8].add(&self.external[b + 8])),
            apply_sbox(&s[9].add(&self.external[b + 9])),
            apply_sbox(&s[10].add(&self.external[b + 10])),
            apply_sbox(&s[11].add(&self.external[b + 11])),
        ];
        assert(state_view(t) =~= Seq::new(
            12,
            |i: int| sbox(fp_add(state_view(*s)[i], self@.external[12 * (round as int) + i])),
        ));
        apply_external_layer(&t)
    }

    /// Partial round `round`.
    fn apply_partial_round(&self, s: &[BaseField; 12], round: usize) -> (r: [BaseField; 12])
        requires
            round < 22,
        ensures
            state_view(r) == partial_round(state_view(*s), self@, round as int),
    {
        let x = apply_sbox(&s[0].add(&self.internal[round]));
        let t = [x, s[1], s[2], s[3], s[4], s[5], s[6], s[7], s[8], s[9], s[10], s[11]];
        assert(state_view(t) =~= state_view(*s).update(
            0,
            sbox(fp_add(state_view(*s)[0], self@.internal[round as int])),
        ));
        self.apply_internal_layer(&t)
    }

    /// The permutation of a state.
    pub fn permute(&self, state: &[BaseField; 12]) -> (r: [BaseField; 12])
        ensures
            state_view(r) == permutation(self@, state_view(*state)),
    {
        let mut s = apply_external_layer(state);
        let ghost s0 = state_view(s);
        let mut round: usize = 0;
        while round < 4
            invariant
                round <= 4,
                state_view(s) == full_rounds(s0, self@, 0, round as int),
            decreases 4 - round,
        {
            s = self.apply_full_round(&s, round);
            round += 1;
        }
        let ghost s1 = state_view(s);
        round = 0;
        while round < 22
            invariant
                round <= 22,
                state_view(s) == partial_rounds(s1, self@, round as int),
            decreases 22 - round,
        {
            s = self.apply_partial_round(&s, round);
            round += 1;
        }
        let ghost s2 = state_view(s);
        round = 4;
        while round < 8
            invariant
                4 <= round <= 8,
                state_view(s) == full_rounds(s2, self@, 4, round as int),
            decreases 8 - round,
        {
            s = self.apply_full_round(&s, round);
            round += 1;
        }
        s
    }
}

} // verus!
