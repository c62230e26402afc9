//! Schnorr signatures over the curve group.
//!
//! For a secret scalar `sk` the public key is `sk * G`. To sign a hashed
//! message `m` with a nonce `k`: the commitment is `R = k * G`; the
//! challenge `e` is the hash of the encodings of `R` and of the public key
//! followed by `m`, fifteen field elements in all, hashed to an
//! extension-field element whose coefficients are read as limbs and reduced
//! modulo the group order; the response is `s = k - e * sk`. A verifier
//! recomputes `R` as `s * G + e * pk`.
//!
//! The contracts give the signature by these formulas. That the verifier's
//! sum is the commitment rests on the associativity of the group law and on
//! the order of the generator, which are not proved here.
//!
//! The nonce is an input of `sign_hashed_message`. `derive_nonce` gives a
//! deterministic one: the hash of the limbs of the secret followed by `m`.

use crate::curve::{generator, point_encode, point_mul, CurvePoint, Point};
use crate::extension::{ExtensionField, Fp5};
use crate::field::{elements_view, fp_reduce, BaseField};
use crate::poseidon2::{Poseidon2Params, Poseidon2Spec};
use crate::scalar::{
    coefficients_value, digits, lemma_limbs_are_digits, limbs_value, order, scalar_response, Scalar,
};
use crate::sponge::{hash_elements_to_extension, hash_to_fp5};
use vstd::prelude::*;

verus! {

/// A signature as a pair of integers modulo the group order.
pub struct SignatureSpec {
    /// The response.
    pub s: int,
    /// The challenge.
    pub e: int,
}

/// The public key of a secret: the secret times the generator.
pub open spec fn public_key(sk: int) -> Point {
    point_mul(sk as nat, generator())
}

/// The commitment of a nonce: the nonce times the generator.
pub open spec fn commitment(k: int) -> Point {
    point_mul(k as nat, generator())
}

/// What is hashed into the challenge: the encoded commitment, the encoded
/// public key and the hashed message.
pub open spec fn challenge_input(r: Fp5, pk: Fp5, m: Fp5) -> Seq<int> {
    r.coefficients() + pk.coefficients() + m.coefficients()
}

/// The scalar that an extension-field element stands for.
pub open spec fn scalar_of(x: Fp5) -> int {
    coefficients_value(x.coefficients()) % order()
}

/// The challenge for an encoded commitment, an encoded public key and a
/// hashed message.
pub open spec fn challenge(spec: Poseidon2Spec, r: Fp5, pk: Fp5, m: Fp5) -> int {
    scalar_of(hash_to_fp5(spec, challenge_input(r, pk, m)))
}

/// The signature of the hashed message `m` under the secret `sk` with the
/// nonce `k`.
pub open spec fn signature(spec: Poseidon2Spec, m: Fp5, sk: int, k: int) -> SignatureSpec {
    let e = challenge(spec, point_encode(commitment(k)), point_encode(public_key(sk)), m);
    SignatureSpec { s: scalar_response(k, e, sk), e }
}

/// What is hashed into the deterministic nonce: the digits of the secret,
/// each reduced into the field, and the hashed message.
pub open spec fn nonce_input(m: Fp5, sk: int) -> Seq<int> {
    digits(sk).map_values(|d: int| fp_reduce(d)) + m.coefficients()
}

/// The deterministic nonce for a hashed message and a secret.
pub open spec fn nonce(spec: Poseidon2Spec, m: Fp5, sk: int) -> int {
    scalar_of(hash_to_fp5(spec, nonce_input(m, sk)))
}

/// The zero secret has the point at infinity as its public key.
pub proof fn lemma_zero_secret()
    ensures
        public_key(0) == Point::identity(),
        point_encode(Point::identity()) == Fp5::zero(),
{
}

/// The public key of a secret.
pub fn pk_from_sk(sk: &Scalar) -> (pk: CurvePoint)
    ensures
        pk@ == public_key(sk@),
{
    CurvePoint::generator().scalar_mul(sk)
}

/// A signature: response and challenge.
#[derive(Clone, Copy, PartialEq, Eq, Debug)]
pub struct Signature {
    /// The response `k - e * sk`.
    pub s: Scalar,
    /// The challenge.
    pub e: Scalar,
}

impl View for Signature {
    type V = SignatureSpec;

    open spec fn view(&self) -> SignatureSpec {
        SignatureSpec { s: self.s@, e: self.e@ }
    }
}

impl Signature {
    /// The ten limbs of the signature: the response in limbs 0 to 4, the
    /// challenge in limbs 5 to 9.
    pub fn to_limbs(&self) -> (r: [u64; 10])
        ensures
            limbs_value(r@.subrange(0, 5)) == self@.s,
            limbs_value(r@.subrange(5, 10)) == self@.e,
            0 <= self@.s < order(),
            0 <= self@.e < order(),
    {
        let s = self.s.to_limbs();
        let e = self.e.to_limbs();
        let r = [s[0], s[1], s[2], s[3], s[4], e[0], e[1], e[2], e[3], e[4]];
        assert(r@.subrange(0, 5) =~= s@);
        assert(r@.subrange(5, 10) =~= e@);
        r
    }
}

/// A secret scalar with the public key derived from it.
#[derive(Clone, Copy, Debug)]
pub struct KeyPair {
    sk: Scalar,
    pk: CurvePoint,
}

impl KeyPair {
    /// The public key is the one derived from the secret.
    #[verifier::type_invariant]
    spec fn derived(self) -> bool {
        self.pk@ == public_key(self.sk@)
    }

    /// The secret as an integer.
    pub closed spec fn secret_value(self) -> int {
        self.sk@
    }

    /// The key pair of a secret.
    pub fn from_secret(sk: Scalar) -> (r: KeyPair)
        ensures
            r.secret_value() == sk@,
    {
        let pk = pk_from_sk(&sk);
        KeyPair { sk, pk }
    }

    /// The secret.
    pub fn secret(&self) -> (sk: Scalar)
        ensures
            sk@ == self.secret_value(),
    {
        self.sk
    }

    /// The public key: the secret times the generator.
    pub fn public(&self) -> (pk: CurvePoint)
        ensures
            pk@ == public_key(self.secret_value()),
    {
        proof {
            use_type_invariant(self);
        }
        self.pk
    }
}

/// A sequence of fifteen entries is its three blocks of five, joined.
proof fn lemma_three_blocks(all: Seq<int>, a: Seq<int>, b: Seq<int>, c: Seq<int>)
    requires
        all.len() == 15,
        a.len() == 5,
        b.len() == 5,
        c.len() == 5,
        forall|i: int| 0 <= i < 5 ==> all[i] == a[i],
        forall|i: int| 0 <= i < 5 ==> all[5 + i] == b[i],
        forall|i: int| 0 <= i < 5 ==> all[10 + i] == c[i],
    ensures
        all == a + b + c,
{
    let joined = a + b + c;
    assert forall|i: int| 0 <= i < 15 implies all[i] == joined[i] by {
        if i < 5 {
        } else if i < 10 {
            assert(all[5 + (i - 5)] == b[i - 5]);
        } else {
            assert(all[10 + (i - 10)] == c[i - 10]);
        }
    }
    assert(all =~= joined);
}

/// A sequence of ten entries is its two blocks of five, joined.
proof fn lemma_two_blocks(all: Seq<int>, a: Seq<int>, b: Seq<int>)
    requires
        all.len() == 10,
        a.len() == 5,
        b.len() == 5,
        forall|i: int| 0 <= i < 5 ==> all[i] == a[i],
        forall|i: int| 0 <= i < 5 ==> all[5 + i] == b[i],
    ensures
        all == a + b,
{
    let joined = a + b;
    assert forall|i: int| 0 <= i < 10 implies all[i] == joined[i] by {
        if i < 5 {
        } else {
            assert(all[5 + (i - 5)] == b[i - 5]);
        }
    }
    assert(all =~= joined);
}

/// Three blocks of five elements, joined.
fn join_blocks(a: &[BaseField; 5], b: &[BaseField; 5], c: &[BaseField; 5]) -> (r: [BaseField; 15])
    ensures
        elements_view(r@) == elements_view(a@) + elements_view(b@) + elements_view(c@),
{
    let r = [
        a[0],
        a[1],
        a[2],
        a[3],
        a[4],
        b[0],
        b[1],
        b[2],
        b[3],
        b[4],
        c[0],
        c[1],
        c[2],
        c[3],
        c[4],
    ];
    proof {
        lemma_three_blocks(
            elements_view(r@),
            elements_view(a@),
            elements_view(b@),
            elements_view(c@),
        );
    }
    r
}

/// The challenge for a commitment, a public key and a hashed message.
pub fn derive_challenge(
    params: &Poseidon2Params,
    commitment: &CurvePoint,
    pk: &CurvePoint,
    m: &ExtensionField,
) -> (e: Scalar)
    ensures
        e@ == challenge(params@, point_encode(commitment@), point_encode(pk@), m@),
{
    let r = commitment.encode().coefficients();
    let p = pk.encode().coefficients();
    let h = m.coefficients();
    let input = join_blocks(&r, &p, &h);
    let x = hash_elements_to_extension(params, input.as_slice());
    Scalar::from_extension(&x)
}

/// The deterministic nonce for a hashed message and a secret.
pub fn derive_nonce(params: &Poseidon2Params, m: &ExtensionField, sk: &Scalar) -> (k: Scalar)
    ensures
        k@ == nonce(params@, m@, sk@),
{
    let l = sk.to_limbs();
    let input = [
        BaseField::new(l[0]),
        BaseField::new(l[1]),
        BaseField::new(l[2]),
        BaseField::new(l[3]),
        BaseField::new(l[4]),
        m.coefficient(0),
        m.coefficient(1),
        m.coefficient(2),
        m.coefficient(3),
        m.coefficient(4),
    ];
    proof {
        lemma_limbs_are_digits(l@);
        let reduced = digits(sk@).map_values(|d: int| fp_reduce(d));
        lemma_two_blocks(elements_view(input@), reduced, m@.coefficients());
    }
    let x = hash_elements_to_extension(params, input.as_slice());
    Scalar::from_extension(&x)
}

/// Signs the hashed message `m` under the secret `sk` with the nonce `k`.
pub fn sign_hashed_message(
    params: &Poseidon2Params,
    m: &ExtensionField,
    sk: &Scalar,
    k: &Scalar,
) -> (sig: Signature)
    ensures
        sig@ == signature(params@, m@, sk@, k@),
{
    let generator = CurvePoint::generator();
    let r = generator.scalar_mul(k);
    let pk = generator.scalar_mul(sk);
    let e = derive_challenge(params, &r, &pk, m);
    let s = k.sub(&e.mul(sk));
    Signature { s, e }
}

/// Signs the hashed message `m` under the secret `sk` with the
/// deterministic nonce.
pub fn sign_deterministic(params: &Poseidon2Params, m: &ExtensionField, sk: &Scalar) -> (sig:
    Signature)
    ensures
        sig@ == signature(params@, m@, sk@, nonce(params@, m@, sk@)),
{
    let k = derive_nonce(params, m, sk);
    sign_hashed_message(params, m, sk, &k)
}

} // verus!
