//! Poseidon2 hashing over the Goldilocks field and Schnorr signatures over
//! the ECgFp5 curve, with every operation specified and proved.
//!
//! The functions of this module work on raw 64-bit encodings, with the
//! standard Poseidon2 instance. The modules hold what they are made of:
//!
//! - `field`, the prime field, with `prime`, the proof that its modulus is
//!   prime, `fermat`, Fermat's little theorem, and `residue`, the proof
//!   that three is not a fifth power;
//! - `extension`, its quintic extension, with `extension_laws`, `ring` and
//!   `units`, the laws of that ring and the theory of its norm, and
//!   `zero_divisors`, the proof that it is a field;
//! - `poseidon2`, the permutation, with `permutation_laws`, the proof that
//!   it is a bijection, and `sponge`, the two hash functions;
//! - `scalar`, the integers modulo the group order;
//! - `curve`, the group law, with `curve_laws`, the proof that it stays on
//!   the curve and commutes;
//! - `schnorr`, key derivation and signing.

pub mod curve;
pub mod curve_laws;
pub mod extension;
pub mod extension_laws;
pub mod fermat;
pub mod field;
pub mod permutation_laws;
pub mod poseidon2;
pub mod prime;
pub mod residue;
pub mod ring;
pub mod scalar;
pub mod schnorr;
pub mod sponge;
pub mod units;
pub mod zero_divisors;

use crate::curve::point_encode;
use crate::extension::{ext_from_raw, ExtensionField};
use crate::field::{encodings_view, MODULUS};
use crate::poseidon2::{reduce_all, standard_spec, Poseidon2Params};
use crate::scalar::{limbs_value, order, Scalar};
use crate::schnorr::{nonce, public_key, signature};
use crate::sponge::{hash_to_fp5, hasher_digest, sponge_digest};
use vstd::prelude::*;

verus! {

/// The digest of `data` under the chunk-wise sponge of the standard
/// instance. Each raw value is reduced into the field on entry; the four
/// outputs are canonical. The empty input gives four zeros.
pub fn hash_n_to_hash_no_pad(data: &[u64]) -> (dst: [u64; 4])
    ensures
        encodings_view(dst@) == sponge_digest(standard_spec(), reduce_all(data@)),
        forall|i: int| 0 <= i < 4 ==> dst[i] < MODULUS,
{
    let params = Poseidon2Params::standard();
    crate::sponge::hash_n_to_hash(&params, data).to_canonical_u64s()
}

/// The digest of `input` under the element-wise hasher of the standard
/// instance. Each raw value is reduced into the field on entry; the four
/// outputs are canonical. The empty input gives four zeros.
pub fn hash_no_pad(input: &[u64]) -> (dst: [u64; 4])
    ensures
        encodings_view(dst@) == hasher_digest(standard_spec(), reduce_all(input@)),
        forall|i: int| 0 <= i < 4 ==> dst[i] < MODULUS,
{
    let params = Poseidon2Params::standard();
    crate::sponge::hash_no_pad(&params, input).to_canonical_u64s()
}

/// The extension-field element that `input` hashes to under the standard
/// instance, as five canonical coefficients.
pub fn hash_to_quintic_extension(input: &[u64]) -> (dst: [u64; 5])
    ensures
        encodings_view(dst@) == hash_to_fp5(standard_spec(), reduce_all(input@)).coefficients(),
        forall|i: int| 0 <= i < 5 ==> dst[i] < MODULUS,
{
    let params = Poseidon2Params::standard();
    crate::sponge::hash_to_extension(&params, input).to_canonical_u64s()
}

/// The encoded public key of the secret that the five limbs stand for,
/// reduced modulo the group order. The zero secret gives the encoding of
/// the identity, five zeros.
pub fn schnorr_pk_from_sk(sk: &[u64; 5]) -> (dst: [u64; 5])
    ensures
        encodings_view(dst@) == point_encode(
            public_key(limbs_value(sk@) % order()),
        ).coefficients(),
        forall|i: int| 0 <= i < 5 ==> dst[i] < MODULUS,
{
    let secret = Scalar::from_limbs(sk);
    crate::schnorr::pk_from_sk(&secret).encode().to_canonical_u64s()
}

/// The signature of the hashed message under the secret, with the
/// deterministic nonce and the standard instance: the response in limbs 0
/// to 4, the challenge in limbs 5 to 9. The coefficients of the message
/// are reduced into the field, the secret modulo the group order.
pub fn schnorr_sign_hashed_message(m_hashed: &[u64; 5], sk: &[u64; 5]) -> (sig: [u64; 10])
    ensures
        ({
            let m = ext_from_raw(m_hashed@);
            let secret = limbs_value(sk@) % order();
            let k = nonce(standard_spec(), m, secret);
            let expected = signature(standard_spec(), m, secret, k);
            &&& limbs_value(sig@.subrange(0, 5)) == expected.s
            &&& limbs_value(sig@.subrange(5, 10)) == expected.e
        }),
{
    let params = Poseidon2Params::standard();
    let message = ExtensionField::from_raw(m_hashed);
    let secret = Scalar::from_limbs(sk);
    crate::schnorr::sign_deterministic(&params, &message, &secret).to_limbs()
}

} // verus!
