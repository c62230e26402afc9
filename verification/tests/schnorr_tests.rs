use poseidon_schnorr::curve::CurvePoint;
use poseidon_schnorr::extension::ExtensionField;
use poseidon_schnorr::poseidon2::{
    Poseidon2Params, STANDARD_DIAGONAL, STANDARD_EXTERNAL_CONSTANTS, STANDARD_INTERNAL_CONSTANTS,
};
use poseidon_schnorr::scalar::Scalar;
use poseidon_schnorr::schnorr::{
    derive_challenge, derive_nonce, pk_from_sk, sign_deterministic, sign_hashed_message, KeyPair,
    Signature,
};
use poseidon_schnorr::{schnorr_pk_from_sk, schnorr_sign_hashed_message};

const SK: [u64; 5] = [
    1234605616436508552,
    9770178637424943600,
    1089357896855742840,
    18364758544493064720,
    81985529216486895,
];
const MESSAGE: [u64; 5] = [11, 22, 33, 44, 55];

/// The commitment that a verifier recomputes: `s * G + e * pk`.
fn recovered_commitment(sig: &Signature, pk: &CurvePoint) -> CurvePoint {
    CurvePoint::generator().scalar_mul(&sig.s).add(&pk.scalar_mul(&sig.e))
}

#[test]
fn public_key_exact_value() {
    assert_eq!(
        schnorr_pk_from_sk(&SK),
        [
            17322122173892992109,
            8935115702946528435,
            321034301599550055,
            12459024169915773303,
            12322984776024068135
        ]
    );
    let pk = pk_from_sk(&Scalar::from_limbs(&SK));
    assert_eq!(
        pk.x().to_canonical_u64s(),
        [
            16890501892977485864,
            7729229418827975256,
            8904182864756349100,
            13291938545473982196,
            5376063683560469513
        ]
    );
    assert_eq!(CurvePoint::new(pk.x(), pk.y()), Some(pk));
}

#[test]
fn zero_secret_gives_the_identity() {
    assert_eq!(schnorr_pk_from_sk(&[0; 5]), [0; 5]);
    assert!(pk_from_sk(&Scalar::zero()).is_identity());
}

#[test]
fn secret_one_gives_the_generator() {
    assert_eq!(schnorr_pk_from_sk(&[1, 0, 0, 0, 0]), [4, 0, 0, 0, 0]);
    assert_eq!(pk_from_sk(&Scalar::one()), CurvePoint::generator());
}

#[test]
fn secret_limbs_are_reduced_modulo_the_order() {
    assert_eq!(
        schnorr_pk_from_sk(&[u64::MAX; 5]),
        [
            6942772341284644962,
            5893086536461935354,
            17262827015279856693,
            15436282237667827064,
            10434937182763734767
        ]
    );
    assert_eq!(
        schnorr_pk_from_sk(&[u64::MAX; 5]),
        schnorr_pk_from_sk(&[3449841782998171709, 3382000513170456262, 216368411532, 128849018835, 21474836465])
    );
}

#[test]
fn deterministic_nonce_exact_value() {
    let p = Poseidon2Params::standard();
    let k = derive_nonce(&p, &ExtensionField::from_raw(&MESSAGE), &Scalar::from_limbs(&SK));
    assert_eq!(
        k.to_limbs(),
        [
            12691159605364840536,
            3680543644086296442,
            16584501985536421300,
            4168811420454987878,
            4644361448335507347
        ]
    );
}

#[test]
fn signature_exact_value() {
    assert_eq!(
        schnorr_sign_hashed_message(&MESSAGE, &SK),
        [
            8605923571187394452,
            2677094429769881351,
            9982531494123730544,
            17780282175199833646,
            6417642322303899581,
            6579821648125312607,
            372047783236568392,
            14609045275674380072,
            4147979050752137551,
            809280169296589312
        ]
    );
}

#[test]
fn signature_with_a_given_nonce_exact_value() {
    let p = Poseidon2Params::standard();
    let k = Scalar::from_limbs(&[12345, 0, 0, 0, 0]);
    let sig = sign_hashed_message(
        &p,
        &ExtensionField::from_raw(&MESSAGE),
        &Scalar::from_limbs(&SK),
        &k,
    );
    assert_eq!(
        sig.s.to_limbs(),
        [
            851642089380501319,
            1546746500276723676,
            15064387854896834791,
            6086271445912163659,
            778194416954279746
        ]
    );
    assert_eq!(
        sig.e.to_limbs(),
        [
            9155307923552980427,
            15112390604325655782,
            4886055552830187901,
            10277376642511194384,
            6151067660978241847
        ]
    );
}

#[test]
fn response_and_challenge_recover_the_commitment() {
    let p = Poseidon2Params::standard();
    let secrets = [SK, [1, 0, 0, 0, 0], [u64::MAX; 5], [0, 0, 0, 0, 1]];
    let nonces = [[12345u64, 0, 0, 0, 0], [7, 7, 7, 7, 7], [u64::MAX, 1, 2, 3, 4]];
    for sk in secrets.iter() {
        let sk = Scalar::from_limbs(sk);
        let pk = pk_from_sk(&sk);
        for k in nonces.iter() {
            let k = Scalar::from_limbs(k);
            let m = ExtensionField::from_raw(&MESSAGE);
            let sig = sign_hashed_message(&p, &m, &sk, &k);
            let commitment = CurvePoint::generator().scalar_mul(&k);
            let recovered = recovered_commitment(&sig, &pk);
            assert_eq!(recovered, commitment);
            assert_eq!(derive_challenge(&p, &recovered, &pk, &m), sig.e);
        }
    }
}

#[test]
fn deterministic_signature_verifies() {
    let p = Poseidon2Params::standard();
    let sk = Scalar::from_limbs(&SK);
    let pk = pk_from_sk(&sk);
    for i in 0..4u64 {
        let m = ExtensionField::from_raw(&[i, i + 1, i + 2, u64::MAX - i, 99]);
        let sig = sign_deterministic(&p, &m, &sk);
        let recovered = recovered_commitment(&sig, &pk);
        assert_eq!(derive_challenge(&p, &recovered, &pk, &m), sig.e);
    }
}

#[test]
fn tampered_signature_does_not_verify() {
    let p = Poseidon2Params::standard();
    let sk = Scalar::from_limbs(&SK);
    let pk = pk_from_sk(&sk);
    let m = ExtensionField::from_raw(&MESSAGE);
    let sig = sign_deterministic(&p, &m, &sk);
    let bad = Signature { s: sig.s.add(&Scalar::one()), e: sig.e };
    assert_ne!(derive_challenge(&p, &recovered_commitment(&bad, &pk), &pk, &m), bad.e);
    let other = ExtensionField::from_raw(&[11, 22, 33, 44, 56]);
    assert_ne!(derive_challenge(&p, &recovered_commitment(&sig, &pk), &pk, &other), sig.e);
}

#[test]
fn signing_is_deterministic_and_depends_on_the_message() {
    let a = schnorr_sign_hashed_message(&MESSAGE, &SK);
    let b = schnorr_sign_hashed_message(&MESSAGE, &SK);
    assert_eq!(a, b);
    let c = schnorr_sign_hashed_message(&[11, 22, 33, 44, 56], &SK);
    assert_ne!(a, c);
}

#[test]
fn signature_limbs_are_response_then_challenge() {
    let p = Poseidon2Params::standard();
    let m = ExtensionField::from_raw(&MESSAGE);
    let sk = Scalar::from_limbs(&SK);
    let sig = sign_deterministic(&p, &m, &sk);
    let limbs = sig.to_limbs();
    assert_eq!(&limbs[..5], &sig.s.to_limbs()[..]);
    assert_eq!(&limbs[5..], &sig.e.to_limbs()[..]);
    assert_eq!(limbs, schnorr_sign_hashed_message(&MESSAGE, &SK));
}

#[test]
fn message_coefficients_are_reduced_on_entry() {
    let modulus = poseidon_schnorr::field::MODULUS;
    let shifted = [11 + modulus, 22, 33, 44, 55];
    assert_eq!(
        schnorr_sign_hashed_message(&shifted, &SK),
        schnorr_sign_hashed_message(&MESSAGE, &SK)
    );
}

#[test]
fn key_pair_holds_the_derived_public_key() {
    let sk = Scalar::from_limbs(&SK);
    let pair = KeyPair::from_secret(sk);
    assert_eq!(pair.secret(), sk);
    assert_eq!(pair.public(), pk_from_sk(&sk));
    assert_eq!(pair.public().encode().to_canonical_u64s(), schnorr_pk_from_sk(&SK));
}

#[test]
fn other_instance_gives_another_signature() {
    let mut diagonal = STANDARD_DIAGONAL;
    diagonal[0] ^= 1;
    let other = Poseidon2Params::new(&STANDARD_EXTERNAL_CONSTANTS, &STANDARD_INTERNAL_CONSTANTS, &diagonal);
    let m = ExtensionField::from_raw(&MESSAGE);
    let sk = Scalar::from_limbs(&SK);
    let k = Scalar::from_limbs(&[5, 0, 0, 0, 0]);
    let a = sign_hashed_message(&Poseidon2Params::standard(), &m, &sk, &k);
    let b = sign_hashed_message(&other, &m, &sk, &k);
    assert_ne!(a.e, b.e);
}
