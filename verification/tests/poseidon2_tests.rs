use poseidon_schnorr::field::{BaseField, MODULUS};
use poseidon_schnorr::poseidon2::{
    Poseidon2Params, STANDARD_DIAGONAL, STANDARD_EXTERNAL_CONSTANTS, STANDARD_INTERNAL_CONSTANTS,
};

fn state(raw: [u64; 12]) -> [BaseField; 12] {
    let mut s = [BaseField::zero(); 12];
    for i in 0..12 {
        s[i] = BaseField::new(raw[i]);
    }
    s
}

fn raw(s: [BaseField; 12]) -> [u64; 12] {
    let mut r = [0u64; 12];
    for i in 0..12 {
        r[i] = s[i].to_canonical_u64();
    }
    r
}

#[test]
fn standard_permutation_of_the_counting_state() {
    let p = Poseidon2Params::standard();
    let out = raw(p.permute(&state([0, 1, 2, 3, 4, 5, 6, 7, 8, 9, 10, 11])));
    assert_eq!(
        out,
        [
            0x01eaef96bdf1c0c1,
            0x1f0d2cc525b2540c,
            0x6282c1dfe1e0358d,
            0xe780d721f698e1e6,
            0x280c0b6f753d833b,
            0x1b942dd5023156ab,
            0x43f0df3fcccb8398,
            0xe8e8190585489025,
            0x56bdbf72f77ada22,
            0x7911c32bf9dcd705,
            0xec467926508fbe67,
            0x6a50450ddf85a6ed
        ]
    );
}

#[test]
fn standard_permutation_of_the_zero_state() {
    let p = Poseidon2Params::standard();
    let out = raw(p.permute(&state([0; 12])));
    assert_eq!(
        out,
        [
            17235583951376661684,
            10083644464194131865,
            11409601709860874655,
            7577240030531334829,
            8506493735658085856,
            12669187451356861684,
            13514318840231451373,
            2992947611006288428,
            2342476110334384843,
            10439913347998057443,
            3445474787195226157,
            11568396492239269829
        ]
    );
}

#[test]
fn permutation_is_deterministic_and_not_the_identity() {
    let p = Poseidon2Params::standard();
    let input = state([5; 12]);
    let a = raw(p.permute(&input));
    let b = raw(p.permute(&input));
    assert_eq!(a, b);
    assert_ne!(a, [5; 12]);
}

#[test]
fn new_reduces_the_constants() {
    let mut external = STANDARD_EXTERNAL_CONSTANTS;
    external[0] = external[0] % MODULUS + 0; // already canonical
    let a = Poseidon2Params::new(&external, &STANDARD_INTERNAL_CONSTANTS, &STANDARD_DIAGONAL);
    // adding the modulus to a small constant changes nothing
    let mut internal = STANDARD_INTERNAL_CONSTANTS;
    let small = internal.iter().position(|&c| c < u64::MAX - MODULUS + 1);
    if let Some(i) = small {
        internal[i] += MODULUS;
    }
    let b = Poseidon2Params::new(&external, &internal, &STANDARD_DIAGONAL);
    let input = state([1, 2, 3, 4, 5, 6, 7, 8, 9, 10, 11, 12]);
    assert_eq!(raw(a.permute(&input)), raw(b.permute(&input)));
    assert_eq!(
        raw(a.permute(&input)),
        raw(Poseidon2Params::standard().permute(&input))
    );
}

#[test]
fn other_constants_give_another_permutation() {
    let mut diagonal = STANDARD_DIAGONAL;
    diagonal[3] ^= 1;
    let other = Poseidon2Params::new(&STANDARD_EXTERNAL_CONSTANTS, &STANDARD_INTERNAL_CONSTANTS, &diagonal);
    let input = state([0; 12]);
    assert_ne!(raw(other.permute(&input)), raw(Poseidon2Params::standard().permute(&input)));
}
