use poseidon_schnorr::field::{BaseField, FieldError, MODULUS};

fn fe(x: u64) -> BaseField {
    BaseField::new(x)
}

#[test]
fn new_reduces_raw_encodings() {
    assert_eq!(fe(0).to_canonical_u64(), 0);
    assert_eq!(fe(MODULUS - 1).to_canonical_u64(), MODULUS - 1);
    assert_eq!(fe(MODULUS).to_canonical_u64(), 0);
    assert_eq!(fe(MODULUS + 5).to_canonical_u64(), 5);
    assert_eq!(fe(u64::MAX).to_canonical_u64(), 0xFFFF_FFFE);
}

#[test]
fn from_u128_reduces_wide_values() {
    assert_eq!(BaseField::from_u128(0).to_canonical_u64(), 0);
    assert_eq!(BaseField::from_u128(MODULUS as u128 * 3 + 9).to_canonical_u64(), 9);
    assert_eq!(
        BaseField::from_u128(u128::MAX).to_canonical_u64(),
        (u128::MAX % MODULUS as u128) as u64
    );
}

#[test]
fn addition_wraps_at_the_modulus() {
    assert_eq!(fe(1).add(&fe(2)).to_canonical_u64(), 3);
    assert_eq!(fe(MODULUS - 1).add(&fe(1)).to_canonical_u64(), 0);
    assert_eq!(fe(MODULUS - 1).add(&fe(MODULUS - 1)).to_canonical_u64(), MODULUS - 2);
}

#[test]
fn subtraction_and_negation() {
    assert_eq!(fe(5).sub(&fe(7)).to_canonical_u64(), MODULUS - 2);
    assert_eq!(fe(7).sub(&fe(5)).to_canonical_u64(), 2);
    assert_eq!(fe(0).neg().to_canonical_u64(), 0);
    assert_eq!(fe(1).neg().to_canonical_u64(), MODULUS - 1);
    assert_eq!(fe(9).sub(&fe(4)), fe(9).add(&fe(4).neg()));
}

#[test]
fn base_multiplication_exact_values() {
    assert_eq!(fe(3).mul(&fe(5)).to_canonical_u64(), 15);
    // (p - 1)^2 = 1
    assert_eq!(fe(MODULUS - 1).mul(&fe(MODULUS - 1)).to_canonical_u64(), 1);
    // 2^32 * 2^32 = 2^64 = 2^32 - 1 modulo p
    assert_eq!(fe(1 << 32).mul(&fe(1 << 32)).to_canonical_u64(), 0xFFFF_FFFF);
    assert_eq!(fe(1 << 32).square().to_canonical_u64(), 0xFFFF_FFFF);
}

#[test]
fn addition_is_associative_on_samples() {
    let xs = [0u64, 1, 2, MODULUS - 1, MODULUS - 2, 1 << 63, 0x1234_5678_9ABC_DEF0];
    for &a in xs.iter() {
        for &b in xs.iter() {
            for &c in xs.iter() {
                let left = fe(a).add(&fe(b)).add(&fe(c));
                let right = fe(a).add(&fe(b).add(&fe(c)));
                assert_eq!(left, right);
            }
        }
    }
}

#[test]
fn multiplication_distributes_on_samples() {
    let xs = [0u64, 1, 3, MODULUS - 1, MODULUS - 7, 1 << 40, 0xDEAD_BEEF_CAFE_F00D];
    for &a in xs.iter() {
        for &b in xs.iter() {
            for &c in xs.iter() {
                let left = fe(a).mul(&fe(b).add(&fe(c)));
                let right = fe(a).mul(&fe(b)).add(&fe(a).mul(&fe(c)));
                assert_eq!(left, right);
            }
        }
    }
}

#[test]
fn base_inverse_exact_values() {
    assert_eq!(fe(1).invert().unwrap().to_canonical_u64(), 1);
    assert_eq!(fe(7).invert().unwrap().to_canonical_u64(), 2635249152773512046);
    assert_eq!(fe(MODULUS - 1).invert().unwrap().to_canonical_u64(), 18446744069414584320);
    assert_eq!(fe(1 << 32).invert().unwrap().to_canonical_u64(), 18446744065119617026);
}

#[test]
fn base_element_times_inverse_is_one() {
    let xs = [1u64, 2, 3, 7, 1 << 32, MODULUS - 1, MODULUS - 2, 0x0123_4567_89AB_CDEF, u64::MAX];
    for &a in xs.iter() {
        let x = fe(a);
        let inv = x.invert().unwrap();
        assert_eq!(x.mul(&inv), BaseField::one());
    }
}

#[test]
fn base_zero_has_no_inverse() {
    assert_eq!(fe(0).invert(), Err(FieldError::DivisionByZero));
    // the modulus itself stands for zero
    assert_eq!(fe(MODULUS).invert(), Err(FieldError::DivisionByZero));
}

#[test]
fn base_zero_one_and_equality() {
    assert!(BaseField::zero().is_zero());
    assert!(!BaseField::one().is_zero());
    assert!(fe(MODULUS + 1).equals(&BaseField::one()));
    assert!(!fe(2).equals(&fe(3)));
}
