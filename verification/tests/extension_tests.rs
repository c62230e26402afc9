use poseidon_schnorr::extension::ExtensionField;
use poseidon_schnorr::field::{BaseField, FieldError, MODULUS};

fn ext(c: [u64; 5]) -> ExtensionField {
    ExtensionField::from_raw(&c)
}

#[test]
fn from_raw_reduces_each_coefficient() {
    let x = ext([MODULUS, MODULUS + 1, u64::MAX, 0, 7]);
    assert_eq!(x.to_canonical_u64s(), [0, 1, 0xFFFF_FFFE, 0, 7]);
}

#[test]
fn embedding_puts_the_element_in_degree_zero() {
    let x = ExtensionField::from_base(BaseField::new(42));
    assert_eq!(x.to_canonical_u64s(), [42, 0, 0, 0, 0]);
    assert_eq!(ExtensionField::one().to_canonical_u64s(), [1, 0, 0, 0, 0]);
    assert!(ExtensionField::zero().is_zero());
}

#[test]
fn addition_subtraction_negation_are_coefficient_wise() {
    let a = ext([1, 2, 3, 4, 5]);
    let b = ext([6, 7, 8, 9, MODULUS - 1]);
    assert_eq!(a.add(&b).to_canonical_u64s(), [7, 9, 11, 13, 4]);
    assert_eq!(a.sub(&b).to_canonical_u64s(), [MODULUS - 5, MODULUS - 5, MODULUS - 5, MODULUS - 5, 6]);
    assert_eq!(a.neg().to_canonical_u64s(), [MODULUS - 1, MODULUS - 2, MODULUS - 3, MODULUS - 4, MODULUS - 5]);
    assert_eq!(a.scale(&BaseField::new(3)).to_canonical_u64s(), [3, 6, 9, 12, 15]);
}

#[test]
fn extension_multiplication_exact_values() {
    let a = ext([1, 2, 3, 4, 5]);
    let b = ext([6, 7, 8, 9, 10]);
    assert_eq!(a.mul(&b).to_canonical_u64s(), [348, 337, 295, 220, 110]);
    let big = ext([MODULUS - 1, MODULUS - 2, 12345678901234567890, 1 << 63, 7]);
    assert_eq!(
        big.square().to_canonical_u64s(),
        [
            13933328501464949393,
            2009679905022264924,
            12202130426554346061,
            5957516599010514255,
            11159985996601605346
        ]
    );
}

#[test]
fn x_to_the_fifth_is_three() {
    let x = ext([0, 1, 0, 0, 0]);
    let x5 = x.mul(&x).mul(&x).mul(&x).mul(&x);
    assert_eq!(x5.to_canonical_u64s(), [3, 0, 0, 0, 0]);
}

#[test]
fn frobenius_scales_the_coefficients() {
    let a = ext([1, 2, 3, 4, 5]);
    assert_eq!(
        a.frobenius().to_canonical_u64s(),
        [1, 2082576518476559110, 10568986813412808496, 846350220555798788, 6865216354783480110]
    );
    // five applications give the element back
    let back = a.frobenius().frobenius().frobenius().frobenius().frobenius();
    assert_eq!(back, a);
}

#[test]
fn extension_inverse_exact_values() {
    let a = ext([1, 2, 3, 4, 5]);
    assert_eq!(
        a.invert().unwrap().to_canonical_u64s(),
        [
            16227807958868272813,
            4552730750487813724,
            11612833514307017418,
            9161515214422980997,
            13509202856671625680
        ]
    );
    let big = ext([MODULUS - 1, MODULUS - 2, 12345678901234567890, 1 << 63, 7]);
    assert_eq!(
        big.invert().unwrap().to_canonical_u64s(),
        [
            16923832962126686645,
            12003420820028293382,
            1111837648471912974,
            227009510814349981,
            12741155382203663319
        ]
    );
}

#[test]
fn extension_element_times_inverse_is_one() {
    let samples = [
        [1, 0, 0, 0, 0],
        [0, 1, 0, 0, 0],
        [0, 0, 0, 0, 1],
        [1, 2, 3, 4, 5],
        [MODULUS - 1, MODULUS - 1, MODULUS - 1, MODULUS - 1, MODULUS - 1],
        [0xDEAD_BEEF, 0, 0xCAFE, 0, 0xF00D_F00D_F00D_F00D],
    ];
    for c in samples.iter() {
        let a = ext(*c);
        let inv = a.invert().unwrap();
        assert_eq!(a.mul(&inv), ExtensionField::one());
        assert_eq!(a.invert_or_zero(), inv);
        assert_eq!(a.div(&a), ExtensionField::one());
    }
}

#[test]
fn extension_zero_has_no_inverse() {
    assert_eq!(ExtensionField::zero().invert(), Err(FieldError::DivisionByZero));
    assert_eq!(ext([MODULUS; 5]).invert(), Err(FieldError::DivisionByZero));
    assert_eq!(ExtensionField::zero().invert_or_zero(), ExtensionField::zero());
}

#[test]
fn every_nonzero_sample_has_an_inverse() {
    let mut state = 0x9E37_79B9_7F4A_7C15u64;
    for _ in 0..200 {
        let mut c = [0u64; 5];
        for k in 0..5 {
            state = state.wrapping_mul(6364136223846793005).wrapping_add(1442695040888963407);
            // sparse elements as well as full ones
            c[k] = if state >> 61 == 0 { 0 } else { state };
        }
        let a = ext(c);
        if a.is_zero() {
            assert_eq!(a.invert(), Err(FieldError::DivisionByZero));
        } else {
            let inv = a.invert().unwrap();
            assert_eq!(a.mul(&inv), ExtensionField::one());
        }
    }
}

#[test]
fn inverse_of_a_product_is_the_product_of_the_inverses() {
    let a = ext([3, 1, 4, 1, 5]);
    let b = ext([9, 2, 6, 5, 3]);
    let left = a.mul(&b).invert().unwrap();
    let right = a.invert().unwrap().mul(&b.invert().unwrap());
    assert_eq!(left, right);
}

#[test]
fn multiplication_is_associative_and_distributive_on_samples() {
    let a = ext([3, 1, 4, 1, 5]);
    let b = ext([MODULUS - 9, 2, 6, MODULUS - 5, 3]);
    let c = ext([5, 8, 9, 7, 9]);
    assert_eq!(a.mul(&b).mul(&c), a.mul(&b.mul(&c)));
    assert_eq!(a.mul(&b), b.mul(&a));
    assert_eq!(a.mul(&b.add(&c)), a.mul(&b).add(&a.mul(&c)));
    assert_eq!(a.sub(&b), a.add(&b.neg()));
}

#[test]
fn coefficients_and_equality() {
    let a = ext([9, 8, 7, 6, 5]);
    assert_eq!(a.coefficients()[0].to_canonical_u64(), 9);
    assert_eq!(a.coefficients()[4].to_canonical_u64(), 5);
    let c = a.coefficients();
    assert_eq!(c[2].to_canonical_u64(), 7);
    assert!(a.equals(&ext([9, 8, 7, 6, 5])));
    assert!(!a.equals(&ext([9, 8, 7, 6, 4])));
}
