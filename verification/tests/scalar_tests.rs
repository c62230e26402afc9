use poseidon_schnorr::extension::ExtensionField;
use poseidon_schnorr::scalar::{add_limbs, shift_left, sub_limbs, Scalar, ORDER};

const X: [u64; 5] = [
    16721823182210465760,
    16755743817124323484,
    9223371928670570041,
    9223371972430266390,
    9223372026117357575,
];
const Y: [u64; 5] = [81985529216486895; 5];

#[test]
fn from_limbs_reduces_modulo_the_order() {
    assert_eq!(Scalar::from_limbs(&ORDER).to_limbs(), [0, 0, 0, 0, 0]);
    let mut above = ORDER;
    above[0] += 1;
    assert_eq!(Scalar::from_limbs(&above).to_limbs(), [1, 0, 0, 0, 0]);
    // X is the order less one
    assert_eq!(Scalar::from_limbs(&X).to_limbs(), X);
    assert_eq!(
        Scalar::from_limbs(&[u64::MAX; 5]).to_limbs(),
        [3449841782998171709, 3382000513170456262, 216368411532, 128849018835, 21474836465]
    );
}

#[test]
fn scalar_addition_exact_values() {
    let x = Scalar::from_limbs(&X);
    let y = Scalar::from_limbs(&Y);
    assert_eq!(
        x.add(&y).to_limbs(),
        [81985529216486894, 81985529216486895, 81985529216486895, 81985529216486895, 81985529216486895]
    );
    assert_eq!(x.add(&Scalar::one()).to_limbs(), [0; 5]);
}

#[test]
fn subtraction_exact_values() {
    let x = Scalar::from_limbs(&X);
    let y = Scalar::from_limbs(&Y);
    assert_eq!(
        x.sub(&y).to_limbs(),
        [16639837652993978865, 16673758287907836589, 9141386399454083146, 9141386443213779495, 9141386496900870680]
    );
    assert_eq!(
        y.sub(&x).to_limbs(),
        [81985529216486896, 81985529216486895, 81985529216486895, 81985529216486895, 81985529216486895]
    );
    assert_eq!(Scalar::zero().sub(&Scalar::one()).to_limbs(), X);
    assert_eq!(Scalar::one().neg().to_limbs(), X);
    assert_eq!(Scalar::zero().neg().to_limbs(), [0; 5]);
}

#[test]
fn scalar_multiplication_exact_values() {
    let x = Scalar::from_limbs(&X);
    let y = Scalar::from_limbs(&Y);
    // x is minus one, so x * y is minus y
    assert_eq!(
        x.mul(&y).to_limbs(),
        [16639837652993978866, 16673758287907836589, 9141386399454083146, 9141386443213779495, 9141386496900870680]
    );
    assert_eq!(x.mul(&x).to_limbs(), [1, 0, 0, 0, 0]);
    assert_eq!(y.mul(&Scalar::zero()).to_limbs(), [0; 5]);
    assert_eq!(y.mul(&Scalar::one()).to_limbs(), Y);
    let three = Scalar::from_limbs(&[3, 0, 0, 0, 0]);
    let five = Scalar::from_limbs(&[5, 0, 0, 0, 0]);
    assert_eq!(three.mul(&five).to_limbs(), [15, 0, 0, 0, 0]);
}

#[test]
fn multiplication_commutes_and_distributes_on_samples() {
    let a = Scalar::from_limbs(&[1, 2, 3, 4, 5]);
    let b = Scalar::from_limbs(&Y);
    let c = Scalar::from_limbs(&[u64::MAX, 0, u64::MAX, 0, 1 << 62]);
    assert_eq!(a.mul(&b), b.mul(&a));
    assert_eq!(a.mul(&b.add(&c)), a.mul(&b).add(&a.mul(&c)));
    assert_eq!(a.add(&b).add(&c), a.add(&b.add(&c)));
}

#[test]
fn from_extension_reads_coefficients_as_limbs() {
    let x = ExtensionField::from_raw(&[1, 2, 3, 4, 5]);
    assert_eq!(Scalar::from_extension(&x).to_limbs(), [1, 2, 3, 4, 5]);
    // 2^64 - 1 is 2^32 - 2 in the field
    let y = ExtensionField::from_raw(&[u64::MAX, 0, 0, 0, 0]);
    assert_eq!(Scalar::from_extension(&y).to_limbs(), [0xFFFF_FFFE, 0, 0, 0, 0]);
}

#[test]
fn scalar_zero_one_and_equality() {
    assert!(Scalar::zero().is_zero());
    assert!(!Scalar::one().is_zero());
    assert!(Scalar::from_limbs(&ORDER).is_zero());
    assert!(Scalar::from_limbs(&Y).equals(&Scalar::from_limbs(&Y)));
    assert!(!Scalar::from_limbs(&Y).equals(&Scalar::from_limbs(&X)));
}

#[test]
fn limb_arithmetic_carries_and_borrows() {
    let (sum, carry) = add_limbs(&[u64::MAX; 5], &[1, 0, 0, 0, 0]);
    assert_eq!(sum, [0; 5]);
    assert!(carry);
    let (sum, carry) = add_limbs(&[u64::MAX, 0, 0, 0, 0], &[1, 0, 0, 0, 0]);
    assert_eq!(sum, [0, 1, 0, 0, 0]);
    assert!(!carry);
    let (diff, borrow) = sub_limbs(&[0; 5], &[1, 0, 0, 0, 0]);
    assert_eq!(diff, [u64::MAX; 5]);
    assert!(borrow);
    let (diff, borrow) = sub_limbs(&[0, 1, 0, 0, 0], &[1, 0, 0, 0, 0]);
    assert_eq!(diff, [u64::MAX, 0, 0, 0, 0]);
    assert!(!borrow);
    let (shifted, top) = shift_left(&[1 << 63, 0, 0, 0, 1 << 63]);
    assert_eq!(shifted, [0, 1, 0, 0, 0]);
    assert!(top);
    let (shifted, top) = shift_left(&[3, 0, 0, 0, 1]);
    assert_eq!(shifted, [6, 0, 0, 0, 2]);
    assert!(!top);
}
