use poseidon_schnorr::curve::{CurvePoint, GENERATOR_X, GENERATOR_Y};
use poseidon_schnorr::extension::ExtensionField;
use poseidon_schnorr::scalar::Scalar;

fn small(k: u64) -> Scalar {
    Scalar::from_limbs(&[k, 0, 0, 0, 0])
}

/// Evaluates the curve equation at the point.
fn satisfies_equation(p: &CurvePoint) -> bool {
    p.is_identity() || CurvePoint::new(p.x(), p.y()) == Some(*p)
}

const ORDER_LESS_ONE: [u64; 5] = [
    16721823182210465760,
    16755743817124323484,
    9223371928670570041,
    9223371972430266390,
    9223372026117357575,
];

#[test]
fn generator_lies_on_the_curve() {
    let g = CurvePoint::generator();
    assert!(satisfies_equation(&g));
    assert!(!g.is_identity());
    assert_eq!(g.x().to_canonical_u64s(), GENERATOR_X);
    assert_eq!(g.y().to_canonical_u64s(), GENERATOR_Y);
    assert_eq!(g.encode().to_canonical_u64s(), [4, 0, 0, 0, 0]);
}

#[test]
fn new_accepts_curve_points_only() {
    let g = CurvePoint::generator();
    assert_eq!(CurvePoint::new(g.x(), g.y()), Some(g));
    assert_eq!(CurvePoint::new(g.x(), g.y().neg()), Some(g.negate()));
    assert_eq!(CurvePoint::new(g.x(), g.x()), None);
    assert_eq!(CurvePoint::new(ExtensionField::zero(), ExtensionField::zero()), None);
}

#[test]
fn doubling_exact_values() {
    let d = CurvePoint::generator().double();
    assert_eq!(d.x().to_canonical_u64s(), [4995993185466449924, 8070450530368880624, 0, 0, 0]);
    assert_eq!(
        d.y().to_canonical_u64s(),
        [
            2802119724609112643,
            15148449414430609716,
            8946200504603803264,
            5543440903273420636,
            6411036242926574856
        ]
    );
    assert!(satisfies_equation(&d));
}

#[test]
fn point_addition_exact_values() {
    let g = CurvePoint::generator();
    let t = g.double().add(&g);
    assert_eq!(
        t.x().to_canonical_u64s(),
        [
            3584413360476155897,
            993598265149929043,
            9118536478120200325,
            4545548208597017001,
            16640886554632444604
        ]
    );
    assert_eq!(
        t.y().to_canonical_u64s(),
        [
            6661501719066134017,
            7261582874957064446,
            6574521784608599777,
            12238551638203620304,
            17669239050955015918
        ]
    );
    assert_eq!(g.add(&g.double()), t);
}

#[test]
fn identity_is_neutral() {
    let g = CurvePoint::generator();
    let o = CurvePoint::identity();
    assert!(o.is_identity());
    assert!(satisfies_equation(&o));
    assert_eq!(o.add(&g), g);
    assert_eq!(g.add(&o), g);
    assert_eq!(o.add(&o), o);
    assert_eq!(o.double(), o);
    assert_eq!(o.negate(), o);
    assert_eq!(o.encode().to_canonical_u64s(), [0; 5]);
}

#[test]
fn point_plus_its_negation_is_the_identity() {
    let g = CurvePoint::generator();
    let mut p = g;
    for _ in 0..8 {
        assert_eq!(p.add(&p.negate()), CurvePoint::identity());
        assert_eq!(p.negate().add(&p), CurvePoint::identity());
        assert_eq!(p.negate().negate(), p);
        p = p.double().add(&g);
    }
}

#[test]
fn adding_a_point_to_itself_doubles_it() {
    let g = CurvePoint::generator();
    assert_eq!(g.add(&g), g.double());
    let p = g.scalar_mul(&small(11));
    assert_eq!(p.add(&p), p.double());
}

#[test]
fn scalar_multiple_is_repeated_addition() {
    let g = CurvePoint::generator();
    let mut sum = CurvePoint::identity();
    for k in 0..40u64 {
        assert_eq!(g.scalar_mul(&small(k)), sum);
        assert!(satisfies_equation(&sum));
        sum = sum.add(&g);
    }
    // a scalar drawn at random once
    let k = 1009u64;
    let mut sum = CurvePoint::identity();
    for _ in 0..k {
        sum = sum.add(&g);
    }
    assert_eq!(g.scalar_mul(&small(k)), sum);
}

#[test]
fn zero_times_any_point_is_the_identity() {
    let g = CurvePoint::generator();
    assert_eq!(g.scalar_mul(&Scalar::zero()), CurvePoint::identity());
    assert_eq!(g.double().scalar_mul(&Scalar::zero()), CurvePoint::identity());
    assert_eq!(CurvePoint::identity().scalar_mul(&small(5)), CurvePoint::identity());
    assert_eq!(CurvePoint::identity().scalar_mul(&Scalar::zero()), CurvePoint::identity());
}

#[test]
fn generator_has_the_group_order() {
    let g = CurvePoint::generator();
    let last = g.scalar_mul(&Scalar::from_limbs(&ORDER_LESS_ONE));
    assert_eq!(last, g.negate());
    assert_eq!(last.add(&g), CurvePoint::identity());
    assert_eq!(last.encode().to_canonical_u64s(), [18446744069414584317, 0, 0, 0, 0]);
}

#[test]
fn scalar_multiplication_is_additive_on_samples() {
    let g = CurvePoint::generator();
    let a = Scalar::from_limbs(&[0x1234_5678_9ABC_DEF0, 7, 0, 0xFFFF, 1 << 40]);
    let b = Scalar::from_limbs(&[u64::MAX, u64::MAX, 3, 0, 1 << 61]);
    assert_eq!(g.scalar_mul(&a).add(&g.scalar_mul(&b)), g.scalar_mul(&a.add(&b)));
    assert_eq!(g.scalar_mul(&a).scalar_mul(&b), g.scalar_mul(&a.mul(&b)));
}

#[test]
fn encoding_exact_value() {
    let p = CurvePoint::generator().scalar_mul(&small(5));
    assert_eq!(
        p.encode().to_canonical_u64s(),
        [
            549702492997016978,
            16772130000896875395,
            6036402864504077691,
            15350867887333557775,
            4956500188179196072
        ]
    );
}

#[test]
fn sums_and_multiples_stay_on_the_curve() {
    let g = CurvePoint::generator();
    let a = g.scalar_mul(&Scalar::from_limbs(&[0xDEAD_BEEF, 1, 2, 3, 4]));
    let b = g.scalar_mul(&Scalar::from_limbs(&[u64::MAX, u64::MAX, 0, 0, 5]));
    assert!(satisfies_equation(&a));
    assert!(satisfies_equation(&b));
    assert!(satisfies_equation(&a.add(&b)));
    assert!(satisfies_equation(&a.double()));
    assert!(satisfies_equation(&a.negate()));
    assert!(satisfies_equation(&a.add(&b.negate())));
}

#[test]
fn addition_commutes_and_associates_on_samples() {
    let g = CurvePoint::generator();
    let a = g.scalar_mul(&small(17));
    let b = g.scalar_mul(&small(29));
    let c = g.scalar_mul(&Scalar::from_limbs(&[7, 0, 0, 0, 1 << 50]));
    assert_eq!(a.add(&b), b.add(&a));
    assert_eq!(a.add(&b).add(&c), a.add(&b.add(&c)));
    assert_eq!(a.add(&b), g.scalar_mul(&small(46)));
}

#[test]
fn equality_of_points() {
    let g = CurvePoint::generator();
    assert!(g.equals(&CurvePoint::generator()));
    assert!(!g.equals(&g.negate()));
    assert!(!g.equals(&CurvePoint::identity()));
}
