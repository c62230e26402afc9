//! Integers modulo the order of the curve group, a 319-bit prime, held as
//! five 64-bit limbs, least significant first.

use crate::extension::ExtensionField;
use vstd::arithmetic::power2::*;
use vstd::prelude::*;

verus! {

/// The group order, least significant limb first.
pub const ORDER: [u64; 5] = [
    0xE80FD996948BFFE1,
    0xE8885C39D724A09C,
    0x7FFFFFE6CFB80639,
    0x7FFFFFF100000016,
    0x7FFFFFFD80000007,
];

/// The group order as a mathematical integer.
pub open spec fn order() -> int {
    0x7FFFFFFD800000077FFFFFF1000000167FFFFFE6CFB80639E8885C39D724A09CE80FD996948BFFE1int
}

/// `2^320`: one more than the largest value five limbs can hold.
pub open spec fn limbs_bound() -> int {
    0x1_0000_0000_0000_0000_0000_0000_0000_0000_0000_0000_0000_0000_0000_0000_0000_0000_0000_0000_0000_0000int
}

/// The integer that five limbs stand for.
pub open spec fn limbs_value(l: Seq<u64>) -> int {
    l[0] as int + l[1] as int * 0x1_0000_0000_0000_0000int + l[2] as int
        * 0x1_0000_0000_0000_0000_0000_0000_0000_0000int + l[3] as int
        * 0x1_0000_0000_0000_0000_0000_0000_0000_0000_0000_0000_0000_0000int + l[4] as int
        * 0x1_0000_0000_0000_0000_0000_0000_0000_0000_0000_0000_0000_0000_0000_0000_0000_0000int
}

/// The integer that five canonical field encodings stand for when read as
/// limbs.
pub open spec fn coefficients_value(c: Seq<int>) -> int {
    c[0] + c[1] * 0x1_0000_0000_0000_0000int + c[2]
        * 0x1_0000_0000_0000_0000_0000_0000_0000_0000int + c[3]
        * 0x1_0000_0000_0000_0000_0000_0000_0000_0000_0000_0000_0000_0000int + c[4]
        * 0x1_0000_0000_0000_0000_0000_0000_0000_0000_0000_0000_0000_0000_0000_0000_0000_0000int
}

/// The five 64-bit digits of a value below `2^320`, least significant
/// first.
pub open spec fn digits(v: int) -> Seq<int> {
    seq![
        v % 0x1_0000_0000_0000_0000int,
        (v / 0x1_0000_0000_0000_0000int) % 0x1_0000_0000_0000_0000int,
        (v / 0x1_0000_0000_0000_0000_0000_0000_0000_0000int) % 0x1_0000_0000_0000_0000int,
        (v / 0x1_0000_0000_0000_0000_0000_0000_0000_0000_0000_0000_0000_0000int)
            % 0x1_0000_0000_0000_0000int,
        (v / 0x1_0000_0000_0000_0000_0000_0000_0000_0000_0000_0000_0000_0000_0000_0000_0000_0000int)
            % 0x1_0000_0000_0000_0000int,
    ]
}

/// Addition modulo the order.
pub open spec fn scalar_add(a: int, b: int) -> int {
    (a + b) % order()
}

/// Subtraction modulo the order.
pub open spec fn scalar_sub(a: int, b: int) -> int {
    (a - b) % order()
}

/// Multiplication modulo the order.
pub open spec fn scalar_mul(a: int, b: int) -> int {
    (a * b) % order()
}

/// The Schnorr response `k - e * sk` modulo the order.
pub open spec fn scalar_response(k: int, e: int, sk: int) -> int {
    scalar_sub(k, scalar_mul(e, sk))
}

/// The limbs of the order stand for the order.
pub proof fn lemma_order_limbs()
    ensures
        limbs_value(ORDER@) == order(),
{
}

/// Limbs are the digits of the value they stand for.
pub proof fn lemma_limbs_are_digits(l: Seq<u64>)
    requires
        l.len() == 5,
    ensures
        digits(limbs_value(l)) == seq![
            l[0] as int,
            l[1] as int,
            l[2] as int,
            l[3] as int,
            l[4] as int,
        ],
{
    let v = limbs_value(l);
    let b1 = 0x1_0000_0000_0000_0000int;
    let b2 = 0x1_0000_0000_0000_0000_0000_0000_0000_0000int;
    let b3 = 0x1_0000_0000_0000_0000_0000_0000_0000_0000_0000_0000_0000_0000int;
    let b4 =
        0x1_0000_0000_0000_0000_0000_0000_0000_0000_0000_0000_0000_0000_0000_0000_0000_0000int;
    let h1 = l[1] as int + l[2] as int * b1 + l[3] as int * b2 + l[4] as int * b3;
    let h2 = l[2] as int + l[3] as int * b1 + l[4] as int * b2;
    let h3 = l[3] as int + l[4] as int * b1;
    let h4 = l[4] as int;
    vstd::arithmetic::div_mod::lemma_fundamental_div_mod_converse(v, b1, h1, l[0] as int);
    vstd::arithmetic::div_mod::lemma_fundamental_div_mod_converse(h1, b1, h2, l[1] as int);
    vstd::arithmetic::div_mod::lemma_fundamental_div_mod_converse(
        v,
        b2,
        h2,
        l[0] as int + l[1] as int * b1,
    );
    vstd::arithmetic::div_mod::lemma_fundamental_div_mod_converse(h2, b1, h3, l[2] as int);
    vstd::arithmetic::div_mod::lemma_fundamental_div_mod_converse(
        v,
        b3,
        h3,
        l[0] as int + l[1] as int * b1 + l[2] as int * b2,
    );
    vstd::arithmetic::div_mod::lemma_fundamental_div_mod_converse(h3, b1, h4, l[3] as int);
    vstd::arithmetic::div_mod::lemma_fundamental_div_mod_converse(
        v,
        b4,
        h4,
        l[0] as int + l[1] as int * b1 + l[2] as int * b2 + l[3] as int * b3,
    );
    vstd::arithmetic::div_mod::lemma_small_mod(h4 as nat, b1 as nat);
    assert(digits(v) =~= seq![l[0] as int, l[1] as int, l[2] as int, l[3] as int, l[4] as int]);
}

/// The powers of two at the limb boundaries.
pub proof fn lemma_limb_powers()
    ensures
        pow2(64) == 0x1_0000_0000_0000_0000int,
        pow2(320) == limbs_bound(),
{
    lemma2_to64();
    lemma_pow2_adds(64, 64);
    lemma_pow2_adds(128, 64);
    lemma_pow2_adds(192, 64);
    lemma_pow2_adds(256, 64);
    assert(pow2(128) == 0x1_0000_0000_0000_0000_0000_0000_0000_0000int);
    assert(pow2(192) == 0x1_0000_0000_0000_0000_0000_0000_0000_0000_0000_0000_0000_0000int);
    assert(pow2(256)
        == 0x1_0000_0000_0000_0000_0000_0000_0000_0000_0000_0000_0000_0000_0000_0000_0000_0000int);
}

/// Limb-wise addition with the carry out of the top limb.
pub fn add_limbs(a: &[u64; 5], b: &[u64; 5]) -> (r: ([u64; 5], bool))
    ensures
        limbs_value(r.0@) + (if r.1 {
            limbs_bound()
        } else {
            0
        }) == limbs_value(a@) + limbs_value(b@),
{
    let base: u128 = 0x1_0000_0000_0000_0000;
    let s0: u128 = a[0] as u128 + b[0] as u128;
    let s1: u128 = a[1] as u128 + b[1] as u128 + s0 / base;
    let s2: u128 = a[2] as u128 + b[2] as u128 + s1 / base;
    let s3: u128 = a[3] as u128 + b[3] as u128 + s2 / base;
    let s4: u128 = a[4] as u128 + b[4] as u128 + s3 / base;
    let r = [
        (s0 % base) as u64,
        (s1 % base) as u64,
        (s2 % base) as u64,
        (s3 % base) as u64,
        (s4 % base) as u64,
    ];
    (r, s4 / base != 0)
}

/// Limb-wise subtraction with the borrow out of the top limb.
pub fn sub_limbs(a: &[u64; 5], b: &[u64; 5]) -> (r: ([u64; 5], bool))
    ensures
        limbs_value(r.0@) - (if r.1 {
            limbs_bound()
        } else {
            0
        }) == limbs_value(a@) - limbs_value(b@),
{
    let base: u128 = 0x1_0000_0000_0000_0000;
    let d0: u128 = base + a[0] as u128 - b[0] as u128;
    let d1: u128 = base + a[1] as u128 - b[1] as u128 - (1 - d0 / base);
    let d2: u128 = base + a[2] as u128 - b[2] as u128 - (1 - d1 / base);
    let d3: u128 = base + a[3] as u128 - b[3] as u128 - (1 - d2 / base);
    let d4: u128 = base + a[4] as u128 - b[4] as u128 - (1 - d3 / base);
    let r = [
        (d0 % base) as u64,
        (d1 % base) as u64,
        (d2 % base) as u64,
        (d3 % base) as u64,
        (d4 % base) as u64,
    ];
    (r, d4 / base == 0)
}

/// The limbs doubled, with the bit shifted out of the top.
pub fn shift_left(a: &[u64; 5]) -> (r: ([u64; 5], bool))
    ensures
        limbs_value(r.0@) + (if r.1 {
            limbs_bound()
        } else {
            0
        }) == 2 * limbs_value(a@),
{
    let half: u64 = 0x8000_0000_0000_0000;
    let r = [
        (a[0] % half) * 2,
        (a[1] % half) * 2 + a[0] / half,
        (a[2] % half) * 2 + a[1] / half,
        (a[3] % half) * 2 + a[2] / half,
        (a[4] % half) * 2 + a[3] / half,
    ];
    (r, a[4] / half != 0)
}

/// One subtraction of the order, where the value reaches it.
fn reduce_once(a: &[u64; 5]) -> (r: [u64; 5])
    ensures
        limbs_value(r@) == if limbs_value(a@) >= order() {
            limbs_value(a@) - order()
        } else {
            limbs_value(a@)
        },
{
    let (d, borrow) = sub_limbs(a, &ORDER);
    if borrow {
        *a
    } else {
        d
    }
}

/// An integer modulo the group order, in canonical form.
#[derive(Clone, Copy, PartialEq, Eq, Debug)]
pub struct Scalar {
    limbs: [u64; 5],
}

impl View for Scalar {
    type V = int;

    closed spec fn view(&self) -> int {
        limbs_value(self.limbs@)
    }
}

impl Scalar {
    /// The value is below the order.
    #[verifier::type_invariant]
    spec fn canonical(self) -> bool {
        limbs_value(self.limbs@) < order()
    }

    /// The scalar that five raw limbs stand for: their value reduced.
    pub fn from_limbs(raw: &[u64; 5]) -> (r: Scalar)
        ensures
            r@ == limbs_value(raw@) % order(),
    {
        let once = reduce_once(raw);
        let twice = reduce_once(&once);
        Scalar { limbs: twice }
    }

    /// The canonical limbs of the scalar.
    pub fn to_limbs(&self) -> (r: [u64; 5])
        ensures
            limbs_value(r@) == self@,
            0 <= self@ < order(),
    {
        proof {
            use_type_invariant(self);
        }
        self.limbs
    }

    /// The scalar that an extension-field element stands for: its five
    /// canonical coefficients read as limbs, reduced.
    pub fn from_extension(x: &ExtensionField) -> (r: Scalar)
        ensures
            r@ == coefficients_value(x@.coefficients()) % order(),
    {
        let raw = x.to_canonical_u64s();
        proof {
            let c = x@.coefficients();
            let m = crate::field::encodings_view(raw@);
            assert(m[0] == c[0] && m[1] == c[1] && m[2] == c[2] && m[3] == c[3] && m[4] == c[4]);
        }
        Scalar::from_limbs(&raw)
    }

    /// Zero.
    pub fn zero() -> (r: Scalar)
        ensures
            r@ == 0,
    {
        Scalar { limbs: [0, 0, 0, 0, 0] }
    }

    /// One.
    pub fn one() -> (r: Scalar)
        ensures
            r@ == 1,
    {
        Scalar { limbs: [1, 0, 0, 0, 0] }
    }

    /// Whether the scalar is zero.
    pub fn is_zero(&self) -> (b: bool)
        ensures
            b == (self@ == 0),
    {
        self.limbs[0] == 0 && self.limbs[1] == 0 && self.limbs[2] == 0 && self.limbs[3] == 0
            && self.limbs[4] == 0
    }

    /// Equality of scalars.
    pub fn equals(&self, rhs: &Scalar) -> (b: bool)
        ensures
            b == (self@ == rhs@),
    {
        proof {
            lemma_limbs_are_digits(self.limbs@);
            lemma_limbs_are_digits(rhs.limbs@);
            let a = seq![
                self.limbs[0] as int,
                self.limbs[1] as int,
                self.limbs[2] as int,
                self.limbs[3] as int,
                self.limbs[4] as int,
            ];
            let b = seq![
                rhs.limbs[0] as int,
                rhs.limbs[1] as int,
                rhs.limbs[2] as int,
                rhs.limbs[3] as int,
                rhs.limbs[4] as int,
            ];
            if self@ == rhs@ {
                assert(a[0] == b[0] && a[1] == b[1] && a[2] == b[2] && a[3] == b[3] && a[4]
                    == b[4]);
            }
        }
        self.limbs[0] == rhs.limbs[0] && self.limbs[1] == rhs.limbs[1] && self.limbs[2]
            == rhs.limbs[2] && self.limbs[3] == rhs.limbs[3] && self.limbs[4] == rhs.limbs[4]
    }

    /// Addition modulo the order.
    pub fn add(&self, rhs: &Scalar) -> (r: Scalar)
        ensures
            r@ == scalar_add(self@, rhs@),
    {
        proof {
            use_type_invariant(self);
            use_type_invariant(rhs);
        }
        let (sum, carry) = add_limbs(&self.limbs, &rhs.limbs);
        let limbs = reduce_once(&sum);
        Scalar { limbs }
    }

    /// Subtraction modulo the order.
    pub fn sub(&self, rhs: &Scalar) -> (r: Scalar)
        ensures
            r@ == scalar_sub(self@, rhs@),
    {
        proof {
            use_type_invariant(self);
            use_type_invariant(rhs);
        }
        let (diff, borrow) = sub_limbs(&self.limbs, &rhs.limbs);
        if borrow {
            let (wrapped, carry) = add_limbs(&diff, &ORDER);
            Scalar { limbs: wrapped }
        } else {
            Scalar { limbs: diff }
        }
    }

    /// Negation modulo the order.
    pub fn neg(&self) -> (r: Scalar)
        ensures
            r@ == scalar_sub(0, self@),
    {
        Scalar::zero().sub(self)
    }

    /// Multiplication modulo the order, by doubling and adding over the
    /// bits of `rhs`, most significant first.
    pub fn mul(&self, rhs: &Scalar) -> (r: Scalar)
        ensures
            r@ == scalar_mul(self@, rhs@),
    {
        proof {
            use_type_invariant(self);
            use_type_invariant(rhs);
            lemma_limb_powers();
            lemma2_to64();
        }
        let ghost a = self@;
        let ghost b = rhs@;
        let mut acc = Scalar::zero();
        let mut window = rhs.limbs;
        let ghost mut prefix: int = 0;
        let ghost mut product: int = 0;
        let ghost mut scaled: int = b;
        let mut i: usize = 0;
        proof {
            assert(pow2(0) == 1);
            assert(b * 1 == b);
            assert(a * 0 == 0);
        }
        while i < 320
            invariant
                i <= 320,
                a == self@,
                prefix * limbs_bound() + limbs_value(window@) == scaled,
                scaled == b * pow2(i as nat),
                product == a * prefix,
                acc@ == product % order(),
            decreases 320 - i,
        {
            let (shifted, top) = shift_left(&window);
            let doubled = acc.add(&acc);
            let ghost bit: int = if top {
                1
            } else {
                0
            };
            let next = if top {
                doubled.add(self)
            } else {
                doubled
            };
            proof {
                lemma_scaling_step(b, i as nat, scaled);
                lemma_product_step(a, prefix, product, bit);
                lemma_accumulate_step(product, a, bit, acc@, doubled@, next@);
                prefix = 2 * prefix + bit;
                product = 2 * product + bit * a;
                scaled = 2 * scaled;
            }
            acc = next;
            window = shifted;
            i += 1;
        }
        proof {
            lemma_limb_powers();
            lemma_window_consumed(prefix, limbs_value(window@), b);
        }
        acc
    }
}

/// Doubling the scaled value is scaling by the next power of two.
proof fn lemma_scaling_step(b: int, i: nat, scaled: int)
    requires
        scaled == b * pow2(i),
    ensures
        2 * scaled == b * pow2(i + 1),
{
    lemma_pow2_unfold(i + 1);
    assert(b * (2 * pow2(i)) == 2 * (b * pow2(i))) by (nonlinear_arith);
}

/// The product with the prefix extended by one bit.
proof fn lemma_product_step(a: int, prefix: int, product: int, bit: int)
    requires
        product == a * prefix,
    ensures
        2 * product + bit * a == a * (2 * prefix + bit),
{
    assert(a * (2 * prefix + bit) == 2 * (a * prefix) + bit * a) by (nonlinear_arith);
}

/// One step of doubling and adding, modulo the order.
proof fn lemma_accumulate_step(product: int, a: int, bit: int, acc: int, doubled: int, next: int)
    requires
        bit == 0 || bit == 1,
        acc == product % order(),
        doubled == scalar_add(acc, acc),
        next == if bit == 1 {
            scalar_add(doubled, a)
        } else {
            doubled
        },
    ensures
        next == (2 * product + bit * a) % order(),
{
    let n = order();
    vstd::arithmetic::div_mod::lemma_add_mod_noop(product, product, n);
    assert(doubled == (2 * product) % n);
    if bit == 1 {
        vstd::arithmetic::div_mod::lemma_add_mod_noop(2 * product, a, n);
        vstd::arithmetic::div_mod::lemma_add_mod_noop((2 * product) % n, a, n);
        vstd::arithmetic::div_mod::lemma_mod_twice(2 * product, n);
        assert(bit * a == a);
    } else {
        assert(bit * a == 0);
    }
}

/// Once the window has been shifted out, the prefix is the whole value.
proof fn lemma_window_consumed(prefix: int, rest: int, b: int)
    requires
        0 <= rest < limbs_bound(),
        prefix * limbs_bound() + rest == b * limbs_bound(),
    ensures
        prefix == b,
{
    let k = limbs_bound();
    assert((prefix - b) * k == -rest) by (nonlinear_arith)
        requires
            prefix * k + rest == b * k,
    ;
    assert(prefix - b == 0) by (nonlinear_arith)
        requires
            (prefix - b) * k == -rest,
            0 <= rest < k,
    ;
}

} // verus!
