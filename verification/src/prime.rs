//! Primality of the Goldilocks modulus.
//!
//! The argument is Pocklington's: `root()` has multiplicative order exactly
//! `2^32` modulo the modulus, hence modulo each of its divisors above 2, so
//! such a divisor has more than `2^32` residues. A proper divisor at most
//! the square root would have fewer.

use crate::field::modulus;
use vstd::arithmetic::div_mod::*;
use vstd::arithmetic::mul::*;
use vstd::arithmetic::power::*;
use vstd::arithmetic::power2::*;
use vstd::prelude::*;
use vstd::relations::*;
use vstd::set_lib::*;

verus! {

/// An element of order `2^32` in the field: `7^(2^32 - 1)`.
pub open spec fn root() -> int {
    1753635133440165772
}

/// `2^32`, the order of `root()`.
pub open spec fn root_order() -> nat {
    0x1_0000_0000
}

/// Whether `root()^k` is congruent to one modulo `m`.
pub open spec fn root_power_is_one(m: int, k: nat) -> bool {
    pow(root(), k) % m == 1
}

/// One squaring: from `root()^e` to `root()^(2 e)`, modulo the modulus.
proof fn lemma_square_step(e: nat, x: int, y: int)
    requires
        pow(root(), e) % modulus() == x,
        (x * x) % modulus() == y,
    ensures
        pow(root(), 2 * e) % modulus() == y,
{
    lemma_pow_adds(root(), e, e);
    lemma_mul_mod_noop_general(pow(root(), e), pow(root(), e), modulus());
}

/// `root()^(2^31)` is minus one and `root()^(2^32)` is one, by 32 squarings.
proof fn lemma_root_chain()
    ensures
        pow(root(), 0x8000_0000) % modulus() == modulus() - 1,
        pow(root(), 0x1_0000_0000) % modulus() == 1,
{
    lemma_pow1(root());
    lemma_square_step(0x1, 1753635133440165772, 4614640910117430873);
    lemma_square_step(0x2, 4614640910117430873, 9123114210336311365);
    lemma_square_step(0x4, 9123114210336311365, 16116352524544190054);
    lemma_square_step(0x8, 16116352524544190054, 6414415596519834757);
    lemma_square_step(0x10, 6414415596519834757, 1213594585890690845);
    lemma_square_step(0x20, 1213594585890690845, 17096174751763063430);
    lemma_square_step(0x40, 17096174751763063430, 5456943929260765144);
    lemma_square_step(0x80, 5456943929260765144, 9713644485405565297);
    lemma_square_step(0x100, 9713644485405565297, 16905767614792059275);
    lemma_square_step(0x200, 16905767614792059275, 5416168637041100469);
    lemma_square_step(0x400, 5416168637041100469, 17654865857378133588);
    lemma_square_step(0x800, 17654865857378133588, 3511170319078647661);
    lemma_square_step(0x1000, 3511170319078647661, 18146160046829613826);
    lemma_square_step(0x2000, 18146160046829613826, 9306717745644682924);
    lemma_square_step(0x4000, 9306717745644682924, 12380578893860276750);
    lemma_square_step(0x8000, 12380578893860276750, 6115771955107415310);
    lemma_square_step(0x10000, 6115771955107415310, 17776499369601055404);
    lemma_square_step(0x20000, 17776499369601055404, 16207902636198568418);
    lemma_square_step(0x40000, 16207902636198568418, 1532612707718625687);
    lemma_square_step(0x80000, 1532612707718625687, 17492915097719143606);
    lemma_square_step(0x100000, 17492915097719143606, 455906449640507599);
    lemma_square_step(0x200000, 455906449640507599, 11353340290879379826);
    lemma_square_step(0x400000, 11353340290879379826, 1803076106186727246);
    lemma_square_step(0x800000, 1803076106186727246, 13797081185216407910);
    lemma_square_step(0x1000000, 13797081185216407910, 17870292113338400769);
    lemma_square_step(0x2000000, 17870292113338400769, 549755813888);
    lemma_square_step(0x4000000, 549755813888, 70368744161280);
    lemma_square_step(0x8000000, 70368744161280, 17293822564807737345);
    lemma_square_step(0x10000000, 17293822564807737345, 18446744069397807105);
    lemma_square_step(0x20000000, 18446744069397807105, 281474976710656);
    lemma_square_step(0x40000000, 281474976710656, 18446744069414584320);
    lemma_square_step(0x80000000, 18446744069414584320, 1);
}

/// The same two facts hold modulo every divisor of the modulus above 2.
proof fn lemma_root_modulo_divisor(m: int)
    requires
        2 < m,
        modulus() % m == 0,
    ensures
        pow(root(), 0x8000_0000) % m == m - 1,
        root_power_is_one(m, root_order()),
{
    let p = modulus();
    let e = p / m;
    lemma_root_chain();
    lemma_fundamental_div_mod(p, m);
    assert(p == m * e);
    assert(e > 0) by (nonlinear_arith)
        requires
            p == m * e,
            p > 0,
            m > 0,
    ;
    lemma_mod_mod(pow(root(), 0x8000_0000), m, e);
    lemma_mod_mod(pow(root(), 0x1_0000_0000), m, e);
    assert(m * (e - 1) + (m - 1) == p - 1) by (nonlinear_arith)
        requires
            p == m * e,
    ;
    lemma_fundamental_div_mod_converse(p - 1, m, e - 1, m - 1);
    lemma_small_mod(1, m as nat);
}

/// The power of a sum of exponents, modulo `m`.
proof fn lemma_power_product(m: int, a: nat, b: nat)
    requires
        m > 0,
    ensures
        pow(root(), a + b) % m == ((pow(root(), a) % m) * (pow(root(), b) % m)) % m,
{
    lemma_pow_adds(root(), a, b);
    lemma_mul_mod_noop_general(pow(root(), a), pow(root(), b), m);
}

/// An exponent that sends `root()` to one sends it to one in every
/// multiple.
proof fn lemma_one_multiple(m: int, g: nat, q: nat)
    requires
        m > 1,
        root_power_is_one(m, g),
    ensures
        root_power_is_one(m, g * q),
    decreases q,
{
    if q == 0 {
        assert(g * q == 0) by (nonlinear_arith)
            requires
                q == 0,
        ;
        lemma_pow0(root());
        lemma_small_mod(1, m as nat);
    } else {
        lemma_one_multiple(m, g, (q - 1) as nat);
        assert(g * q == g * ((q - 1) as nat) + g) by (nonlinear_arith)
            requires
                q > 0,
        ;
        lemma_power_product(m, g * ((q - 1) as nat), g);
        lemma_small_mod(1, m as nat);
    }
}

/// Exponents that send `root()` to one are closed under remainders.
proof fn lemma_one_remainder(m: int, a: nat, b: nat)
    requires
        m > 1,
        b > 0,
        root_power_is_one(m, a),
        root_power_is_one(m, b),
    ensures
        root_power_is_one(m, a % b),
{
    let q = a / b;
    let r = a % b;
    lemma_fundamental_div_mod(a as int, b as int);
    lemma_one_multiple(m, b, q);
    lemma_power_product(m, b * q, r);
    lemma_mod_bound(pow(root(), r), m);
    lemma_small_mod((pow(root(), r) % m) as nat, m as nat);
}

/// Exponents that send `root()` to one are closed under greatest common
/// divisors: the returned exponent divides both.
proof fn lemma_one_common_divisor(m: int, a: nat, b: nat) -> (g: nat)
    requires
        m > 1,
        a > 0,
        root_power_is_one(m, a),
        root_power_is_one(m, b),
    ensures
        g > 0,
        a % g == 0,
        b % g == 0,
        root_power_is_one(m, g),
    decreases b,
{
    if b == 0 {
        lemma_mod_self_0(a as int);
        a
    } else {
        lemma_one_remainder(m, a, b);
        let g = lemma_one_common_divisor(m, b, a % b);
        let q = a / b;
        let r = a % b;
        lemma_fundamental_div_mod(a as int, b as int);
        lemma_fundamental_div_mod(b as int, g as int);
        lemma_fundamental_div_mod(r as int, g as int);
        let x = (b / g) as int;
        let y = (r / g) as int;
        assert(a == (g as int) * (x * q + y)) by (nonlinear_arith)
            requires
                a == b * q + r,
                b == g * x,
                r == g * y,
        ;
        lemma_mod_multiples_basic(x * q + y, g as int);
        assert((g as int) * (x * q + y) == (x * q + y) * (g as int)) by (nonlinear_arith);
        g
    }
}

/// The only odd divisor of a power of two is one.
proof fn lemma_odd_divisor_of_power_of_two(q: int, n: nat)
    requires
        q > 0,
        q % 2 == 1,
        (pow2(n) as int) % q == 0,
    ensures
        q == 1,
    decreases n,
{
    if n == 0 {
        lemma2_to64();
        if q > 1 {
            lemma_small_mod(1, q as nat);
        }
    } else {
        lemma_pow2_unfold(n);
        let t = pow2(n) as int;
        let h = pow2((n - 1) as nat) as int;
        let r = t / q;
        lemma_fundamental_div_mod(t, q);
        assert(t == q * r);
        if r % 2 == 1 {
            let a = q / 2;
            let b = r / 2;
            assert(q * r == 2 * (2 * a * b + a + b) + 1) by (nonlinear_arith)
                requires
                    q == 2 * a + 1,
                    r == 2 * b + 1,
            ;
            assert(t % 2 == 1);
        }
        let half = r / 2;
        assert(h == q * half) by (nonlinear_arith)
            requires
                2 * h == q * r,
                r == 2 * half,
        ;
        lemma_mod_multiples_basic(half, q);
        assert(q * half == half * q) by (nonlinear_arith);
        lemma_odd_divisor_of_power_of_two(q, (n - 1) as nat);
    }
}

/// A proper divisor of `2^n` divides `2^(n-1)`.
proof fn lemma_proper_divisor_of_power_of_two(g: int, n: nat)
    requires
        n > 0,
        0 < g < pow2(n),
        (pow2(n) as int) % g == 0,
    ensures
        (pow2((n - 1) as nat) as int) % g == 0,
{
    lemma_pow2_unfold(n);
    let t = pow2(n) as int;
    let h = pow2((n - 1) as nat) as int;
    let q = t / g;
    lemma_fundamental_div_mod(t, g);
    assert(t == g * q);
    assert(q >= 2) by (nonlinear_arith)
        requires
            t == g * q,
            0 < g < t,
    ;
    if q % 2 == 1 {
        lemma_mod_multiples_basic(g, q);
        assert(g * q == q * g) by (nonlinear_arith);
        lemma_odd_divisor_of_power_of_two(q, n);
    }
    let half = q / 2;
    assert(h == g * half) by (nonlinear_arith)
        requires
            2 * h == g * q,
            q == 2 * half,
    ;
    lemma_mod_multiples_basic(half, g);
    assert(g * half == half * g) by (nonlinear_arith);
}

/// Below `2^32`, distinct exponents give distinct powers of `root()` modulo
/// a divisor of the modulus.
proof fn lemma_powers_distinct(m: int, i: nat, j: nat)
    requires
        2 < m,
        modulus() % m == 0,
        i < j < root_order(),
    ensures
        pow(root(), i) % m != pow(root(), j) % m,
{
    if pow(root(), i) % m == pow(root(), j) % m {
        lemma_root_modulo_divisor(m);
        let n = root_order();
        let k = (j - i) as nat;
        let u = (n - i) as nat;
        // root^(j + u) is root^i * root^u, which is one, and is root^k * root^n
        lemma_power_product(m, j, u);
        lemma_power_product(m, i, u);
        lemma_power_product(m, k, n);
        assert(j + u == k + n);
        assert(i + u == n);
        lemma_mod_bound(pow(root(), k), m);
        lemma_small_mod((pow(root(), k) % m) as nat, m as nat);
        assert(root_power_is_one(m, k));
        let g = lemma_one_common_divisor(m, n, k);
        lemma2_to64();
        assert(pow2(32) == n);
        assert(pow2(31) == 0x8000_0000);
        lemma_fundamental_div_mod(k as int, g as int);
        assert(g <= k) by (nonlinear_arith)
            requires
                k == g * (k / g),
                k > 0,
                g > 0,
        ;
        lemma_proper_divisor_of_power_of_two(g as int, 32);
        let h: nat = 0x8000_0000;
        lemma_fundamental_div_mod(h as int, g as int);
        lemma_one_multiple(m, g, h / g);
        assert(root_power_is_one(m, h));
    }
}

/// A divisor of the modulus above 2 is at least `2^32`: that many powers
/// of `root()` are distinct modulo it.
proof fn lemma_divisor_is_large(m: int)
    requires
        2 < m,
        modulus() % m == 0,
    ensures
        m >= root_order(),
{
    let n = root_order() as int;
    let f = |i: int| pow(root(), i as nat) % m;
    let s = set_int_range(0, n);
    let bound = set_int_range(0, m);
    assert(injective_on(f, s)) by {
        assert forall|x1: int, x2: int|
            s.contains(x1) && s.contains(x2) && #[trigger] f(x1) == #[trigger] f(x2) implies x1
            == x2 by {
            if x1 < x2 {
                lemma_powers_distinct(m, x1 as nat, x2 as nat);
            } else if x2 < x1 {
                lemma_powers_distinct(m, x2 as nat, x1 as nat);
            }
        }
    }
    lemma_int_range(0, n);
    lemma_int_range(0, m);
    let t = s.map(f);
    lemma_map_size(s, t, f);
    assert(t.subset_of(bound)) by {
        assert forall|y: int| t.contains(y) implies bound.contains(y) by {
            let x = choose|x: int| s.contains(x) && y == f(x);
            lemma_mod_bound(pow(root(), x as nat), m);
        }
    }
    lemma_len_subset(t, bound);
}

/// The modulus is prime: nothing strictly between 1 and it divides it.
pub proof fn lemma_modulus_prime(d: int)
    requires
        1 < d < modulus(),
    ensures
        modulus() % d != 0,
{
    let p = modulus();
    if p % d == 0 {
        let e = p / d;
        lemma_fundamental_div_mod(p, d);
        assert(p == d * e);
        assert(1 < e) by (nonlinear_arith)
            requires
                p == d * e,
                1 < d < p,
        ;
        lemma_mod_multiples_basic(d, e);
        assert(d * e == e * d) by (nonlinear_arith);
        let m = if d <= e {
            d
        } else {
            e
        };
        assert(m < 0x1_0000_0000) by (nonlinear_arith)
            requires
                p == d * e,
                p < 0x1_0000_0000 * 0x1_0000_0000,
                m == d || m == e,
                m <= d,
                m <= e,
                m > 0,
        ;
        assert(p % 2 == 1);
        lemma_divisor_is_large(m);
    }
}

} // verus!
