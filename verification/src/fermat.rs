//! Fermat's little theorem for the Goldilocks field: the power `p - 1` of
//! a nonzero residue is one.
//!
//! The order of a residue divides the size of every finite set of nonzero
//! residues that multiplication by the residue maps into itself, for such a
//! set falls into orbits of that size. The nonzero residues are such a set.

use crate::field::{lemma_no_zero_divisors, modulus};
use vstd::arithmetic::div_mod::*;
use vstd::arithmetic::mul::*;
use vstd::arithmetic::power::*;
use vstd::prelude::*;
use vstd::relations::*;
use vstd::set_lib::*;

verus! {

/// The power `b^k`, reduced.
pub open spec fn power_mod(b: int, k: nat) -> int {
    pow(b, k) % modulus()
}

/// Whether `d` is the order of `b`: the least positive exponent that sends
/// `b` to one.
pub open spec fn is_order(b: int, d: nat) -> bool {
    &&& d > 0
    &&& power_mod(b, d) == 1
    &&& forall|k: nat| 0 < k < d ==> power_mod(b, k) != 1
}

/// Whether the set holds nonzero canonical residues only and multiplication
/// by `b` maps it into itself.
pub open spec fn closed_under(s: Set<int>, b: int) -> bool {
    forall|y: int| #[trigger]
        s.contains(y) ==> 0 < y < modulus() && s.contains((y * b) % modulus())
}

/// The orbit of `y` under multiplication by `b`: entry `k` is `y b^k`.
pub open spec fn orbit_entry(y: int, b: int, k: int) -> int {
    (y * pow(b, k as nat)) % modulus()
}

/// The power of a sum of exponents.
proof fn lemma_power_mod_product(b: int, i: nat, j: nat)
    ensures
        power_mod(b, i + j) == (power_mod(b, i) * power_mod(b, j)) % modulus(),
{
    lemma_pow_adds(b, i, j);
    lemma_mul_mod_noop_general(pow(b, i), pow(b, j), modulus());
}

/// A product is congruent to zero only if a factor is.
pub proof fn lemma_product_nonzero(x: int, y: int)
    requires
        x % modulus() != 0,
        y % modulus() != 0,
    ensures
        (x * y) % modulus() != 0,
{
    if (x * y) % modulus() == 0 {
        lemma_no_zero_divisors(x, y);
    }
}

/// A nonzero factor cancels from a congruence.
proof fn lemma_factor_cancels(x: int, y: int, z: int)
    requires
        x % modulus() != 0,
        (x * y) % modulus() == (x * z) % modulus(),
    ensures
        y % modulus() == z % modulus(),
{
    let p = modulus();
    lemma_mul_is_distributive_sub(x, y, z);
    lemma_sub_mod_noop(x * y, x * z, p);
    assert((x * (y - z)) % p == 0);
    lemma_no_zero_divisors(x, y - z);
    lemma_fundamental_div_mod(y - z, p);
    let q = (y - z) / p;
    assert(y == z + p * q);
    lemma_mod_multiples_vanish(q, z, p);
    lemma_mul_is_commutative(p, q);
}

/// The powers of a nonzero residue are nonzero.
proof fn lemma_power_mod_nonzero(b: int, k: nat)
    requires
        b % modulus() != 0,
    ensures
        0 < power_mod(b, k) < modulus(),
    decreases k,
{
    reveal_with_fuel(pow, 1);
    if k == 0 {
        lemma_pow0(b);
    } else {
        lemma_power_mod_nonzero(b, (k - 1) as nat);
        lemma_pow_adds(b, (k - 1) as nat, 1);
        lemma_pow1(b);
        lemma_product_nonzero(pow(b, (k - 1) as nat), b);
    }
}

/// Equal powers differ by an exponent that sends the residue to one.
proof fn lemma_power_mod_cancel(b: int, i: nat, j: nat)
    requires
        b % modulus() != 0,
        i <= j,
        power_mod(b, i) == power_mod(b, j),
    ensures
        power_mod(b, (j - i) as nat) == 1,
{
    let p = modulus();
    let k = (j - i) as nat;
    lemma_power_mod_nonzero(b, i);
    lemma_power_mod_nonzero(b, k);
    lemma_pow_adds(b, i, k);
    assert(pow(b, i) * 1 == pow(b, i));
    lemma_factor_cancels(pow(b, i), pow(b, k), 1);
    lemma_small_mod(1, p as nat);
}

/// An exponent that sends the residue to one does so in every multiple.
proof fn lemma_power_mod_multiple(b: int, d: nat, q: nat)
    requires
        power_mod(b, d) == 1,
    ensures
        power_mod(b, d * q) == 1,
    decreases q,
{
    let p = modulus();
    if q == 0 {
        lemma_mul_basics(d as int);
        lemma_pow0(b);
        lemma_small_mod(1, p as nat);
    } else {
        lemma_power_mod_multiple(b, d, (q - 1) as nat);
        lemma_mul_is_distributive_sub(d as int, q as int, 1);
        assert(d * q == d * ((q - 1) as nat) + d);
        lemma_power_mod_product(b, d * ((q - 1) as nat), d);
        lemma_small_mod(1, p as nat);
    }
}

/// Some positive exponent sends a nonzero residue to one: among the first
/// `p` powers two are equal.
proof fn lemma_some_exponent(b: int) -> (n: nat)
    requires
        b % modulus() != 0,
    ensures
        n > 0,
        power_mod(b, n) == 1,
{
    let p = modulus();
    let f = |k: int| power_mod(b, k as nat);
    let s = set_int_range(0, p);
    let bound = set_int_range(1, p);
    lemma_int_range(0, p);
    lemma_int_range(1, p);
    let t = s.map(f);
    assert(t.subset_of(bound)) by {
        assert forall|y: int| t.contains(y) implies bound.contains(y) by {
            let x = choose|x: int| s.contains(x) && y == f(x);
            lemma_power_mod_nonzero(b, x as nat);
        }
    }
    lemma_len_subset(t, bound);
    if injective_on(f, s) {
        lemma_map_size(s, t, f);
    }
    let (x1, x2) = choose|x1: int, x2: int|
        s.contains(x1) && s.contains(x2) && #[trigger] f(x1) == #[trigger] f(x2) && x1 != x2;
    if x1 < x2 {
        lemma_power_mod_cancel(b, x1 as nat, x2 as nat);
        (x2 - x1) as nat
    } else {
        lemma_power_mod_cancel(b, x2 as nat, x1 as nat);
        (x1 - x2) as nat
    }
}

/// The least exponent from `k` on that sends the residue to one, where no
/// smaller positive exponent does.
proof fn lemma_scan_for_order(b: int, n: nat, k: nat) -> (d: nat)
    requires
        0 < k <= n,
        power_mod(b, n) == 1,
        forall|i: nat| 0 < i < k ==> power_mod(b, i) != 1,
    ensures
        is_order(b, d),
        d <= n,
    decreases n - k,
{
    if power_mod(b, k) == 1 {
        k
    } else {
        lemma_scan_for_order(b, n, k + 1)
    }
}

/// Every nonzero residue has an order.
pub proof fn lemma_order_exists(b: int) -> (d: nat)
    requires
        b % modulus() != 0,
    ensures
        is_order(b, d),
{
    let n = lemma_some_exponent(b);
    lemma_scan_for_order(b, n, 1)
}

/// The entries of an orbit lie in a closed set that holds its start.
proof fn lemma_orbit_in_set(s: Set<int>, b: int, y: int, k: nat)
    requires
        closed_under(s, b),
        s.contains(y),
    ensures
        s.contains(orbit_entry(y, b, k as int)),
    decreases k,
{
    let p = modulus();
    if k == 0 {
        lemma_pow0(b);
        assert(y * 1 == y);
        lemma_small_mod(y as nat, p as nat);
    } else {
        lemma_orbit_in_set(s, b, y, (k - 1) as nat);
        let prev = orbit_entry(y, b, k - 1);
        lemma_orbit_step(y, b, (k - 1) as nat);
    }
}

/// The next entry of an orbit is the entry times `b`.
proof fn lemma_orbit_step(y: int, b: int, k: nat)
    ensures
        orbit_entry(y, b, k as int + 1) == (orbit_entry(y, b, k as int) * b) % modulus(),
{
    let p = modulus();
    lemma_pow_adds(b, k, 1);
    lemma_pow1(b);
    lemma_mul_is_associative(y, pow(b, k), b);
    lemma_mul_mod_noop_left(y * pow(b, k), b, p);
}

/// Below the order, distinct entries of an orbit are distinct residues.
proof fn lemma_orbit_distinct(y: int, b: int, d: nat, i: nat, j: nat)
    requires
        0 < y < modulus(),
        b % modulus() != 0,
        is_order(b, d),
        i < j < d,
    ensures
        orbit_entry(y, b, i as int) != orbit_entry(y, b, j as int),
{
    let p = modulus();
    if orbit_entry(y, b, i as int) == orbit_entry(y, b, j as int) {
        lemma_small_mod(y as nat, p as nat);
        lemma_factor_cancels(y, pow(b, i), pow(b, j));
        lemma_power_mod_cancel(b, i, j);
        assert(power_mod(b, (j - i) as nat) != 1);
    }
}

/// The order of a residue divides the size of a finite closed set.
proof fn lemma_order_divides_size(s: Set<int>, b: int, d: nat)
    requires
        b % modulus() != 0,
        is_order(b, d),
        s.finite(),
        closed_under(s, b),
    ensures
        s.len() % d == 0,
    decreases s.len(),
{
    let p = modulus();
    if s.len() == 0 {
        lemma_small_mod(0, d);
    } else {
        let y = s.choose();
        assert(s.contains(y)) by {
            if s.is_empty() {
                assert(s.len() == 0);
            }
        }
        let g = |k: int| orbit_entry(y, b, k);
        let range = set_int_range(0, d as int);
        let orbit = range.map(g);
        lemma_int_range(0, d as int);
        assert(injective_on(g, range)) by {
            assert forall|x1: int, x2: int|
                range.contains(x1) && range.contains(x2) && #[trigger] g(x1) == #[trigger] g(
                    x2,
                ) implies x1 == x2 by {
                if x1 < x2 {
                    lemma_orbit_distinct(y, b, d, x1 as nat, x2 as nat);
                } else if x2 < x1 {
                    lemma_orbit_distinct(y, b, d, x2 as nat, x1 as nat);
                }
            }
        }
        lemma_map_size(range, orbit, g);
        assert(orbit.subset_of(s)) by {
            assert forall|z: int| orbit.contains(z) implies s.contains(z) by {
                let k = choose|k: int| range.contains(k) && z == g(k);
                lemma_orbit_in_set(s, b, y, k as nat);
            }
        }
        let rest = s.difference(orbit);
        assert(closed_under(rest, b)) by {
            assert forall|z: int| #[trigger] rest.contains(z) implies 0 < z < p && rest.contains(
                (z * b) % p,
            ) by {
                let next = (z * b) % p;
                assert(s.contains(z));
                if orbit.contains(next) {
                    let k = choose|k: int| range.contains(k) && next == g(k);
                    // z is the entry before entry k, or the last entry
                    let before: nat = if k > 0 {
                        (k - 1) as nat
                    } else {
                        (d - 1) as nat
                    };
                    lemma_orbit_step(y, b, before);
                    if k == 0 {
                        // entry d is entry 0
                        lemma_pow0(b);
                        lemma_mul_mod_noop_right(y, pow(b, d), p);
                        lemma_mul_mod_noop_right(y, pow(b, 0), p);
                    }
                    assert((orbit_entry(y, b, before as int) * b) % p == (z * b) % p);
                    lemma_mul_is_commutative(orbit_entry(y, b, before as int), b);
                    lemma_mul_is_commutative(z, b);
                    lemma_factor_cancels(b, orbit_entry(y, b, before as int), z);
                    lemma_small_mod(z as nat, p as nat);
                    lemma_mod_twice(y * pow(b, before), p);
                    assert(z == g(before as int));
                    assert(range.contains(before as int));
                    assert(orbit.contains(z));
                }
            }
        }
        lemma_set_difference_len(s, orbit);
        assert(s.intersect(orbit) =~= orbit);
        lemma_len_difference(s, orbit);
        lemma_order_divides_size(rest, b, d);
        lemma_mod_adds(rest.len() as int, d as int, d as int);
        lemma_mod_self_0(d as int);
    }
}

/// Fermat's little theorem: the power `p - 1` of a nonzero residue is one.
pub proof fn lemma_fermat(b: int)
    requires
        b % modulus() != 0,
    ensures
        power_mod(b, (modulus() - 1) as nat) == 1,
{
    let p = modulus();
    let d = lemma_order_exists(b);
    let s = set_int_range(1, p);
    lemma_int_range(1, p);
    assert(closed_under(s, b)) by {
        assert forall|y: int| #[trigger] s.contains(y) implies 0 < y < p && s.contains(
            (y * b) % p,
        ) by {
            lemma_small_mod(y as nat, p as nat);
            lemma_product_nonzero(y, b);
        }
    }
    lemma_order_divides_size(s, b, d);
    let q = ((p - 1) / (d as int)) as nat;
    lemma_fundamental_div_mod(p - 1, d as int);
    lemma_power_mod_multiple(b, d, q);
}

} // verus!
