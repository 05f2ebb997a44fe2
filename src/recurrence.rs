//! The recurrence `x -> x * 5 + 1 (mod m)` on mathematical integers, and its
//! period when `m` is a power of two.
use vstd::arithmetic::div_mod::{
    lemma_add_mod_noop_right,
    lemma_fundamental_div_mod,
    lemma_mod_multiples_basic,
    lemma_mod_multiples_vanish,
    lemma_mul_mod_noop_left,
    lemma_small_mod,
};
use vstd::arithmetic::power2::{lemma_pow2_pos, lemma_pow2_unfold, pow2};
use vstd::prelude::*;

verus! {

/// One step of the recurrence on residues modulo `m`.
pub open spec fn lcg(x: int, m: int) -> int {
    (x * 5 + 1) % m
}

/// `n` steps of the recurrence from `x`, modulo `m`.
pub open spec fn lcg_iter(x: int, n: nat, m: int) -> int
    decreases n,
{
    if n == 0 {
        x
    } else {
        lcg(lcg_iter(x, (n - 1) as nat, m), m)
    }
}

/// `5^n`: the multiplier of `n` steps taken together.
pub open spec fn pow5(n: nat) -> int
    decreases n,
{
    if n == 0 {
        1
    } else {
        5 * pow5((n - 1) as nat)
    }
}

/// `5^(n-1) + ... + 5 + 1`: the increment of `n` steps taken together.
pub open spec fn incr(n: nat) -> int
    decreases n,
{
    if n == 0 {
        0
    } else {
        5 * incr((n - 1) as nat) + 1
    }
}

/// `n` steps are one affine map: `x -> 5^n * x + incr(n) (mod m)`.
pub proof fn lemma_lcg_iter_closed(x: int, n: nat, m: int)
    requires
        0 < m,
        0 <= x < m,
    ensures
        lcg_iter(x, n, m) == (pow5(n) * x + incr(n)) % m,
    decreases n,
{
    if n == 0 {
        lemma_small_mod(x as nat, m as nat);
    } else {
        let k = (n - 1) as nat;
        lemma_lcg_iter_closed(x, k, m);
        let e = pow5(k) * x + incr(k);
        // ((e % m) * 5 + 1) % m == (e * 5 + 1) % m
        lemma_mul_mod_noop_left(e, 5, m);
        lemma_add_mod_noop_right(1, e * 5, m);
        lemma_add_mod_noop_right(1, (e % m) * 5, m);
        assert(e * 5 + 1 == pow5(n) * x + incr(n)) by (nonlinear_arith)
            requires
                e == pow5(k) * x + incr(k),
                pow5(n) == 5 * pow5(k),
                incr(n) == 5 * incr(k) + 1,
        ;
    }
}

/// `4 * incr(n) == 5^n - 1`.
pub proof fn lemma_incr_pow5(n: nat)
    ensures
        4 * incr(n) == pow5(n) - 1,
    decreases n,
{
    if n > 0 {
        lemma_incr_pow5((n - 1) as nat);
    }
}

/// `5^(a + b) == 5^a * 5^b`.
pub proof fn lemma_pow5_adds(a: nat, b: nat)
    ensures
        pow5(a + b) == pow5(a) * pow5(b),
    decreases a,
{
    if a > 0 {
        let k = (a - 1) as nat;
        lemma_pow5_adds(k, b);
        assert(pow5(a + b) == 5 * pow5(k + b));
        assert(5 * (pow5(k) * pow5(b)) == (5 * pow5(k)) * pow5(b)) by (nonlinear_arith);
    }
}

/// `5^(2^j) == 1 (mod 2^(j+2))`.
pub proof fn lemma_pow5_pow2(j: nat)
    ensures
        (pow5(pow2(j)) - 1) % (pow2(j + 2) as int) == 0,
    decreases j,
{
    lemma_pow2_unfold(j + 2);
    lemma_pow2_unfold(j + 1);
    if j == 0 {
        vstd::arithmetic::power2::lemma2_to64();
        assert(pow5(0) == 1);
        assert(pow5(1) == 5);
    } else {
        let i = (j - 1) as nat;
        lemma_pow5_pow2(i);
        lemma_pow2_unfold(j);
        let p = pow5(pow2(i));
        let d = pow2(i + 2) as int;
        let t = (p - 1) / d;
        lemma_pow2_pos(i + 2);
        lemma_fundamental_div_mod(p - 1, d);
        lemma_pow5_adds(pow2(i), pow2(i));
        assert(pow2(j) == pow2(i) + pow2(i));
        let e = pow2(i + 1) as int;
        assert(d == 2 * e);
        assert(pow2(j + 2) as int == 2 * d);
        assert(p * p - 1 == (2 * d) * (t * (e * t + 1))) by (nonlinear_arith)
            requires
                p - 1 == d * t,
                d == 2 * e,
        ;
        lemma_mod_multiples_basic(t * (e * t + 1), 2 * d);
    }
}

/// Full period: `2^k` steps modulo `2^k` return every residue to itself.
pub proof fn lemma_lcg_full_period(x: int, k: nat)
    requires
        0 <= x < pow2(k),
    ensures
        lcg_iter(x, pow2(k), pow2(k) as int) == x,
{
    let m = pow2(k) as int;
    let n = pow2(k);
    lemma_pow2_unfold(k + 2);
    lemma_pow2_unfold(k + 1);
    lemma_lcg_iter_closed(x, n, m);
    lemma_pow5_pow2(k);
    lemma_incr_pow5(n);
    let a = pow5(n);
    let t = (a - 1) / (4 * m);
    lemma_fundamental_div_mod(a - 1, 4 * m);
    assert(a * x + incr(n) == m * (4 * t * x + t) + x) by (nonlinear_arith)
        requires
            a - 1 == (4 * m) * t,
            4 * incr(n) == a - 1,
    ;
    lemma_mod_multiples_vanish(4 * t * x + t, x, m);
    lemma_small_mod(x as nat, m as nat);
}

} // verus!
