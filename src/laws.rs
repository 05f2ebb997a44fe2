//! What holds of every run of the generator.
use crate::generator::{lane_after, lanes_after};
use crate::num::PacRandNum;
use crate::recurrence::{
    incr,
    lcg,
    lcg_iter,
    lemma_lcg_full_period,
    lemma_lcg_iter_closed,
    pow5,
};
use vstd::arithmetic::power2::pow2;
use vstd::prelude::*;

verus! {

/// A lane's residue after `n` steps is `n` steps of the recurrence on its
/// residue modulo `2^bits()`.
pub proof fn lemma_lane_after_residue<T: PacRandNum>(x: T, n: nat)
    ensures
        lane_after(x, n).residue() == lcg_iter(x.residue(), n, pow2(T::bits()) as int),
    decreases n,
{
    if n > 0 {
        lemma_lane_after_residue(x, (n - 1) as nat);
        T::lemma_next(lane_after(x, (n - 1) as nat));
    }
}

/// Advancing the state reached after `k` steps gives the state after `k + 1`
/// steps: a run of `k` advances from a seed ends in `lanes_after(seed, k)`,
/// whatever the run.
pub proof fn lemma_advance_composes<T: PacRandNum>(s: Seq<T>, k: nat)
    ensures
        lanes_after(lanes_after(s, k), 1) == lanes_after(s, k + 1),
{
    assert forall|i: int| 0 <= i < s.len() implies lane_after(lane_after(s[i], k), 1)
        == lane_after(s[i], k + 1) by {
        assert(lane_after(lane_after(s[i], k), 0) == lane_after(s[i], k));
    }
    assert(lanes_after(lanes_after(s, k), 1) =~= lanes_after(s, k + 1));
}

/// Determinism: after `k` steps every lane holds
/// `(5^k * s_i + (5^(k-1) + ... + 1)) mod 2^bits()`, a number fixed by the
/// seed, `k` and the width alone.
pub proof fn lemma_determinism<T: PacRandNum>(s: Seq<T>, k: nat)
    ensures
        lanes_after(s, k).len() == s.len(),
        forall|i: int|
            0 <= i < s.len() ==> (#[trigger] lanes_after(s, k)[i]).residue() == (pow5(k)
                * s[i].residue() + incr(k)) % (pow2(T::bits()) as int),
{
    assert forall|i: int| 0 <= i < s.len() implies (#[trigger] lanes_after(s, k)[i]).residue()
        == (pow5(k) * s[i].residue() + incr(k)) % (pow2(T::bits()) as int) by {
        T::lemma_residue_bounds(s[i]);
        lemma_lane_after_residue(s[i], k);
        lemma_lcg_iter_closed(s[i].residue(), k, pow2(T::bits()) as int);
    }
}

/// One step gives, in each lane, `(s_i * 5 + 1) mod 2^bits()`.
pub proof fn lemma_recurrence<T: PacRandNum>(s: Seq<T>)
    ensures
        lanes_after(s, 1).len() == s.len(),
        forall|i: int|
            0 <= i < s.len() ==> (#[trigger] lanes_after(s, 1)[i]).residue() == (s[i].residue()
                * 5 + 1) % (pow2(T::bits()) as int),
{
    assert forall|i: int| 0 <= i < s.len() implies (#[trigger] lanes_after(s, 1)[i]).residue()
        == lcg(s[i].residue(), pow2(T::bits()) as int) by {
        lemma_lane_after_residue(s[i], 1);
        assert(lcg_iter(s[i].residue(), 0, pow2(T::bits()) as int) == s[i].residue());
    }
}

/// Lane independence: lane `i` after any number of steps depends on lane `i`
/// of the seed alone.
pub proof fn lemma_lane_independence<T: PacRandNum>(s: Seq<T>, t: Seq<T>, k: nat, i: int)
    requires
        0 <= i < s.len(),
        0 <= i < t.len(),
        s[i] == t[i],
    ensures
        lanes_after(s, k)[i] == lanes_after(t, k)[i],
{
}

/// Broadcast invariance: from a seed with one value in every lane, all lanes
/// stay equal after any number of steps.
pub proof fn lemma_broadcast_invariance<T: PacRandNum>(s: Seq<T>, x: T, n: nat, k: nat)
    requires
        s == Seq::new(n, |_l: int| x),
    ensures
        forall|i: int, j: int|
            0 <= i < n && 0 <= j < n ==> #[trigger] lanes_after(s, k)[i] == #[trigger] lanes_after(
                s,
                k,
            )[j],
{
}

/// Full period: `2^bits()` steps bring every seed back to itself.
pub proof fn lemma_full_period<T: PacRandNum>(s: Seq<T>)
    ensures
        lanes_after(s, pow2(T::bits())) == s,
{
    let m = pow2(T::bits());
    assert forall|i: int| 0 <= i < s.len() implies lane_after(s[i], m) == s[i] by {
        T::lemma_residue_bounds(s[i]);
        lemma_lane_after_residue(s[i], m);
        lemma_lcg_full_period(s[i].residue(), T::bits());
        T::lemma_residue_injective(lane_after(s[i], m), s[i]);
    }
    assert(lanes_after(s, m) =~= s);
}

} // verus!
