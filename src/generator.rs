//! The lane-parallel generator state, its constructors and its advance.
use crate::bytes::le_value;
use crate::entropy::fill_from_entropy;
use crate::num::PacRandNum;
use crate::recurrence::lcg;
use vstd::arithmetic::power2::pow2;
use vstd::prelude::*;

verus! {

/// One lane after `n` steps of the recurrence.
pub open spec fn lane_after<T: PacRandNum>(x: T, n: nat) -> T
    decreases n,
{
    if n == 0 {
        x
    } else {
        lane_after(x, (n - 1) as nat).next()
    }
}

/// Every lane of `s` after `n` steps, each on its own.
pub open spec fn lanes_after<T: PacRandNum>(s: Seq<T>, n: nat) -> Seq<T> {
    s.map_values(|x: T| lane_after(x, n))
}

/// The byte string that `bytes` holds for lane `i` of a lane vector of `T`.
pub open spec fn lane_bytes<T: PacRandNum>(bytes: Seq<u8>, i: int) -> Seq<u8> {
    bytes.subrange(i * (T::bits() / 8), (i + 1) * (T::bits() / 8))
}

/// `lanes` is `bytes` read as consecutive little-endian lane values.
pub open spec fn read_from_bytes<T: PacRandNum>(lanes: Seq<T>, bytes: Seq<u8>) -> bool {
    &&& bytes.len() == lanes.len() * (T::bits() / 8)
    &&& forall|i: int|
        0 <= i < lanes.len() ==> (#[trigger] lanes[i]).residue() == le_value(
            lane_bytes::<T>(bytes, i),
        )
}

/// The operating system's entropy source could not supply every byte asked
/// for.
#[derive(Clone, Copy, Debug, PartialEq, Eq)]
pub struct EntropyUnavailable;

/// A generator of `N` lanes of `T`, each advanced by `x -> x * 5 + 1` with
/// wraparound at the width of `T`.
///
/// A generator made by `splat` has every lane equal, and they stay equal: no
/// lane is mixed with another.
pub struct PacRand<T, const N: usize> {
    seed: [T; N],
}

impl<T: PacRandNum, const N: usize> View for PacRand<T, N> {
    type V = Seq<T>;

    /// The lanes, in order.
    closed spec fn view(&self) -> Seq<T> {
        self.seed@
    }
}

impl<T: PacRandNum, const N: usize> PacRand<T, N> {
    /// A generator seeded from the operating system's entropy source: the
    /// bytes it supplies, read as consecutive little-endian lanes. Fails with
    /// `EntropyUnavailable` unless every byte was supplied.
    pub fn new() -> (r: Result<Self, EntropyUnavailable>)
        requires
            N * (T::bits() / 8) <= usize::MAX,
        ensures
            r is Ok ==> exists|b: Seq<u8>| read_from_bytes(r->Ok_0@, b),
    {
        let w = T::byte_len();
        proof {
            T::lemma_width();
        }
        let mut buf: Vec<u8> = vec![0u8; N * w];
        let filled = fill_from_entropy(&mut buf);
        let r = Self::from_entropy(filled.is_ok(), buf.as_slice());
        if let Ok(g) = &r {
            assert(read_from_bytes(g@, buf@));
        }
        r
    }

    /// The generator that an entropy request gives: its bytes when the
    /// request `filled` them all, `EntropyUnavailable` otherwise.
    pub fn from_entropy(filled: bool, bytes: &[u8]) -> (r: Result<Self, EntropyUnavailable>)
        requires
            bytes@.len() == N * (T::bits() / 8),
        ensures
            r is Ok <==> filled,
            r is Ok ==> read_from_bytes(r->Ok_0@, bytes@),
    {
        if filled {
            Ok(Self::from_le_bytes(bytes))
        } else {
            Err(EntropyUnavailable)
        }
    }

    /// The generator whose lanes are `bytes` read as consecutive
    /// little-endian values, the bit pattern of each lane as it is.
    pub fn from_le_bytes(bytes: &[u8]) -> (r: Self)
        requires
            bytes@.len() == N * (T::bits() / 8),
        ensures
            read_from_bytes(r@, bytes@),
    {
        let w = T::byte_len();
        proof {
            T::lemma_width();
        }
        // the slice length, a usize, bounds every offset below
        let _len = bytes.len();
        // every lane is overwritten below
        let mut seed: [T; N] = [T::ONE; N];
        let mut i: usize = 0;
        while i < N
            invariant
                0 <= i <= N,
                w * 8 == T::bits(),
                T::bits() % 8 == 0,
                bytes@.len() == N * w,
                N * w <= usize::MAX,
                seed@.len() == N,
                forall|j: int|
                    0 <= j < i ==> (#[trigger] seed@[j]).residue() == le_value(
                        lane_bytes::<T>(bytes@, j),
                    ),
            decreases N - i,
        {
            proof {
                assert((i + 1) * w <= N * w) by (nonlinear_arith)
                    requires
                        i < N,
                ;
                assert(i * w + w == (i + 1) * w) by (nonlinear_arith);
                assert(i * w <= (i + 1) * w) by (nonlinear_arith);
            }
            let start = i * w;
            seed[i] = T::from_le_bytes_at(bytes, start);
            i = i + 1;
        }
        PacRand { seed }
    }

    /// The generator whose lanes are `seed`.
    pub fn from_seed(seed: [T; N]) -> (r: Self)
        ensures
            r@ == seed@,
    {
        PacRand { seed }
    }

    /// The generator with `t` in every lane.
    pub fn splat(t: T) -> (r: Self)
        ensures
            r@ == Seq::new(N as nat, |_i: int| t),
    {
        let r = PacRand { seed: [t; N] };
        assert(r@ =~= Seq::new(N as nat, |_i: int| t));
        r
    }

    /// The current lanes.
    pub fn state(&self) -> (r: &[T; N])
        ensures
            r@ == self@,
    {
        &self.seed
    }

    /// Advances every lane by one step and returns the new lanes.
    pub fn update(&mut self) -> (r: &[T; N])
        ensures
            final(self)@ == lanes_after(old(self)@, 1),
            forall|i: int|
                0 <= i < N ==> (#[trigger] final(self)@[i]).residue() == lcg(
                    old(self)@[i].residue(),
                    pow2(T::bits()) as int,
                ),
            r@ == final(self)@,
    {
        let ghost before = self.seed@;
        let mut i: usize = 0;
        while i < N
            invariant
                0 <= i <= N,
                self.seed@.len() == N,
                before.len() == N,
                forall|j: int| 0 <= j < i ==> self.seed@[j] == (#[trigger] before[j]).next(),
                forall|j: int| i <= j < N ==> self.seed@[j] == before[j],
            decreases N - i,
        {
            let x = self.seed[i];
            self.seed[i] = x.lcg_step();
            i = i + 1;
        }
        proof {
            assert forall|j: int| 0 <= j < N implies (#[trigger] self.seed@[j]).residue() == lcg(
                before[j].residue(),
                pow2(T::bits()) as int,
            ) by {
                T::lemma_next(before[j]);
            }
            assert forall|j: int| 0 <= j < N implies lane_after(before[j], 1) == before[j].next() by {
                assert(lane_after(before[j], 0) == before[j]);
            }
            assert(self.seed@ =~= lanes_after(before, 1));
        }
        &self.seed
    }
}

} // verus!
