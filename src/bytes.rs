//! Reading an unsigned integer from little-endian bytes.
use vstd::arithmetic::power2::{lemma_pow2_adds, lemma_pow2_pos, pow2};
use vstd::prelude::*;

verus! {

/// The unsigned integer whose little-endian bytes are `s`.
pub open spec fn le_value(s: Seq<u8>) -> nat
    decreases s.len(),
{
    if s.len() == 0 {
        0
    } else {
        s[0] as nat + 256 * le_value(s.drop_first())
    }
}

/// `n` bytes hold less than `2^(8n)`.
pub proof fn lemma_le_value_bound(s: Seq<u8>)
    ensures
        le_value(s) < pow2(8 * s.len()),
    decreases s.len(),
{
    vstd::arithmetic::power2::lemma2_to64();
    if s.len() > 0 {
        let k = (s.len() - 1) as nat;
        lemma_le_value_bound(s.drop_first());
        lemma_pow2_adds(8, 8 * k);
        assert(8 * s.len() == 8 + 8 * k);
        let p = pow2(8 * k) as int;
        let v = le_value(s.drop_first()) as int;
        assert(s[0] as int + 256 * v < 256 * p) by (nonlinear_arith)
            requires
                v < p,
                0 <= s[0] < 256,
        ;
    }
}

/// The value of the `len` bytes of `bytes` that start at `start`, read
/// little-endian.
pub fn le_u128(bytes: &[u8], start: usize, len: usize) -> (r: u128)
    requires
        len <= 16,
        start + len <= bytes@.len(),
    ensures
        r as nat == le_value(bytes@.subrange(start as int, start + len)),
{
    let n = bytes.len();
    let end = start + len;
    let mut acc: u128 = 0;
    let mut i: usize = end;
    proof {
        lemma_pow2_pos(0);
        assert(bytes@.subrange(end as int, end as int) =~= Seq::<u8>::empty());
    }
    while i > start
        invariant
            start <= i <= end,
            end == start + len,
            len <= 16,
            end <= bytes@.len(),
            acc as nat == le_value(bytes@.subrange(i as int, end as int)),
        decreases i - start,
    {
        let ghost tail = bytes@.subrange(i as int, end as int);
        let ghost whole = bytes@.subrange(i - 1, end as int);
        proof {
            assert(whole.drop_first() =~= tail);
            lemma_le_value_bound(whole);
            lemma_pow2_adds(8 * whole.len(), (128 - 8 * whole.len()) as nat);
            lemma_pow2_pos((128 - 8 * whole.len()) as nat);
            vstd::layout::unsigned_int_max_values();
            assert(pow2(8 * whole.len()) <= pow2(128)) by (nonlinear_arith)
                requires
                    pow2(128) == pow2(8 * whole.len()) * pow2((128 - 8 * whole.len()) as nat),
                    pow2((128 - 8 * whole.len()) as nat) > 0,
            ;
        }
        i = i - 1;
        acc = bytes[i] as u128 + 256 * acc;
    }
    acc
}

} // verus!
