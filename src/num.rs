use crate::bytes::{le_u128, le_value, lemma_le_value_bound};
use crate::recurrence::lcg;
use vstd::arithmetic::div_mod::{
    lemma_add_mod_noop,
    lemma_fundamental_div_mod,
    lemma_mod_bound,
    lemma_mod_multiples_vanish,
    lemma_mul_mod_noop_left,
    lemma_small_mod,
};
use vstd::arithmetic::power2::{lemma2_to64, lemma_pow2_adds, pow2};
use vstd::prelude::*;

verus! {

/// An integer type usable as a lane element.
///
/// It supplies the recurrence's multiplier (`FIVE`) and increment (`ONE`) in
/// its own representation, one step `x * FIVE + ONE` that wraps at its bit
/// width, and the reading of its value from little-endian bytes. Its values
/// are modelled by their residues modulo `2^bits()`; for a signed type this is
/// the two's complement bit pattern read as unsigned.
pub trait PacRandNum: Copy + Sized {
    const FIVE: Self;

    const ONE: Self;

    /// The number of bits of the type.
    spec fn bits() -> nat;

    /// The value as a residue modulo `2^bits()`.
    spec fn residue(self) -> int;

    /// `self * FIVE + ONE`, wrapping at the type's width.
    spec fn next(self) -> Self;

    /// The width is a whole number of bytes, from one to sixteen.
    proof fn lemma_width()
        ensures
            8 <= Self::bits() <= 128,
            Self::bits() % 8 == 0,
    ;

    /// The two constants are the numbers 5 and 1.
    proof fn lemma_constants()
        ensures
            Self::FIVE.residue() == 5,
            Self::ONE.residue() == 1,
    ;

    /// A residue lies in `[0, 2^bits())`.
    proof fn lemma_residue_bounds(x: Self)
        ensures
            0 <= x.residue() < pow2(Self::bits()),
    ;

    /// Distinct values have distinct residues.
    proof fn lemma_residue_injective(x: Self, y: Self)
        requires
            x.residue() == y.residue(),
        ensures
            x == y,
    ;

    /// One step is the recurrence on residues modulo `2^bits()`.
    proof fn lemma_next(x: Self)
        ensures
            x.next().residue() == lcg(x.residue(), pow2(Self::bits()) as int),
    ;

    /// One step of the recurrence.
    fn lcg_step(self) -> (r: Self)
        ensures
            r == self.next(),
    ;

    /// The number of bytes of the type.
    fn byte_len() -> (r: usize)
        ensures
            r * 8 == Self::bits(),
    ;

    /// The value whose bit pattern is the `bits() / 8` bytes of `bytes` from
    /// `start` on, read little-endian.
    fn from_le_bytes_at(bytes: &[u8], start: usize) -> (r: Self)
        requires
            start + Self::bits() / 8 <= bytes@.len(),
        ensures
            r.residue() == le_value(bytes@.subrange(start as int, start + Self::bits() / 8)),
    ;
}

/// `w` differs from `v` by a multiple of `m` in one of the ways that wrapping
/// arithmetic produces.
proof fn lemma_congruent(v: int, w: int, m: int)
    requires
        0 < m,
        w == v || w == v - m || w == v + m || w == v % m || w == v % m - m,
    ensures
        w % m == v % m,
{
    lemma_mod_multiples_vanish(-1, v, m);
    lemma_mod_multiples_vanish(1, v, m);
    lemma_mod_bound(v, m);
    lemma_small_mod((v % m) as nat, m as nat);
    lemma_mod_multiples_vanish(-1, v % m, m);
}

/// A value congruent to `x * 5`, then incremented, is one step from the
/// residue of `x`.
proof fn lemma_wrapped_step(x: int, w: int, r: int, m: int)
    requires
        0 < m,
        w % m == (x * 5) % m,
        r % m == (w + 1) % m,
    ensures
        r % m == lcg(x % m, m),
{
    lemma_add_mod_noop(w, 1, m);
    lemma_add_mod_noop(x * 5, 1, m);
    lemma_mul_mod_noop_left(x, 5, m);
    lemma_add_mod_noop((x % m) * 5, 1, m);
}

/// Two values less than `m` apart with one residue modulo `m` are equal.
proof fn lemma_mod_injective(x: int, y: int, m: int)
    requires
        0 < m,
        -m < x - y < m,
        x % m == y % m,
    ensures
        x == y,
{
    lemma_fundamental_div_mod(x, m);
    lemma_fundamental_div_mod(y, m);
    let qx = x / m;
    let qy = y / m;
    assert(qx == qy) by (nonlinear_arith)
        requires
            x == m * qx + x % m,
            y == m * qy + y % m,
            x % m == y % m,
            -m < x - y < m,
            0 < m,
    ;
}

/// `2^128` is one more than the largest `u128`.
proof fn lemma_pow2_128()
    ensures
        pow2(128) == 0x1_0000_0000_0000_0000_0000_0000_0000_0000int,
{
    lemma2_to64();
    lemma_pow2_adds(64, 64);
}

impl PacRandNum for u8 {
    const FIVE: u8 = 5;

    const ONE: u8 = 1;

    open spec fn bits() -> nat {
        8
    }

    open spec fn residue(self) -> int {
        self as int % 0x100int
    }

    open spec fn next(self) -> u8 {
        vstd::wrapping::u8_specs::wrapping_add(vstd::wrapping::u8_specs::wrapping_mul(self, Self::FIVE), Self::ONE)
    }

    proof fn lemma_width() {
    }

    proof fn lemma_constants() {
        lemma_small_mod(5, 0x100int as nat);
        lemma_small_mod(1, 0x100int as nat);
    }

    proof fn lemma_residue_bounds(x: u8) {
        lemma2_to64();
        lemma_mod_bound(x as int, 0x100int);
    }

    proof fn lemma_residue_injective(x: u8, y: u8) {
        lemma_mod_injective(x as int, y as int, 0x100int);
    }

    proof fn lemma_next(x: u8) {
        lemma2_to64();
        let m = 0x100int;
        let w = vstd::wrapping::u8_specs::wrapping_mul(x, 5);
        lemma_congruent(x as int * 5, w as int, m);
        lemma_congruent(w as int + 1, x.next() as int, m);
        lemma_wrapped_step(x as int, w as int, x.next() as int, m);
    }

    fn lcg_step(self) -> (r: u8) {
        self.wrapping_mul(Self::FIVE).wrapping_add(Self::ONE)
    }

    fn byte_len() -> (r: usize) {
        1
    }

    fn from_le_bytes_at(bytes: &[u8], start: usize) -> (r: u8) {
        let v = le_u128(bytes, start, 1);
        proof {
            lemma_le_value_bound(bytes@.subrange(start as int, start + 1));
            lemma2_to64();
        }
        proof {
            lemma_small_mod(v as nat, (0x100int) as nat);
        }
        v as u8
    }
}

impl PacRandNum for u16 {
    const FIVE: u16 = 5;

    const ONE: u16 = 1;

    open spec fn bits() -> nat {
        16
    }

    open spec fn residue(self) -> int {
        self as int % 0x1_0000int
    }

    open spec fn next(self) -> u16 {
        vstd::wrapping::u16_specs::wrapping_add(vstd::wrapping::u16_specs::wrapping_mul(self, Self::FIVE), Self::ONE)
    }

    proof fn lemma_width() {
    }

    proof fn lemma_constants() {
        lemma_small_mod(5, 0x1_0000int as nat);
        lemma_small_mod(1, 0x1_0000int as nat);
    }

    proof fn lemma_residue_bounds(x: u16) {
        lemma2_to64();
        lemma_mod_bound(x as int, 0x1_0000int);
    }

    proof fn lemma_residue_injective(x: u16, y: u16) {
        lemma_mod_injective(x as int, y as int, 0x1_0000int);
    }

    proof fn lemma_next(x: u16) {
        lemma2_to64();
        let m = 0x1_0000int;
        let w = vstd::wrapping::u16_specs::wrapping_mul(x, 5);
        lemma_congruent(x as int * 5, w as int, m);
        lemma_congruent(w as int + 1, x.next() as int, m);
        lemma_wrapped_step(x as int, w as int, x.next() as int, m);
    }

    fn lcg_step(self) -> (r: u16) {
        self.wrapping_mul(Self::FIVE).wrapping_add(Self::ONE)
    }

    fn byte_len() -> (r: usize) {
        2
    }

    fn from_le_bytes_at(bytes: &[u8], start: usize) -> (r: u16) {
        let v = le_u128(bytes, start, 2);
        proof {
            lemma_le_value_bound(bytes@.subrange(start as int, start + 2));
            lemma2_to64();
        }
        proof {
            lemma_small_mod(v as nat, (0x1_0000int) as nat);
        }
        v as u16
    }
}

impl PacRandNum for u32 {
    const FIVE: u32 = 5;

    const ONE: u32 = 1;

    open spec fn bits() -> nat {
        32
    }

    open spec fn residue(self) -> int {
        self as int % 0x1_0000_0000int
    }

    open spec fn next(self) -> u32 {
        vstd::wrapping::u32_specs::wrapping_add(vstd::wrapping::u32_specs::wrapping_mul(self, Self::FIVE), Self::ONE)
    }

    proof fn lemma_width() {
    }

    proof fn lemma_constants() {
        lemma_small_mod(5, 0x1_0000_0000int as nat);
        lemma_small_mod(1, 0x1_0000_0000int as nat);
    }

    proof fn lemma_residue_bounds(x: u32) {
        lemma2_to64();
        lemma_mod_bound(x as int, 0x1_0000_0000int);
    }

    proof fn lemma_residue_injective(x: u32, y: u32) {
        lemma_mod_injective(x as int, y as int, 0x1_0000_0000int);
    }

    proof fn lemma_next(x: u32) {
        lemma2_to64();
        let m = 0x1_0000_0000int;
        let w = vstd::wrapping::u32_specs::wrapping_mul(x, 5);
        lemma_congruent(x as int * 5, w as int, m);
        lemma_congruent(w as int + 1, x.next() as int, m);
        lemma_wrapped_step(x as int, w as int, x.next() as int, m);
    }

    fn lcg_step(self) -> (r: u32) {
        self.wrapping_mul(Self::FIVE).wrapping_add(Self::ONE)
    }

    fn byte_len() -> (r: usize) {
        4
    }

    fn from_le_bytes_at(bytes: &[u8], start: usize) -> (r: u32) {
        let v = le_u128(bytes, start, 4);
        proof {
            lemma_le_value_bound(bytes@.subrange(start as int, start + 4));
            lemma2_to64();
        }
        proof {
            lemma_small_mod(v as nat, (0x1_0000_0000int) as nat);
        }
        v as u32
    }
}

impl PacRandNum for u64 {
    const FIVE: u64 = 5;

    const ONE: u64 = 1;

    open spec fn bits() -> nat {
        64
    }

    open spec fn residue(self) -> int {
        self as int % 0x1_0000_0000_0000_0000int
    }

    open spec fn next(self) -> u64 {
        vstd::wrapping::u64_specs::wrapping_add(vstd::wrapping::u64_specs::wrapping_mul(self, Self::FIVE), Self::ONE)
    }

    proof fn lemma_width() {
    }

    proof fn lemma_constants() {
        lemma_small_mod(5, 0x1_0000_0000_0000_0000int as nat);
        lemma_small_mod(1, 0x1_0000_0000_0000_0000int as nat);
    }

    proof fn lemma_residue_bounds(x: u64) {
        lemma2_to64();
        lemma_mod_bound(x as int, 0x1_0000_0000_0000_0000int);
    }

    proof fn lemma_residue_injective(x: u64, y: u64) {
        lemma_mod_injective(x as int, y as int, 0x1_0000_0000_0000_0000int);
    }

    proof fn lemma_next(x: u64) {
        lemma2_to64();
        let m = 0x1_0000_0000_0000_0000int;
        let w = vstd::wrapping::u64_specs::wrapping_mul(x, 5);
        lemma_congruent(x as int * 5, w as int, m);
        lemma_congruent(w as int + 1, x.next() as int, m);
        lemma_wrapped_step(x as int, w as int, x.next() as int, m);
    }

    fn lcg_step(self) -> (r: u64) {
        self.wrapping_mul(Self::FIVE).wrapping_add(Self::ONE)
    }

    fn byte_len() -> (r: usize) {
        8
    }

    fn from_le_bytes_at(bytes: &[u8], start: usize) -> (r: u64) {
        let v = le_u128(bytes, start, 8);
        proof {
            lemma_le_value_bound(bytes@.subrange(start as int, start + 8));
            lemma2_to64();
        }
        proof {
            lemma_small_mod(v as nat, (0x1_0000_0000_0000_0000int) as nat);
        }
        v as u64
    }
}

impl PacRandNum for u128 {
    const FIVE: u128 = 5;

    const ONE: u128 = 1;

    open spec fn bits() -> nat {
        128
    }

    open spec fn residue(self) -> int {
        self as int % 0x1_0000_0000_0000_0000_0000_0000_0000_0000int
    }

    open spec fn next(self) -> u128 {
        vstd::wrapping::u128_specs::wrapping_add(vstd::wrapping::u128_specs::wrapping_mul(self, Self::FIVE), Self::ONE)
    }

    proof fn lemma_width() {
    }

    proof fn lemma_constants() {
        lemma_small_mod(5, 0x1_0000_0000_0000_0000_0000_0000_0000_0000int as nat);
        lemma_small_mod(1, 0x1_0000_0000_0000_0000_0000_0000_0000_0000int as nat);
    }

    proof fn lemma_residue_bounds(x: u128) {
        lemma_pow2_128();
        lemma_mod_bound(x as int, 0x1_0000_0000_0000_0000_0000_0000_0000_0000int);
    }

    proof fn lemma_residue_injective(x: u128, y: u128) {
        lemma_mod_injective(x as int, y as int, 0x1_0000_0000_0000_0000_0000_0000_0000_0000int);
    }

    proof fn lemma_next(x: u128) {
        lemma_pow2_128();
        let m = 0x1_0000_0000_0000_0000_0000_0000_0000_0000int;
        let w = vstd::wrapping::u128_specs::wrapping_mul(x, 5);
        lemma_congruent(x as int * 5, w as int, m);
        lemma_congruent(w as int + 1, x.next() as int, m);
        lemma_wrapped_step(x as int, w as int, x.next() as int, m);
    }

    fn lcg_step(self) -> (r: u128) {
        self.wrapping_mul(Self::FIVE).wrapping_add(Self::ONE)
    }

    fn byte_len() -> (r: usize) {
        16
    }

    fn from_le_bytes_at(bytes: &[u8], start: usize) -> (r: u128) {
        let v = le_u128(bytes, start, 16);
        proof {
            lemma_le_value_bound(bytes@.subrange(start as int, start + 16));
            lemma_pow2_128();
        }
        proof {
            lemma_small_mod(v as nat, (0x1_0000_0000_0000_0000_0000_0000_0000_0000int) as nat);
        }
        v as u128
    }
}

impl PacRandNum for usize {
    const FIVE: usize = 5;

    const ONE: usize = 1;

    open spec fn bits() -> nat {
        usize::BITS as nat
    }

    open spec fn residue(self) -> int {
        self as int % (usize::MAX as int + 1)
    }

    open spec fn next(self) -> usize {
        vstd::wrapping::usize_specs::wrapping_add(vstd::wrapping::usize_specs::wrapping_mul(self, Self::FIVE), Self::ONE)
    }

    proof fn lemma_width() {
    }

    proof fn lemma_constants() {
        lemma_small_mod(5, (usize::MAX as int + 1) as nat);
        lemma_small_mod(1, (usize::MAX as int + 1) as nat);
    }

    proof fn lemma_residue_bounds(x: usize) {
        vstd::layout::unsigned_int_max_values();
        lemma_mod_bound(x as int, (usize::MAX as int + 1));
    }

    proof fn lemma_residue_injective(x: usize, y: usize) {
        lemma_mod_injective(x as int, y as int, (usize::MAX as int + 1));
    }

    proof fn lemma_next(x: usize) {
        vstd::layout::unsigned_int_max_values();
        let m = (usize::MAX as int + 1);
        let w = vstd::wrapping::usize_specs::wrapping_mul(x, 5);
        lemma_congruent(x as int * 5, w as int, m);
        lemma_congruent(w as int + 1, x.next() as int, m);
        lemma_wrapped_step(x as int, w as int, x.next() as int, m);
    }

    fn lcg_step(self) -> (r: usize) {
        self.wrapping_mul(Self::FIVE).wrapping_add(Self::ONE)
    }

    fn byte_len() -> (r: usize) {
        (usize::BITS / 8) as usize
    }

    fn from_le_bytes_at(bytes: &[u8], start: usize) -> (r: usize) {
        let v = le_u128(bytes, start, (usize::BITS / 8) as usize);
        proof {
            lemma_le_value_bound(bytes@.subrange(start as int, start + usize::BITS / 8));
            vstd::layout::unsigned_int_max_values();
        }
        proof {
            lemma_small_mod(v as nat, (usize::MAX as int + 1) as nat);
        }
        v as usize
    }
}

impl PacRandNum for i8 {
    const FIVE: i8 = 5;

    const ONE: i8 = 1;

    open spec fn bits() -> nat {
        8
    }

    open spec fn residue(self) -> int {
        self as int % 0x100int
    }

    open spec fn next(self) -> i8 {
        vstd::wrapping::i8_specs::wrapping_add(vstd::wrapping::i8_specs::wrapping_mul(self, Self::FIVE), Self::ONE)
    }

    proof fn lemma_width() {
    }

    proof fn lemma_constants() {
        lemma_small_mod(5, 0x100int as nat);
        lemma_small_mod(1, 0x100int as nat);
    }

    proof fn lemma_residue_bounds(x: i8) {
        lemma2_to64();
        lemma_mod_bound(x as int, 0x100int);
    }

    proof fn lemma_residue_injective(x: i8, y: i8) {
        lemma_mod_injective(x as int, y as int, 0x100int);
    }

    proof fn lemma_next(x: i8) {
        lemma2_to64();
        let m = 0x100int;
        let w = vstd::wrapping::i8_specs::wrapping_mul(x, 5);
        lemma_congruent(x as int * 5, w as int, m);
        lemma_congruent(w as int + 1, x.next() as int, m);
        lemma_wrapped_step(x as int, w as int, x.next() as int, m);
    }

    fn lcg_step(self) -> (r: i8) {
        self.wrapping_mul(Self::FIVE).wrapping_add(Self::ONE)
    }

    fn byte_len() -> (r: usize) {
        1
    }

    fn from_le_bytes_at(bytes: &[u8], start: usize) -> (r: i8) {
        let v = le_u128(bytes, start, 1);
        proof {
            lemma_le_value_bound(bytes@.subrange(start as int, start + 1));
            lemma2_to64();
        }
        let ghost m = 0x100int;
        let r = {
        if v <= i8::MAX as u128 {
                v as i8
            } else {
                ((v - i8::MAX as u128 - 1) as i8) + i8::MIN
            }
        };
        proof {
            lemma_congruent(v as int, r as int, m);
            lemma_small_mod(v as nat, m as nat);
        }
        r
    }
}

impl PacRandNum for i16 {
    const FIVE: i16 = 5;

    const ONE: i16 = 1;

    open spec fn bits() -> nat {
        16
    }

    open spec fn residue(self) -> int {
        self as int % 0x1_0000int
    }

    open spec fn next(self) -> i16 {
        vstd::wrapping::i16_specs::wrapping_add(vstd::wrapping::i16_specs::wrapping_mul(self, Self::FIVE), Self::ONE)
    }

    proof fn lemma_width() {
    }

    proof fn lemma_constants() {
        lemma_small_mod(5, 0x1_0000int as nat);
        lemma_small_mod(1, 0x1_0000int as nat);
    }

    proof fn lemma_residue_bounds(x: i16) {
        lemma2_to64();
        lemma_mod_bound(x as int, 0x1_0000int);
    }

    proof fn lemma_residue_injective(x: i16, y: i16) {
        lemma_mod_injective(x as int, y as int, 0x1_0000int);
    }

    proof fn lemma_next(x: i16) {
        lemma2_to64();
        let m = 0x1_0000int;
        let w = vstd::wrapping::i16_specs::wrapping_mul(x, 5);
        lemma_congruent(x as int * 5, w as int, m);
        lemma_congruent(w as int + 1, x.next() as int, m);
        lemma_wrapped_step(x as int, w as int, x.next() as int, m);
    }

    fn lcg_step(self) -> (r: i16) {
        self.wrapping_mul(Self::FIVE).wrapping_add(Self::ONE)
    }

    fn byte_len() -> (r: usize) {
        2
    }

    fn from_le_bytes_at(bytes: &[u8], start: usize) -> (r: i16) {
        let v = le_u128(bytes, start, 2);
        proof {
            lemma_le_value_bound(bytes@.subrange(start as int, start + 2));
            lemma2_to64();
        }
        let ghost m = 0x1_0000int;
        let r = {
        if v <= i16::MAX as u128 {
                v as i16
            } else {
                ((v - i16::MAX as u128 - 1) as i16) + i16::MIN
            }
        };
        proof {
            lemma_congruent(v as int, r as int, m);
            lemma_small_mod(v as nat, m as nat);
        }
        r
    }
}

impl PacRandNum for i32 {
    const FIVE: i32 = 5;

    const ONE: i32 = 1;

    open spec fn bits() -> nat {
        32
    }

    open spec fn residue(self) -> int {
        self as int % 0x1_0000_0000int
    }

    open spec fn next(self) -> i32 {
        vstd::wrapping::i32_specs::wrapping_add(vstd::wrapping::i32_specs::wrapping_mul(self, Self::FIVE), Self::ONE)
    }

    proof fn lemma_width() {
    }

    proof fn lemma_constants() {
        lemma_small_mod(5, 0x1_0000_0000int as nat);
        lemma_small_mod(1, 0x1_0000_0000int as nat);
    }

    proof fn lemma_residue_bounds(x: i32) {
        lemma2_to64();
        lemma_mod_bound(x as int, 0x1_0000_0000int);
    }

    proof fn lemma_residue_injective(x: i32, y: i32) {
        lemma_mod_injective(x as int, y as int, 0x1_0000_0000int);
    }

    proof fn lemma_next(x: i32) {
        lemma2_to64();
        let m = 0x1_0000_0000int;
        let w = vstd::wrapping::i32_specs::wrapping_mul(x, 5);
        lemma_congruent(x as int * 5, w as int, m);
        lemma_congruent(w as int + 1, x.next() as int, m);
        lemma_wrapped_step(x as int, w as int, x.next() as int, m);
    }

    fn lcg_step(self) -> (r: i32) {
        self.wrapping_mul(Self::FIVE).wrapping_add(Self::ONE)
    }

    fn byte_len() -> (r: usize) {
        4
    }

    fn from_le_bytes_at(bytes: &[u8], start: usize) -> (r: i32) {
        let v = le_u128(bytes, start, 4);
        proof {
            lemma_le_value_bound(bytes@.subrange(start as int, start + 4));
            lemma2_to64();
        }
        let ghost m = 0x1_0000_0000int;
        let r = {
        if v <= i32::MAX as u128 {
                v as i32
            } else {
                ((v - i32::MAX as u128 - 1) as i32) + i32::MIN
            }
        };
        proof {
            lemma_congruent(v as int, r as int, m);
            lemma_small_mod(v as nat, m as nat);
        }
        r
    }
}

impl PacRandNum for i64 {
    const FIVE: i64 = 5;

    const ONE: i64 = 1;

    open spec fn bits() -> nat {
        64
    }

    open spec fn residue(self) -> int {
        self as int % 0x1_0000_0000_0000_0000int
    }

    open spec fn next(self) -> i64 {
        vstd::wrapping::i64_specs::wrapping_add(vstd::wrapping::i64_specs::wrapping_mul(self, Self::FIVE), Self::ONE)
    }

    proof fn lemma_width() {
    }

    proof fn lemma_constants() {
        lemma_small_mod(5, 0x1_0000_0000_0000_0000int as nat);
        lemma_small_mod(1, 0x1_0000_0000_0000_0000int as nat);
    }

    proof fn lemma_residue_bounds(x: i64) {
        lemma2_to64();
        lemma_mod_bound(x as int, 0x1_0000_0000_0000_0000int);
    }

    proof fn lemma_residue_injective(x: i64, y: i64) {
        lemma_mod_injective(x as int, y as int, 0x1_0000_0000_0000_0000int);
    }

    proof fn lemma_next(x: i64) {
        lemma2_to64();
        let m = 0x1_0000_0000_0000_0000int;
        let w = vstd::wrapping::i64_specs::wrapping_mul(x, 5);
        lemma_congruent(x as int * 5, w as int, m);
        lemma_congruent(w as int + 1, x.next() as int, m);
        lemma_wrapped_step(x as int, w as int, x.next() as int, m);
    }

    fn lcg_step(self) -> (r: i64) {
        self.wrapping_mul(Self::FIVE).wrapping_add(Self::ONE)
    }

    fn byte_len() -> (r: usize) {
        8
    }

    fn from_le_bytes_at(bytes: &[u8], start: usize) -> (r: i64) {
        let v = le_u128(bytes, start, 8);
        proof {
            lemma_le_value_bound(bytes@.subrange(start as int, start + 8));
            lemma2_to64();
        }
        let ghost m = 0x1_0000_0000_0000_0000int;
        let r = {
        if v <= i64::MAX as u128 {
                v as i64
            } else {
                ((v - i64::MAX as u128 - 1) as i64) + i64::MIN
            }
        };
        proof {
            lemma_congruent(v as int, r as int, m);
            lemma_small_mod(v as nat, m as nat);
        }
        r
    }
}

impl PacRandNum for i128 {
    const FIVE: i128 = 5;

    const ONE: i128 = 1;

    open spec fn bits() -> nat {
        128
    }

    open spec fn residue(self) -> int {
        self as int % 0x1_0000_0000_0000_0000_0000_0000_0000_0000int
    }

    open spec fn next(self) -> i128 {
        vstd::wrapping::i128_specs::wrapping_add(vstd::wrapping::i128_specs::wrapping_mul(self, Self::FIVE), Self::ONE)
    }

    proof fn lemma_width() {
    }

    proof fn lemma_constants() {
        lemma_small_mod(5, 0x1_0000_0000_0000_0000_0000_0000_0000_0000int as nat);
        lemma_small_mod(1, 0x1_0000_0000_0000_0000_0000_0000_0000_0000int as nat);
    }

    proof fn lemma_residue_bounds(x: i128) {
        lemma_pow2_128();
        lemma_mod_bound(x as int, 0x1_0000_0000_0000_0000_0000_0000_0000_0000int);
    }

    proof fn lemma_residue_injective(x: i128, y: i128) {
        lemma_mod_injective(x as int, y as int, 0x1_0000_0000_0000_0000_0000_0000_0000_0000int);
    }

    proof fn lemma_next(x: i128) {
        lemma_pow2_128();
        let m = 0x1_0000_0000_0000_0000_0000_0000_0000_0000int;
        let w = vstd::wrapping::i128_specs::wrapping_mul(x, 5);
        lemma_congruent(x as int * 5, w as int, m);
        lemma_congruent(w as int + 1, x.next() as int, m);
        lemma_wrapped_step(x as int, w as int, x.next() as int, m);
    }

    fn lcg_step(self) -> (r: i128) {
        self.wrapping_mul(Self::FIVE).wrapping_add(Self::ONE)
    }

    fn byte_len() -> (r: usize) {
        16
    }

    fn from_le_bytes_at(bytes: &[u8], start: usize) -> (r: i128) {
        let v = le_u128(bytes, start, 16);
        proof {
            lemma_le_value_bound(bytes@.subrange(start as int, start + 16));
            lemma_pow2_128();
        }
        let ghost m = 0x1_0000_0000_0000_0000_0000_0000_0000_0000int;
        let r = {
        if v <= i128::MAX as u128 {
                v as i128
            } else {
                ((v - i128::MAX as u128 - 1) as i128) + i128::MIN
            }
        };
        proof {
            lemma_congruent(v as int, r as int, m);
            lemma_small_mod(v as nat, m as nat);
        }
        r
    }
}

impl PacRandNum for isize {
    const FIVE: isize = 5;

    const ONE: isize = 1;

    open spec fn bits() -> nat {
        usize::BITS as nat
    }

    open spec fn residue(self) -> int {
        self as int % (usize::MAX as int + 1)
    }

    open spec fn next(self) -> isize {
        vstd::wrapping::isize_specs::wrapping_add(vstd::wrapping::isize_specs::wrapping_mul(self, Self::FIVE), Self::ONE)
    }

    proof fn lemma_width() {
    }

    proof fn lemma_constants() {
        lemma_small_mod(5, (usize::MAX as int + 1) as nat);
        lemma_small_mod(1, (usize::MAX as int + 1) as nat);
    }

    proof fn lemma_residue_bounds(x: isize) {
        vstd::layout::unsigned_int_max_values();
        lemma_mod_bound(x as int, (usize::MAX as int + 1));
    }

    proof fn lemma_residue_injective(x: isize, y: isize) {
        lemma_mod_injective(x as int, y as int, (usize::MAX as int + 1));
    }

    proof fn lemma_next(x: isize) {
        vstd::layout::unsigned_int_max_values();
        let m = (usize::MAX as int + 1);
        let w = vstd::wrapping::isize_specs::wrapping_mul(x, 5);
        lemma_congruent(x as int * 5, w as int, m);
        lemma_congruent(w as int + 1, x.next() as int, m);
        lemma_wrapped_step(x as int, w as int, x.next() as int, m);
    }

    fn lcg_step(self) -> (r: isize) {
        self.wrapping_mul(Self::FIVE).wrapping_add(Self::ONE)
    }

    fn byte_len() -> (r: usize) {
        (usize::BITS / 8) as usize
    }

    fn from_le_bytes_at(bytes: &[u8], start: usize) -> (r: isize) {
        let v = le_u128(bytes, start, (usize::BITS / 8) as usize);
        proof {
            lemma_le_value_bound(bytes@.subrange(start as int, start + usize::BITS / 8));
            vstd::layout::unsigned_int_max_values();
        }
        let ghost m = (usize::MAX as int + 1);
        let r = {
        if v <= isize::MAX as u128 {
                v as isize
            } else {
                ((v - isize::MAX as u128 - 1) as isize) + isize::MIN
            }
        };
        proof {
            lemma_congruent(v as int, r as int, m);
            lemma_small_mod(v as nat, m as nat);
        }
        r
    }
}

} // verus!
