//! A fingerprint of rendered audio that pins its sound, not its bits.
//!
//! It hashes, per block, the level in half-decibel steps and the number of
//! zero crossings: a last-bit difference moves neither, and any change a
//! listener could hear moves both. The levels are measured by the caller; the
//! crossings and the hash are found here.

use vstd::prelude::*;
use crate::single::Single;

verus! {

/// Samples in a block.
pub const BLOCK: usize = 1024;

/// The hash of nothing (FNV-1a, 64 bits).
pub const BASIS: u64 = 0xcbf2_9ce4_8422_2325;

/// What each byte multiplies the hash by.
pub const PRIME: u64 = 0x0000_0100_0000_01b3;

/// The hash with one byte more.
pub open spec fn with_byte(h: u64, byte: u64) -> u64 {
    (h ^ byte).wrapping_mul(PRIME)
}

/// The `i`th byte of a number, the lowest first.
pub open spec fn byte_at(v: u64, i: int) -> u64 {
    (v >> ((8 * i) as u64)) & 0xff
}

/// The hash with the first `n` bytes of a number more.
pub open spec fn with_bytes(h: u64, v: u64, n: nat) -> u64
    decreases n,
{
    if n == 0 {
        h
    } else {
        with_byte(with_bytes(h, v, (n - 1) as nat), byte_at(v, n - 1))
    }
}

/// Whether the sign changes from one sample to the next.
pub open spec fn crosses(a: Single, b: Single) -> bool {
    (a.number() && a.units() < 0) != (b.number() && b.units() < 0)
}

/// The zero crossings among the first `n` samples from `from`.
pub open spec fn crossings(s: Seq<Single>, from: int, n: int) -> int
    decreases n,
{
    if n <= 1 {
        0
    } else {
        crossings(s, from, n - 1) + (if crosses(s[from + n - 2], s[from + n - 1]) { 1int } else { 0 })
    }
}

/// How many samples block `b` of `len` samples has.
pub open spec fn block_len(len: int, b: int) -> int {
    if len - b * BLOCK < BLOCK {
        len - b * BLOCK
    } else {
        BLOCK as int
    }
}

/// How many blocks `len` samples make, the last perhaps short.
pub open spec fn block_count(len: int) -> int {
    (len + BLOCK - 1) / BLOCK as int
}

/// The fingerprint of the first `n` blocks.
pub open spec fn print_of(samples: Seq<Single>, levels: Seq<i64>, n: nat) -> u64
    decreases n,
{
    if n == 0 {
        BASIS
    } else {
        let b = n - 1;
        let h = with_bytes(print_of(samples, levels, b as nat), levels[b] as u64, 8);
        with_bytes(h, crossings(samples, b * BLOCK, block_len(samples.len() as int, b)) as u64, 8)
    }
}

/// Mix a number into the hash, its lowest byte first.
fn mix(h: u64, v: u64) -> (r: u64)
    ensures
        r == with_bytes(h, v, 8),
{
    let mut r: u64 = h;
    let mut i: u64 = 0;
    while i < 8
        invariant
            i <= 8,
            r == with_bytes(h, v, i as nat),
        decreases 8 - i,
    {
        let shift: u64 = 8 * i;
        let byte: u64 = (v >> shift) & 0xff;
        r = (r ^ byte).wrapping_mul(PRIME);
        i = i + 1;
    }
    r
}

/// The zero crossings of a block.
pub fn zero_crossings(samples: &Vec<Single>, from: usize, n: usize) -> (r: u64)
    requires
        from + n <= samples.len(),
    ensures
        r == crossings(samples@, from as int, n as int),
        r <= n,
{
    let mut r: u64 = 0;
    if n < 2 {
        return 0;
    }
    let mut i: usize = 1;
    while i < n
        invariant
            1 <= i <= n,
            from + n <= samples.len(),
            r == crossings(samples@, from as int, i as int),
            r < i,
        decreases n - i,
    {
        if samples[from + i - 1].is_below_zero() != samples[from + i].is_below_zero() {
            r = r + 1;
        }
        i = i + 1;
    }
    r
}

/// The fingerprint of `samples`, one channel, with the level of each block
/// measured.
pub fn of(samples: &Vec<Single>, levels: &Vec<i64>) -> (h: u64)
    requires
        levels.len() == block_count(samples.len() as int),
    ensures
        h == print_of(samples@, levels@, levels.len() as nat),
{
    let mut h: u64 = BASIS;
    let mut b: usize = 0;
    let mut from: usize = 0;
    while b < levels.len()
        invariant
            b <= levels.len(),
            levels.len() == block_count(samples.len() as int),
            b < levels.len() ==> from == b * BLOCK,
            h == print_of(samples@, levels@, b as nat),
        decreases levels.len() - b,
    {
        assert(from < samples.len());
        let left: usize = samples.len() - from;
        let n: usize = if left < BLOCK {
            left
        } else {
            BLOCK
        };
        h = mix(h, levels[b] as u64);
        h = mix(h, zero_crossings(samples, from, n));
        b = b + 1;
        from = from + n;
    }
    h
}

/// A byte goes into the hash as the hash of sixty-four bits has it: crossed
/// with it, and the whole multiplied. Nothing hashes to the hash's own start.
pub proof fn law_a_byte_is_hashed(h: u64, byte: u64)
    ensures
        with_byte(h, byte) == ((h ^ byte) * 1099511628211) % 0x1_0000_0000_0000_0000,
        print_of(Seq::empty(), Seq::empty(), 0) == 14695981039346656037,
{
}

/// The bytes of a number are its digits to the base of two hundred and
/// fifty-six, the lowest first.
pub proof fn law_bytes_are_digits(v: u64)
    ensures
        byte_at(v, 0) == v % 256,
        byte_at(v, 1) == (v / 256) % 256,
        byte_at(v, 2) == (v / 65536) % 256,
        byte_at(v, 3) == (v / 16777216) % 256,
        byte_at(v, 4) == (v / 4294967296) % 256,
        byte_at(v, 5) == (v / 1099511627776) % 256,
        byte_at(v, 6) == (v / 281474976710656) % 256,
        byte_at(v, 7) == v / 72057594037927936,
{
    assert((v >> 0u64) & 0xff == v % 256) by (bit_vector);
    assert((v >> 8u64) & 0xff == (v / 256) % 256) by (bit_vector);
    assert((v >> 16u64) & 0xff == (v / 65536) % 256) by (bit_vector);
    assert((v >> 24u64) & 0xff == (v / 16777216) % 256) by (bit_vector);
    assert((v >> 32u64) & 0xff == (v / 4294967296) % 256) by (bit_vector);
    assert((v >> 40u64) & 0xff == (v / 1099511627776) % 256) by (bit_vector);
    assert((v >> 48u64) & 0xff == (v / 281474976710656) % 256) by (bit_vector);
    assert((v >> 56u64) & 0xff == v / 72057594037927936) by (bit_vector);
}

/// A number goes into the hash byte by byte, all eight, the lowest first.
pub proof fn law_a_number_is_hashed_lowest_first(h: u64, v: u64)
    ensures
        with_bytes(h, v, 8) == with_byte(
            with_byte(
                with_byte(
                    with_byte(
                        with_byte(
                            with_byte(with_byte(with_byte(h, byte_at(v, 0)), byte_at(v, 1)), byte_at(v, 2)),
                            byte_at(v, 3),
                        ),
                        byte_at(v, 4),
                    ),
                    byte_at(v, 5),
                ),
                byte_at(v, 6),
            ),
            byte_at(v, 7),
        ),
{
    reveal_with_fuel(with_bytes, 9);
}

/// The signs change from one side of nought to the other, and only there; a
/// block crosses nought as often as its neighbours do.
pub proof fn law_crossings_are_changes_of_sign(s: Seq<Single>, from: int, n: int)
    requires
        0 <= from,
        2 <= n,
        from + n <= s.len(),
        s[from + n - 2].number(),
        s[from + n - 1].number(),
    ensures
        crossings(s, from, 1) == 0,
        (s[from + n - 2].units() < 0) != (s[from + n - 1].units() < 0) ==> crossings(s, from, n) == crossings(
            s,
            from,
            n - 1,
        ) + 1,
        (s[from + n - 2].units() < 0) == (s[from + n - 1].units() < 0) ==> crossings(s, from, n) == crossings(
            s,
            from,
            n - 1,
        ),
{
}

/// The blocks cover the samples: each of a thousand and twenty-four but the
/// last, which has what is left.
pub proof fn law_blocks_cover_the_samples(len: int, b: int)
    requires
        0 < len,
        0 <= b < block_count(len),
    ensures
        1024 * (block_count(len) - 1) < len <= 1024 * block_count(len),
        b < block_count(len) - 1 ==> block_len(len, b) == 1024,
        b == block_count(len) - 1 ==> block_len(len, b) == len - 1024 * b,
        1 <= block_len(len, b) <= 1024,
{
}

/// A block goes into the fingerprint by its level and then by its crossings.
pub proof fn law_a_block_is_printed_level_first(samples: Seq<Single>, levels: Seq<i64>, b: nat)
    ensures
        print_of(samples, levels, b + 1) == with_bytes(
            with_bytes(print_of(samples, levels, b), levels[b as int] as u64, 8),
            crossings(samples, 1024 * b as int, block_len(samples.len() as int, b as int)) as u64,
            8,
        ),
{
}

/// What is no number lies on no side of nought below it.
pub proof fn law_what_is_no_number_is_not_below(a: Single, b: Single)
    requires
        !a.number(),
    ensures
        crosses(a, b) <==> b.number() && b.units() < 0,
        crosses(b, a) <==> b.number() && b.units() < 0,
{
}

} // verus!
