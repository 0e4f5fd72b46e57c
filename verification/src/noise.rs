//! The deterministic draws: a hash for the seats of a section and a small
//! generator for every stochastic stream of a voice.

use vstd::prelude::*;
use vstd::arithmetic::div_mod::*;

verus! {

/// The 32-bit finaliser of MurmurHash3.
pub open spec fn mixed(h: u32) -> u32 {
    let a = h ^ (h >> 16);
    let b = a.wrapping_mul(0x85eb_ca6bu32);
    let c = b ^ (b >> 13);
    let d = c.wrapping_mul(0xc2b2_ae35u32);
    d ^ (d >> 16)
}

/// A 32-bit finaliser, so every bit of a small seat number reaches every bit
/// drawn from it.
pub fn mix32(h: u32) -> (r: u32)
    ensures
        r == mixed(h),
{
    let a: u32 = h ^ (h >> 16);
    let b: u32 = a.wrapping_mul(0x85eb_ca6b);
    let c: u32 = b ^ (b >> 13);
    let d: u32 = c.wrapping_mul(0xc2b2_ae35);
    d ^ (d >> 16)
}

/// Multiplying by an odd number loses nothing.
proof fn lemma_scaled_apart(x: u32, y: u32, c: u32, inverse: int, turns: int)
    requires
        c * inverse == turns * 0x1_0000_0000 + 1,
        x.wrapping_mul(c) == y.wrapping_mul(c),
    ensures
        x == y,
{
    let m = 0x1_0000_0000int;
    assert((x * c) % m == (y * c) % m);
    lemma_mod_equivalence(x * c, y * c, m);
    assert((x * c - y * c) % m == 0);
    let d = x - y;
    assert(x * c - y * c == d * c) by (nonlinear_arith)
        requires d == x - y;
    lemma_mul_mod_noop_left(d * c, inverse, m);
    assert(((d * c) * inverse) % m == 0) by {
        assert(0 * inverse == 0) by (nonlinear_arith);
    }
    assert((d * c) * inverse == m * (d * turns) + d) by (nonlinear_arith)
        requires c * inverse == turns * m + 1;
    lemma_mod_multiples_vanish(d * turns, d, m);
    assert(d % m == 0);
}

/// Two seats never share a hash: the finaliser is one to one.
pub proof fn law_mix_is_one_to_one(g: u32, h: u32)
    requires
        mixed(g) == mixed(h),
    ensures
        g == h,
{
    let (a1, a2) = (g ^ (g >> 16), h ^ (h >> 16));
    let (b1, b2) = (a1.wrapping_mul(0x85eb_ca6bu32), a2.wrapping_mul(0x85eb_ca6bu32));
    let (c1, c2) = (b1 ^ (b1 >> 13), b2 ^ (b2 >> 13));
    let (d1, d2) = (c1.wrapping_mul(0xc2b2_ae35u32), c2.wrapping_mul(0xc2b2_ae35u32));
    assert(d1 == d2) by (bit_vector)
        requires d1 ^ (d1 >> 16) == d2 ^ (d2 >> 16);
    lemma_scaled_apart(c1, c2, 0xc2b2_ae35u32, 2127672349, 1618177690);
    assert(b1 == b2) by (bit_vector)
        requires b1 ^ (b1 >> 13) == b2 ^ (b2 >> 13);
    lemma_scaled_apart(a1, a2, 0x85eb_ca6bu32, 2781581891, 1455126516);
    assert(g == h) by (bit_vector)
        requires g ^ (g >> 16) == h ^ (h >> 16);
}

/// One turn of the generator.
pub open spec fn turned(s: u32) -> u32 {
    let a = s ^ (s << 13);
    let b = a ^ (a >> 17);
    b ^ (b << 5)
}

/// A small, fast source of white noise.
#[derive(Clone, Copy, Debug, PartialEq, Eq, Structural)]
pub struct Noise {
    pub state: u32,
}

/// The state a seed starts a source at.
pub open spec fn seeded(seed: u32) -> Noise {
    Noise { state: seed | 1 }
}

impl Noise {
    /// A source that has not run out: a zero state would draw nothing but
    /// zeros from then on.
    pub open spec fn live(self) -> bool {
        self.state != 0
    }

    /// A source from a seed.
    pub fn new(seed: u32) -> (r: Noise)
        ensures
            r == seeded(seed),
            r.live(),
    {
        assert(seed | 1 != 0) by (bit_vector);
        Noise { state: seed | 1 }
    }

    /// The next draw, over the whole range of the state; a player reads it as
    /// a level between minus one and one.
    pub fn next(&mut self) -> (r: u32)
        ensures
            r == turned(old(self).state),
            final(self).state == r,
            old(self).live() ==> final(self).live(),
    {
        let s: u32 = self.state;
        let a: u32 = s ^ (s << 13);
        let b: u32 = a ^ (a >> 17);
        let c: u32 = b ^ (b << 5);
        proof {
            law_a_live_source_stays_live(s);
        }
        self.state = c;
        c
    }
}

/// A source that is live draws for ever: no turn leads to the zero state.
pub proof fn law_a_live_source_stays_live(s: u32)
    ensures
        s != 0 ==> turned(s) != 0,
{
    let a = s ^ (s << 13);
    let b = a ^ (a >> 17);
    assert(s != 0 ==> a != 0) by (bit_vector)
        requires a == s ^ (s << 13);
    assert(a != 0 ==> b != 0) by (bit_vector)
        requires b == a ^ (a >> 17);
    assert(b != 0 ==> b ^ (b << 5) != 0) by (bit_vector);
}

/// Two states never meet: the generator is one to one, so a stream repeats
/// only after it has come back to where it started.
pub proof fn law_streams_do_not_meet(s: u32, t: u32)
    requires
        turned(s) == turned(t),
    ensures
        s == t,
{
    let (a1, a2) = (s ^ (s << 13), t ^ (t << 13));
    let (b1, b2) = (a1 ^ (a1 >> 17), a2 ^ (a2 >> 17));
    assert(b1 == b2) by (bit_vector)
        requires b1 ^ (b1 << 5) == b2 ^ (b2 << 5);
    assert(a1 == a2) by (bit_vector)
        requires a1 ^ (a1 >> 17) == a2 ^ (a2 >> 17);
    assert(s == t) by (bit_vector)
        requires s ^ (s << 13) == t ^ (t << 13);
}

/// What a mixed number was before.
pub open spec fn unmixed(r: u32) -> u32 {
    let d = r ^ (r >> 16);
    let c = d.wrapping_mul(2127672349u32);
    let b = c ^ (c >> 13) ^ (c >> 26);
    let a = b.wrapping_mul(2781581891u32);
    a ^ (a >> 16)
}

/// A number is told from its mix: the two multipliers are undone by their
/// inverses and each shift by itself.
pub proof fn law_a_mix_can_be_undone(h: u32)
    ensures
        unmixed(mixed(h)) == h,
{
    let a = h ^ (h >> 16);
    let b = a.wrapping_mul(0x85eb_ca6bu32);
    let c = b ^ (b >> 13);
    let d = c.wrapping_mul(0xc2b2_ae35u32);
    let r = d ^ (d >> 16);
    assert(r ^ (r >> 16) == d) by (bit_vector)
        requires r == d ^ (d >> 16);
    lemma_unscaled(c, 0xc2b2_ae35u32, 2127672349u32, 1618177690);
    assert(c ^ (c >> 13) ^ (c >> 26) == b) by (bit_vector)
        requires c == b ^ (b >> 13);
    lemma_unscaled(a, 0x85eb_ca6bu32, 2781581891u32, 1455126516);
    assert(a ^ (a >> 16) == h) by (bit_vector)
        requires a == h ^ (h >> 16);
}

proof fn lemma_unscaled(x: u32, c: u32, inverse: u32, turns: int)
    requires
        c * inverse == turns * 0x1_0000_0000 + 1,
    ensures
        x.wrapping_mul(c).wrapping_mul(inverse) == x,
{
    let m = 0x1_0000_0000int;
    let y = x.wrapping_mul(c);
    assert(y == (x * c) % m);
    lemma_mul_mod_noop_left(x * c, inverse as int, m);
    assert((x * c) * inverse == m * (x * turns) + x) by (nonlinear_arith)
        requires c * inverse == turns * m + 1;
    lemma_mod_multiples_vanish(x * turns, x as int, m);
}

/// What a state was one turn before.
pub open spec fn unturned(c: u32) -> u32 {
    let b = c ^ (c << 5) ^ (c << 10) ^ (c << 15) ^ (c << 20) ^ (c << 25) ^ (c << 30);
    let a = b ^ (b >> 17);
    a ^ (a << 13) ^ (a << 26)
}

/// A turn can be taken back.
pub proof fn law_a_turn_can_be_taken_back(s: u32)
    ensures
        unturned(turned(s)) == s,
{
    let a = s ^ (s << 13);
    let b = a ^ (a >> 17);
    let c = b ^ (b << 5);
    assert(c ^ (c << 5) ^ (c << 10) ^ (c << 15) ^ (c << 20) ^ (c << 25) ^ (c << 30) == b) by (bit_vector)
        requires c == b ^ (b << 5);
    assert(b ^ (b >> 17) == a) by (bit_vector)
        requires b == a ^ (a >> 17);
    assert(a ^ (a << 13) ^ (a << 26) == s) by (bit_vector)
        requires a == s ^ (s << 13);
}

/// A source starts at its seed, or at the number after it where the seed is
/// even.
pub proof fn law_a_source_starts_odd(seed: u32)
    ensures
        seed % 2 == 1 ==> seeded(seed).state == seed,
        seed % 2 == 0 ==> seeded(seed).state == seed + 1,
{
    assert(seed % 2 == 1 ==> seed | 1 == seed) by (bit_vector);
    assert(seed % 2 == 0 ==> seed | 1 == seed + 1) by (bit_vector);
}

} // verus!
