//! What an engine looks at once per block: whether anything sounds, which open
//! strings are taken, how low the lowest note is, and where the frames of a
//! block lie.

use vstd::prelude::*;
use crate::engine::{ArchetEngine, EngineView};
use crate::fader::LOOKAHEAD;
use crate::single::{Single, INFINITE};

verus! {

/// How many of the first `n` voices are taken.
pub open spec fn taken(e: EngineView, n: int) -> int
    decreases n,
{
    if n <= 0 {
        0
    } else {
        taken(e, n - 1) + (if e.voices[n - 1].active() { 1int } else { 0 })
    }
}

/// Whether a plucked note of the pool is on this open string right now.
pub open spec fn occupied(e: EngineView, string: int) -> bool {
    exists|i: int|
        0 <= i < crate::engine::pool_of(e.patch) && (#[trigger] e.voices[i]).active() && e.voices[i].on_string
            == Some((e.symp_inst, string as usize))
}

/// Whether a plucked note of the pool has its key down.
pub open spec fn key_down(e: EngineView) -> bool {
    exists|i: int|
        0 <= i < crate::engine::pool_of(e.patch) && (#[trigger] e.voices[i]).on_string is Some
            && e.voices[i].note is Some
}

/// Whether an open string is not free to ring in sympathy: a note is on it,
/// or no key is down on a plucked patch and the hand rests on the strings.
pub open spec fn muted(e: EngineView, string: int) -> bool {
    (e.patch.pluck && !key_down(e)) || occupied(e, string)
}

impl ArchetEngine {
    /// How many voices of the pool sound.
    pub fn voice_count(&self) -> (r: usize)
        requires
            self.wf(),
        ensures
            r == taken(self@, crate::engine::pool_of(self.patch@)),
            r <= crate::engine::pool_of(self.patch@),
    {
        let pool: usize = self.pool();
        let mut r: usize = 0;
        let mut i: usize = 0;
        while i < pool
            invariant
                i <= pool <= self.voices.len(),
                r == taken(self@, i as int),
                r <= i,
            decreases pool - i,
        {
            if self.voices[i].is_active() {
                r = r + 1;
            }
            i = i + 1;
        }
        r
    }

    /// Whether any voice of the pool sounds.
    pub fn any_active(&self) -> (r: bool)
        requires
            self.wf(),
        ensures
            r == !at_rest(self@),
    {
        let pool: usize = self.pool();
        let mut i: usize = 0;
        while i < pool
            invariant
                i <= pool <= self.voices.len(),
                pool == crate::engine::pool_of(self.patch@),
                forall|j: int| 0 <= j < i ==> !(#[trigger] self@.voices[j]).active(),
            decreases pool - i,
        {
            if self.voices[i].is_active() {
                assert(self@.voices[i as int].active());
                return true;
            }
            i = i + 1;
        }
        false
    }

    /// The open strings that are not free to ring in sympathy: those a
    /// plucked note is on, and all of them where no key is down on a plucked
    /// patch; a held note or chord keeps its halo.
    pub fn held_strings(&self) -> (r: [bool; 4])
        requires
            self.wf(),
        ensures
            forall|s: int| 0 <= s < 4 ==> #[trigger] r@[s] == muted(self@, s),
    {
        let pool: usize = self.pool();
        let mut held: [bool; 4] = [false, false, false, false];
        let mut down: bool = false;
        let mut i: usize = 0;
        while i < pool
            invariant
                i <= pool <= self.voices.len(),
                self.wf(),
                pool == crate::engine::pool_of(self.patch@),
                forall|s: int|
                    0 <= s < 4 ==> #[trigger] held@[s] == exists|j: int|
                        0 <= j < i && (#[trigger] self@.voices[j]).active() && self@.voices[j].on_string == Some(
                            (self.symp_inst, s as usize),
                        ),
                down == exists|j: int|
                    0 <= j < i && (#[trigger] self@.voices[j]).on_string is Some && self@.voices[j].note is Some,
            decreases pool - i,
        {
            let v = self.voices[i];
            let ghost before = held@;
            assert(self@.voices[i as int].wf());
            if let Some((body, string)) = v.on_string() {
                if v.is_active() && body == self.symp_inst {
                    held[string] = true;
                }
                if v.note.is_some() {
                    down = true;
                }
            }
            proof {
                assert forall|s: int| 0 <= s < 4 implies #[trigger] held@[s] == exists|j: int|
                    0 <= j < i + 1 && (#[trigger] self@.voices[j]).active() && self@.voices[j].on_string == Some(
                        (self.symp_inst, s as usize),
                    ) by {
                    let hit = self@.voices[i as int].active() && self@.voices[i as int].on_string == Some(
                        (self.symp_inst, s as usize),
                    );
                    assert(held@[s] == (before[s] || hit));
                    if before[s] {
                        let j = choose|j: int|
                            0 <= j < i && (#[trigger] self@.voices[j]).active() && self@.voices[j].on_string
                                == Some((self.symp_inst, s as usize));
                        assert(0 <= j < i + 1);
                    }
                }
                assert(v == self@.voices[i as int]);
            }
            i = i + 1;
        }
        if self.patch.pluck && !down {
            return [true, true, true, true];
        }
        held
    }

    /// The lowest frequency sounding, of those the voices report; none where
    /// nothing sounds at a finite one.
    pub fn lowest(&self, hz: &Vec<Single>) -> (r: Option<Single>)
        requires
            self.wf(),
            hz.len() == self.voices.len(),
        ensures
            is_lowest(self@, hz@, r),
    {
        let pool: usize = self.pool();
        let mut best: Single = Single { bits: INFINITE };
        let mut found: bool = false;
        let mut i: usize = 0;
        while i < pool
            invariant
                i <= pool <= self.voices.len(),
                hz.len() == self.voices.len(),
                pool == crate::engine::pool_of(self.patch@),
                best.number(),
                best.units() <= (Single { bits: INFINITE }).units(),
                found ==> exists|j: int| #[trigger] sounds_at(self@, hz@, j) && j < i && hz@[j] == best,
                !found ==> best == (Single { bits: INFINITE }),
                forall|j: int| #[trigger] sounds_at(self@, hz@, j) && j < i ==> best.units() <= hz@[j].units(),
            decreases pool - i,
        {
            proof {
                if hz@[i as int].number() {
                    lemma_at_most_infinite(hz@[i as int]);
                }
            }
            if self.voices[i].is_active() && hz[i].lt(best) {
                best = hz[i];
                found = true;
                assert(sounds_at(self@, hz@, i as int));
            }
            i = i + 1;
        }
        let finite: bool = best.abs().bits < INFINITE;
        if finite {
            proof {
                if !found {
                    assert(best.low() == INFINITE);
                }
            }
            Some(best)
        } else {
            proof {
                if !best.negative() {
                    assert forall|k: int| #[trigger] sounds_at(self@, hz@, k) implies !hz@[k].finite() by {
                        if hz@[k].finite() {
                            lemma_finite_inside(hz@[k]);
                        }
                    }
                }
            }
            None
        }
    }
}

/// Whether voice `i` of the pool sounds at a frequency that is a number.
pub open spec fn sounds_at(e: EngineView, hz: Seq<Single>, i: int) -> bool {
    0 <= i < crate::engine::pool_of(e.patch) && e.voices[i].active() && hz[i].number()
}

/// Whether this is the lowest frequency sounding: the least of those the
/// voices report, where it is finite; and none where no voice reports a
/// finite one, or one reports a frequency below all of them.
pub open spec fn is_lowest(e: EngineView, hz: Seq<Single>, low: Option<Single>) -> bool {
    match low {
        Some(f) => {
            &&& f.finite()
            &&& exists|i: int| #[trigger] sounds_at(e, hz, i) && hz[i] == f
            &&& forall|i: int| #[trigger] sounds_at(e, hz, i) ==> f.units() <= hz[i].units()
        },
        None => {
            ||| forall|i: int| #[trigger] sounds_at(e, hz, i) ==> !hz[i].finite()
            ||| exists|i: int| #[trigger] sounds_at(e, hz, i) && hz[i].negative() && !hz[i].finite()
        },
    }
}

proof fn lemma_at_most_infinite(s: Single)
    requires
        s.number(),
    ensures
        s.units() <= (Single { bits: INFINITE }).units(),
{
    crate::single::lemma_steps_zero(s.low());
    crate::single::lemma_steps_zero(INFINITE as int);
    if s.low() < INFINITE {
        crate::single::lemma_steps_ordered(s.low(), INFINITE as int);
    }
}

proof fn lemma_finite_inside(s: Single)
    requires
        s.finite(),
    ensures
        s.units() < (Single { bits: INFINITE }).units(),
        -s.units() < (Single { bits: INFINITE }).units(),
{
    crate::single::lemma_steps_zero(s.low());
    crate::single::lemma_steps_ordered(s.low(), INFINITE as int);
}

/// How many whole frames a block of `len` samples holds.
pub open spec fn frame_count(len: int, channels: int) -> int {
    if channels == 0 {
        len
    } else {
        len / channels
    }
}

/// How many whole frames a block of `len` samples holds.
pub fn frames_of(len: usize, channels: usize) -> (r: usize)
    ensures
        r == frame_count(len as int, channels as int),
{
    if channels == 0 {
        len
    } else {
        len / channels
    }
}

/// Where a frame of the output goes.
#[derive(Clone, Copy, Debug, PartialEq, Eq, Structural)]
pub enum Spots {
    /// Left and right, at these two samples of the block.
    Stereo(usize, usize),
    /// The two together, at this one.
    Mono(usize),
    /// Nowhere: a block without channels.
    Nowhere,
}

/// Where frame `frame` of a block goes: the first two channels carry left and
/// right, and a single one carries both.
pub open spec fn spots(channels: int, frame: int) -> Spots {
    if channels >= 2 {
        Spots::Stereo((frame * channels) as usize, (frame * channels + 1) as usize)
    } else if channels == 1 {
        Spots::Mono(frame as usize)
    } else {
        Spots::Nowhere
    }
}

/// Where a frame of a block of `len` samples goes.
pub fn frame_spots(len: usize, channels: usize, frame: usize) -> (r: Spots)
    requires
        frame < frame_count(len as int, channels as int),
    ensures
        r == spots(channels as int, frame as int),
        match r {
            Spots::Stereo(left, right) => left == frame * channels && right == left + 1 && right < len,
            Spots::Mono(both) => both == frame && both < len,
            Spots::Nowhere => channels == 0,
        },
{
    if channels >= 2 {
        proof {
            law_every_frame_fits(len as int, channels as int, frame as int, 0);
            law_every_frame_fits(len as int, channels as int, frame as int, 1);
        }
        Spots::Stereo(frame * channels, frame * channels + 1)
    } else if channels == 1 {
        proof {
            law_every_frame_fits(len as int, 1, frame as int, 0);
        }
        Spots::Mono(frame)
    } else {
        Spots::Nowhere
    }
}

/// Every channel of every frame lies inside the block.
pub proof fn law_every_frame_fits(len: int, channels: int, frame: int, channel: int)
    requires
        0 <= len,
        0 < channels,
        0 <= frame < frame_count(len, channels),
        0 <= channel < channels,
    ensures
        0 <= frame * channels + channel < len,
{
    let q = len / channels;
    vstd::arithmetic::div_mod::lemma_fundamental_div_mod(len, channels);
    assert(frame * channels + channel < q * channels && 0 <= frame * channels) by (nonlinear_arith)
        requires 0 <= frame, frame + 1 <= q, 0 <= channel < channels;
    assert(q * channels == channels * q) by (nonlinear_arith);
}

/// What a block comes to.
#[derive(Clone, Copy, Debug, PartialEq, Eq)]
pub enum Block {
    /// Nothing sounds and nothing rings on: silence.
    Silent,
    /// The voices of the pool are rendered.
    Sound {
        /// How many voices are in use.
        pool: usize,
        /// How many of them one note lights, by whose root the sum is
        /// divided.
        lit: usize,
        /// The open strings that are not free to ring in sympathy.
        held: [bool; 4],
        /// The lowest frequency sounding, from which a peak is held.
        lowest: Option<Single>,
    },
}

/// Whether nothing of the pool sounds.
pub open spec fn at_rest(e: EngineView) -> bool {
    forall|i: int| 0 <= i < crate::engine::pool_of(e.patch) ==> !(#[trigger] e.voices[i]).active()
}

/// Whether this is what a block comes to.
pub open spec fn comes_to(e: EngineView, tail_rings: bool, hz: Seq<Single>, block: Block) -> bool {
    match block {
        Block::Silent => at_rest(e) && !tail_rings,
        Block::Sound { pool, lit, held, lowest } => {
            &&& !at_rest(e) || tail_rings
            &&& pool == crate::engine::pool_of(e.patch)
            &&& lit == crate::engine::players(e.patch)
            &&& forall|s: int| 0 <= s < 4 ==> #[trigger] held@[s] == muted(e, s)
            &&& is_lowest(e, hz, lowest)
        },
    }
}

impl ArchetEngine {
    /// Samples the output runs behind the notes: the fader's lookahead.
    pub const LATENCY: usize = LOOKAHEAD;

    /// What a block comes to once its commands are answered: silence where no
    /// voice of the pool sounds and the sympathetic strings have died away,
    /// whose halo must not cut off at rests.
    pub fn process_audio(&self, tail_rings: bool, hz: &Vec<Single>) -> (r: Block)
        requires
            self.wf(),
            hz.len() == self.voices.len(),
        ensures
            comes_to(self@, tail_rings, hz@, r),
    {
        if !self.any_active() && !tail_rings {
            return Block::Silent;
        }
        Block::Sound {
            pool: self.pool(),
            lit: self.voices_per_note(),
            held: self.held_strings(),
            lowest: self.lowest(hz),
        }
    }
}

/// The voices counted are those of the first `n` that are taken, each once.
pub proof fn law_every_taken_voice_is_counted(e: EngineView, n: int)
    requires
        0 <= n,
    ensures
        Set::new(|i: int| 0 <= i < n && e.voices[i].active()).finite(),
        Set::new(|i: int| 0 <= i < n && e.voices[i].active()).len() == taken(e, n),
    decreases n,
{
    let s = Set::new(|i: int| 0 <= i < n && e.voices[i].active());
    if n == 0 {
        assert(s =~= Set::<int>::empty());
    } else {
        law_every_taken_voice_is_counted(e, n - 1);
        let t = Set::new(|i: int| 0 <= i < n - 1 && e.voices[i].active());
        if e.voices[n - 1].active() {
            assert(s =~= t.insert(n - 1));
        } else {
            assert(s =~= t);
        }
    }
}

/// An open string is silent where a note of the pool is on it, and on a
/// plucked patch where the hand rests on all of them; otherwise it is free to
/// ring.
pub proof fn law_a_free_string_rings(e: EngineView, string: int, i: int)
    requires
        0 <= string < 4,
        0 <= i < crate::engine::pool_of(e.patch),
    ensures
        e.voices[i].active() && e.voices[i].on_string == Some((e.symp_inst, string as usize)) ==> muted(e, string),
        e.patch.pluck && (forall|j: int|
            0 <= j < crate::engine::pool_of(e.patch) ==> (#[trigger] e.voices[j]).on_string is None
                || e.voices[j].note is None) ==> muted(e, string),
        (forall|j: int|
            0 <= j < crate::engine::pool_of(e.patch) ==> !(#[trigger] e.voices[j]).active() || e.voices[j].on_string
                != Some((e.symp_inst, string as usize))) && (!e.patch.pluck || (e.voices[i].on_string is Some
            && e.voices[i].note is Some)) ==> !muted(e, string),
{
}

/// The lowest frequency is one that a taken voice of the pool reports, and no
/// such voice reports a lower one. Where a voice reports a finite frequency
/// and none is under every number, there is a lowest.
pub proof fn law_the_lowest_is_heard(e: EngineView, hz: Seq<Single>, low: Option<Single>, i: int)
    requires
        is_lowest(e, hz, low),
        0 <= i < crate::engine::pool_of(e.patch),
        e.voices[i].active(),
        hz[i].finite(),
    ensures
        low matches Some(f) ==> f.units() <= hz[i].units() && exists|j: int|
            0 <= j < crate::engine::pool_of(e.patch) && (#[trigger] e.voices[j]).active() && hz[j] == f,
        low is None ==> exists|j: int|
            0 <= j < crate::engine::pool_of(e.patch) && (#[trigger] e.voices[j]).active() && hz[j].negative(),
{
    assert(sounds_at(e, hz, i));
    match low {
        Some(f) => {
            let j = choose|j: int| #[trigger] sounds_at(e, hz, j) && hz[j] == f;
            assert(e.voices[j].active());
        },
        None => {
            let j = choose|j: int| #[trigger] sounds_at(e, hz, j) && hz[j].negative() && !hz[j].finite();
            assert(e.voices[j].active());
        },
    }
}

/// A block is cut into as many whole frames as it holds; the first two
/// channels of each are left and right, and a single one is both.
pub proof fn law_frames_are_whole(len: int, channels: int, frame: int)
    requires
        0 <= len <= usize::MAX,
        0 <= channels,
        0 <= frame < frame_count(len, channels),
    ensures
        channels > 0 ==> frame_count(len, channels) * channels <= len < (frame_count(len, channels) + 1) * channels,
        channels >= 2 ==> (spots(channels, frame) matches Spots::Stereo(l, r) && l == frame * channels && r == l + 1),
        channels == 1 ==> spots(channels, frame) == Spots::Mono(frame as usize),
        channels == 0 ==> spots(channels, frame) is Nowhere,
{
    if channels > 0 {
        let q = len / channels;
        assert(q * channels <= len < (q + 1) * channels) by (nonlinear_arith)
            requires q == len / channels, channels > 0;
    }
    if channels >= 2 {
        law_every_frame_fits(len, channels, frame, 1);
        assert(0 <= frame * channels) by (nonlinear_arith)
            requires frame >= 0, channels >= 0;
    }
}

/// A block is silent exactly where no voice of the pool is taken and no tail
/// rings; otherwise it renders the voices in use, as many as the polyphony's
/// notes light, and divides by those one note lights.
pub proof fn law_a_block_is_silent_at_rest(e: EngineView, tail_rings: bool, hz: Seq<Single>, block: Block, i: int)
    requires
        comes_to(e, tail_rings, hz, block),
    ensures
        tail_rings ==> block is Sound,
        0 <= i < crate::engine::pool_of(e.patch) && e.voices[i].active() ==> block is Sound,
        !tail_rings && (forall|j: int|
            0 <= j < crate::engine::pool_of(e.patch) ==> !(#[trigger] e.voices[j]).active()) ==> block is Silent,
        block matches Block::Sound { pool, lit, held, lowest } ==> {
            &&& 1 <= e.patch.polyphony && e.patch.polyphony * lit <= 32 ==> pool == e.patch.polyphony * lit
            &&& e.patch.polyphony * lit > 32 ==> pool == 32
            &&& !crate::patch::is_section(e.patch) ==> lit == 1
            &&& crate::patch::is_section(e.patch) ==> lit >= 2
            &&& 0 <= i < 4 ==> held@[i] == muted(e, i)
        },
        crate::engine::ArchetEngine::LATENCY == 32,
{
    if let Block::Sound { pool, lit, held, lowest } = block {
        assert(1 <= lit);
        assert(1 <= e.patch.polyphony ==> e.patch.polyphony * lit >= 1) by (nonlinear_arith)
            requires 1 <= lit;
    }
}

} // verus!
