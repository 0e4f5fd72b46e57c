//! The engine: which voices a command takes, releases, stops and re-seeds.
//!
//! The engine holds the voices, the keys that are down and the patch, and
//! answers one command at a time. What a command asks of the strings and the
//! bodies themselves it leaves as acts, in order, for the player that drives
//! them.

use vstd::prelude::*;
use crate::noise::mix32;
use crate::patch::{ArchetParam, ArchetPatch, PatchView};
use crate::single::{Single, THOUSANDTH, TWO};
use crate::strings::{inst_for, string_for};
use crate::voice::{is_heard, ArchetVoice, Attack, Seat, MAX_VOICES};

verus! {

/// Physical voices a bowed unison ever lights, whatever section size is asked
/// for: the number of independent players past which a section grows no
/// richer to the ear (Ternstroem).
pub const PHYS_CAP: u32 = 8;

/// Physical voices a plucked section lights per note.
pub const PLUCK_CAP: u32 = 4;

/// The largest section a patch can ask for: past the voices a note lights,
/// players add nothing the pool can render.
pub const PLAYERS_MAX: u32 = 32;

/// What an engine can be asked.
#[derive(Clone, Debug)]
pub enum ArchetCommand {
    NoteOn(u8, u8),
    /// Same-string legato: retune the sounding voice instead of starting a
    /// fresh bow stroke.
    NoteOnLegato(u8, u8),
    /// Detache bow change: reverse the bow on the sounding voice.
    BowChange(u8, u8),
    NoteOff(u8),
    AllNotesOff,
    PitchBend(Single),
    SetPolyphony(u8),
    SetOutputLevel(Single),
    LoadPatch(Box<ArchetPatch>),
    /// Set one named field of the patch: what a knob turn sends.
    SetParam { param: ArchetParam, value: Single },
}

/// What a command says.
pub enum CommandView {
    NoteOn(u8, u8),
    NoteOnLegato(u8, u8),
    BowChange(u8, u8),
    NoteOff(u8),
    AllNotesOff,
    PitchBend(Single),
    SetPolyphony(u8),
    SetOutputLevel(Single),
    LoadPatch(PatchView),
    SetParam { param: ArchetParam, value: Single },
}

impl View for ArchetCommand {
    type V = CommandView;

    open spec fn view(&self) -> CommandView {
        match *self {
            ArchetCommand::NoteOn(note, vel) => CommandView::NoteOn(note, vel),
            ArchetCommand::NoteOnLegato(note, vel) => CommandView::NoteOnLegato(note, vel),
            ArchetCommand::BowChange(note, vel) => CommandView::BowChange(note, vel),
            ArchetCommand::NoteOff(note) => CommandView::NoteOff(note),
            ArchetCommand::AllNotesOff => CommandView::AllNotesOff,
            ArchetCommand::PitchBend(bend) => CommandView::PitchBend(bend),
            ArchetCommand::SetPolyphony(p) => CommandView::SetPolyphony(p),
            ArchetCommand::SetOutputLevel(l) => CommandView::SetOutputLevel(l),
            ArchetCommand::LoadPatch(p) => CommandView::LoadPatch(p@),
            ArchetCommand::SetParam { param, value } => CommandView::SetParam { param, value },
        }
    }
}

/// What a command asks of the strings and bodies.
#[derive(Clone, Copy, Debug, PartialEq, Eq, Structural)]
pub enum Act {
    /// A fresh note on this voice.
    Strike { voice: usize, note: u8, vel: u8 },
    /// A slur on this voice.
    Slur { voice: usize, note: u8, vel: u8 },
    /// A bow reversal on this voice.
    Reverse { voice: usize, note: u8, vel: u8 },
    /// The bow leaves this voice, or the hand mutes it.
    Lift { voice: usize },
    /// The sympathetic strings are strung for this body.
    Restring { body: usize },
    /// Every stream of every voice has been re-seeded.
    Reseed,
}

/// The engine's control state.
pub struct ArchetEngine {
    pub voices: Vec<ArchetVoice>,
    /// The keys that are down. What a keyboard shows: a released note rings
    /// on, and a keyboard lit through its release reads as stuck.
    pub held_keys: Vec<u8>,
    pub patch: ArchetPatch,
    /// The note-on counter.
    pub note_seq: u64,
    /// The body the sympathetic strings are strung for.
    pub symp_inst: usize,
    /// The seed offset already applied to the voices.
    pub applied_seed: u32,
    /// Whether the patch has changed since it was last shown.
    pub patch_dirty: bool,
    /// Samples a section's attacks spread over.
    pub onset_max: u32,
    /// Samples a section's lifts spread over.
    pub release_max: u32,
    /// What the commands so far ask of the strings and bodies.
    pub acts: Vec<Act>,
}

/// The engine's control state, as its contracts speak of it.
#[verifier::ext_equal]
pub struct EngineView {
    pub voices: Seq<ArchetVoice>,
    pub held: Seq<u8>,
    pub patch: PatchView,
    pub seq: u64,
    pub symp_inst: usize,
    pub applied_seed: u32,
    pub dirty: bool,
    pub onset_max: u32,
    pub release_max: u32,
    pub acts: Seq<Act>,
}

impl View for ArchetEngine {
    type V = EngineView;

    open spec fn view(&self) -> EngineView {
        EngineView {
            voices: self.voices@,
            held: self.held_keys@,
            patch: self.patch@,
            seq: self.note_seq,
            symp_inst: self.symp_inst,
            applied_seed: self.applied_seed,
            dirty: self.patch_dirty,
            onset_max: self.onset_max,
            release_max: self.release_max,
            acts: self.acts@,
        }
    }
}

impl EngineView {
    /// Every voice in its place, none newer than the last note-on; no key
    /// down twice; a polyphony the pool can hold; and lifts no later than a
    /// voice can count to.
    pub open spec fn wf(self) -> bool {
        &&& self.voices.len() == MAX_VOICES
        &&& forall|i: int|
            0 <= i < MAX_VOICES ==> {
                &&& (#[trigger] self.voices[i]).voice_idx == i
                &&& self.voices[i].wf()
                &&& self.voices[i].on_seq <= self.seq
            }
        &&& self.held.no_duplicates()
        &&& self.symp_inst < 4
        &&& 1 <= self.patch.polyphony <= MAX_VOICES
        &&& self.release_max <= i32::MAX
    }
}

/// The most voices one note of a patch lights.
pub open spec fn voice_cap(p: PatchView) -> int {
    if p.pluck {
        PLUCK_CAP as int
    } else {
        PHYS_CAP as int
    }
}

/// The voices one note of a patch lights: one for a soloist, and for a
/// section its players to the nearest whole one, two at least and the cap at
/// most.
pub open spec fn players(p: PatchView) -> int {
    if !crate::patch::is_section(p) {
        1
    } else if p.ensemble.round_part(voice_cap(p)) < 2 {
        2
    } else {
        p.ensemble.round_part(voice_cap(p))
    }
}

/// The voices in use: the polyphony counts notes and each note lights its
/// players, up to all there are.
pub open spec fn pool_of(p: PatchView) -> int {
    let n = p.polyphony * players(p);
    if n < 1 {
        1
    } else if n > MAX_VOICES {
        MAX_VOICES as int
    } else {
        n
    }
}

/// Whether some voice of the pool is free.
pub open spec fn some_free(vs: Seq<ArchetVoice>, pool: int) -> bool {
    exists|j: int| 0 <= j < pool && !(#[trigger] vs[j]).active()
}

/// Whether some voice of the pool is lifting.
pub open spec fn some_lifting(vs: Seq<ArchetVoice>, pool: int) -> bool {
    exists|j: int| 0 <= j < pool && (#[trigger] vs[j]).releasing
}

/// Whether voice `i` is the first of the oldest among those of the pool that
/// are lifting, or among those that are not.
pub open spec fn oldest(vs: Seq<ArchetVoice>, pool: int, lifting: bool, i: int) -> bool {
    &&& 0 <= i < pool
    &&& vs[i].releasing == lifting
    &&& forall|j: int|
        #![trigger vs[j]]
        0 <= j < pool && vs[j].releasing == lifting ==> {
            &&& vs[i].on_seq <= vs[j].on_seq
            &&& j < i ==> vs[i].on_seq < vs[j].on_seq
        }
}

/// Whether voice `i` is the one a new note takes: the first free one, else
/// the oldest of those already lifting, else the oldest sounding.
pub open spec fn is_choice(vs: Seq<ArchetVoice>, pool: int, i: int) -> bool {
    if some_free(vs, pool) {
        &&& 0 <= i < pool
        &&& !vs[i].active()
        &&& forall|j: int| 0 <= j < i ==> (#[trigger] vs[j]).active()
    } else {
        oldest(vs, pool, some_lifting(vs, pool), i)
    }
}

/// The voice a new note takes.
pub open spec fn allocated(vs: Seq<ArchetVoice>, pool: int) -> int {
    choose|i: int| is_choice(vs, pool, i)
}

/// A new note takes one voice, and one only.
pub proof fn lemma_choice_unique(vs: Seq<ArchetVoice>, pool: int, i: int)
    requires
        is_choice(vs, pool, i),
    ensures
        i == allocated(vs, pool),
{
    let k = allocated(vs, pool);
    assert(is_choice(vs, pool, k));
    if some_free(vs, pool) {
        if i < k {
            assert(vs[i].active());
        } else if k < i {
            assert(vs[k].active());
        }
    } else {
        assert(vs[i].on_seq == vs[k].on_seq);
    }
}

/// There is always a voice for a new note.
pub proof fn lemma_choice_exists(vs: Seq<ArchetVoice>, pool: int)
    requires
        0 < pool <= vs.len(),
    ensures
        is_choice(vs, pool, allocated(vs, pool)),
        0 <= allocated(vs, pool) < pool,
{
    if some_free(vs, pool) {
        let j = choose|j: int| 0 <= j < pool && !(#[trigger] vs[j]).active();
        let i = lemma_first_free(vs, j);
        assert(is_choice(vs, pool, i));
    } else {
        let lifting = some_lifting(vs, pool);
        if !lifting {
            assert(!vs[0].releasing);
        }
        let w = if lifting { choose|j: int| 0 <= j < pool && (#[trigger] vs[j]).releasing } else { 0 };
        let i = lemma_first_oldest(vs, pool, lifting, w);
        assert(is_choice(vs, pool, i));
    }
}

proof fn lemma_first_free(vs: Seq<ArchetVoice>, n: int) -> (i: int)
    requires
        0 <= n < vs.len(),
        !vs[n].active(),
    ensures
        0 <= i <= n,
        !vs[i].active(),
        forall|j: int| 0 <= j < i ==> (#[trigger] vs[j]).active(),
    decreases n,
{
    if exists|j: int| 0 <= j < n && !(#[trigger] vs[j]).active() {
        let j = choose|j: int| 0 <= j < n && !(#[trigger] vs[j]).active();
        lemma_first_free(vs, j)
    } else {
        n
    }
}

proof fn lemma_first_oldest(vs: Seq<ArchetVoice>, n: int, lifting: bool, w: int) -> (i: int)
    requires
        0 <= w < n <= vs.len(),
        vs[w].releasing == lifting,
    ensures
        oldest(vs, n, lifting, i),
    decreases n,
{
    if exists|j: int| 0 <= j < n - 1 && (#[trigger] vs[j]).releasing == lifting {
        let j = choose|j: int| 0 <= j < n - 1 && (#[trigger] vs[j]).releasing == lifting;
        let i = lemma_first_oldest(vs, n - 1, lifting, j);
        if vs[n - 1].releasing == lifting && vs[n - 1].on_seq < vs[i].on_seq {
            n - 1
        } else {
            i
        }
    } else {
        w
    }
}

impl ArchetEngine {
    pub open spec fn wf(&self) -> bool {
        self@.wf()
    }

    /// The voices one note lights on this patch.
    pub fn voices_per_note(&self) -> (r: usize)
        ensures
            r == players(self.patch@),
            1 <= r <= 8,
    {
        if self.patch.section() {
            let cap: u32 = if self.patch.pluck {
                PLUCK_CAP
            } else {
                PHYS_CAP
            };
            let n: u32 = self.patch.ensemble.rounded(cap);
            if n < 2 {
                2
            } else {
                n as usize
            }
        } else {
            1
        }
    }

    /// The voices in use.
    pub fn pool(&self) -> (r: usize)
        ensures
            r == pool_of(self.patch@),
            1 <= r <= MAX_VOICES,
    {
        let lit: usize = self.voices_per_note();
        proof {
            assert(self.patch.polyphony * lit <= 255 * 8) by (nonlinear_arith)
                requires self.patch.polyphony <= 255, lit <= 8;
        }
        let n: usize = self.patch.polyphony as usize * lit;
        if n < 1 {
            1
        } else if n > MAX_VOICES {
            MAX_VOICES
        } else {
            n
        }
    }

    /// The first of the oldest voices of the pool that are lifting, or that
    /// are not.
    fn oldest_voice(&self, pool: usize, lifting: bool) -> (r: Option<usize>)
        requires
            pool <= self.voices.len(),
        ensures
            match r {
                Some(i) => oldest(self.voices@, pool as int, lifting, i as int),
                None => forall|j: int| 0 <= j < pool ==> (#[trigger] self.voices@[j]).releasing != lifting,
            },
    {
        let mut best: Option<usize> = None;
        let mut i: usize = 0;
        while i < pool
            invariant
                i <= pool <= self.voices.len(),
                match best {
                    Some(b) => oldest(self.voices@, i as int, lifting, b as int),
                    None => forall|j: int| 0 <= j < i ==> (#[trigger] self.voices@[j]).releasing != lifting,
                },
            decreases pool - i,
        {
            if self.voices[i].releasing == lifting {
                match best {
                    Some(b) => {
                        if self.voices[i].on_seq < self.voices[b].on_seq {
                            best = Some(i);
                        }
                    },
                    None => {
                        best = Some(i);
                    },
                }
            }
            i = i + 1;
        }
        best
    }

    /// A voice for a new note: a free one, else the oldest of those already
    /// lifting, else the oldest sounding. Never a fixed index: a full pool
    /// would pile every player of a new note onto one voice.
    pub fn allocate_voice_idx(&self) -> (r: usize)
        requires
            self.wf(),
        ensures
            r == allocated(self.voices@, pool_of(self.patch@)),
            is_choice(self.voices@, pool_of(self.patch@), r as int),
            r < pool_of(self.patch@),
    {
        let pool: usize = self.pool();
        let mut i: usize = 0;
        while i < pool
            invariant
                i <= pool <= self.voices.len(),
                forall|j: int| 0 <= j < i ==> (#[trigger] self.voices@[j]).active(),
                pool == pool_of(self.patch@),
            decreases pool - i,
        {
            if !self.voices[i].is_active() {
                assert(some_free(self.voices@, pool as int));
                proof {
                    lemma_choice_unique(self.voices@, pool as int, i as int);
                }
                return i;
            }
            i = i + 1;
        }
        assert(!some_free(self.voices@, pool as int));
        if let Some(v) = self.oldest_voice(pool, true) {
            assert(self.voices@[v as int].releasing);
            proof {
                lemma_choice_unique(self.voices@, pool as int, v as int);
            }
            return v;
        }
        assert(!some_lifting(self.voices@, pool as int));
        match self.oldest_voice(pool, false) {
            Some(v) => {
                proof {
                    lemma_choice_unique(self.voices@, pool as int, v as int);
                }
                v
            },
            None => {
                assert(self.voices@[0].releasing);
                0
            },
        }
    }
}


/// A seat's hash: the same at every note, from the seat and the desk's seed.
pub open spec fn seat_hash(k: u32, seed: u32) -> u32 {
    crate::noise::mixed(k.wrapping_mul(40503).wrapping_add(seed.wrapping_mul(2654435761)))
}

/// A seat's draw: a sum of three, for a bell-shaped spread.
pub open spec fn seat_draw(k: u32, seed: u32) -> int {
    let h = seat_hash(k, seed);
    (h & 0x3ff) + ((h >> 10) & 0x3ff) + ((h >> 20) & 0x3ff)
}

/// The draws of the first `n` seats together.
pub open spec fn draws(n: nat, seed: u32) -> int
    decreases n,
{
    if n == 0 {
        0
    } else {
        draws((n - 1) as nat, seed) + seat_draw((n - 1) as u32, seed)
    }
}

/// How far seat `k` of `n` is tuned from the section's A.
pub open spec fn seat_offset(k: int, n: int, seed: u32) -> int {
    n * seat_draw(k as u32, seed) - draws(n as nat, seed)
}

/// Seat `k` of `n` on a desk with this seed.
pub open spec fn seat_of(k: int, n: int, seed: u32) -> Seat {
    Seat { place: k as usize, seats: n as usize, offset: seat_offset(k, n, seed) as i32 }
}

/// How late player `k` of a note lands: the first on time, the rest spread.
pub open spec fn onset_of(note: u8, k: int, seq: u64, spread: u32) -> usize {
    let event = (note as u32).wrapping_mul(2654435761).wrapping_add(
        (k as u32).wrapping_mul(40503),
    ).wrapping_add((seq % 0x1_0000_0000) as u32);
    if k == 0 || spread == 0 {
        0
    } else {
        ((event >> 5) % spread) as usize
    }
}

/// How late player `k` of a section lifts: the first at once, the rest
/// spread.
pub open spec fn lift_delay(section: bool, note: u8, k: int, seq: u64, spread: u32) -> int {
    let h = (note as u32).wrapping_mul(2654435761).wrapping_add(
        (k as u32).wrapping_mul(2246822519),
    ).wrapping_add((seq % 0x1_0000_0000) as u32);
    if section && k > 0 && spread > 0 {
        (h % spread) as int
    } else {
        0
    }
}

/// The offsets of the first `m` seats of `n` together.
pub open spec fn offsets(m: nat, n: int, seed: u32) -> int
    decreases m,
{
    if m == 0 {
        0
    } else {
        offsets((m - 1) as nat, n, seed) + seat_offset(m - 1, n, seed)
    }
}

/// The seats of a section are centred on its A: their offsets cancel.
pub proof fn law_a_section_is_centred(n: nat, seed: u32)
    ensures
        offsets(n, n as int, seed) == 0,
{
    lemma_offsets(n, n as int, seed);
}

proof fn lemma_offsets(m: nat, n: int, seed: u32)
    ensures
        offsets(m, n, seed) == n * draws(m, seed) - m * draws(n as nat, seed),
    decreases m,
{
    let all = draws(n as nat, seed);
    if m == 0 {
        assert(n * 0 == 0) by (nonlinear_arith);
        assert(0 * all == 0) by (nonlinear_arith);
    } else {
        lemma_offsets((m - 1) as nat, n, seed);
        let (d, x) = (draws((m - 1) as nat, seed), seat_draw((m - 1) as u32, seed));
        assert(n * (d + x) == n * d + n * x) by (nonlinear_arith);
        assert(m * all == (m - 1) * all + all) by (nonlinear_arith);
    }
}

pub(crate) proof fn lemma_draw_bound(k: u32, seed: u32)
    ensures
        0 <= seat_draw(k, seed) <= 3069,
{
    let h = seat_hash(k, seed);
    assert(h & 0x3ff <= 0x3ff) by (bit_vector);
    assert((h >> 10) & 0x3ff <= 0x3ff) by (bit_vector);
    assert((h >> 20) & 0x3ff <= 0x3ff) by (bit_vector);
}

pub(crate) proof fn lemma_draws_bound(n: nat, seed: u32)
    ensures
        0 <= draws(n, seed) <= 3069 * n,
    decreases n,
{
    if n > 0 {
        lemma_draws_bound((n - 1) as nat, seed);
        lemma_draw_bound((n - 1) as u32, seed);
    }
}

/// One seat's draw.
fn draw(k: u32, seed: u32) -> (r: u32)
    ensures
        r == seat_draw(k, seed),
        r <= 3069,
{
    let h: u32 = mix32(k.wrapping_mul(40503).wrapping_add(seed.wrapping_mul(2654435761)));
    proof {
        lemma_draw_bound(k, seed);
        assert(h & 0x3ff <= 0x3ff) by (bit_vector);
        assert((h >> 10) & 0x3ff <= 0x3ff) by (bit_vector);
        assert((h >> 20) & 0x3ff <= 0x3ff) by (bit_vector);
    }
    (h & 0x3ff) + ((h >> 10) & 0x3ff) + ((h >> 20) & 0x3ff)
}

/// Seat `k` of `n`, tuned as the desk's seed has it.
pub fn seat_for(k: usize, n: usize, seed: u32) -> (r: Seat)
    requires
        k < n <= 8,
    ensures
        r == seat_of(k as int, n as int, seed),
        r.offset == seat_offset(k as int, n as int, seed),
{
    let mut all: u32 = 0;
    let mut i: usize = 0;
    while i < n
        invariant
            i <= n <= 8,
            all == draws(i as nat, seed),
            all <= 3069 * i,
        decreases n - i,
    {
        all = all + draw(i as u32, seed);
        i = i + 1;
    }
    let own: u32 = draw(k as u32, seed);
    proof {
        assert(n * own <= 8 * 3069) by (nonlinear_arith)
            requires n <= 8, own <= 3069;
    }
    Seat { place: k, seats: n, offset: n as i32 * own as i32 - all as i32 }
}

/// Whether a finger landing on a string of a body, and the hand that plucks
/// it, ends what this voice rings: it is on that string, or on another of the
/// body with its key already up.
pub open spec fn ends_under(v: ArchetVoice, body: int, string: int) -> bool {
    &&& v.active()
    &&& v.on_string matches Some((b, s)) && b == body && (s == string || v.releasing)
}

/// The voices of the pool with a finger landing on a string.
pub open spec fn fingered(vs: Seq<ArchetVoice>, pool: int, body: int, string: int) -> Seq<ArchetVoice> {
    Seq::new(
        vs.len(),
        |i: int|
            if i < pool && ends_under(vs[i], body, string) {
                ArchetVoice { stopped: true, ..vs[i] }
            } else {
                vs[i]
            },
    )
}

impl EngineView {
    /// Voice `i`, as `v`, takes the newest note.
    pub open spec fn takes(self, i: int, v: ArchetVoice, note: u8, vel: u8) -> EngineView {
        EngineView {
            voices: self.voices.update(i, ArchetVoice { on_seq: self.seq, ..v.noted(note, vel, self.patch) }),
            acts: if v.must_fade() {
                self.acts
            } else {
                self.acts.push(Act::Strike { voice: i as usize, note, vel })
            },
            ..self
        }
    }

    /// The voice the next note takes.
    pub open spec fn next(self) -> int {
        allocated(self.voices, pool_of(self.patch))
    }

    /// The first `k` players of a section's note of `n` seated and struck.
    pub open spec fn unison(self, note: u8, vel: u8, n: int, k: nat) -> EngineView
        decreases k,
    {
        if k == 0 {
            self
        } else {
            let e = self.unison(note, vel, n, (k - 1) as nat);
            let v = e.voices[e.next()].seated(
                seat_of(k - 1, n, e.patch.seed_offset),
                onset_of(note, k - 1, e.seq, e.onset_max),
            );
            e.takes(e.next(), v, note, vel)
        }
    }

    /// A key pressed: the key is down, the note-on counted, and on a plucked
    /// patch the finger has landed.
    pub open spec fn pressed(self, note: u8) -> EngineView {
        let body = crate::strings::body_for(note, self.patch);
        EngineView {
            held: if self.held.contains(note) {
                self.held
            } else {
                self.held.push(note)
            },
            seq: (self.seq + 1) as u64,
            voices: if self.patch.pluck {
                fingered(self.voices, pool_of(self.patch), body, crate::strings::string_index(body, note))
            } else {
                self.voices
            },
            ..self
        }
    }

    /// A note-on: every player of a section, or the one voice of a soloist.
    pub open spec fn note_on(self, note: u8, vel: u8) -> EngineView {
        let e = self.pressed(note);
        if crate::patch::is_section(e.patch) {
            e.unison(note, vel, players(e.patch), players(e.patch) as nat)
        } else {
            e.takes(e.next(), e.voices[e.next()].seated(crate::voice::solo_seat(), 0), note, vel)
        }
    }
}

impl ArchetEngine {
    /// Voice `idx` takes the newest note.
    fn take(&mut self, idx: usize, note: u8, vel: u8)
        requires
            old(self).wf(),
            idx < MAX_VOICES,
        ensures
            final(self)@ == old(self)@.takes(idx as int, old(self)@.voices[idx as int], note, vel),
            final(self).wf(),
    {
        let mut v = self.voices[idx];
        let attack = v.note_on(note, vel, &self.patch);
        v.on_seq = self.note_seq;
        self.voices.set(idx, v);
        match attack {
            Attack::Struck => {
                self.acts.push(Act::Strike { voice: idx, note, vel });
            },
            Attack::Queued => {},
        }
        assert(self@ =~= old(self)@.takes(idx as int, old(self)@.voices[idx as int], note, vel));
    }

    /// Voice `idx`, with a player seated on it, takes the newest note.
    fn take_seated(&mut self, idx: usize, seat: Seat, onset: usize, note: u8, vel: u8)
        requires
            old(self).wf(),
            idx < MAX_VOICES,
        ensures
            final(self)@ == old(self)@.takes(
                idx as int,
                old(self)@.voices[idx as int].seated(seat, onset),
                note,
                vel,
            ),
            final(self).wf(),
    {
        let mut v = self.voices[idx];
        v.set_unison(seat, onset);
        self.voices.set(idx, v);
        self.take(idx, note, vel);
        assert(self@ =~= old(self)@.takes(idx as int, v, note, vel));
    }

    /// A section's note-on (Ternstroem, JASA, on unison frequency scatter;
    /// Meyer on orchestral sections): one note becomes several physical
    /// players, each with its own static tuning, its own onset and its own
    /// place. The cost is the count of voices, not of engines.
    fn fire_unison(&mut self, note: u8, vel: u8)
        requires
            old(self).wf(),
            0 < old(self).onset_max,
        ensures
            final(self)@ == old(self)@.unison(
                note,
                vel,
                players(old(self)@.patch),
                players(old(self)@.patch) as nat,
            ),
            final(self).wf(),
            final(self).patch@ == old(self).patch@,
    {
        let count: usize = self.voices_per_note();
        let ghost e0 = self@;
        let mut k: usize = 0;
        while k < count
            invariant
                k <= count <= 8,
                count == players(e0.patch),
                self.wf(),
                self@ == e0.unison(note, vel, count as int, k as nat),
                self@.patch == e0.patch,
                self@.seq == e0.seq,
                self@.onset_max == e0.onset_max,
                0 < e0.onset_max,
            decreases count - k,
        {
            let seat = seat_for(k, count, self.patch.seed_offset);
            let seq: u32 = (self.note_seq % 0x1_0000_0000) as u32;
            let event: u32 = (note as u32).wrapping_mul(2654435761).wrapping_add(
                (k as u32).wrapping_mul(40503),
            ).wrapping_add(seq);
            let onset: usize = if k == 0 {
                0
            } else {
                ((event >> 5) % self.onset_max) as usize
            };
            let idx: usize = self.allocate_voice_idx();
            self.take_seated(idx, seat, onset, note, vel);
            k = k + 1;
        }
    }

    /// The finger lands on a string of a plucked patch: end what rings there,
    /// and on the body's other strings what is already fading.
    fn land_finger(&mut self, note: u8)
        requires
            old(self).wf(),
        ensures
            final(self)@ == (EngineView {
                voices: fingered(
                    old(self)@.voices,
                    pool_of(old(self)@.patch),
                    crate::strings::body_for(note, old(self)@.patch),
                    crate::strings::string_index(crate::strings::body_for(note, old(self)@.patch), note),
                ),
                ..old(self)@
            }),
            final(self).wf(),
    {
        let inst: usize = inst_for(note, &self.patch);
        let (string, _, _) = string_for(inst, note);
        let pool: usize = self.pool();
        let ghost vs = self.voices@;
        let ghost after = fingered(vs, pool as int, inst as int, string as int);
        let mut i: usize = 0;
        while i < pool
            invariant
                i <= pool <= MAX_VOICES,
                vs == old(self)@.voices,
                vs.len() == MAX_VOICES,
                self@ == (EngineView { voices: self@.voices, ..old(self)@ }),
                self.voices.len() == MAX_VOICES,
                after == fingered(vs, pool as int, inst as int, string as int),
                forall|j: int| 0 <= j < i ==> #[trigger] self.voices@[j] == after[j],
                forall|j: int| i <= j < MAX_VOICES ==> #[trigger] self.voices@[j] == vs[j],
            decreases pool - i,
        {
            let mut v = self.voices[i];
            if let Some((b, s)) = v.on_string() {
                if v.is_active() && b == inst && (s == string || v.is_releasing()) {
                    v.stop_string();
                    self.voices.set(i, v);
                }
            }
            i = i + 1;
        }
        assert(self.voices@ =~= after);
    }

    /// Answer a note-on.
    fn note_on(&mut self, note: u8, vel: u8)
        requires
            old(self).wf(),
            old(self).note_seq < u64::MAX,
            crate::patch::is_section(old(self).patch@) ==> 0 < old(self).onset_max,
        ensures
            final(self)@ == old(self)@.note_on(note, vel),
            final(self).wf(),
    {
        let mut known: bool = false;
        let mut i: usize = 0;
        while i < self.held_keys.len()
            invariant
                i <= self.held_keys.len(),
                known == exists|j: int| 0 <= j < i && self.held_keys@[j] == note,
            decreases self.held_keys.len() - i,
        {
            if self.held_keys[i] == note {
                known = true;
            }
            i = i + 1;
        }
        assert(known == self.held_keys@.contains(note));
        if !known {
            self.held_keys.push(note);
        }
        self.note_seq = self.note_seq + 1;
        if self.patch.pluck {
            self.land_finger(note);
        }
        assert(self@ =~= old(self)@.pressed(note));
        if self.patch.section() {
            self.fire_unison(note, vel);
        } else {
            let idx: usize = self.allocate_voice_idx();
            self.take_seated(idx, Seat { place: 0, seats: 1, offset: 0 }, 0, note, vel);
        }
    }
}


/// Whether a slur or a bow change can go to this voice: it sounds.
pub open spec fn sounding(v: ArchetVoice) -> bool {
    v.active() && crate::voice::heard(v.energy)
}

/// Whether voice `i` is the last of the loudest sounding in the pool.
pub open spec fn loudest(vs: Seq<ArchetVoice>, pool: int, i: int) -> bool {
    &&& 0 <= i < pool
    &&& sounding(vs[i])
    &&& forall|j: int|
        #![trigger vs[j]]
        0 <= j < pool && sounding(vs[j]) ==> {
            &&& vs[j].energy.units() <= vs[i].energy.units()
            &&& i < j ==> vs[j].energy.units() < vs[i].energy.units()
        }
}

/// Whether nothing in the pool sounds.
pub open spec fn quiet(vs: Seq<ArchetVoice>, pool: int) -> bool {
    forall|j: int| 0 <= j < pool ==> !sounding(#[trigger] vs[j])
}

/// The voice under the bow: the loudest sounding one.
pub open spec fn bowed(vs: Seq<ArchetVoice>, pool: int) -> int {
    choose|i: int| loudest(vs, pool, i)
}

/// One voice is the loudest, and one only.
pub proof fn lemma_loudest_unique(vs: Seq<ArchetVoice>, pool: int, i: int)
    requires
        loudest(vs, pool, i),
    ensures
        i == bowed(vs, pool),
{
    let k = bowed(vs, pool);
    assert(loudest(vs, pool, k));
    assert(vs[i].energy.units() == vs[k].energy.units());
}

/// Where something sounds, one voice is the loudest.
pub proof fn lemma_loudest_exists(vs: Seq<ArchetVoice>, pool: int)
    requires
        0 <= pool <= vs.len(),
        !quiet(vs, pool),
    ensures
        loudest(vs, pool, bowed(vs, pool)),
    decreases pool,
{
    if quiet(vs, pool - 1) {
        assert(loudest(vs, pool, pool - 1));
    } else {
        lemma_loudest_exists(vs, pool - 1);
        let b = bowed(vs, pool - 1);
        if sounding(vs[pool - 1]) && vs[b].energy.units() <= vs[pool - 1].energy.units() {
            assert(loudest(vs, pool, pool - 1));
        } else {
            assert(loudest(vs, pool, b));
        }
    }
}

/// The act a bow that stays on the string asks for.
pub open spec fn bow_act(reverse: bool, i: int, note: u8, vel: u8) -> Act {
    if reverse {
        Act::Reverse { voice: i as usize, note, vel }
    } else {
        Act::Slur { voice: i as usize, note, vel }
    }
}

impl EngineView {
    /// A slur or a bow change: the voice under the bow is retuned, and where
    /// nothing sounds a fresh stroke starts, a soloist's from the soloist's
    /// seat.
    pub open spec fn bow_on(self, note: u8, vel: u8, reverse: bool) -> EngineView {
        let pool = pool_of(self.patch);
        let e = EngineView { seq: (self.seq + 1) as u64, ..self };
        if quiet(e.voices, pool) {
            let v = e.voices[e.next()];
            if crate::patch::is_section(e.patch) {
                e.takes(e.next(), v, note, vel)
            } else {
                e.takes(e.next(), v.seated(crate::voice::solo_seat(), 0), note, vel)
            }
        } else {
            let i = bowed(e.voices, pool);
            EngineView {
                voices: e.voices.update(i, ArchetVoice { on_seq: e.seq, ..e.voices[i].retuned(note, vel, e.patch) }),
                acts: e.acts.push(bow_act(reverse, i, note, vel)),
                ..e
            }
        }
    }
}

impl ArchetEngine {
    /// The voice under the bow, where something sounds.
    fn bowed_voice(&self) -> (r: Option<usize>)
        requires
            self.wf(),
        ensures
            match r {
                Some(i) => {
                    &&& loudest(self.voices@, pool_of(self.patch@), i as int)
                    &&& i == bowed(self.voices@, pool_of(self.patch@))
                    &&& i < MAX_VOICES
                    &&& !quiet(self.voices@, pool_of(self.patch@))
                },
                None => quiet(self.voices@, pool_of(self.patch@)),
            },
    {
        let pool: usize = self.pool();
        let mut best: Option<usize> = None;
        let mut i: usize = 0;
        while i < pool
            invariant
                i <= pool <= self.voices.len(),
                match best {
                    Some(b) => loudest(self.voices@, i as int, b as int),
                    None => quiet(self.voices@, i as int),
                },
            decreases pool - i,
        {
            let v = self.voices[i];
            if v.is_active() && is_heard(v.level()) {
                match best {
                    Some(b) => {
                        if v.level().ge(self.voices[b].level()) {
                            best = Some(i);
                        }
                    },
                    None => {
                        best = Some(i);
                    },
                }
            }
            i = i + 1;
        }
        proof {
            if let Some(b) = best {
                lemma_loudest_unique(self.voices@, pool as int, b as int);
                assert(sounding(self.voices@[b as int]));
            }
        }
        best
    }

    /// Answer a slur or a bow change.
    fn bow_on(&mut self, note: u8, vel: u8, reverse: bool)
        requires
            old(self).wf(),
            old(self).note_seq < u64::MAX,
        ensures
            final(self)@ == old(self)@.bow_on(note, vel, reverse),
            final(self).wf(),
    {
        let best = self.bowed_voice();
        self.note_seq = self.note_seq + 1;
        match best {
            Some(i) => {
                let mut v = self.voices[i];
                if reverse {
                    v.bow_change(note, vel, &self.patch);
                    self.acts.push(Act::Reverse { voice: i, note, vel });
                } else {
                    v.note_on_legato(note, vel, &self.patch);
                    self.acts.push(Act::Slur { voice: i, note, vel });
                }
                v.on_seq = self.note_seq;
                self.voices.set(i, v);
                assert(self@ =~= old(self)@.bow_on(note, vel, reverse));
            },
            None => {
                let idx: usize = self.allocate_voice_idx();
                if self.patch.section() {
                    self.take(idx, note, vel);
                } else {
                    self.take_seated(idx, Seat { place: 0, seats: 1, offset: 0 }, 0, note, vel);
                }
            },
        }
    }
}

/// Whether a voice has this key down, and no note-off has come for it: a
/// voice that waits to lift already has its own.
pub open spec fn holds(v: ArchetVoice, note: u8) -> bool {
    v.note == Some(note) && v.release_delay == crate::voice::NO_LIFT
}

/// Whether `seq` is the oldest note-on with this key still down.
pub open spec fn oldest_on(vs: Seq<ArchetVoice>, note: u8, seq: u64) -> bool {
    &&& exists|i: int| 0 <= i < vs.len() && holds(#[trigger] vs[i], note) && vs[i].on_seq == seq
    &&& forall|i: int| 0 <= i < vs.len() && holds(#[trigger] vs[i], note) ==> seq <= vs[i].on_seq
}

/// The oldest note-on with this key still down.
pub open spec fn cluster(vs: Seq<ArchetVoice>, note: u8) -> u64 {
    choose|seq: u64| oldest_on(vs, note, seq)
}

/// Whether any voice still has this key down.
pub open spec fn held_by_some(vs: Seq<ArchetVoice>, note: u8) -> bool {
    exists|i: int| 0 <= i < vs.len() && holds(#[trigger] vs[i], note)
}

/// Whether a voice plays in a cluster.
pub open spec fn in_cluster(v: ArchetVoice, note: u8, seq: u64) -> bool {
    holds(v, note) && v.on_seq == seq
}

/// How many voices before the `n`th play in a cluster.
pub open spec fn rank(vs: Seq<ArchetVoice>, note: u8, seq: u64, n: int) -> int
    decreases n,
{
    if n <= 0 {
        0
    } else {
        rank(vs, note, seq, n - 1) + (if in_cluster(vs[n - 1], note, seq) { 1int } else { 0 })
    }
}

/// The keys that are down once one is up.
pub open spec fn without(keys: Seq<u8>, note: u8) -> Seq<u8> {
    keys.filter(|k: u8| k != note)
}

impl EngineView {
    /// How late voice `i` of a cluster lifts.
    pub open spec fn lift_of(self, note: u8, seq: u64, i: int) -> int {
        lift_delay(
            crate::patch::is_section(self.patch),
            note,
            rank(self.voices, note, seq, i),
            seq,
            self.release_max,
        )
    }

    /// The voices with one cluster let go.
    pub open spec fn let_go(self, note: u8, seq: u64) -> Seq<ArchetVoice> {
        Seq::new(
            self.voices.len(),
            |i: int|
                if in_cluster(self.voices[i], note, seq) {
                    self.voices[i].scheduled(self.lift_of(note, seq, i))
                } else {
                    self.voices[i]
                },
        )
    }

    /// The lifts that fall at once among the first `n` voices.
    pub open spec fn lifts(self, note: u8, seq: u64, n: int) -> Seq<Act>
        decreases n,
    {
        if n <= 0 {
            Seq::empty()
        } else {
            let before = self.lifts(note, seq, n - 1);
            if in_cluster(self.voices[n - 1], note, seq) && self.lift_of(note, seq, n - 1) <= 0 {
                before.push(Act::Lift { voice: (n - 1) as usize })
            } else {
                before
            }
        }
    }

    /// A key up: the oldest cluster of its pitch still down is let go, one
    /// off pairing with one on; a fresher one of the same pitch stays.
    pub open spec fn note_off(self, note: u8) -> EngineView {
        let e = EngineView { held: without(self.held, note), ..self };
        if held_by_some(self.voices, note) {
            let seq = cluster(self.voices, note);
            EngineView {
                voices: self.let_go(note, seq),
                acts: self.acts + self.lifts(note, seq, MAX_VOICES as int),
                ..e
            }
        } else {
            e
        }
    }

    /// Every key up, every voice released.
    pub open spec fn all_notes_off(self) -> EngineView {
        EngineView {
            held: Seq::empty(),
            voices: Seq::new(self.voices.len(), |i: int| self.voices[i].released()),
            acts: self.acts + Seq::new(
                MAX_VOICES as nat,
                |i: int| Act::Lift { voice: i as usize },
            ),
            ..self
        }
    }
}

proof fn lemma_cluster_unique(vs: Seq<ArchetVoice>, note: u8, seq: u64)
    requires
        oldest_on(vs, note, seq),
    ensures
        seq == cluster(vs, note),
{
    assert(oldest_on(vs, note, cluster(vs, note)));
}

proof fn lemma_rank_bound(vs: Seq<ArchetVoice>, note: u8, seq: u64, n: int)
    requires
        0 <= n,
    ensures
        0 <= rank(vs, note, seq, n) <= n,
    decreases n,
{
    if n > 0 {
        lemma_rank_bound(vs, note, seq, n - 1);
    }
}

impl ArchetEngine {
    /// Forget a key that was down.
    fn forget_key(&mut self, note: u8)
        ensures
            final(self)@ == (EngineView { held: without(old(self)@.held, note), ..old(self)@ }),
    {
        let mut kept: Vec<u8> = Vec::new();
        let mut i: usize = 0;
        proof {
            reveal(Seq::filter);
        }
        while i < self.held_keys.len()
            invariant
                i <= self.held_keys.len(),
                kept@ == without(self.held_keys@.take(i as int), note),
                self@ == old(self)@,
            decreases self.held_keys.len() - i,
        {
            let k: u8 = self.held_keys[i];
            proof {
                reveal(Seq::filter);
                assert(self.held_keys@.take(i + 1).drop_last() =~= self.held_keys@.take(i as int));
                assert(self.held_keys@.take(i + 1).last() == k);
            }
            if k != note {
                kept.push(k);
            }
            i = i + 1;
        }
        assert(self.held_keys@.take(i as int) =~= self.held_keys@);
        self.held_keys = kept;
    }

    /// The oldest note-on with this key still down.
    fn oldest_cluster(&self, note: u8) -> (r: Option<u64>)
        ensures
            match r {
                Some(seq) => held_by_some(self.voices@, note) && oldest_on(self.voices@, note, seq),
                None => !held_by_some(self.voices@, note),
            },
    {
        let mut best: Option<u64> = None;
        let mut i: usize = 0;
        while i < self.voices.len()
            invariant
                i <= self.voices.len(),
                match best {
                    Some(seq) => {
                        &&& exists|j: int|
                            0 <= j < i && holds(#[trigger] self.voices@[j], note) && self.voices@[j].on_seq == seq
                        &&& forall|j: int|
                            0 <= j < i && holds(#[trigger] self.voices@[j], note) ==> seq <= self.voices@[j].on_seq
                    },
                    None => forall|j: int| 0 <= j < i ==> !holds(#[trigger] self.voices@[j], note),
                },
            decreases self.voices.len() - i,
        {
            let v = self.voices[i];
            if v.is_held(note) {
                assert(holds(self.voices@[i as int], note));
                match best {
                    Some(seq) => {
                        if v.on_seq < seq {
                            best = Some(v.on_seq);
                        }
                    },
                    None => {
                        best = Some(v.on_seq);
                    },
                }
            }
            i = i + 1;
        }
        best
    }

    /// Answer a note-off.
    fn note_off(&mut self, note: u8)
        requires
            old(self).wf(),
            crate::patch::is_section(old(self).patch@) ==> 0 < old(self).release_max,
        ensures
            final(self)@ == old(self)@.note_off(note),
            final(self).wf(),
    {
        self.forget_key(note);
        proof {
            lemma_without(old(self)@.held, note);
        }
        let ghost e = old(self)@;
        if let Some(seq) = self.oldest_cluster(note) {
            proof {
                lemma_cluster_unique(self.voices@, note, seq);
            }
            let ghost after = e.let_go(note, seq);
            let ens: bool = self.patch.section();
            let low: u32 = (seq % 0x1_0000_0000) as u32;
            let mut k: u32 = 0;
            let mut i: usize = 0;
            while i < MAX_VOICES
                invariant
                    i <= MAX_VOICES,
                    e.wf(),
                    after == e.let_go(note, seq),
                    ens == crate::patch::is_section(e.patch),
                    ens ==> 0 < e.release_max,
                    low == (seq % 0x1_0000_0000) as u32,
                    k == rank(e.voices, note, seq, i as int),
                    k <= i,
                    self.voices.len() == MAX_VOICES,
                    self@ == (EngineView {
                        voices: self@.voices,
                        acts: self@.acts,
                        held: self@.held,
                        ..e
                    }),
                    self@.held == without(e.held, note),
                    self@.acts == e.acts + e.lifts(note, seq, i as int),
                    forall|j: int| 0 <= j < i ==> #[trigger] self.voices@[j] == after[j],
                    forall|j: int| i <= j < MAX_VOICES ==> #[trigger] self.voices@[j] == e.voices[j],
                decreases MAX_VOICES - i,
            {
                let mut v = self.voices[i];
                assert(v == e.voices[i as int]);
                let hit: bool = v.is_held(note) && v.on_seq == seq;
                assert(hit == in_cluster(v, note, seq));
                if hit {
                    let d: i32 = if ens && k > 0 {
                        let h: u32 = (note as u32).wrapping_mul(2654435761).wrapping_add(
                            k.wrapping_mul(2246822519),
                        ).wrapping_add(low);
                        (h % self.release_max) as i32
                    } else {
                        0
                    };
                    assert(d == e.lift_of(note, seq, i as int));
                    v.schedule_release(d);
                    self.voices.set(i, v);
                    if d <= 0 {
                        self.acts.push(Act::Lift { voice: i });
                    }
                    k = k + 1;
                }
                i = i + 1;
                proof {
                    assert(self@.acts =~= e.acts + e.lifts(note, seq, i as int));
                }
            }
            assert(self.voices@ =~= after);
            assert(self@ =~= e.note_off(note));
        }
    }

    /// Answer an all-notes-off.
    fn all_notes_off(&mut self)
        requires
            old(self).wf(),
        ensures
            final(self)@ == old(self)@.all_notes_off(),
            final(self).wf(),
    {
        self.held_keys.clear();
        let ghost e = old(self)@;
        let mut i: usize = 0;
        while i < MAX_VOICES
            invariant
                i <= MAX_VOICES,
                e.wf(),
                self.voices.len() == MAX_VOICES,
                self@ == (EngineView { voices: self@.voices, acts: self@.acts, held: Seq::empty(), ..e }),
                self@.acts == e.acts + Seq::new(i as nat, |j: int| Act::Lift { voice: j as usize }),
                forall|j: int| 0 <= j < i ==> #[trigger] self.voices@[j] == e.voices[j].released(),
                forall|j: int| i <= j < MAX_VOICES ==> #[trigger] self.voices@[j] == e.voices[j],
            decreases MAX_VOICES - i,
        {
            let mut v = self.voices[i];
            v.note_off();
            self.voices.set(i, v);
            self.acts.push(Act::Lift { voice: i });
            i = i + 1;
            assert(self@.acts =~= e.acts + Seq::new(i as nat, |j: int| Act::Lift { voice: j as usize }));
        }
        assert(self@ =~= e.all_notes_off());
    }
}

/// Forgetting a key leaves the others as they were, each once, and the key
/// itself nowhere.
pub proof fn lemma_without(s: Seq<u8>, note: u8)
    requires
        s.no_duplicates(),
    ensures
        without(s, note).no_duplicates(),
        forall|x: u8| #[trigger] without(s, note).contains(x) <==> s.contains(x) && x != note,
    decreases s.len(),
{
    reveal(Seq::filter);
    let w = without(s, note);
    if s.len() > 0 {
        let t = s.drop_last();
        lemma_without(t, note);
        let f = without(t, note);
        assert(!t.contains(s.last()));
        assert(w =~= if s.last() != note { f.push(s.last()) } else { f });
        assert forall|x: u8| #[trigger] w.contains(x) <==> s.contains(x) && x != note by {
            if w.contains(x) {
                let i = choose|i: int| 0 <= i < w.len() && w[i] == x;
                if i < f.len() {
                    assert(f.contains(x));
                    let j = choose|j: int| 0 <= j < t.len() && t[j] == x;
                    assert(s[j] == x);
                } else {
                    assert(s[s.len() - 1] == x);
                }
            }
            if s.contains(x) && x != note {
                let j = choose|j: int| 0 <= j < s.len() && s[j] == x;
                if j < t.len() {
                    assert(t[j] == x);
                    assert(f.contains(x));
                    let i = choose|i: int| 0 <= i < f.len() && f[i] == x;
                    assert(w[i] == x);
                } else {
                    assert(w[w.len() - 1] == x);
                }
            }
        }
        assert(!f.contains(s.last()));
    }
}


/// A polyphony the pool can hold.
pub open spec fn fit_polyphony(p: u8) -> u8 {
    if p < 1 {
        1
    } else if p > MAX_VOICES {
        MAX_VOICES as u8
    } else {
        p
    }
}

/// A polyphony the pool can hold.
fn fitted(p: u8) -> (r: u8)
    ensures
        r == fit_polyphony(p),
{
    if p < 1 {
        1
    } else if p > 32 {
        32
    } else {
        p
    }
}

/// Every voice on a desk's own streams.
pub open spec fn reseeded(vs: Seq<ArchetVoice>, offset: u32) -> Seq<ArchetVoice> {
    Seq::new(
        vs.len(),
        |i: int|
            ArchetVoice {
                streams: crate::voice::desk_streams(vs[i].voice_idx as u32, offset),
                ..vs[i]
            },
    )
}

impl EngineView {
    /// The sympathetic strings follow the patch's body.
    pub open spec fn restrung(self) -> EngineView {
        let body = self.patch.instrument.index() as usize;
        if body != self.symp_inst {
            EngineView { symp_inst: body, acts: self.acts.push(Act::Restring { body }), ..self }
        } else {
            self
        }
    }

    /// The voices follow the patch's desk, where it names a new one.
    pub open spec fn resown(self) -> EngineView {
        let seed = self.patch.seed_offset;
        if seed != 0 && seed != self.applied_seed {
            EngineView {
                voices: reseeded(self.voices, seed),
                applied_seed: seed,
                acts: self.acts.push(Act::Reseed),
                ..self
            }
        } else {
            self
        }
    }

    /// A patch installed.
    pub open spec fn loaded(self, p: PatchView) -> EngineView {
        EngineView {
            patch: PatchView { polyphony: fit_polyphony(p.polyphony), ..p },
            dirty: true,
            ..self
        }.restrung().resown()
    }

    /// One field of the patch written. The voices are left alone, so a note
    /// being bowed is not interrupted.
    pub open spec fn param_set(self, param: ArchetParam, value: Single) -> EngineView {
        let e = EngineView { patch: crate::patch::applied(param, self.patch, value), dirty: true, ..self };
        if crate::patch::rebuilds(param) {
            e.restrung()
        } else {
            e
        }
    }

    /// What was asked handed over.
    pub open spec fn handed_over(self) -> EngineView {
        EngineView { acts: Seq::empty(), ..self }
    }

    /// The answer to a command.
    pub open spec fn answered(self, cmd: CommandView) -> EngineView {
        match cmd {
            CommandView::NoteOn(note, vel) => self.note_on(note, vel),
            CommandView::NoteOnLegato(note, vel) => self.bow_on(note, vel, false),
            CommandView::BowChange(note, vel) => self.bow_on(note, vel, true),
            CommandView::NoteOff(note) => self.note_off(note),
            CommandView::AllNotesOff => self.all_notes_off(),
            CommandView::PitchBend(_) => self,
            CommandView::SetPolyphony(p) => EngineView {
                patch: PatchView { polyphony: fit_polyphony(p), ..self.patch },
                dirty: true,
                ..self
            },
            CommandView::SetOutputLevel(l) => EngineView {
                patch: PatchView {
                    output_level: l.clamped(Single { bits: 0 }, Single { bits: TWO }),
                    ..self.patch
                },
                dirty: true,
                ..self
            },
            CommandView::LoadPatch(p) => self.loaded(p),
            CommandView::SetParam { param, value } => self.param_set(param, value),
        }
    }
}

impl ArchetEngine {
    /// String the sympathetic strings for the patch's body.
    fn restring(&mut self)
        requires
            old(self).wf(),
        ensures
            final(self)@ == old(self)@.restrung(),
            final(self).wf(),
    {
        let body: usize = self.patch.instrument.body_index();
        if body != self.symp_inst {
            self.symp_inst = body;
            self.acts.push(Act::Restring { body });
        }
    }

    /// Re-seed every voice for a desk.
    fn sow(&mut self, offset: u32)
        requires
            old(self).wf(),
        ensures
            final(self)@ == (EngineView { voices: reseeded(old(self)@.voices, offset), ..old(self)@ }),
            final(self).wf(),
    {
        let ghost e = self@;
        let mut i: usize = 0;
        while i < MAX_VOICES
            invariant
                i <= MAX_VOICES,
                e.wf(),
                self.voices.len() == MAX_VOICES,
                self@ == (EngineView { voices: self@.voices, ..e }),
                forall|j: int| 0 <= j < i ==> #[trigger] self.voices@[j] == reseeded(e.voices, offset)[j],
                forall|j: int| 0 <= j < i ==> (#[trigger] self.voices@[j]).streams.live(),
                forall|j: int| i <= j < MAX_VOICES ==> #[trigger] self.voices@[j] == e.voices[j],
            decreases MAX_VOICES - i,
        {
            let mut v = self.voices[i];
            v.reseed(offset);
            self.voices.set(i, v);
            i = i + 1;
        }
        assert(self.voices@ =~= reseeded(e.voices, offset));
    }

    /// Install a patch: clamp its polyphony to the pool, so an editor's
    /// mirror and the engine agree, string the sympathetic strings for its
    /// body, and re-seed the voices where it names another desk.
    pub fn load_patch(&mut self, p: ArchetPatch)
        requires
            old(self).wf(),
        ensures
            final(self)@ == old(self)@.loaded(p@),
            final(self).wf(),
    {
        self.patch = p;
        self.patch.polyphony = fitted(self.patch.polyphony);
        self.patch_dirty = true;
        self.restring();
        let seed: u32 = self.patch.seed_offset;
        if seed != 0 && seed != self.applied_seed {
            self.sow(seed);
            self.applied_seed = seed;
            self.acts.push(Act::Reseed);
        }
        assert(self@ =~= old(self)@.loaded(p@));
    }

    /// Write one field of the patch.
    fn set_param(&mut self, param: ArchetParam, value: Single)
        requires
            old(self).wf(),
        ensures
            final(self)@ == old(self)@.param_set(param, value),
            final(self).wf(),
    {
        param.apply(&mut self.patch, value);
        self.patch_dirty = true;
        if param.needs_symp_rebuild() {
            self.restring();
        }
    }

    /// Answer one command. What it asks of the strings and bodies is to be
    /// performed before the next one is answered, since a voice is free or
    /// taken by the levels the player reports. A section needs samples to
    /// spread its attacks and its lifts over.
    pub fn process_command(&mut self, cmd: ArchetCommand)
        requires
            old(self).wf(),
            cmd is NoteOn || cmd is NoteOnLegato || cmd is BowChange ==> old(self).note_seq
                < u64::MAX,
            cmd is NoteOn && crate::patch::is_section(old(self).patch@) ==> 0 < old(self).onset_max,
            cmd is NoteOff && crate::patch::is_section(old(self).patch@) ==> 0 < old(self).release_max,
        ensures
            final(self)@ == old(self)@.answered(cmd@),
            final(self).wf(),
    {
        match cmd {
            ArchetCommand::NoteOn(note, vel) => {
                self.note_on(note, vel);
            },
            ArchetCommand::NoteOnLegato(note, vel) => {
                self.bow_on(note, vel, false);
            },
            ArchetCommand::BowChange(note, vel) => {
                self.bow_on(note, vel, true);
            },
            ArchetCommand::NoteOff(note) => {
                self.note_off(note);
            },
            ArchetCommand::AllNotesOff => {
                self.all_notes_off();
            },
            ArchetCommand::PitchBend(_) => {},
            ArchetCommand::SetPolyphony(p) => {
                self.patch.polyphony = fitted(p);
                self.patch_dirty = true;
            },
            ArchetCommand::SetOutputLevel(l) => {
                proof {
                    crate::single::lemma_landmarks();
                }
                self.patch.output_level = l.clamp(Single { bits: 0 }, Single { bits: TWO });
                self.patch_dirty = true;
            },
            ArchetCommand::LoadPatch(p) => {
                self.load_patch(*p);
            },
            ArchetCommand::SetParam { param, value } => {
                self.set_param(param, value);
            },
        }
    }

    /// Hand over what the commands so far ask of the strings and bodies.
    pub fn take_acts(&mut self) -> (r: Vec<Act>)
        ensures
            r@ == old(self)@.acts,
            final(self)@ == old(self)@.handed_over(),
    {
        let mut r: Vec<Act> = Vec::new();
        std::mem::swap(&mut r, &mut self.acts);
        r
    }
}

/// Whether a rate that lies `by` from another counts as the same: less than a
/// thousandth.
pub open spec fn same_rate(by: Single) -> bool {
    by.number() && by.units() < Single::nearest(1, 1_000).units()
}

/// The voices of a fresh engine.
pub open spec fn fresh_voices() -> Seq<ArchetVoice> {
    Seq::new(MAX_VOICES as nat, |i: int| fresh_voice(i))
}

/// Voice `i` of a fresh engine: at rest.
pub open spec fn fresh_voice(i: int) -> ArchetVoice {
    ArchetVoice {
        voice_idx: i as usize,
        note: None,
        on_seq: 0,
        inst_idx: 0,
        on_string: None,
        stopped: false,
        releasing: false,
        onset_delay: 0,
        release_delay: crate::voice::NO_LIFT,
        seat: crate::voice::solo_seat(),
        energy: Single { bits: 0 },
        bow_force: Single { bits: 0 },
        stealing: false,
        steal_fade: Single::nearest(1, 1),
        steal_pending: None,
        pending_onset: 0,
        ctrl_counter: 0,
        modal_recalc: 0,
        streams: crate::voice::first_streams(i as u32),
    }
}

/// A fresh set of voices.
fn new_voices() -> (r: Vec<ArchetVoice>)
    ensures
        r@ == fresh_voices(),
        forall|i: int| 0 <= i < MAX_VOICES ==> (#[trigger] r@[i]).wf() && !r@[i].active(),
{
    let mut r: Vec<ArchetVoice> = Vec::new();
    let mut i: usize = 0;
    while i < MAX_VOICES
        invariant
            i <= MAX_VOICES,
            r.len() == i,
            forall|j: int| 0 <= j < i ==> #[trigger] r@[j] == fresh_voice(j),
            forall|j: int| 0 <= j < i ==> (#[trigger] r@[j]).wf() && !r@[j].active(),
        decreases MAX_VOICES - i,
    {
        r.push(ArchetVoice::new(i));
        i = i + 1;
    }
    assert(r@ =~= fresh_voices());
    r
}

impl EngineView {
    /// An engine at rest on the default patch.
    pub open spec fn fresh(onset_max: u32, release_max: u32) -> EngineView {
        EngineView {
            voices: fresh_voices(),
            held: Seq::empty(),
            patch: crate::patch::default_view(),
            seq: 0,
            symp_inst: 0,
            applied_seed: 0,
            dirty: true,
            onset_max,
            release_max,
            acts: Seq::empty(),
        }
    }

    /// An engine at another rate: every voice built anew, on the streams of
    /// the patch's desk, with no key down.
    pub open spec fn rerated(self, onset_max: u32, release_max: u32) -> EngineView {
        EngineView {
            voices: if self.patch.seed_offset == 0 {
                fresh_voices()
            } else {
                reseeded(fresh_voices(), self.patch.seed_offset)
            },
            applied_seed: self.patch.seed_offset,
            held: Seq::empty(),
            dirty: true,
            onset_max,
            release_max,
            ..self
        }
    }
}

impl ArchetEngine {
    /// An engine at rest on the default patch. A section's attacks spread
    /// over `onset_max` samples and its lifts over `release_max`.
    pub fn new(onset_max: u32, release_max: u32) -> (r: ArchetEngine)
        requires
            release_max <= i32::MAX,
        ensures
            r@ == EngineView::fresh(onset_max, release_max),
            r.wf(),
    {
        ArchetEngine {
            voices: new_voices(),
            held_keys: Vec::new(),
            patch: ArchetPatch::default(),
            note_seq: 0,
            symp_inst: 0,
            applied_seed: 0,
            patch_dirty: true,
            onset_max,
            release_max,
            acts: Vec::new(),
        }
    }

    /// Follow the host to a rate that lies `by` from the one before. Under a
    /// thousandth nothing moves; otherwise everything that holds a rate is
    /// built again, so a re-rated engine sounds the same as a fresh one. The
    /// result says which.
    pub fn set_sample_rate(&mut self, by: Single, onset_max: u32, release_max: u32) -> (r: bool)
        requires
            old(self).wf(),
            release_max <= i32::MAX,
        ensures
            r == !same_rate(by),
            final(self)@ == (if r { old(self)@.rerated(onset_max, release_max) } else { old(self)@ }),
            final(self).wf(),
    {
        proof {
            crate::single::lemma_small_landmarks();
        }
        if by.lt(Single { bits: THOUSANDTH }) {
            return false;
        }
        self.voices = new_voices();
        self.held_keys.clear();
        self.patch_dirty = true;
        self.onset_max = onset_max;
        self.release_max = release_max;
        let seed: u32 = self.patch.seed_offset;
        self.applied_seed = seed;
        if seed != 0 {
            self.sow(seed);
        }
        true
    }
}

} // verus!
