//! What holds of the engine as a whole, whatever it has been asked so far.

use vstd::prelude::*;
use crate::engine::{CommandView, EngineView};
use crate::patch::{ArchetParam, PatchView};
use crate::single::Single;
use crate::voice::{ArchetVoice, MAX_VOICES};

verus! {

/// The voices that answered the newest note-on.
pub open spec fn newest(e: EngineView) -> Set<int> {
    Set::new(|i: int| 0 <= i < MAX_VOICES && e.voices[i].on_seq == e.seq)
}

/// Whether every voice is older than the newest note-on.
pub open spec fn all_older(e: EngineView) -> bool {
    forall|i: int| 0 <= i < MAX_VOICES ==> (#[trigger] e.voices[i]).on_seq < e.seq
}

/// What a note's players have come to: `k` of them, each on a voice of its
/// own in the pool, sounding the note from its own seat, and every other
/// voice left as it was.
pub open spec fn players_lit(before: EngineView, after: EngineView, note: u8, k: int) -> bool {
    let pool = crate::engine::pool_of(before.patch);
    &&& newest(after).finite()
    &&& newest(after).len() == k
    &&& after.voices.len() == MAX_VOICES
    &&& forall|i: int|
        0 <= i < MAX_VOICES && !newest(after).contains(i) ==> #[trigger] after.voices[i] == before.voices[i]
    &&& forall|i: int| #[trigger]
        newest(after).contains(i) ==> {
            &&& i < pool
            &&& after.voices[i].note == Some(note)
            &&& after.voices[i].release_delay == crate::voice::NO_LIFT
            &&& !after.voices[i].releasing
            &&& after.voices[i].active()
        }
}

pub(crate) proof fn lemma_takes(before: EngineView, e: EngineView, v: ArchetVoice, note: u8, vel: u8, k: int)
    requires
        before.voices.len() == MAX_VOICES,
        all_older(before),
        0 < crate::engine::pool_of(before.patch) <= MAX_VOICES,
        0 <= k < crate::engine::pool_of(before.patch),
        e.patch == before.patch,
        e.seq == before.seq,
        players_lit(before, e, note, k),
    ensures
        players_lit(before, e.takes(e.next(), v, note, vel), note, k + 1),
        !newest(e).contains(e.next()),
        newest(e.takes(e.next(), v, note, vel)) == newest(e).insert(e.next()),
        0 <= e.next() < crate::engine::pool_of(before.patch),
{
    let pool = crate::engine::pool_of(before.patch);
    crate::engine::lemma_choice_exists(e.voices, pool);
    let i = e.next();
    let a = e.takes(i, v, note, vel);
    if newest(e).contains(i) {
        // The voice chosen is neither free nor lifting, so it is the oldest
        // of the pool; but some voice of the pool is not yet lit.
        assert(!crate::engine::some_free(e.voices, pool));
        assert(!e.voices[i].releasing);
        assert(!crate::engine::some_lifting(e.voices, pool));
        lemma_some_older(before, e, note, k);
        let j = choose|j: int| 0 <= j < pool && !newest(e).contains(j);
        assert(e.voices[j] == before.voices[j]);
        assert(!e.voices[j].releasing);
        assert(e.voices[j].on_seq < e.seq);
    }
    assert(newest(a) =~= newest(e).insert(i));
}

/// Fewer voices than the pool holds leave one of them older.
proof fn lemma_some_older(before: EngineView, e: EngineView, note: u8, k: int)
    requires
        0 <= k < crate::engine::pool_of(before.patch),
        players_lit(before, e, note, k),
    ensures
        exists|j: int| 0 <= j < crate::engine::pool_of(before.patch) && !newest(e).contains(j),
{
    let pool = crate::engine::pool_of(before.patch);
    if forall|j: int| 0 <= j < pool ==> newest(e).contains(j) {
        let all = vstd::set_lib::set_int_range(0, pool);
        vstd::set_lib::lemma_int_range(0, pool);
        assert(all.subset_of(newest(e)));
        vstd::set_lib::lemma_len_subset(all, newest(e));
    }
}

pub(crate) proof fn lemma_unison(e: EngineView, note: u8, vel: u8, n: int, k: nat)
    requires
        e.voices.len() == MAX_VOICES,
        all_older(e),
        k <= n <= crate::engine::pool_of(e.patch) <= MAX_VOICES,
    ensures
        e.unison(note, vel, n, k).patch == e.patch,
        e.unison(note, vel, n, k).seq == e.seq,
        e.unison(note, vel, n, k).held == e.held,
        players_lit(e, e.unison(note, vel, n, k), note, k as int),
        forall|j: int|
            0 <= j < k ==> exists|i: int| #[trigger]
                newest(e.unison(note, vel, n, k)).contains(i) && e.unison(note, vel, n, k).voices[i].seat
                    == #[trigger] crate::engine::seat_of(j, n, e.patch.seed_offset),
    decreases k,
{
    if k == 0 {
        assert(newest(e) =~= Set::<int>::empty());
    } else {
        let d = e.unison(note, vel, n, (k - 1) as nat);
        lemma_unison(e, note, vel, n, (k - 1) as nat);
        let seat = crate::engine::seat_of(k - 1, n, e.patch.seed_offset);
        let v = d.voices[d.next()].seated(
            seat,
            crate::engine::onset_of(note, k - 1, d.seq, d.onset_max),
        );
        lemma_takes(e, d, v, note, vel, k - 1);
        let a = e.unison(note, vel, n, k);
        assert(a == d.takes(d.next(), v, note, vel));
        assert(a.voices[d.next()].seat == seat);
        assert(newest(a).contains(d.next()));
        assert forall|j: int| 0 <= j < k implies exists|i: int| #[trigger]
            newest(a).contains(i) && a.voices[i].seat == #[trigger] crate::engine::seat_of(
                j,
                n,
                e.patch.seed_offset,
            ) by {
            if j < k - 1 {
                let i = choose|i: int| #[trigger]
                    newest(d).contains(i) && d.voices[i].seat == crate::engine::seat_of(
                        j,
                        n,
                        e.patch.seed_offset,
                    );
                assert(newest(a).contains(i));
                assert(a.voices[i] == d.voices[i]);
            }
        }
    }
}

pub(crate) proof fn lemma_pressed(e: EngineView, note: u8)
    requires
        e.wf(),
        e.seq < u64::MAX,
    ensures
        e.pressed(note).voices.len() == MAX_VOICES,
        all_older(e.pressed(note)),
        1 <= crate::engine::players(e.patch) <= crate::engine::pool_of(e.patch) <= MAX_VOICES,
        crate::engine::players(e.patch) <= 8,
{
    let n = crate::engine::players(e.patch);
    crate::single::lemma_landmarks();
    let cap = crate::engine::voice_cap(e.patch);
    let u = e.patch.ensemble.units();
    assert(e.patch.ensemble.round_part(cap) <= cap) by {
        let o = crate::single::one();
        if e.patch.ensemble.number() && u >= 0 && u < cap * o {
            assert((2 * u + o) / (2 * o) < cap + 1) by (nonlinear_arith)
                requires u < cap * o, o > 0;
        }
    }
    assert(e.patch.polyphony * n >= n) by (nonlinear_arith)
        requires e.patch.polyphony >= 1, n >= 1;
}

proof fn lemma_noted(v: ArchetVoice, note: u8, vel: u8, p: PatchView)
    requires
        v.wf(),
    ensures
        v.noted(note, vel, p).wf(),
        v.retuned(note, vel, p).wf(),
{
}

proof fn lemma_takes_keeps(e: EngineView, i: int, v: ArchetVoice, note: u8, vel: u8)
    requires
        e.wf(),
        0 <= i < MAX_VOICES,
        v.wf(),
        v.voice_idx == i,
    ensures
        e.takes(i, v, note, vel).wf(),
{
    lemma_noted(v, note, vel, e.patch);
}

pub(crate) proof fn lemma_unison_keeps(e: EngineView, note: u8, vel: u8, n: int, k: nat)
    requires
        e.wf(),
    ensures
        e.unison(note, vel, n, k).wf(),
        e.unison(note, vel, n, k).patch == e.patch,
    decreases k,
{
    if k > 0 {
        lemma_unison_keeps(e, note, vel, n, (k - 1) as nat);
        let d = e.unison(note, vel, n, (k - 1) as nat);
        lemma_pressed_pool(d);
        crate::engine::lemma_choice_exists(d.voices, crate::engine::pool_of(d.patch));
        let v = d.voices[d.next()].seated(
            crate::engine::seat_of(k - 1, n, d.patch.seed_offset),
            crate::engine::onset_of(note, k - 1, d.seq, d.onset_max),
        );
        lemma_takes_keeps(d, d.next(), v, note, vel);
    }
}

/// Whatever an engine is asked, its voices stay in their places and in order,
/// no key is down twice, and its patch asks for no more than the pool holds.
#[verifier::rlimit(50)]
pub proof fn law_every_command_keeps_the_engine_sound(e: EngineView, cmd: CommandView)
    requires
        e.wf(),
        e.seq < u64::MAX,
    ensures
        e.answered(cmd).wf(),
        e.seq <= e.answered(cmd).seq <= e.seq + 1,
{
    lemma_pressed_pool(e);
    match cmd {
        CommandView::NoteOn(note, vel) => {
            law_a_note_lights_all_its_players(e, note, vel);
            let p = e.pressed(note);
            law_a_pressed_key_is_lit(e, note, vel, note);
            assert(p.wf());
            if crate::patch::is_section(p.patch) {
                let n = crate::engine::players(p.patch);
                lemma_unison_keeps(p, note, vel, n, n as nat);
            } else {
                crate::engine::lemma_choice_exists(p.voices, crate::engine::pool_of(p.patch));
                lemma_takes_keeps(p, p.next(), p.voices[p.next()].seated(crate::voice::solo_seat(), 0), note, vel);
            }
        },
        CommandView::NoteOnLegato(note, vel) => {
            lemma_bow_on(e, note, vel, false);
        },
        CommandView::BowChange(note, vel) => {
            lemma_bow_on(e, note, vel, true);
        },
        CommandView::NoteOff(note) => {
            lemma_note_off_keeps(e, note);
        },
        CommandView::LoadPatch(p) => {
            lemma_loaded_keeps(e, p);
        },
        _ => {},
    }
}

proof fn lemma_note_off_keeps(e: EngineView, note: u8)
    requires
        e.wf(),
    ensures
        e.note_off(note).wf(),
{
    crate::engine::lemma_without(e.held, note);
    assert forall|i: int| 0 <= i < MAX_VOICES implies (#[trigger] e.note_off(note).voices[i]).wf() by {
        law_one_off_pairs_with_one_on(e, note, i);
    }
}

proof fn lemma_loaded_keeps(e: EngineView, p: PatchView)
    requires
        e.wf(),
    ensures
        e.loaded(p).wf(),
{
    assert forall|i: int| 0 <= i < MAX_VOICES implies (#[trigger] e.loaded(p).voices[i]).wf() by {
        law_every_stream_runs(e.voices[i].voice_idx as u32, p.seed_offset);
    }
}

pub proof fn lemma_bow_on(e: EngineView, note: u8, vel: u8, reverse: bool)
    requires
        e.wf(),
        e.seq < u64::MAX,
    ensures
        e.bow_on(note, vel, reverse).wf(),
        e.bow_on(note, vel, reverse).held == e.held,
        forall|i: int|
            0 <= i < MAX_VOICES ==> #[trigger] e.bow_on(note, vel, reverse).voices[i] == e.voices[i] || (e.bow_on(
                note,
                vel,
                reverse,
            ).voices[i].note == Some(note) && e.bow_on(note, vel, reverse).voices[i].on_seq == e.seq + 1),
{
    let pool = crate::engine::pool_of(e.patch);
    let f = EngineView { seq: (e.seq + 1) as u64, ..e };
    lemma_pressed_pool(e);
    if crate::engine::quiet(f.voices, pool) {
        crate::engine::lemma_choice_exists(f.voices, pool);
        let v = f.voices[f.next()];
        lemma_takes_keeps(f, f.next(), v, note, vel);
        lemma_takes_keeps(f, f.next(), v.seated(crate::voice::solo_seat(), 0), note, vel);
    } else {
        crate::engine::lemma_loudest_exists(f.voices, pool);
        lemma_noted(f.voices[crate::engine::bowed(f.voices, pool)], note, vel, f.patch);
    }
}

/// A note lights all its players, each on a voice of its own: a full pool
/// never piles two players of a note onto one voice. No other voice changes
/// but for the finger of a plucked note.
pub proof fn law_a_note_lights_all_its_players(e: EngineView, note: u8, vel: u8)
    requires
        e.wf(),
        e.seq < u64::MAX,
    ensures
        players_lit(
            e.pressed(note),
            e.note_on(note, vel),
            note,
            crate::engine::players(e.patch),
        ),
        e.note_on(note, vel).seq == e.seq + 1,
        e.note_on(note, vel).patch == e.patch,
        e.note_on(note, vel).held == e.pressed(note).held,
{
    let p = e.pressed(note);
    lemma_pressed(e, note);
    let n = crate::engine::players(e.patch);
    if crate::patch::is_section(e.patch) {
        lemma_unison(p, note, vel, n, n as nat);
    } else {
        assert(newest(p) =~= Set::<int>::empty());
        let v = p.voices[p.next()].seated(crate::voice::solo_seat(), 0);
        lemma_takes(p, p, v, note, vel, 0);
    }
}

/// A keyboard shows the keys that are down: a pressed key is lit, once, and
/// no other key changes.
pub proof fn law_a_pressed_key_is_lit(e: EngineView, note: u8, vel: u8, key: u8)
    requires
        e.wf(),
        e.seq < u64::MAX,
    ensures
        e.note_on(note, vel).held.contains(note),
        e.note_on(note, vel).held.no_duplicates(),
        key != note ==> (e.note_on(note, vel).held.contains(key) <==> e.held.contains(key)),
{
    law_a_note_lights_all_its_players(e, note, vel);
    let held = e.pressed(note).held;
    if !e.held.contains(note) {
        assert(held[e.held.len() as int] == note);
        assert forall|k: u8| k != note implies (held.contains(k) <==> e.held.contains(k)) by {
            if e.held.contains(k) {
                let i = e.held.index_of(k);
                assert(held[i] == k);
            }
        }
    }
}

/// The seats of a section are the same at every note: whatever the note and
/// whatever came before it, each seat of the desk is taken, tuned as the
/// desk's seed has it.
pub proof fn law_a_section_keeps_its_seats(e: EngineView, note: u8, vel: u8, seat: int)
    requires
        e.wf(),
        e.seq < u64::MAX,
        crate::patch::is_section(e.patch),
        0 <= seat < crate::engine::players(e.patch),
    ensures
        exists|i: int| #[trigger]
            newest(e.note_on(note, vel)).contains(i) && e.note_on(note, vel).voices[i].seat
                == crate::engine::seat_of(seat, crate::engine::players(e.patch), e.patch.seed_offset),
{
    let p = e.pressed(note);
    lemma_pressed(e, note);
    let n = crate::engine::players(e.patch);
    lemma_unison(p, note, vel, n, n as nat);
    assert(0 <= seat < n as nat);
}

/// The seats of the voices before the `m`th that answered the newest note-on.
pub open spec fn seats_lit(e: EngineView, m: nat) -> vstd::multiset::Multiset<crate::voice::Seat>
    decreases m,
{
    if m == 0 {
        vstd::multiset::Multiset::empty()
    } else if e.voices[m - 1].on_seq == e.seq {
        seats_lit(e, (m - 1) as nat).insert(e.voices[m - 1].seat)
    } else {
        seats_lit(e, (m - 1) as nat)
    }
}

/// The first `k` seats of a desk of `n` with this seed.
pub open spec fn desk_seats(n: int, seed: u32, k: nat) -> vstd::multiset::Multiset<crate::voice::Seat>
    decreases k,
{
    if k == 0 {
        vstd::multiset::Multiset::empty()
    } else {
        desk_seats(n, seed, (k - 1) as nat).insert(crate::engine::seat_of(k - 1, n, seed))
    }
}

proof fn lemma_seats_taken(e: EngineView, i: int, v: ArchetVoice, note: u8, vel: u8, m: nat)
    requires
        m <= e.voices.len(),
        0 <= i < e.voices.len(),
        e.voices[i].on_seq != e.seq,
    ensures
        seats_lit(e.takes(i, v, note, vel), m) == (if i < m {
            seats_lit(e, m).insert(v.seat)
        } else {
            seats_lit(e, m)
        }),
    decreases m,
{
    if m > 0 {
        lemma_seats_taken(e, i, v, note, vel, (m - 1) as nat);
        let a = e.takes(i, v, note, vel);
        if m - 1 != i {
            assert(a.voices[m - 1] == e.voices[m - 1]);
            if i < m - 1 && e.voices[m - 1].on_seq == e.seq {
                let before = seats_lit(e, (m - 1) as nat);
                assert(before.insert(v.seat).insert(e.voices[m - 1].seat) =~= before.insert(
                    e.voices[m - 1].seat,
                ).insert(v.seat));
            }
        } else {
            assert(a.voices[m - 1].seat == v.seat);
        }
    }
}

proof fn lemma_unison_seats(e: EngineView, note: u8, vel: u8, n: int, k: nat)
    requires
        e.voices.len() == MAX_VOICES,
        all_older(e),
        k <= n <= crate::engine::pool_of(e.patch) <= MAX_VOICES,
    ensures
        seats_lit(e.unison(note, vel, n, k), MAX_VOICES as nat) == desk_seats(n, e.patch.seed_offset, k),
    decreases k,
{
    if k == 0 {
        lemma_none_lit(e, MAX_VOICES as nat);
    } else {
        let d = e.unison(note, vel, n, (k - 1) as nat);
        lemma_unison_seats(e, note, vel, n, (k - 1) as nat);
        lemma_unison(e, note, vel, n, (k - 1) as nat);
        let v = d.voices[d.next()].seated(
            crate::engine::seat_of(k - 1, n, e.patch.seed_offset),
            crate::engine::onset_of(note, k - 1, d.seq, d.onset_max),
        );
        lemma_takes(e, d, v, note, vel, k - 1);
        lemma_seats_taken(d, d.next(), v, note, vel, MAX_VOICES as nat);
    }
}

proof fn lemma_none_lit(e: EngineView, m: nat)
    requires
        e.voices.len() == MAX_VOICES,
        all_older(e),
        m <= MAX_VOICES,
    ensures
        seats_lit(e, m) == vstd::multiset::Multiset::<crate::voice::Seat>::empty(),
    decreases m,
{
    if m > 0 {
        lemma_none_lit(e, (m - 1) as nat);
        assert(e.voices[m - 1].on_seq < e.seq);
    }
}

/// A seat's intonation is the player's, not the note's: the seats a note of a
/// section lights are the seats of the desk, each as often as the desk has
/// it, so any two notes on one desk light the same ones.
pub proof fn law_every_note_lights_the_same_seats(
    e: EngineView,
    note: u8,
    vel: u8,
    later: EngineView,
    other: u8,
    force: u8,
)
    requires
        e.wf(),
        e.seq < u64::MAX,
        later.wf(),
        later.seq < u64::MAX,
        crate::patch::is_section(e.patch),
        crate::patch::is_section(later.patch),
        crate::engine::players(later.patch) == crate::engine::players(e.patch),
        later.patch.seed_offset == e.patch.seed_offset,
    ensures
        seats_lit(e.note_on(note, vel), MAX_VOICES as nat) == desk_seats(
            crate::engine::players(e.patch),
            e.patch.seed_offset,
            crate::engine::players(e.patch) as nat,
        ),
        seats_lit(later.note_on(other, force), MAX_VOICES as nat) == seats_lit(
            e.note_on(note, vel),
            MAX_VOICES as nat,
        ),
{
    let n = crate::engine::players(e.patch);
    lemma_pressed(e, note);
    lemma_unison_seats(e.pressed(note), note, vel, n, n as nat);
    lemma_pressed(later, other);
    lemma_unison_seats(later.pressed(other), other, force, n, n as nat);
}

/// An ordinary note is played from the soloist's seat, whoever sat on its
/// voice before: a note, and a slur or a bow change with nothing sounding to
/// go on from.
pub proof fn law_a_soloist_sits_alone(e: EngineView, note: u8, vel: u8, reverse: bool, i: int)
    requires
        e.wf(),
        e.seq < u64::MAX,
        !crate::patch::is_section(e.patch),
        0 <= i < MAX_VOICES,
    ensures
        newest(e.note_on(note, vel)).contains(i) ==> e.note_on(note, vel).voices[i].seat
            == crate::voice::solo_seat(),
        crate::engine::quiet(e.voices, crate::engine::pool_of(e.patch)) && newest(
            e.bow_on(note, vel, reverse),
        ).contains(i) ==> e.bow_on(note, vel, reverse).voices[i].seat == crate::voice::solo_seat(),
{
    lemma_pressed(e, note);
    lemma_pressed_pool(e);
    let p = e.pressed(note);
    let pool = crate::engine::pool_of(e.patch);
    crate::engine::lemma_choice_exists(p.voices, pool);
    assert(p.voices[i].on_seq < p.seq);
    let f = EngineView { seq: (e.seq + 1) as u64, ..e };
    crate::engine::lemma_choice_exists(f.voices, pool);
    assert(f.voices[i].on_seq < f.seq);
}

/// A note takes a sounding key's voice only where none is free and none is
/// lifting, and then the oldest.
pub proof fn law_a_held_note_gives_way_last(e: EngineView, i: int)
    requires
        e.wf(),
        i == e.next(),
        e.voices[i].active(),
        !e.voices[i].releasing,
    ensures
        forall|j: int|
            0 <= j < crate::engine::pool_of(e.patch) ==> {
                &&& (#[trigger] e.voices[j]).active()
                &&& !e.voices[j].releasing
                &&& e.voices[i].on_seq <= e.voices[j].on_seq
            },
{
    lemma_pressed_pool(e);
    let pool = crate::engine::pool_of(e.patch);
    crate::engine::lemma_choice_exists(e.voices, pool);
    assert(!crate::engine::some_free(e.voices, pool));
    assert(!crate::engine::some_lifting(e.voices, pool));
}

pub(crate) proof fn lemma_pressed_pool(e: EngineView)
    requires
        e.wf(),
    ensures
        1 <= crate::engine::pool_of(e.patch) <= MAX_VOICES,
{
}

/// One note-off pairs with one note-on: the oldest cluster of its pitch that
/// no note-off has come for is let go, every voice of it, and a fresher note
/// of the same pitch, like every other voice, stays as it is. The key is up.
pub proof fn law_one_off_pairs_with_one_on(e: EngineView, note: u8, i: int)
    requires
        e.wf(),
        0 <= i < MAX_VOICES,
    ensures
        !e.note_off(note).held.contains(note),
        forall|k: u8| k != note ==> (e.held.contains(k) <==> #[trigger] e.note_off(note).held.contains(k)),
        !crate::engine::holds(e.voices[i], note) ==> e.note_off(note).voices[i] == e.voices[i],
        crate::engine::holds(e.voices[i], note) ==> {
            let oldest = crate::engine::cluster(e.voices, note);
            let a = e.note_off(note).voices[i];
            &&& oldest <= e.voices[i].on_seq
            &&& e.voices[i].on_seq > oldest ==> a == e.voices[i]
            &&& e.voices[i].on_seq == oldest ==> {
                ||| a == e.voices[i].released()
                ||| a == (ArchetVoice { release_delay: a.release_delay, ..e.voices[i] }) && 0
                    < a.release_delay < e.release_max
            }
        },
{
    crate::engine::lemma_without(e.held, note);
    if crate::engine::holds(e.voices[i], note) {
        lemma_cluster_exists(e.voices, note, i);
    }
}

pub(crate) proof fn lemma_cluster_exists(vs: Seq<ArchetVoice>, note: u8, i: int)
    requires
        0 <= i < vs.len(),
        crate::engine::holds(vs[i], note),
    ensures
        crate::engine::oldest_on(vs, note, crate::engine::cluster(vs, note)),
    decreases vs[i].on_seq,
{
    if exists|j: int|
        0 <= j < vs.len() && crate::engine::holds(#[trigger] vs[j], note) && vs[j].on_seq < vs[i].on_seq {
        let j = choose|j: int|
            0 <= j < vs.len() && crate::engine::holds(#[trigger] vs[j], note) && vs[j].on_seq < vs[i].on_seq;
        lemma_cluster_exists(vs, note, j);
    } else {
        assert(crate::engine::oldest_on(vs, note, vs[i].on_seq));
    }
}

/// A note of a pitch that no voice still has down is let go whole by its
/// note-off: every player of it, and no other voice.
pub proof fn law_every_player_is_let_go(e: EngineView, note: u8, vel: u8, i: int)
    requires
        e.wf(),
        e.seq < u64::MAX,
        forall|j: int| 0 <= j < MAX_VOICES ==> !crate::engine::holds(#[trigger] e.voices[j], note),
        0 <= i < MAX_VOICES,
    ensures
        ({
            let a = e.note_on(note, vel);
            let b = a.note_off(note);
            if newest(a).contains(i) {
                b.voices[i] == a.voices[i].scheduled(a.lift_of(note, a.seq, i))
            } else {
                b.voices[i] == a.voices[i]
            }
        }),
{
    let p = e.pressed(note);
    let a = e.note_on(note, vel);
    law_a_note_lights_all_its_players(e, note, vel);
    assert forall|j: int| 0 <= j < MAX_VOICES implies (crate::engine::holds(#[trigger] a.voices[j], note) <==> newest(
        a,
    ).contains(j)) by {
        if !newest(a).contains(j) {
            assert(a.voices[j] == p.voices[j]);
            assert(p.voices[j].note == e.voices[j].note);
            assert(!crate::engine::holds(e.voices[j], note));
        }
    }
    if newest(a).contains(i) {
        assert(crate::engine::oldest_on(a.voices, note, a.seq)) by {
            assert(crate::engine::holds(a.voices[i], note));
        }
        let c = crate::engine::cluster(a.voices, note);
        assert(crate::engine::oldest_on(a.voices, note, c));
        assert(c == a.seq);
    } else {
        if crate::engine::held_by_some(a.voices, note) {
            assert(!crate::engine::in_cluster(a.voices[i], note, crate::engine::cluster(a.voices, note)));
        }
    }
}

/// The note-ons of a pitch that no note-off has come for yet.
pub open spec fn open_ons(vs: Seq<ArchetVoice>, note: u8) -> Set<u64> {
    Set::new(|seq: u64| exists|i: int| 0 <= i < vs.len() && crate::engine::in_cluster(#[trigger] vs[i], note, seq))
}

/// A note-on opens one cluster of its pitch, its own, and none of another
/// pitch.
pub proof fn law_a_note_on_opens_one(e: EngineView, note: u8, vel: u8, other: u8)
    requires
        e.wf(),
        e.seq < u64::MAX,
    ensures
        open_ons(e.note_on(note, vel).voices, note).subset_of(open_ons(e.voices, note).insert((e.seq + 1) as u64)),
        other != note ==> open_ons(e.note_on(note, vel).voices, other).subset_of(open_ons(e.voices, other)),
{
    let a = e.note_on(note, vel);
    let p = e.pressed(note);
    law_a_note_lights_all_its_players(e, note, vel);
    assert forall|i: int, n: u8| 0 <= i < MAX_VOICES && crate::engine::holds(a.voices[i], n) implies (n == note
        && a.voices[i].on_seq == a.seq) || (#[trigger] crate::engine::holds(e.voices[i], n) && e.voices[i].on_seq
        == a.voices[i].on_seq) by {
        if !newest(a).contains(i) {
            assert(a.voices[i] == p.voices[i]);
        }
    }
    lemma_opens(e.voices, a.voices, note, (e.seq + 1) as u64, true);
    if other != note {
        lemma_opens(e.voices, a.voices, other, (e.seq + 1) as u64, false);
    }
}

/// A slur or a bow change opens one cluster of its pitch, its own, and none
/// of another pitch.
pub proof fn law_a_bow_that_stays_opens_one(e: EngineView, note: u8, vel: u8, reverse: bool, other: u8)
    requires
        e.wf(),
        e.seq < u64::MAX,
    ensures
        open_ons(e.bow_on(note, vel, reverse).voices, note).subset_of(
            open_ons(e.voices, note).insert((e.seq + 1) as u64),
        ),
        other != note ==> open_ons(e.bow_on(note, vel, reverse).voices, other).subset_of(open_ons(e.voices, other)),
{
    let a = e.bow_on(note, vel, reverse);
    lemma_bow_on(e, note, vel, reverse);
    assert(a.voices.len() == e.voices.len());
    lemma_opens(e.voices, a.voices, note, (e.seq + 1) as u64, true);
    if other != note {
        lemma_opens(e.voices, a.voices, other, (e.seq + 1) as u64, false);
    }
}

proof fn lemma_opens(before: Seq<ArchetVoice>, after: Seq<ArchetVoice>, note: u8, seq: u64, own: bool)
    requires
        after.len() == before.len(),
        forall|i: int|
            0 <= i < after.len() && crate::engine::holds(#[trigger] after[i], note) ==> {
                ||| own && after[i].on_seq == seq
                ||| crate::engine::holds(before[i], note) && before[i].on_seq == after[i].on_seq
            },
    ensures
        own ==> open_ons(after, note).subset_of(open_ons(before, note).insert(seq)),
        !own ==> open_ons(after, note).subset_of(open_ons(before, note)),
{
    assert forall|s: u64| open_ons(after, note).contains(s) implies (own && s == seq) || open_ons(
        before,
        note,
    ).contains(s) by {
        let i = choose|i: int| 0 <= i < after.len() && crate::engine::in_cluster(#[trigger] after[i], note, s);
        assert(crate::engine::holds(after[i], note));
        if !(own && s == seq) {
            assert(crate::engine::in_cluster(before[i], note, s));
        }
    }
}

/// A note-off closes one cluster of its pitch, the oldest still open, and
/// none of another pitch.
pub proof fn law_a_note_off_closes_the_oldest(e: EngineView, note: u8, other: u8)
    requires
        e.wf(),
    ensures
        crate::engine::held_by_some(e.voices, note) ==> open_ons(e.voices, note).contains(
            crate::engine::cluster(e.voices, note),
        ),
        open_ons(e.note_off(note).voices, note) == open_ons(e.voices, note).remove(
            crate::engine::cluster(e.voices, note),
        ),
        other != note ==> open_ons(e.note_off(note).voices, other) == open_ons(e.voices, other),
{
    let a = e.note_off(note);
    let c = crate::engine::cluster(e.voices, note);
    if crate::engine::held_by_some(e.voices, note) {
        let i = choose|i: int| 0 <= i < e.voices.len() && crate::engine::holds(#[trigger] e.voices[i], note);
        lemma_cluster_exists(e.voices, note, i);
        let j = choose|j: int|
            0 <= j < e.voices.len() && crate::engine::holds(#[trigger] e.voices[j], note) && e.voices[j].on_seq == c;
        assert(crate::engine::in_cluster(e.voices[j], note, c));
    }
    assert forall|n: u8, s: u64| open_ons(a.voices, n).contains(s) <==> open_ons(e.voices, n).contains(s) && !(n
        == note && s == c) by {
        if open_ons(a.voices, n).contains(s) {
            let i = choose|i: int| 0 <= i < a.voices.len() && crate::engine::in_cluster(#[trigger] a.voices[i], n, s);
            assert(crate::engine::in_cluster(e.voices[i], n, s));
        }
        if open_ons(e.voices, n).contains(s) && !(n == note && s == c) {
            let i = choose|i: int| 0 <= i < e.voices.len() && crate::engine::in_cluster(#[trigger] e.voices[i], n, s);
            assert(a.voices[i] == e.voices[i]);
            assert(crate::engine::in_cluster(a.voices[i], n, s));
        }
    }
    assert(open_ons(a.voices, note) =~= open_ons(e.voices, note).remove(c));
    if other != note {
        assert(open_ons(a.voices, other) =~= open_ons(e.voices, other));
    }
}

/// Two note-offs let go of two note-ons: once a pitch that no voice still had
/// down has been pressed twice and released twice, every voice that has it
/// waits to lift.
pub proof fn law_two_offs_let_two_ons_go(e: EngineView, note: u8, first: u8, second: u8, i: int)
    requires
        e.wf(),
        e.seq + 2 <= u64::MAX,
        !crate::engine::held_by_some(e.voices, note),
        0 <= i < MAX_VOICES,
    ensures
        ({
            let v = e.note_on(note, first).note_on(note, second).note_off(note).note_off(note).voices[i];
            v.note == Some(note) ==> v.release_delay >= 0
        }),
{
    let a = e.note_on(note, first);
    law_every_command_keeps_the_engine_sound(e, CommandView::NoteOn(note, first));
    assert(a == e.answered(CommandView::NoteOn(note, first)));
    law_a_note_on_opens_one(e, note, first, note);
    assert forall|s: u64| !open_ons(e.voices, note).contains(s) by {
        if open_ons(e.voices, note).contains(s) {
            lemma_open(e.voices, note, s);
        }
    }
    lemma_on_off_off(a, note, second, (e.seq + 1) as u64, i);
}

proof fn lemma_on_off_off(a: EngineView, note: u8, vel: u8, first: u64, i: int)
    requires
        a.wf(),
        a.seq < u64::MAX,
        forall|s: u64| #[trigger] open_ons(a.voices, note).contains(s) ==> s == first,
        0 <= i < MAX_VOICES,
    ensures
        ({
            let v = a.note_on(note, vel).note_off(note).note_off(note).voices[i];
            v.note == Some(note) ==> v.release_delay >= 0
        }),
{
    let b = a.note_on(note, vel);
    law_every_command_keeps_the_engine_sound(a, CommandView::NoteOn(note, vel));
    assert(b == a.answered(CommandView::NoteOn(note, vel)));
    law_a_note_on_opens_one(a, note, vel, note);
    lemma_off_off(b, note, first, (a.seq + 1) as u64, i);
}

proof fn lemma_off_off(b: EngineView, note: u8, first: u64, second: u64, i: int)
    requires
        b.wf(),
        forall|s: u64| #[trigger] open_ons(b.voices, note).contains(s) ==> s == first || s == second,
        0 <= i < MAX_VOICES,
    ensures
        ({
            let v = b.note_off(note).note_off(note).voices[i];
            v.note == Some(note) ==> v.release_delay >= 0
        }),
{
    let c = b.note_off(note);
    law_a_note_off_closes_the_oldest(b, note, note);
    lemma_note_off_keeps(b, note);
    lemma_off(c, note, i);
    let y = crate::engine::cluster(c.voices, note);
    let z = crate::engine::cluster(b.voices, note);
    let v = c.note_off(note).voices[i];
    if v.note == Some(note) && v.release_delay == crate::voice::NO_LIFT {
        let x = v.on_seq;
        lemma_open(c.voices, note, x);
        lemma_open(b.voices, note, x);
        law_a_note_off_closes_the_oldest(c, note, note);
        assert(open_ons(c.voices, note).contains(y));
        assert(open_ons(b.voices, note).contains(z));
        assert(x != y && x != z && y != z);
    }
}

/// A voice that still has a pitch down after a note-off is in a cluster that
/// was open before it, and not the oldest.
proof fn lemma_off(c: EngineView, note: u8, i: int)
    requires
        c.wf(),
        0 <= i < MAX_VOICES,
    ensures
        ({
            let v = c.note_off(note).voices[i];
            &&& v.wf()
            &&& crate::engine::holds(v, note) ==> {
                &&& open_ons(c.voices, note).contains(v.on_seq)
                &&& v.on_seq != crate::engine::cluster(c.voices, note)
            }
        }),
{
    let d = c.note_off(note);
    law_a_note_off_closes_the_oldest(c, note, note);
    lemma_note_off_keeps(c, note);
    let v = d.voices[i];
    if crate::engine::holds(v, note) {
        assert(crate::engine::in_cluster(d.voices[i], note, v.on_seq));
        assert(open_ons(d.voices, note).contains(v.on_seq));
    }
}

/// A note-on still open is held by some voice.
pub proof fn lemma_open(vs: Seq<ArchetVoice>, note: u8, seq: u64)
    requires
        open_ons(vs, note).contains(seq),
    ensures
        crate::engine::held_by_some(vs, note),
{
    let i = choose|i: int| 0 <= i < vs.len() && crate::engine::in_cluster(#[trigger] vs[i], note, seq);
    assert(crate::engine::holds(vs[i], note));
}

/// After an all-notes-off no key is down anywhere and every voice is lifting.
pub proof fn law_all_notes_off_holds_nothing(e: EngineView, i: int)
    requires
        e.wf(),
        0 <= i < MAX_VOICES,
    ensures
        e.all_notes_off().held.len() == 0,
        e.all_notes_off().voices[i].note is None,
        e.all_notes_off().voices[i].releasing,
        e.all_notes_off().voices[i].steal_pending is None,
{
}

/// A knob turn leaves every voice and every key as it is.
pub proof fn law_a_knob_does_not_touch_the_voices(e: EngineView, param: ArchetParam, value: Single)
    ensures
        e.param_set(param, value).voices == e.voices,
        e.param_set(param, value).held == e.held,
        e.param_set(param, value).patch.polyphony == e.patch.polyphony,
{
}

/// Pushing the patch that is already there disturbs nothing: no voice is
/// re-seeded and no string is restrung.
pub proof fn law_a_repeated_patch_disturbs_nothing(e: EngineView, p: PatchView)
    ensures
        e.loaded(p).loaded(p) == e.loaded(p),
{
}

/// The voices are re-seeded by the first patch of a desk, and again only by a
/// patch of another one.
pub proof fn law_a_desk_is_seeded_once(e: EngineView, p: PatchView)
    ensures
        p.seed_offset == 0 || p.seed_offset == e.applied_seed ==> e.loaded(p).voices == e.voices
            && e.loaded(p).applied_seed == e.applied_seed,
        p.seed_offset != 0 && p.seed_offset != e.applied_seed ==> e.loaded(p).voices
            == crate::engine::reseeded(e.voices, p.seed_offset) && e.loaded(p).applied_seed == p.seed_offset,
{
}

/// A re-rated engine has the voices of a fresh one with the same patch, on
/// the same desk, and no key down.
pub proof fn law_a_rerated_engine_is_as_fresh(e: EngineView, fresh: EngineView, onset: u32, release: u32)
    requires
        fresh.voices == crate::engine::fresh_voices(),
        fresh.applied_seed == 0,
    ensures
        e.rerated(onset, release).voices == fresh.loaded(e.patch).voices,
        e.rerated(onset, release).applied_seed == fresh.loaded(e.patch).applied_seed,
        e.rerated(onset, release).held.len() == 0,
{
}

/// A plucked string carries one note: the note that stops it ends whatever
/// still rings on that string, and what is already fading on the body's other
/// strings; a note still held on another string, and a note of another body,
/// ring on as they were. This is of every voice the new note does not take.
pub proof fn law_a_plucked_string_carries_one_note(e: EngineView, note: u8, vel: u8, i: int)
    requires
        e.wf(),
        e.seq < u64::MAX,
        e.patch.pluck,
        0 <= i < crate::engine::pool_of(e.patch),
        !newest(e.note_on(note, vel)).contains(i),
        e.voices[i].active(),
        e.voices[i].on_string is Some,
    ensures
        ({
            let body = crate::strings::body_for(note, e.patch);
            let string = crate::strings::string_index(body, note);
            let (b, s) = e.voices[i].on_string->0;
            e.note_on(note, vel).voices[i] == (ArchetVoice {
                stopped: e.voices[i].stopped || (b == body && (s == string || e.voices[i].releasing)),
                ..e.voices[i]
            })
        }),
{
    law_a_note_lights_all_its_players(e, note, vel);
    assert(e.note_on(note, vel).voices[i] == e.pressed(note).voices[i]);
}

/// A voice after `n` samples.
pub open spec fn after(v: ArchetVoice, pluck: bool, n: nat) -> ArchetVoice
    decreases n,
{
    if n == 0 {
        v
    } else {
        after(v, pluck, (n - 1) as nat).stepped(pluck)
    }
}

/// A player waits out exactly its onset delay, silent, and sounds on the
/// sample after; waiting changes nothing else, but for the lift that comes
/// nearer.
pub proof fn law_an_onset_is_waited_out(v: ArchetVoice, pluck: bool, n: nat)
    requires
        v.active(),
        n <= v.onset_delay,
        v.release_delay < 0 || n <= v.release_delay,
    ensures
        after(v, pluck, n) == (ArchetVoice {
            onset_delay: (v.onset_delay - n) as usize,
            release_delay: if v.release_delay < 0 {
                v.release_delay
            } else {
                (v.release_delay - n) as i32
            },
            ..v
        }),
        n < v.onset_delay ==> after(v, pluck, n).step(pluck) is Waiting,
        n == v.onset_delay ==> after(v, pluck, n).step(pluck) is Sound,
    decreases n,
{
    if n > 0 {
        law_an_onset_is_waited_out(v, pluck, (n - 1) as nat);
    }
}

/// A bow scheduled to lift lifts once, after exactly its delay, whether the
/// player has started or still waits: until then the key stays down.
pub proof fn law_a_scheduled_lift_falls_due(v: ArchetVoice, delay: int, pluck: bool, n: nat)
    requires
        v.note is Some,
        0 < delay <= i32::MAX,
        n <= delay,
    ensures
        after(v.scheduled(delay), pluck, n).note == v.note,
        after(v.scheduled(delay), pluck, n).releasing == v.releasing,
        after(v.scheduled(delay), pluck, n).release_delay == delay - n,
        match after(v.scheduled(delay), pluck, n).step(pluck) {
            crate::voice::Step::Idle => false,
            crate::voice::Step::Waiting { lifted } => lifted == (n == delay),
            crate::voice::Step::Sound { lifted, .. } => lifted == (n == delay),
        },
        n == delay ==> {
            let w = after(v.scheduled(delay), pluck, n + 1);
            w.note is None && w.releasing && w.release_delay == crate::voice::NO_LIFT
        },
    decreases n,
{
    if n > 0 {
        law_a_scheduled_lift_falls_due(v, delay, pluck, (n - 1) as nat);
    }
    let w = after(v.scheduled(delay), pluck, n);
    assert(w.active());
    assert(after(v.scheduled(delay), pluck, n + 1) == w.stepped(pluck));
}

/// A note queued behind a fade starts with the onset it was given, and until
/// then the old sound plays on without waiting.
pub proof fn law_a_queued_note_keeps_its_onset(
    v: ArchetVoice,
    seat: crate::voice::Seat,
    onset: usize,
    note: u8,
    vel: u8,
    p: PatchView,
    fade: Single,
)
    requires
        v.must_fade(),
        ArchetVoice::faded_out(fade),
    ensures
        v.seated(seat, onset).noted(note, vel, p).onset_delay == 0,
        v.seated(seat, onset).noted(note, vel, p).turn(fade) == (crate::voice::Turn::Struck { note, vel }),
        v.seated(seat, onset).noted(note, vel, p).turned(fade, p).onset_delay == onset,
        v.seated(seat, onset).noted(note, vel, p).turned(fade, p).note == Some(note),
        v.seated(seat, onset).noted(note, vel, p).turned(fade, p).seat == seat,
{
}

/// A note let go while its fade is still running never sounds: when the fade
/// is over the voice is silent and free.
pub proof fn law_a_cancelled_note_never_sounds(v: ArchetVoice, note: u8, vel: u8, p: PatchView, fade: Single)
    requires
        v.must_fade(),
        ArchetVoice::faded_out(fade),
    ensures
        v.noted(note, vel, p).released().turn(fade) is Silenced,
        !v.noted(note, vel, p).released().turned(fade, p).active(),
{
    crate::single::lemma_landmarks();
    crate::single::lemma_small_landmarks();
}

/// A note-on is heard at once only where nothing loud is cut for it.
pub proof fn law_nothing_loud_is_cut(v: ArchetVoice, note: u8, vel: u8, p: PatchView)
    requires
        crate::voice::loud(v.energy),
    ensures
        v.noted(note, vel, p) == v.queued(note, vel),
        v.noted(note, vel, p).energy == v.energy,
        v.noted(note, vel, p).bow_force == v.bow_force,
{
    crate::single::lemma_small_landmarks();
}

/// A desk's streams all run, whatever its seed and the voice.
pub proof fn law_every_stream_runs(idx: u32, offset: u32)
    ensures
        crate::voice::first_streams(idx).live(),
        crate::voice::desk_streams(idx, offset).live(),
{
    assert forall|s: u32| #[trigger] crate::noise::seeded(s).live() by {
        assert(s | 1 != 0) by (bit_vector);
    }
}

} // verus!
