//! What each command does to the engine, and what it leaves alone.

use vstd::prelude::*;
use crate::engine::{Act, ArchetCommand, ArchetEngine, CommandView, EngineView};
use crate::laws::{all_older, newest, players_lit};
use crate::patch::{ArchetParam, Instrument, PatchView};
use crate::single::{one, Single};
use crate::voice::{ArchetVoice, Seat};
use crate::voice_laws::{on_its_body, on_its_string};

verus! {

/// Whether a note-on has been passed on as it was played: every act it adds
/// strikes a voice that answered it, with its note and its velocity, no voice
/// twice; and every voice that answered it either is struck so, on its own
/// body, or has that note and that velocity queued.
pub open spec fn passed_on(before: EngineView, after: EngineView, note: u8, vel: u8) -> bool {
    &&& before.acts.len() <= after.acts.len()
    &&& forall|j: int| 0 <= j < before.acts.len() ==> #[trigger] after.acts[j] == before.acts[j]
    &&& forall|j: int|
        before.acts.len() <= j < after.acts.len() ==> {
            &&& (#[trigger] after.acts[j]) matches Act::Strike { voice, note: n, vel: l } && n == note && l == vel
                && newest(after).contains(voice as int) && after.voices[voice as int].steal_pending is None
        }
    &&& forall|j: int, k: int|
        before.acts.len() <= j < k < after.acts.len() ==> #[trigger] after.acts[j] != #[trigger] after.acts[k]
    &&& forall|i: int| #[trigger]
        newest(after).contains(i) ==> {
            if after.voices[i].steal_pending is Some {
                after.voices[i].steal_pending == Some((note, vel))
            } else {
                &&& exists|j: int|
                    before.acts.len() <= j < after.acts.len() && #[trigger] after.acts[j] == (Act::Strike {
                        voice: i as usize,
                        note,
                        vel,
                    })
                &&& on_its_body(after.voices[i], note, after.patch)
                &&& after.patch.pluck ==> on_its_string(after.voices[i], note)
            }
        }
}

proof fn lemma_takes_passes_on(before: EngineView, d: EngineView, v: ArchetVoice, note: u8, vel: u8, k: int)
    requires
        before.voices.len() == 32,
        all_older(before),
        0 < crate::engine::pool_of(before.patch) <= 32,
        0 <= k < crate::engine::pool_of(before.patch),
        d.patch == before.patch,
        d.seq == before.seq,
        players_lit(before, d, note, k),
        passed_on(before, d, note, vel),
        v.wf(),
    ensures
        passed_on(before, d.takes(d.next(), v, note, vel), note, vel),
{
    crate::laws::lemma_takes(before, d, v, note, vel, k);
    let i = d.next();
    let a = d.takes(i, v, note, vel);
    crate::voice_laws::law_a_note_is_struck_or_queued(v, note, vel, d.patch);
    assert forall|j: int| before.acts.len() <= j < a.acts.len() implies {
        &&& (#[trigger] a.acts[j]) matches Act::Strike { voice, note: n, vel: l } && n == note && l == vel && newest(
            a,
        ).contains(voice as int) && a.voices[voice as int].steal_pending is None
    } by {
        if j < d.acts.len() {
            assert(a.acts[j] == d.acts[j]);
        }
    }
    assert forall|j: int, m: int| before.acts.len() <= j < m < a.acts.len() implies #[trigger] a.acts[j]
        != #[trigger] a.acts[m] by {
        assert(a.acts[j] == d.acts[j]);
        if m < d.acts.len() {
            assert(a.acts[m] == d.acts[m]);
        }
    }
    assert forall|q: int| #[trigger] newest(a).contains(q) implies {
        if a.voices[q].steal_pending is Some {
            a.voices[q].steal_pending == Some((note, vel))
        } else {
            &&& exists|j: int|
                before.acts.len() <= j < a.acts.len() && #[trigger] a.acts[j] == (Act::Strike {
                    voice: q as usize,
                    note,
                    vel,
                })
            &&& on_its_body(a.voices[q], note, a.patch)
            &&& a.patch.pluck ==> on_its_string(a.voices[q], note)
        }
    } by {
        if q == i {
            if !v.must_fade() {
                assert(a.acts[d.acts.len() as int] == (Act::Strike { voice: i as usize, note, vel }));
            }
        } else {
            assert(newest(d).contains(q));
            assert(a.voices[q] == d.voices[q]);
            if d.voices[q].steal_pending is None {
                let j = choose|j: int|
                    before.acts.len() <= j < d.acts.len() && #[trigger] d.acts[j] == (Act::Strike {
                        voice: q as usize,
                        note,
                        vel,
                    });
                assert(a.acts[j] == d.acts[j]);
            }
        }
    }
}

proof fn lemma_unison_passes_on(e: EngineView, note: u8, vel: u8, n: int, k: nat)
    requires
        e.wf(),
        all_older(e),
        k <= n <= crate::engine::pool_of(e.patch) <= 32,
    ensures
        passed_on(e, e.unison(note, vel, n, k), note, vel),
    decreases k,
{
    if k == 0 {
        assert(newest(e) =~= Set::<int>::empty());
    } else {
        lemma_unison_passes_on(e, note, vel, n, (k - 1) as nat);
        crate::laws::lemma_unison(e, note, vel, n, (k - 1) as nat);
        crate::laws::lemma_unison_keeps(e, note, vel, n, (k - 1) as nat);
        let d = e.unison(note, vel, n, (k - 1) as nat);
        crate::engine::lemma_choice_exists(d.voices, crate::engine::pool_of(d.patch));
        let v = d.voices[d.next()].seated(
            crate::engine::seat_of(k - 1, n, e.patch.seed_offset),
            crate::engine::onset_of(note, k - 1, d.seq, d.onset_max),
        );
        lemma_takes_passes_on(e, d, v, note, vel, k - 1);
    }
}

proof fn lemma_note_on_passes_on(e: EngineView, note: u8, vel: u8)
    requires
        e.wf(),
        e.seq < u64::MAX,
    ensures
        passed_on(e, e.note_on(note, vel), note, vel),
        e.note_on(note, vel).seq == e.seq + 1,
{
    let p = e.pressed(note);
    lemma_pressed_is_sound(e, note, vel);
    crate::laws::law_a_note_lights_all_its_players(e, note, vel);
    let n = crate::engine::players(e.patch);
    if crate::patch::is_section(e.patch) {
        lemma_unison_passes_on(p, note, vel, n, n as nat);
    } else {
        assert(newest(p) =~= Set::<int>::empty());
        crate::engine::lemma_choice_exists(p.voices, crate::engine::pool_of(p.patch));
        let v = p.voices[p.next()].seated(crate::voice::solo_seat(), 0);
        lemma_takes_passes_on(p, p, v, note, vel, 0);
    }
}

proof fn lemma_passed_on_says(before: EngineView, after: EngineView, note: u8, vel: u8)
    requires
        passed_on(before, after, note, vel),
    ensures
        forall|j: int|
            before.acts.len() <= j < after.acts.len() ==> ((#[trigger] after.acts[j]) matches Act::Strike {
                voice,
                note: n,
                vel: l,
            } && n == note && l == vel),
        forall|i: int|
            0 <= i < 32 && (#[trigger] after.voices[i]).on_seq == after.seq ==> {
                ||| after.voices[i].steal_pending == Some((note, vel))
                ||| after.acts.contains(Act::Strike { voice: i as usize, note, vel })
            },
{
    assert forall|i: int| 0 <= i < 32 && (#[trigger] after.voices[i]).on_seq == after.seq implies {
        ||| after.voices[i].steal_pending == Some((note, vel))
        ||| after.acts.contains(Act::Strike { voice: i as usize, note, vel })
    } by {
        assert(newest(after).contains(i));
    }
}

/// A note-on is passed on as it was played, a section's to every player as a
/// soloist's to the one: each act it adds strikes the note and the velocity of
/// the command, and each voice that answers is struck so, or has them queued
/// behind its fade.
pub proof fn law_a_note_is_passed_on_as_played(e: EngineView, note: u8, vel: u8)
    requires
        e.wf(),
        e.seq < u64::MAX,
    ensures
        ({
            let a = e.answered(CommandView::NoteOn(note, vel));
            &&& passed_on(e, a, note, vel)
            &&& a.seq == e.seq + 1
            &&& forall|j: int|
                e.acts.len() <= j < a.acts.len() ==> ((#[trigger] a.acts[j]) matches Act::Strike {
                    voice,
                    note: n,
                    vel: l,
                } && n == note && l == vel)
            &&& forall|i: int|
                0 <= i < 32 && (#[trigger] a.voices[i]).on_seq == a.seq ==> {
                    ||| a.voices[i].steal_pending == Some((note, vel))
                    ||| a.acts.contains(Act::Strike { voice: i as usize, note, vel })
                }
        }),
{
    let a = e.answered(CommandView::NoteOn(note, vel));
    assert(a == e.note_on(note, vel));
    lemma_note_on_passes_on(e, note, vel);
    lemma_passed_on_says(e, a, note, vel);
}

/// A slur or a bow change goes to the loudest voice that sounds, the last of
/// equals: that voice is told the note and the velocity, and no other voice
/// changes, nor any key.
pub proof fn law_a_bow_that_stays_is_passed_on(e: EngineView, note: u8, vel: u8, reverse: bool, i: int)
    requires
        e.wf(),
        e.seq < u64::MAX,
        0 <= i < crate::engine::pool_of(e.patch),
        e.voices[i].active(),
        crate::voice::heard(e.voices[i].energy),
        forall|j: int|
            0 <= j < crate::engine::pool_of(e.patch) && (#[trigger] e.voices[j]).active() && crate::voice::heard(
                e.voices[j].energy,
            ) ==> e.voices[j].energy.units() < e.voices[i].energy.units() || (e.voices[j].energy.units()
                == e.voices[i].energy.units() && j <= i),
    ensures
        ({
            let a = e.answered(
                if reverse {
                    CommandView::BowChange(note, vel)
                } else {
                    CommandView::NoteOnLegato(note, vel)
                },
            );
            &&& a.acts == e.acts.push(
                if reverse {
                    Act::Reverse { voice: i as usize, note, vel }
                } else {
                    Act::Slur { voice: i as usize, note, vel }
                },
            )
            &&& a.voices == e.voices.update(i, a.voices[i])
            &&& a.voices[i] == (ArchetVoice {
                on_seq: (e.seq + 1) as u64,
                ..e.voices[i].retuned(note, vel, e.patch)
            })
            &&& on_its_body(a.voices[i], note, e.patch)
            &&& a.voices[i].note == Some(note)
            &&& a.voices[i].energy == e.voices[i].energy
            &&& a.seq == e.seq + 1
            &&& a.held == e.held
            &&& a.patch == e.patch
            &&& a.dirty == e.dirty
            &&& a.symp_inst == e.symp_inst
            &&& a.applied_seed == e.applied_seed
        }),
{
    let pool = crate::engine::pool_of(e.patch);
    assert(crate::engine::sounding(e.voices[i]));
    assert(crate::engine::loudest(e.voices, pool, i)) by {
        assert forall|j: int| #![trigger e.voices[j]] 0 <= j < pool && crate::engine::sounding(e.voices[j]) implies {
            &&& e.voices[j].energy.units() <= e.voices[i].energy.units()
            &&& i < j ==> e.voices[j].energy.units() < e.voices[i].energy.units()
        } by {}
    }
    crate::engine::lemma_loudest_unique(e.voices, pool, i);
    crate::voice_laws::law_a_slur_keeps_the_bow(e.voices[i], note, vel, e.patch);
}

/// Where nothing sounds, a slur or a bow change is a fresh stroke on one
/// voice, with its note and its velocity; no key is shown down for it.
pub proof fn law_a_slur_from_silence_is_a_stroke(e: EngineView, note: u8, vel: u8, reverse: bool)
    requires
        e.wf(),
        e.seq < u64::MAX,
        forall|j: int|
            0 <= j < crate::engine::pool_of(e.patch) ==> !((#[trigger] e.voices[j]).active() && crate::voice::heard(
                e.voices[j].energy,
            )),
    ensures
        ({
            let a = e.answered(
                if reverse {
                    CommandView::BowChange(note, vel)
                } else {
                    CommandView::NoteOnLegato(note, vel)
                },
            );
            &&& passed_on(e, a, note, vel)
            &&& newest(a).len() == 1
            &&& newest(a).contains(e.next())
            &&& a.voices == e.voices.update(e.next(), a.voices[e.next()])
            &&& crate::patch::is_section(e.patch) ==> a.voices[e.next()].seat == e.voices[e.next()].seat
                && landing(a.voices[e.next()]) == e.voices[e.next()].onset_delay
            &&& !crate::patch::is_section(e.patch) ==> a.voices[e.next()].seat == (Seat {
                place: 0,
                seats: 1,
                offset: 0,
            }) && landing(a.voices[e.next()]) == 0
            &&& a.held == e.held
            &&& a.patch == e.patch
            &&& a.seq == e.seq + 1
        }),
{
    let f = EngineView { seq: (e.seq + 1) as u64, ..e };
    let pool = crate::engine::pool_of(e.patch);
    assert(crate::engine::quiet(f.voices, pool));
    crate::laws::lemma_pressed_pool(e);
    assert(newest(f) =~= Set::<int>::empty());
    crate::engine::lemma_choice_exists(f.voices, pool);
    let v = f.voices[f.next()];
    let w = v.seated(crate::voice::solo_seat(), 0);
    crate::laws::lemma_takes(f, f, v, note, vel, 0);
    crate::laws::lemma_takes(f, f, w, note, vel, 0);
    lemma_takes_passes_on(f, f, v, note, vel, 0);
    lemma_takes_passes_on(f, f, w, note, vel, 0);
}

/// A new note takes the first free voice of the pool; with none free, the
/// oldest of those that lift; with none lifting, the oldest of all.
pub proof fn law_a_new_note_takes_the_first_free_voice(e: EngineView, i: int)
    requires
        e.wf(),
        i == e.next(),
    ensures
        0 <= i < crate::engine::pool_of(e.patch),
        !e.voices[i].active() ==> forall|j: int| 0 <= j < i ==> (#[trigger] e.voices[j]).active(),
        forall|j: int|
            0 <= j < crate::engine::pool_of(e.patch) && !(#[trigger] e.voices[j]).active() ==> !e.voices[i].active(),
        e.voices[i].active() ==> forall|j: int|
            0 <= j < crate::engine::pool_of(e.patch) && (#[trigger] e.voices[j]).releasing ==> e.voices[i].releasing
                && e.voices[i].on_seq <= e.voices[j].on_seq,
        e.voices[i].active() && !e.voices[i].releasing ==> forall|j: int|
            0 <= j < crate::engine::pool_of(e.patch) ==> e.voices[i].on_seq <= (#[trigger] e.voices[j]).on_seq,
{
    let pool = crate::engine::pool_of(e.patch);
    crate::laws::lemma_pressed_pool(e);
    crate::engine::lemma_choice_exists(e.voices, pool);
    if !crate::engine::some_free(e.voices, pool) {
        assert forall|j: int| 0 <= j < i implies (#[trigger] e.voices[j]).active() by {}
    }
}

/// One note lights one voice of a soloist. It lights of a section as many as
/// it has players, to the nearest whole one, but two at least and eight at
/// most, four where they are plucked.
pub proof fn law_a_note_lights_so_many(p: PatchView)
    requires
        p.ensemble.number(),
    ensures
        2 * p.ensemble.units() < 3 * one() ==> crate::engine::players(p) == 1,
        3 * one() <= 2 * p.ensemble.units() < 5 * one() ==> crate::engine::players(p) == 2,
        p.pluck && 4 * one() <= p.ensemble.units() ==> crate::engine::players(p) == 4,
        !p.pluck && 8 * one() <= p.ensemble.units() ==> crate::engine::players(p) == 8,
        5 * one() <= 2 * p.ensemble.units() && p.ensemble.units() < (if p.pluck { 4 } else { 8int }) * one() ==> (2
            * crate::engine::players(p) - 1) * one() <= 2 * p.ensemble.units() < (2 * crate::engine::players(p) + 1)
            * one(),
{
    crate::single::lemma_landmarks();
    let (u, o) = (p.ensemble.units(), one());
    let cap = if p.pluck { 4int } else { 8 };
    if 3 * o <= 2 * u && u < cap * o {
        let q = (2 * u + o) / (2 * o);
        assert(q * (2 * o) <= 2 * u + o < (q + 1) * (2 * o)) by (nonlinear_arith)
            requires q == (2 * u + o) / (2 * o), o > 0, u >= 0;
        assert((2 * q - 1) * o <= 2 * u < (2 * q + 1) * o) by (nonlinear_arith)
            requires q * (2 * o) <= 2 * u + o, 2 * u + o < (q + 1) * (2 * o);
        assert(q >= 2) by (nonlinear_arith)
            requires 2 * u < (2 * q + 1) * o, 3 * o <= 2 * u, o > 0;
        if 2 * u < 5 * o {
            assert(q < 3) by (nonlinear_arith)
                requires (2 * q - 1) * o <= 2 * u, 2 * u < 5 * o, o > 0;
        }
        assert(q <= cap) by (nonlinear_arith)
            requires (2 * q - 1) * o <= 2 * u, u < cap * o, o > 0;
    }
}

/// The pool is the polyphony's notes with all their players, within the
/// thirty-two voices there are.
pub proof fn law_the_pool_holds_every_player(p: PatchView)
    ensures
        p.polyphony * crate::engine::players(p) > 32 ==> crate::engine::pool_of(p) == 32,
        1 <= p.polyphony * crate::engine::players(p) <= 32 ==> crate::engine::pool_of(p) == p.polyphony
            * crate::engine::players(p),
        p.polyphony == 0 ==> crate::engine::pool_of(p) == 1,
{
    assert(0 * crate::engine::players(p) == 0);
}

/// A desk's seats are counted from nought, and each knows how many there are.
/// A seat's draw sums three of ten bits each, and its offset is its own draw
/// against the mean of all.
pub proof fn law_a_seat_is_drawn(k: int, n: int, seed: u32)
    requires
        0 <= k < n <= 8,
    ensures
        crate::engine::seat_of(k, n, seed).place == k,
        crate::engine::seat_of(k, n, seed).seats == n,
        ({
            let h = crate::noise::mixed(((k * 40503 + seed * 2654435761) % 0x1_0000_0000) as u32);
            crate::engine::seat_draw(k as u32, seed) == h % 1024 + (h / 1024) % 1024 + (h / 1048576) % 1024
        }),
        crate::engine::seat_of(k, n, seed).offset == n * crate::engine::seat_draw(k as u32, seed)
            - crate::engine::draws(n as nat, seed),
        crate::engine::draws(0, seed) == 0,
        crate::engine::draws((k + 1) as nat, seed) == crate::engine::draws(k as nat, seed) + crate::engine::seat_draw(
            k as u32,
            seed,
        ),
{
    crate::engine::lemma_draw_bound(k as u32, seed);
    crate::engine::lemma_draws_bound(n as nat, seed);
    let own = crate::engine::seat_draw(k as u32, seed);
    assert(0 <= n * own <= 8 * 3069) by (nonlinear_arith)
        requires 0 <= n <= 8, 0 <= own <= 3069;
    let x = (k as u32).wrapping_mul(40503).wrapping_add(seed.wrapping_mul(2654435761));
    lemma_wrapped(k as u32, 40503, seed, 2654435761);
    let h = crate::noise::mixed(x);
    assert(h & 0x3ff == h % 1024) by (bit_vector);
    assert((h >> 10) & 0x3ff == (h / 1024) % 1024) by (bit_vector);
    assert((h >> 20) & 0x3ff == (h / 1048576) % 1024) by (bit_vector);
}

/// Wrapping is arithmetic on what is left of a whole turn.
proof fn lemma_wrapped(a: u32, b: u32, c: u32, d: u32)
    ensures
        a.wrapping_mul(b).wrapping_add(c.wrapping_mul(d)) == (a * b + c * d) % 0x1_0000_0000,
{
    vstd::arithmetic::div_mod::lemma_add_mod_noop((a * b) as int, (c * d) as int, 0x1_0000_0000);
}

/// The first player of a note lands on time, and the others each at a sample
/// of their own within the spread: drawn from the note, the seat and the
/// count of notes.
pub proof fn law_players_land_within_the_spread(note: u8, k: int, seq: u64, spread: u32)
    requires
        0 <= k < 8,
    ensures
        k == 0 || spread == 0 ==> crate::engine::onset_of(note, k, seq, spread) == 0,
        k > 0 && spread > 0 ==> crate::engine::onset_of(note, k, seq, spread) < spread,
        k > 0 && spread > 0 ==> crate::engine::onset_of(note, k, seq, spread) == (((note * 2654435761 + k * 40503
            + seq) % 0x1_0000_0000) / 32) % spread as int,
{
    lemma_wrapped(note as u32, 2654435761, k as u32, 40503);
    let x = (note as u32).wrapping_mul(2654435761).wrapping_add((k as u32).wrapping_mul(40503));
    let event = x.wrapping_add((seq % 0x1_0000_0000) as u32);
    vstd::arithmetic::div_mod::lemma_add_mod_noop(note * 2654435761 + k * 40503, seq as int, 0x1_0000_0000);
    assert(event >> 5 == event / 32) by (bit_vector);
}

/// A soloist lifts at once, and so does the first player of a section; its
/// others lift each at a sample of their own within the spread.
pub proof fn law_players_lift_within_the_spread(section: bool, note: u8, k: int, seq: u64, spread: u32)
    requires
        0 <= k < 32,
    ensures
        !section || k == 0 || spread == 0 ==> crate::engine::lift_delay(section, note, k, seq, spread) == 0,
        section && k > 0 && spread > 0 ==> 0 <= crate::engine::lift_delay(section, note, k, seq, spread) < spread,
        section && k > 0 && spread > 0 ==> crate::engine::lift_delay(section, note, k, seq, spread) == ((note
            * 2654435761 + k * 2246822519 + seq) % 0x1_0000_0000) % spread as int,
{
    lemma_wrapped(note as u32, 2654435761, k as u32, 2246822519);
    vstd::arithmetic::div_mod::lemma_add_mod_noop(note * 2654435761 + k * 2246822519, seq as int, 0x1_0000_0000);
}

proof fn lemma_lifts(e: EngineView, note: u8, seq: u64, n: int)
    requires
        0 <= n <= e.voices.len(),
        n <= 32,
    ensures
        forall|j: int|
            0 <= j < e.lifts(note, seq, n).len() ==> {
                &&& (#[trigger] e.lifts(note, seq, n)[j]) matches Act::Lift { voice } && voice < n
                    && crate::engine::in_cluster(e.voices[voice as int], note, seq) && e.lift_of(
                    note,
                    seq,
                    voice as int,
                ) <= 0
            },
        forall|j: int, k: int|
            0 <= j < k < e.lifts(note, seq, n).len() ==> (#[trigger] e.lifts(note, seq, n)[j])->Lift_voice
                < (#[trigger] e.lifts(note, seq, n)[k])->Lift_voice,
        forall|i: int|
            #![trigger e.voices[i]]
            0 <= i < n && crate::engine::in_cluster(e.voices[i], note, seq) && e.lift_of(note, seq, i) <= 0 ==> e.lifts(
                note,
                seq,
                n,
            ).contains(Act::Lift { voice: i as usize }),
    decreases n,
{
    if n > 0 {
        lemma_lifts(e, note, seq, n - 1);
        let (b, l) = (e.lifts(note, seq, n - 1), e.lifts(note, seq, n));
        assert forall|i: int|
            #![trigger e.voices[i]]
            0 <= i < n && crate::engine::in_cluster(e.voices[i], note, seq) && e.lift_of(note, seq, i)
                <= 0 implies l.contains(Act::Lift { voice: i as usize }) by {
            if i < n - 1 {
                let j = choose|j: int| 0 <= j < b.len() && b[j] == (Act::Lift { voice: i as usize });
                assert(l[j] == b[j]);
            } else {
                assert(l[b.len() as int] == (Act::Lift { voice: i as usize }));
            }
        }
        assert forall|j: int, k: int| 0 <= j < k < l.len() implies (#[trigger] l[j])->Lift_voice < (
        #[trigger] l[k])->Lift_voice by {
            assert(l[j] == b[j]);
            if k < b.len() {
                assert(l[k] == b[k]);
            }
        }
    }
}

/// The first voice of a cluster is the first to lift.
proof fn lemma_first_of_cluster(vs: Seq<ArchetVoice>, note: u8, seq: u64, i: int) -> (f: int)
    requires
        0 <= i < vs.len(),
        crate::engine::in_cluster(vs[i], note, seq),
    ensures
        0 <= f <= i,
        crate::engine::in_cluster(vs[f], note, seq),
        crate::engine::rank(vs, note, seq, f) == 0,
    decreases i,
{
    if exists|j: int| 0 <= j < i && crate::engine::in_cluster(#[trigger] vs[j], note, seq) {
        let j = choose|j: int| 0 <= j < i && crate::engine::in_cluster(#[trigger] vs[j], note, seq);
        lemma_first_of_cluster(vs, note, seq, j)
    } else {
        lemma_no_rank(vs, note, seq, i);
        i
    }
}

proof fn lemma_no_rank(vs: Seq<ArchetVoice>, note: u8, seq: u64, n: int)
    requires
        0 <= n <= vs.len(),
        forall|j: int| 0 <= j < n ==> !crate::engine::in_cluster(#[trigger] vs[j], note, seq),
    ensures
        crate::engine::rank(vs, note, seq, n) == 0,
    decreases n,
{
    if n > 0 {
        lemma_no_rank(vs, note, seq, n - 1);
    }
}

/// A key up lifts, in order, the voices whose lift falls at once, and says so
/// of each: those of its pitch alone. A note that is down lifts on one voice
/// at least, and a soloist's on every voice let go; nothing but the voices,
/// the key and the acts changes.
pub proof fn law_a_key_up_lifts_its_voices(e: EngineView, note: u8)
    requires
        e.wf(),
    ensures
        ({
            let a = e.answered(CommandView::NoteOff(note));
            let n = e.acts.len();
            &&& a.voices.len() == 32
            &&& n <= a.acts.len()
            &&& forall|j: int| 0 <= j < n ==> #[trigger] a.acts[j] == e.acts[j]
            &&& forall|j: int|
                n <= j < a.acts.len() ==> {
                    &&& (#[trigger] a.acts[j]) matches Act::Lift { voice } && voice < 32
                        && e.voices[voice as int].note == Some(note) && e.voices[voice as int].release_delay == -1
                        && a.voices[voice as int] == e.voices[voice as int].released()
                }
            &&& forall|j: int, k: int|
                n <= j < k < a.acts.len() ==> (#[trigger] a.acts[j])->Lift_voice < (#[trigger] a.acts[k])->Lift_voice
            &&& forall|i: int|
                0 <= i < 32 && e.voices[i].note == Some(note) && (#[trigger] a.voices[i]).note is None
                    ==> a.acts.skip(n as int).contains(Act::Lift { voice: i as usize })
            &&& forall|i: int|
                0 <= i < 32 && !crate::patch::is_section(e.patch) && #[trigger] a.voices[i] != e.voices[i]
                    ==> a.voices[i].note is None
            &&& (exists|i: int|
                0 <= i < 32 && (#[trigger] e.voices[i]).note == Some(note) && e.voices[i].release_delay == -1)
                ==> n < a.acts.len()
            &&& a.patch == e.patch
            &&& a.seq == e.seq
            &&& a.dirty == e.dirty
            &&& a.symp_inst == e.symp_inst
            &&& a.applied_seed == e.applied_seed
            &&& a.onset_max == e.onset_max
            &&& a.release_max == e.release_max
        }),
{
    let a = e.answered(CommandView::NoteOff(note));
    let n = e.acts.len();
    if crate::engine::held_by_some(e.voices, note) {
        let seq = crate::engine::cluster(e.voices, note);
        let l = e.lifts(note, seq, 32);
        lemma_lifts(e, note, seq, 32);
        let h = choose|i: int| 0 <= i < e.voices.len() && crate::engine::holds(#[trigger] e.voices[i], note);
        crate::laws::lemma_cluster_exists(e.voices, note, h);
        let c = choose|i: int|
            0 <= i < e.voices.len() && crate::engine::holds(#[trigger] e.voices[i], note) && e.voices[i].on_seq == seq;
        let f = lemma_first_of_cluster(e.voices, note, seq, c);
        assert(e.lift_of(note, seq, f) == 0);
        assert(l.contains(Act::Lift { voice: f as usize }));
        assert(a.acts.skip(n as int) =~= l);
        assert forall|j: int| n <= j < a.acts.len() implies {
            &&& (#[trigger] a.acts[j]) matches Act::Lift { voice } && voice < 32 && e.voices[voice as int].note
                == Some(note) && e.voices[voice as int].release_delay == -1 && a.voices[voice as int]
                == e.voices[voice as int].released()
        } by {
            assert(a.acts[j] == l[j - n]);
        }
        assert forall|j: int, k: int| n <= j < k < a.acts.len() implies (#[trigger] a.acts[j])->Lift_voice < (
        #[trigger] a.acts[k])->Lift_voice by {
            assert(a.acts[j] == l[j - n] && a.acts[k] == l[k - n]);
        }
        assert forall|i: int|
            0 <= i < 32 && e.voices[i].note == Some(note) && (
            #[trigger] a.voices[i]).note is None implies a.acts.skip(n as int).contains(
            Act::Lift { voice: i as usize },
        ) by {
            assert(crate::engine::in_cluster(e.voices[i], note, seq));
            assert(e.lift_of(note, seq, i) <= 0);
        }
    } else {
        assert forall|i: int| 0 <= i < 32 implies !((#[trigger] e.voices[i]).note == Some(note)
            && e.voices[i].release_delay == -1) by {
            assert(!crate::engine::holds(e.voices[i], note));
        }
    }
}

/// An all-notes-off lifts all thirty-two voices, in order; what sounds on
/// them sounds on.
pub proof fn law_all_notes_off_lifts_every_voice(e: EngineView)
    requires
        e.wf(),
    ensures
        ({
            let a = e.answered(CommandView::AllNotesOff);
            let n = e.acts.len();
            &&& a.voices.len() == 32
            &&& a.acts.len() == n + 32
            &&& forall|j: int| 0 <= j < n ==> #[trigger] a.acts[j] == e.acts[j]
            &&& forall|i: int| 0 <= i < 32 ==> #[trigger] a.acts[n + i] == (Act::Lift { voice: i as usize })
            &&& forall|i: int|
                #![trigger a.voices[i]]
                0 <= i < 32 ==> a.voices[i].releasing && a.voices[i].note is None
                    && a.voices[i].steal_pending is None && a.voices[i].energy == e.voices[i].energy
                    && a.voices[i].bow_force == e.voices[i].bow_force && a.voices[i].seat == e.voices[i].seat
                    && a.voices[i].on_string == e.voices[i].on_string && a.voices[i].inst_idx == e.voices[i].inst_idx
            &&& a.held.len() == 0
            &&& a.patch == e.patch
            &&& a.seq == e.seq
        }),
{
}

/// A note-on counts one note and shows its key; the patch, the desk and the
/// strings stay.
pub proof fn law_a_note_on_leaves_the_patch(e: EngineView, note: u8, vel: u8)
    requires
        e.wf(),
        e.seq < u64::MAX,
    ensures
        ({
            let a = e.answered(CommandView::NoteOn(note, vel));
            &&& a.seq == e.seq + 1
            &&& a.patch == e.patch
            &&& a.dirty == e.dirty
            &&& a.symp_inst == e.symp_inst
            &&& a.applied_seed == e.applied_seed
            &&& a.onset_max == e.onset_max
            &&& a.release_max == e.release_max
            &&& e.held.contains(note) ==> a.held == e.held
            &&& !e.held.contains(note) ==> a.held == e.held.push(note)
        }),
{
    crate::laws::law_a_note_lights_all_its_players(e, note, vel);
    let n = crate::engine::players(e.patch);
    lemma_unison_leaves(e.pressed(note), note, vel, n, n as nat);
}

proof fn lemma_unison_leaves(e: EngineView, note: u8, vel: u8, n: int, k: nat)
    ensures
        e.unison(note, vel, n, k).dirty == e.dirty,
        e.unison(note, vel, n, k).symp_inst == e.symp_inst,
        e.unison(note, vel, n, k).applied_seed == e.applied_seed,
        e.unison(note, vel, n, k).onset_max == e.onset_max,
        e.unison(note, vel, n, k).release_max == e.release_max,
    decreases k,
{
    if k > 0 {
        lemma_unison_leaves(e, note, vel, n, (k - 1) as nat);
    }
}

/// How late the player on a voice lands: its onset, parked while the note is
/// queued.
pub open spec fn landing(v: ArchetVoice) -> int {
    if v.steal_pending is Some {
        v.pending_onset as int
    } else {
        v.onset_delay as int
    }
}

proof fn lemma_unison_lands(e: EngineView, note: u8, vel: u8, n: int, k: nat, j: int)
    requires
        e.wf(),
        all_older(e),
        0 <= j < k <= n <= crate::engine::pool_of(e.patch) <= 32,
    ensures
        exists|i: int| #[trigger]
            newest(e.unison(note, vel, n, k)).contains(i) && e.unison(note, vel, n, k).voices[i].seat
                == crate::engine::seat_of(j, n, e.patch.seed_offset) && landing(e.unison(note, vel, n, k).voices[i])
                == crate::engine::onset_of(note, j, e.seq, e.onset_max),
    decreases k,
{
    crate::laws::lemma_unison(e, note, vel, n, (k - 1) as nat);
    crate::laws::lemma_unison_keeps(e, note, vel, n, (k - 1) as nat);
    lemma_unison_leaves(e, note, vel, n, (k - 1) as nat);
    let d = e.unison(note, vel, n, (k - 1) as nat);
    let a = e.unison(note, vel, n, k);
    crate::engine::lemma_choice_exists(d.voices, crate::engine::pool_of(d.patch));
    let v = d.voices[d.next()].seated(
        crate::engine::seat_of(k - 1, n, e.patch.seed_offset),
        crate::engine::onset_of(note, k - 1, d.seq, d.onset_max),
    );
    crate::laws::lemma_takes(e, d, v, note, vel, k - 1);
    if j < k - 1 {
        lemma_unison_lands(e, note, vel, n, (k - 1) as nat, j);
        let i = choose|i: int| #[trigger]
            newest(d).contains(i) && d.voices[i].seat == crate::engine::seat_of(j, n, e.patch.seed_offset) && landing(
                d.voices[i],
            ) == crate::engine::onset_of(note, j, e.seq, e.onset_max);
        assert(newest(a).contains(i));
        assert(a.voices[i] == d.voices[i]);
    } else {
        assert(newest(a).contains(d.next()));
        assert(v.wf());
    }
}

/// Whether a voice is the one of seat `k` of `n`, its player landing as late
/// as note, seat and count draw it to; the first seat's lands on time.
pub open spec fn lands_from(v: ArchetVoice, k: int, n: int, note: u8, seq: u64, spread: u32) -> bool {
    &&& v.seat.place == k
    &&& v.seat.seats == n
    &&& k == 0 || spread == 0 ==> landing(v) == 0
    &&& k > 0 && spread > 0 ==> landing(v) == (((note * 2654435761 + k * 40503 + seq) % 0x1_0000_0000) / 32)
        % spread as int
}

proof fn lemma_lands_from(v: ArchetVoice, k: int, n: int, note: u8, seq: u64, spread: u32, seed: u32)
    requires
        0 <= k < n <= 8,
        v.seat == crate::engine::seat_of(k, n, seed),
        landing(v) == crate::engine::onset_of(note, k, seq, spread),
    ensures
        lands_from(v, k, n, note, seq, spread),
{
    law_players_land_within_the_spread(note, k, seq, spread);
}

/// Each seat of a section is taken by one of the voices a note lights, its
/// player landing in the seat's own time.
pub proof fn law_each_seat_lands_in_its_time(e: EngineView, note: u8, vel: u8, k: int)
    requires
        e.wf(),
        e.seq < u64::MAX,
        crate::patch::is_section(e.patch),
        0 <= k < crate::engine::players(e.patch),
    ensures
        exists|i: int| #[trigger]
            newest(e.answered(CommandView::NoteOn(note, vel))).contains(i) && lands_from(
                e.answered(CommandView::NoteOn(note, vel)).voices[i],
                k,
                crate::engine::players(e.patch),
                note,
                (e.seq + 1) as u64,
                e.onset_max,
            ),
{
    let p = e.pressed(note);
    let n = crate::engine::players(e.patch);
    lemma_pressed_is_sound(e, note, vel);
    lemma_unison_lands(p, note, vel, n, n as nat, k);
    let a = p.unison(note, vel, n, n as nat);
    let i = choose|i: int| #[trigger]
        newest(a).contains(i) && a.voices[i].seat == crate::engine::seat_of(k, n, e.patch.seed_offset) && landing(
            a.voices[i],
        ) == crate::engine::onset_of(note, k, p.seq, p.onset_max);
    lemma_lands_from(a.voices[i], k, n, note, p.seq, p.onset_max, e.patch.seed_offset);
    assert(e.answered(CommandView::NoteOn(note, vel)) == a);
}

proof fn lemma_pressed_is_sound(e: EngineView, note: u8, vel: u8)
    requires
        e.wf(),
        e.seq < u64::MAX,
    ensures
        e.pressed(note).wf(),
        all_older(e.pressed(note)),
        1 <= crate::engine::players(e.patch) <= crate::engine::pool_of(e.patch) <= 32,
        crate::engine::players(e.patch) <= 8,
{
    crate::laws::lemma_pressed(e, note);
    crate::laws::law_a_pressed_key_is_lit(e, note, vel, note);
    crate::laws::law_a_note_lights_all_its_players(e, note, vel);
}

/// A soloist's note sits alone on pitch and lands on time.
pub proof fn law_a_soloist_lands_on_time(e: EngineView, note: u8, vel: u8, i: int)
    requires
        e.wf(),
        e.seq < u64::MAX,
        !crate::patch::is_section(e.patch),
        newest(e.answered(CommandView::NoteOn(note, vel))).contains(i),
    ensures
        ({
            let v = e.answered(CommandView::NoteOn(note, vel)).voices[i];
            v.seat.place == 0 && v.seat.seats == 1 && v.seat.offset == 0 && landing(v) == 0
        }),
{
    let p = e.pressed(note);
    lemma_pressed_is_sound(e, note, vel);
    crate::engine::lemma_choice_exists(p.voices, crate::engine::pool_of(p.patch));
    if i != p.next() {
        assert(p.voices[i].on_seq < p.seq);
    }
    assert(p.voices[i].wf());
}

/// A loaded patch is played as it is but for a polyphony the pool can hold,
/// and is to be shown; no key and no sound changes. The sympathetic strings
/// follow its body, which is said once, where they were strung for another.
pub proof fn law_a_loaded_patch_is_played(e: EngineView, p: PatchView)
    requires
        e.wf(),
    ensures
        ({
            let a = e.answered(CommandView::LoadPatch(p));
            let reseeds = p.seed_offset != 0 && p.seed_offset != e.applied_seed;
            let restrings = p.instrument.index() != e.symp_inst;
            &&& a.patch == (PatchView { polyphony: a.patch.polyphony, ..p })
            &&& 1 <= p.polyphony <= 32 ==> a.patch.polyphony == p.polyphony
            &&& p.polyphony < 1 ==> a.patch.polyphony == 1
            &&& p.polyphony > 32 ==> a.patch.polyphony == 32
            &&& a.dirty
            &&& a.held == e.held
            &&& a.seq == e.seq
            &&& a.onset_max == e.onset_max
            &&& a.release_max == e.release_max
            &&& p.instrument == Instrument::Violin ==> a.symp_inst == 0
            &&& p.instrument == Instrument::Viola ==> a.symp_inst == 1
            &&& p.instrument == Instrument::Cello ==> a.symp_inst == 2
            &&& p.instrument == Instrument::DoubleBass ==> a.symp_inst == 3
            &&& a.acts.len() == e.acts.len() + (if restrings { 1int } else { 0 }) + (if reseeds { 1int } else { 0 })
            &&& forall|j: int| 0 <= j < e.acts.len() ==> #[trigger] a.acts[j] == e.acts[j]
            &&& restrings ==> a.acts[e.acts.len() as int] == (Act::Restring { body: a.symp_inst })
            &&& reseeds ==> a.acts.last() == Act::Reseed
            &&& reseeds ==> a.applied_seed == p.seed_offset
            &&& !reseeds ==> a.applied_seed == e.applied_seed && a.voices == e.voices
            &&& a.voices.len() == 32
            &&& forall|i: int|
                0 <= i < 32 ==> #[trigger] a.voices[i] == (ArchetVoice { streams: a.voices[i].streams, ..e.voices[i] })
            &&& forall|i: int|
                0 <= i < 32 && reseeds ==> (#[trigger] a.voices[i]).streams == crate::voice::desk_streams(
                    i as u32,
                    p.seed_offset,
                )
        }),
{
}

/// A knob turn writes its field, is to be shown, and restrings the
/// sympathetic strings where it chose another body.
pub proof fn law_a_knob_writes_the_patch(e: EngineView, param: ArchetParam, value: Single)
    requires
        e.wf(),
        e.symp_inst == e.patch.instrument.index(),
    ensures
        ({
            let a = e.answered(CommandView::SetParam { param, value });
            &&& a.patch == crate::patch::applied(param, e.patch, value)
            &&& a.dirty
            &&& a.voices == e.voices
            &&& a.held == e.held
            &&& a.seq == e.seq
            &&& a.symp_inst == a.patch.instrument.index()
            &&& a.patch.instrument == e.patch.instrument ==> a.acts == e.acts
            &&& a.patch.instrument != e.patch.instrument ==> a.acts == e.acts.push(
                Act::Restring { body: a.symp_inst },
            )
        }),
{
    crate::patch::law_only_a_choice_of_body_restrings(param, e.patch, value, 0);
}

/// A polyphony is set within one and thirty-two, an output level within
/// nought and two, each leaving the rest of the patch; a bend is the player's
/// alone.
pub proof fn law_a_setting_is_kept_in_range(e: EngineView, p: u8, l: Single)
    ensures
        e.answered(CommandView::SetPolyphony(p)) == (EngineView {
            patch: PatchView {
                polyphony: if p < 1 {
                    1
                } else if p > 32 {
                    32
                } else {
                    p
                },
                ..e.patch
            },
            dirty: true,
            ..e
        }),
        e.answered(CommandView::SetOutputLevel(l)) == (EngineView {
            patch: PatchView {
                output_level: e.answered(CommandView::SetOutputLevel(l)).patch.output_level,
                ..e.patch
            },
            dirty: true,
            ..e
        }),
        l.number() && 0 <= l.units() <= 2 * one() ==> e.answered(
            CommandView::SetOutputLevel(l),
        ).patch.output_level == l,
        l.number() && l.units() < 0 ==> e.answered(CommandView::SetOutputLevel(l)).patch.output_level.units() == 0,
        l.number() && l.units() > 2 * one() ==> e.answered(
            CommandView::SetOutputLevel(l),
        ).patch.output_level.units() == 2 * one(),
        e.answered(CommandView::PitchBend(l)) == e,
{
    crate::single::lemma_landmarks();
}

/// At another rate every voice is at rest on the streams of the patch's desk,
/// nothing is held, and the patch plays on, to be shown again.
pub proof fn law_a_rerated_engine_is_at_rest(e: EngineView, onset_max: u32, release_max: u32, i: int)
    requires
        0 <= i < 32,
    ensures
        ({
            let a = e.rerated(onset_max, release_max);
            &&& a.voices.len() == 32
            &&& !a.voices[i].active()
            &&& a.voices[i].voice_idx == i
            &&& a.voices[i].note is None
            &&& a.voices[i].steal_pending is None
            &&& !a.voices[i].stealing
            &&& !a.voices[i].releasing
            &&& a.voices[i].onset_delay == 0
            &&& a.voices[i].release_delay == -1
            &&& a.voices[i].on_string is None
            &&& a.voices[i].on_seq == 0
            &&& a.voices[i].inst_idx == 0
            &&& !a.voices[i].stopped
            &&& a.voices[i].seat == (Seat { place: 0, seats: 1, offset: 0 })
            &&& a.voices[i].energy.units() == 0 && a.voices[i].energy.number()
            &&& a.voices[i].bow_force.units() == 0 && a.voices[i].bow_force.number()
            &&& a.voices[i].steal_fade.units() == one()
            &&& a.voices[i].pending_onset == 0
            &&& a.voices[i].ctrl_counter == 0
            &&& a.voices[i].modal_recalc == 0
            &&& a.voices[i].streams == crate::voice::desk_streams(i as u32, e.patch.seed_offset)
            &&& a.applied_seed == e.patch.seed_offset
            &&& a.held.len() == 0
            &&& a.dirty
            &&& a.onset_max == onset_max
            &&& a.release_max == release_max
            &&& a.patch == e.patch
            &&& a.seq == e.seq
            &&& a.symp_inst == e.symp_inst
            &&& a.acts == e.acts
        }),
{
    crate::single::lemma_landmarks();
    crate::single::lemma_small_landmarks();
    crate::single::lemma_whole(1);
    crate::voice_laws::law_no_seed_is_the_first_desk(i as u32);
}

/// A fresh engine plays the default patch, a violin's, with no voice taken,
/// no key down and nothing asked yet.
pub proof fn law_a_fresh_engine_is_at_rest(onset_max: u32, release_max: u32, i: int)
    requires
        0 <= i < 32,
        release_max <= i32::MAX,
    ensures
        ({
            let e = EngineView::fresh(onset_max, release_max);
            &&& e.wf()
            &&& e.patch == crate::patch::default_view()
            &&& e.symp_inst == e.patch.instrument.index()
            &&& e.voices == e.rerated(onset_max, release_max).voices
            &&& !e.voices[i].active()
            &&& e.held.len() == 0
            &&& e.acts.len() == 0
            &&& e.seq == 0
            &&& e.applied_seed == 0
            &&& e.dirty
            &&& e.onset_max == onset_max
            &&& e.release_max == release_max
        }),
{
    law_a_rerated_engine_is_at_rest(EngineView::fresh(onset_max, release_max), onset_max, release_max, i);
    let e = EngineView::fresh(onset_max, release_max);
    assert forall|j: int| 0 <= j < 32 implies (#[trigger] e.voices[j]).wf() by {
        crate::laws::law_every_stream_runs(j as u32, 0);
        crate::voice_laws::law_no_seed_is_the_first_desk(j as u32);
    }
}

/// A rate counts as another from a thousandth up.
pub proof fn law_a_rate_moves_by_a_thousandth(by: Single)
    requires
        by.number(),
    ensures
        999 * by.units() >= one() ==> !crate::engine::same_rate(by),
        1_001 * by.units() <= one() ==> crate::engine::same_rate(by),
        by == Single::nearest(1, 1_000) ==> !crate::engine::same_rate(by),
{
    crate::single::lemma_landmarks();
    crate::reading::lemma_nearest_is_close(1, 1_000);
}

/// An engine is shown as it is.
pub proof fn law_an_engine_is_shown_as_it_is(e: ArchetEngine)
    ensures
        e@.voices == e.voices@,
        e@.held == e.held_keys@,
        e@.patch == e.patch@,
        e@.seq == e.note_seq,
        e@.symp_inst == e.symp_inst,
        e@.applied_seed == e.applied_seed,
        e@.dirty == e.patch_dirty,
        e@.onset_max == e.onset_max,
        e@.release_max == e.release_max,
        e@.acts == e.acts@,
{
}

/// A command says what it is.
pub proof fn law_a_command_says_what_it_is(c: ArchetCommand)
    ensures
        c matches ArchetCommand::NoteOn(n, v) ==> c@ == CommandView::NoteOn(n, v),
        c matches ArchetCommand::NoteOnLegato(n, v) ==> c@ == CommandView::NoteOnLegato(n, v),
        c matches ArchetCommand::BowChange(n, v) ==> c@ == CommandView::BowChange(n, v),
        c matches ArchetCommand::NoteOff(n) ==> c@ == CommandView::NoteOff(n),
        c is AllNotesOff ==> c@ == CommandView::AllNotesOff,
        c matches ArchetCommand::PitchBend(b) ==> c@ == CommandView::PitchBend(b),
        c matches ArchetCommand::SetPolyphony(p) ==> c@ == CommandView::SetPolyphony(p),
        c matches ArchetCommand::SetOutputLevel(l) ==> c@ == CommandView::SetOutputLevel(l),
        c matches ArchetCommand::LoadPatch(p) ==> c@ == CommandView::LoadPatch(p@),
        c matches ArchetCommand::SetParam { param, value } ==> c@ == (CommandView::SetParam { param, value }),
{
}

/// What is asked of the strings is handed over once, and nothing else changes.
pub proof fn law_acts_are_handed_over_once(e: EngineView)
    ensures
        e.handed_over().acts.len() == 0,
        e.handed_over() == (EngineView { acts: e.handed_over().acts, ..e }),
{
}

/// The players of a note that are still down on a voice below `i`.
pub open spec fn players_below(e: EngineView, note: u8, seq: u64, i: int) -> Set<int> {
    Set::new(
        |j: int|
            0 <= j < i && e.voices[j].note == Some(note) && e.voices[j].release_delay == -1 && e.voices[j].on_seq
                == seq,
    )
}

proof fn lemma_players_below(e: EngineView, note: u8, seq: u64, i: int)
    requires
        0 <= i <= e.voices.len(),
    ensures
        players_below(e, note, seq, i).finite(),
        players_below(e, note, seq, i).len() == crate::engine::rank(e.voices, note, seq, i),
        players_below(e, note, seq, i).len() <= i,
    decreases i,
{
    let s = players_below(e, note, seq, i);
    if i == 0 {
        assert(s =~= Set::<int>::empty());
    } else {
        lemma_players_below(e, note, seq, i - 1);
        let t = players_below(e, note, seq, i - 1);
        if crate::engine::in_cluster(e.voices[i - 1], note, seq) {
            assert(s =~= t.insert(i - 1));
        } else {
            assert(s =~= t);
        }
    }
}

/// How late the player `k` of a note let go lifts: a soloist and the first of
/// a section at once, the others as note, player and count draw it.
pub open spec fn lifts_after(section: bool, k: int, note: u8, seq: u64, spread: u32) -> int {
    if !section || k == 0 || spread == 0 {
        0
    } else {
        ((note * 2654435761 + k * 2246822519 + seq) % 0x1_0000_0000) % spread as int
    }
}

/// A key up lets go the note-on of its pitch that has been down longest, each
/// of its players in their own time, counted from the lowest voice up: at
/// once, or so many samples on. No other voice changes.
pub proof fn law_each_player_lifts_in_its_time(e: EngineView, note: u8, i: int)
    requires
        e.wf(),
        0 <= i < 32,
    ensures
        ({
            let v = e.voices[i];
            let a = e.answered(CommandView::NoteOff(note)).voices[i];
            let k = players_below(e, note, v.on_seq, i).len() as int;
            let d = lifts_after(crate::patch::is_section(e.patch), k, note, v.on_seq, e.release_max);
            let down = v.note == Some(note) && v.release_delay == -1;
            let longest = forall|j: int|
                0 <= j < 32 && (#[trigger] e.voices[j]).note == Some(note) && e.voices[j].release_delay == -1
                    ==> v.on_seq <= e.voices[j].on_seq;
            &&& down && longest && d == 0 ==> a == v.released()
            &&& down && longest && d != 0 ==> a == (ArchetVoice { release_delay: d as i32, ..v }) && 0 < d
                < e.release_max
            &&& !(down && longest) ==> a == v
        }),
{
    let v = e.voices[i];
    let k = players_below(e, note, v.on_seq, i).len() as int;
    lemma_players_below(e, note, v.on_seq, i);
    law_players_lift_within_the_spread(
        crate::patch::is_section(e.patch),
        note,
        k,
        v.on_seq,
        e.release_max,
    );
    crate::laws::law_one_off_pairs_with_one_on(e, note, i);
    if v.note == Some(note) && v.release_delay == -1 {
        assert(crate::engine::holds(v, note));
        crate::laws::lemma_cluster_exists(e.voices, note, i);
        let seq = crate::engine::cluster(e.voices, note);
        let c = choose|c: int|
            0 <= c < e.voices.len() && crate::engine::holds(#[trigger] e.voices[c], note) && e.voices[c].on_seq == seq;
        assert(e.voices[c].note == Some(note) && e.voices[c].release_delay == -1);
        if forall|j: int|
            0 <= j < 32 && (#[trigger] e.voices[j]).note == Some(note) && e.voices[j].release_delay == -1 ==> v.on_seq
                <= e.voices[j].on_seq {
            assert(v.on_seq == seq);
        } else {
            let j = choose|j: int|
                0 <= j < 32 && (#[trigger] e.voices[j]).note == Some(note) && e.voices[j].release_delay == -1
                    && e.voices[j].on_seq < v.on_seq;
            assert(crate::engine::holds(e.voices[j], note));
        }
    }
}

/// A note-on changes no voice that it does not take but for a finger on its
/// string: not a bowed patch's, not one outside the pool, not one that is
/// free or on no string.
pub proof fn law_a_finger_touches_no_other_voice(e: EngineView, note: u8, vel: u8, i: int)
    requires
        e.wf(),
        e.seq < u64::MAX,
        0 <= i < 32,
        !newest(e.answered(CommandView::NoteOn(note, vel))).contains(i),
    ensures
        ({
            let a = e.answered(CommandView::NoteOn(note, vel)).voices[i];
            &&& a == (ArchetVoice { stopped: a.stopped, ..e.voices[i] })
            &&& !e.patch.pluck || i >= crate::engine::pool_of(e.patch) || !e.voices[i].active()
                || e.voices[i].on_string is None ==> a == e.voices[i]
        }),
{
    crate::laws::law_a_note_lights_all_its_players(e, note, vel);
    assert(e.note_on(note, vel).voices[i] == e.pressed(note).voices[i]);
}

/// The sympathetic strings are always those of the patch's body: whatever an
/// engine is asked, they follow it, and each time they do it is said.
#[verifier::rlimit(50)]
pub proof fn law_the_open_strings_follow_the_body(e: EngineView, cmd: CommandView)
    requires
        e.wf(),
        e.seq < u64::MAX,
        e.symp_inst == e.patch.instrument.index(),
    ensures
        e.answered(cmd).symp_inst == e.answered(cmd).patch.instrument.index(),
        e.answered(cmd).patch.instrument != e.patch.instrument ==> e.answered(cmd).acts.contains(
            Act::Restring { body: e.answered(cmd).symp_inst },
        ),
{
    match cmd {
        CommandView::NoteOn(note, vel) => {
            law_a_note_on_leaves_the_patch(e, note, vel);
        },
        CommandView::LoadPatch(p) => {
            let a = e.answered(cmd);
            if p.instrument != e.patch.instrument {
                assert(a.acts[e.acts.len() as int] == (Act::Restring { body: a.symp_inst }));
            }
        },
        CommandView::SetParam { param, value } => {
            law_a_knob_writes_the_patch(e, param, value);
            let a = e.answered(cmd);
            if a.patch.instrument != e.patch.instrument {
                assert(a.acts[e.acts.len() as int] == (Act::Restring { body: a.symp_inst }));
            }
        },
        _ => {},
    }
}

/// What stays of an engine whatever it is asked: how its attacks and lifts
/// spread, and the acts it had already asked for.
pub proof fn law_no_command_takes_back_an_act(e: EngineView, cmd: CommandView, j: int)
    requires
        e.wf(),
        e.seq < u64::MAX,
        0 <= j < e.acts.len(),
    ensures
        e.answered(cmd).onset_max == e.onset_max,
        e.answered(cmd).release_max == e.release_max,
        e.acts.len() <= e.answered(cmd).acts.len(),
        e.answered(cmd).acts[j] == e.acts[j],
{
    match cmd {
        CommandView::NoteOn(note, vel) => {
            law_a_note_on_leaves_the_patch(e, note, vel);
            law_a_note_is_passed_on_as_played(e, note, vel);
        },
        CommandView::NoteOff(note) => {
            law_a_key_up_lifts_its_voices(e, note);
        },
        _ => {},
    }
}

/// A patch whose players are no number plays alone, and a rate that is none
/// counts as another.
pub proof fn law_players_that_are_no_number_play_alone(p: PatchView, by: Single)
    ensures
        !p.ensemble.number() ==> !crate::patch::is_section(p) && crate::engine::players(p) == 1,
        !by.number() ==> !crate::engine::same_rate(by),
{
}

} // verus!
