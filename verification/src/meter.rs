//! What an engine shows of itself: its peaks, its voices, the keys that are
//! down and the patch it plays, as often as an editor can use.

use vstd::prelude::*;
use crate::engine::{ArchetEngine, EngineView};
use crate::patch::{ArchetPatch, PatchView};
use crate::single::Single;

verus! {

/// One reading of the meters.
#[derive(Clone, Debug)]
pub struct ArchetMeterState {
    pub peak_l: Single,
    pub peak_r: Single,
    pub voice_count: usize,
    /// The keys that are down, for a keyboard to show.
    pub active_notes: Vec<u8>,
    pub cpu_percent: Single,
    pub patch_snapshot: Option<ArchetPatch>,
}

/// What a reading says.
#[verifier::ext_equal]
pub struct ReadingView {
    pub peak_l: Single,
    pub peak_r: Single,
    pub voice_count: int,
    pub active_notes: Seq<u8>,
    pub cpu_percent: Single,
    pub patch_snapshot: Option<PatchView>,
}

impl View for ArchetMeterState {
    type V = ReadingView;

    open spec fn view(&self) -> ReadingView {
        ReadingView {
            peak_l: self.peak_l,
            peak_r: self.peak_r,
            voice_count: self.voice_count as int,
            active_notes: self.active_notes@,
            cpu_percent: self.cpu_percent,
            patch_snapshot: match self.patch_snapshot {
                Some(p) => Some(p@),
                None => None,
            },
        }
    }
}

/// The meters behind the readings.
pub struct Meter {
    /// Frames since the last reading.
    pub counter: usize,
    /// Frames between two readings.
    pub interval: usize,
    pub peak_l: Single,
    pub peak_r: Single,
    /// The last reading.
    pub shadow: ArchetMeterState,
}

/// The meters, as their contracts speak of them.
#[verifier::ext_equal]
pub struct MeterView {
    pub counter: int,
    pub interval: int,
    pub peak_l: Single,
    pub peak_r: Single,
    pub shadow: ReadingView,
}

impl View for Meter {
    type V = MeterView;

    open spec fn view(&self) -> MeterView {
        MeterView {
            counter: self.counter as int,
            interval: self.interval as int,
            peak_l: self.peak_l,
            peak_r: self.peak_r,
            shadow: self.shadow@,
        }
    }
}

/// Copy the keys that are down into the room an older copy took.
fn copy_keys(keys: &Vec<u8>, into: &mut Vec<u8>)
    ensures
        final(into)@ == keys@,
{
    into.clear();
    let mut i: usize = 0;
    while i < keys.len()
        invariant
            i <= keys.len(),
            into@ == keys@.take(i as int),
        decreases keys.len() - i,
    {
        into.push(keys[i]);
        assert(keys@.take(i + 1) =~= keys@.take(i as int).push(keys@[i as int]));
        i = i + 1;
    }
    assert(keys@.take(i as int) =~= keys@);
}

impl MeterView {
    /// Meters at rest, with nothing read yet.
    pub open spec fn fresh(interval: int) -> MeterView {
        MeterView {
            counter: 0,
            interval,
            peak_l: Single { bits: 0 },
            peak_r: Single { bits: 0 },
            shadow: ReadingView {
                peak_l: Single { bits: 0 },
                peak_r: Single { bits: 0 },
                voice_count: 0,
                active_notes: Seq::empty(),
                cpu_percent: Single { bits: 0 },
                patch_snapshot: None,
            },
        }
    }

    /// The meters with a sample of each side taken in.
    pub open spec fn peaked(self, l: Single, r: Single) -> MeterView {
        MeterView {
            peak_l: self.peak_l.larger(l.magnitude()),
            peak_r: self.peak_r.larger(r.magnitude()),
            ..self
        }
    }

    /// The engine once a block has passed: a reading clears its mark.
    pub open spec fn read_off(self, e: EngineView, frames: int) -> EngineView {
        EngineView { dirty: e.dirty && !self.due(frames), ..e }
    }

    /// Whether a reading is due once these frames have passed.
    pub open spec fn due(self, frames: int) -> bool {
        self.counter + frames >= self.interval
    }

    /// The meters once a block has passed.
    pub open spec fn published(self, e: EngineView, frames: int, voice_count: int, cpu: Single) -> MeterView {
        if !self.due(frames) {
            MeterView { counter: self.counter + frames, ..self }
        } else {
            MeterView {
                counter: 0,
                peak_l: Single { bits: 0 },
                peak_r: Single { bits: 0 },
                shadow: ReadingView {
                    peak_l: self.peak_l,
                    peak_r: self.peak_r,
                    voice_count,
                    active_notes: e.held,
                    cpu_percent: cpu,
                    patch_snapshot: if e.dirty || self.shadow.patch_snapshot is None {
                        Some(e.patch)
                    } else {
                        self.shadow.patch_snapshot
                    },
                },
                ..self
            }
        }
    }
}

impl Meter {
    /// Meters at rest, with nothing read yet.
    pub fn new(interval: usize) -> (r: Meter)
        ensures
            r@ == MeterView::fresh(interval as int),
    {
        Meter {
            counter: 0,
            interval,
            peak_l: Single { bits: 0 },
            peak_r: Single { bits: 0 },
            shadow: ArchetMeterState {
                peak_l: Single { bits: 0 },
                peak_r: Single { bits: 0 },
                voice_count: 0,
                active_notes: Vec::new(),
                cpu_percent: Single { bits: 0 },
                patch_snapshot: None,
            },
        }
    }

    /// Follow the loudest sample of each side.
    pub fn note_peak(&mut self, l: Single, r: Single)
        ensures
            final(self)@ == old(self)@.peaked(l, r),
    {
        self.peak_l = self.peak_l.max(l.abs());
        self.peak_r = self.peak_r.max(r.abs());
    }

    /// End a block of `frames` with `voice_count` voices sounding, and say
    /// whether a reading is out. The patch is read again only where it has
    /// changed, and a reading that shows it clears the engine's mark.
    pub fn publish_meter(
        &mut self,
        engine: &mut ArchetEngine,
        frames: usize,
        voice_count: usize,
        cpu_percent: Single,
    ) -> (r: bool)
        requires
            old(self).counter + frames <= usize::MAX,
        ensures
            r == old(self)@.due(frames as int),
            final(self)@ == old(self)@.published(old(engine)@, frames as int, voice_count as int, cpu_percent),
            final(engine)@ == old(self)@.read_off(old(engine)@, frames as int),
    {
        self.counter = self.counter + frames;
        if self.counter < self.interval {
            return false;
        }
        self.counter = 0;
        self.shadow.peak_l = self.peak_l;
        self.shadow.peak_r = self.peak_r;
        self.shadow.cpu_percent = cpu_percent;
        self.shadow.voice_count = voice_count;
        copy_keys(&engine.held_keys, &mut self.shadow.active_notes);
        if engine.patch_dirty || self.shadow.patch_snapshot.is_none() {
            self.shadow.patch_snapshot = Some(engine.patch.copied());
            engine.patch_dirty = false;
        }
        self.peak_l = Single { bits: 0 };
        self.peak_r = Single { bits: 0 };
        true
    }
}

/// Whatever changes the patch is shown: the next reading after a change
/// carries the patch as it is then.
pub proof fn law_a_changed_patch_is_shown(m: MeterView, e: EngineView, frames: int, voices: int, cpu: Single)
    requires
        e.dirty,
        m.due(frames),
    ensures
        m.published(e, frames, voices, cpu).shadow.patch_snapshot == Some(e.patch),
        m.published(e, frames, voices, cpu).shadow.active_notes == e.held,
{
}

/// A reading is out once its interval of frames has passed, and shows the
/// loudest samples since the last one, the voices, the keys and the load as
/// they are; the meters then start again from nothing. Until then nothing
/// shown changes.
pub proof fn law_a_reading_shows_what_was_played(m: MeterView, e: EngineView, frames: int, voices: int, cpu: Single)
    ensures
        m.due(frames) <==> m.interval <= m.counter + frames,
        m.due(frames) ==> {
            let r = m.published(e, frames, voices, cpu);
            &&& r.shadow.peak_l == m.peak_l
            &&& r.shadow.peak_r == m.peak_r
            &&& r.shadow.voice_count == voices
            &&& r.shadow.active_notes == e.held
            &&& r.shadow.cpu_percent == cpu
            &&& !e.dirty && m.shadow.patch_snapshot is Some ==> r.shadow.patch_snapshot == m.shadow.patch_snapshot
            &&& e.dirty || m.shadow.patch_snapshot is None ==> r.shadow.patch_snapshot == Some(e.patch)
            &&& r.counter == 0
            &&& r.interval == m.interval
            &&& r.peak_l.units() == 0 && r.peak_l.number()
            &&& r.peak_r.units() == 0 && r.peak_r.number()
            &&& !m.read_off(e, frames).dirty
        },
        !m.due(frames) ==> {
            let r = m.published(e, frames, voices, cpu);
            &&& r.shadow == m.shadow
            &&& r.peak_l == m.peak_l
            &&& r.peak_r == m.peak_r
            &&& r.interval == m.interval
            &&& r.counter == m.counter + frames
            &&& m.read_off(e, frames).dirty == e.dirty
        },
        m.read_off(e, frames) == (EngineView { dirty: m.read_off(e, frames).dirty, ..e }),
{
    crate::single::lemma_landmarks();
}

/// A peak is the largest magnitude since the last reading: no less than the
/// one before and the sample's, and one of the two. Each side has its own.
pub proof fn law_a_peak_is_the_loudest(m: MeterView, l: Single, r: Single)
    requires
        l.number(),
        r.number(),
        m.peak_l.number() && m.peak_l.units() >= 0,
        m.peak_r.number() && m.peak_r.units() >= 0,
    ensures
        ({
            let p = m.peaked(l, r);
            &&& p.peak_l.number() && p.peak_r.number()
            &&& p.peak_l.units() >= m.peak_l.units()
            &&& p.peak_l.units() >= l.units() && p.peak_l.units() >= -l.units()
            &&& p.peak_l.units() == m.peak_l.units() || p.peak_l.units() == l.units() || p.peak_l.units()
                == -l.units()
            &&& p.peak_r.units() >= m.peak_r.units()
            &&& p.peak_r.units() >= r.units() && p.peak_r.units() >= -r.units()
            &&& p.peak_r.units() == m.peak_r.units() || p.peak_r.units() == r.units() || p.peak_r.units()
                == -r.units()
            &&& p.counter == m.counter
            &&& p.interval == m.interval
            &&& p.shadow == m.shadow
        }),
{
    crate::single::lemma_steps_zero(l.low());
    crate::single::lemma_steps_zero(r.low());
}

/// Fresh meters have read nothing, and read the patch at the first reading.
pub proof fn law_fresh_meters_have_read_nothing(interval: int, e: EngineView, frames: int, voices: int, cpu: Single)
    requires
        interval <= frames,
    ensures
        MeterView::fresh(interval).counter == 0,
        MeterView::fresh(interval).interval == interval,
        MeterView::fresh(interval).peak_l.units() == 0,
        MeterView::fresh(interval).peak_r.units() == 0,
        MeterView::fresh(interval).shadow.patch_snapshot is None,
        MeterView::fresh(interval).shadow.active_notes.len() == 0,
        MeterView::fresh(interval).shadow.voice_count == 0,
        MeterView::fresh(interval).published(e, frames, voices, cpu).shadow.patch_snapshot == Some(e.patch),
{
    crate::single::lemma_landmarks();
}

/// A reading, and the meters, are shown as they are.
pub proof fn law_meters_are_shown_as_they_are(m: Meter, r: ArchetMeterState)
    ensures
        m@.counter == m.counter,
        m@.interval == m.interval,
        m@.peak_l == m.peak_l,
        m@.peak_r == m.peak_r,
        m@.shadow == m.shadow@,
        r@.peak_l == r.peak_l,
        r@.peak_r == r.peak_r,
        r@.voice_count == r.voice_count,
        r@.active_notes == r.active_notes@,
        r@.cpu_percent == r.cpu_percent,
        r.patch_snapshot is None <==> r@.patch_snapshot is None,
        r.patch_snapshot matches Some(p) ==> r@.patch_snapshot == Some(p@),
{
}

} // verus!
