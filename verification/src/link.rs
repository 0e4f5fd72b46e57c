//! The chain an audio thread runs, as an editor and the audio thread hand it
//! to each other: a value and a counter.
//!
//! The value is always written before the counter moves, so a reader that
//! sees a new number reads the value that goes with it. Each side remembers
//! the number it last saw.

use vstd::prelude::*;
use crate::fx::{ChainSpec, SlotView};

verus! {

/// The value and the counter.
pub struct FxLink {
    pub live: ChainSpec,
    pub rev: u64,
}

/// The value and the counter, as their contracts speak of them.
#[verifier::ext_equal]
pub struct LinkView {
    pub live: Seq<SlotView>,
    pub rev: u64,
}

impl View for FxLink {
    type V = LinkView;

    open spec fn view(&self) -> LinkView {
        LinkView { live: self.live@, rev: self.rev }
    }
}

impl LinkView {
    /// A link on a chain, its counter at nought.
    pub open spec fn fresh(spec: Seq<SlotView>) -> LinkView {
        LinkView { live: spec, rev: 0 }
    }

    /// The number a reader has seen once it has looked, where the value was
    /// free to read or it was not.
    pub open spec fn seen_after(self, seen: u64, free: bool) -> u64 {
        if free {
            self.rev
        } else {
            seen
        }
    }

    /// The link once a chain is published on it.
    pub open spec fn published(self, spec: Seq<SlotView>) -> LinkView {
        LinkView { live: spec, rev: self.rev.wrapping_add(1) }
    }

    /// The link once a chain is written without moving the counter.
    pub open spec fn seeded(self, spec: Seq<SlotView>) -> LinkView {
        LinkView { live: spec, ..self }
    }

    /// What a reader that last saw `seen` is given.
    pub open spec fn news(self, seen: u64) -> Option<Seq<SlotView>> {
        if self.rev == seen {
            None
        } else {
            Some(self.live)
        }
    }
}

impl FxLink {
    /// A link on a chain, its counter at nought.
    pub fn new(spec: ChainSpec) -> (r: FxLink)
        ensures
            r@ == LinkView::fresh(spec@),
    {
        FxLink { live: spec, rev: 0 }
    }

    /// The counter.
    pub fn rev(&self) -> (r: u64)
        ensures
            r == self@.rev,
    {
        self.rev
    }

    /// Replaces the value without moving the counter: what a side that has
    /// already applied `spec` itself writes, so the other side finds it.
    pub fn seed(&mut self, spec: ChainSpec)
        ensures
            final(self)@ == old(self)@.seeded(spec@),
    {
        self.live = spec;
    }

    /// Writes `spec`, then moves the counter; returns the number the writer
    /// has now seen.
    pub fn publish(&mut self, spec: ChainSpec) -> (r: u64)
        ensures
            final(self)@ == old(self)@.published(spec@),
            r == final(self)@.rev,
    {
        self.live = spec;
        self.rev = self.rev.wrapping_add(1);
        self.rev
    }

    /// The editor's side: the chain, when the counter moved since `seen`.
    pub fn adopt(&self, seen: &mut u64) -> (r: Option<ChainSpec>)
        ensures
            match r {
                Some(spec) => self@.news(*old(seen)) == Some(spec@),
                None => self@.news(*old(seen)) is None,
            },
            *final(seen) == self@.seen_after(*old(seen), true),
    {
        if self.rev == *seen {
            return None;
        }
        *seen = self.rev;
        Some(self.live.copied())
    }

    /// The audio thread's side: the chain, when the counter moved since
    /// `seen` and the value is free to read. A block on which it is not is
    /// picked up on the next one.
    pub fn apply_if_new(&self, seen: &mut u64, free: bool) -> (r: Option<&ChainSpec>)
        ensures
            match r {
                Some(spec) => free && self@.news(*old(seen)) == Some(spec@),
                None => !free || self@.news(*old(seen)) is None,
            },
            *final(seen) == self@.seen_after(*old(seen), free),
    {
        if self.rev == *seen {
            return None;
        }
        if !free {
            return None;
        }
        *seen = self.rev;
        Some(&self.live)
    }
}

/// A published chain is what the other side is given, once: a reader that
/// was up to date sees it, and having seen it sees nothing more.
pub proof fn law_a_published_chain_arrives_once(link: LinkView, spec: Seq<SlotView>)
    ensures
        link.published(spec).news(link.rev) == Some(spec),
        link.published(spec).news(link.published(spec).rev) is None,
{
}

/// A seed moves no counter: a side that was up to date is told nothing, and
/// the next one to publish overwrites it.
pub proof fn law_a_seed_is_not_news(link: LinkView, spec: Seq<SlotView>, seen: u64, next: Seq<SlotView>)
    ensures
        link.seeded(spec).news(link.rev) is None,
        link.seeded(spec).published(next) == link.published(next),
        seen != link.rev ==> link.seeded(spec).news(seen) == Some(spec),
{
}

/// Publishing the chain that was there before puts it back: after an edit and
/// a return, the other side ends on the first chain.
pub proof fn law_publishing_again_puts_the_chain_back(link: LinkView, edit: Seq<SlotView>)
    ensures
        link.published(edit).published(link.live).live == link.live,
        link.published(edit).published(link.live).news(link.published(edit).rev) == Some(link.live),
{
}

/// A chain published is the one there, with the counter moved by one; a chain
/// seeded is the one there with the counter where it was. A reader is given
/// the chain that is there, where its number is another.
pub proof fn law_the_link_holds_what_was_written(link: LinkView, spec: Seq<SlotView>, seen: u64)
    ensures
        link.published(spec).live == spec,
        link.rev < u64::MAX ==> link.published(spec).rev == link.rev + 1,
        link.rev == u64::MAX ==> link.published(spec).rev == 0,
        link.seeded(spec).live == spec,
        link.seeded(spec).rev == link.rev,
        link.news(seen) is None <==> seen == link.rev,
        seen != link.rev ==> link.news(seen) == Some(link.live),
{
}

/// A link is shown as it is.
pub proof fn law_a_link_is_shown_as_it_is(l: FxLink)
    ensures
        l@.live == l.live@,
        l@.rev == l.rev,
{
}

/// A reader that could read has seen the number that is there and is told
/// nothing more; one that could not has seen what it had, and is told on the
/// next look. A fresh link has told nobody of nought.
pub proof fn law_a_reader_catches_up(link: LinkView, spec: Seq<SlotView>, seen: u64)
    ensures
        link.news(link.seen_after(seen, true)) is None,
        link.news(link.seen_after(seen, false)) == link.news(seen),
        LinkView::fresh(spec).live == spec,
        LinkView::fresh(spec).news(0) is None,
{
}

} // verus!
