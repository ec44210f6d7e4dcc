//! The cache of layout results.

use vstd::prelude::*;
use crate::constraints::Constrained;
use crate::frame::{Frame, FrameView};
use crate::regions::Regions;
use crate::seqs::lemma_filter_take;

verus! {

/// Constrained frames as mathematical values.
pub type Frames = Seq<Constrained<FrameView>>;

/// The frames of a layout result as mathematical values.
pub open spec fn frames_view(frames: Seq<Constrained<Frame>>) -> Frames {
    Seq::new(frames.len(), |i: int| Constrained { item: frames[i].item@, cts: frames[i].cts })
}

/// Whether the frames may be used for `regions`: there is a region for each
/// frame, and each frame's constraints are met.
pub open spec fn entry_valid(frames: Frames, regions: Regions) -> bool {
    &&& frames.len() <= 1
    &&& forall|i: int| 0 <= i < frames.len() ==> (#[trigger] frames[i]).cts.satisfied(regions)
}

/// Cached frames from past layouts of one node.
#[derive(Debug)]
pub struct FramesEntry {
    /// The cached frames for a node.
    pub frames: Vec<Constrained<Frame>>,
    /// How nested the call was that produced the frames.
    pub level: usize,
}

/// A cache entry together with the fingerprint it is stored under.
#[derive(Debug)]
pub struct Slot {
    pub hash: u64,
    pub entry: FramesEntry,
}

/// A cache entry as a mathematical value.
pub struct SlotView {
    pub hash: u64,
    pub frames: Frames,
    pub level: usize,
}

/// Caches layouting artifacts, in the order in which they were stored.
#[derive(Debug)]
pub struct LayoutCache {
    pub slots: Vec<Slot>,
}

/// Whether a slot answers a request for `hash` and `regions`.
pub open spec fn hit(slot: SlotView, hash: u64, regions: Regions) -> bool {
    slot.hash == hash && entry_valid(slot.frames, regions)
}

/// The frames that a lookup returns: those of the first slot that answers.
pub open spec fn lookup_spec(slots: Seq<SlotView>, hash: u64, regions: Regions) -> Option<Frames>
    decreases slots.len(),
{
    if slots.len() == 0 {
        None
    } else if hit(slots[0], hash, regions) {
        Some(slots[0].frames)
    } else {
        lookup_spec(slots.drop_first(), hash, regions)
    }
}

/// The test that a slot was produced at nesting `level` or less.
pub open spec fn within(level: int) -> spec_fn(SlotView) -> bool {
    |s: SlotView| s.level <= level
}

/// The slots that were produced at nesting `level` or less, in order.
pub open spec fn scoped(slots: Seq<SlotView>, level: int) -> Seq<SlotView> {
    slots.filter(within(level))
}

/// A copy of constrained frames.
pub fn duplicate_frames(frames: &Vec<Constrained<Frame>>) -> (res: Vec<Constrained<Frame>>)
    ensures
        frames_view(res@) == frames_view(frames@),
{
    let mut out: Vec<Constrained<Frame>> = Vec::new();
    let mut i: usize = 0;
    while i < frames.len()
        invariant
            i <= frames.len(),
            out@.len() == i,
            forall|k: int| 0 <= k < i ==> (#[trigger] out@[k]).item@ == frames@[k].item@ && out@[k].cts == frames@[k].cts,
        decreases frames.len() - i,
    {
        let item = frames[i].item.duplicate();
        out.push(Constrained { item, cts: frames[i].cts });
        i += 1;
    }
    proof {
        assert(frames_view(out@) =~= frames_view(frames@));
    }
    out
}

impl View for FramesEntry {
    type V = Frames;

    open spec fn view(&self) -> Frames {
        frames_view(self.frames@)
    }
}

impl View for Slot {
    type V = SlotView;

    open spec fn view(&self) -> SlotView {
        SlotView { hash: self.hash, frames: self.entry@, level: self.entry.level }
    }
}

impl View for LayoutCache {
    type V = Seq<SlotView>;

    open spec fn view(&self) -> Seq<SlotView> {
        Seq::new(self.slots@.len(), |i: int| self.slots@[i]@)
    }
}

impl FramesEntry {
    /// An entry for frames produced at nesting `level`.
    pub fn new(frames: Vec<Constrained<Frame>>, level: usize) -> (res: FramesEntry)
        ensures
            res.frames == frames,
            res.level == level,
    {
        FramesEntry { frames, level }
    }

    /// Whether the frames may be used for `regions`.
    pub fn check(&self, regions: &Regions) -> (res: bool)
        ensures
            res == entry_valid(self@, *regions),
    {
        if self.frames.len() > 1 {
            return false;
        }
        if self.frames.len() == 1 {
            let ok = self.frames[0].cts.check(regions);
            proof {
                assert(self@[0].cts == self.frames@[0].cts);
            }
            return ok;
        }
        true
    }

    /// A copy of the frames, if they may be used for `regions`.
    pub fn lookup(&self, regions: &Regions) -> (res: Option<Vec<Constrained<Frame>>>)
        ensures
            res is Some <==> entry_valid(self@, *regions),
            res is Some ==> frames_view(res->0@) == self@,
    {
        if self.check(regions) {
            Some(duplicate_frames(&self.frames))
        } else {
            None
        }
    }
}

impl LayoutCache {
    /// An empty cache.
    pub fn new() -> (res: LayoutCache)
        ensures
            res@ == Seq::<SlotView>::empty(),
    {
        let res = LayoutCache { slots: Vec::new() };
        proof {
            assert(res@ =~= Seq::<SlotView>::empty());
        }
        res
    }

    /// The number of entries.
    pub fn len(&self) -> (res: usize)
        ensures
            res == self@.len(),
    {
        self.slots.len()
    }

    /// Looks for frames stored under `hash` that may be used for `regions`.
    pub fn get(&self, hash: u64, regions: &Regions) -> (res: Option<Vec<Constrained<Frame>>>)
        ensures
            res is Some <==> lookup_spec(self@, hash, *regions) is Some,
            res is Some ==> frames_view(res->0@) == lookup_spec(self@, hash, *regions)->0,
    {
        let mut i: usize = 0;
        proof {
            assert(self@.skip(0) =~= self@);
        }
        while i < self.slots.len()
            invariant
                i <= self.slots.len(),
                lookup_spec(self@, hash, *regions) == lookup_spec(self@.skip(i as int), hash, *regions),
            decreases self.slots.len() - i,
        {
            proof {
                assert(self@.skip(i as int)[0] == self.slots@[i as int]@);
                assert(self@.skip(i as int).drop_first() =~= self@.skip(i + 1));
            }
            if self.slots[i].hash == hash {
                let found = self.slots[i].entry.lookup(regions);
                if found.is_some() {
                    return found;
                }
            }
            i += 1;
        }
        proof {
            assert(self@.skip(i as int).len() == 0);
        }
        None
    }

    /// Stores an entry under `hash`, behind those that are there.
    pub fn insert(&mut self, hash: u64, entry: FramesEntry)
        ensures
            final(self)@ == old(self)@.push(
                SlotView { hash, frames: entry@, level: entry.level },
            ),
    {
        self.slots.push(Slot { hash, entry });
        proof {
            assert(self@ =~= old(self)@.push(SlotView { hash, frames: entry@, level: entry.level }));
        }
    }

    /// Drops the entries that were produced more deeply nested than `level`.
    pub fn evict(&mut self, level: usize)
        ensures
            final(self)@ == scoped(old(self)@, level as int),
    {
        let ghost before = self@;
        let ghost keep = within(level as int);
        let mut i: usize = 0;
        let ghost mut j: int = 0;
        proof {
            reveal(Seq::filter);
            assert(before.take(0) =~= Seq::<SlotView>::empty());
            assert(self@.take(0) =~= Seq::<SlotView>::empty());
            assert(self@.skip(0) =~= before.skip(0));
        }
        while i < self.slots.len()
            invariant
                i <= self.slots.len(),
                0 <= j <= before.len(),
                keep == within(level as int),
                self@.take(i as int) == before.take(j).filter(keep),
                self@.skip(i as int) == before.skip(j),
            decreases self.slots.len() - i,
        {
            let ghost now = self@;
            proof {
                assert(now.len() == self.slots@.len());
                assert(now.skip(i as int).len() == now.len() - i);
                assert(before.skip(j).len() == before.len() - j);
                assert(j < before.len());
                assert(now.skip(i as int)[0] == before.skip(j)[0]);
                assert(now[i as int] == before[j]);
                lemma_filter_take(before, keep, j);
            }
            if self.slots[i].entry.level > level {
                self.slots.remove(i);
                proof {
                    assert(self@ =~= now.remove(i as int));
                    assert(self@.take(i as int) =~= now.take(i as int));
                    assert(self@.skip(i as int) =~= now.skip(i as int).drop_first());
                    assert(before.skip(j).drop_first() =~= before.skip(j + 1));
                    j = j + 1;
                }
            } else {
                proof {
                    assert(now.take(i + 1) =~= now.take(i as int).push(now[i as int]));
                    assert(now.skip(i + 1) =~= now.skip(i as int).drop_first());
                    assert(before.skip(j).drop_first() =~= before.skip(j + 1));
                    j = j + 1;
                }
                i += 1;
            }
        }
        proof {
            assert(self@.len() == self.slots@.len());
            assert(self@.take(i as int) =~= self@);
            assert(self@.skip(i as int).len() == 0);
            assert(before.skip(j).len() == before.len() - j);
            assert(before.take(j) =~= before);
        }
    }
}

} // verus!
