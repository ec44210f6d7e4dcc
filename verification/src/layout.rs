//! Laying out nodes, with results kept in and taken from the cache.

use vstd::prelude::*;
use std::sync::Arc;
use crate::constraints::{Constrained, Constraints};
use crate::frame::{shiftable, shifted, Element, Frame, FrameView, Geometry, Shape};
use crate::geom::{filter, resolve_spec, select, Align, Axes, Length, Linear, Point, Sides, Size};
use crate::hash::{fx_pair, hash_pair};
use crate::incremental::{
    duplicate_frames, frames_view, lookup_spec, scoped, Frames, FramesEntry, LayoutCache,
    SlotView,
};
use crate::model::{
    align_offset, align_pod, aligned_frames, empty_frames, filled_frames, forced, inset_spec,
    is_coord, movable, moved_frames, pad_pod, padded_frames, shrunk, sized_finish, sized_pod,
    stroked_frames, Inset, LayoutError, Layouted,
};
use crate::node::{
    AlignNode, EmptyNode, FillNode, LayoutNode, MoveNode, Node, PadNode, SizedNode, StrokeNode,
};
use crate::regions::Regions;
use crate::styles::{barred_spec, styles_hash, Style, StyleChain};

verus! {

/// The state of a layout session: the cache and the nesting of the call that
/// is running.
#[derive(Debug)]
pub struct Vm {
    pub layout_cache: LayoutCache,
    pub level: usize,
}

/// The result of a layout call as a mathematical value.
pub open spec fn outcome(res: Result<Vec<Constrained<Frame>>, LayoutError>) -> Layouted {
    match res {
        Ok(frames) => Ok(frames_view(frames@)),
        Err(e) => Err(e),
    }
}

/// The key under which the results of a node are cached: the hash of the
/// node's own hash and of the hash of the styles that bear on its kind.
pub open spec fn fingerprint(node: LayoutNode, styles: Seq<Style>) -> u64 {
    fx_pair(node.hash_value(), styles_hash(barred_spec(styles, node.content().kind())))
}

/// What a layout call leaves behind: its result and the cache.
pub struct Ran {
    pub out: Layouted,
    pub slots: Seq<SlotView>,
}

/// What a result becomes when the layout that follows it fails or goes on.
pub open spec fn and_then(out: Layouted, next: spec_fn(Frames) -> Layouted) -> Layouted {
    match out {
        Ok(frames) => next(frames),
        Err(e) => Err(e),
    }
}

/// What laying out `node` at nesting `level` yields and leaves in the cache,
/// starting from the cache `slots`.
pub open spec fn cached_layout(
    node: LayoutNode,
    regions: Regions,
    styles: Seq<Style>,
    slots: Seq<SlotView>,
    level: int,
) -> Ran
    decreases node.height(), 1int,
{
    let key = fingerprint(node, styles);
    match lookup_spec(slots, key, regions) {
        Some(frames) => Ran { out: Ok(frames), slots },
        None => {
            let own = own_layout(
                node.content(),
                regions,
                barred_spec(styles, node.content().kind()),
                slots,
                level + 1,
            );
            let kept = scoped(own.slots, level);
            match own.out {
                Ok(frames) => Ran {
                    out: Ok(frames),
                    slots: kept + seq![SlotView { hash: key, frames, level: level as usize }],
                },
                Err(e) => Ran { out: Err(e), slots: kept },
            }
        },
    }
}

/// What a node's own layout yields and leaves in the cache when it runs at
/// nesting `level`: the child is laid out through the cache, and the node
/// makes its frames from the child's.
pub open spec fn own_layout(
    node: Node,
    regions: Regions,
    styles: Seq<Style>,
    slots: Seq<SlotView>,
    level: int,
) -> Ran
    decreases
        (match node.child() {
            Some(c) => c.height() + 1,
            None => 1,
        }),
        0int,
{
    match node {
        Node::Empty(_) => Ran { out: Ok(empty_frames(regions)), slots },
        Node::Sized(n) => match sized_pod(n.sizing, regions) {
            None => Ran { out: Err(LayoutError {  }), slots },
            Some(pod) => {
                let c = cached_layout(n.child, pod, styles, slots, level);
                Ran {
                    out: and_then(c.out, |f: Frames| sized_finish(n.sizing, regions, f)),
                    slots: c.slots,
                }
            },
        },
        Node::Fill(n) => {
            let c = cached_layout(n.child, regions, styles, slots, level);
            Ran {
                out: and_then(c.out, |f: Frames| Ok::<Frames, LayoutError>(filled_frames(f, n.fill))),
                slots: c.slots,
            }
        },
        Node::Stroke(n) => {
            let c = cached_layout(n.child, regions, styles, slots, level);
            Ran {
                out: and_then(
                    c.out,
                    |f: Frames| Ok::<Frames, LayoutError>(stroked_frames(f, n.stroke)),
                ),
                slots: c.slots,
            }
        },
        Node::Align(n) => {
            let c = cached_layout(n.child, align_pod(n.aligns, regions), styles, slots, level);
            Ran {
                out: and_then(c.out, |f: Frames| aligned_frames(n.aligns, regions, f)),
                slots: c.slots,
            }
        },
        Node::Pad(n) => match inset_spec(n.padding, regions.base) {
            None => Ran { out: Err(LayoutError {  }), slots },
            Some(inset) => {
                let c = cached_layout(n.child, pad_pod(inset, regions), styles, slots, level);
                Ran {
                    out: and_then(c.out, |f: Frames| padded_frames(n.padding, inset, regions, f)),
                    slots: c.slots,
                }
            },
        },
        Node::Move(n) => {
            let c = cached_layout(n.child, regions, styles, slots, level);
            Ran { out: and_then(c.out, |f: Frames| moved_frames(f, n.offset)), slots: c.slots }
        },
    }
}

impl Vm {
    /// A session with an empty cache, outside any layout call.
    pub fn new() -> (res: Vm)
        ensures
            res.level == 0,
            res.layout_cache@ == Seq::<SlotView>::empty(),
    {
        Vm { layout_cache: LayoutCache::new(), level: 0 }
    }
}

impl EmptyNode {
    /// Lays out nothing: one frame without content, as large as the region
    /// on the axes that expand.
    pub fn layout(&self, vm: &mut Vm, regions: &Regions, styles: &StyleChain) -> (res: Result<
        Vec<Constrained<Frame>>,
        LayoutError,
    >)
        ensures
            *final(vm) == *old(vm),
            outcome(res) == Ok::<Frames, LayoutError>(empty_frames(*regions)),
            (Ran { out: outcome(res), slots: final(vm).layout_cache@ }) == own_layout(
                Node::Empty(*self),
                *regions,
                styles@,
                old(vm).layout_cache@,
                old(vm).level as int,
            ),
    {
        let size = select(regions.expand, regions.current, Axes { x: 0, y: 0 });
        let mut cts = Constraints::new(regions.expand);
        cts.exact = filter(regions.current, regions.expand);
        let mut frames: Vec<Constrained<Frame>> = Vec::new();
        frames.push(Constrained { item: Frame::new(size), cts });
        proof {
            assert(frames_view(frames@) =~= empty_frames(*regions));
        }
        Ok(frames)
    }
}

fn force(sizing: &Option<Linear>, base: Length, current: Length) -> (res: Option<Length>)
    ensures
        res == forced(*sizing, base, current),
{
    match sizing {
        None => Some(current),
        Some(l) => l.resolve(base),
    }
}

impl SizedNode {
    /// Lays out the child at the forced size and resizes its first frame to
    /// the region on the axes that expand.
    pub fn layout(&self, vm: &mut Vm, regions: &Regions, styles: &StyleChain) -> (res: Result<
        Vec<Constrained<Frame>>,
        LayoutError,
    >)
        requires
            old(vm).level + self.child.height() <= usize::MAX,
        ensures
            (Ran { out: outcome(res), slots: final(vm).layout_cache@ }) == own_layout(
                Node::Sized(*self),
                *regions,
                styles@,
                old(vm).layout_cache@,
                old(vm).level as int,
            ),
            final(vm).level == old(vm).level,
        decreases self.child.height() + 1, 0int,
    {
        let auto = Axes { x: self.sizing.x.is_none(), y: self.sizing.y.is_none() };
        let rel = Axes {
            x: match self.sizing.x {
                Some(l) => l.is_relative(),
                None => false,
            },
            y: match self.sizing.y {
                Some(l) => l.is_relative(),
                None => false,
            },
        };
        let w = force(&self.sizing.x, regions.base.x, regions.current.x);
        let h = force(&self.sizing.y, regions.base.y, regions.current.y);
        let size = match (w, h) {
            (Some(w), Some(h)) => Axes { x: w, y: h },
            _ => {
                return Err(LayoutError {  });
            },
        };
        let base = select(auto, regions.base, size);
        let expand = Axes { x: regions.expand.x || !auto.x, y: regions.expand.y || !auto.y };
        let pod = Regions::one(size, base, expand);
        proof {
            assert(sized_pod(self.sizing, *regions) == Some(pod));
        }
        let mut frames = match self.child.layout(vm, &pod, styles) {
            Ok(frames) => frames,
            Err(e) => {
                return Err(e);
            },
        };
        if frames.len() == 0 {
            proof {
                assert(frames_view(frames@).len() == 0);
            }
            return Err(LayoutError {  });
        }
        let ghost inner = frames_view(frames@);
        let target = select(regions.expand, regions.current, frames[0].item.size);
        let mut cts = Constraints::new(regions.expand);
        cts.exact = filter(
            regions.current,
            Axes { x: regions.expand.x || auto.x, y: regions.expand.y || auto.y },
        );
        cts.base = filter(regions.base, Axes { x: rel.x || auto.x, y: rel.y || auto.y });
        frames[0].item.resize(target);
        frames[0].cts = cts;
        proof {
            assert(frames_view(frames@) =~= sized_finish(self.sizing, *regions, inner)->Ok_0);
        }
        Ok(frames)
    }
}

impl FillNode {
    /// Lays out the child and puts a filled rectangle below the content of
    /// each frame.
    pub fn layout(&self, vm: &mut Vm, regions: &Regions, styles: &StyleChain) -> (res: Result<
        Vec<Constrained<Frame>>,
        LayoutError,
    >)
        requires
            old(vm).level + self.child.height() <= usize::MAX,
        ensures
            (Ran { out: outcome(res), slots: final(vm).layout_cache@ }) == own_layout(
                Node::Fill(*self),
                *regions,
                styles@,
                old(vm).layout_cache@,
                old(vm).level as int,
            ),
            final(vm).level == old(vm).level,
        decreases self.child.height() + 1, 0int,
    {
        let mut frames = match self.child.layout(vm, regions, styles) {
            Ok(frames) => frames,
            Err(e) => {
                return Err(e);
            },
        };
        let ghost inner = frames_view(frames@);
        let n = frames.len();
        let mut i: usize = 0;
        while i < n
            invariant
                i <= n,
                n == frames@.len(),
                inner.len() == n,
                forall|k: int|
                    0 <= k < i ==> (#[trigger] frames_view(frames@)[k]) == filled_frames(
                        inner,
                        self.fill,
                    )[k],
                forall|k: int| i <= k < n ==> (#[trigger] frames_view(frames@)[k]) == inner[k],
            decreases n - i,
        {
            let ghost prev = frames_view(frames@);
            let shape = Shape::filled(Geometry::Rect(frames[i].item.size), self.fill);
            frames[i].item.prepend(Point::zero(), Element::Shape(shape));
            proof {
                let now = frames_view(frames@);
                assert forall|k: int| 0 <= k < n && k != i implies now[k] == prev[k] by {}
                assert(prev[i as int] == inner[i as int]);
                assert(now[i as int] == filled_frames(inner, self.fill)[i as int]);
            }
            i += 1;
        }
        proof {
            assert(frames_view(frames@) =~= filled_frames(inner, self.fill));
        }
        Ok(frames)
    }
}

impl StrokeNode {
    /// Lays out the child and puts an outlined rectangle below the content
    /// of each frame.
    pub fn layout(&self, vm: &mut Vm, regions: &Regions, styles: &StyleChain) -> (res: Result<
        Vec<Constrained<Frame>>,
        LayoutError,
    >)
        requires
            old(vm).level + self.child.height() <= usize::MAX,
        ensures
            (Ran { out: outcome(res), slots: final(vm).layout_cache@ }) == own_layout(
                Node::Stroke(*self),
                *regions,
                styles@,
                old(vm).layout_cache@,
                old(vm).level as int,
            ),
            final(vm).level == old(vm).level,
        decreases self.child.height() + 1, 0int,
    {
        let mut frames = match self.child.layout(vm, regions, styles) {
            Ok(frames) => frames,
            Err(e) => {
                return Err(e);
            },
        };
        let ghost inner = frames_view(frames@);
        let n = frames.len();
        let mut i: usize = 0;
        while i < n
            invariant
                i <= n,
                n == frames@.len(),
                inner.len() == n,
                forall|k: int|
                    0 <= k < i ==> (#[trigger] frames_view(frames@)[k]) == stroked_frames(
                        inner,
                        self.stroke,
                    )[k],
                forall|k: int| i <= k < n ==> (#[trigger] frames_view(frames@)[k]) == inner[k],
            decreases n - i,
        {
            let ghost prev = frames_view(frames@);
            let shape = Shape::stroked(Geometry::Rect(frames[i].item.size), self.stroke);
            frames[i].item.prepend(Point::zero(), Element::Shape(shape));
            proof {
                let now = frames_view(frames@);
                assert forall|k: int| 0 <= k < n && k != i implies now[k] == prev[k] by {}
                assert(prev[i as int] == inner[i as int]);
                assert(now[i as int] == stroked_frames(inner, self.stroke)[i as int]);
            }
            i += 1;
        }
        proof {
            assert(frames_view(frames@) =~= stroked_frames(inner, self.stroke));
        }
        Ok(frames)
    }
}

impl MoveNode {
    /// Lays out the child and shifts the content of each frame by the
    /// offset. Fails where an element would leave the coordinate range.
    pub fn layout(&self, vm: &mut Vm, regions: &Regions, styles: &StyleChain) -> (res: Result<
        Vec<Constrained<Frame>>,
        LayoutError,
    >)
        requires
            old(vm).level + self.child.height() <= usize::MAX,
        ensures
            (Ran { out: outcome(res), slots: final(vm).layout_cache@ }) == own_layout(
                Node::Move(*self),
                *regions,
                styles@,
                old(vm).layout_cache@,
                old(vm).level as int,
            ),
            final(vm).level == old(vm).level,
        decreases self.child.height() + 1, 0int,
    {
        let mut frames = match self.child.layout(vm, regions, styles) {
            Ok(frames) => frames,
            Err(e) => {
                return Err(e);
            },
        };
        let ghost inner = frames_view(frames@);
        let n = frames.len();
        let mut i: usize = 0;
        let mut failed = false;
        while i < n && !failed
            invariant
                i <= n,
                failed ==> !movable(inner, self.offset),
                n == frames@.len(),
                inner.len() == n,
                forall|k: int|
                    0 <= k < i ==> shiftable(
                        (#[trigger] inner[k]).item.elements,
                        self.offset,
                    ),
                forall|k: int|
                    0 <= k < i ==> (#[trigger] frames_view(frames@)[k]) == (Constrained {
                        item: FrameView {
                            size: inner[k].item.size,
                            elements: shifted(inner[k].item.elements, self.offset),
                        },
                        cts: inner[k].cts,
                    }),
                forall|k: int| i <= k < n ==> (#[trigger] frames_view(frames@)[k]) == inner[k],
            decreases n - i, if failed { 0int } else { 1int },
        {
            let ghost prev = frames_view(frames@);
            let done = frames[i].item.translate(self.offset);
            proof {
                assert(prev[i as int] == inner[i as int]);
            }
            proof {
                let now = frames_view(frames@);
                assert forall|k: int| 0 <= k < n && k != i implies now[k] == prev[k] by {}
            }
            if done {
                i += 1;
            } else {
                proof {
                    assert(!shiftable(inner[i as int].item.elements, self.offset));
                }
                failed = true;
            }
        }
        if failed {
            return Err(LayoutError {  });
        }
        proof {
            assert(movable(inner, self.offset));
            assert(frames_view(frames@) =~= moved_frames(inner, self.offset)->Ok_0);
        }
        Ok(frames)
    }
}

fn offset_for(align: &Option<Align>, target: Length, size: Length) -> (res: Option<i64>)
    ensures
        res is Some <==> is_coord(align_offset(*align, target, size)),
        res is Some ==> res->0 == align_offset(*align, target, size),
{
    let d: i128 = match align {
        None => 0,
        Some(Align::Start) => 0,
        Some(Align::Center) => if target >= size {
            ((target - size) / 2) as i128
        } else {
            -(((size - target) / 2) as i128)
        },
        Some(Align::End) => target as i128 - size as i128,
    };
    if d >= i64::MIN as i128 && d <= i64::MAX as i128 {
        Some(d as i64)
    } else {
        None
    }
}

impl AlignNode {
    /// Lays out the child, which only expands along an axis without
    /// alignment, and places its first frame in the region as the alignment
    /// asks.
    pub fn layout(&self, vm: &mut Vm, regions: &Regions, styles: &StyleChain) -> (res: Result<
        Vec<Constrained<Frame>>,
        LayoutError,
    >)
        requires
            old(vm).level + self.child.height() <= usize::MAX,
        ensures
            (Ran { out: outcome(res), slots: final(vm).layout_cache@ }) == own_layout(
                Node::Align(*self),
                *regions,
                styles@,
                old(vm).layout_cache@,
                old(vm).level as int,
            ),
            final(vm).level == old(vm).level,
        decreases self.child.height() + 1, 0int,
    {
        let expand = Axes {
            x: regions.expand.x && self.aligns.x.is_none(),
            y: regions.expand.y && self.aligns.y.is_none(),
        };
        let pod = Regions::one(regions.current, regions.base, expand);
        proof {
            assert(pod == align_pod(self.aligns, *regions));
        }
        let mut frames = match self.child.layout(vm, &pod, styles) {
            Ok(frames) => frames,
            Err(e) => {
                return Err(e);
            },
        };
        let ghost inner = frames_view(frames@);
        if frames.len() == 0 {
            proof {
                assert(inner.len() == 0);
            }
            return Ok(frames);
        }
        let size = frames[0].item.size;
        let child_cts = frames[0].cts;
        let target = select(regions.expand, regions.current, size);
        let dx = offset_for(&self.aligns.x, target.x, size.x);
        let dy = offset_for(&self.aligns.y, target.y, size.y);
        let by = match (dx, dy) {
            (Some(x), Some(y)) => Point { x, y },
            _ => {
                return Err(LayoutError {  });
            },
        };
        let done = frames[0].item.translate(by);
        if !done {
            return Err(LayoutError {  });
        }
        frames[0].item.resize(target);
        let cts = Constraints {
            min: child_cts.min,
            max: child_cts.max,
            exact: filter(
                regions.current,
                Axes {
                    x: regions.expand.x || child_cts.exact.x.is_some(),
                    y: regions.expand.y || child_cts.exact.y.is_some(),
                },
            ),
            base: filter(
                regions.base,
                Axes { x: child_cts.base.x.is_some(), y: child_cts.base.y.is_some() },
            ),
            expand: regions.expand,
        };
        frames[0].cts = cts;
        proof {
            assert(frames_view(frames@) =~= aligned_frames(self.aligns, *regions, inner)->Ok_0);
        }
        Ok(frames)
    }
}

/// A linear length is never negative.
pub proof fn lemma_resolve_nonnegative(v: Linear, base: Length)
    ensures
        resolve_spec(v, base) >= 0,
{
    assert(v.rel as int * base as int >= 0) by (nonlinear_arith)
        requires
            v.rel >= 0,
            base >= 0,
    ;
}

fn inset(padding: &Sides, base: Size) -> (res: Option<Inset>)
    ensures
        res == inset_spec(*padding, base),
{
    proof {
        lemma_resolve_nonnegative(padding.left, base.x);
        lemma_resolve_nonnegative(padding.right, base.x);
        lemma_resolve_nonnegative(padding.top, base.y);
        lemma_resolve_nonnegative(padding.bottom, base.y);
    }
    let l = padding.left.resolve(base.x);
    let r = padding.right.resolve(base.x);
    let t = padding.top.resolve(base.y);
    let b = padding.bottom.resolve(base.y);
    match (l, r, t, b) {
        (Some(l), Some(r), Some(t), Some(b)) => {
            match (l.checked_add(r), t.checked_add(b)) {
                (Some(x), Some(y)) => Some(Inset { left: l, top: t, sum: Axes { x, y } }),
                _ => None,
            }
        },
        _ => None,
    }
}

fn shrink(v: Length, by: Length) -> (res: Length)
    ensures
        res == shrunk(v, by),
{
    if v >= by {
        v - by
    } else {
        0
    }
}

impl PadNode {
    /// Lays out the child in the region shrunk by the padding, then grows its
    /// first frame by the padding and moves the content inwards.
    pub fn layout(&self, vm: &mut Vm, regions: &Regions, styles: &StyleChain) -> (res: Result<
        Vec<Constrained<Frame>>,
        LayoutError,
    >)
        requires
            old(vm).level + self.child.height() <= usize::MAX,
        ensures
            (Ran { out: outcome(res), slots: final(vm).layout_cache@ }) == own_layout(
                Node::Pad(*self),
                *regions,
                styles@,
                old(vm).layout_cache@,
                old(vm).level as int,
            ),
            final(vm).level == old(vm).level,
        decreases self.child.height() + 1, 0int,
    {
        let inset = match inset(&self.padding, regions.base) {
            Some(inset) => inset,
            None => {
                return Err(LayoutError {  });
            },
        };
        let pod = Regions::one(
            Axes {
                x: shrink(regions.current.x, inset.sum.x),
                y: shrink(regions.current.y, inset.sum.y),
            },
            Axes { x: shrink(regions.base.x, inset.sum.x), y: shrink(regions.base.y, inset.sum.y) },
            regions.expand,
        );
        proof {
            assert(pod == pad_pod(inset, *regions));
        }
        let mut frames = match self.child.layout(vm, &pod, styles) {
            Ok(frames) => frames,
            Err(e) => {
                return Err(e);
            },
        };
        let ghost inner = frames_view(frames@);
        if frames.len() == 0 {
            proof {
                assert(inner.len() == 0);
            }
            return Ok(frames);
        }
        let size = frames[0].item.size;
        let child_cts = frames[0].cts;
        let grown = match (size.x.checked_add(inset.sum.x), size.y.checked_add(inset.sum.y)) {
            (Some(x), Some(y)) => Axes { x, y },
            _ => {
                return Err(LayoutError {  });
            },
        };
        if inset.left > i64::MAX as u64 || inset.top > i64::MAX as u64 {
            return Err(LayoutError {  });
        }
        let by = Point { x: inset.left as i64, y: inset.top as i64 };
        let done = frames[0].item.translate(by);
        if !done {
            return Err(LayoutError {  });
        }
        frames[0].item.resize(grown);
        let mut cts = Constraints::new(regions.expand);
        cts.exact = filter(
            regions.current,
            Axes {
                x: child_cts.exact.x.is_some() || child_cts.min.x.is_some()
                    || child_cts.max.x.is_some(),
                y: child_cts.exact.y.is_some() || child_cts.min.y.is_some()
                    || child_cts.max.y.is_some(),
            },
        );
        cts.base = filter(
            regions.base,
            Axes {
                x: self.padding.left.is_relative() || self.padding.right.is_relative()
                    || child_cts.base.x.is_some(),
                y: self.padding.top.is_relative() || self.padding.bottom.is_relative()
                    || child_cts.base.y.is_some(),
            },
        );
        frames[0].cts = cts;
        proof {
            assert(frames_view(frames@) =~= padded_frames(self.padding, inset, *regions, inner)->Ok_0);
        }
        Ok(frames)
    }
}

impl LayoutNode {
    /// Lays out the node into `regions`.
    ///
    /// The cache is asked first, under the fingerprint of node and styles. On
    /// a hit the stored frames come back and nothing else happens. On a miss
    /// the node's own layout runs one level deeper; when it returns, every
    /// entry made below this call is dropped, and the frames are stored at
    /// this call's level.
    pub fn layout(&self, vm: &mut Vm, regions: &Regions, styles: &StyleChain) -> (res: Result<
        Vec<Constrained<Frame>>,
        LayoutError,
    >)
        requires
            old(vm).level + self.height() <= usize::MAX,
        ensures
            (Ran { out: outcome(res), slots: final(vm).layout_cache@ }) == cached_layout(
                *self,
                *regions,
                styles@,
                old(vm).layout_cache@,
                old(vm).level as int,
            ),
            final(vm).level == old(vm).level,
        decreases self.height(), 1int,
    {
        let barred = styles.barred(self.id());
        let hash = hash_pair(self.hash, barred.hash());
        let level = vm.level;
        if let Some(frames) = vm.layout_cache.get(hash, regions) {
            return Ok(frames);
        }
        vm.level = level + 1;
        let result = match &*self.node {
            Node::Empty(n) => n.layout(vm, regions, &barred),
            Node::Sized(n) => n.layout(vm, regions, &barred),
            Node::Fill(n) => n.layout(vm, regions, &barred),
            Node::Stroke(n) => n.layout(vm, regions, &barred),
            Node::Align(n) => n.layout(vm, regions, &barred),
            Node::Pad(n) => n.layout(vm, regions, &barred),
            Node::Move(n) => n.layout(vm, regions, &barred),
        };
        vm.level = level;
        vm.layout_cache.evict(level);
        match result {
            Ok(frames) => {
                let ghost kept = vm.layout_cache@;
                let entry = FramesEntry::new(duplicate_frames(&frames), level);
                vm.layout_cache.insert(hash, entry);
                proof {
                    let slot = SlotView { hash, frames: frames_view(frames@), level };
                    assert(kept.push(slot) =~= kept + seq![slot]);
                }
                Ok(frames)
            },
            Err(e) => Err(e),
        }
    }
}

/// A node that can be laid out into regions.
///
/// Layout returns one frame per used region, each with the constraints that
/// say for which other regions the frame may be used again.
pub trait Layout: Sized {
    /// How many handles lie below the node on its path to the innermost.
    spec fn depth(&self) -> nat;

    /// What a layout at nesting `level` yields and leaves in the cache.
    spec fn ran(
        &self,
        regions: Regions,
        styles: Seq<Style>,
        slots: Seq<SlotView>,
        level: int,
    ) -> Ran;

    /// The handle that packing the node gives.
    spec fn packed(self) -> LayoutNode;

    /// Lay out the node into the given regions, producing constrained frames.
    fn layout(&self, vm: &mut Vm, regions: &Regions, styles: &StyleChain) -> (res: Result<
        Vec<Constrained<Frame>>,
        LayoutError,
    >)
        requires
            old(vm).level + self.depth() <= usize::MAX,
        ensures
            final(vm).level == old(vm).level,
            (Ran { out: outcome(res), slots: final(vm).layout_cache@ }) == self.ran(
                *regions,
                styles@,
                old(vm).layout_cache@,
                old(vm).level as int,
            ),
    ;

    /// Convert to a packed node.
    fn pack(self) -> (res: LayoutNode)
        ensures
            res == self.packed(),
    ;
}

/// The handle on a node whose hash is the hash of the node.
pub open spec fn handle_of(node: Node) -> LayoutNode {
    LayoutNode { hash: node.structural_hash(), node: Arc::new(node) }
}

impl Layout for LayoutNode {
    open spec fn depth(&self) -> nat {
        self.height()
    }

    open spec fn ran(
        &self,
        regions: Regions,
        styles: Seq<Style>,
        slots: Seq<SlotView>,
        level: int,
    ) -> Ran {
        cached_layout(*self, regions, styles, slots, level)
    }

    open spec fn packed(self) -> LayoutNode {
        self
    }

    fn layout(&self, vm: &mut Vm, regions: &Regions, styles: &StyleChain) -> (res: Result<
        Vec<Constrained<Frame>>,
        LayoutError,
    >) {
        LayoutNode::layout(self, vm, regions, styles)
    }

    fn pack(self) -> (res: LayoutNode) {
        self
    }
}

impl Layout for EmptyNode {
    open spec fn depth(&self) -> nat {
        0
    }

    open spec fn ran(
        &self,
        regions: Regions,
        styles: Seq<Style>,
        slots: Seq<SlotView>,
        level: int,
    ) -> Ran {
        own_layout(Node::Empty(*self), regions, styles, slots, level)
    }

    open spec fn packed(self) -> LayoutNode {
        handle_of(Node::Empty(self))
    }

    fn layout(&self, vm: &mut Vm, regions: &Regions, styles: &StyleChain) -> (res: Result<
        Vec<Constrained<Frame>>,
        LayoutError,
    >) {
        EmptyNode::layout(self, vm, regions, styles)
    }

    fn pack(self) -> (res: LayoutNode) {
        LayoutNode::new(Node::Empty(self))
    }
}

impl Layout for SizedNode {
    open spec fn depth(&self) -> nat {
        self.child.height()
    }

    open spec fn ran(
        &self,
        regions: Regions,
        styles: Seq<Style>,
        slots: Seq<SlotView>,
        level: int,
    ) -> Ran {
        own_layout(Node::Sized(*self), regions, styles, slots, level)
    }

    open spec fn packed(self) -> LayoutNode {
        handle_of(Node::Sized(self))
    }

    fn layout(&self, vm: &mut Vm, regions: &Regions, styles: &StyleChain) -> (res: Result<
        Vec<Constrained<Frame>>,
        LayoutError,
    >) {
        SizedNode::layout(self, vm, regions, styles)
    }

    fn pack(self) -> (res: LayoutNode) {
        LayoutNode::new(Node::Sized(self))
    }
}

impl Layout for FillNode {
    open spec fn depth(&self) -> nat {
        self.child.height()
    }

    open spec fn ran(
        &self,
        regions: Regions,
        styles: Seq<Style>,
        slots: Seq<SlotView>,
        level: int,
    ) -> Ran {
        own_layout(Node::Fill(*self), regions, styles, slots, level)
    }

    open spec fn packed(self) -> LayoutNode {
        handle_of(Node::Fill(self))
    }

    fn layout(&self, vm: &mut Vm, regions: &Regions, styles: &StyleChain) -> (res: Result<
        Vec<Constrained<Frame>>,
        LayoutError,
    >) {
        FillNode::layout(self, vm, regions, styles)
    }

    fn pack(self) -> (res: LayoutNode) {
        LayoutNode::new(Node::Fill(self))
    }
}

impl Layout for StrokeNode {
    open spec fn depth(&self) -> nat {
        self.child.height()
    }

    open spec fn ran(
        &self,
        regions: Regions,
        styles: Seq<Style>,
        slots: Seq<SlotView>,
        level: int,
    ) -> Ran {
        own_layout(Node::Stroke(*self), regions, styles, slots, level)
    }

    open spec fn packed(self) -> LayoutNode {
        handle_of(Node::Stroke(self))
    }

    fn layout(&self, vm: &mut Vm, regions: &Regions, styles: &StyleChain) -> (res: Result<
        Vec<Constrained<Frame>>,
        LayoutError,
    >) {
        StrokeNode::layout(self, vm, regions, styles)
    }

    fn pack(self) -> (res: LayoutNode) {
        LayoutNode::new(Node::Stroke(self))
    }
}

impl Layout for AlignNode {
    open spec fn depth(&self) -> nat {
        self.child.height()
    }

    open spec fn ran(
        &self,
        regions: Regions,
        styles: Seq<Style>,
        slots: Seq<SlotView>,
        level: int,
    ) -> Ran {
        own_layout(Node::Align(*self), regions, styles, slots, level)
    }

    open spec fn packed(self) -> LayoutNode {
        handle_of(Node::Align(self))
    }

    fn layout(&self, vm: &mut Vm, regions: &Regions, styles: &StyleChain) -> (res: Result<
        Vec<Constrained<Frame>>,
        LayoutError,
    >) {
        AlignNode::layout(self, vm, regions, styles)
    }

    fn pack(self) -> (res: LayoutNode) {
        LayoutNode::new(Node::Align(self))
    }
}

impl Layout for PadNode {
    open spec fn depth(&self) -> nat {
        self.child.height()
    }

    open spec fn ran(
        &self,
        regions: Regions,
        styles: Seq<Style>,
        slots: Seq<SlotView>,
        level: int,
    ) -> Ran {
        own_layout(Node::Pad(*self), regions, styles, slots, level)
    }

    open spec fn packed(self) -> LayoutNode {
        handle_of(Node::Pad(self))
    }

    fn layout(&self, vm: &mut Vm, regions: &Regions, styles: &StyleChain) -> (res: Result<
        Vec<Constrained<Frame>>,
        LayoutError,
    >) {
        PadNode::layout(self, vm, regions, styles)
    }

    fn pack(self) -> (res: LayoutNode) {
        LayoutNode::new(Node::Pad(self))
    }
}

impl Layout for MoveNode {
    open spec fn depth(&self) -> nat {
        self.child.height()
    }

    open spec fn ran(
        &self,
        regions: Regions,
        styles: Seq<Style>,
        slots: Seq<SlotView>,
        level: int,
    ) -> Ran {
        own_layout(Node::Move(*self), regions, styles, slots, level)
    }

    open spec fn packed(self) -> LayoutNode {
        handle_of(Node::Move(self))
    }

    fn layout(&self, vm: &mut Vm, regions: &Regions, styles: &StyleChain) -> (res: Result<
        Vec<Constrained<Frame>>,
        LayoutError,
    >) {
        MoveNode::layout(self, vm, regions, styles)
    }

    fn pack(self) -> (res: LayoutNode) {
        LayoutNode::new(Node::Move(self))
    }
}

} // verus!
