//! What layout computes, as mathematical functions of node and regions.

use vstd::prelude::*;
use crate::constraints::{Constrained, Constraints};
use crate::frame::{filled_rect, shiftable, shifted, stroked_rect, FrameView};
use crate::geom::{
    filter_spec, resolve_spec, select_spec, Align, Axes, Length, Linear, Paint, Point, Sides,
    Size, Stroke,
};
use crate::incremental::Frames;
use crate::node::{
    AlignNode, FillNode, LayoutNode, MoveNode, Node, PadNode, SizedNode, StrokeNode,
};
use crate::regions::Regions;

verus! {

/// The failure of a layout call.
#[derive(Clone, Copy, Debug, PartialEq, Eq, Structural)]
pub struct LayoutError {}

/// What a layout call yields.
pub type Layouted = Result<Frames, LayoutError>;

/// Per axis, whether an optional value is present.
pub open spec fn present(pins: Axes<Option<Length>>) -> Axes<bool> {
    Axes { x: pins.x is Some, y: pins.y is Some }
}

/// Per axis, whether either flag is set.
pub open spec fn either(a: Axes<bool>, b: Axes<bool>) -> Axes<bool> {
    Axes { x: a.x || b.x, y: a.y || b.y }
}

/// The frames of the empty node: one frame without content, as large as
/// `current` on the axes that expand and zero on the others, pinned to
/// `current` on the axes that expand.
pub open spec fn empty_frames(regions: Regions) -> Frames {
    seq![
        Constrained {
            item: FrameView {
                size: select_spec(regions.expand, regions.current, Axes { x: 0, y: 0 }),
                elements: Seq::empty(),
            },
            cts: Constraints {
                exact: filter_spec(regions.current, regions.expand),
                ..Constraints::loose(regions.expand)
            },
        },
    ]
}

/// Per axis, whether no size is forced.
pub open spec fn is_auto(sizing: Axes<Option<Linear>>) -> Axes<bool> {
    Axes { x: sizing.x is None, y: sizing.y is None }
}

/// Per axis, whether the forced size depends on the base.
pub open spec fn is_rel(sizing: Axes<Option<Linear>>) -> Axes<bool> {
    Axes {
        x: sizing.x is Some && sizing.x->0.relative(),
        y: sizing.y is Some && sizing.y->0.relative(),
    }
}

/// The length that a sized node gives its child on one axis: the forced
/// length resolved against the base, or the current length where none is
/// forced. There is none where the forced length does not fit a `Length`.
pub open spec fn forced(sizing: Option<Linear>, base: Length, current: Length) -> Option<Length> {
    match sizing {
        None => Some(current),
        Some(l) => if resolve_spec(l, base) <= u64::MAX {
            Some(resolve_spec(l, base) as u64)
        } else {
            None
        },
    }
}

/// The regions into which a sized node lays out its child.
pub open spec fn sized_pod(sizing: Axes<Option<Linear>>, regions: Regions) -> Option<Regions> {
    match (
        forced(sizing.x, regions.base.x, regions.current.x),
        forced(sizing.y, regions.base.y, regions.current.y),
    ) {
        (Some(w), Some(h)) => Some(
            Regions {
                current: Axes { x: w, y: h },
                base: select_spec(is_auto(sizing), regions.base, Axes { x: w, y: h }),
                expand: Axes {
                    x: regions.expand.x || sizing.x is Some,
                    y: regions.expand.y || sizing.y is Some,
                },
            },
        ),
        _ => None,
    }
}

/// The constraints of a sized node's frame: `current` is pinned where the
/// frame expands or the size is automatic, `base` where the size is relative
/// or automatic.
pub open spec fn sized_cts(sizing: Axes<Option<Linear>>, regions: Regions) -> Constraints {
    Constraints {
        exact: filter_spec(regions.current, either(regions.expand, is_auto(sizing))),
        base: filter_spec(regions.base, either(is_rel(sizing), is_auto(sizing))),
        ..Constraints::loose(regions.expand)
    }
}

/// What a sized node makes of its child's frames: the first is resized to
/// `current` on the axes that expand and gets the node's own constraints.
/// Without a first frame the layout fails.
pub open spec fn sized_finish(sizing: Axes<Option<Linear>>, regions: Regions, frames: Frames) -> Layouted {
    if frames.len() == 0 {
        Err(LayoutError {  })
    } else {
        Ok(
            frames.update(
                0,
                Constrained {
                    item: FrameView {
                        size: select_spec(regions.expand, regions.current, frames[0].item.size),
                        elements: frames[0].item.elements,
                    },
                    cts: sized_cts(sizing, regions),
                },
            ),
        )
    }
}

/// A frame with one more element below all others, at the origin.
pub open spec fn backed(frame: FrameView, element: crate::frame::Element) -> FrameView {
    FrameView {
        size: frame.size,
        elements: seq![(Point { x: 0, y: 0 }, element)] + frame.elements,
    }
}

/// The frames of a fill node: each of the child's frames with a filled
/// rectangle of the frame's size below its content.
pub open spec fn filled_frames(frames: Frames, fill: Paint) -> Frames {
    Seq::new(
        frames.len(),
        |i: int|
            Constrained {
                item: backed(frames[i].item, filled_rect(frames[i].item.size, fill)),
                cts: frames[i].cts,
            },
    )
}

/// The frames of a stroke node: each of the child's frames with an outlined
/// rectangle of the frame's size below its content.
pub open spec fn stroked_frames(frames: Frames, stroke: Stroke) -> Frames {
    Seq::new(
        frames.len(),
        |i: int|
            Constrained {
                item: backed(frames[i].item, stroked_rect(frames[i].item.size, stroke)),
                cts: frames[i].cts,
            },
    )
}

/// Whether the content of every frame can be shifted by `offset`.
pub open spec fn movable(frames: Frames, offset: Point) -> bool {
    forall|i: int| 0 <= i < frames.len() ==> shiftable((#[trigger] frames[i]).item.elements, offset)
}

/// The frames of a move node: the child's frames with their content shifted.
/// The layout fails where some element would leave the coordinate range.
pub open spec fn moved_frames(frames: Frames, offset: Point) -> Layouted {
    if movable(frames, offset) {
        Ok(
            Seq::new(
                frames.len(),
                |i: int|
                    Constrained {
                        item: FrameView {
                            size: frames[i].item.size,
                            elements: shifted(frames[i].item.elements, offset),
                        },
                        cts: frames[i].cts,
                    },
            ),
        )
    } else {
        Err(LayoutError {  })
    }
}

/// The regions into which an align node lays out its child: the child only
/// expands along an axis without alignment.
pub open spec fn align_pod(aligns: Axes<Option<Align>>, regions: Regions) -> Regions {
    Regions {
        current: regions.current,
        base: regions.base,
        expand: Axes {
            x: regions.expand.x && aligns.x is None,
            y: regions.expand.y && aligns.y is None,
        },
    }
}

/// By how much content of length `size` is shifted in a frame of length
/// `target`.
pub open spec fn align_offset(align: Option<Align>, target: Length, size: Length) -> int {
    match align {
        None => 0,
        Some(Align::Start) => 0,
        Some(Align::Center) => if target >= size {
            (target - size) / 2
        } else {
            -((size - target) / 2)
        },
        Some(Align::End) => target - size,
    }
}

/// Whether `v` is a coordinate.
pub open spec fn is_coord(v: int) -> bool {
    i64::MIN <= v <= i64::MAX
}

/// What an align node makes of its child's frames: the first is resized to
/// `current` on the axes that expand, with its content shifted as the
/// alignment asks. The layout fails where an element would leave the
/// coordinate range.
pub open spec fn aligned_frames(aligns: Axes<Option<Align>>, regions: Regions, frames: Frames) -> Layouted {
    if frames.len() == 0 {
        Ok(frames)
    } else {
        let child = frames[0];
        let target = select_spec(regions.expand, regions.current, child.item.size);
        let dx = align_offset(aligns.x, target.x, child.item.size.x);
        let dy = align_offset(aligns.y, target.y, child.item.size.y);
        if is_coord(dx) && is_coord(dy) && shiftable(
            child.item.elements,
            Point { x: dx as i64, y: dy as i64 },
        ) {
            Ok(
                frames.update(
                    0,
                    Constrained {
                        item: FrameView {
                            size: target,
                            elements: shifted(
                                child.item.elements,
                                Point { x: dx as i64, y: dy as i64 },
                            ),
                        },
                        cts: Constraints {
                            min: child.cts.min,
                            max: child.cts.max,
                            exact: filter_spec(
                                regions.current,
                                either(regions.expand, present(child.cts.exact)),
                            ),
                            base: filter_spec(regions.base, present(child.cts.base)),
                            expand: regions.expand,
                        },
                    },
                ),
            )
        } else {
            Err(LayoutError {  })
        }
    }
}

/// Padding resolved to lengths: the offset of the content and the sum of the
/// padding per axis.
pub struct Inset {
    pub left: Length,
    pub top: Length,
    pub sum: Size,
}

/// The padding resolved against `base`. There is none where a side, or the
/// sum of two opposite sides, does not fit a `Length`.
pub open spec fn inset_spec(padding: Sides, base: Size) -> Option<Inset> {
    let l = resolve_spec(padding.left, base.x);
    let r = resolve_spec(padding.right, base.x);
    let t = resolve_spec(padding.top, base.y);
    let b = resolve_spec(padding.bottom, base.y);
    if l + r <= u64::MAX && t + b <= u64::MAX {
        Some(Inset { left: l as u64, top: t as u64, sum: Axes { x: (l + r) as u64, y: (t + b) as u64 } })
    } else {
        None
    }
}

/// A length reduced by another, but not below zero.
pub open spec fn shrunk(v: Length, by: Length) -> Length {
    if v >= by {
        (v - by) as u64
    } else {
        0
    }
}

/// The regions into which a pad node lays out its child.
pub open spec fn pad_pod(inset: Inset, regions: Regions) -> Regions {
    Regions {
        current: Axes {
            x: shrunk(regions.current.x, inset.sum.x),
            y: shrunk(regions.current.y, inset.sum.y),
        },
        base: Axes { x: shrunk(regions.base.x, inset.sum.x), y: shrunk(regions.base.y, inset.sum.y) },
        expand: regions.expand,
    }
}

/// Per axis, whether the padding depends on the base.
pub open spec fn pad_rel(padding: Sides) -> Axes<bool> {
    Axes {
        x: padding.left.relative() || padding.right.relative(),
        y: padding.top.relative() || padding.bottom.relative(),
    }
}

/// Per axis, whether the constraints depend on `current`.
pub open spec fn reads_current(cts: Constraints) -> Axes<bool> {
    Axes {
        x: cts.exact.x is Some || cts.min.x is Some || cts.max.x is Some,
        y: cts.exact.y is Some || cts.min.y is Some || cts.max.y is Some,
    }
}

/// What a pad node makes of its child's frames: the first grows by the
/// padding and its content moves inwards. `current` is pinned where the child
/// read it, `base` where the child read it or the padding is relative. The
/// layout fails where the grown size does not fit, or an element would leave
/// the coordinate range.
pub open spec fn padded_frames(padding: Sides, inset: Inset, regions: Regions, frames: Frames) -> Layouted {
    if frames.len() == 0 {
        Ok(frames)
    } else {
        let child = frames[0];
        let w = child.item.size.x + inset.sum.x;
        let h = child.item.size.y + inset.sum.y;
        if w <= u64::MAX && h <= u64::MAX && inset.left <= i64::MAX && inset.top <= i64::MAX
            && shiftable(child.item.elements, Point { x: inset.left as i64, y: inset.top as i64 }) {
            Ok(
                frames.update(
                    0,
                    Constrained {
                        item: FrameView {
                            size: Axes { x: w as u64, y: h as u64 },
                            elements: shifted(
                                child.item.elements,
                                Point { x: inset.left as i64, y: inset.top as i64 },
                            ),
                        },
                        cts: Constraints {
                            exact: filter_spec(regions.current, reads_current(child.cts)),
                            base: filter_spec(
                                regions.base,
                                either(pad_rel(padding), present(child.cts.base)),
                            ),
                            ..Constraints::loose(regions.expand)
                        },
                    },
                ),
            )
        } else {
            Err(LayoutError {  })
        }
    }
}

/// What a sized node yields for `regions`.
pub open spec fn sized_layout(n: SizedNode, regions: Regions) -> Layouted
    decreases n.child.height() + 1, 0int,
{
    match sized_pod(n.sizing, regions) {
        None => Err(LayoutError {  }),
        Some(pod) => match layout_spec(n.child, pod) {
            Err(e) => Err(e),
            Ok(frames) => sized_finish(n.sizing, regions, frames),
        },
    }
}

/// What a fill node yields for `regions`.
pub open spec fn fill_layout(n: FillNode, regions: Regions) -> Layouted
    decreases n.child.height() + 1, 0int,
{
    match layout_spec(n.child, regions) {
        Err(e) => Err(e),
        Ok(frames) => Ok(filled_frames(frames, n.fill)),
    }
}

/// What a stroke node yields for `regions`.
pub open spec fn stroke_layout(n: StrokeNode, regions: Regions) -> Layouted
    decreases n.child.height() + 1, 0int,
{
    match layout_spec(n.child, regions) {
        Err(e) => Err(e),
        Ok(frames) => Ok(stroked_frames(frames, n.stroke)),
    }
}

/// What a move node yields for `regions`.
pub open spec fn move_layout(n: MoveNode, regions: Regions) -> Layouted
    decreases n.child.height() + 1, 0int,
{
    match layout_spec(n.child, regions) {
        Err(e) => Err(e),
        Ok(frames) => moved_frames(frames, n.offset),
    }
}

/// What an align node yields for `regions`.
pub open spec fn align_layout(n: AlignNode, regions: Regions) -> Layouted
    decreases n.child.height() + 1, 0int,
{
    match layout_spec(n.child, align_pod(n.aligns, regions)) {
        Err(e) => Err(e),
        Ok(frames) => aligned_frames(n.aligns, regions, frames),
    }
}

/// What a pad node yields for `regions`.
pub open spec fn pad_layout(n: PadNode, regions: Regions) -> Layouted
    decreases n.child.height() + 1, 0int,
{
    match inset_spec(n.padding, regions.base) {
        None => Err(LayoutError {  }),
        Some(inset) => match layout_spec(n.child, pad_pod(inset, regions)) {
            Err(e) => Err(e),
            Ok(frames) => padded_frames(n.padding, inset, regions, frames),
        },
    }
}

/// What a node yields for `regions` when nothing is cached.
pub open spec fn layout_spec(node: LayoutNode, regions: Regions) -> Layouted
    decreases node.height(), 1int,
{
    match node.content() {
        Node::Empty(_) => Ok(empty_frames(regions)),
        Node::Sized(n) => sized_layout(n, regions),
        Node::Fill(n) => fill_layout(n, regions),
        Node::Stroke(n) => stroke_layout(n, regions),
        Node::Align(n) => align_layout(n, regions),
        Node::Pad(n) => pad_layout(n, regions),
        Node::Move(n) => move_layout(n, regions),
    }
}

} // verus!
