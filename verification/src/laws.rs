//! What holds of every layout: results fit the regions they were made for,
//! stay the same for all regions that meet their constraints, and do not
//! depend on what the cache holds; and how a layout call changes the cache.

use vstd::prelude::*;
use crate::geom::{resolve_spec, Axes, Length, Linear};
use crate::incremental::{entry_valid, hit, lookup_spec, scoped, within, Frames, SlotView};
use crate::layout::{cached_layout, fingerprint, own_layout};
use crate::model::{
    align_pod, aligned_frames, empty_frames, forced, inset_spec, layout_spec, pad_pod,
    padded_frames, sized_finish, sized_layout, sized_pod, LayoutError, Layouted,
};
use crate::node::{LayoutNode, Node, SizedNode};
use crate::regions::Regions;
use crate::seqs::{lemma_filter_member, lemma_filter_narrow, lemma_filter_push};
use crate::styles::{barred_spec, Style};

verus! {

/// Whether `frames` are what `node` yields for all regions that meet their
/// constraints.
pub open spec fn true_of(frames: Frames, node: LayoutNode) -> bool {
    forall|r: Regions| #[trigger]
        entry_valid(frames, r) ==> layout_spec(node, r) == Ok::<Frames, LayoutError>(frames)
}

/// Whether every slot stored under a key of `owner` holds frames of the node
/// that `owner` gives for the key.
pub open spec fn faithful(slots: Seq<SlotView>, owner: Map<u64, LayoutNode>) -> bool {
    forall|i: int|
        0 <= i < slots.len() && owner.dom().contains((#[trigger] slots[i]).hash) ==> true_of(
            slots[i].frames,
            owner[slots[i].hash],
        )
}

/// Whether `owner` gives `node`, and every node below it, for the key under
/// which that node is cached when the layout starts with `styles`. No
/// such `owner` exists where two different nodes among them share a key.
pub open spec fn covered(node: LayoutNode, styles: Seq<Style>, owner: Map<u64, LayoutNode>) -> bool
    decreases node.height(),
{
    &&& owner.dom().contains(fingerprint(node, styles))
    &&& owner[fingerprint(node, styles)] == node
    &&& match node.content().child() {
        Some(c) => c.height() < node.height() && covered(
            c,
            barred_spec(styles, node.content().kind()),
            owner,
        ),
        None => true,
    }
}

/// How a layout call for `key` and `regions` at nesting `level` changes the
/// cache. On a hit the cache stays as it is and the stored frames come back.
/// On a miss everything that was produced more deeply nested is dropped, and
/// the frames that come back are stored behind the rest, at `level`.
pub open spec fn cache_step(
    before: Seq<SlotView>,
    after: Seq<SlotView>,
    key: u64,
    regions: Regions,
    level: usize,
    out: Layouted,
) -> bool {
    match lookup_spec(before, key, regions) {
        Some(frames) => after == before && out == Ok::<Frames, LayoutError>(frames),
        None => after == scoped(before, level as int) + (match out {
            Ok(frames) => seq![SlotView { hash: key, frames, level }],
            Err(_) => Seq::empty(),
        }),
    }
}

/// A lookup that succeeds returns the frames of a slot that answers.
pub proof fn lemma_lookup_hit(slots: Seq<SlotView>, key: u64, regions: Regions)
    requires
        lookup_spec(slots, key, regions) is Some,
    ensures
        exists|i: int|
            0 <= i < slots.len() && hit(#[trigger] slots[i], key, regions) && slots[i].frames
                == lookup_spec(slots, key, regions)->0,
    decreases slots.len(),
{
    if hit(slots[0], key, regions) {
    } else {
        lemma_lookup_hit(slots.drop_first(), key, regions);
        let i = choose|i: int|
            0 <= i < slots.drop_first().len() && hit(#[trigger] slots.drop_first()[i], key, regions)
                && slots.drop_first()[i].frames == lookup_spec(slots.drop_first(), key, regions)->0;
        assert(slots[i + 1] == slots.drop_first()[i]);
    }
}

/// Dropping slots keeps a cache faithful.
pub proof fn lemma_faithful_scoped(slots: Seq<SlotView>, level: int, owner: Map<u64, LayoutNode>)
    requires
        faithful(slots, owner),
    ensures
        faithful(scoped(slots, level), owner),
{
    let kept = scoped(slots, level);
    assert forall|i: int| 0 <= i < kept.len() && owner.dom().contains((#[trigger] kept[i]).hash) implies true_of(
        kept[i].frames,
        owner[kept[i].hash],
    ) by {
        lemma_filter_member(slots, within(level), i);
        let j = choose|j: int| 0 <= j < slots.len() && slots[j] == kept[i];
        assert(slots[j].hash == kept[i].hash);
    }
}

/// Slots at a nesting of `level` or more do not show among those of less.
pub proof fn lemma_scoped_below(slots: Seq<SlotView>, tail: Seq<SlotView>, level: int)
    requires
        tail.len() <= 1,
        forall|i: int| 0 <= i < tail.len() ==> tail[i].level >= level,
    ensures
        scoped(scoped(slots, level) + tail, level - 1) == scoped(slots, level - 1),
{
    let p = within(level);
    let q = within(level - 1);
    assert forall|s: SlotView| #[trigger] q(s) implies p(s) by {}
    lemma_filter_narrow(slots, p, q);
    if tail.len() == 1 {
        assert(scoped(slots, level) + tail =~= scoped(slots, level).push(tail[0]));
        lemma_filter_push(scoped(slots, level), q, tail[0]);
    } else {
        assert(scoped(slots, level) + tail =~= scoped(slots, level));
    }
}

/// A length without a relative part resolves to its absolute part, whatever
/// the base.
pub proof fn lemma_resolve_absolute(v: Linear, a: Length, b: Length)
    requires
        !v.relative(),
    ensures
        resolve_spec(v, a) == resolve_spec(v, b),
        resolve_spec(v, a) == v.abs,
{
    assert(v.rel as int * a as int == 0) by (nonlinear_arith)
        requires
            v.rel == 0,
    ;
    assert(v.rel as int * b as int == 0) by (nonlinear_arith)
        requires
            v.rel == 0,
    ;
}

/// The frames that a node yields for some regions are exactly one frame, and
/// its constraints are met by those regions.
pub proof fn lemma_layout_valid(node: LayoutNode, regions: Regions)
    ensures
        layout_spec(node, regions) is Ok ==> {
            &&& layout_spec(node, regions)->Ok_0.len() == 1
            &&& entry_valid(layout_spec(node, regions)->Ok_0, regions)
        },
    decreases node.height(),
{
    if layout_spec(node, regions) is Ok {
        let out = layout_spec(node, regions)->Ok_0;
        match node.content() {
            Node::Empty(_) => {
                assert(out[0].cts.satisfied(regions));
            },
            Node::Sized(n) => {
                let pod = sized_pod(n.sizing, regions)->0;
                lemma_layout_valid(n.child, pod);
                assert(out[0].cts.satisfied(regions));
            },
            Node::Fill(n) => {
                lemma_layout_valid(n.child, regions);
                let inner = layout_spec(n.child, regions)->Ok_0;
                assert(inner[0].cts.satisfied(regions));
                assert(out[0].cts == inner[0].cts);
            },
            Node::Stroke(n) => {
                lemma_layout_valid(n.child, regions);
                let inner = layout_spec(n.child, regions)->Ok_0;
                assert(inner[0].cts.satisfied(regions));
                assert(out[0].cts == inner[0].cts);
            },
            Node::Move(n) => {
                lemma_layout_valid(n.child, regions);
                let inner = layout_spec(n.child, regions)->Ok_0;
                assert(inner[0].cts.satisfied(regions));
                assert(out[0].cts == inner[0].cts);
            },
            Node::Align(n) => {
                let pod = align_pod(n.aligns, regions);
                lemma_layout_valid(n.child, pod);
                let inner = layout_spec(n.child, pod)->Ok_0;
                assert(inner[0].cts.satisfied(pod));
                assert(out[0].cts.satisfied(regions));
            },
            Node::Pad(n) => {
                let inset = inset_spec(n.padding, regions.base)->0;
                let pod = pad_pod(inset, regions);
                lemma_layout_valid(n.child, pod);
                assert(out[0].cts.satisfied(regions));
            },
        }
    }
}

/// Constraint soundness: where a node yields frames for `made`, and `other`
/// meets the constraints of those frames, the node yields the same frames
/// for `other`.
pub proof fn lemma_layout_sound(node: LayoutNode, made: Regions, other: Regions)
    requires
        layout_spec(node, made) is Ok,
        entry_valid(layout_spec(node, made)->Ok_0, other),
    ensures
        layout_spec(node, other) == layout_spec(node, made),
    decreases node.height(),
{
    let out = layout_spec(node, made)->Ok_0;
    lemma_layout_valid(node, made);
    assert(out[0].cts.satisfied(other));
    assert(out[0].cts.satisfied(made));
    match node.content() {
        Node::Empty(_) => {
            assert(empty_frames(other) =~= empty_frames(made));
        },
        Node::Sized(n) => {
            let pod = sized_pod(n.sizing, made)->0;
            if n.sizing.x is Some && !n.sizing.x->0.relative() {
                lemma_resolve_absolute(n.sizing.x->0, made.base.x, other.base.x);
            }
            if n.sizing.y is Some && !n.sizing.y->0.relative() {
                lemma_resolve_absolute(n.sizing.y->0, made.base.y, other.base.y);
            }
            assert(forced(n.sizing.x, other.base.x, other.current.x) == forced(
                n.sizing.x,
                made.base.x,
                made.current.x,
            ));
            assert(forced(n.sizing.y, other.base.y, other.current.y) == forced(
                n.sizing.y,
                made.base.y,
                made.current.y,
            ));
            assert(sized_pod(n.sizing, other) == Some(pod));
            let inner = layout_spec(n.child, pod)->Ok_0;
            assert(sized_finish(n.sizing, other, inner) == sized_finish(n.sizing, made, inner));
        },
        Node::Fill(n) => {
            let inner = layout_spec(n.child, made)->Ok_0;
            lemma_layout_valid(n.child, made);
            assert(out[0].cts == inner[0].cts);
            assert(entry_valid(inner, other));
            lemma_layout_sound(n.child, made, other);
        },
        Node::Stroke(n) => {
            let inner = layout_spec(n.child, made)->Ok_0;
            lemma_layout_valid(n.child, made);
            assert(out[0].cts == inner[0].cts);
            assert(entry_valid(inner, other));
            lemma_layout_sound(n.child, made, other);
        },
        Node::Move(n) => {
            let inner = layout_spec(n.child, made)->Ok_0;
            lemma_layout_valid(n.child, made);
            assert(out[0].cts == inner[0].cts);
            assert(entry_valid(inner, other));
            lemma_layout_sound(n.child, made, other);
        },
        Node::Align(n) => {
            let pod = align_pod(n.aligns, made);
            let pod2 = align_pod(n.aligns, other);
            let inner = layout_spec(n.child, pod)->Ok_0;
            lemma_layout_valid(n.child, pod);
            assert(inner[0].cts.satisfied(pod));
            assert(inner[0].cts.satisfied(pod2));
            assert(entry_valid(inner, pod2));
            lemma_layout_sound(n.child, pod, pod2);
            assert(aligned_frames(n.aligns, other, inner) == aligned_frames(n.aligns, made, inner));
        },
        Node::Pad(n) => {
            let inset = inset_spec(n.padding, made.base)->0;
            if !n.padding.left.relative() {
                lemma_resolve_absolute(n.padding.left, made.base.x, other.base.x);
            }
            if !n.padding.right.relative() {
                lemma_resolve_absolute(n.padding.right, made.base.x, other.base.x);
            }
            if !n.padding.top.relative() {
                lemma_resolve_absolute(n.padding.top, made.base.y, other.base.y);
            }
            if !n.padding.bottom.relative() {
                lemma_resolve_absolute(n.padding.bottom, made.base.y, other.base.y);
            }
            let pod = pad_pod(inset, made);
            let inner = layout_spec(n.child, pod)->Ok_0;
            lemma_layout_valid(n.child, pod);
            assert(inner[0].cts.satisfied(pod));
            assert(inset_spec(n.padding, other.base) == Some(inset));
            let pod2 = pad_pod(inset, other);
            assert(inner[0].cts.satisfied(pod2));
            assert(entry_valid(inner, pod2));
            lemma_layout_sound(n.child, pod, pod2);
            assert(padded_frames(n.padding, inset, other, inner) == padded_frames(
                n.padding,
                inset,
                made,
                inner,
            ));
        },
    }
}

/// Fingerprint stability: two well-formed handles on equal nodes are the same
/// handle, and they are cached under the same key whenever the styles that
/// bear on the node's kind are the same.
pub proof fn lemma_fingerprint_stable(a: LayoutNode, b: LayoutNode, sa: Seq<Style>, sb: Seq<Style>)
    requires
        a.wf(),
        b.wf(),
        a.content() == b.content(),
        barred_spec(sa, a.content().kind()) == barred_spec(sb, b.content().kind()),
    ensures
        a.hash_value() == b.hash_value(),
        a == b,
        fingerprint(a, sa) == fingerprint(b, sb),
{
    a.lemma_same(b);
}

/// The empty node's frame has no content. It has the size of the region
/// where both axes expand, and the size zero where neither does.
pub proof fn lemma_empty_expands(node: LayoutNode, regions: Regions)
    requires
        node.content() is Empty,
    ensures
        layout_spec(node, regions) is Ok,
        layout_spec(node, regions)->Ok_0.len() == 1,
        layout_spec(node, regions)->Ok_0[0].item.elements.len() == 0,
        regions.expand.x && regions.expand.y ==> layout_spec(node, regions)->Ok_0[0].item.size
            == regions.current,
        !regions.expand.x && !regions.expand.y ==> layout_spec(node, regions)->Ok_0[0].item.size
            == (Axes::<Length> { x: 0, y: 0 }),
{
}

/// A sized node in regions that expand on both axes yields a frame of the
/// size of the region, pinned to it on both axes, whatever its child yields.
pub proof fn lemma_sized_fills(n: SizedNode, regions: Regions)
    requires
        regions.expand.x && regions.expand.y,
        sized_layout(n, regions) is Ok,
    ensures
        sized_layout(n, regions)->Ok_0.len() >= 1,
        sized_layout(n, regions)->Ok_0[0].item.size == regions.current,
        sized_layout(n, regions)->Ok_0[0].cts.exact == (Axes::<Option<Length>> {
            x: Some(regions.current.x),
            y: Some(regions.current.y),
        }),
{
}

/// The same holds of a sized node's own layout whatever the cache holds:
/// in regions that expand on both axes, the frame it yields has the size of
/// the region and is pinned to it on both axes.
pub proof fn lemma_sized_fills_cached(
    n: SizedNode,
    regions: Regions,
    styles: Seq<Style>,
    slots: Seq<SlotView>,
    level: int,
)
    requires
        regions.expand.x && regions.expand.y,
        own_layout(Node::Sized(n), regions, styles, slots, level).out is Ok,
    ensures
        own_layout(Node::Sized(n), regions, styles, slots, level).out->Ok_0.len() >= 1,
        own_layout(Node::Sized(n), regions, styles, slots, level).out->Ok_0[0].item.size
            == regions.current,
        own_layout(Node::Sized(n), regions, styles, slots, level).out->Ok_0[0].cts.exact == (Axes::<
            Option<Length>,
        > { x: Some(regions.current.x), y: Some(regions.current.y) }),
{
}

/// How a layout through the cache changes the cache: a hit leaves it as it
/// is; a miss drops what was produced more deeply nested than `level` and
/// stores the new frames, if there are any, behind the rest. Slots produced
/// less deeply nested than `level` are never touched.
pub proof fn lemma_cached_step(
    node: LayoutNode,
    regions: Regions,
    styles: Seq<Style>,
    slots: Seq<SlotView>,
    level: int,
)
    requires
        0 <= level,
        level + node.height() <= usize::MAX,
    ensures
        cache_step(
            slots,
            cached_layout(node, regions, styles, slots, level).slots,
            fingerprint(node, styles),
            regions,
            level as usize,
            cached_layout(node, regions, styles, slots, level).out,
        ),
        scoped(cached_layout(node, regions, styles, slots, level).slots, level - 1) == scoped(
            slots,
            level - 1,
        ),
    decreases node.height(),
{
    let key = fingerprint(node, styles);
    if lookup_spec(slots, key, regions) is None {
        let inner = barred_spec(styles, node.content().kind());
        let own = own_layout(node.content(), regions, inner, slots, level + 1);
        match node.content() {
            Node::Empty(_) => {},
            Node::Sized(n) => {
                if sized_pod(n.sizing, regions) is Some {
                    lemma_cached_step(
                        n.child,
                        sized_pod(n.sizing, regions)->0,
                        inner,
                        slots,
                        level + 1,
                    );
                }
            },
            Node::Fill(n) => {
                lemma_cached_step(n.child, regions, inner, slots, level + 1);
            },
            Node::Stroke(n) => {
                lemma_cached_step(n.child, regions, inner, slots, level + 1);
            },
            Node::Move(n) => {
                lemma_cached_step(n.child, regions, inner, slots, level + 1);
            },
            Node::Align(n) => {
                lemma_cached_step(n.child, align_pod(n.aligns, regions), inner, slots, level + 1);
            },
            Node::Pad(n) => {
                if inset_spec(n.padding, regions.base) is Some {
                    lemma_cached_step(
                        n.child,
                        pad_pod(inset_spec(n.padding, regions.base)->0, regions),
                        inner,
                        slots,
                        level + 1,
                    );
                }
            },
        }
        assert(scoped(own.slots, level) == scoped(slots, level));
        let after = cached_layout(node, regions, styles, slots, level).slots;
        if own.out is Ok {
            let slot = SlotView { hash: key, frames: own.out->Ok_0, level: level as usize };
            lemma_scoped_below(slots, seq![slot], level);
        } else {
            assert(scoped(slots, level) + Seq::<SlotView>::empty() =~= scoped(slots, level));
            lemma_scoped_below(slots, Seq::<SlotView>::empty(), level);
        }
    }
}

/// Eviction scoping: after a layout at nesting `level` that missed the
/// cache, no slot is left that was produced more deeply nested than `level`.
/// Hit or miss, the slots that were produced at `level` or less are all
/// still there, in front and in order.
pub proof fn lemma_eviction_scoped(
    node: LayoutNode,
    regions: Regions,
    styles: Seq<Style>,
    slots: Seq<SlotView>,
    level: int,
)
    requires
        0 <= level,
        level + node.height() <= usize::MAX,
    ensures
        ({
            let after = cached_layout(node, regions, styles, slots, level).slots;
            let kept = scoped(slots, level);
            let missed = lookup_spec(slots, fingerprint(node, styles), regions) is None;
            &&& missed ==> forall|i: int| 0 <= i < after.len() ==> (#[trigger] after[i]).level <= level
            &&& kept.len() <= after.len()
            &&& missed ==> after.take(kept.len() as int) == kept
            &&& !missed ==> after == slots
        }),
{
    lemma_cached_step(node, regions, styles, slots, level);
    let after = cached_layout(node, regions, styles, slots, level).slots;
    let kept = scoped(slots, level);
    if lookup_spec(slots, fingerprint(node, styles), regions) is None {
        assert(after.take(kept.len() as int) =~= kept);
        assert forall|i: int| 0 <= i < after.len() implies (#[trigger] after[i]).level <= level by {
            if i < kept.len() {
                lemma_filter_member(slots, within(level), i);
            }
        }
    } else {
        slots.filter_lemma(within(level));
    }
}

/// Cache transparency: where no two different nodes share a key and the
/// cache holds true results, a layout through the cache yields what the node
/// yields without a cache, and leaves a cache that holds true results.
pub proof fn lemma_cache_transparent(
    node: LayoutNode,
    regions: Regions,
    styles: Seq<Style>,
    slots: Seq<SlotView>,
    level: int,
    owner: Map<u64, LayoutNode>,
)
    requires
        covered(node, styles, owner),
        faithful(slots, owner),
    ensures
        cached_layout(node, regions, styles, slots, level).out == layout_spec(node, regions),
        faithful(cached_layout(node, regions, styles, slots, level).slots, owner),
    decreases node.height(),
{
    let key = fingerprint(node, styles);
    if lookup_spec(slots, key, regions) is Some {
        lemma_lookup_hit(slots, key, regions);
    } else {
        let inner = barred_spec(styles, node.content().kind());
        let own = own_layout(node.content(), regions, inner, slots, level + 1);
        match node.content() {
            Node::Empty(_) => {},
            Node::Sized(n) => {
                if sized_pod(n.sizing, regions) is Some {
                    lemma_cache_transparent(
                        n.child,
                        sized_pod(n.sizing, regions)->0,
                        inner,
                        slots,
                        level + 1,
                        owner,
                    );
                }
            },
            Node::Fill(n) => {
                lemma_cache_transparent(n.child, regions, inner, slots, level + 1, owner);
            },
            Node::Stroke(n) => {
                lemma_cache_transparent(n.child, regions, inner, slots, level + 1, owner);
            },
            Node::Move(n) => {
                lemma_cache_transparent(n.child, regions, inner, slots, level + 1, owner);
            },
            Node::Align(n) => {
                lemma_cache_transparent(
                    n.child,
                    align_pod(n.aligns, regions),
                    inner,
                    slots,
                    level + 1,
                    owner,
                );
            },
            Node::Pad(n) => {
                if inset_spec(n.padding, regions.base) is Some {
                    lemma_cache_transparent(
                        n.child,
                        pad_pod(inset_spec(n.padding, regions.base)->0, regions),
                        inner,
                        slots,
                        level + 1,
                        owner,
                    );
                }
            },
        }
        assert(own.out == layout_spec(node, regions));
        assert(faithful(own.slots, owner));
        lemma_faithful_scoped(own.slots, level, owner);
        if own.out is Ok {
            let frames = own.out->Ok_0;
            assert forall|r: Regions| #[trigger] entry_valid(frames, r) implies layout_spec(node, r)
                == Ok::<Frames, LayoutError>(frames) by {
                lemma_layout_sound(node, regions, r);
            }
            assert(true_of(frames, node));
        }
    }
}

} // verus!
