use layout::constraints::{Constrained, Constraints};
use layout::frame::{Element, Frame, Geometry, Shape};
use layout::geom::{filter, select, Axes, Linear, Paint, Point};
use layout::incremental::{duplicate_frames, FramesEntry, LayoutCache};
use layout::layout::Vm;
use layout::node::{EmptyNode, LayoutNode, Node, NodeId};
use layout::regions::Regions;
use layout::styles::{Style, StyleChain};

fn size(x: u64, y: u64) -> Axes<u64> {
    Axes { x, y }
}

fn flags(x: bool, y: bool) -> Axes<bool> {
    Axes { x, y }
}

fn empty() -> LayoutNode {
    LayoutNode::new(Node::Empty(EmptyNode {}))
}

fn tree() -> LayoutNode {
    empty()
        .filled(Paint { rgba: 3 })
        .sized(Axes { x: Some(Linear { rel: 0, abs: 30 }), y: None })
        .moved(Point { x: 2, y: 2 })
}

fn levels(vm: &Vm) -> Vec<usize> {
    vm.layout_cache.slots.iter().map(|s| s.entry.level).collect()
}

#[test]
fn select_and_filter_work_per_axis() {
    assert_eq!(select(flags(true, false), size(1, 2), size(3, 4)), size(1, 4));
    assert_eq!(select(flags(false, true), size(1, 2), size(3, 4)), size(3, 2));
    assert_eq!(filter(size(1, 2), flags(true, false)), Axes { x: Some(1), y: None });
    assert_eq!(filter(size(1, 2), flags(false, true)), Axes { x: None, y: Some(2) });
}

#[test]
fn constraints_check_pins_and_bounds() {
    let mut cts = Constraints::new(flags(true, false));
    let regions = Regions::one(size(10, 20), size(30, 40), flags(true, false));
    assert!(cts.check(&regions));
    assert!(!cts.check(&Regions::one(size(10, 20), size(30, 40), flags(true, true))));
    cts.exact = Axes { x: Some(10), y: None };
    assert!(cts.check(&regions));
    assert!(!cts.check(&Regions::one(size(11, 20), size(30, 40), flags(true, false))));
    cts.base = Axes { x: None, y: Some(40) };
    assert!(cts.check(&regions));
    assert!(!cts.check(&Regions::one(size(10, 20), size(30, 41), flags(true, false))));
    cts.min = Axes { x: None, y: Some(20) };
    cts.max = Axes { x: None, y: Some(25) };
    assert!(cts.check(&regions));
    assert!(cts.check(&Regions::one(size(10, 25), size(0, 40), flags(true, false))));
    assert!(!cts.check(&Regions::one(size(10, 19), size(30, 40), flags(true, false))));
    assert!(!cts.check(&Regions::one(size(10, 26), size(30, 40), flags(true, false))));
}

#[test]
fn frame_operations_change_what_they_say() {
    let mut frame = Frame::new(size(4, 5));
    let rect = Element::Shape(Shape::filled(Geometry::Rect(size(1, 1)), Paint { rgba: 1 }));
    let line = Element::Shape(Shape::filled(Geometry::Rect(size(2, 2)), Paint { rgba: 2 }));
    frame.prepend(Point { x: 1, y: 1 }, rect);
    frame.prepend(Point { x: i64::MAX, y: 0 }, line);
    assert_eq!(frame.elements, vec![(Point { x: i64::MAX, y: 0 }, line), (Point { x: 1, y: 1 }, rect)]);
    frame.resize(size(9, 9));
    assert_eq!(frame.size, size(9, 9));
    assert_eq!(frame.elements.len(), 2);
    let copy = frame.duplicate();
    assert_eq!(copy, frame);
    assert!(!frame.translate(Point { x: 1, y: 0 }));
    assert_eq!(copy, frame);
    assert!(frame.translate(Point { x: -1, y: 7 }));
    assert_eq!(
        frame.elements,
        vec![(Point { x: i64::MAX - 1, y: 7 }, line), (Point { x: 0, y: 8 }, rect)]
    );
}

#[test]
fn cache_returns_first_matching_entry() {
    let mut cache = LayoutCache::new();
    let regions = Regions::one(size(10, 20), size(10, 20), flags(false, false));
    assert!(cache.get(1, &regions).is_none());
    let make = |w: u64, expand: Axes<bool>| {
        vec![Constrained { item: Frame::new(size(w, 0)), cts: Constraints::new(expand) }]
    };
    cache.insert(1, FramesEntry::new(make(1, flags(true, true)), 0));
    cache.insert(2, FramesEntry::new(make(2, flags(false, false)), 0));
    cache.insert(1, FramesEntry::new(make(3, flags(false, false)), 1));
    cache.insert(1, FramesEntry::new(make(4, flags(false, false)), 2));
    assert_eq!(cache.len(), 4);
    let found = cache.get(1, &regions).unwrap();
    assert_eq!(found.len(), 1);
    assert_eq!(found[0].item.size, size(3, 0));
    assert_eq!(cache.get(2, &regions).unwrap()[0].item.size, size(2, 0));
    assert!(cache.get(3, &regions).is_none());
    cache.evict(0);
    assert_eq!(cache.len(), 2);
    assert!(cache.get(1, &regions).is_none());
    assert_eq!(cache.get(2, &regions).unwrap()[0].item.size, size(2, 0));
}

#[test]
fn entries_with_two_frames_never_match_one_region() {
    let regions = Regions::one(size(10, 20), size(10, 20), flags(false, false));
    let frame = || Constrained { item: Frame::new(size(0, 0)), cts: Constraints::new(flags(false, false)) };
    let one = FramesEntry::new(vec![frame()], 0);
    let two = FramesEntry::new(vec![frame(), frame()], 0);
    let none = FramesEntry::new(Vec::new(), 0);
    assert!(one.check(&regions));
    assert!(!two.check(&regions));
    assert!(none.check(&regions));
    assert!(two.lookup(&regions).is_none());
    assert_eq!(one.lookup(&regions).unwrap(), duplicate_frames(&one.frames));
}

#[test]
fn layout_stores_one_entry_at_the_callers_level() {
    let mut vm = Vm::new();
    let node = tree();
    let regions = Regions::one(size(100, 50), size(100, 50), flags(true, true));
    let styles = StyleChain::new();
    let frames = node.layout(&mut vm, &regions, &styles).unwrap();
    assert_eq!(vm.level, 0);
    assert_eq!(levels(&vm), vec![0]);
    assert_eq!(vm.layout_cache.slots[0].entry.frames, frames);
}

#[test]
fn entries_of_nested_calls_are_gone_after_return() {
    let mut vm = Vm::new();
    vm.level = 3;
    let regions = Regions::one(size(100, 50), size(100, 50), flags(true, true));
    let styles = StyleChain::new();
    let stale = vec![Constrained { item: Frame::new(size(0, 0)), cts: Constraints::new(flags(true, true)) }];
    vm.layout_cache.insert(77, FramesEntry::new(duplicate_frames(&stale), 2));
    vm.layout_cache.insert(78, FramesEntry::new(duplicate_frames(&stale), 3));
    vm.layout_cache.insert(79, FramesEntry::new(stale, 4));
    tree().layout(&mut vm, &regions, &styles).unwrap();
    assert_eq!(vm.level, 3);
    assert_eq!(levels(&vm), vec![2, 3, 3]);
    let child = empty().filled(Paint { rgba: 3 });
    child.layout(&mut vm, &regions, &styles).unwrap();
    assert_eq!(levels(&vm), vec![2, 3, 3, 3]);
}

#[test]
fn second_layout_is_answered_from_the_cache() {
    let mut vm = Vm::new();
    let node = tree();
    let regions = Regions::one(size(100, 50), size(100, 50), flags(true, true));
    let styles = StyleChain::new();
    let first = node.layout(&mut vm, &regions, &styles).unwrap();
    let second = node.layout(&mut vm, &regions, &styles).unwrap();
    assert_eq!(first, second);
    assert_eq!(vm.layout_cache.len(), 1);
    let mut fresh = Vm::new();
    assert_eq!(node.layout(&mut fresh, &regions, &styles).unwrap(), second);
}

#[test]
fn cached_frames_are_reused_only_where_constraints_hold() {
    let mut vm = Vm::new();
    let node = empty().sized(Axes { x: Some(Linear { rel: 0, abs: 30 }), y: Some(Linear { rel: 50, abs: 0 }) });
    let styles = StyleChain::new();
    let regions = Regions::one(size(100, 50), size(100, 60), flags(false, false));
    let first = node.layout(&mut vm, &regions, &styles).unwrap();
    assert_eq!(first[0].item.size, size(30, 30));
    let wider = Regions::one(size(900, 7), size(5, 60), flags(false, false));
    let again = node.layout(&mut vm, &wider, &styles).unwrap();
    assert_eq!(vm.layout_cache.len(), 1);
    assert_eq!(again, first);
    assert_eq!(node.layout(&mut Vm::new(), &wider, &styles).unwrap(), first);
    let other_base = Regions::one(size(100, 50), size(100, 80), flags(false, false));
    let third = node.layout(&mut vm, &other_base, &styles).unwrap();
    assert_eq!(vm.layout_cache.len(), 2);
    assert_eq!(third[0].item.size, size(30, 40));
    assert_eq!(node.layout(&mut Vm::new(), &other_base, &styles).unwrap(), third);
}

#[test]
fn failed_layout_restores_level_and_stores_nothing() {
    let mut vm = Vm::new();
    let node = empty()
        .sized(Axes { x: Some(Linear { rel: 100, abs: u64::MAX }), y: None })
        .filled(Paint { rgba: 1 });
    let regions = Regions::one(size(100, 50), size(100, 60), flags(false, false));
    assert!(node.layout(&mut vm, &regions, &StyleChain::new()).is_err());
    assert_eq!(vm.level, 0);
    assert_eq!(vm.layout_cache.len(), 0);
}

#[test]
fn styles_of_other_kinds_do_not_change_the_key() {
    let node = empty();
    let regions = Regions::one(size(100, 50), size(100, 60), flags(false, false));
    let mut vm = Vm::new();
    let plain = StyleChain { entries: vec![Style { node: None, value: 5 }] };
    let foreign = StyleChain {
        entries: vec![Style { node: Some(NodeId::Fill), value: 9 }, Style { node: None, value: 5 }],
    };
    let own = StyleChain {
        entries: vec![Style { node: Some(NodeId::Empty), value: 9 }, Style { node: None, value: 5 }],
    };
    node.layout(&mut vm, &regions, &plain).unwrap();
    assert_eq!(vm.layout_cache.len(), 1);
    node.layout(&mut vm, &regions, &foreign).unwrap();
    assert_eq!(vm.layout_cache.len(), 1);
    node.layout(&mut vm, &regions, &own).unwrap();
    assert_eq!(vm.layout_cache.len(), 2);
    assert_ne!(vm.layout_cache.slots[0].hash, vm.layout_cache.slots[1].hash);
}

#[test]
fn barred_chain_keeps_relevant_styles_in_order() {
    let chain = StyleChain {
        entries: vec![
            Style { node: Some(NodeId::Fill), value: 1 },
            Style { node: None, value: 2 },
            Style { node: Some(NodeId::Pad), value: 3 },
            Style { node: Some(NodeId::Fill), value: 4 },
        ],
    };
    let barred = chain.barred(NodeId::Fill);
    assert_eq!(
        barred.entries,
        vec![
            Style { node: Some(NodeId::Fill), value: 1 },
            Style { node: None, value: 2 },
            Style { node: Some(NodeId::Fill), value: 4 },
        ]
    );
    assert_eq!(chain.barred(NodeId::Move).entries, vec![Style { node: None, value: 2 }]);
    assert_eq!(barred.hash(), layout::hash::hash_words(&vec![3, 1, 0, 2, 3, 4]));
    assert_eq!(StyleChain::new().hash(), 0);
    assert_ne!(barred.hash(), chain.hash());
}

#[test]
fn nesting_has_to_stay_countable() {
    let leaf = empty();
    let pair = empty().filled(Paint { rgba: 1 });
    assert!(leaf.fits_at(0));
    assert!(leaf.fits_at(usize::MAX - 1));
    assert!(!leaf.fits_at(usize::MAX));
    assert!(pair.fits_at(usize::MAX - 2));
    assert!(!pair.fits_at(usize::MAX - 1));
    assert!(tree().fits_at(usize::MAX - 4));
    assert!(!tree().fits_at(usize::MAX - 3));
}

#[test]
fn layout_at_the_deepest_level_that_fits() {
    let mut vm = Vm::new();
    vm.level = usize::MAX - 2;
    let node = empty().filled(Paint { rgba: 1 });
    assert!(node.fits_at(vm.level));
    let regions = Regions::one(size(100, 50), size(100, 50), flags(true, true));
    let frames = node.layout(&mut vm, &regions, &StyleChain::new()).unwrap();
    assert_eq!(frames[0].item.size, size(100, 50));
    assert_eq!(vm.level, usize::MAX - 2);
    assert_eq!(levels(&vm), vec![usize::MAX - 2]);
}
