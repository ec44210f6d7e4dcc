use std::hash::Hasher;

use layout::constraints::{Constrained, Constraints};
use layout::frame::{Element, Frame, Geometry, Shape};
use layout::geom::{Align, Axes, Linear, Paint, Point, Sides, Stroke};
use layout::hash::hash_words;
use layout::layout::Vm;
use layout::model::LayoutError;
use layout::node::{EmptyNode, FillNode, LayoutNode, Node, NodeId, SizedNode};
use layout::regions::Regions;
use layout::styles::StyleChain;

fn size(x: u64, y: u64) -> Axes<u64> {
    Axes { x, y }
}

fn flags(x: bool, y: bool) -> Axes<bool> {
    Axes { x, y }
}

fn abs(v: u64) -> Linear {
    Linear { rel: 0, abs: v }
}

fn empty() -> LayoutNode {
    LayoutNode::new(Node::Empty(EmptyNode {}))
}

fn run(node: &LayoutNode, regions: &Regions) -> Result<Vec<Constrained<Frame>>, LayoutError> {
    let mut vm = Vm::new();
    node.layout(&mut vm, regions, &StyleChain::new())
}

fn step(state: u64, word: u64) -> u64 {
    (state.rotate_left(5) ^ word).wrapping_mul(0x517cc1b727220a95)
}

#[test]
fn hash_words_folds_fx_pairs() {
    let words = vec![7u64, 0, 0xdead_beef_0000_0001];
    let mut acc = 0u64;
    for w in &words {
        acc = step(step(0, acc), *w);
    }
    assert_eq!(hash_words(&words), acc);
    assert_ne!(hash_words(&words), 7);
    assert_eq!(hash_words(&Vec::new()), 0);
}

#[test]
fn hash_words_agrees_with_the_hasher() {
    let mut state = fxhash::FxHasher64::default();
    state.write_u64(0);
    state.write_u64(42);
    assert_eq!(hash_words(&vec![42]), state.finish());
    let mut next = fxhash::FxHasher64::default();
    next.write_u64(state.finish());
    next.write_u64(43);
    assert_eq!(hash_words(&vec![42, 43]), next.finish());
    assert_ne!(hash_words(&vec![42, 43]), hash_words(&vec![43, 42]));
}

#[test]
fn linear_resolves_against_base() {
    assert_eq!(Linear { rel: 50, abs: 10 }.resolve(200), Some(110));
    assert_eq!(Linear { rel: 33, abs: 0 }.resolve(10), Some(3));
    assert_eq!(abs(9).resolve(u64::MAX), Some(9));
    assert_eq!(Linear { rel: 100, abs: 1 }.resolve(u64::MAX), None);
    assert_eq!(Linear { rel: u64::MAX, abs: u64::MAX }.resolve(u64::MAX), None);
    assert!(Linear { rel: 1, abs: 0 }.is_relative());
    assert!(!abs(5).is_relative());
    assert!(abs(0).is_zero());
    assert!(!abs(1).is_zero());
}

#[test]
fn empty_node_fills_expanding_region() {
    let regions = Regions::one(size(120, 80), size(500, 500), flags(true, true));
    let frames = run(&empty(), &regions).unwrap();
    assert_eq!(frames.len(), 1);
    assert_eq!(frames[0].item.size, size(120, 80));
    assert!(frames[0].item.elements.is_empty());
    assert_eq!(frames[0].cts.exact, Axes { x: Some(120), y: Some(80) });
    assert_eq!(frames[0].cts.base, Axes { x: None, y: None });
    assert_eq!(frames[0].cts.expand, flags(true, true));
}

#[test]
fn empty_node_is_zero_sized_without_expansion() {
    let regions = Regions::one(size(120, 80), size(500, 500), flags(false, false));
    let frames = run(&empty(), &regions).unwrap();
    assert_eq!(frames.len(), 1);
    assert_eq!(frames[0].item.size, size(0, 0));
    assert_eq!(frames[0].cts, Constraints::new(flags(false, false)));
}

#[test]
fn empty_node_expands_per_axis() {
    let regions = Regions::one(size(120, 80), size(500, 500), flags(false, true));
    let frames = run(&empty(), &regions).unwrap();
    assert_eq!(frames[0].item.size, size(0, 80));
    assert_eq!(frames[0].cts.exact, Axes { x: None, y: Some(80) });
}

#[test]
fn default_handle_is_the_empty_node() {
    let node = LayoutNode::default();
    assert_eq!(node.id(), NodeId::Empty);
    assert!(node == empty());
}

#[test]
fn sized_node_resizes_to_expanding_region() {
    let node = empty().sized(Axes { x: Some(abs(30)), y: None });
    let regions = Regions::one(size(200, 100), size(200, 100), flags(true, true));
    let frames = run(&node, &regions).unwrap();
    assert_eq!(frames.len(), 1);
    assert_eq!(frames[0].item.size, size(200, 100));
    assert_eq!(frames[0].cts.exact, Axes { x: Some(200), y: Some(100) });
    assert_eq!(frames[0].cts.base, Axes { x: None, y: Some(100) });
}

#[test]
fn sized_node_resolves_relative_size() {
    let node = empty().sized(Axes { x: Some(Linear { rel: 50, abs: 10 }), y: None });
    let regions = Regions::one(size(300, 400), size(200, 100), flags(false, false));
    let frames = run(&node, &regions).unwrap();
    assert_eq!(frames[0].item.size, size(110, 0));
    assert_eq!(frames[0].cts.exact, Axes { x: None, y: Some(400) });
    assert_eq!(frames[0].cts.base, Axes { x: Some(200), y: Some(100) });
    assert_eq!(frames[0].cts.expand, flags(false, false));
    assert_eq!(frames[0].cts.min, Axes { x: None, y: None });
    assert_eq!(frames[0].cts.max, Axes { x: None, y: None });
}

#[test]
fn sized_node_with_both_axes_forced_pins_nothing_without_expansion() {
    let node = empty().sized(Axes { x: Some(abs(30)), y: Some(abs(40)) });
    let regions = Regions::one(size(300, 400), size(200, 100), flags(false, false));
    let frames = run(&node, &regions).unwrap();
    assert_eq!(frames[0].item.size, size(30, 40));
    assert_eq!(frames[0].cts, Constraints::new(flags(false, false)));
}

#[test]
fn sized_node_fails_on_unresolvable_size() {
    let node = empty().sized(Axes { x: Some(Linear { rel: 200, abs: u64::MAX }), y: None });
    let regions = Regions::one(size(300, 400), size(200, 100), flags(false, false));
    assert_eq!(run(&node, &regions), Err(LayoutError {}));
}

#[test]
fn fill_node_prepends_filled_rectangle() {
    let paint = Paint { rgba: 0xff00_00ff };
    let node = empty().filled(paint);
    let regions = Regions::one(size(60, 40), size(60, 40), flags(true, true));
    let frames = run(&node, &regions).unwrap();
    let plain = run(&empty(), &regions).unwrap();
    assert_eq!(frames.len(), 1);
    assert_eq!(frames[0].item.size, size(60, 40));
    assert_eq!(frames[0].cts, plain[0].cts);
    assert_eq!(
        frames[0].item.elements,
        vec![(
            Point { x: 0, y: 0 },
            Element::Shape(Shape {
                geometry: Geometry::Rect(size(60, 40)),
                fill: Some(paint),
                stroke: None,
            }),
        )]
    );
}

#[test]
fn stroke_node_prepends_outlined_rectangle() {
    let stroke = Stroke { paint: Paint { rgba: 0x0000_00ff }, thickness: 2 };
    let node = empty().filled(Paint { rgba: 1 }).stroked(stroke);
    let regions = Regions::one(size(60, 40), size(60, 40), flags(true, false));
    let frames = run(&node, &regions).unwrap();
    assert_eq!(frames[0].item.size, size(60, 0));
    assert_eq!(frames[0].item.elements.len(), 2);
    assert_eq!(
        frames[0].item.elements[0],
        (
            Point { x: 0, y: 0 },
            Element::Shape(Shape {
                geometry: Geometry::Rect(size(60, 0)),
                fill: None,
                stroke: Some(stroke),
            }),
        )
    );
    assert_eq!(
        frames[0].item.elements[1].1,
        Element::Shape(Shape::filled(Geometry::Rect(size(60, 0)), Paint { rgba: 1 }))
    );
    assert_eq!(frames[0].cts.exact, Axes { x: Some(60), y: None });
}

#[test]
fn move_node_shifts_content_only() {
    let node = empty().filled(Paint { rgba: 1 }).moved(Point { x: 5, y: -3 });
    let regions = Regions::one(size(60, 40), size(60, 40), flags(true, true));
    let frames = run(&node, &regions).unwrap();
    let plain = run(&empty(), &regions).unwrap();
    assert_eq!(frames[0].item.size, size(60, 40));
    assert_eq!(frames[0].item.elements.len(), 1);
    assert_eq!(frames[0].item.elements[0].0, Point { x: 5, y: -3 });
    assert_eq!(frames[0].cts, plain[0].cts);
}

#[test]
fn move_node_fails_outside_coordinate_range() {
    let node = empty()
        .filled(Paint { rgba: 1 })
        .moved(Point { x: 1, y: 0 })
        .moved(Point { x: i64::MAX, y: 0 });
    let regions = Regions::one(size(60, 40), size(60, 40), flags(true, true));
    assert_eq!(run(&node, &regions), Err(LayoutError {}));
}

#[test]
fn align_node_places_content_at_the_end() {
    let node = empty().filled(Paint { rgba: 1 }).aligned(Axes { x: Some(Align::End), y: None });
    let regions = Regions::one(size(100, 50), size(100, 50), flags(true, true));
    let frames = run(&node, &regions).unwrap();
    assert_eq!(frames[0].item.size, size(100, 50));
    assert_eq!(frames[0].item.elements[0].0, Point { x: 100, y: 0 });
    assert_eq!(
        frames[0].item.elements[0].1,
        Element::Shape(Shape::filled(Geometry::Rect(size(0, 50)), Paint { rgba: 1 }))
    );
    assert_eq!(frames[0].cts.exact, Axes { x: Some(100), y: Some(50) });
    assert_eq!(frames[0].cts.expand, flags(true, true));
}

#[test]
fn align_node_centers_content() {
    let inner = empty()
        .filled(Paint { rgba: 1 })
        .sized(Axes { x: Some(abs(30)), y: Some(abs(10)) });
    let node = inner.aligned(Axes { x: Some(Align::Center), y: Some(Align::Center) });
    let regions = Regions::one(size(100, 50), size(100, 50), flags(true, true));
    let frames = run(&node, &regions).unwrap();
    assert_eq!(frames[0].item.size, size(100, 50));
    assert_eq!(frames[0].item.elements[0].0, Point { x: 35, y: 20 });
}

#[test]
fn align_node_centers_overflowing_content() {
    let inner = empty()
        .filled(Paint { rgba: 1 })
        .sized(Axes { x: Some(abs(130)), y: Some(abs(10)) });
    let node = inner.aligned(Axes { x: Some(Align::Center), y: Some(Align::Start) });
    let regions = Regions::one(size(100, 50), size(100, 50), flags(true, false));
    let frames = run(&node, &regions).unwrap();
    assert_eq!(frames[0].item.size, size(100, 10));
    assert_eq!(frames[0].item.elements[0].0, Point { x: -15, y: 0 });
}

#[test]
fn pad_node_grows_frame_and_moves_content() {
    let padding = Sides { left: abs(10), top: abs(2), right: abs(5), bottom: abs(3) };
    let node = empty().filled(Paint { rgba: 1 }).padded(padding);
    let regions = Regions::one(size(100, 50), size(100, 50), flags(true, true));
    let frames = run(&node, &regions).unwrap();
    assert_eq!(frames[0].item.size, size(100, 50));
    assert_eq!(frames[0].item.elements[0].0, Point { x: 10, y: 2 });
    assert_eq!(
        frames[0].item.elements[0].1,
        Element::Shape(Shape::filled(Geometry::Rect(size(85, 45)), Paint { rgba: 1 }))
    );
    assert_eq!(frames[0].cts.exact, Axes { x: Some(100), y: Some(50) });
    assert_eq!(frames[0].cts.base, Axes { x: None, y: None });
}

#[test]
fn pad_node_with_relative_padding_pins_base() {
    let padding = Sides {
        left: Linear { rel: 10, abs: 0 },
        top: abs(0),
        right: abs(0),
        bottom: abs(0),
    };
    let node = empty().padded(padding);
    let regions = Regions::one(size(100, 50), size(200, 50), flags(false, false));
    let frames = run(&node, &regions).unwrap();
    assert_eq!(frames[0].item.size, size(20, 0));
    assert_eq!(frames[0].cts.exact, Axes { x: None, y: None });
    assert_eq!(frames[0].cts.base, Axes { x: Some(200), y: None });
}

#[test]
fn pad_node_fails_when_padding_does_not_fit() {
    let padding = Sides { left: abs(u64::MAX), top: abs(0), right: abs(1), bottom: abs(0) };
    let node = empty().padded(padding);
    let regions = Regions::one(size(100, 50), size(200, 50), flags(false, false));
    assert_eq!(run(&node, &regions), Err(LayoutError {}));
}

#[test]
fn no_op_wrappers_are_skipped() {
    let base = empty().filled(Paint { rgba: 9 });
    let hash = base.hash();
    let zero = Sides { left: abs(0), top: abs(0), right: abs(0), bottom: abs(0) };
    let node = base
        .padded(zero)
        .moved(Point { x: 0, y: 0 })
        .aligned(Axes { x: None, y: None })
        .sized(Axes { x: None, y: None });
    assert_eq!(node.hash(), hash);
    assert_eq!(node.id(), NodeId::Fill);
    assert!(node == empty().filled(Paint { rgba: 9 }));
}

#[test]
fn wrappers_that_do_something_are_kept() {
    let one = Sides { left: abs(0), top: abs(0), right: abs(0), bottom: Linear { rel: 1, abs: 0 } };
    assert_eq!(empty().padded(one).id(), NodeId::Pad);
    assert_eq!(empty().moved(Point { x: 0, y: -1 }).id(), NodeId::Move);
    assert_eq!(empty().aligned(Axes { x: None, y: Some(Align::Start) }).id(), NodeId::Align);
    assert_eq!(empty().sized(Axes { x: Some(abs(0)), y: None }).id(), NodeId::Sized);
    assert_eq!(empty().stroked(Stroke { paint: Paint { rgba: 0 }, thickness: 0 }).id(), NodeId::Stroke);
}

#[test]
fn handles_know_their_kind() {
    let node = empty().sized(Axes { x: Some(abs(3)), y: None });
    assert!(node.is(NodeId::Sized));
    assert!(!node.is(NodeId::Empty));
    assert!(node.downcast(NodeId::Fill).is_none());
    match node.downcast(NodeId::Sized) {
        Some(Node::Sized(SizedNode { sizing, child })) => {
            assert_eq!(sizing.x, Some(abs(3)));
            assert_eq!(sizing.y, None);
            assert_eq!(child.id(), NodeId::Empty);
        }
        _ => panic!("expected a sized node"),
    }
}

#[test]
fn equal_trees_have_equal_hashes() {
    let a = empty().filled(Paint { rgba: 7 }).sized(Axes { x: Some(abs(3)), y: None });
    let b = empty().filled(Paint { rgba: 7 }).sized(Axes { x: Some(abs(3)), y: None });
    let c = empty().filled(Paint { rgba: 8 }).sized(Axes { x: Some(abs(3)), y: None });
    let d = empty().filled(Paint { rgba: 7 }).sized(Axes { x: None, y: Some(abs(3)) });
    assert_eq!(a.hash(), b.hash());
    assert!(a == b);
    assert_ne!(a.hash(), c.hash());
    assert_ne!(a.hash(), d.hash());
    assert!(a != c);
}

#[test]
fn handle_hash_is_the_hash_of_its_words() {
    let child = empty();
    assert_eq!(child.hash(), hash_words(&vec![1]));
    let child_hash = child.hash();
    let node = LayoutNode::new(Node::Fill(FillNode { fill: Paint { rgba: 5 }, child }));
    assert_eq!(node.hash(), hash_words(&vec![3, 5, child_hash]));
    let moved = empty().moved(Point { x: -1, y: 4 });
    assert_eq!(moved.hash(), hash_words(&vec![7, 1, 0, 0, 4, child_hash]));
}
