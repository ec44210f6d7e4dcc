use layout::geom::{Axes, Linear, Paint};
use layout::layout::{Layout, Vm};
use layout::node::{EmptyNode, FillNode, LayoutNode, Node, NodeId, SizedNode};
use layout::regions::Regions;
use layout::styles::StyleChain;

#[test]
fn packing_a_node_gives_its_handle() {
    let packed = Layout::pack(EmptyNode {});
    assert_eq!(packed.id(), NodeId::Empty);
    assert!(packed == LayoutNode::new(Node::Empty(EmptyNode {})));
    let fill = Layout::pack(FillNode { fill: Paint { rgba: 4 }, child: packed });
    assert_eq!(fill.id(), NodeId::Fill);
    assert!(fill == LayoutNode::default().filled(Paint { rgba: 4 }));
}

#[test]
fn packing_a_handle_gives_it_back() {
    let node = LayoutNode::default().filled(Paint { rgba: 4 });
    let hash = node.hash();
    let packed = Layout::pack(node);
    assert_eq!(packed.hash(), hash);
    assert_eq!(packed.id(), NodeId::Fill);
}

#[test]
fn a_node_laid_out_by_itself_caches_only_its_child() {
    let node = SizedNode {
        sizing: Axes { x: Some(Linear { rel: 0, abs: 30 }), y: Some(Linear { rel: 0, abs: 20 }) },
        child: LayoutNode::default(),
    };
    let regions = Regions::one(
        Axes { x: 100, y: 50 },
        Axes { x: 100, y: 50 },
        Axes { x: false, y: false },
    );
    let mut vm = Vm::new();
    let frames = Layout::layout(&node, &mut vm, &regions, &StyleChain::new()).unwrap();
    assert_eq!(frames[0].item.size, Axes { x: 30, y: 20 });
    assert_eq!(vm.layout_cache.len(), 1);
    assert_eq!(vm.layout_cache.slots[0].entry.level, 0);
    assert_eq!(vm.layout_cache.slots[0].entry.frames[0].item.size, Axes { x: 30, y: 20 });
    let handle = Layout::pack(node);
    let again = Layout::layout(&handle, &mut vm, &regions, &StyleChain::new()).unwrap();
    assert_eq!(again, frames);
    assert_eq!(vm.layout_cache.len(), 2);
}

#[test]
fn clones_share_hash_and_kind() {
    let node = LayoutNode::default().filled(Paint { rgba: 4 });
    let copy = node.clone();
    assert!(copy == node);
    assert_eq!(copy.hash(), node.hash());
    assert_eq!(copy.id(), NodeId::Fill);
    assert!(std::sync::Arc::ptr_eq(&copy.node, &node.node));
}
