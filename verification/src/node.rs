//! Layout nodes and the handle that packs them.

use vstd::prelude::*;
use std::sync::Arc;
use crate::geom::{Align, Axes, Linear, Paint, Point, Sides, Stroke};
use crate::hash::{fx_fold, hash_words};
use vstd::std_specs::cmp::PartialEqSpecImpl;

verus! {

/// The kinds of node that a handle can hold.
#[derive(Clone, Copy, Debug, PartialEq, Eq, Structural)]
pub enum NodeId {
    Empty,
    Sized,
    Fill,
    Stroke,
    Align,
    Pad,
    Move,
}

/// A node that produces an empty frame.
#[derive(Debug)]
pub struct EmptyNode {}

/// Fixes the size of a node.
#[derive(Debug)]
pub struct SizedNode {
    /// How to size the node horizontally and vertically.
    pub sizing: Axes<Option<Linear>>,
    /// The node to be sized.
    pub child: LayoutNode,
}

/// Fills the frames resulting from a node.
#[derive(Debug)]
pub struct FillNode {
    /// How to fill the frames resulting from the `child`.
    pub fill: Paint,
    /// The node to fill.
    pub child: LayoutNode,
}

/// Strokes the frames resulting from a node.
#[derive(Debug)]
pub struct StrokeNode {
    /// How to stroke the frames resulting from the `child`.
    pub stroke: Stroke,
    /// The node to stroke.
    pub child: LayoutNode,
}

/// Aligns a node in its region.
#[derive(Debug)]
pub struct AlignNode {
    /// How to align the node horizontally and vertically.
    pub aligns: Axes<Option<Align>>,
    /// The node to be aligned.
    pub child: LayoutNode,
}

/// Pads a node at the sides.
#[derive(Debug)]
pub struct PadNode {
    /// The amount of padding.
    pub padding: Sides,
    /// The node to be padded.
    pub child: LayoutNode,
}

/// Moves a node's contents without affecting layout.
#[derive(Debug)]
pub struct MoveNode {
    /// By how much to move the contents.
    pub offset: Point,
    /// The node whose contents are moved.
    pub child: LayoutNode,
}

/// A concrete layout node.
#[derive(Debug)]
pub enum Node {
    Empty(EmptyNode),
    Sized(SizedNode),
    Fill(FillNode),
    Stroke(StrokeNode),
    Align(AlignNode),
    Pad(PadNode),
    Move(MoveNode),
}

/// A handle on a layout node, with the node's hash computed once. Clones
/// share the node.
#[derive(Clone, Debug)]
pub struct LayoutNode {
    /// The hash of `node`, computed when the handle was made.
    pub hash: u64,
    /// The node itself.
    pub node: Arc<Node>,
}

impl Default for LayoutNode {
    /// A handle on the empty node.
    fn default() -> (res: LayoutNode)
        ensures
            res.content() == Node::Empty(EmptyNode {  }),
            res.hash_value() == res.content().structural_hash(),
            res.wf(),
    {
        LayoutNode::new(Node::Empty(EmptyNode {  }))
    }
}

impl PartialEq for LayoutNode {
    /// Handles are compared by their hashes.
    fn eq(&self, other: &LayoutNode) -> (res: bool) {
        self.hash == other.hash
    }
}

impl PartialEqSpecImpl for LayoutNode {
    open spec fn obeys_eq_spec() -> bool {
        true
    }

    open spec fn eq_spec(&self, other: &LayoutNode) -> bool {
        self.hash == other.hash
    }
}

impl Eq for LayoutNode {

}

impl NodeId {
    /// The number that stands for the kind in hashes.
    pub open spec fn tag(self) -> int {
        match self {
            NodeId::Empty => 1,
            NodeId::Sized => 2,
            NodeId::Fill => 3,
            NodeId::Stroke => 4,
            NodeId::Align => 5,
            NodeId::Pad => 6,
            NodeId::Move => 7,
        }
    }

    /// The number that stands for the kind in hashes.
    pub fn code(self) -> (res: u64)
        ensures
            res == self.tag(),
    {
        match self {
            NodeId::Empty => 1,
            NodeId::Sized => 2,
            NodeId::Fill => 3,
            NodeId::Stroke => 4,
            NodeId::Align => 5,
            NodeId::Pad => 6,
            NodeId::Move => 7,
        }
    }
}

/// The words that stand for an optional linear length.
pub open spec fn linear_words(v: Option<Linear>) -> Seq<u64> {
    match v {
        None => seq![0u64, 0u64, 0u64],
        Some(l) => seq![1u64, l.rel, l.abs],
    }
}

/// The word that stands for an optional alignment.
pub open spec fn align_word(a: Option<Align>) -> u64 {
    match a {
        None => 0,
        Some(Align::Start) => 1,
        Some(Align::Center) => 2,
        Some(Align::End) => 3,
    }
}

/// The words that stand for a signed coordinate: its sign and its distance
/// from zero, or from minus one where it is negative.
pub open spec fn coord_words(v: i64) -> Seq<u64> {
    if v >= 0 {
        seq![0u64, v as u64]
    } else {
        seq![1u64, (-(v + 1)) as u64]
    }
}

impl Node {
    /// The kind of the node.
    pub open spec fn kind(self) -> NodeId {
        match self {
            Node::Empty(_) => NodeId::Empty,
            Node::Sized(_) => NodeId::Sized,
            Node::Fill(_) => NodeId::Fill,
            Node::Stroke(_) => NodeId::Stroke,
            Node::Align(_) => NodeId::Align,
            Node::Pad(_) => NodeId::Pad,
            Node::Move(_) => NodeId::Move,
        }
    }

    /// The words that the node's hash is computed from: its kind, its own
    /// fields and the hash of its child.
    pub open spec fn words(self) -> Seq<u64> {
        match self {
            Node::Empty(_) => seq![1u64],
            Node::Sized(n) => seq![2u64] + linear_words(n.sizing.x) + linear_words(n.sizing.y)
                + seq![n.child.hash_value()],
            Node::Fill(n) => seq![3u64, n.fill.rgba as u64, n.child.hash_value()],
            Node::Stroke(n) => seq![
                4u64,
                n.stroke.paint.rgba as u64,
                n.stroke.thickness,
                n.child.hash_value(),
            ],
            Node::Align(n) => seq![
                5u64,
                align_word(n.aligns.x),
                align_word(n.aligns.y),
                n.child.hash_value(),
            ],
            Node::Pad(n) => seq![
                6u64,
                n.padding.left.rel,
                n.padding.left.abs,
                n.padding.top.rel,
                n.padding.top.abs,
                n.padding.right.rel,
                n.padding.right.abs,
                n.padding.bottom.rel,
                n.padding.bottom.abs,
                n.child.hash_value(),
            ],
            Node::Move(n) => seq![7u64] + coord_words(n.offset.x) + coord_words(n.offset.y)
                + seq![n.child.hash_value()],
        }
    }

    /// The hash of the node.
    pub open spec fn structural_hash(self) -> u64 {
        fx_fold(self.words())
    }

    /// The child of a wrapping node.
    pub open spec fn child(self) -> Option<LayoutNode> {
        match self {
            Node::Empty(_) => None,
            Node::Sized(n) => Some(n.child),
            Node::Fill(n) => Some(n.child),
            Node::Stroke(n) => Some(n.child),
            Node::Align(n) => Some(n.child),
            Node::Pad(n) => Some(n.child),
            Node::Move(n) => Some(n.child),
        }
    }
}

fn push_linear(words: &mut Vec<u64>, v: &Option<Linear>)
    ensures
        final(words)@ == old(words)@ + linear_words(*v),
{
    match v {
        None => {
            words.push(0);
            words.push(0);
            words.push(0);
        },
        Some(l) => {
            words.push(1);
            words.push(l.rel);
            words.push(l.abs);
        },
    }
    proof {
        assert(words@ =~= old(words)@ + linear_words(*v));
    }
}

fn push_coord(words: &mut Vec<u64>, v: i64)
    ensures
        final(words)@ == old(words)@ + coord_words(v),
{
    if v >= 0 {
        words.push(0);
        words.push(v as u64);
    } else {
        words.push(1);
        words.push((-(v + 1)) as u64);
    }
    proof {
        assert(words@ =~= old(words)@ + coord_words(v));
    }
}

fn align_code(a: &Option<Align>) -> (res: u64)
    ensures
        res == align_word(*a),
{
    match a {
        None => 0,
        Some(Align::Start) => 1,
        Some(Align::Center) => 2,
        Some(Align::End) => 3,
    }
}

impl LayoutNode {
    /// The hash stored in the handle.
    pub open spec fn hash_value(self) -> u64 {
        self.hash
    }

    /// The node that the handle holds.
    pub open spec fn content(self) -> Node {
        *self.node
    }

    /// Whether the stored hash is the hash of the node, here and in every
    /// handle below.
    pub open spec fn wf(self) -> bool
        decreases self.height(),
    {
        &&& self.hash_value() == self.content().structural_hash()
        &&& match self.content().child() {
            Some(c) => c.height() < self.height() && c.wf(),
            None => true,
        }
    }

    /// The number of handles on the path from this one to the innermost.
    pub open spec fn height(self) -> nat
        decreases self,
    {
        match *self.node {
            Node::Empty(_) => 1,
            Node::Sized(n) => 1 + n.child.height(),
            Node::Fill(n) => 1 + n.child.height(),
            Node::Stroke(n) => 1 + n.child.height(),
            Node::Align(n) => 1 + n.child.height(),
            Node::Pad(n) => 1 + n.child.height(),
            Node::Move(n) => 1 + n.child.height(),
        }
    }

    /// A handle's height is one more than its child's.
    pub proof fn lemma_height(self)
        ensures
            self.height() >= 1,
            match self.content().child() {
                Some(c) => self.height() == 1 + c.height(),
                None => self.height() == 1,
            },
    {
    }

    /// Two handles are the same value when hash and node agree.
    pub proof fn lemma_same(self, other: LayoutNode)
        requires
            self.hash_value() == other.hash_value(),
            self.content() == other.content(),
        ensures
            self == other,
    {
    }

    /// Pack a node.
    pub fn new(node: Node) -> (res: LayoutNode)
        ensures
            res.content() == node,
            res.hash_value() == node.structural_hash(),
            res.wf() <==> (node.child() is Some ==> node.child()->0.wf()),
    {
        let mut words: Vec<u64> = Vec::new();
        match &node {
            Node::Empty(_) => {
                words.push(1);
            },
            Node::Sized(n) => {
                words.push(2);
                push_linear(&mut words, &n.sizing.x);
                push_linear(&mut words, &n.sizing.y);
                words.push(n.child.hash);
            },
            Node::Fill(n) => {
                words.push(3);
                words.push(n.fill.rgba as u64);
                words.push(n.child.hash);
            },
            Node::Stroke(n) => {
                words.push(4);
                words.push(n.stroke.paint.rgba as u64);
                words.push(n.stroke.thickness);
                words.push(n.child.hash);
            },
            Node::Align(n) => {
                words.push(5);
                words.push(align_code(&n.aligns.x));
                words.push(align_code(&n.aligns.y));
                words.push(n.child.hash);
            },
            Node::Pad(n) => {
                words.push(6);
                words.push(n.padding.left.rel);
                words.push(n.padding.left.abs);
                words.push(n.padding.top.rel);
                words.push(n.padding.top.abs);
                words.push(n.padding.right.rel);
                words.push(n.padding.right.abs);
                words.push(n.padding.bottom.rel);
                words.push(n.padding.bottom.abs);
                words.push(n.child.hash);
            },
            Node::Move(n) => {
                words.push(7);
                push_coord(&mut words, n.offset.x);
                push_coord(&mut words, n.offset.y);
                words.push(n.child.hash);
            },
        }
        proof {
            assert(words@ =~= node.words());
        }
        let hash = hash_words(&words);
        LayoutNode { hash, node: Arc::new(node) }
    }

    /// Whether a layout of this node may start at nesting `level`: whether
    /// the nesting stays countable down to the innermost node.
    pub fn fits_at(&self, level: usize) -> (res: bool)
        ensures
            res == (level + self.height() <= usize::MAX),
    {
        let mut cur: &LayoutNode = self;
        let mut used: usize = level;
        loop
            invariant
                used + cur.height() == level + self.height(),
            decreases cur.height(),
        {
            if used == usize::MAX {
                return false;
            }
            used += 1;
            match &*cur.node {
                Node::Empty(_) => {
                    return true;
                },
                Node::Sized(n) => {
                    cur = &n.child;
                },
                Node::Fill(n) => {
                    cur = &n.child;
                },
                Node::Stroke(n) => {
                    cur = &n.child;
                },
                Node::Align(n) => {
                    cur = &n.child;
                },
                Node::Pad(n) => {
                    cur = &n.child;
                },
                Node::Move(n) => {
                    cur = &n.child;
                },
            }
        }
    }

    /// The precomputed hash of the node.
    pub fn hash(&self) -> (res: u64)
        ensures
            res == self.hash_value(),
    {
        self.hash
    }

    /// The kind of the contained node.
    pub fn id(&self) -> (res: NodeId)
        ensures
            res == self.content().kind(),
    {
        match &*self.node {
            Node::Empty(_) => NodeId::Empty,
            Node::Sized(_) => NodeId::Sized,
            Node::Fill(_) => NodeId::Fill,
            Node::Stroke(_) => NodeId::Stroke,
            Node::Align(_) => NodeId::Align,
            Node::Pad(_) => NodeId::Pad,
            Node::Move(_) => NodeId::Move,
        }
    }

    /// Check whether the contained node is of a specific kind.
    pub fn is(&self, id: NodeId) -> (res: bool)
        ensures
            res == (self.content().kind() == id),
    {
        self.id() == id
    }

    /// The contained node, if it is of the kind asked for.
    pub fn downcast(&self, id: NodeId) -> (res: Option<&Node>)
        ensures
            res is Some <==> self.content().kind() == id,
            res is Some ==> *res->0 == self.content(),
    {
        if self.id() == id {
            Some(&*self.node)
        } else {
            None
        }
    }

    /// Force a size for this node. Without a forced size on either axis the
    /// node comes back as it is.
    pub fn sized(self, sizing: Axes<Option<Linear>>) -> (res: LayoutNode)
        ensures
            sizing.x is None && sizing.y is None ==> res == self,
            sizing.x is Some || sizing.y is Some ==> {
                &&& res.content() == Node::Sized(SizedNode { sizing, child: self })
                &&& res.hash_value() == res.content().structural_hash()
            },
            self.wf() ==> res.wf(),
    {
        if sizing.x.is_some() || sizing.y.is_some() {
            LayoutNode::new(Node::Sized(SizedNode { sizing, child: self }))
        } else {
            self
        }
    }

    /// Fill the frames resulting from a node.
    pub fn filled(self, fill: Paint) -> (res: LayoutNode)
        ensures
            res.content() == Node::Fill(FillNode { fill, child: self }),
            res.hash_value() == res.content().structural_hash(),
            self.wf() ==> res.wf(),
    {
        LayoutNode::new(Node::Fill(FillNode { fill, child: self }))
    }

    /// Stroke the frames resulting from a node.
    pub fn stroked(self, stroke: Stroke) -> (res: LayoutNode)
        ensures
            res.content() == Node::Stroke(StrokeNode { stroke, child: self }),
            res.hash_value() == res.content().structural_hash(),
            self.wf() ==> res.wf(),
    {
        LayoutNode::new(Node::Stroke(StrokeNode { stroke, child: self }))
    }

    /// Set alignments for this node. Without an alignment on either axis the
    /// node comes back as it is.
    pub fn aligned(self, aligns: Axes<Option<Align>>) -> (res: LayoutNode)
        ensures
            aligns.x is None && aligns.y is None ==> res == self,
            aligns.x is Some || aligns.y is Some ==> {
                &&& res.content() == Node::Align(AlignNode { aligns, child: self })
                &&& res.hash_value() == res.content().structural_hash()
            },
            self.wf() ==> res.wf(),
    {
        if aligns.x.is_some() || aligns.y.is_some() {
            LayoutNode::new(Node::Align(AlignNode { aligns, child: self }))
        } else {
            self
        }
    }

    /// Pad this node at the sides. With zero padding on every side the node
    /// comes back as it is.
    pub fn padded(self, padding: Sides) -> (res: LayoutNode)
        ensures
            padding.is_zero_spec() ==> res == self,
            !padding.is_zero_spec() ==> {
                &&& res.content() == Node::Pad(PadNode { padding, child: self })
                &&& res.hash_value() == res.content().structural_hash()
            },
            self.wf() ==> res.wf(),
    {
        if !padding.left.is_zero() || !padding.top.is_zero() || !padding.right.is_zero()
            || !padding.bottom.is_zero() {
            LayoutNode::new(Node::Pad(PadNode { padding, child: self }))
        } else {
            self
        }
    }

    /// Move this node's contents without affecting layout. With a zero
    /// offset the node comes back as it is.
    pub fn moved(self, offset: Point) -> (res: LayoutNode)
        ensures
            offset.x == 0 && offset.y == 0 ==> res == self,
            !(offset.x == 0 && offset.y == 0) ==> {
                &&& res.content() == Node::Move(MoveNode { offset, child: self })
                &&& res.hash_value() == res.content().structural_hash()
            },
            self.wf() ==> res.wf(),
    {
        if !offset.is_zero() {
            LayoutNode::new(Node::Move(MoveNode { offset, child: self }))
        } else {
            self
        }
    }
}

} // verus!
