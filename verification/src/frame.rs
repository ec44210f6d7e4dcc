//! Frames: sized canvases of positioned drawable elements.

use vstd::prelude::*;
use crate::geom::{Paint, Point, Size, Stroke};

verus! {

/// The outline of a shape.
#[derive(Clone, Copy, Debug, PartialEq, Eq)]
pub enum Geometry {
    /// A rectangle with its top-left corner at the element's position.
    Rect(Size),
}

/// A geometric shape with optional fill and stroke.
#[derive(Clone, Copy, Debug, PartialEq, Eq)]
pub struct Shape {
    pub geometry: Geometry,
    pub fill: Option<Paint>,
    pub stroke: Option<Stroke>,
}

/// A drawable element of a frame.
#[derive(Clone, Copy, Debug, PartialEq, Eq)]
pub enum Element {
    Shape(Shape),
}

/// A finished layout: a size and the elements placed in it, bottom-most first.
#[derive(Debug, PartialEq, Eq)]
pub struct Frame {
    pub size: Size,
    pub elements: Vec<(Point, Element)>,
}

/// The mathematical content of a frame.
pub struct FrameView {
    pub size: Size,
    pub elements: Seq<(Point, Element)>,
}

/// A filled rectangle of the given size.
pub open spec fn filled_rect(size: Size, fill: Paint) -> Element {
    Element::Shape(Shape { geometry: Geometry::Rect(size), fill: Some(fill), stroke: None })
}

/// An outlined rectangle of the given size.
pub open spec fn stroked_rect(size: Size, stroke: Stroke) -> Element {
    Element::Shape(Shape { geometry: Geometry::Rect(size), fill: None, stroke: Some(stroke) })
}

/// Whether every element of `elements` can be shifted by `by` without leaving
/// the coordinate range.
pub open spec fn shiftable(elements: Seq<(Point, Element)>, by: Point) -> bool {
    forall|i: int|
        0 <= i < elements.len() ==> {
            &&& i64::MIN <= (#[trigger] elements[i]).0.x + by.x <= i64::MAX
            &&& i64::MIN <= elements[i].0.y + by.y <= i64::MAX
        }
}

/// The elements of a frame, each shifted by `by`.
pub open spec fn shifted(elements: Seq<(Point, Element)>, by: Point) -> Seq<(Point, Element)> {
    Seq::new(
        elements.len(),
        |i: int| (Point { x: (elements[i].0.x + by.x) as i64, y: (elements[i].0.y + by.y) as i64 }, elements[i].1),
    )
}

impl Shape {
    /// A rectangle filled with `fill`.
    pub fn filled(geometry: Geometry, fill: Paint) -> (res: Shape)
        ensures
            res == (Shape { geometry, fill: Some(fill), stroke: None }),
    {
        Shape { geometry, fill: Some(fill), stroke: None }
    }

    /// A rectangle outlined with `stroke`.
    pub fn stroked(geometry: Geometry, stroke: Stroke) -> (res: Shape)
        ensures
            res == (Shape { geometry, fill: None, stroke: Some(stroke) }),
    {
        Shape { geometry, fill: None, stroke: Some(stroke) }
    }
}

impl View for Frame {
    type V = FrameView;

    open spec fn view(&self) -> FrameView {
        FrameView { size: self.size, elements: self.elements@ }
    }
}

impl Frame {
    /// An empty frame of the given size.
    pub fn new(size: Size) -> (res: Frame)
        ensures
            res@ == (FrameView { size, elements: Seq::empty() }),
    {
        Frame { size, elements: Vec::new() }
    }

    /// A copy of the frame.
    pub fn duplicate(&self) -> (res: Frame)
        ensures
            res@ == self@,
    {
        let mut elements: Vec<(Point, Element)> = Vec::new();
        let mut i: usize = 0;
        while i < self.elements.len()
            invariant
                i <= self.elements.len(),
                elements@ == self.elements@.take(i as int),
            decreases self.elements.len() - i,
        {
            elements.push(self.elements[i]);
            proof {
                assert(self.elements@.take(i + 1) =~= self.elements@.take(i as int).push(
                    self.elements@[i as int],
                ));
            }
            i += 1;
        }
        proof {
            assert(self.elements@.take(i as int) =~= self.elements@);
        }
        Frame { size: self.size, elements }
    }

    /// Sets the frame's size, keeping the content anchored at the top-left
    /// corner.
    pub fn resize(&mut self, target: Size)
        ensures
            final(self)@ == (FrameView { size: target, elements: old(self)@.elements }),
    {
        self.size = target;
    }

    /// Puts an element below all others.
    pub fn prepend(&mut self, pos: Point, element: Element)
        ensures
            final(self)@ == (FrameView {
                size: old(self)@.size,
                elements: seq![(pos, element)] + old(self)@.elements,
            }),
    {
        self.elements.insert(0, (pos, element));
        proof {
            assert(self.elements@ =~= seq![(pos, element)] + old(self).elements@);
        }
    }

    /// Shifts every element by `by`. Returns whether that was possible; when
    /// it was not, the frame is left as it was.
    pub fn translate(&mut self, by: Point) -> (done: bool)
        ensures
            done == shiftable(old(self)@.elements, by),
            done ==> final(self)@ == (FrameView {
                size: old(self)@.size,
                elements: shifted(old(self)@.elements, by),
            }),
            !done ==> final(self)@ == old(self)@,
    {
        let n = self.elements.len();
        let mut moved: Vec<(Point, Element)> = Vec::new();
        let mut i: usize = 0;
        while i < n
            invariant
                n == self.elements.len(),
                i <= n,
                shiftable(self.elements@.take(i as int), by),
                moved@ == shifted(self.elements@.take(i as int), by),
            decreases n - i,
        {
            let (pos, element) = self.elements[i];
            let x = pos.x.checked_add(by.x);
            let y = pos.y.checked_add(by.y);
            match (x, y) {
                (Some(x), Some(y)) => {
                    moved.push((Point { x, y }, element));
                },
                _ => {
                    proof {
                        assert(!(i64::MIN <= self.elements@[i as int].0.x + by.x <= i64::MAX
                            && i64::MIN <= self.elements@[i as int].0.y + by.y <= i64::MAX));
                    }
                    return false;
                },
            }
            proof {
                let prev = self.elements@.take(i as int);
                let next = self.elements@.take(i + 1);
                assert(next =~= prev.push(self.elements@[i as int]));
                assert forall|k: int| 0 <= k < next.len() implies {
                    &&& i64::MIN <= (#[trigger] next[k]).0.x + by.x <= i64::MAX
                    &&& i64::MIN <= next[k].0.y + by.y <= i64::MAX
                } by {
                    if k < i {
                        assert(next[k] == prev[k]);
                    }
                }
                assert(moved@ =~= shifted(next, by));
            }
            i += 1;
        }
        proof {
            assert(self.elements@.take(i as int) =~= self.elements@);
        }
        self.elements = moved;
        true
    }
}

} // verus!
