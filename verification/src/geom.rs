//! Integer geometry: lengths, sizes, points and the small records that
//! describe sizing, padding and alignment.

use vstd::prelude::*;

verus! {

/// A length in the engine's smallest unit.
pub type Length = u64;

/// A pair of values, one per axis.
#[derive(Clone, Copy, Debug, PartialEq, Eq)]
pub struct Axes<T> {
    /// The horizontal component.
    pub x: T,
    /// The vertical component.
    pub y: T,
}

/// A size: one non-negative length per axis.
pub type Size = Axes<Length>;

/// Per-axis lengths that are either pinned or left open.
pub type Pins = Axes<Option<Length>>;

/// A position inside a frame, or an offset.
#[derive(Clone, Copy, Debug, PartialEq, Eq)]
pub struct Point {
    pub x: i64,
    pub y: i64,
}

/// A length that is the sum of a share of a base length and a fixed part.
#[derive(Clone, Copy, Debug, PartialEq, Eq)]
pub struct Linear {
    /// The relative part, in hundredths of the base.
    pub rel: u64,
    /// The absolute part.
    pub abs: Length,
}

/// One value per side of a box.
#[derive(Clone, Copy, Debug, PartialEq, Eq)]
pub struct Sides {
    pub left: Linear,
    pub top: Linear,
    pub right: Linear,
    pub bottom: Linear,
}

/// Where content sits along one axis.
#[derive(Clone, Copy, Debug, PartialEq, Eq)]
pub enum Align {
    Start,
    Center,
    End,
}

/// How a shape is painted: a colour as packed RGBA.
#[derive(Clone, Copy, Debug, PartialEq, Eq)]
pub struct Paint {
    pub rgba: u32,
}

/// How a shape is outlined.
#[derive(Clone, Copy, Debug, PartialEq, Eq)]
pub struct Stroke {
    pub paint: Paint,
    pub thickness: Length,
}

/// What `select` computes: `a` where the flag is set, `b` elsewhere.
pub open spec fn select_spec(flags: Axes<bool>, a: Size, b: Size) -> Size {
    Axes { x: if flags.x { a.x } else { b.x }, y: if flags.y { a.y } else { b.y } }
}

/// What `filter` computes: the size's component where the flag is set.
pub open spec fn filter_spec(size: Size, flags: Axes<bool>) -> Pins {
    Axes {
        x: if flags.x { Some(size.x) } else { None },
        y: if flags.y { Some(size.y) } else { None },
    }
}

/// The value of a linear length against a base, over the integers.
pub open spec fn resolve_spec(v: Linear, base: Length) -> int {
    (v.rel as int * base as int) / 100 + v.abs as int
}

/// Componentwise choice between two sizes.
pub fn select(flags: Axes<bool>, a: Size, b: Size) -> (res: Size)
    ensures
        res == select_spec(flags, a, b),
{
    Axes { x: if flags.x { a.x } else { b.x }, y: if flags.y { a.y } else { b.y } }
}

/// Keeps the components of `size` whose flag is set.
pub fn filter(size: Size, flags: Axes<bool>) -> (res: Pins)
    ensures
        res == filter_spec(size, flags),
{
    Axes {
        x: if flags.x { Some(size.x) } else { None },
        y: if flags.y { Some(size.y) } else { None },
    }
}

impl Linear {
    /// Whether the length depends on the base.
    pub open spec fn relative(self) -> bool {
        self.rel != 0
    }

    /// Whether the length depends on the base.
    pub fn is_relative(&self) -> (res: bool)
        ensures
            res == self.relative(),
    {
        self.rel != 0
    }

    /// Whether both parts are zero.
    pub fn is_zero(&self) -> (res: bool)
        ensures
            res == (self.rel == 0 && self.abs == 0),
    {
        self.rel == 0 && self.abs == 0
    }

    /// Resolves the length against `base`. Fails exactly when the value does
    /// not fit a `Length`.
    pub fn resolve(&self, base: Length) -> (res: Option<Length>)
        ensures
            res.is_some() <==> resolve_spec(*self, base) <= u64::MAX,
            res.is_some() ==> res.unwrap() == resolve_spec(*self, base),
    {
        let rel: u128 = self.rel as u128;
        let base: u128 = base as u128;
        proof {
            assert(rel * base <= 0xffff_ffff_ffff_ffff * 0xffff_ffff_ffff_ffff) by (nonlinear_arith)
                requires
                    rel <= 0xffff_ffff_ffff_ffff,
                    base <= 0xffff_ffff_ffff_ffff,
            ;
        }
        let wide: u128 = rel * base / 100 + (self.abs as u128);
        if wide <= u64::MAX as u128 {
            Some(wide as u64)
        } else {
            None
        }
    }
}

impl Linear {
    /// Whether both parts are zero.
    pub open spec fn zero(self) -> bool {
        self.rel == 0 && self.abs == 0
    }
}

impl Sides {
    /// Whether the padding is zero on every side.
    pub open spec fn is_zero_spec(self) -> bool {
        self.left.zero() && self.top.zero() && self.right.zero() && self.bottom.zero()
    }
}

impl Point {
    /// The origin.
    pub fn zero() -> (res: Point)
        ensures
            res == (Point { x: 0, y: 0 }),
    {
        Point { x: 0, y: 0 }
    }

    /// Whether this is the origin.
    pub fn is_zero(&self) -> (res: bool)
        ensures
            res == (self.x == 0 && self.y == 0),
    {
        self.x == 0 && self.y == 0
    }
}

} // verus!
