//! What a layout result depended on, and so where it may be used again.

use vstd::prelude::*;
use crate::geom::{Axes, Length, Pins};
use crate::regions::Regions;

verus! {

/// The aspects of a region that a result depends on.
#[derive(Clone, Copy, Debug, PartialEq, Eq)]
pub struct Constraints {
    /// Lower bounds that `current` has to reach.
    pub min: Pins,
    /// Upper bounds that `current` may not pass.
    pub max: Pins,
    /// Lengths that `current` has to equal.
    pub exact: Pins,
    /// Lengths that `base` has to equal.
    pub base: Pins,
    /// The expansion flags that the regions have to carry.
    pub expand: Axes<bool>,
}

/// A result together with the constraints under which it may be used again.
#[derive(Debug, PartialEq, Eq)]
pub struct Constrained<T> {
    pub item: T,
    pub cts: Constraints,
}

/// Whether one axis of a region meets a lower bound, an upper bound and a pin.
pub open spec fn axis_ok(min: Option<Length>, max: Option<Length>, exact: Option<Length>, v: Length) -> bool {
    &&& (min is Some ==> min->0 <= v)
    &&& (max is Some ==> v <= max->0)
    &&& (exact is Some ==> exact->0 == v)
}

fn axis_check(min: Option<Length>, max: Option<Length>, exact: Option<Length>, v: Length) -> (res: bool)
    ensures
        res == axis_ok(min, max, exact, v),
{
    let lower = match min {
        Some(m) => m <= v,
        None => true,
    };
    let upper = match max {
        Some(m) => v <= m,
        None => true,
    };
    let pin = match exact {
        Some(e) => e == v,
        None => true,
    };
    lower && upper && pin
}

impl Constraints {
    /// Constraints that ask for the expansion flags only.
    pub open spec fn loose(expand: Axes<bool>) -> Constraints {
        Constraints {
            min: Axes { x: None, y: None },
            max: Axes { x: None, y: None },
            exact: Axes { x: None, y: None },
            base: Axes { x: None, y: None },
            expand,
        }
    }

    /// Whether `regions` meets these constraints.
    pub open spec fn satisfied(self, regions: Regions) -> bool {
        &&& self.expand == regions.expand
        &&& axis_ok(self.min.x, self.max.x, self.exact.x, regions.current.x)
        &&& axis_ok(self.min.y, self.max.y, self.exact.y, regions.current.y)
        &&& axis_ok(None, None, self.base.x, regions.base.x)
        &&& axis_ok(None, None, self.base.y, regions.base.y)
    }

    /// Constraints that ask for the expansion flags only.
    pub fn new(expand: Axes<bool>) -> (res: Constraints)
        ensures
            res == Constraints::loose(expand),
    {
        Constraints {
            min: Axes { x: None, y: None },
            max: Axes { x: None, y: None },
            exact: Axes { x: None, y: None },
            base: Axes { x: None, y: None },
            expand,
        }
    }

    /// Whether `regions` meets these constraints.
    pub fn check(&self, regions: &Regions) -> (res: bool)
        ensures
            res == self.satisfied(*regions),
    {
        self.expand.x == regions.expand.x && self.expand.y == regions.expand.y
            && axis_check(self.min.x, self.max.x, self.exact.x, regions.current.x)
            && axis_check(self.min.y, self.max.y, self.exact.y, regions.current.y)
            && axis_check(None, None, self.base.x, regions.base.x)
            && axis_check(None, None, self.base.y, regions.base.y)
    }
}

} // verus!
