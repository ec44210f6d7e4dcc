//! The space that a layout call has to fill.

use vstd::prelude::*;
use crate::geom::{Axes, Size};

verus! {

/// The target of a layout call.
#[derive(Clone, Copy, Debug, PartialEq, Eq)]
pub struct Regions {
    /// The size of the region that is available now.
    pub current: Size,
    /// The size against which relative lengths are resolved.
    pub base: Size,
    /// Per axis, whether the frame has to fill `current` exactly.
    pub expand: Axes<bool>,
}

impl Regions {
    /// A request for a single region.
    pub fn one(size: Size, base: Size, expand: Axes<bool>) -> (res: Regions)
        ensures
            res == (Regions { current: size, base, expand }),
    {
        Regions { current: size, base, expand }
    }
}

} // verus!
