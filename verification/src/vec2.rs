//! Plain two-dimensional coordinates: unsigned positions in the text grid
//! (`x` is the column, `y` is the line) and signed movement offsets.

use vstd::prelude::*;

verus! {

/// A position in the text grid: column `x`, line `y`.
#[derive(Clone, Copy, Debug, PartialEq, Eq, Structural)]
pub struct UVec2 {
    pub x: usize,
    pub y: usize,
}

/// A movement offset: columns `x`, lines `y`, either may be negative.
#[derive(Clone, Copy, Debug, PartialEq, Eq, Structural)]
pub struct IVec2 {
    pub x: isize,
    pub y: isize,
}

impl UVec2 {
    pub fn new(x: usize, y: usize) -> (r: UVec2)
        ensures
            r == (UVec2 { x, y }),
    {
        UVec2 { x, y }
    }

    /// Componentwise addition of a signed offset; `None` when either
    /// component would leave the `usize` range.
    pub fn checked_add(self, offset: IVec2) -> (r: Option<UVec2>)
        ensures
            r == spec_checked_add(self, offset),
    {
        match (checked_add_component(self.x, offset.x), checked_add_component(self.y, offset.y)) {
            (Some(x), Some(y)) => Some(UVec2 { x, y }),
            _ => None,
        }
    }
}

impl Default for UVec2 {
    fn default() -> (r: UVec2)
        ensures
            r == (UVec2 { x: 0usize, y: 0usize }),
    {
        UVec2 { x: 0, y: 0 }
    }
}

impl IVec2 {
    pub fn new(x: isize, y: isize) -> (r: IVec2)
        ensures
            r == (IVec2 { x, y }),
    {
        IVec2 { x, y }
    }

    pub fn left() -> (r: IVec2)
        ensures
            r == (IVec2 { x: -1isize, y: 0isize }),
    {
        IVec2 { x: -1, y: 0 }
    }

    pub fn right() -> (r: IVec2)
        ensures
            r == (IVec2 { x: 1isize, y: 0isize }),
    {
        IVec2 { x: 1, y: 0 }
    }

    pub fn up() -> (r: IVec2)
        ensures
            r == (IVec2 { x: 0isize, y: -1isize }),
    {
        IVec2 { x: 0, y: -1 }
    }

    pub fn down() -> (r: IVec2)
        ensures
            r == (IVec2 { x: 0isize, y: 1isize }),
    {
        IVec2 { x: 0, y: 1 }
    }
}

/// `x + d` as an unsigned value, or `None` when the sum leaves `[0, usize::MAX]`.
pub open spec fn spec_checked_add_component(x: usize, d: isize) -> Option<usize> {
    if 0 <= x + d <= usize::MAX {
        Some((x + d) as usize)
    } else {
        None
    }
}

/// Componentwise `spec_checked_add_component` over both coordinates.
pub open spec fn spec_checked_add(v: UVec2, offset: IVec2) -> Option<UVec2> {
    match (spec_checked_add_component(v.x, offset.x), spec_checked_add_component(v.y, offset.y)) {
        (Some(x), Some(y)) => Some(UVec2 { x, y }),
        _ => None,
    }
}

fn checked_add_component(x: usize, d: isize) -> (r: Option<usize>)
    ensures
        r == spec_checked_add_component(x, d),
{
    if d >= 0 {
        let du = d as usize;
        if x <= usize::MAX - du {
            Some(x + du)
        } else {
            None
        }
    } else {
        let m: usize = if d == isize::MIN {
            (isize::MAX as usize) + 1
        } else {
            (-d) as usize
        };
        if x >= m {
            Some(x - m)
        } else {
            None
        }
    }
}

/// Saturating addition of a signed offset to an unsigned value.
pub open spec fn spec_safe_add(x: usize, y: isize) -> usize {
    if x + y > usize::MAX {
        usize::MAX
    } else if x + y < 0 {
        0
    } else {
        (x + y) as usize
    }
}

/// Add a signed offset to an unsigned value, saturating at both ends of the
/// `usize` range.
pub fn safe_add(x: usize, y: isize) -> (r: usize)
    ensures
        r == spec_safe_add(x, y),
{
    match checked_add_component(x, y) {
        Some(r) => r,
        None => {
            if y >= 0 {
                usize::MAX
            } else {
                0
            }
        },
    }
}

} // verus!
