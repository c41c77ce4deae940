//! Layout settings and the rotation a page needs to reach an orientation.

use vstd::prelude::*;
use crate::job::Orientation;

verus! {

/// How a booklet is folded and bound.
#[derive(Debug, Clone, Copy, PartialEq, Eq, Structural)]
pub enum BookletType {
    Standard,
    BypassStapled,
    DoubleSidedSaddleStitched,
}

/// The order pages come in.
#[derive(Debug, Clone, Copy, PartialEq, Eq, Structural)]
pub enum PageArrangement {
    CorrectOrder,
    Reversed,
}

/// How a page is scaled into its cell.
#[derive(Debug, Clone, Copy, PartialEq, Eq, Structural)]
pub enum ScaleMode {
    Fit,
    Fill,
    Shrink,
    Stretch,
}

/// How a page is turned in its cell.
#[derive(Debug, Clone, Copy, PartialEq, Eq, Structural)]
pub enum RotationMode {
    /// Left as it is.
    Unrotated,
    Rotate,
    FlipHorizontal,
    FlipVertical,
}

/// The orientation's position in clockwise quarter turns from portrait.
pub open spec fn quarter_index(o: Orientation) -> nat {
    match o {
        Orientation::Portrait => 0,
        Orientation::Landscape => 1,
        Orientation::UpsideDownPortrait => 2,
        Orientation::UpsideDownLandscape => 3,
    }
}

/// `o` turned `n` quarter turns clockwise.
pub open spec fn rotated(o: Orientation, n: nat) -> Orientation
    decreases n,
{
    if n == 0 {
        o
    } else {
        rotated(o.spec_rotate_90(), (n - 1) as nat)
    }
}

/// Works out how far a page must turn from its current orientation to the
/// target one.
pub struct PageRotationCalculator {
    target_orientation: Orientation,
    current_orientation: Orientation,
}

impl PageRotationCalculator {
    pub closed spec fn target(&self) -> Orientation {
        self.target_orientation
    }

    pub closed spec fn current(&self) -> Orientation {
        self.current_orientation
    }

    /// A calculator for pages that start portrait.
    pub fn new(target_orientation: Orientation) -> (r: PageRotationCalculator)
        ensures
            r.target() == target_orientation,
            r.current() == Orientation::Portrait,
    {
        PageRotationCalculator { target_orientation, current_orientation: Orientation::Portrait }
    }

    /// Sets the page's current orientation.
    pub fn set_current(&mut self, orientation: Orientation)
        ensures
            final(self).current() == orientation,
            final(self).target() == old(self).target(),
    {
        self.current_orientation = orientation;
    }

    /// The clockwise quarter turns from the current orientation to the target.
    pub fn quarter_turns(&self) -> (r: u32)
        ensures
            r < 4,
            r == (quarter_index(self.target()) + 4 - quarter_index(self.current())) % 4,
            rotated(self.current(), r as nat) == self.target(),
    {
        let t: u32 = match self.target_orientation {
            Orientation::Portrait => 0,
            Orientation::Landscape => 1,
            Orientation::UpsideDownPortrait => 2,
            Orientation::UpsideDownLandscape => 3,
        };
        let c: u32 = match self.current_orientation {
            Orientation::Portrait => 0,
            Orientation::Landscape => 1,
            Orientation::UpsideDownPortrait => 2,
            Orientation::UpsideDownLandscape => 3,
        };
        let r = (t + 4 - c) % 4;
        proof {
            reveal_with_fuel(rotated, 4);
        }
        r
    }

    /// The clockwise rotation, in degrees, from the current orientation to
    /// the target.
    pub fn required_rotation(&self) -> (r: u32)
        ensures
            r == 90 * ((quarter_index(self.target()) + 4 - quarter_index(self.current())) % 4),
    {
        self.quarter_turns() * 90
    }
}

} // verus!
