//! Render targets of a draw call.

use vstd::prelude::*;
use crate::device::target::Plane;

verus! {

/// Number of color attachments of a frame.
pub const MAX_COLOR_TARGETS: usize = 4;

/// The attachments a draw call renders into. A frame without any attachment
/// stands for the default target, which is owned by whoever created the
/// graphics context.
#[derive(Clone, Copy, Debug, PartialEq, Eq)]
pub struct Frame {
    /// Color attachments, by slot.
    pub colors: [Plane; 4],
    pub depth: Plane,
    pub stencil: Plane,
}

impl Frame {
    /// Whether this frame stands for the default target: nothing is
    /// attached to it.
    pub open spec fn default_target(self) -> bool {
        &&& forall|i: int| 0 <= i < 4 ==> self.colors[i] == Plane::PlaneEmpty
        &&& self.depth == Plane::PlaneEmpty
        &&& self.stencil == Plane::PlaneEmpty
    }

    /// The default target.
    pub fn new() -> (frame: Frame)
        ensures
            frame.default_target(),
    {
        Frame {
            colors: [Plane::PlaneEmpty, Plane::PlaneEmpty, Plane::PlaneEmpty, Plane::PlaneEmpty],
            depth: Plane::PlaneEmpty,
            stencil: Plane::PlaneEmpty,
        }
    }

    /// Whether this frame stands for the default target.
    pub fn is_default(&self) -> (b: bool)
        ensures
            b == self.default_target(),
    {
        let mut i: usize = 0;
        while i < MAX_COLOR_TARGETS
            invariant
                i <= 4,
                forall|j: int| 0 <= j < i ==> self.colors[j] == Plane::PlaneEmpty,
            decreases 4 - i,
        {
            if !self.colors[i].same(&Plane::PlaneEmpty) {
                return false;
            }
            i += 1;
        }
        self.depth.same(&Plane::PlaneEmpty) && self.stencil.same(&Plane::PlaneEmpty)
    }
}

} // verus!
