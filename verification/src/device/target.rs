//! Render target attachments.

use vstd::prelude::*;
use crate::device::{Surface, Texture};

verus! {

/// Mipmap level of a texture.
pub type Level = u8;

/// Layer of an array or volume texture.
pub type Layer = u16;

/// What is attached to one slot of a frame buffer.
#[derive(Clone, Copy, Debug, PartialEq, Eq)]
pub enum Plane {
    /// Nothing is attached.
    PlaneEmpty,
    /// A render surface.
    PlaneSurface(Surface),
    /// A level of a texture, optionally restricted to one layer.
    PlaneTexture(Texture, Level, Option<Layer>),
}

impl Plane {
    /// Whether two attachments are the same.
    pub fn same(&self, other: &Plane) -> (b: bool)
        ensures
            b == (*self == *other),
    {
        match (*self, *other) {
            (Plane::PlaneEmpty, Plane::PlaneEmpty) => true,
            (Plane::PlaneSurface(a), Plane::PlaneSurface(b)) => a == b,
            (Plane::PlaneTexture(a, la, None), Plane::PlaneTexture(b, lb, None)) => a == b && la
                == lb,
            (Plane::PlaneTexture(a, la, Some(ya)), Plane::PlaneTexture(b, lb, Some(yb))) => a == b
                && la == lb && ya == yb,
            _ => false,
        }
    }
}

/// Slot of a frame buffer an attachment is bound to.
#[derive(Clone, Copy, Debug, PartialEq, Eq)]
pub enum Target {
    TargetColor(u8),
    TargetDepth,
    TargetStencil,
}

/// What a clear operation overwrites, and with which values.
///
/// Color components and depth are carried as IEEE 754 bit patterns.
#[derive(Clone, Copy, Debug, PartialEq, Eq)]
pub struct ClearData {
    pub color: Option<[u32; 4]>,
    pub depth: Option<u32>,
    pub stencil: Option<u8>,
}

} // verus!
