//! Fixed-function state of a draw call.

use vstd::prelude::*;
use crate::device::state::{Blend, Depth, Primitive, Stencil};

verus! {

/// The pipeline state a draw call runs under.
#[derive(Clone, Copy, Debug, PartialEq, Eq)]
pub struct DrawState {
    pub primitive: Primitive,
    pub depth: Option<Depth>,
    pub stencil: Option<Stencil>,
    pub blend: Option<Blend>,
}

} // verus!
