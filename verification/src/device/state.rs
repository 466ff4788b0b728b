//! Fixed-function pipeline state descriptors.
//!
//! Floating point settings are carried as their IEEE 754 bit patterns.

use vstd::prelude::*;

verus! {

#[derive(Clone, Copy, Debug, PartialEq, Eq)]
pub enum FrontType {
    Clockwise,
    CounterClockwise,
}

/// Which faces of filled polygons are discarded.
#[derive(Clone, Copy, Debug, PartialEq, Eq)]
pub enum CullMode {
    CullNothing,
    CullFront,
    CullBack,
}

/// How primitives are rasterized.
#[derive(Clone, Copy, Debug, PartialEq, Eq)]
pub enum RasterMethod {
    Point,
    /// Lines of the given width.
    Line(u32),
    Fill(CullMode),
}

/// Depth offset applied to rasterized fragments.
#[derive(Clone, Copy, Debug, PartialEq, Eq)]
pub enum OffsetType {
    NoOffset,
    /// Slope factor and constant units.
    Offset(u32, u32),
}

/// Rasterizer state.
#[derive(Clone, Copy, Debug, PartialEq, Eq)]
pub struct Primitive {
    pub front_face: FrontType,
    pub method: RasterMethod,
    pub offset: OffsetType,
}

impl Primitive {
    /// The cull mode this rasterizer state implies: the one of a fill
    /// method, and no culling for points and lines.
    pub open spec fn cull_mode(self) -> CullMode {
        match self.method {
            RasterMethod::Fill(mode) => mode,
            _ => CullMode::CullNothing,
        }
    }

    pub fn get_cull_mode(&self) -> (mode: CullMode)
        ensures
            mode == self.cull_mode(),
    {
        match self.method {
            RasterMethod::Fill(mode) => mode,
            _ => CullMode::CullNothing,
        }
    }
}

#[derive(Clone, Copy, Debug, PartialEq, Eq)]
pub enum Comparison {
    Never,
    Less,
    Equal,
    LessEqual,
    Greater,
    NotEqual,
    GreaterEqual,
    Always,
}

/// Depth test state.
#[derive(Clone, Copy, Debug, PartialEq, Eq)]
pub struct Depth {
    pub fun: Comparison,
    pub write: bool,
}

/// Stencil test state.
#[derive(Clone, Copy, Debug, PartialEq, Eq)]
pub struct Stencil {
    pub fun: Comparison,
    pub value: u8,
    pub mask_read: u8,
    pub mask_write: u8,
}

#[derive(Clone, Copy, Debug, PartialEq, Eq)]
pub enum Equation {
    FuncAdd,
    FuncSub,
    FuncRevSub,
    FuncMin,
    FuncMax,
}

#[derive(Clone, Copy, Debug, PartialEq, Eq)]
pub enum Factor {
    Zero,
    One,
    SourceAlpha,
    OneMinusSourceAlpha,
    DestAlpha,
    OneMinusDestAlpha,
}

/// Blend state.
#[derive(Clone, Copy, Debug, PartialEq, Eq)]
pub struct Blend {
    pub equation: Equation,
    pub source: Factor,
    pub destination: Factor,
    /// Constant blend color.
    pub value: [u32; 4],
}

} // verus!
