//! High-level, platform independent, bindless rendering front-end.
//!
//! The renderer turns draw requests into an ordered stream of device
//! requests and keeps track of device-side objects that are created
//! asynchronously and addressed by tokens until the device answers.

use vstd::prelude::*;

pub use crate::dispatcher::Dispatcher;
pub use crate::renderer::{Renderer, Wait};

pub mod binding;
pub mod device;
pub mod dispatcher;
pub mod drawing;
pub mod history;
pub mod mesh;
pub mod rast;
pub mod renderer;
pub mod resource;
pub mod shade;
pub mod target;

verus! {

/// Identifies one creation request among those of its kind.
pub type Token = usize;

pub type BufferHandle = usize;

pub type SurfaceHandle = usize;

pub type TextureHandle = usize;

pub type SamplerHandle = usize;

pub type ShaderHandle = usize;

pub type ProgramHandle = usize;

/// A creation request that the device refused. The token it names never
/// becomes usable.
#[derive(Clone, Debug, PartialEq, Eq)]
pub enum DeviceError {
    ErrorNewBuffer(BufferHandle),
    ErrorNewArrayBuffer,
    ErrorNewShader(ShaderHandle, device::shade::CreateShaderError),
    ErrorNewProgram(ProgramHandle),
    ErrorNewFrameBuffer,
}

/// A draw call met a uniform block or a texture that is not loaded.
#[derive(Clone, Copy, Debug, PartialEq, Eq)]
pub enum BundleError {
    ErrorBundleBlock(shade::VarBlock),
    ErrorBundleTexture(shade::VarTexture),
}

/// A mesh does not fit the program it is drawn with.
#[derive(Clone, Copy, Debug, PartialEq, Eq)]
pub enum MeshError {
    /// The program declares an input that the mesh has no attribute for.
    ErrorAttributeMissing,
    /// An attribute of the mesh cannot feed the input of its name.
    ErrorAttributeType,
}

/// Why a draw call drew nothing.
#[derive(Clone, Copy, Debug, PartialEq, Eq)]
pub enum DrawError {
    /// The program was refused by the device.
    ErrorProgram,
    ErrorBundle(BundleError),
    ErrorMesh(MeshError),
}

} // verus!
