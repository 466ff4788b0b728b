//! Messages exchanged with the worker that drives the graphics device.
//!
//! A `Call` is answered by exactly one `Reply` carrying the same token, a
//! `Cast` is never answered, and `SwapBuffers` is answered by one
//! acknowledgement.

use vstd::prelude::*;
use crate::Token;

pub mod attrib;
pub mod shade;
pub mod state;
pub mod target;
pub mod tex;

verus! {

/// Device name of a buffer.
pub type Buffer = u32;

/// Device name of a vertex layout object.
pub type ArrayBuffer = u32;

/// Device name of a shader.
pub type Shader = u32;

/// Device name of a program.
pub type Program = u32;

/// Device name of a frame buffer.
pub type FrameBuffer = u32;

/// Device name of a render surface.
pub type Surface = u32;

/// Device name of a texture.
pub type Texture = u32;

/// Device name of a sampler.
pub type Sampler = u32;

/// Slot a vertex attribute is bound to.
pub type AttributeSlot = u8;

/// Binding point of a uniform buffer.
pub type UniformBufferSlot = usize;

/// Index of a uniform block inside its program.
pub type UniformBlockIndex = usize;

/// Texture unit.
pub type TextureSlot = usize;

/// Number of vertices.
pub type VertexCount = u16;

/// Number of indices.
pub type IndexCount = u16;

/// Opaque payload of a buffer or texture upload.
pub type Blob = Vec<u8>;

/// A request that the device answers with a reply.
#[derive(Clone, Debug, PartialEq, Eq)]
pub enum CallRequest {
    CreateBuffer(Option<Blob>),
    CreateArrayBuffer,
    CreateShader(shade::Stage, shade::ShaderSource),
    CreateProgram(Vec<Shader>),
    CreateFrameBuffer,
    CreateTexture(tex::TextureInfo),
    CreateSampler(tex::SamplerInfo),
}

/// A request that the device carries out without answering.
#[derive(Clone, Debug, PartialEq, Eq)]
pub enum CastRequest {
    Clear(target::ClearData),
    BindProgram(Program),
    BindArrayBuffer(ArrayBuffer),
    BindAttribute(AttributeSlot, Buffer, attrib::Count, attrib::Type, attrib::Stride, attrib::Offset),
    BindIndex(Buffer),
    BindFrameBuffer(FrameBuffer),
    BindTarget(target::Target, target::Plane),
    BindUniformBlock(Program, UniformBufferSlot, UniformBlockIndex, Buffer),
    BindUniform(shade::Location, shade::UniformValue),
    BindTexture(TextureSlot, Texture, Option<Sampler>),
    SetPrimitiveState(state::Primitive),
    SetDepthStencilState(Option<state::Depth>, Option<state::Stencil>, state::CullMode),
    SetBlendState(Option<state::Blend>),
    UpdateBuffer(Buffer, Blob),
    UpdateTexture(Texture, tex::ImageInfo, Blob),
    Draw(VertexCount, VertexCount),
    DrawIndexed(IndexCount, IndexCount),
}

/// A message from the renderer to the device.
#[derive(Clone, Debug, PartialEq, Eq)]
pub enum Request {
    Call(Token, CallRequest),
    Cast(CastRequest),
    SwapBuffers,
}

/// The answer to a `Call`, carrying the token of the call.
#[derive(Debug, PartialEq, Eq)]
pub enum Reply {
    ReplyNewBuffer(Token, Result<Buffer, ()>),
    ReplyNewArrayBuffer(Token, Result<ArrayBuffer, ()>),
    ReplyNewShader(Token, Result<Shader, shade::CreateShaderError>),
    ReplyNewProgram(Token, Result<shade::ProgramMeta, ()>),
    ReplyNewFrameBuffer(Token, Result<FrameBuffer, ()>),
    ReplyNewTexture(Token, Texture),
    ReplyNewSampler(Token, Sampler),
}

} // verus!
