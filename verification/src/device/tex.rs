//! Texture and sampler descriptors.

use vstd::prelude::*;

verus! {

#[derive(Clone, Copy, Debug, PartialEq, Eq)]
pub enum TextureKind {
    Texture1D,
    Texture2D,
    TextureCube,
    Texture3D,
}

#[derive(Clone, Copy, Debug, PartialEq, Eq)]
pub enum Format {
    R8,
    RGB8,
    RGBA8,
}

/// Shape and storage format of a texture.
#[derive(Clone, Copy, Debug, PartialEq, Eq)]
pub struct TextureInfo {
    pub width: u16,
    pub height: u16,
    pub depth: u16,
    pub levels: u8,
    pub kind: TextureKind,
    pub format: Format,
}

/// Region of one mipmap level of a texture.
#[derive(Clone, Copy, Debug, PartialEq, Eq)]
pub struct ImageInfo {
    pub xoffset: u16,
    pub yoffset: u16,
    pub zoffset: u16,
    pub width: u16,
    pub height: u16,
    pub depth: u16,
    pub mipmap: u8,
}

#[derive(Clone, Copy, Debug, PartialEq, Eq)]
pub enum FilterMethod {
    Scale,
    Mipmap,
    Bilinear,
    Trilinear,
}

#[derive(Clone, Copy, Debug, PartialEq, Eq)]
pub enum WrapMode {
    Tile,
    Mirror,
    Clamp,
}

/// How a texture is sampled.
#[derive(Clone, Copy, Debug, PartialEq, Eq)]
pub struct SamplerInfo {
    pub filtering: FilterMethod,
    pub wrap_mode: (WrapMode, WrapMode, WrapMode),
}

} // verus!
