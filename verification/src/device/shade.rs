//! Shader stages, shader values and the reflected interface of a program.

use vstd::prelude::*;
use crate::device::{AttributeSlot, Program};

verus! {

/// Location of a uniform inside its program.
pub type Location = usize;

/// Source text of one shader.
pub type ShaderSource = Vec<u8>;

/// Pipeline stage a shader is compiled for.
#[derive(Clone, Copy, Debug, PartialEq, Eq)]
pub enum Stage {
    Vertex,
    Fragment,
}

/// Scalar type underlying a shader variable.
#[derive(Clone, Copy, Debug, PartialEq, Eq)]
pub enum BaseType {
    BaseF32,
    BaseF64,
    BaseI32,
    BaseU32,
    BaseBool,
}

/// A value that can be uploaded into a uniform.
///
/// Floating point components are carried as their IEEE 754 bit patterns.
#[derive(Clone, Copy, Debug, PartialEq, Eq)]
pub enum UniformValue {
    ValueI32(i32),
    ValueF32(u32),
    ValueI32Vec([i32; 4]),
    ValueF32Vec([u32; 4]),
    ValueF32Matrix([[u32; 4]; 4]),
}

/// Why the device could not create a shader.
#[derive(Clone, Debug, PartialEq, Eq)]
pub enum CreateShaderError {
    /// None of the provided sources fits the device.
    NoSupportedShaderProvided,
    /// The compiler rejected the source; the log is attached.
    ShaderCompilationFailed(String),
}

impl CreateShaderError {
    /// An equal copy of this error.
    pub fn duplicate(&self) -> (copy: CreateShaderError)
        ensures
            copy == *self,
    {
        match self {
            CreateShaderError::NoSupportedShaderProvided => {
                CreateShaderError::NoSupportedShaderProvided
            },
            CreateShaderError::ShaderCompilationFailed(log) => {
                CreateShaderError::ShaderCompilationFailed(log.clone())
            },
        }
    }
}

/// A vertex input declared by a program.
#[derive(Clone, Debug, PartialEq, Eq)]
pub struct Attribute {
    pub name: String,
    pub location: AttributeSlot,
    pub base_type: BaseType,
}

/// A plain uniform declared by a program.
#[derive(Clone, Debug, PartialEq, Eq)]
pub struct UniformVar {
    pub name: String,
    pub location: Location,
}

/// A uniform block declared by a program.
#[derive(Clone, Debug, PartialEq, Eq)]
pub struct BlockVar {
    pub name: String,
}

/// A texture sampler declared by a program.
#[derive(Clone, Debug, PartialEq, Eq)]
pub struct SamplerVar {
    pub name: String,
    pub location: Location,
}

/// Reflected interface of a linked program.
#[derive(Clone, Debug, PartialEq, Eq)]
pub struct ProgramMeta {
    /// Device name of the program.
    pub name: Program,
    pub attributes: Vec<Attribute>,
    pub uniforms: Vec<UniformVar>,
    pub blocks: Vec<BlockVar>,
    pub textures: Vec<SamplerVar>,
}

} // verus!
