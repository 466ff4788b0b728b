//! Vertex attribute element types.

use vstd::prelude::*;
use crate::device::shade::BaseType;

verus! {

/// Number of components of one attribute element.
pub type Count = u8;

/// Byte offset of the first element inside its buffer.
pub type Offset = u32;

/// Byte distance between consecutive elements.
pub type Stride = u8;

#[derive(Clone, Copy, Debug, PartialEq, Eq)]
pub enum SignFlag {
    Signed,
    Unsigned,
}

/// How integer data is presented to the shader.
#[derive(Clone, Copy, Debug, PartialEq, Eq)]
pub enum IntSubType {
    /// Passed through as an integer.
    IntRaw,
    /// Mapped onto the unit range.
    IntNormalized,
    /// Converted to a floating point value of the same magnitude.
    IntAsFloat,
}

#[derive(Clone, Copy, Debug, PartialEq, Eq)]
pub enum IntSize {
    U8,
    U16,
    U32,
}

#[derive(Clone, Copy, Debug, PartialEq, Eq)]
pub enum FloatSubType {
    FloatDefault,
    FloatPrecision,
}

#[derive(Clone, Copy, Debug, PartialEq, Eq)]
pub enum FloatSize {
    F16,
    F32,
    F64,
}

/// Element type of a vertex attribute as stored in a buffer.
#[derive(Clone, Copy, Debug, PartialEq, Eq)]
pub enum Type {
    Int(IntSubType, IntSize, SignFlag),
    Float(FloatSubType, FloatSize),
    Special,
}

impl Type {
    /// Whether data of this element type can feed a shader input of base
    /// type `base`.
    ///
    /// Raw integers feed signed integer inputs, and unsigned integer inputs
    /// when they are unsigned themselves. Converted integers and floats feed
    /// single precision inputs. Only double precision floats feed double
    /// precision inputs. Nothing feeds a boolean input.
    pub open spec fn compatible(self, base: BaseType) -> bool {
        match self {
            Type::Int(IntSubType::IntRaw, _, sign) => base == BaseType::BaseI32 || (base
                == BaseType::BaseU32 && sign == SignFlag::Unsigned),
            Type::Int(_, _, _) => base == BaseType::BaseF32,
            Type::Float(sub, size) => base == BaseType::BaseF32 || (base == BaseType::BaseF64
                && sub == FloatSubType::FloatPrecision && size == FloatSize::F64),
            Type::Special => false,
        }
    }

    /// Checks this element type against the base type a shader declares.
    pub fn is_compatible(&self, base: BaseType) -> (r: Result<(), ()>)
        ensures
            r.is_ok() == self.compatible(base),
    {
        match (*self, base) {
            (Type::Int(IntSubType::IntRaw, _, _), BaseType::BaseI32) => Ok(()),
            (Type::Int(IntSubType::IntRaw, _, SignFlag::Unsigned), BaseType::BaseU32) => Ok(()),
            (Type::Int(IntSubType::IntRaw, _, _), _) => Err(()),
            (Type::Int(_, _, _), BaseType::BaseF32) => Ok(()),
            (Type::Int(_, _, _), _) => Err(()),
            (Type::Float(_, _), BaseType::BaseF32) => Ok(()),
            (Type::Float(FloatSubType::FloatPrecision, FloatSize::F64), BaseType::BaseF64) => Ok(
                (),
            ),
            (Type::Float(_, _), _) => Err(()),
            (Type::Special, _) => Err(()),
        }
    }
}

} // verus!
