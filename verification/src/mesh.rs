//! Meshes: vertex attributes stored in device buffers, and the ranges of
//! them that a draw call covers.

use vstd::prelude::*;
use crate::BufferHandle;
use crate::device::{IndexCount, VertexCount};
use crate::device::attrib::{Count, Offset, Stride, Type};

verus! {

/// One vertex attribute of a mesh.
#[derive(Clone, Debug, PartialEq, Eq)]
pub struct Attribute {
    /// Token of the buffer that holds the data.
    pub buffer: BufferHandle,
    /// Number of components of one element.
    pub elem_count: Count,
    /// Type of one component.
    pub elem_type: Type,
    /// Byte offset of the first element.
    pub offset: Offset,
    /// Byte distance between consecutive elements.
    pub stride: Stride,
    /// Name of the shader input this attribute feeds.
    pub name: String,
}

/// Layout of one attribute inside a vertex, before it is tied to a buffer.
#[derive(Clone, Debug, PartialEq, Eq)]
pub struct AttributeFormat {
    pub elem_count: Count,
    pub elem_type: Type,
    pub offset: Offset,
    pub stride: Stride,
    pub name: String,
}

/// An ordered set of vertex attributes.
#[derive(Clone, Debug, PartialEq, Eq)]
pub struct Mesh {
    pub num_vertices: VertexCount,
    pub attributes: Vec<Attribute>,
}

/// Which part of a mesh a draw call covers.
#[derive(Clone, Copy, Debug, PartialEq, Eq)]
pub enum Slice {
    /// A contiguous range of vertices.
    VertexSlice(VertexCount, VertexCount),
    /// A range of the indices stored in a buffer.
    IndexSlice(BufferHandle, IndexCount, IndexCount),
}

/// The attribute that `format` describes, stored in `buffer`.
pub open spec fn attribute_in(format: AttributeFormat, buffer: BufferHandle) -> Attribute {
    Attribute {
        buffer,
        elem_count: format.elem_count,
        elem_type: format.elem_type,
        offset: format.offset,
        stride: format.stride,
        name: format.name,
    }
}

impl Mesh {
    /// An empty mesh of `num_vertices` vertices.
    pub fn new(num_vertices: VertexCount) -> (mesh: Mesh)
        ensures
            mesh.num_vertices == num_vertices,
            mesh.attributes@.len() == 0,
    {
        Mesh { num_vertices, attributes: Vec::new() }
    }

    /// The mesh whose vertices are laid out as `format` says and all live
    /// in one buffer.
    pub fn from(format: &Vec<AttributeFormat>, buffer: BufferHandle, num_vertices: VertexCount) -> (mesh:
        Mesh)
        ensures
            mesh.num_vertices == num_vertices,
            mesh.attributes@.len() == format@.len(),
            forall|i: int|
                0 <= i < format@.len() ==> #[trigger] mesh.attributes@[i] == attribute_in(
                    format@[i],
                    buffer,
                ),
    {
        let mut attributes: Vec<Attribute> = Vec::new();
        let mut i: usize = 0;
        while i < format.len()
            invariant
                i <= format@.len(),
                attributes@.len() == i,
                forall|j: int|
                    0 <= j < i ==> #[trigger] attributes@[j] == attribute_in(format@[j], buffer),
            decreases format@.len() - i,
        {
            let f = &format[i];
            attributes.push(
                Attribute {
                    buffer,
                    elem_count: f.elem_count,
                    elem_type: f.elem_type,
                    offset: f.offset,
                    stride: f.stride,
                    name: f.name.clone(),
                },
            );
            i += 1;
        }
        Mesh { num_vertices, attributes }
    }
}

} // verus!
