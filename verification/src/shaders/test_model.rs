//! The model container: a header of 12 bytes and the layout of the vertices and
//! indices that follow it.

use crate::encoder::Buffer;
use crate::texture::{le_u32_at, read_u32_le};
use vstd::prelude::*;

verus! {

/// The word that starts a model file.
pub const MODEL_MAGIC: u32 = 0x0050_72C1;

/// The header of a model file: the number of its vertices and of its indices.
#[derive(Clone, Copy, Debug, PartialEq, Eq, Structural)]
pub struct ModelHeader {
    pub num_vertices: u32,
    pub num_indices: u32,
}

impl ModelHeader {
    /// The header that the first 12 bytes hold, where there are as many and they start
    /// with the magic word.
    pub open spec fn parsed(bytes: Seq<u8>) -> Option<ModelHeader> {
        if bytes.len() >= 12 && le_u32_at(bytes, 0) == MODEL_MAGIC {
            Some(ModelHeader { num_vertices: le_u32_at(bytes, 4), num_indices: le_u32_at(bytes, 8) })
        } else {
            None
        }
    }

    /// Offset in the buffer of the vertex shader's attributes, which follow those of
    /// the coordinate shader: 12 bytes for each vertex.
    pub open spec fn vs_vbo_offset(self) -> int {
        self.num_vertices * 12
    }

    /// Offset in the buffer of the indices, which follow the vertex shader's
    /// attributes: 56 bytes for each vertex.
    pub open spec fn ibo_offset(self) -> int {
        self.vs_vbo_offset() + self.num_vertices * 56
    }

    /// Size in bytes of the buffer that holds the model, whose indices have two bytes
    /// each.
    pub open spec fn buffer_size(self) -> int {
        self.ibo_offset() + self.num_indices * 2
    }

    /// Reads the header that starts `bytes`.
    pub fn parse(bytes: &[u8]) -> (header: Option<ModelHeader>)
        ensures
            header == Self::parsed(bytes@),
    {
        if bytes.len() < 12 {
            return None;
        }
        if read_u32_le(bytes, 0) != MODEL_MAGIC {
            return None;
        }
        Some(
            ModelHeader {
                num_vertices: read_u32_le(bytes, 4),
                num_indices: read_u32_le(bytes, 8),
            },
        )
    }

    /// Size in bytes of the buffer that holds the model, where it fits 32 bits.
    pub fn size(&self) -> (size: Option<u32>)
        ensures
            size is Some <==> self.buffer_size() <= u32::MAX,
            size matches Some(n) ==> n == self.buffer_size(),
    {
        let size: u64 = self.num_vertices as u64 * 68 + self.num_indices as u64 * 2;
        if size > u32::MAX as u64 {
            None
        } else {
            Some(size as u32)
        }
    }
}

/// A range of the bytes of a buffer.
#[derive(Clone, Copy, Debug, PartialEq, Eq, Structural)]
pub struct BufferView {
    pub buffer: Buffer,
    pub start: u32,
    pub end: u32,
}

impl BufferView {
    /// The bytes of `buffer` from `start` up to `end`.
    pub fn from_buffer_and_range(buffer: Buffer, start: u32, end: u32) -> (view: BufferView)
        ensures
            view == (BufferView { buffer, start, end }),
    {
        BufferView { buffer, start, end }
    }
}

/// A model in GPU memory: the attributes that the coordinate shader reads, those that
/// the vertex shader reads and the indices, one after the other in one buffer.
#[derive(Clone, Copy, Debug, PartialEq, Eq, Structural)]
pub struct Model {
    pub cs_vbo: BufferView,
    pub vs_vbo: BufferView,
    pub ibo: BufferView,
    pub num_indices: u32,
    pub num_vertices: u32,
}

impl Model {
    /// The model with the given header in `buffer`.
    pub fn new(header: ModelHeader, buffer: Buffer) -> (model: Model)
        requires
            header.buffer_size() <= u32::MAX,
        ensures
            model == (Model {
                cs_vbo: BufferView { buffer, start: 0, end: header.vs_vbo_offset() as u32 },
                vs_vbo: BufferView {
                    buffer,
                    start: header.vs_vbo_offset() as u32,
                    end: header.ibo_offset() as u32,
                },
                ibo: BufferView {
                    buffer,
                    start: header.ibo_offset() as u32,
                    end: header.buffer_size() as u32,
                },
                num_indices: header.num_indices,
                num_vertices: header.num_vertices,
            }),
    {
        let vs_vbo_off = header.num_vertices * 12;
        let ibo_off = vs_vbo_off + header.num_vertices * 56;
        let buffer_size = ibo_off + header.num_indices * 2;
        Model {
            cs_vbo: BufferView::from_buffer_and_range(buffer, 0, vs_vbo_off),
            vs_vbo: BufferView::from_buffer_and_range(buffer, vs_vbo_off, ibo_off),
            ibo: BufferView::from_buffer_and_range(buffer, ibo_off, buffer_size),
            num_indices: header.num_indices,
            num_vertices: header.num_vertices,
        }
    }
}

} // verus!
