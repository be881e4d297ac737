use vstd::prelude::*;
use crate::resource::Buffer;

verus! {

/// The draw a mesh is recorded with.
#[derive(Clone, Copy, Debug, PartialEq, Eq, Structural)]
pub enum DrawCall {
    /// Bind the index buffer and draw `index_count` indices.
    Indexed { index_count: u32 },
    /// Draw `vertex_count` vertices in order.
    NonIndexed { vertex_count: u32 },
}

/// A mesh resident on the device: its vertex buffer, an index buffer exactly
/// when it has indices, the counts, and its primitive topology (the graphics
/// API's number).
pub struct GpuMesh {
    pub vertex_buffer: Buffer,
    pub index_buffer: Option<Buffer>,
    pub vertex_count: u32,
    pub index_count: u32,
    pub topology: i32,
}

impl GpuMesh {
    /// A mesh whose index buffer is present exactly when it has indices.
    pub fn new(
        vertex_buffer: Buffer,
        index_buffer: Option<Buffer>,
        vertex_count: u32,
        index_count: u32,
        topology: i32,
    ) -> (r: GpuMesh)
        requires
            index_buffer is Some <==> index_count > 0,
        ensures
            r.vertex_buffer == vertex_buffer,
            r.index_buffer == index_buffer,
            r.vertex_count == vertex_count,
            r.index_count == index_count,
            r.topology == topology,
    {
        GpuMesh { vertex_buffer, index_buffer, vertex_count, index_count, topology }
    }

    /// An indexed draw when the mesh has an index buffer, else a plain one.
    pub fn draw_call(&self) -> (r: DrawCall)
        ensures
            self.index_buffer is Some ==> r == (DrawCall::Indexed { index_count: self.index_count }),
            self.index_buffer is None ==> r == (DrawCall::NonIndexed { vertex_count: self.vertex_count }),
    {
        match &self.index_buffer {
            Some(_) => DrawCall::Indexed { index_count: self.index_count },
            None => DrawCall::NonIndexed { vertex_count: self.vertex_count },
        }
    }
}

} // verus!
