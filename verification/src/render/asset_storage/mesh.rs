use vstd::prelude::*;

verus! {

/// A mesh backend that can upload vertex data to the GPU.
pub trait MeshBackend {
    fn upload_vertices() {
    }
}

/// One index of a mesh index buffer, 16 or 32 bits wide.
#[derive(Clone, Copy, PartialEq, Eq, Structural)]
pub enum IndexType {
    U16(u16),
    U32(u32),
}

} // verus!
