use vstd::prelude::*;

verus! {

/// The graphics APIs a renderer can be built on.
#[derive(Clone, Copy, PartialEq, Eq, Structural)]
pub enum GraphicsApi {
    OpenGL,
    Vulkan,
    DX12,
}

/// A rendering backend.
pub trait RenderBacked {
}

/// The device that draws through some rendering backend.
pub struct RenderDevice {
    backend: Box<dyn RenderBacked>,
}

} // verus!
