use vstd::prelude::*;
use std::sync::Arc;
use crate::opengl_backend::shader::Program;
use crate::render::asset_storage::asset_storage::TextureHandle;

verus! {

/// A 4x4 matrix of the `glam` crate, carried through render commands.
#[verifier::external_type_specification]
#[verifier::external_body]
pub struct ExMat4(glam::Mat4);

/// A 3-vector of the `glam` crate, carried through render commands.
#[verifier::external_type_specification]
#[verifier::external_body]
pub struct ExVec3(glam::Vec3);

/// One command for the renderer.
pub enum RenderCommand {
    BindShader(Arc<Program>),
    BindTexture(Arc<TextureHandle>),
    DrawMesh { vao: u32, count: usize },
    SetMat4(Arc<glam::Mat4>),
    SetVec3(Arc<glam::Vec3>),
}

/// The commands submitted for the current frame, in submission order.
pub struct RenderCommandQueue {
    commands: Vec<RenderCommand>,
}

impl RenderCommandQueue {
    /// The commands waiting, in submission order.
    pub closed spec fn pending(&self) -> Seq<RenderCommand> {
        self.commands@
    }

    /// The number of commands waiting.
    pub fn len(&self) -> (r: usize)
        ensures
            r == self.pending().len(),
    {
        self.commands.len()
    }

    /// Adds a command to the end of the queue.
    pub fn submit(&mut self, command: RenderCommand)
        ensures
            final(self).pending() == old(self).pending().push(command),
    {
        self.commands.push(command);
    }

    /// Runs the waiting commands, the last submitted first, then empties
    /// the queue.
    pub fn flush(&mut self)
        ensures
            final(self).pending() == Seq::<RenderCommand>::empty(),
    {
        let mut i: usize = self.commands.len();
        while i > 0
            invariant
                i <= self.commands@.len(),
            decreases i,
        {
            i = i - 1;
            match &self.commands[i] {
                RenderCommand::BindShader(_) => {},
                RenderCommand::BindTexture(_) => {},
                RenderCommand::DrawMesh { .. } => {},
                RenderCommand::SetMat4(_) => {},
                RenderCommand::SetVec3(_) => {},
            }
        }
        self.commands = Vec::new();
    }
}

impl Default for RenderCommandQueue {
    fn default() -> (r: Self)
        ensures
            r.pending() == Seq::<RenderCommand>::empty(),
    {
        RenderCommandQueue { commands: Vec::new() }
    }
}

} // verus!
