use vstd::prelude::*;
use crate::render::asset_storage::asset_storage::{AssetID, MeshHandle, TextureHandle};
use crate::render::shader_storage::ShaderHandle;

verus! {

/// A surface material (not yet given properties).
pub struct Material;

/// A handle to a stored material.
pub struct MaterialHandle(AssetID);

impl MaterialHandle {
    /// The id the handle refers to.
    pub closed spec fn id_spec(&self) -> u32 {
        self.0
    }

    /// The handle of the material with asset id `id`.
    pub fn new(id: AssetID) -> (r: Self)
        ensures
            r.id_spec() == id,
    {
        MaterialHandle(id)
    }
}

/// What an entity is drawn with, and whether it is drawn.
pub struct Renderable {
    pub mesh: MeshHandle,
    pub texture: Option<TextureHandle>,
    pub material: Option<MaterialHandle>,
    pub shader_to_use: Option<ShaderHandle>,
    pub is_visible: bool,
}

impl Renderable {
    /// Shows the entity.
    pub fn make_visible(&mut self)
        ensures
            final(self).is_visible,
            final(self).mesh == old(self).mesh,
            final(self).texture == old(self).texture,
            final(self).material == old(self).material,
            final(self).shader_to_use == old(self).shader_to_use,
    {
        self.is_visible = true;
    }

    /// Hides the entity.
    pub fn make_invisible(&mut self)
        ensures
            !final(self).is_visible,
            final(self).mesh == old(self).mesh,
            final(self).texture == old(self).texture,
            final(self).material == old(self).material,
            final(self).shader_to_use == old(self).shader_to_use,
    {
        self.is_visible = false;
    }

    /// A visible renderable of `mesh`, with no texture, material or shader.
    pub fn new(mesh: MeshHandle) -> (r: Self)
        ensures
            r.mesh == mesh,
            r.texture is None,
            r.material is None,
            r.shader_to_use is None,
            r.is_visible,
    {
        Renderable { mesh, texture: None, material: None, shader_to_use: None, is_visible: true }
    }

    /// The same renderable with `texture`.
    pub fn with_texture(self, texture: TextureHandle) -> (r: Self)
        ensures
            r == (Renderable { texture: Some(texture), ..self }),
    {
        let mut s = self;
        s.texture = Some(texture);
        s
    }

    /// The same renderable with `material`.
    pub fn with_material(self, material: MaterialHandle) -> (r: Self)
        ensures
            r == (Renderable { material: Some(material), ..self }),
    {
        let mut s = self;
        s.material = Some(material);
        s
    }

    /// The same renderable drawn with `shader`.
    pub fn with_shader(self, shader: ShaderHandle) -> (r: Self)
        ensures
            r == (Renderable { shader_to_use: Some(shader), ..self }),
    {
        let mut s = self;
        s.shader_to_use = Some(shader);
        s
    }
}

} // verus!
