use vstd::prelude::*;

verus! {

/// The id of a loaded asset.
pub type AssetID = u32;

/// A handle to a loaded mesh, held by renderable components.
pub struct MeshHandle(AssetID);

/// A handle to a loaded texture, held by renderable components.
pub struct TextureHandle(AssetID);

impl MeshHandle {
    /// The id the handle refers to.
    pub closed spec fn id_spec(&self) -> u32 {
        self.0
    }

    /// The handle of the mesh with asset id `id`.
    pub fn new(id: AssetID) -> (r: Self)
        ensures
            r.id_spec() == id,
    {
        MeshHandle(id)
    }

    /// The asset id of the mesh.
    pub fn id(&self) -> (r: AssetID)
        ensures
            r == self.id_spec(),
    {
        self.0
    }
}

impl TextureHandle {
    /// The id the handle refers to.
    pub closed spec fn id_spec(&self) -> u32 {
        self.0
    }

    /// The handle of the texture with asset id `id`.
    pub fn new(id: AssetID) -> (r: Self)
        ensures
            r.id_spec() == id,
    {
        TextureHandle(id)
    }

    /// The asset id of the texture.
    pub fn id(&self) -> (r: AssetID)
        ensures
            r == self.id_spec(),
    {
        self.0
    }
}

} // verus!
