use vstd::prelude::*;

verus! {

/// What an entity is drawn with, by resource id, and whether it is drawn.
#[derive(Clone, Debug)]
pub struct Renderable {
    pub mesh: usize,
    pub shader: usize,
    pub texture: Option<usize>,
    pub is_visible: bool,
}

impl Renderable {
    /// A visible renderable of the given mesh, shader and texture.
    pub fn new(mesh: usize, shader: usize, texture: Option<usize>) -> (r: Self)
        ensures
            r == (Renderable { mesh, shader, texture, is_visible: true }),
    {
        Renderable { mesh, shader, texture, is_visible: true }
    }

    /// The same renderable, shown or hidden as `flag` says.
    pub fn with_visibility_flag(self, flag: bool) -> (r: Self)
        ensures
            r == (Renderable { is_visible: flag, ..self }),
    {
        let mut s = self;
        s.is_visible = flag;
        s
    }

    /// Shows or hides the renderable as `flag` says.
    pub fn set_visibility(&mut self, flag: bool)
        ensures
            *final(self) == (Renderable { is_visible: flag, ..*old(self) }),
    {
        self.is_visible = flag;
    }
}

} // verus!
