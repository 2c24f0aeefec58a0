use vstd::prelude::*;

verus! {

/// A linked OpenGL shader program, known by its object id. Compiling,
/// linking and setting uniforms talk to the GL driver and live beside the
/// library.
pub struct Program {
    id: u32,
}

impl Program {
    pub closed spec fn id_spec(&self) -> u32 {
        self.id
    }

    /// The program with OpenGL object id `id`.
    pub fn from_id(id: u32) -> (r: Self)
        ensures
            r.id_spec() == id,
    {
        Program { id }
    }

    /// The OpenGL object id of the program.
    pub fn id(&self) -> (r: u32)
        ensures
            r == self.id_spec(),
    {
        self.id
    }
}

} // verus!
