use vstd::prelude::*;
use std::collections::HashMap;
use crate::opengl_backend::shader::Program;

verus! {

/// The id of a stored shader program.
pub type ProgramID = u32;

/// A handle to a stored shader program.
pub struct ShaderHandle(ProgramID);

impl ShaderHandle {
    /// The id the handle refers to.
    pub closed spec fn id_spec(&self) -> u32 {
        self.0
    }

    /// The handle of the program stored under `id`.
    pub fn new(id: ProgramID) -> (r: Self)
        ensures
            r.id_spec() == id,
    {
        ShaderHandle(id)
    }
}

/// Reading back after storing: a program stored under an id is what a
/// handle with that id finds, and the other ids keep their programs.
pub proof fn law_shader_read_after_insert(m: Map<ProgramID, Program>, id: ProgramID, shader: Program, other: ProgramID)
    ensures
        m.insert(id, shader).contains_key(id),
        m.insert(id, shader)[id] == shader,
        other != id ==> m.insert(id, shader).contains_key(other) == m.contains_key(other),
        other != id && m.contains_key(other) ==> m.insert(id, shader)[other] == m[other],
{
}

/// The shader programs of the renderer, each under the id it was given
/// when stored. Ids are handed out in increasing order, wrapping around
/// after the last 32-bit value.
pub struct ShaderStorage {
    shaders: HashMap<ProgramID, Program>,
    next_id: u32,
}

impl ShaderStorage {
    /// The stored programs by id.
    pub closed spec fn programs(&self) -> Map<ProgramID, Program> {
        self.shaders@
    }

    /// The id the next stored program receives.
    pub closed spec fn next_program_id(&self) -> u32 {
        self.next_id
    }

    /// An empty storage.
    pub fn new() -> (r: Self)
        ensures
            r.programs() == Map::<ProgramID, Program>::empty(),
            r.next_program_id() == 0,
    {
        ShaderStorage { shaders: HashMap::new(), next_id: 0 }
    }

    /// Stores `shader` under the next id and returns that id.
    pub fn insert_shader(&mut self, shader: Program) -> (id: ProgramID)
        ensures
            id == old(self).next_program_id(),
            final(self).next_program_id() == (if old(self).next_program_id() == u32::MAX { 0 } else { old(self).next_program_id() + 1 }),
            final(self).programs() == old(self).programs().insert(id, shader),
    {
        broadcast use vstd::std_specs::hash::group_hash_axioms;
        let id = self.next_id;
        self.next_id = self.next_id.wrapping_add(1);
        let _ = self.shaders.insert(id, shader);
        id
    }

    /// The program stored under the id of `shader`, if any.
    pub fn get_shader(&self, shader: &ShaderHandle) -> (r: Option<&Program>)
        ensures
            self.programs().contains_key(shader.id_spec()) ==> r == Some(&self.programs()[shader.id_spec()]),
            !self.programs().contains_key(shader.id_spec()) ==> r is None,
    {
        broadcast use vstd::std_specs::hash::group_hash_axioms;
        self.shaders.get(&shader.0)
    }
}

} // verus!
