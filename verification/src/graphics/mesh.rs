//! Meshes as handles of vertex arrays that the renderer has uploaded.

use vstd::prelude::*;
use vstd::string::StringExecFns;

verus! {

/// The handle of an uploaded vertex array and the number of indices that it
/// draws.
#[derive(Clone, Copy, Debug, PartialEq, Eq, Structural)]
pub struct VAO {
    pub id: u32,
    pub index_count: u32,
}

/// One draw of a vertex array: what `Mesh::render` asks the renderer to do.
#[derive(Clone, Copy, Debug, PartialEq, Eq, Structural)]
pub struct DrawCall {
    pub vao: u32,
    pub index_count: u32,
}

/// Why geometry could not be turned into a mesh.
#[derive(Debug)]
pub enum MeshError {
    /// The graphics API reported an error; the text names the call.
    Opengl(String),
    /// The geometry could not be read.
    Io(String),
}

impl MeshError {
    /// What went wrong, in a word.
    pub open spec fn spec_description(&self) -> Seq<char> {
        match self {
            MeshError::Opengl(_) => "opengl"@,
            MeshError::Io(_) => "io"@,
        }
    }

    /// What went wrong, in a word.
    pub fn description(&self) -> (text: &'static str)
        ensures
            text@ == self.spec_description(),
    {
        match self {
            MeshError::Opengl(_) => "opengl",
            MeshError::Io(_) => "io",
        }
    }

    /// The text that the error carries.
    pub open spec fn spec_detail(&self) -> Seq<char> {
        match self {
            MeshError::Opengl(detail) => detail@,
            MeshError::Io(detail) => detail@,
        }
    }

    /// The text that the error carries.
    pub fn detail(&self) -> (text: &String)
        ensures
            text@ == self.spec_detail(),
    {
        match self {
            MeshError::Opengl(detail) => detail,
            MeshError::Io(detail) => detail,
        }
    }

    /// The error as text: the description, a colon and the detail.
    pub open spec fn spec_to_string(&self) -> Seq<char> {
        self.spec_description() + ": "@ + self.spec_detail()
    }

    /// The error as text.
    pub fn to_string(&self) -> (text: String)
        ensures
            text@ == self.spec_to_string(),
    {
        let mut text = self.description().to_owned();
        text.append(": ");
        text.append(self.detail().as_str());
        text
    }
}

impl VAO {
    pub fn new(id: u32, index_count: u32) -> (vao: VAO)
        ensures
            vao == (VAO { id, index_count }),
    {
        VAO { id, index_count }
    }

    pub fn get_index_count(&self) -> (count: u32)
        ensures
            count == self.index_count,
    {
        self.index_count
    }

    /// The draw call that shows this vertex array.
    pub fn render(&self) -> (call: DrawCall)
        ensures
            call == (DrawCall { vao: self.id, index_count: self.index_count }),
    {
        DrawCall { vao: self.id, index_count: self.index_count }
    }
}

/// Geometry ready to be drawn, or nothing at all.
#[derive(Debug)]
pub struct Mesh {
    vao: Option<VAO>,
}

impl Mesh {
    /// The vertex array behind the mesh, if it has one.
    pub closed spec fn view(&self) -> Option<VAO> {
        self.vao
    }

    /// The number of indices that a mesh with vertex array `vao` draws.
    pub open spec fn spec_vertex_count(&self) -> int {
        match self@ {
            Some(vao) => vao.index_count as int,
            None => 0,
        }
    }

    /// The mesh of an uploaded vertex array.
    pub fn from_vao(vao: VAO) -> (mesh: Mesh)
        ensures
            mesh@ == Some(vao),
    {
        Mesh { vao: Some(vao) }
    }

    /// The number of indices that the mesh draws: none for an empty mesh.
    pub fn get_vertex_count(&self) -> (count: u32)
        ensures
            count == self.spec_vertex_count(),
    {
        match self.vao {
            Some(ref vao) => vao.get_index_count(),
            _ => 0,
        }
    }

    /// What the renderer has to draw to show the mesh: one call for its vertex
    /// array, and nothing for an empty mesh.
    pub fn render(&self) -> (call: Option<DrawCall>)
        ensures
            call == match self@ {
                Some(vao) => Some(DrawCall { vao: vao.id, index_count: vao.index_count }),
                None => None,
            },
    {
        match self.vao {
            Some(ref vao) => Some(vao.render()),
            None => None,
        }
    }
}

impl Default for Mesh {
    /// The empty mesh.
    fn default() -> (mesh: Self)
        ensures
            mesh@.is_none(),
    {
        Self { vao: None }
    }
}

} // verus!
