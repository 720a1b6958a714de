//! Why a chunk could not be built.

use vstd::prelude::*;
use vstd::string::StringExecFns;
use crate::graphics::mesh::MeshError;
use crate::text::{append_decimal, decimal_text};

verus! {

/// The failure of one chunk build.
#[derive(Debug)]
pub enum ChunkError {
    /// Mesh construction failed.
    Mesh(MeshError),
    /// Mesh assembly gave no geometry for the chunk at this position.
    NoBufferBuilt([i32; 2]),
}

impl ChunkError {
    /// What went wrong, in a few words.
    pub open spec fn spec_description(&self) -> Seq<char> {
        match self {
            ChunkError::Mesh(_) => "mesh"@,
            ChunkError::NoBufferBuilt(_) => "no buffer built"@,
        }
    }

    /// What went wrong, in a few words.
    pub fn description(&self) -> (text: &'static str)
        ensures
            text@ == self.spec_description(),
    {
        match *self {
            ChunkError::Mesh(_) => "mesh",
            ChunkError::NoBufferBuilt(_) => "no buffer built",
        }
    }

    /// The error as text: for a mesh error the description, a slash and the
    /// text of the mesh error; for a chunk without geometry the description
    /// and the chunk position.
    pub open spec fn spec_to_string(&self) -> Seq<char> {
        match self {
            ChunkError::Mesh(err) => "mesh"@ + "/"@ + err.spec_to_string(),
            ChunkError::NoBufferBuilt(pos) => "no buffer built"@ + ": chunk pos = "@ + decimal_text(
                pos[0] as int,
            ) + "/"@ + decimal_text(pos[1] as int),
        }
    }

    /// The error as text.
    pub fn to_string(&self) -> (text: String)
        ensures
            text@ == self.spec_to_string(),
    {
        let mut text = self.description().to_owned();
        match self {
            ChunkError::Mesh(err) => {
                text.append("/");
                let inner = err.to_string();
                text.append(inner.as_str());
            },
            ChunkError::NoBufferBuilt(pos) => {
                text.append(": chunk pos = ");
                append_decimal(&mut text, pos[0]);
                text.append("/");
                append_decimal(&mut text, pos[1]);
            },
        }
        text
    }

    /// The mesh error behind this error, if there is one.
    pub fn cause(&self) -> (inner: Option<&MeshError>)
        ensures
            match *self {
                ChunkError::Mesh(err) => inner == Some(&err),
                ChunkError::NoBufferBuilt(_) => inner.is_none(),
            },
    {
        match *self {
            ChunkError::Mesh(ref err) => Some(err),
            ChunkError::NoBufferBuilt(_) => None,
        }
    }
}

impl From<MeshError> for ChunkError {
    fn from(err: MeshError) -> (chunk_err: Self)
        ensures
            chunk_err == ChunkError::Mesh(err),
    {
        ChunkError::Mesh(err)
    }
}

impl vstd::std_specs::convert::FromSpecImpl<MeshError> for ChunkError {
    open spec fn obeys_from_spec() -> bool {
        true
    }

    open spec fn from_spec(err: MeshError) -> Self {
        ChunkError::Mesh(err)
    }
}

} // verus!
