//! Behaviour that parts of the world share.

use vstd::prelude::*;
use crate::chunk::chunk_error::ChunkError;
use crate::object::ObjectError;

verus! {

/// Why a part of the world could not be brought up to date.
#[derive(Debug)]
pub enum WorldError {
    Chunk(ChunkError),
    Object(ObjectError),
}

/// A part of the world that changes as time passes.
pub trait Updatable {
    /// Advances the part by `time_passed` milliseconds.
    fn tick(&mut self, time_passed: u32) -> Result<(), WorldError>;
}

} // verus!
