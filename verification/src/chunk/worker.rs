//! What goes to a worker and what comes back from it.

use vstd::prelude::*;
use crate::chunk::chunk::Chunk;
use crate::chunk::chunk_error::ChunkError;

verus! {

/// One build to be run: the chunk position, which is the job's key, and the
/// level of detail to build at.
#[derive(Clone, Copy, Debug, PartialEq, Eq)]
pub struct Job {
    pub position: [i32; 2],
    pub lod: u32,
}

/// What a worker reports when a build has ended: the job, the chunk or the
/// error that the build gave, and how long it ran.
pub struct Completion<T> {
    pub position: [i32; 2],
    pub lod: u32,
    pub result: Result<Chunk<T>, ChunkError>,
    pub elapsed_ms: u64,
}

/// The part of a worker that decides nothing: it runs each job once and
/// reports what came of it.
pub struct Worker {}

impl Worker {
    /// The report on `job`: it carries the job's key and level of detail and
    /// the outcome as it is, a failure as a value and never as a retry.
    pub fn report<T>(job: Job, result: Result<Chunk<T>, ChunkError>, elapsed_ms: u64) -> (done:
        Completion<T>)
        ensures
            done.position == job.position,
            done.lod == job.lod,
            done.result == result,
            done.elapsed_ms == elapsed_ms,
    {
        Completion { position: job.position, lod: job.lod, result, elapsed_ms }
    }
}

} // verus!
