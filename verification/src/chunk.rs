//! Terrain chunks: their coordinates, their errors and the pipeline that
//! builds them.

pub mod architect;
pub mod build_stats;
pub mod chunk;
pub mod chunk_builder;
pub mod chunk_error;
pub mod chunk_loader;
pub mod chunk_size;
pub mod loader_model;
pub mod worker;
