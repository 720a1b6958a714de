//! Procedural terrain generation: the grid model shared by height maps and
//! the erosion simulation, chunk coordinates, and the bookkeeping of the
//! chunk build pipeline.

pub mod chunk;
pub mod erosion;
pub mod graphics;
pub mod grid;
pub mod height_map;
pub mod noise;
pub mod object;
pub mod text;
pub mod traits;
