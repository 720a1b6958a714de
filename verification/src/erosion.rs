//! The cell grid of the hydraulic erosion simulation and its 4-neighbour
//! topology.

pub mod direction;
pub mod hydraulic_erosion;
