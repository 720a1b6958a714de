//! What the terrain pipeline knows of the renderer: handles of uploaded
//! geometry and the draw calls that show them.

pub mod mesh;
