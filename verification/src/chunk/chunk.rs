//! A built terrain chunk.

use vstd::prelude::*;
use crate::graphics::mesh::Mesh;
use crate::height_map::HeightMap;

verus! {

/// A terrain tile, built once and not changed afterwards: where it lies, at
/// which level of detail it was built, its geometry and its heights.
pub struct Chunk<T> {
    position: [i32; 2],
    lod: u32,
    mesh: Mesh,
    height_map: HeightMap<T>,
}

impl<T> Chunk<T> {
    /// The chunk position.
    pub closed spec fn spec_position(&self) -> [i32; 2] {
        self.position
    }

    /// The level of detail; 0 is full resolution.
    pub closed spec fn spec_lod(&self) -> u32 {
        self.lod
    }

    /// The geometry.
    pub closed spec fn spec_mesh(&self) -> Mesh {
        self.mesh
    }

    /// The heights.
    pub closed spec fn spec_height_map(&self) -> HeightMap<T> {
        self.height_map
    }

    /// The chunk made of these parts.
    pub closed spec fn spec_new(
        position: [i32; 2],
        lod: u32,
        mesh: Mesh,
        height_map: HeightMap<T>,
    ) -> Self {
        Chunk { position, lod, mesh, height_map }
    }

    /// A chunk is made of its parts and of nothing else.
    pub proof fn lemma_parts(position: [i32; 2], lod: u32, mesh: Mesh, height_map: HeightMap<T>)
        ensures
            Self::spec_new(position, lod, mesh, height_map).spec_position() == position,
            Self::spec_new(position, lod, mesh, height_map).spec_lod() == lod,
            Self::spec_new(position, lod, mesh, height_map).spec_mesh() == mesh,
            Self::spec_new(position, lod, mesh, height_map).spec_height_map() == height_map,
    {
    }

    pub fn new(position: [i32; 2], lod: u32, mesh: Mesh, height_map: HeightMap<T>) -> (chunk: Self)
        ensures
            chunk == Self::spec_new(position, lod, mesh, height_map),
    {
        Chunk { position, lod, mesh, height_map }
    }

    pub fn get_position(&self) -> (position: [i32; 2])
        ensures
            position == self.spec_position(),
    {
        self.position
    }

    pub fn get_lod(&self) -> (lod: u32)
        ensures
            lod == self.spec_lod(),
    {
        self.lod
    }

    pub fn get_mesh(&self) -> (mesh: &Mesh)
        ensures
            *mesh == self.spec_mesh(),
    {
        &self.mesh
    }

    pub fn get_height_map(&self) -> (height_map: &HeightMap<T>)
        ensures
            *height_map == self.spec_height_map(),
    {
        &self.height_map
    }
}

} // verus!
