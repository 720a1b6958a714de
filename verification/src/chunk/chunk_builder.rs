//! The build of one chunk: raw terrain, erosion, geometry, and the chunk or
//! the error that comes of them.

use vstd::prelude::*;
use crate::chunk::architect::{is_raw_terrain, Architect};
use crate::chunk::chunk::Chunk;
use crate::chunk::chunk_error::ChunkError;
use crate::chunk::chunk_size::{lemma_quotient_bounds, CHUNK_SIZE};
use crate::graphics::mesh::{Mesh, MeshError};
use crate::grid::{cell_index, lemma_index_in_range};
use crate::height_map::HeightMap;
use crate::noise::noise::Noise;

verus! {

/// World units per cell at level of detail `lod`: one at level 0, and twice
/// as many with each level, up to one cell per chunk.
pub open spec fn spec_lod_resolution(lod: u32) -> int {
    if lod == 0 {
        1
    } else if lod == 1 {
        2
    } else if lod == 2 {
        4
    } else if lod == 3 {
        8
    } else if lod == 4 {
        16
    } else if lod == 5 {
        32
    } else {
        64
    }
}

/// World units per cell at level of detail `lod`.
pub fn lod_resolution(lod: u32) -> (resolution: i32)
    ensures
        resolution == spec_lod_resolution(lod),
        1 <= resolution <= CHUNK_SIZE,
{
    if lod == 0 {
        1
    } else if lod == 1 {
        2
    } else if lod == 2 {
        4
    } else if lod == 3 {
        8
    } else if lod == 4 {
        16
    } else if lod == 5 {
        32
    } else {
        64
    }
}

/// Full resolution is one world unit per cell, every coarser level has
/// fewer cells than the one before until a chunk is one cell, and the cells
/// of every level tile a chunk without remainder.
pub proof fn lemma_lod_resolution(lod: u32)
    ensures
        spec_lod_resolution(0) == 1,
        lod >= 1 ==> spec_lod_resolution(lod) > 1,
        lod < u32::MAX ==> spec_lod_resolution(lod) <= spec_lod_resolution((lod + 1) as u32),
        CHUNK_SIZE as int % spec_lod_resolution(lod) == 0,
{
}

/// The lower left triangle of the quad whose lower left corner is the cell
/// `(x, y)`, as indices into the cells in row-by-row order.
pub open spec fn spec_lower_triangle(size: int, x: int, y: int) -> (int, int, int) {
    (cell_index(size, x, y), cell_index(size, x + 1, y), cell_index(size, x, y + 1))
}

/// The upper right triangle of the quad whose lower left corner is the cell
/// `(x, y)`.
pub open spec fn spec_upper_triangle(size: int, x: int, y: int) -> (int, int, int) {
    (cell_index(size, x + 1, y), cell_index(size, x + 1, y + 1), cell_index(size, x, y + 1))
}

/// Whether `triangle` holds the indices `indices`.
pub open spec fn holds_indices(triangle: [u32; 3], indices: (int, int, int)) -> bool {
    triangle[0] == indices.0 && triangle[1] == indices.1 && triangle[2] == indices.2
}

/// Whether `triangles` covers a grid of side `size`: two triangles for each
/// quad of four neighbouring cells, quad by quad in row-by-row order. A grid
/// of a single cell has no quad and no triangle.
pub open spec fn is_triangulation(triangles: Seq<[u32; 3]>, size: int) -> bool {
    &&& triangles.len() == 2 * (size - 1) * (size - 1)
    &&& forall|x: int, y: int|
        0 <= x < size - 1 && 0 <= y < size - 1 ==> {
            let quad = #[trigger] cell_index(size - 1, x, y);
            &&& holds_indices(triangles[2 * quad], spec_lower_triangle(size, x, y))
            &&& holds_indices(triangles[2 * quad + 1], spec_upper_triangle(size, x, y))
        }
}

/// The triangles that cover a grid of side `size`.
pub fn triangulate(size: i32) -> (triangles: Vec<[u32; 3]>)
    requires
        1 <= size <= 65535,
    ensures
        is_triangulation(triangles@, size as int),
{
    let quads: i32 = size - 1;
    let side: u32 = size as u32;
    let mut triangles: Vec<[u32; 3]> = Vec::new();
    let mut y: i32 = 0;
    while y < quads
        invariant
            1 <= size <= 65535,
            quads == size - 1,
            side == size,
            0 <= y <= quads,
            triangles@.len() == 2 * (y * quads),
            forall|i: int, j: int|
                0 <= i < quads && 0 <= j < y ==> {
                    let quad = #[trigger] cell_index(quads as int, i, j);
                    &&& holds_indices(triangles@[2 * quad], spec_lower_triangle(size as int, i, j))
                    &&& holds_indices(
                        triangles@[2 * quad + 1],
                        spec_upper_triangle(size as int, i, j),
                    )
                },
        decreases quads - y,
    {
        let mut x: i32 = 0;
        while x < quads
            invariant
                1 <= size <= 65535,
                quads == size - 1,
                side == size,
                0 <= y < quads,
                0 <= x <= quads,
                triangles@.len() == 2 * (y * quads + x),
                forall|i: int, j: int|
                    0 <= i < quads && (0 <= j < y || (j == y && i < x)) ==> {
                        let quad = #[trigger] cell_index(quads as int, i, j);
                        &&& holds_indices(
                            triangles@[2 * quad],
                            spec_lower_triangle(size as int, i, j),
                        )
                        &&& holds_indices(
                            triangles@[2 * quad + 1],
                            spec_upper_triangle(size as int, i, j),
                        )
                    },
            decreases quads - x,
        {
            proof {
                lemma_index_in_range(size as int, x as int, y as int);
                lemma_index_in_range(size as int, x + 1, y + 1);
                assert(size * size <= 4294836225) by (nonlinear_arith)
                    requires
                        1 <= size <= 65535,
                ;
                assert((y + 1) * size == y * size + size) by (nonlinear_arith);
            }
            let corner: u32 = (y as u32) * side + (x as u32);
            let ghost before = triangles@;
            triangles.push([corner, corner + 1, corner + side]);
            triangles.push([corner + 1, corner + side + 1, corner + side]);
            proof {
                assert forall|i: int, j: int|
                    0 <= i < quads && (0 <= j < y || (j == y && i < x + 1)) implies {
                    let quad = #[trigger] cell_index(quads as int, i, j);
                    &&& holds_indices(triangles@[2 * quad], spec_lower_triangle(size as int, i, j))
                    &&& holds_indices(
                        triangles@[2 * quad + 1],
                        spec_upper_triangle(size as int, i, j),
                    )
                } by {
                    let quad = cell_index(quads as int, i, j);
                    if j == y && i == x {
                        assert(2 * quad == before.len());
                    } else {
                        if j < y {
                            assert(j * quads + quads <= y * quads) by (nonlinear_arith)
                                requires
                                    j + 1 <= y,
                                    quads >= 0,
                            ;
                        }
                        assert(0 <= j * quads) by (nonlinear_arith)
                            requires
                                0 <= j,
                                0 <= quads,
                        ;
                        assert(0 <= 2 * quad && 2 * quad + 1 < before.len());
                        assert(triangles@[2 * quad] == before[2 * quad]);
                        assert(triangles@[2 * quad + 1] == before[2 * quad + 1]);
                    }
                }
            }
            x += 1;
        }
        assert((y + 1) * quads == y * quads + quads) by (nonlinear_arith);
        y += 1;
    }
    assert(2 * (quads * quads) == 2 * (size - 1) * (size - 1)) by (nonlinear_arith)
        requires
            quads == size - 1,
    ;
    triangles
}

/// The chunk at `position` with the given heights and geometry. A failed
/// mesh construction is passed on as `ChunkError::Mesh`; geometry without a
/// single vertex gives `ChunkError::NoBufferBuilt` with the position.
pub open spec fn spec_finish<T>(
    position: [i32; 2],
    lod: u32,
    height_map: HeightMap<T>,
    mesh: Result<Mesh, MeshError>,
) -> Result<Chunk<T>, ChunkError> {
    match mesh {
        Err(err) => Err(ChunkError::Mesh(err)),
        Ok(geometry) => if geometry.spec_vertex_count() == 0 {
            Err(ChunkError::NoBufferBuilt(position))
        } else {
            Ok(Chunk::spec_new(position, lod, geometry, height_map))
        },
    }
}

/// Whether `built` is what a build of the chunk at `chunk_pos` at level of
/// detail `lod` gives: raw terrain sampled from `noise` at the resolution of
/// the level, then eroded by `erode`, then triangulated and turned into
/// geometry by `upload`, then put together.
pub open spec fn is_build_of<
    T: Copy,
    N: Noise<T>,
    E: Fn(HeightMap<T>) -> HeightMap<T>,
    U: Fn(&HeightMap<T>, &Vec<[u32; 3]>) -> Result<Mesh, MeshError>,
>(
    built: Result<Chunk<T>, ChunkError>,
    noise: &N,
    chunk_pos: [i32; 2],
    lod: u32,
    erode: E,
    upload: U,
) -> bool {
    exists|
        raw: HeightMap<T>,
        eroded: HeightMap<T>,
        triangles: Vec<[u32; 3]>,
        geometry: Result<Mesh, MeshError>,
    |
        #![trigger
            call_ensures(erode, (raw,), eroded),
            call_ensures(upload, (&eroded, &triangles), geometry)]
        {
            &&& is_raw_terrain(raw, noise, chunk_pos, spec_lod_resolution(lod))
            &&& call_ensures(erode, (raw,), eroded)
            &&& is_triangulation(triangles@, eroded.spec_size())
            &&& call_ensures(upload, (&eroded, &triangles), geometry)
            &&& built == spec_finish(chunk_pos, lod, eroded, geometry)
        }
}

/// Builds chunks from a noise field.
pub struct ChunkBuilder<N> {
    architect: Architect<N>,
}

impl<N> ChunkBuilder<N> {
    /// The noise field that raw terrain is sampled from.
    pub closed spec fn spec_noise(&self) -> N {
        self.architect.spec_noise()
    }

    /// A builder that samples `noise`.
    pub fn new(noise: N) -> (builder: Self)
        ensures
            builder.spec_noise() == noise,
    {
        ChunkBuilder { architect: Architect::new(noise) }
    }

    /// Puts a chunk together from the parts that a build has made.
    pub fn finish<T>(
        position: [i32; 2],
        lod: u32,
        height_map: HeightMap<T>,
        mesh: Result<Mesh, MeshError>,
    ) -> (built: Result<Chunk<T>, ChunkError>)
        ensures
            built == spec_finish(position, lod, height_map, mesh),
    {
        match mesh {
            Err(err) => Err(ChunkError::from(err)),
            Ok(geometry) => {
                if geometry.get_vertex_count() == 0 {
                    Err(ChunkError::NoBufferBuilt(position))
                } else {
                    Ok(Chunk::new(position, lod, geometry, height_map))
                }
            },
        }
    }

    /// Builds the chunk at `chunk_pos` at level of detail `lod`. `erode`
    /// refines the raw terrain and keeps its size; `upload` turns heights
    /// and triangles into geometry.
    pub fn build<
        T: Copy,
        E: Fn(HeightMap<T>) -> HeightMap<T>,
        U: Fn(&HeightMap<T>, &Vec<[u32; 3]>) -> Result<Mesh, MeshError>,
    >(&self, chunk_pos: [i32; 2], lod: u32, erode: &E, upload: &U) -> (built: Result<
        Chunk<T>,
        ChunkError,
    >) where N: Noise<T>
        requires
            forall|raw: HeightMap<T>| raw.wf() ==> call_requires(*erode, (raw,)),
            forall|raw: HeightMap<T>, eroded: HeightMap<T>|
                raw.wf() && call_ensures(*erode, (raw,), eroded) ==> eroded.wf()
                    && eroded.spec_size() == raw.spec_size(),
            forall|eroded: HeightMap<T>, triangles: Vec<[u32; 3]>|
                eroded.wf() && is_triangulation(triangles@, eroded.spec_size()) ==> call_requires(
                    *upload,
                    (&eroded, &triangles),
                ),
        ensures
            is_build_of(built, &self.spec_noise(), chunk_pos, lod, *erode, *upload),
    {
        let resolution = lod_resolution(lod);
        let raw = self.architect.build(chunk_pos, resolution);
        let ghost raw_map = raw;
        let eroded = erode(raw);
        let size = eroded.get_size();
        proof {
            lemma_quotient_bounds(CHUNK_SIZE as int, resolution as int);
            assert(size >= 1) by (nonlinear_arith)
                requires
                    size == 64int / (resolution as int),
                    1 <= resolution <= 64,
            ;
        }
        let triangles = triangulate(size);
        let geometry = upload(&eroded, &triangles);
        let ghost eroded_map = eroded;
        let built = Self::finish(chunk_pos, lod, eroded, geometry);
        proof {
            assert(call_ensures(*erode, (raw_map,), eroded_map));
            assert(call_ensures(*upload, (&eroded_map, &triangles), geometry));
        }
        built
    }
}

} // verus!
