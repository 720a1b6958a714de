//! Raw terrain for a chunk, sampled from a noise field.

use vstd::prelude::*;
use vstd::arithmetic::div_mod::{
    lemma_div_by_multiple, lemma_div_is_ordered, lemma_remainder_lower,
};
use crate::chunk::chunk_size::{
    get_world_pos, lemma_quotient_bounds, spec_world_coord, CHUNK_SIZE,
};
use crate::grid::{
    cell_index, lemma_index_in_range, lemma_index_injective, lemma_index_surjective, on_grid,
};
use crate::height_map::HeightMap;
use crate::noise::noise::Noise;

verus! {

/// The number of cells along one side of a chunk at `resolution` world units
/// per cell.
pub open spec fn spec_chunk_cells(resolution: int) -> int {
    CHUNK_SIZE as int / resolution
}

/// The world position of cell `(x, y)` of the chunk at `chunk_pos`.
pub open spec fn spec_world_pos(chunk_pos: [i32; 2], x: int, y: int, resolution: int) -> (
    int,
    int,
) {
    (
        spec_world_coord(chunk_pos[0] as int, x, resolution),
        spec_world_coord(chunk_pos[1] as int, y, resolution),
    )
}

/// Whether `height` is what the field `noise` gives at `point`.
pub open spec fn sampled<T, N: Noise<T>>(noise: &N, point: [i64; 2], height: T) -> bool {
    call_ensures(N::get_noise, (noise, point), height)
}

/// Whether `point` is the world position `at`.
pub open spec fn lies_at(point: [i64; 2], at: (int, int)) -> bool {
    point[0] == at.0 && point[1] == at.1
}

/// Whether `height` is what the field `noise` gives at the world position
/// `at`.
pub open spec fn sampled_at<T, N: Noise<T>>(noise: &N, at: (int, int), height: T) -> bool {
    exists|point: [i64; 2]| lies_at(point, at) && #[trigger] sampled(noise, point, height)
}

/// Whether `map` is the raw terrain of the chunk at `chunk_pos`, sampled
/// from `noise` every `resolution` world units: it spans the chunk, and each
/// cell holds what the field gives at the cell's world position.
pub open spec fn is_raw_terrain<T: Copy, N: Noise<T>>(
    map: HeightMap<T>,
    noise: &N,
    chunk_pos: [i32; 2],
    resolution: int,
) -> bool {
    &&& map.wf()
    &&& map.spec_size() == spec_chunk_cells(resolution)
    &&& map.spec_resolution() == resolution
    &&& forall|x: int, y: int|
        on_grid(map.spec_size(), x, y) ==> sampled_at(
            noise,
            spec_world_pos(chunk_pos, x, y, resolution),
            #[trigger] map@[cell_index(map.spec_size(), x, y)],
        )
}

/// Samples a noise field on the grid of a chunk.
pub struct Architect<N> {
    noise: N,
}

impl<N> Architect<N> {
    /// The noise field that the architect samples.
    pub closed spec fn spec_noise(&self) -> N {
        self.noise
    }

    /// An architect that samples `noise`.
    pub fn new(noise: N) -> (architect: Self)
        ensures
            architect.spec_noise() == noise,
    {
        Architect { noise }
    }

    /// The raw height map of the chunk at `chunk_pos` with `resolution` world
    /// units per cell: each cell holds the value of the noise field at the
    /// cell's world position.
    pub fn build<T: Copy>(&self, chunk_pos: [i32; 2], resolution: i32) -> (map: HeightMap<T>) where
        N: Noise<T>,
        requires
            1 <= resolution <= CHUNK_SIZE,
        ensures
            is_raw_terrain(map, &self.spec_noise(), chunk_pos, resolution as int),
    {
        let size: i32 = CHUNK_SIZE / resolution;
        proof {
            lemma_quotient_bounds(CHUNK_SIZE as int, resolution as int);
            assert(size >= 1) by (nonlinear_arith)
                requires
                    size == 64int / (resolution as int),
                    1 <= resolution <= 64,
            ;
            assert(size * size <= 4096) by (nonlinear_arith)
                requires
                    1 <= size <= 64,
            ;
        }
        let origin = get_world_pos(&chunk_pos, &[0, 0], resolution);
        let first = self.noise.get_noise(origin);
        let mut map = HeightMap::filled(size, resolution, first);
        proof {
            map.lemma_shape();
        }
        let mut y: i32 = 0;
        while y < size
            invariant
                size == spec_chunk_cells(resolution as int),
                1 <= size <= 64,
                map.wf(),
                map.spec_size() == size,
                map.spec_resolution() == resolution as int,
                map@.len() == size * size,
                0 <= y <= size,
                forall|i: int, j: int|
                    on_grid(size as int, i, j) && j < y ==> sampled_at(
                        &self.spec_noise(),
                        spec_world_pos(chunk_pos, i, j, resolution as int),
                        #[trigger] map@[cell_index(size as int, i, j)],
                    ),
            decreases size - y,
        {
            let mut x: i32 = 0;
            while x < size
                invariant
                    size == spec_chunk_cells(resolution as int),
                    1 <= size <= 64,
                    map.wf(),
                    map.spec_size() == size,
                    map.spec_resolution() == resolution as int,
                    map@.len() == size * size,
                    0 <= y < size,
                    0 <= x <= size,
                    forall|i: int, j: int|
                        on_grid(size as int, i, j) && (j < y || (j == y && i < x))
                            ==> sampled_at(
                            &self.spec_noise(),
                            spec_world_pos(chunk_pos, i, j, resolution as int),
                            #[trigger] map@[cell_index(size as int, i, j)],
                        ),
                decreases size - x,
            {
                let pos = [x, y];
                let world = get_world_pos(&chunk_pos, &pos, resolution);
                let height = self.noise.get_noise(world);
                let ghost before = map@;
                map.set(&pos, height);
                proof {
                    lemma_index_in_range(size as int, x as int, y as int);
                    assert(map@.len() == before.len());
                    assert forall|i: int, j: int|
                        on_grid(size as int, i, j) && (j < y || (j == y && i < x + 1))
                            implies sampled_at(
                        &self.spec_noise(),
                        spec_world_pos(chunk_pos, i, j, resolution as int),
                        #[trigger] map@[cell_index(size as int, i, j)],
                    ) by {
                        lemma_index_in_range(size as int, i, j);
                        lemma_index_in_range(size as int, x as int, y as int);
                        if i == x && j == y {
                            assert(lies_at(
                                world,
                                spec_world_pos(chunk_pos, i, j, resolution as int),
                            ));
                            assert(sampled(
                                &self.spec_noise(),
                                world,
                                map@[cell_index(size as int, i, j)],
                            ));
                        } else {
                            if cell_index(size as int, i, j) == cell_index(
                                size as int,
                                x as int,
                                y as int,
                            ) {
                                lemma_index_injective(
                                    size as int,
                                    i,
                                    j,
                                    x as int,
                                    y as int,
                                );
                            }
                            assert(map@[cell_index(size as int, i, j)] == before[cell_index(
                                size as int,
                                i,
                                j,
                            )]);
                        }
                    }
                }
                x += 1;
            }
            y += 1;
        }
        map
    }
}

/// A coarser level of detail samples the same field at fewer points: the
/// cell `(x, y)` at `step` times the resolution lies where the cell
/// `(step * x, step * y)` lies at the resolution itself.
pub proof fn lemma_lod_samples_same_points(
    chunk_pos: [i32; 2],
    x: int,
    y: int,
    resolution: int,
    step: int,
)
    ensures
        spec_world_pos(chunk_pos, x, y, step * resolution) == spec_world_pos(
            chunk_pos,
            step * x,
            step * y,
            resolution,
        ),
{
    assert(x * (step * resolution) == (step * x) * resolution) by (nonlinear_arith);
    assert(y * (step * resolution) == (step * y) * resolution) by (nonlinear_arith);
}

/// Whether the field `noise` gives one value only at every point.
pub open spec fn is_deterministic<T, N: Noise<T>>(noise: &N) -> bool {
    forall|point: [i64; 2], a: T, b: T|
        #![trigger sampled(noise, point, a), sampled(noise, point, b)]
        sampled(noise, point, a) && sampled(noise, point, b) ==> a == b
}

/// A field that gives one value at every point gives one value at every
/// world position.
pub proof fn lemma_one_value_per_position<T, N: Noise<T>>(noise: &N, at: (int, int), a: T, b: T)
    requires
        is_deterministic(noise),
        sampled_at(noise, at, a),
        sampled_at(noise, at, b),
    ensures
        a == b,
{
    let p = choose|p: [i64; 2]| lies_at(p, at) && #[trigger] sampled(noise, p, a);
    let q = choose|q: [i64; 2]| lies_at(q, at) && #[trigger] sampled(noise, q, b);
    assert(p =~= q);
}

/// The raw terrain of a chunk is a function of the noise, the position and
/// the resolution: from a field that gives one value at every point, a chunk
/// comes out the same whenever it is built.
pub proof fn lemma_raw_terrain_is_repeatable<T: Copy, N: Noise<T>>(
    first: HeightMap<T>,
    second: HeightMap<T>,
    noise: &N,
    chunk_pos: [i32; 2],
    resolution: int,
)
    requires
        is_deterministic(noise),
        is_raw_terrain(first, noise, chunk_pos, resolution),
        is_raw_terrain(second, noise, chunk_pos, resolution),
    ensures
        first@ == second@,
{
    first.lemma_shape();
    second.lemma_shape();
    let size = first.spec_size();
    assert forall|i: int| 0 <= i < first@.len() implies first@[i] == second@[i] by {
        lemma_index_surjective(size, i);
        let x = i % size;
        let y = i / size;
        assert(cell_index(size, x, y) == i);
        lemma_one_value_per_position(
            noise,
            spec_world_pos(chunk_pos, x, y, resolution),
            first@[cell_index(size, x, y)],
            second@[cell_index(size, x, y)],
        );
    }
    assert(first@ =~= second@);
}

/// A coarser level of detail shows the same terrain with fewer cells: the
/// cell `(x, y)` of the terrain at `step` times the resolution holds what the
/// cell `(step * x, step * y)` holds at the resolution itself.
pub proof fn lemma_coarse_terrain_matches_fine<T: Copy, N: Noise<T>>(
    fine: HeightMap<T>,
    coarse: HeightMap<T>,
    noise: &N,
    chunk_pos: [i32; 2],
    resolution: int,
    step: int,
    x: int,
    y: int,
)
    requires
        is_deterministic(noise),
        1 <= resolution,
        1 <= step,
        step * resolution <= CHUNK_SIZE,
        is_raw_terrain(fine, noise, chunk_pos, resolution),
        is_raw_terrain(coarse, noise, chunk_pos, step * resolution),
        on_grid(coarse.spec_size(), x, y),
    ensures
        on_grid(fine.spec_size(), step * x, step * y),
        coarse@[cell_index(coarse.spec_size(), x, y)] == fine@[cell_index(
            fine.spec_size(),
            step * x,
            step * y,
        )],
{
    lemma_fine_cell_of_coarse_cell(resolution, step, x);
    lemma_fine_cell_of_coarse_cell(resolution, step, y);
    lemma_lod_samples_same_points(chunk_pos, x, y, resolution, step);
    lemma_one_value_per_position(
        noise,
        spec_world_pos(chunk_pos, x, y, step * resolution),
        coarse@[cell_index(coarse.spec_size(), x, y)],
        fine@[cell_index(fine.spec_size(), step * x, step * y)],
    );
}

/// The cell `step * x` lies on the fine grid where the cell `x` lies on the
/// coarse one.
pub proof fn lemma_fine_cell_of_coarse_cell(resolution: int, step: int, x: int)
    requires
        1 <= resolution,
        1 <= step,
        step * resolution <= CHUNK_SIZE,
        0 <= x < spec_chunk_cells(step * resolution),
    ensures
        0 <= step * x < spec_chunk_cells(resolution),
{
    let coarse = step * resolution;
    let cells = 64int / coarse;
    assert(coarse >= 1) by (nonlinear_arith)
        requires
            coarse == step * resolution,
            step >= 1,
            resolution >= 1,
    ;
    lemma_remainder_lower(64, coarse);
    assert((x + 1) * coarse <= cells * coarse) by (nonlinear_arith)
        requires
            x + 1 <= cells,
            coarse > 0,
    ;
    assert((step * x + 1) * resolution <= (x + 1) * coarse) by (nonlinear_arith)
        requires
            coarse == step * resolution,
            step >= 1,
            resolution >= 1,
            x >= 0,
    ;
    lemma_div_is_ordered((step * x + 1) * resolution, 64, resolution);
    assert(0 <= step * x) by (nonlinear_arith)
        requires
            step >= 1,
            x >= 0,
    ;
    lemma_div_by_multiple(step * x + 1, resolution);
}

} // verus!
