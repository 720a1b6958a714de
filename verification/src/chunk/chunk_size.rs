//! Chunk coordinates: which chunk a world position falls in, and where the
//! cells of a chunk lie in the world.

use vstd::prelude::*;

verus! {

/// The side length of a chunk in world units.
pub const CHUNK_SIZE: i32 = 64;

/// The quotient of `a` by `b`, rounded toward zero.
pub open spec fn trunc_div(a: int, b: int) -> int {
    if a >= 0 {
        if b > 0 {
            a / b
        } else {
            -(a / (-b))
        }
    } else {
        if b > 0 {
            -((-a) / b)
        } else {
            (-a) / (-b)
        }
    }
}

/// The chunk coordinate of a world coordinate that rounds to `rounded` and is
/// negative or not: the rounded coordinate in whole chunks, rounded toward
/// zero, and one chunk less for a negative coordinate.
pub open spec fn spec_chunk_coord(rounded: int, negative: bool) -> int {
    trunc_div(rounded, CHUNK_SIZE as int) - if negative {
        1int
    } else {
        0int
    }
}

/// The world coordinate of the cell at `offset` of the chunk at `chunk`, with
/// `resolution` world units per cell.
pub open spec fn spec_world_coord(chunk: int, offset: int, resolution: int) -> int {
    chunk * CHUNK_SIZE + offset * resolution
}

/// The quotient of `a` by `b`, rounded toward zero.
pub fn div_toward_zero(a: i32, b: i32) -> (q: i64)
    requires
        b != 0,
    ensures
        q == trunc_div(a as int, b as int),
        -2147483648 <= q <= 2147483648,
{
    let wide_a: i64 = a as i64;
    let wide_b: i64 = b as i64;
    if wide_a >= 0 {
        if wide_b > 0 {
            let q: i64 = wide_a / wide_b;
            proof {
                lemma_quotient_bounds(wide_a as int, wide_b as int);
            }
            q
        } else {
            let q: i64 = wide_a / (-wide_b);
            proof {
                lemma_quotient_bounds(wide_a as int, -wide_b as int);
            }
            -q
        }
    } else {
        if wide_b > 0 {
            let q: i64 = (-wide_a) / wide_b;
            proof {
                lemma_quotient_bounds(-wide_a as int, wide_b as int);
            }
            -q
        } else {
            let q: i64 = (-wide_a) / (-wide_b);
            proof {
                lemma_quotient_bounds(-wide_a as int, -wide_b as int);
            }
            q
        }
    }
}

/// A quotient of a non-negative number by a positive one lies between zero
/// and the number.
pub proof fn lemma_quotient_bounds(a: int, b: int)
    requires
        0 <= a,
        0 < b,
    ensures
        0 <= a / b <= a,
{
    vstd::arithmetic::div_mod::lemma_div_pos_is_pos(a, b);
    vstd::arithmetic::div_mod::lemma_div_is_ordered_by_denominator(a, 1, b);
    vstd::arithmetic::div_mod::lemma_div_basics(a);
}

/// The position of the chunk that holds a world position, from the two
/// world coordinates rounded to whole numbers and the sign of each.
pub fn get_chunk_pos(rounded: &[i32; 2], negative: &[bool; 2]) -> (chunk_pos: [i32; 2])
    ensures
        chunk_pos[0] == spec_chunk_coord(rounded[0] as int, negative[0]),
        chunk_pos[1] == spec_chunk_coord(rounded[1] as int, negative[1]),
{
    [chunk_coord(rounded[0], negative[0]), chunk_coord(rounded[1], negative[1])]
}

/// One coordinate of `get_chunk_pos`.
pub fn chunk_coord(rounded: i32, negative: bool) -> (coord: i32)
    ensures
        coord == spec_chunk_coord(rounded as int, negative),
{
    let whole: i64 = div_toward_zero(rounded, CHUNK_SIZE);
    proof {
        if rounded >= 0 {
            lemma_quotient_bounds(rounded as int, 64);
            assert(rounded as int / 64 <= 33554431);
        } else {
            lemma_quotient_bounds(-(rounded as int), 64);
            assert((-(rounded as int)) / 64 <= 33554432);
        }
    }
    let coord: i64 = if negative {
        whole - 1
    } else {
        whole
    };
    coord as i32
}

/// The grid position inside a chunk of a world position, from the rounded
/// distance of the world position to the chunk's origin along each axis.
pub fn get_chunk_relative_pos(rounded_distance: &[i32; 2], resolution: i32) -> (pos: [i64; 2])
    requires
        resolution != 0,
    ensures
        pos[0] == trunc_div(rounded_distance[0] as int, resolution as int),
        pos[1] == trunc_div(rounded_distance[1] as int, resolution as int),
{
    [
        div_toward_zero(rounded_distance[0], resolution),
        div_toward_zero(rounded_distance[1], resolution),
    ]
}

/// The world position of the cell at `offset` of the chunk at `chunk_pos`.
pub fn get_world_pos(chunk_pos: &[i32; 2], offset: &[i32; 2], resolution: i32) -> (world: [i64; 2])
    ensures
        world[0] == spec_world_coord(chunk_pos[0] as int, offset[0] as int, resolution as int),
        world[1] == spec_world_coord(chunk_pos[1] as int, offset[1] as int, resolution as int),
{
    [
        world_coord(chunk_pos[0], offset[0], resolution),
        world_coord(chunk_pos[1], offset[1], resolution),
    ]
}

/// One coordinate of `get_world_pos`.
pub fn world_coord(chunk: i32, offset: i32, resolution: i32) -> (coord: i64)
    ensures
        coord == spec_world_coord(chunk as int, offset as int, resolution as int),
{
    let base: i64 = (chunk as i64) * (CHUNK_SIZE as i64);
    proof {
        lemma_product_bounds(offset as int, resolution as int);
    }
    let step: i64 = (offset as i64) * (resolution as i64);
    assert(-137438953472 <= base <= 137438953472) by (nonlinear_arith)
        requires
            base == chunk * 64,
            -2147483648 <= chunk <= 2147483647,
    ;
    base + step
}

/// The product of two 32-bit numbers fits in 63 bits with room to spare.
pub proof fn lemma_product_bounds(a: int, b: int)
    requires
        -2147483648 <= a <= 2147483647,
        -2147483648 <= b <= 2147483647,
    ensures
        -4611686018427387904 <= a * b <= 4611686018427387904,
{
    assert(-4611686018427387904 <= a * b <= 4611686018427387904) by (nonlinear_arith)
        requires
            -2147483648 <= a <= 2147483647,
            -2147483648 <= b <= 2147483647,
    ;
}

/// A position that rounds to the same whole numbers lies one chunk lower
/// when it is negative: the chunk of `-0.3` is `-1`, that of `0.3` is `0`.
pub proof fn lemma_negative_is_one_chunk_lower(rounded: int)
    ensures
        spec_chunk_coord(rounded, true) == spec_chunk_coord(rounded, false) - 1,
{
}

/// Cells that lie `CHUNK_SIZE / resolution` cells apart in neighbouring chunks
/// are the same place in the world: chunks join without gap or overlap.
pub proof fn lemma_chunks_join(chunk: int, offset: int, resolution: int, cells: int)
    requires
        cells * resolution == CHUNK_SIZE,
    ensures
        spec_world_coord(chunk, offset + cells, resolution) == spec_world_coord(
            chunk + 1,
            offset,
            resolution,
        ),
{
    assert((offset + cells) * resolution == offset * resolution + cells * resolution)
        by (nonlinear_arith);
}

} // verus!
