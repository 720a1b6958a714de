//! Positions on a square grid and their row-major linear index.

use vstd::prelude::*;

verus! {

/// Whether `(x, y)` lies on a grid of side `size`.
pub open spec fn on_grid(size: int, x: int, y: int) -> bool {
    0 <= x < size && 0 <= y < size
}

/// The row-major index of `(x, y)` on a grid of side `size`.
pub open spec fn cell_index(size: int, x: int, y: int) -> int {
    y * size + x
}

/// A position on the grid has an index below `size * size`.
pub proof fn lemma_index_in_range(size: int, x: int, y: int)
    requires
        on_grid(size, x, y),
    ensures
        0 <= cell_index(size, x, y) < size * size,
        y * size <= (size - 1) * size,
{
    assert(y * size <= (size - 1) * size) by (nonlinear_arith)
        requires
            0 <= y <= size - 1,
            size > 0,
    ;
    assert((size - 1) * size + size == size * size) by (nonlinear_arith);
    assert(0 <= y * size) by (nonlinear_arith)
        requires
            0 <= y,
            0 < size,
    ;
}

/// Two positions on the grid share an index only if they are the same
/// position.
pub proof fn lemma_index_injective(size: int, x1: int, y1: int, x2: int, y2: int)
    requires
        on_grid(size, x1, y1),
        on_grid(size, x2, y2),
        cell_index(size, x1, y1) == cell_index(size, x2, y2),
    ensures
        x1 == x2,
        y1 == y2,
{
    if y1 < y2 {
        assert((y1 + 1) * size <= y2 * size) by (nonlinear_arith)
            requires
                y1 + 1 <= y2,
                size > 0,
        ;
        assert((y1 + 1) * size == y1 * size + size) by (nonlinear_arith);
    } else if y2 < y1 {
        assert((y2 + 1) * size <= y1 * size) by (nonlinear_arith)
            requires
                y2 + 1 <= y1,
                size > 0,
        ;
        assert((y2 + 1) * size == y2 * size + size) by (nonlinear_arith);
    }
}

/// Every index below `size * size` is the index of the position
/// `(i % size, i / size)`, which lies on the grid.
pub proof fn lemma_index_surjective(size: int, i: int)
    requires
        0 < size,
        0 <= i < size * size,
    ensures
        on_grid(size, i % size, i / size),
        cell_index(size, i % size, i / size) == i,
{
    vstd::arithmetic::div_mod::lemma_fundamental_div_mod(i, size);
    vstd::arithmetic::div_mod::lemma_mod_bound(i, size);
    assert(size * (i / size) == (i / size) * size) by (nonlinear_arith);
    assert(0 <= i / size) by (nonlinear_arith)
        requires
            0 <= i,
            0 < size,
    ;
    if i / size >= size {
        assert((i / size) * size >= size * size) by (nonlinear_arith)
            requires
                i / size >= size,
                size > 0,
        ;
    }
}

/// Whether `pos` lies on a grid of side `size`.
pub fn in_boundary(size: i32, pos: &[i32; 2]) -> (inside: bool)
    ensures
        inside == on_grid(size as int, pos[0] as int, pos[1] as int),
{
    pos[0] >= 0 && pos[0] < size && pos[1] >= 0 && pos[1] < size
}

/// The row-major index of a position on the grid.
pub fn pos_to_index(size: i32, pos: &[i32; 2]) -> (index: usize)
    requires
        on_grid(size as int, pos[0] as int, pos[1] as int),
        size * size <= usize::MAX,
    ensures
        index == cell_index(size as int, pos[0] as int, pos[1] as int),
        index < size * size,
{
    proof {
        lemma_index_in_range(size as int, pos[0] as int, pos[1] as int);
    }
    let row: usize = pos[1] as usize;
    let column: usize = pos[0] as usize;
    let side: usize = size as usize;
    row * side + column
}

} // verus!
