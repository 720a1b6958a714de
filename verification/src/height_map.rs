//! A square grid of heights.

use vstd::prelude::*;
use crate::grid::{cell_index, on_grid, pos_to_index, lemma_index_in_range, lemma_index_injective};

verus! {

/// A `size × size` grid of heights of type `T`, stored row by row, together
/// with the number of world units that one cell spans.
pub struct HeightMap<T> {
    size: i32,
    resolution: i32,
    heights: Vec<T>,
}

impl<T: Copy> HeightMap<T> {
    /// The side length is positive and the map holds one height per cell.
    pub closed spec fn wf(&self) -> bool {
        &&& self.size > 0
        &&& self.heights@.len() == self.size * self.size
    }

    /// What `wf` says, over the public model.
    pub proof fn lemma_shape(&self)
        requires
            self.wf(),
        ensures
            self.spec_size() > 0,
            self@.len() == self.spec_size() * self.spec_size(),
            self.spec_size() * self.spec_size() <= usize::MAX,
    {
        assert(self.heights.len() <= usize::MAX);
    }

    /// The side length of the grid.
    pub closed spec fn spec_size(&self) -> int {
        self.size as int
    }

    /// World units per cell.
    pub closed spec fn spec_resolution(&self) -> int {
        self.resolution as int
    }

    /// The heights, row by row.
    pub closed spec fn view(&self) -> Seq<T> {
        self.heights@
    }

    /// Whether `pos` names a cell of this map.
    pub open spec fn contains(&self, pos: [i32; 2]) -> bool {
        on_grid(self.spec_size(), pos[0] as int, pos[1] as int)
    }

    /// The height stored at `pos`.
    pub open spec fn height_at(&self, pos: [i32; 2]) -> T {
        self@[cell_index(self.spec_size(), pos[0] as int, pos[1] as int)]
    }

    /// A map of side `size` in which every cell holds `fill`.
    pub fn filled(size: i32, resolution: i32, fill: T) -> (map: Self)
        requires
            size > 0,
            size * size <= usize::MAX,
        ensures
            map.wf(),
            map.spec_size() == size,
            map.spec_resolution() == resolution,
            map@ == Seq::new((size * size) as nat, |i: int| fill),
    {
        let side: usize = size as usize;
        let count: usize = side * side;
        let mut heights: Vec<T> = Vec::new();
        let mut i: usize = 0;
        while i < count
            invariant
                i <= count,
                heights@ == Seq::new(i as nat, |j: int| fill),
            decreases count - i,
        {
            heights.push(fill);
            i += 1;
            assert(heights@ =~= Seq::new(i as nat, |j: int| fill));
        }
        HeightMap { size, resolution, heights }
    }

    /// A map of side `size` in which every cell holds the default height.
    pub fn new(size: i32, resolution: i32) -> (map: Self) where T: Default
        requires
            size > 0,
            size * size <= usize::MAX,
        ensures
            map.wf(),
            map.spec_size() == size,
            map.spec_resolution() == resolution,
            exists|fill: T|
                #[trigger] T::default.ensures((), fill) && map@ == Seq::new(
                    (size * size) as nat,
                    |i: int| fill,
                ),
    {
        let fill = T::default();
        Self::filled(size, resolution, fill)
    }

    pub fn get_size(&self) -> (size: i32)
        ensures
            size == self.spec_size(),
    {
        self.size
    }

    pub fn get_resolution(&self) -> (resolution: i32)
        ensures
            resolution == self.spec_resolution(),
    {
        self.resolution
    }

    /// The height at `pos`.
    pub fn get(&self, pos: &[i32; 2]) -> (height: T)
        requires
            self.wf(),
            self.contains(*pos),
        ensures
            height == self.height_at(*pos),
    {
        assert(self.heights.len() <= usize::MAX);
        let index = pos_to_index(self.size, pos);
        self.heights[index]
    }

    /// Stores `height` at `pos` and leaves every other cell as it was.
    pub fn set(&mut self, pos: &[i32; 2], height: T)
        requires
            old(self).wf(),
            old(self).contains(*pos),
        ensures
            final(self).wf(),
            final(self).spec_size() == old(self).spec_size(),
            final(self).spec_resolution() == old(self).spec_resolution(),
            final(self)@ == old(self)@.update(
                cell_index(old(self).spec_size(), pos[0] as int, pos[1] as int),
                height,
            ),
    {
        assert(self.heights.len() <= usize::MAX);
        let index = pos_to_index(self.size, pos);
        self.heights.set(index, height);
    }
}

/// Reading a cell after writing it gives back what was written, and a write
/// is seen at no other cell of the grid.
pub proof fn lemma_set_then_get<T>(
    heights: Seq<T>,
    size: int,
    pos: [i32; 2],
    other: [i32; 2],
    height: T,
)
    requires
        heights.len() == size * size,
        on_grid(size, pos[0] as int, pos[1] as int),
        on_grid(size, other[0] as int, other[1] as int),
    ensures
        heights.update(cell_index(size, pos[0] as int, pos[1] as int), height)[cell_index(
            size,
            pos[0] as int,
            pos[1] as int,
        )] == height,
        (other[0] != pos[0] || other[1] != pos[1]) ==> heights.update(
            cell_index(size, pos[0] as int, pos[1] as int),
            height,
        )[cell_index(size, other[0] as int, other[1] as int)] == heights[cell_index(
            size,
            other[0] as int,
            other[1] as int,
        )],
{
    lemma_index_in_range(size, pos[0] as int, pos[1] as int);
    lemma_index_in_range(size, other[0] as int, other[1] as int);
    if other[0] != pos[0] || other[1] != pos[1] {
        if cell_index(size, pos[0] as int, pos[1] as int) == cell_index(
            size,
            other[0] as int,
            other[1] as int,
        ) {
            lemma_index_injective(
                size,
                pos[0] as int,
                pos[1] as int,
                other[0] as int,
                other[1] as int,
            );
        }
    }
}

} // verus!
