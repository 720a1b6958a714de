//! The arena of simulation cells.

use vstd::prelude::*;
use rand::rngs::SmallRng;
use rand::Rng;
use crate::erosion::direction::{get_neighbour_pos, Direction, NEIGHBOURS};
use crate::grid::{
    cell_index, in_boundary, lemma_index_in_range, lemma_index_injective, on_grid, pos_to_index,
};
use crate::height_map::HeightMap;

verus! {

/// `rand::rngs::SmallRng`, a small fast generator. The library carries it
/// through and looks at nothing inside it.
#[verifier::external_type_specification]
#[verifier::external_body]
pub struct ExSmallRng(SmallRng);

/// Draws from `rand::Rng::gen_range(low, high)` on a `SmallRng`: the outcome
/// lies in `low..high`. The call panics unless `low < high`.
#[verifier::external_body]
fn gen_range(rng: &mut SmallRng, low: i32, high: i32) -> (drawn: i32)
    requires
        low < high,
    ensures
        low <= drawn < high,
{
    rng.gen_range(low, high)
}

/// The index of the direction that leads from `(px, py)` to `(x, y)`, or 4
/// where the two are no neighbours.
pub open spec fn neighbour_rank(px: int, py: int, x: int, y: int) -> int {
    if x == px && y == py + 1 {
        0
    } else if x == px + 1 && y == py {
        1
    } else if x == px && y == py - 1 {
        2
    } else if x == px - 1 && y == py {
        3
    } else {
        4
    }
}

/// Whether `after` is `before` with one rain drop at `(px, py)`, on a grid of
/// side `size`. The cell of the drop is replaced by what `wet` makes of it as
/// the centre of a drop, each of its neighbours on the grid by what `wet`
/// makes of it as a neighbour, and every other cell is as it was. A drop at
/// the border wets no cell beyond it and none at the opposite border.
pub open spec fn drop_applied<C, F: Fn(&C, bool) -> C>(
    before: Seq<C>,
    after: Seq<C>,
    size: int,
    px: int,
    py: int,
    wet: F,
) -> bool {
    &&& after.len() == before.len()
    &&& forall|x: int, y: int|
        on_grid(size, x, y) ==> {
            let i = #[trigger] cell_index(size, x, y);
            if x == px && y == py {
                call_ensures(wet, (&before[i], true), after[i])
            } else if neighbour_rank(px, py, x, y) < 4 {
                call_ensures(wet, (&before[i], false), after[i])
            } else {
                after[i] == before[i]
            }
        }
}

/// A rain drop changes its own cell and the cells next to it and no other: a
/// cell two or more steps away, the one at the opposite border among them,
/// is after the drop what it was before.
pub proof fn lemma_drop_stays_local<C, F: Fn(&C, bool) -> C>(
    before: Seq<C>,
    after: Seq<C>,
    size: int,
    px: int,
    py: int,
    wet: F,
    x: int,
    y: int,
)
    requires
        drop_applied(before, after, size, px, py, wet),
        on_grid(size, x, y),
        (x - px) * (x - px) + (y - py) * (y - py) >= 2,
    ensures
        after[cell_index(size, x, y)] == before[cell_index(size, x, y)],
{
    let i = cell_index(size, x, y);
    assert(neighbour_rank(px, py, x, y) == 4) by {
        if neighbour_rank(px, py, x, y) < 4 {
            assert((x - px) * (x - px) + (y - py) * (y - py) == 1) by (nonlinear_arith)
                requires
                    (x == px && (y == py + 1 || y == py - 1)) || (y == py && (x == px + 1 || x
                        == px - 1)),
            ;
        }
    }
    if x == px && y == py {
        assert((x - px) * (x - px) + (y - py) * (y - py) == 0) by (nonlinear_arith)
            requires
                x == px,
                y == py,
        ;
    }
}

/// Whether `after` is `before` with `count` rain drops, each at some position
/// of the grid, one after the other.
pub open spec fn rained<C, F: Fn(&C, bool) -> C>(
    before: Seq<C>,
    after: Seq<C>,
    size: int,
    count: nat,
    wet: F,
) -> bool
    decreases count,
{
    if count == 0 {
        after == before
    } else {
        exists|mid: Seq<C>, px: int, py: int|
            {
                &&& rained(before, mid, size, (count - 1) as nat, wet)
                &&& on_grid(size, px, py)
                &&& #[trigger] drop_applied(mid, after, size, px, py, wet)
            }
    }
}

/// Whether `holds_water` has found water in a cell of `cells`.
pub open spec fn found_water<C, F: Fn(&C) -> bool>(cells: Seq<C>, holds_water: F) -> bool {
    exists|i: int| 0 <= i < cells.len() && call_ensures(holds_water, (&cells[i],), true)
}

/// Whether `holds_water` has found every cell of `cells` dry.
pub open spec fn found_dry<C, F: Fn(&C) -> bool>(cells: Seq<C>, holds_water: F) -> bool {
    forall|i: int| 0 <= i < cells.len() ==> call_ensures(holds_water, (&cells[i],), false)
}

/// A `size × size` arena of simulation cells of type `C`, stored row by row,
/// with the random generator that places rain drops on it.
pub struct HydraulicErosion<C> {
    rng: SmallRng,
    size: i32,
    cells: Vec<C>,
}

impl<C> HydraulicErosion<C> {
    /// The side length is positive and the arena holds one cell per grid
    /// position.
    pub closed spec fn wf(&self) -> bool {
        &&& self.size > 0
        &&& self.cells@.len() == self.size * self.size
    }

    /// The side length of the grid.
    pub closed spec fn spec_size(&self) -> int {
        self.size as int
    }

    /// The cells, row by row.
    pub closed spec fn view(&self) -> Seq<C> {
        self.cells@
    }

    /// Whether `pos` names a cell of the arena.
    pub open spec fn contains(&self, pos: [i32; 2]) -> bool {
        on_grid(self.spec_size(), pos[0] as int, pos[1] as int)
    }

    /// The cell at `pos`.
    pub open spec fn cell_at(&self, pos: [i32; 2]) -> C {
        self@[cell_index(self.spec_size(), pos[0] as int, pos[1] as int)]
    }

    /// Whether the cell at `pos` has a neighbour in direction `dir` on the
    /// grid. A cell on the border has none beyond the border: the grid does
    /// not wrap round.
    pub open spec fn has_neighbour(&self, pos: [i32; 2], dir: Direction) -> bool {
        on_grid(self.spec_size(), pos[0] + dir.spec_dx(), pos[1] + dir.spec_dy())
    }

    /// The neighbour of the cell at `pos` in direction `dir`.
    pub open spec fn neighbour_at(&self, pos: [i32; 2], dir: Direction) -> C {
        self@[cell_index(self.spec_size(), pos[0] + dir.spec_dx(), pos[1] + dir.spec_dy())]
    }

    /// What `wf` says, over the public model.
    pub proof fn lemma_shape(&self)
        requires
            self.wf(),
        ensures
            self.spec_size() > 0,
            self@.len() == self.spec_size() * self.spec_size(),
            self.spec_size() * self.spec_size() <= usize::MAX,
    {
        assert(self.cells.len() <= usize::MAX);
    }

    /// An arena with one cell per height of `height_map`, each made from its
    /// height by `seed_cell`, and with `rng` as its generator.
    pub fn new<T: Copy, F: Fn(T) -> C>(
        height_map: &HeightMap<T>,
        rng: SmallRng,
        seed_cell: F,
    ) -> (erosion: Self)
        requires
            height_map.wf(),
            forall|i: int|
                0 <= i < height_map@.len() ==> call_requires(seed_cell, (height_map@[i],)),
        ensures
            erosion.wf(),
            erosion.spec_size() == height_map.spec_size(),
            erosion@.len() == height_map@.len(),
            forall|i: int|
                0 <= i < height_map@.len() ==> call_ensures(
                    seed_cell,
                    (height_map@[i],),
                    #[trigger] erosion@[i],
                ),
    {
        proof {
            height_map.lemma_shape();
        }
        let size = height_map.get_size();
        let mut cells: Vec<C> = Vec::new();
        let mut y: i32 = 0;
        while y < size
            invariant
                height_map.wf(),
                size == height_map.spec_size(),
                size > 0,
                height_map@.len() == size * size,
                0 <= y <= size,
                cells@.len() == y * size,
                forall|i: int|
                    0 <= i < height_map@.len() ==> call_requires(seed_cell, (height_map@[i],)),
                forall|i: int|
                    0 <= i < cells@.len() ==> call_ensures(
                        seed_cell,
                        (height_map@[i],),
                        #[trigger] cells@[i],
                    ),
            decreases size - y,
        {
            let mut x: i32 = 0;
            while x < size
                invariant
                    height_map.wf(),
                    size == height_map.spec_size(),
                    size > 0,
                    height_map@.len() == size * size,
                    0 <= y < size,
                    0 <= x <= size,
                    cells@.len() == y * size + x,
                    forall|i: int|
                        0 <= i < height_map@.len() ==> call_requires(
                            seed_cell,
                            (height_map@[i],),
                        ),
                    forall|i: int|
                        0 <= i < cells@.len() ==> call_ensures(
                            seed_cell,
                            (height_map@[i],),
                            #[trigger] cells@[i],
                        ),
                decreases size - x,
            {
                let pos = [x, y];
                proof {
                    lemma_index_in_range(size as int, x as int, y as int);
                }
                let cell = seed_cell(height_map.get(&pos));
                cells.push(cell);
                x += 1;
            }
            assert((y + 1) * size == y * size + size) by (nonlinear_arith);
            y += 1;
        }
        HydraulicErosion { rng, size, cells }
    }

    /// A height map of resolution 1 with one height per cell, each read off
    /// its cell by `terrain_height`.
    pub fn create_heightmap<T: Copy, F: Fn(&C) -> T>(&self, terrain_height: F) -> (map: HeightMap<
        T,
    >)
        requires
            self.wf(),
            forall|i: int| 0 <= i < self@.len() ==> call_requires(terrain_height, (&self@[i],)),
        ensures
            map.wf(),
            map.spec_size() == self.spec_size(),
            map.spec_resolution() == 1,
            map@.len() == self@.len(),
            forall|i: int|
                0 <= i < self@.len() ==> call_ensures(
                    terrain_height,
                    (&self@[i],),
                    #[trigger] map@[i],
                ),
    {
        proof {
            self.lemma_shape();
            lemma_index_in_range(self.size as int, 0, 0);
        }
        let size = self.size;
        let first = terrain_height(&self.cells[0]);
        let mut map = HeightMap::filled(size, 1, first);
        let mut y: i32 = 0;
        while y < size
            invariant
                self.wf(),
                size == self.spec_size(),
                size > 0,
                map.wf(),
                map.spec_size() == size,
                map.spec_resolution() == 1,
                map@.len() == self@.len(),
                self@.len() == size * size,
                0 <= y <= size,
                forall|i: int| 0 <= i < self@.len() ==> call_requires(terrain_height, (&self@[i],)),
                forall|i: int|
                    0 <= i < y * size ==> call_ensures(
                        terrain_height,
                        (&self@[i],),
                        #[trigger] map@[i],
                    ),
            decreases size - y,
        {
            let mut x: i32 = 0;
            while x < size
                invariant
                    self.wf(),
                    size == self.spec_size(),
                    size > 0,
                    map.wf(),
                    map.spec_size() == size,
                    map.spec_resolution() == 1,
                    map@.len() == self@.len(),
                    self@.len() == size * size,
                    0 <= y < size,
                    0 <= x <= size,
                    forall|i: int|
                        0 <= i < self@.len() ==> call_requires(terrain_height, (&self@[i],)),
                    forall|i: int|
                        0 <= i < y * size + x ==> call_ensures(
                            terrain_height,
                            (&self@[i],),
                            #[trigger] map@[i],
                        ),
                decreases size - x,
            {
                let pos = [x, y];
                proof {
                    lemma_index_in_range(size as int, x as int, y as int);
                }
                let height = terrain_height(self.get_cell(&pos));
                map.set(&pos, height);
                x += 1;
            }
            assert((y + 1) * size == y * size + size) by (nonlinear_arith);
            y += 1;
        }
        map
    }

    /// Whether `holds_water` finds water in any cell.
    pub fn has_water<F: Fn(&C) -> bool>(&self, holds_water: &F) -> (wet: bool)
        requires
            self.wf(),
            forall|i: int| 0 <= i < self@.len() ==> call_requires(*holds_water, (&self@[i],)),
        ensures
            wet ==> found_water(self@, *holds_water),
            !wet ==> found_dry(self@, *holds_water),
    {
        let mut i: usize = 0;
        while i < self.cells.len()
            invariant
                0 <= i <= self@.len(),
                forall|j: int| 0 <= j < self@.len() ==> call_requires(*holds_water, (&self@[j],)),
                forall|j: int| 0 <= j < i ==> call_ensures(*holds_water, (&self@[j],), false),
            decreases self@.len() - i,
        {
            if holds_water(&self.cells[i]) {
                return true;
            }
            i += 1;
        }
        false
    }

    pub fn get_size(&self) -> (size: i32)
        ensures
            size == self.spec_size(),
    {
        self.size
    }

    /// Whether `pos` names a cell of the arena.
    pub fn in_boundary(&self, pos: &[i32; 2]) -> (inside: bool)
        ensures
            inside == self.contains(*pos),
    {
        in_boundary(self.size, pos)
    }

    /// The place of the cell at `pos` in the row-by-row order.
    pub fn pos_to_index(&self, pos: &[i32; 2]) -> (index: usize)
        requires
            self.wf(),
            self.contains(*pos),
        ensures
            index == cell_index(self.spec_size(), pos[0] as int, pos[1] as int),
            index < self@.len(),
    {
        assert(self.cells.len() <= usize::MAX);
        pos_to_index(self.size, pos)
    }

    /// The cell at `pos`.
    pub fn get_cell(&self, pos: &[i32; 2]) -> (cell: &C)
        requires
            self.wf(),
            self.contains(*pos),
        ensures
            *cell == self.cell_at(*pos),
    {
        let index = self.pos_to_index(pos);
        &self.cells[index]
    }

    /// The cell at `pos`, to be changed in place: every other cell stays as
    /// it is.
    pub fn get_cell_mut(&mut self, pos: &[i32; 2]) -> (cell: &mut C)
        requires
            old(self).wf(),
            old(self).contains(*pos),
        ensures
            *cell == old(self).cell_at(*pos),
            final(self).wf(),
            final(self).spec_size() == old(self).spec_size(),
            final(self)@ == old(self)@.update(
                cell_index(old(self).spec_size(), pos[0] as int, pos[1] as int),
                *final(cell),
            ),
    {
        let index = self.pos_to_index(pos);
        &mut self.cells[index]
    }

    /// The neighbour of the cell at `pos` in direction `dir`, or `None` where
    /// the grid ends.
    pub fn get_neighbour(&self, pos: &[i32; 2], dir: Direction) -> (nb: Option<&C>)
        requires
            self.wf(),
            self.contains(*pos),
        ensures
            nb.is_some() == self.has_neighbour(*pos, dir),
            nb matches Some(cell) ==> *cell == self.neighbour_at(*pos, dir),
    {
        let nb_pos = get_neighbour_pos(pos, dir);
        if self.in_boundary(&nb_pos) {
            Some(self.get_cell(&nb_pos))
        } else {
            None
        }
    }

    /// The neighbour of the cell at `pos` in direction `dir`, to be changed in
    /// place, or `None` where the grid ends; every other cell stays as it is.
    pub fn get_neighbour_mut(&mut self, pos: &[i32; 2], dir: Direction) -> (nb: Option<&mut C>)
        requires
            old(self).wf(),
            old(self).contains(*pos),
        ensures
            nb.is_some() == old(self).has_neighbour(*pos, dir),
            final(self).wf(),
            final(self).spec_size() == old(self).spec_size(),
            match nb {
                Some(cell) => {
                    &&& *cell == old(self).neighbour_at(*pos, dir)
                    &&& final(self)@ == old(self)@.update(
                        cell_index(
                            old(self).spec_size(),
                            pos[0] + dir.spec_dx(),
                            pos[1] + dir.spec_dy(),
                        ),
                        *final(cell),
                    )
                },
                None => final(self)@ == old(self)@,
            },
    {
        let nb_pos = get_neighbour_pos(pos, dir);
        if self.in_boundary(&nb_pos) {
            Some(self.get_cell_mut(&nb_pos))
        } else {
            None
        }
    }

    /// Runs one phase of a tick over the whole grid: `next_cell` computes the
    /// new value of every cell from the arena as it was before the phase, so
    /// that no cell sees a value that the same phase has written.
    pub fn apply_phase<F: Fn(&HydraulicErosion<C>, [i32; 2]) -> C>(&mut self, next_cell: F)
        requires
            old(self).wf(),
            forall|pos: [i32; 2]|
                old(self).contains(pos) ==> call_requires(next_cell, (&*old(self), pos)),
        ensures
            Self::phase_applied(*old(self), *final(self), next_cell),
    {
        proof {
            self.lemma_shape();
        }
        let size = self.size;
        let mut cells: Vec<C> = Vec::new();
        let mut y: i32 = 0;
        while y < size
            invariant
                *self == *old(self),
                self.wf(),
                size == self.spec_size(),
                size > 0,
                0 <= y <= size,
                cells@.len() == y * size,
                forall|pos: [i32; 2]|
                    self.contains(pos) ==> call_requires(next_cell, (&*self, pos)),
                forall|pos: [i32; 2]|
                    self.contains(pos) && cell_index(size as int, pos[0] as int, pos[1] as int)
                        < cells@.len() ==> call_ensures(
                        next_cell,
                        (&*self, pos),
                        #[trigger] cells@[cell_index(size as int, pos[0] as int, pos[1] as int)],
                    ),
            decreases size - y,
        {
            let mut x: i32 = 0;
            while x < size
                invariant
                    *self == *old(self),
                    self.wf(),
                    size == self.spec_size(),
                    size > 0,
                    0 <= y < size,
                    0 <= x <= size,
                    cells@.len() == y * size + x,
                    forall|pos: [i32; 2]|
                        self.contains(pos) ==> call_requires(next_cell, (&*self, pos)),
                    forall|pos: [i32; 2]|
                        self.contains(pos) && cell_index(size as int, pos[0] as int, pos[1] as int)
                            < cells@.len() ==> call_ensures(
                            next_cell,
                            (&*self, pos),
                            #[trigger] cells@[cell_index(
                                size as int,
                                pos[0] as int,
                                pos[1] as int,
                            )],
                        ),
                decreases size - x,
            {
                let pos = [x, y];
                let ghost before = cells@;
                assert(self.contains(pos));
                let cell = next_cell(&*self, pos);
                cells.push(cell);
                proof {
                    assert forall|other: [i32; 2]|
                        self.contains(other) && cell_index(
                            size as int,
                            other[0] as int,
                            other[1] as int,
                        ) < cells@.len() implies call_ensures(
                        next_cell,
                        (&*self, other),
                        #[trigger] cells@[cell_index(
                            size as int,
                            other[0] as int,
                            other[1] as int,
                        )],
                    ) by {
                        let at = cell_index(size as int, other[0] as int, other[1] as int);
                        if at == before.len() {
                            lemma_index_injective(
                                size as int,
                                other[0] as int,
                                other[1] as int,
                                x as int,
                                y as int,
                            );
                            assert(other =~= pos);
                        } else {
                            assert(cells@[at] == before[at]);
                        }
                    }
                }
                x += 1;
            }
            assert((y + 1) * size == y * size + size) by (nonlinear_arith);
            y += 1;
        }
        proof {
            assert forall|pos: [i32; 2]| self.contains(pos) implies cell_index(
                size as int,
                pos[0] as int,
                pos[1] as int,
            ) < cells@.len() by {
                lemma_index_in_range(size as int, pos[0] as int, pos[1] as int);
            }
        }
        self.cells = cells;
    }

    /// The cell at `(x, y)`, or `None` where `(x, y)` lies off the grid.
    pub open spec fn cell_or_none(&self, x: int, y: int) -> Option<C> {
        if on_grid(self.spec_size(), x, y) {
            Some(self@[cell_index(self.spec_size(), x, y)])
        } else {
            None
        }
    }

    /// The cell at `(x, y)`, or `None` where `(x, y)` lies off the grid.
    fn try_cell(&self, x: i64, y: i64) -> (cell: Option<&C>)
        requires
            self.wf(),
        ensures
            match cell {
                Some(found) => self.cell_or_none(x as int, y as int) == Some(*found),
                None => self.cell_or_none(x as int, y as int).is_none(),
            },
    {
        if 0 <= x && x < self.size as i64 && 0 <= y && y < self.size as i64 {
            let pos = [x as i32, y as i32];
            Some(self.get_cell(&pos))
        } else {
            None
        }
    }

    /// The four cells that enclose a point whose coordinates round down to
    /// `root`: those at `root`, one above, one to the right, and one above
    /// and to the right. A corner that lies off the grid is `None`.
    pub fn get_enclosing_cells(&self, root: &[i32; 2]) -> (corners: [Option<&C>; 4])
        requires
            self.wf(),
        ensures
            corners[0].is_some() == self.cell_or_none(root[0] as int, root[1] as int).is_some(),
            corners[1].is_some() == self.cell_or_none(root[0] as int, root[1] + 1).is_some(),
            corners[2].is_some() == self.cell_or_none(root[0] + 1, root[1] as int).is_some(),
            corners[3].is_some() == self.cell_or_none(root[0] + 1, root[1] + 1).is_some(),
            corners[0] matches Some(c) ==> self.cell_or_none(root[0] as int, root[1] as int)
                == Some(*c),
            corners[1] matches Some(c) ==> self.cell_or_none(root[0] as int, root[1] + 1) == Some(
                *c,
            ),
            corners[2] matches Some(c) ==> self.cell_or_none(root[0] + 1, root[1] as int) == Some(
                *c,
            ),
            corners[3] matches Some(c) ==> self.cell_or_none(root[0] + 1, root[1] + 1) == Some(*c),
    {
        let x: i64 = root[0] as i64;
        let y: i64 = root[1] as i64;
        [
            self.try_cell(x, y),
            self.try_cell(x, y + 1),
            self.try_cell(x + 1, y),
            self.try_cell(x + 1, y + 1),
        ]
    }

    /// Puts `cell` at `pos` and leaves every other cell as it is.
    pub fn set_cell(&mut self, pos: &[i32; 2], cell: C)
        requires
            old(self).wf(),
            old(self).contains(*pos),
        ensures
            final(self).wf(),
            final(self).spec_size() == old(self).spec_size(),
            final(self)@ == old(self)@.update(
                cell_index(old(self).spec_size(), pos[0] as int, pos[1] as int),
                cell,
            ),
    {
        let index = self.pos_to_index(pos);
        self.cells.set(index, cell);
    }

    /// Replaces the cell at `pos` by what `wet` makes of it.
    fn wet_cell<F: Fn(&C, bool) -> C>(&mut self, pos: &[i32; 2], centre: bool, wet: &F)
        requires
            old(self).wf(),
            old(self).contains(*pos),
            call_requires(*wet, (&old(self).cell_at(*pos), centre)),
        ensures
            final(self).wf(),
            final(self).spec_size() == old(self).spec_size(),
            final(self)@ == old(self)@.update(
                cell_index(old(self).spec_size(), pos[0] as int, pos[1] as int),
                final(self).cell_at(*pos),
            ),
            call_ensures(*wet, (&old(self).cell_at(*pos), centre), final(self).cell_at(*pos)),
    {
        proof {
            self.lemma_shape();
            lemma_index_in_range(self.size as int, pos[0] as int, pos[1] as int);
        }
        let cell = wet(self.get_cell(pos), centre);
        self.set_cell(pos, cell);
    }

    /// Lets one rain drop fall at `pos`: `wet` replaces the cell there as the
    /// centre of the drop and each neighbour on the grid as a neighbour.
    pub fn add_water_drop_at<F: Fn(&C, bool) -> C>(&mut self, pos: &[i32; 2], wet: &F)
        requires
            old(self).wf(),
            old(self).contains(*pos),
            forall|i: int, centre: bool|
                0 <= i < old(self)@.len() ==> call_requires(*wet, (&old(self)@[i], centre)),
        ensures
            final(self).wf(),
            final(self).spec_size() == old(self).spec_size(),
            drop_applied(
                old(self)@,
                final(self)@,
                old(self).spec_size(),
                pos[0] as int,
                pos[1] as int,
                *wet,
            ),
    {
        let ghost size = self.size as int;
        let ghost px = pos[0] as int;
        let ghost py = pos[1] as int;
        proof {
            self.lemma_shape();
            lemma_index_in_range(size, px, py);
        }
        self.wet_cell(pos, true, wet);
        proof {
            assert forall|x: int, y: int| on_grid(size, x, y) implies {
                let i = #[trigger] cell_index(size, x, y);
                if x == px && y == py {
                    call_ensures(*wet, (&old(self)@[i], true), self@[i])
                } else {
                    self@[i] == old(self)@[i]
                }
            } by {
                lemma_index_in_range(size, x, y);
                if cell_index(size, x, y) == cell_index(size, px, py) {
                    lemma_index_injective(size, x, y, px, py);
                }
            }
        }
        let mut k: usize = 0;
        while k < 4
            invariant
                0 <= k <= 4,
                self.wf(),
                old(self).wf(),
                size == self.spec_size(),
                size == old(self).spec_size(),
                px == pos[0],
                py == pos[1],
                on_grid(size, px, py),
                self@.len() == old(self)@.len(),
                forall|i: int, centre: bool|
                    0 <= i < old(self)@.len() ==> call_requires(*wet, (&old(self)@[i], centre)),
                forall|x: int, y: int|
                    on_grid(size, x, y) ==> {
                        let i = #[trigger] cell_index(size, x, y);
                        if x == px && y == py {
                            call_ensures(*wet, (&old(self)@[i], true), self@[i])
                        } else if neighbour_rank(px, py, x, y) < k {
                            call_ensures(*wet, (&old(self)@[i], false), self@[i])
                        } else {
                            self@[i] == old(self)@[i]
                        }
                    },
            decreases 4 - k,
        {
            let dir = NEIGHBOURS[k];
            let nb_pos = get_neighbour_pos(pos, dir);
            let ghost mid = self@;
            if self.in_boundary(&nb_pos) {
                let ghost nx = nb_pos[0] as int;
                let ghost ny = nb_pos[1] as int;
                proof {
                    lemma_index_in_range(size, nx, ny);
                    assert(neighbour_rank(px, py, nx, ny) == k);
                    assert(mid[cell_index(size, nx, ny)] == old(self)@[cell_index(size, nx, ny)]);
                }
                self.wet_cell(&nb_pos, false, wet);
                proof {
                    assert forall|x: int, y: int| on_grid(size, x, y) implies {
                        let i = #[trigger] cell_index(size, x, y);
                        if x == px && y == py {
                            call_ensures(*wet, (&old(self)@[i], true), self@[i])
                        } else if neighbour_rank(px, py, x, y) < k + 1 {
                            call_ensures(*wet, (&old(self)@[i], false), self@[i])
                        } else {
                            self@[i] == old(self)@[i]
                        }
                    } by {
                        lemma_index_in_range(size, x, y);
                        if cell_index(size, x, y) == cell_index(size, nx, ny) {
                            lemma_index_injective(size, x, y, nx, ny);
                        }
                    }
                }
            } else {
                proof {
                    assert forall|x: int, y: int| on_grid(size, x, y) implies neighbour_rank(
                        px,
                        py,
                        x,
                        y,
                    ) != k by {}
                }
            }
            k += 1;
        }
    }

    /// Lets one rain drop fall at a position drawn from the arena's own
    /// generator, and says where it fell.
    pub fn add_water_drop<F: Fn(&C, bool) -> C>(&mut self, wet: &F) -> (pos: [i32; 2])
        requires
            old(self).wf(),
            forall|i: int, centre: bool|
                0 <= i < old(self)@.len() ==> call_requires(*wet, (&old(self)@[i], centre)),
        ensures
            final(self).wf(),
            final(self).spec_size() == old(self).spec_size(),
            old(self).contains(pos),
            drop_applied(
                old(self)@,
                final(self)@,
                old(self).spec_size(),
                pos[0] as int,
                pos[1] as int,
                *wet,
            ),
    {
        let pos = self.get_random_pos();
        self.add_water_drop_at(&pos, wet);
        pos
    }

    /// Lets `drop_count` rain drops fall, each at a position drawn from the
    /// arena's own generator.
    pub fn rain<F: Fn(&C, bool) -> C>(&mut self, drop_count: u32, wet: &F)
        requires
            old(self).wf(),
            forall|cell: C, centre: bool| call_requires(*wet, (&cell, centre)),
        ensures
            final(self).wf(),
            final(self).spec_size() == old(self).spec_size(),
            rained(old(self)@, final(self)@, old(self).spec_size(), drop_count as nat, *wet),
    {
        let mut fallen: u32 = 0;
        while fallen < drop_count
            invariant
                0 <= fallen <= drop_count,
                self.wf(),
                self.spec_size() == old(self).spec_size(),
                forall|cell: C, centre: bool| call_requires(*wet, (&cell, centre)),
                rained(old(self)@, self@, old(self).spec_size(), fallen as nat, *wet),
            decreases drop_count - fallen,
        {
            let ghost mid = self@;
            let pos = self.add_water_drop(wet);
            proof {
                assert(drop_applied(
                    mid,
                    self@,
                    old(self).spec_size(),
                    pos[0] as int,
                    pos[1] as int,
                    *wet,
                ));
            }
            fallen += 1;
        }
    }

    /// Whether `after` is what `ticks` ticks make of `before`, each run on an
    /// arena in which `holds_water` had found water.
    pub open spec fn ran_ticks<W: Fn(&C) -> bool, K: Fn(Self) -> Self>(
        before: Self,
        after: Self,
        ticks: nat,
        holds_water: W,
        tick: K,
    ) -> bool
        decreases ticks,
    {
        if ticks == 0 {
            after == before
        } else {
            exists|mid: Self|
                {
                    &&& Self::ran_ticks(before, mid, (ticks - 1) as nat, holds_water, tick)
                    &&& found_water(mid@, holds_water)
                    &&& #[trigger] call_ensures(tick, (mid,), after)
                }
        }
    }

    /// Runs the simulation: before each tick the arena is searched for water,
    /// and the run ends when none is left or when `count` ticks have run.
    pub fn simulate<W: Fn(&C) -> bool, K: Fn(Self) -> Self>(
        self,
        count: u32,
        holds_water: &W,
        tick: &K,
    ) -> (after: Self)
        requires
            self.wf(),
            forall|cell: C| call_requires(*holds_water, (&cell,)),
            forall|arena: Self| arena.wf() ==> call_requires(*tick, (arena,)),
            forall|arena: Self, next: Self|
                arena.wf() && call_ensures(*tick, (arena,), next) ==> next.wf(),
        ensures
            after.wf(),
            exists|ticks: nat|
                {
                    &&& ticks <= count
                    &&& #[trigger] Self::ran_ticks(self, after, ticks, *holds_water, *tick)
                    &&& (ticks == count || found_dry(after@, *holds_water))
                },
    {
        let mut current = self;
        let mut done: u32 = 0;
        while done < count
            invariant
                0 <= done <= count,
                current.wf(),
                forall|cell: C| call_requires(*holds_water, (&cell,)),
                forall|arena: Self| arena.wf() ==> call_requires(*tick, (arena,)),
                forall|arena: Self, next: Self|
                    arena.wf() && call_ensures(*tick, (arena,), next) ==> next.wf(),
                Self::ran_ticks(self, current, done as nat, *holds_water, *tick),
            decreases count - done,
        {
            if !current.has_water(holds_water) {
                return current;
            }
            let ghost mid = current;
            current = tick(current);
            assert(call_ensures(*tick, (mid,), current));
            done += 1;
        }
        current
    }

    /// Whether `after` is what one phase makes of `before`: the grid keeps
    /// its size, and `next_cell` has made each cell from the arena as it was
    /// before the phase.
    pub open spec fn phase_applied<F: Fn(&Self, [i32; 2]) -> C>(
        before: Self,
        after: Self,
        next_cell: F,
    ) -> bool {
        &&& after.wf()
        &&& after.spec_size() == before.spec_size()
        &&& forall|pos: [i32; 2]|
            before.contains(pos) ==> call_ensures(
                next_cell,
                (&before, pos),
                #[trigger] after.cell_at(pos),
            )
    }

    /// Whether `next_cell` can run a phase on every arena of side `size`.
    pub open spec fn phase_ready<F: Fn(&Self, [i32; 2]) -> C>(size: int, next_cell: F) -> bool {
        forall|arena: Self, pos: [i32; 2]|
            arena.wf() && arena.spec_size() == size && arena.contains(pos) ==> call_requires(
                next_cell,
                (&arena, pos),
            )
    }

    /// Runs one tick: the six phases in their order, each over the whole grid
    /// before the next one starts, so that every phase sees what the phases
    /// before it have left and nothing of its own writing.
    pub fn tick<
        Out: Fn(&Self, [i32; 2]) -> C,
        Flow: Fn(&Self, [i32; 2]) -> C,
        Ero: Fn(&Self, [i32; 2]) -> C,
        Adv: Fn(&Self, [i32; 2]) -> C,
        Tra: Fn(&Self, [i32; 2]) -> C,
        Eva: Fn(&Self, [i32; 2]) -> C,
    >(
        &mut self,
        outflow: Out,
        waterflow: Flow,
        erosion: Ero,
        advection: Adv,
        transport: Tra,
        evaporation: Eva,
    )
        requires
            old(self).wf(),
            Self::phase_ready(old(self).spec_size(), outflow),
            Self::phase_ready(old(self).spec_size(), waterflow),
            Self::phase_ready(old(self).spec_size(), erosion),
            Self::phase_ready(old(self).spec_size(), advection),
            Self::phase_ready(old(self).spec_size(), transport),
            Self::phase_ready(old(self).spec_size(), evaporation),
        ensures
            final(self).wf(),
            final(self).spec_size() == old(self).spec_size(),
            exists|s1: Self, s2: Self, s3: Self, s4: Self, s5: Self|
                #![trigger
                    Self::phase_applied(*old(self), s1, outflow),
                    Self::phase_applied(s1, s2, waterflow),
                    Self::phase_applied(s2, s3, erosion),
                    Self::phase_applied(s3, s4, advection),
                    Self::phase_applied(s4, s5, transport),
                    Self::phase_applied(s5, *final(self), evaporation)]
                {
                    &&& Self::phase_applied(*old(self), s1, outflow)
                    &&& Self::phase_applied(s1, s2, waterflow)
                    &&& Self::phase_applied(s2, s3, erosion)
                    &&& Self::phase_applied(s3, s4, advection)
                    &&& Self::phase_applied(s4, s5, transport)
                    &&& Self::phase_applied(s5, *final(self), evaporation)
                },
    {
        self.apply_phase(outflow);
        let ghost s1 = *self;
        self.apply_phase(waterflow);
        let ghost s2 = *self;
        self.apply_phase(erosion);
        let ghost s3 = *self;
        self.apply_phase(advection);
        let ghost s4 = *self;
        self.apply_phase(transport);
        let ghost s5 = *self;
        self.apply_phase(evaporation);
        proof {
            assert(Self::phase_applied(*old(self), s1, outflow));
            assert(Self::phase_applied(s1, s2, waterflow));
            assert(Self::phase_applied(s2, s3, erosion));
            assert(Self::phase_applied(s3, s4, advection));
            assert(Self::phase_applied(s4, s5, transport));
            assert(Self::phase_applied(s5, *self, evaporation));
        }
    }

    /// A position on the grid, drawn from the arena's own generator. The
    /// cells stay as they are.
    pub fn get_random_pos(&mut self) -> (pos: [i32; 2])
        requires
            old(self).wf(),
        ensures
            final(self).wf(),
            final(self).spec_size() == old(self).spec_size(),
            final(self)@ == old(self)@,
            final(self).contains(pos),
    {
        let x = gen_range(&mut self.rng, 0, self.size);
        let y = gen_range(&mut self.rng, 0, self.size);
        [x, y]
    }
}

} // verus!
