//! The four neighbours of a grid cell.

use vstd::prelude::*;

verus! {

/// One of the four neighbours of a cell. `TOP` and `BOTTOM` lie along the
/// second axis, `RIGHT` and `LEFT` along the first.
#[allow(non_camel_case_types)]
#[derive(Clone, Copy, Debug, PartialEq, Eq, Structural)]
pub enum Direction {
    TOP,
    RIGHT,
    BOTTOM,
    LEFT,
}

/// The four directions, each at the place that its `index` gives.
pub const NEIGHBOURS: [Direction; 4] = [
    Direction::TOP,
    Direction::RIGHT,
    Direction::BOTTOM,
    Direction::LEFT,
];

impl Direction {
    /// The place of a direction in per-direction arrays: 0 for `TOP`, then
    /// clockwise.
    pub open spec fn spec_index(self) -> int {
        match self {
            Direction::TOP => 0,
            Direction::RIGHT => 1,
            Direction::BOTTOM => 2,
            Direction::LEFT => 3,
        }
    }

    /// The direction that points back.
    pub open spec fn spec_opposite(self) -> Direction {
        match self {
            Direction::TOP => Direction::BOTTOM,
            Direction::RIGHT => Direction::LEFT,
            Direction::BOTTOM => Direction::TOP,
            Direction::LEFT => Direction::RIGHT,
        }
    }

    /// The step along the first axis that leads to the neighbour.
    pub open spec fn spec_dx(self) -> int {
        match self {
            Direction::TOP => 0,
            Direction::RIGHT => 1,
            Direction::BOTTOM => 0,
            Direction::LEFT => -1,
        }
    }

    /// The step along the second axis that leads to the neighbour.
    pub open spec fn spec_dy(self) -> int {
        match self {
            Direction::TOP => 1,
            Direction::RIGHT => 0,
            Direction::BOTTOM => -1,
            Direction::LEFT => 0,
        }
    }

    /// The place of this direction in per-direction arrays.
    pub fn index(self) -> (i: usize)
        ensures
            i == self.spec_index(),
            i < 4,
    {
        match self {
            Direction::TOP => 0,
            Direction::RIGHT => 1,
            Direction::BOTTOM => 2,
            Direction::LEFT => 3,
        }
    }

    /// The direction at place `i`, if `i` is below 4.
    pub fn from_index(i: usize) -> (dir: Option<Direction>)
        ensures
            i < 4 ==> dir.is_some() && dir.unwrap().spec_index() == i,
            i >= 4 ==> dir.is_none(),
    {
        if i == 0 {
            Some(Direction::TOP)
        } else if i == 1 {
            Some(Direction::RIGHT)
        } else if i == 2 {
            Some(Direction::BOTTOM)
        } else if i == 3 {
            Some(Direction::LEFT)
        } else {
            None
        }
    }
}

/// The direction that points back from the neighbour in direction `dir`.
pub fn get_opposite_direction(dir: Direction) -> (back: Direction)
    ensures
        back == dir.spec_opposite(),
{
    match dir {
        Direction::TOP => Direction::BOTTOM,
        Direction::RIGHT => Direction::LEFT,
        Direction::BOTTOM => Direction::TOP,
        Direction::LEFT => Direction::RIGHT,
    }
}

/// The position one step from `pos` in direction `dir`.
pub fn get_neighbour_pos(pos: &[i32; 2], dir: Direction) -> (nb: [i32; 2])
    requires
        i32::MIN < pos[0] < i32::MAX,
        i32::MIN < pos[1] < i32::MAX,
    ensures
        nb[0] == pos[0] + dir.spec_dx(),
        nb[1] == pos[1] + dir.spec_dy(),
{
    match dir {
        Direction::TOP => [pos[0], pos[1] + 1],
        Direction::RIGHT => [pos[0] + 1, pos[1]],
        Direction::BOTTOM => [pos[0], pos[1] - 1],
        Direction::LEFT => [pos[0] - 1, pos[1]],
    }
}

/// Turning round twice gives the direction one started with, and the opposite
/// direction is never the direction itself.
pub proof fn lemma_opposite_involution(dir: Direction)
    ensures
        dir.spec_opposite().spec_opposite() == dir,
        dir.spec_opposite() != dir,
{
}

/// The step of the opposite direction undoes the step of the direction: from
/// a cell's neighbour, the opposite direction leads back to the cell.
pub proof fn lemma_opposite_leads_back(dir: Direction)
    ensures
        dir.spec_dx() + dir.spec_opposite().spec_dx() == 0,
        dir.spec_dy() + dir.spec_opposite().spec_dy() == 0,
{
}

/// Every step moves by exactly one cell along exactly one axis.
pub proof fn lemma_unit_step(dir: Direction)
    ensures
        dir.spec_dx() * dir.spec_dx() + dir.spec_dy() * dir.spec_dy() == 1,
{
}

/// `NEIGHBOURS` lists each direction at the place of its index, and two
/// directions with the same index are the same direction.
pub proof fn lemma_neighbours_by_index(a: Direction, b: Direction)
    ensures
        NEIGHBOURS[a.spec_index()] == a,
        a.spec_index() == b.spec_index() ==> a == b,
{
}

} // verus!
