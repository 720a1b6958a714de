//! The capability that terrain is seeded from.

use vstd::prelude::*;

verus! {

/// A scalar field over the world, with values of type `T`. A field answers
/// for any point and gives the same value whenever it is asked for the same
/// point.
pub trait Noise<T> {
    /// The value of the field at `point`.
    fn get_noise(&self, point: [i64; 2]) -> T;

    /// The least and the greatest value that the field takes.
    fn get_range(&self) -> [T; 2];
}

} // verus!
