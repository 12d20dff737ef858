//! Points of the city map.
use vstd::prelude::*;

verus! {

/// A point of the city map: `x`, then `y`.
#[derive(Clone, Copy, PartialEq, Eq, Structural, Hash, Debug)]
pub struct Point(pub i32, pub i32);

impl Point {
    pub fn new(width: i32, heigth: i32) -> (r: Self)
        ensures
            r == Point(width, heigth),
    {
        Point(width, heigth)
    }

    pub fn x(&self) -> (r: i32)
        ensures
            r == self.0,
    {
        self.0
    }

    pub fn y(&self) -> (r: i32)
        ensures
            r == self.1,
    {
        self.1
    }
}

} // verus!
