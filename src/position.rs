//! Grid positions, 4-neighbour adjacency and the Manhattan metric.
use vstd::prelude::*;

verus! {

/// Absolute difference of two integers.
pub open spec fn abs_diff(a: int, b: int) -> nat {
    if a >= b {
        (a - b) as nat
    } else {
        (b - a) as nat
    }
}

/// Manhattan distance between two positions, as a mathematical integer.
pub open spec fn manhattan(a: Position, b: Position) -> nat {
    abs_diff(a.x as int, b.x as int) + abs_diff(a.y as int, b.y as int)
}

/// Two cells are adjacent when they share a side.
pub open spec fn adjacent(a: Position, b: Position) -> bool {
    manhattan(a, b) == 1
}

/// A cell of the grid.
#[derive(Clone, Copy, PartialEq, Eq, Structural, Hash, Debug)]
pub struct Position {
    pub x: i64,
    pub y: i64,
}

impl Position {
    /// The cells that share a side with this one. At the border of the `i64`
    /// range only the neighbours that exist are returned.
    pub fn neighbors(&self) -> (r: Vec<Position>)
        ensures
            r@.len() <= 4,
            r@.no_duplicates(),
            forall|p: Position| r@.contains(p) <==> adjacent(*self, p),
    {
        let mut r: Vec<Position> = Vec::new();
        if self.x > i64::MIN {
            r.push(Position { x: self.x - 1, y: self.y });
        }
        if self.x < i64::MAX {
            r.push(Position { x: self.x + 1, y: self.y });
        }
        if self.y > i64::MIN {
            r.push(Position { x: self.x, y: self.y - 1 });
        }
        if self.y < i64::MAX {
            r.push(Position { x: self.x, y: self.y + 1 });
        }
        assert forall|p: Position| r@.contains(p) <==> adjacent(*self, p) by {
            let a: int = if self.x > i64::MIN { 1 } else { 0 };
            let b: int = if self.x < i64::MAX { 1 } else { 0 };
            let c: int = if self.y > i64::MIN { 1 } else { 0 };
            if adjacent(*self, p) {
                if p.x < self.x {
                    assert(r@[0] == p);
                } else if p.x > self.x {
                    assert(r@[a] == p);
                } else if p.y < self.y {
                    assert(r@[a + b] == p);
                } else {
                    assert(r@[a + b + c] == p);
                }
            }
        }
        r
    }

    /// Exact Manhattan distance; it always fits in a `u128`.
    pub fn manhattan_to(&self, other: &Position) -> (r: u128)
        ensures
            r as int == manhattan(*self, *other),
    {
        let dx: i128 = other.x as i128 - self.x as i128;
        let dy: i128 = other.y as i128 - self.y as i128;
        let ax: u128 = if dx >= 0 { dx as u128 } else { (-dx) as u128 };
        let ay: u128 = if dy >= 0 { dy as u128 } else { (-dy) as u128 };
        ax + ay
    }

    /// Manhattan distance, for positions whose distance fits in a `u32`.
    pub fn distance(&self, position: &Position) -> (r: u32)
        requires
            manhattan(*self, *position) <= u32::MAX,
        ensures
            r as int == manhattan(*self, *position),
    {
        self.manhattan_to(position) as u32
    }

    /// Whether `other` shares a side with this cell.
    pub fn is_adjacent(&self, other: &Position) -> (r: bool)
        ensures
            r == adjacent(*self, *other),
    {
        self.manhattan_to(other) == 1
    }
}

/// The metric is symmetric.
pub proof fn lemma_manhattan_symmetric(a: Position, b: Position)
    ensures
        manhattan(a, b) == manhattan(b, a),
{
}

} // verus!
