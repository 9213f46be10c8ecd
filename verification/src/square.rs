use vstd::prelude::*;

use crate::geom::Vec2V;

verus! {

/// One unit-sized cell of a piece: an axis-aligned square with its origin at
/// the top-left corner and a fixed side length.
#[derive(Debug, Clone, Copy, PartialEq, Eq, Structural)]
pub struct Square {
    pub x: i64,
    pub y: i64,
    pub size: i64,
}

/// Mathematical model of a cell.
#[verifier::ext_equal]
pub ghost struct SquareV {
    pub x: int,
    pub y: int,
    pub size: int,
}

impl View for Square {
    type V = SquareV;

    open spec fn view(&self) -> SquareV {
        SquareV { x: self.x as int, y: self.y as int, size: self.size as int }
    }
}

impl SquareV {
    pub open spec fn left(self) -> int {
        self.x
    }

    pub open spec fn right(self) -> int {
        self.x + self.size
    }

    pub open spec fn top(self) -> int {
        self.y
    }

    pub open spec fn bottom(self) -> int {
        self.y + self.size
    }

    /// The square shifted by a displacement.
    pub open spec fn translated(self, d: Vec2V) -> SquareV {
        SquareV { x: self.x + d.x, y: self.y + d.y, size: self.size }
    }
}

impl Square {
    pub fn new(x: i64, y: i64, size: i64) -> (s: Square)
        ensures
            s@ == (SquareV { x: x as int, y: y as int, size: size as int }),
    {
        Square { x, y, size }
    }

    pub fn left(&self) -> (r: i64)
        ensures
            r == self@.left(),
    {
        self.x
    }

    pub fn right(&self) -> (r: i64)
        requires
            i64::MIN <= self.x + self.size <= i64::MAX,
        ensures
            r == self@.right(),
    {
        self.x + self.size
    }

    pub fn top(&self) -> (r: i64)
        ensures
            r == self@.top(),
    {
        self.y
    }

    pub fn bottom(&self) -> (r: i64)
        requires
            i64::MIN <= self.y + self.size <= i64::MAX,
        ensures
            r == self@.bottom(),
    {
        self.y + self.size
    }
}

} // verus!
