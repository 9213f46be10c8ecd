use vstd::prelude::*;

verus! {

/// Greatest magnitude allowed for a coordinate of a piece's pivot or of the
/// playing field's rectangle. Every transform of the crate moves geometry by
/// at most a few cell sizes past these values, so keeping pivots and field
/// edges inside this range keeps all coordinate arithmetic inside `i64`.
pub const WORLD_BOUND: i64 = 1_000_000_000_000;

/// A point or displacement in continuous field coordinates.
#[derive(Debug, Clone, Copy, PartialEq, Eq, Structural)]
pub struct Vec2i {
    pub x: i64,
    pub y: i64,
}

/// Mathematical model of a point: the same pair, over unbounded integers.
#[verifier::ext_equal]
pub ghost struct Vec2V {
    pub x: int,
    pub y: int,
}

impl View for Vec2i {
    type V = Vec2V;

    open spec fn view(&self) -> Vec2V {
        Vec2V { x: self.x as int, y: self.y as int }
    }
}

impl Vec2V {
    /// The point lies in the world range on both axes.
    pub open spec fn in_world(self) -> bool {
        &&& -WORLD_BOUND <= self.x <= WORLD_BOUND
        &&& -WORLD_BOUND <= self.y <= WORLD_BOUND
    }
}

impl Vec2i {
    pub fn new(x: i64, y: i64) -> (v: Vec2i)
        ensures
            v@ == (Vec2V { x: x as int, y: y as int }),
    {
        Vec2i { x, y }
    }

    /// The componentwise negation, used to undo a translation.
    pub fn negated(&self) -> (v: Vec2i)
        requires
            self.x != i64::MIN,
            self.y != i64::MIN,
        ensures
            v@ == (Vec2V { x: -self@.x, y: -self@.y }),
    {
        Vec2i { x: -self.x, y: -self.y }
    }
}

/// An axis-aligned rectangle in continuous field coordinates: origin at its
/// top-left corner, extending `w` to the right and `h` downwards.
#[derive(Debug, Clone, Copy, PartialEq, Eq, Structural)]
pub struct Rect {
    pub x: i64,
    pub y: i64,
    pub w: i64,
    pub h: i64,
}

/// Mathematical model of a rectangle.
#[verifier::ext_equal]
pub ghost struct RectV {
    pub x: int,
    pub y: int,
    pub w: int,
    pub h: int,
}

impl View for Rect {
    type V = RectV;

    open spec fn view(&self) -> RectV {
        RectV { x: self.x as int, y: self.y as int, w: self.w as int, h: self.h as int }
    }
}

impl RectV {
    pub open spec fn left(self) -> int {
        self.x
    }

    pub open spec fn right(self) -> int {
        self.x + self.w
    }

    pub open spec fn top(self) -> int {
        self.y
    }

    pub open spec fn bottom(self) -> int {
        self.y + self.h
    }

    /// Non-negative extents, with every edge inside the world range.
    pub open spec fn in_world(self) -> bool {
        &&& 0 <= self.w
        &&& 0 <= self.h
        &&& -WORLD_BOUND <= self.x
        &&& self.x + self.w <= WORLD_BOUND
        &&& -WORLD_BOUND <= self.y
        &&& self.y + self.h <= WORLD_BOUND
    }
}

impl Rect {
    pub fn new(x: i64, y: i64, w: i64, h: i64) -> (r: Rect)
        ensures
            r@ == (RectV { x: x as int, y: y as int, w: w as int, h: h as int }),
    {
        Rect { x, y, w, h }
    }

    pub fn left(&self) -> (r: i64)
        ensures
            r == self@.left(),
    {
        self.x
    }

    pub fn right(&self) -> (r: i64)
        requires
            i64::MIN <= self.x + self.w <= i64::MAX,
        ensures
            r == self@.right(),
    {
        self.x + self.w
    }

    pub fn top(&self) -> (r: i64)
        ensures
            r == self@.top(),
    {
        self.y
    }

    pub fn bottom(&self) -> (r: i64)
        requires
            i64::MIN <= self.y + self.h <= i64::MAX,
        ensures
            r == self@.bottom(),
    {
        self.y + self.h
    }
}

} // verus!
