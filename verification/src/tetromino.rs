use vstd::prelude::*;

use crate::SEGMENT_SIZE;
use crate::geom::{Vec2i, Vec2V};
use crate::square::{Square, SquareV};

verus! {

/// The seven one-sided tetromino shapes.
#[derive(Debug, Clone, Copy, PartialEq, Eq, Structural)]
pub enum Shape {
    I,
    O,
    T,
    J,
    L,
    S,
    Z,
}

/// The fixed table of the four cell-origin offsets from the pivot for each
/// shape. The entries reproduce the conventional one-sided tetromino
/// layouts: e.g. the I shape is a horizontal row starting two cells left and
/// one cell up from the pivot, and the O shape a 2-by-2 block whose lower
/// right cell sits on the pivot.
pub open spec fn v_offsets(shape: Shape) -> Seq<Vec2V> {
    let s = SEGMENT_SIZE as int;
    let h = SEGMENT_SIZE as int / 2;
    match shape {
        Shape::I => seq![
            Vec2V { x: -2 * s, y: -s },
            Vec2V { x: -s, y: -s },
            Vec2V { x: 0, y: -s },
            Vec2V { x: s, y: -s },
        ],
        Shape::O => seq![
            Vec2V { x: -s, y: -s },
            Vec2V { x: 0, y: -s },
            Vec2V { x: -s, y: 0 },
            Vec2V { x: 0, y: 0 },
        ],
        Shape::T => seq![
            Vec2V { x: -h, y: -s - h },
            Vec2V { x: -h, y: -h },
            Vec2V { x: s - h, y: -h },
            Vec2V { x: -s - h, y: -h },
        ],
        Shape::J => seq![
            Vec2V { x: -s - h, y: -s - h },
            Vec2V { x: -s - h, y: -h },
            Vec2V { x: -h, y: -h },
            Vec2V { x: s - h, y: -h },
        ],
        Shape::L => seq![
            Vec2V { x: -s - h, y: -h },
            Vec2V { x: -h, y: -h },
            Vec2V { x: s - h, y: -h },
            Vec2V { x: s - h, y: -s - h },
        ],
        Shape::S => seq![
            Vec2V { x: -h, y: -s - h },
            Vec2V { x: s - h, y: -s - h },
            Vec2V { x: -s - h, y: -h },
            Vec2V { x: -h, y: -h },
        ],
        Shape::Z => seq![
            Vec2V { x: -s - h, y: -s - h },
            Vec2V { x: -h, y: -s - h },
            Vec2V { x: -h, y: -h },
            Vec2V { x: s - h, y: -h },
        ],
    }
}

/// The four cells of `shape` laid out around `pivot`, as mathematical cells.
pub open spec fn v_layout(shape: Shape, pivot: Vec2V) -> Seq<SquareV> {
    v_offsets(shape).map_values(
        |o: Vec2V| SquareV { x: pivot.x + o.x, y: pivot.y + o.y, size: SEGMENT_SIZE as int },
    )
}

impl Shape {
    /// Lays the shape's four cells out around `position`, each of the fixed
    /// unit size, following the shape's own fixed offset sequence.
    pub fn segments(&self, position: Vec2i) -> (r: [Square; 4])
        requires
            position@.in_world(),
        ensures
            forall|i: int| 0 <= i < 4 ==> (#[trigger] r@[i])@ == v_layout(*self, position@)[i],
    {
        let s0: Square;
        let s1: Square;
        let s2: Square;
        let s3: Square;

        match self {
            Shape::I => {
                s0 = Square::new(
                    position.x - 2 * SEGMENT_SIZE,
                    position.y - SEGMENT_SIZE,
                    SEGMENT_SIZE,
                );
                s1 = Square::new(s0.right(), s0.top(), SEGMENT_SIZE);
                s2 = Square::new(s1.right(), s0.top(), SEGMENT_SIZE);
                s3 = Square::new(s2.right(), s0.top(), SEGMENT_SIZE);
            },
            Shape::O => {
                s0 = Square::new(position.x - SEGMENT_SIZE, position.y - SEGMENT_SIZE, SEGMENT_SIZE);
                s1 = Square::new(s0.right(), s0.top(), SEGMENT_SIZE);
                s2 = Square::new(s0.left(), s0.bottom(), SEGMENT_SIZE);
                s3 = Square::new(s0.right(), s0.bottom(), SEGMENT_SIZE);
            },
            Shape::T => {
                s0 = Square::new(
                    position.x - SEGMENT_SIZE / 2,
                    position.y - SEGMENT_SIZE - SEGMENT_SIZE / 2,
                    SEGMENT_SIZE,
                );
                s1 = Square::new(s0.left(), s0.bottom(), SEGMENT_SIZE);
                s2 = Square::new(s1.right(), s1.top(), SEGMENT_SIZE);
                s3 = Square::new(s1.left() - SEGMENT_SIZE, s1.top(), SEGMENT_SIZE);
            },
            Shape::J => {
                s0 = Square::new(
                    position.x - SEGMENT_SIZE - SEGMENT_SIZE / 2,
                    position.y - SEGMENT_SIZE - SEGMENT_SIZE / 2,
                    SEGMENT_SIZE,
                );
                s1 = Square::new(s0.left(), s0.bottom(), SEGMENT_SIZE);
                s2 = Square::new(s1.right(), s1.top(), SEGMENT_SIZE);
                s3 = Square::new(s2.right(), s2.top(), SEGMENT_SIZE);
            },
            Shape::L => {
                s0 = Square::new(
                    position.x - SEGMENT_SIZE - SEGMENT_SIZE / 2,
                    position.y - SEGMENT_SIZE / 2,
                    SEGMENT_SIZE,
                );
                s1 = Square::new(s0.right(), s0.top(), SEGMENT_SIZE);
                s2 = Square::new(s1.right(), s1.top(), SEGMENT_SIZE);
                s3 = Square::new(s2.left(), s2.top() - SEGMENT_SIZE, SEGMENT_SIZE);
            },
            Shape::S => {
                s0 = Square::new(
                    position.x - SEGMENT_SIZE / 2,
                    position.y - SEGMENT_SIZE - SEGMENT_SIZE / 2,
                    SEGMENT_SIZE,
                );
                s1 = Square::new(s0.right(), s0.top(), SEGMENT_SIZE);
                s2 = Square::new(s0.left() - SEGMENT_SIZE, s0.bottom(), SEGMENT_SIZE);
                s3 = Square::new(s2.right(), s1.bottom(), SEGMENT_SIZE);
            },
            Shape::Z => {
                s0 = Square::new(
                    position.x - SEGMENT_SIZE - SEGMENT_SIZE / 2,
                    position.y - SEGMENT_SIZE - SEGMENT_SIZE / 2,
                    SEGMENT_SIZE,
                );
                s1 = Square::new(s0.right(), s0.top(), SEGMENT_SIZE);
                s2 = Square::new(s1.left(), s1.bottom(), SEGMENT_SIZE);
                s3 = Square::new(s2.right(), s1.bottom(), SEGMENT_SIZE);
            },
        }

        [s0, s1, s2, s3]
    }
}

/// The mutable piece: a pivot point, the shape tag, and exactly four cells,
/// kept consistent with the pivot by every transform.
#[derive(Debug, Clone, Copy)]
pub struct Tetromino {
    position: Vec2i,
    segments: [Square; 4],
    shape: Shape,
}

/// Mathematical model of a piece.
#[verifier::ext_equal]
pub ghost struct PieceV {
    pub pivot: Vec2V,
    pub shape: Shape,
    pub cells: Seq<SquareV>,
}

impl View for Tetromino {
    type V = PieceV;

    closed spec fn view(&self) -> PieceV {
        PieceV {
            pivot: self.position@,
            shape: self.shape,
            cells: Seq::new(4, |i: int| self.segments@[i]@),
        }
    }
}

/// The cell is of the fixed unit size and its center stays within two cell
/// sizes of the pivot on each axis. Every canonical layout satisfies this,
/// and rotation only exchanges and negates the two center offsets.
pub open spec fn cell_near_pivot(pivot: Vec2V, c: SquareV) -> bool {
    let h = SEGMENT_SIZE as int / 2;
    &&& c.size == SEGMENT_SIZE
    &&& -2 * SEGMENT_SIZE <= c.x + h - pivot.x <= 2 * SEGMENT_SIZE
    &&& -2 * SEGMENT_SIZE <= c.y + h - pivot.y <= 2 * SEGMENT_SIZE
}

impl PieceV {
    /// Well-formedness: four unit cells near a pivot that lies in the world
    /// range.
    pub open spec fn wf(self) -> bool {
        &&& self.cells.len() == 4
        &&& self.pivot.in_world()
        &&& forall|i: int| 0 <= i < 4 ==> cell_near_pivot(self.pivot, #[trigger] self.cells[i])
    }
}

/// A freshly constructed piece: `shape` laid out around `pivot`.
pub open spec fn v_new(shape: Shape, pivot: Vec2V) -> PieceV {
    PieceV { pivot, shape, cells: v_layout(shape, pivot) }
}

/// A piece laid out around a pivot in the world range is well-formed.
pub proof fn lemma_v_new_wf(shape: Shape, pivot: Vec2V)
    requires
        pivot.in_world(),
    ensures
        v_new(shape, pivot).wf(),
{
    assert forall|i: int| 0 <= i < 4 implies cell_near_pivot(
        pivot,
        #[trigger] v_new(shape, pivot).cells[i],
    ) by {
        match shape {
            Shape::I => {},
            Shape::O => {},
            Shape::T => {},
            Shape::J => {},
            Shape::L => {},
            Shape::S => {},
            Shape::Z => {},
        }
    }
}

// constructors
impl Tetromino {
    pub fn new_i(position: Vec2i) -> (t: Tetromino)
        requires
            position@.in_world(),
        ensures
            t@ == v_new(Shape::I, position@),
            t@.wf(),
    {
        let t = Tetromino { position, shape: Shape::I, segments: Shape::I.segments(position) };
        proof {
            assert(t@ =~= v_new(Shape::I, position@));
            lemma_v_new_wf(Shape::I, position@);
        }
        t
    }

    pub fn new_o(position: Vec2i) -> (t: Tetromino)
        requires
            position@.in_world(),
        ensures
            t@ == v_new(Shape::O, position@),
            t@.wf(),
    {
        let t = Tetromino { position, shape: Shape::O, segments: Shape::O.segments(position) };
        proof {
            assert(t@ =~= v_new(Shape::O, position@));
            lemma_v_new_wf(Shape::O, position@);
        }
        t
    }

    pub fn new_t(position: Vec2i) -> (t: Tetromino)
        requires
            position@.in_world(),
        ensures
            t@ == v_new(Shape::T, position@),
            t@.wf(),
    {
        let t = Tetromino { position, shape: Shape::T, segments: Shape::T.segments(position) };
        proof {
            assert(t@ =~= v_new(Shape::T, position@));
            lemma_v_new_wf(Shape::T, position@);
        }
        t
    }

    pub fn new_j(position: Vec2i) -> (t: Tetromino)
        requires
            position@.in_world(),
        ensures
            t@ == v_new(Shape::J, position@),
            t@.wf(),
    {
        let t = Tetromino { position, shape: Shape::J, segments: Shape::J.segments(position) };
        proof {
            assert(t@ =~= v_new(Shape::J, position@));
            lemma_v_new_wf(Shape::J, position@);
        }
        t
    }

    pub fn new_l(position: Vec2i) -> (t: Tetromino)
        requires
            position@.in_world(),
        ensures
            t@ == v_new(Shape::L, position@),
            t@.wf(),
    {
        let t = Tetromino { position, shape: Shape::L, segments: Shape::L.segments(position) };
        proof {
            assert(t@ =~= v_new(Shape::L, position@));
            lemma_v_new_wf(Shape::L, position@);
        }
        t
    }

    pub fn new_s(position: Vec2i) -> (t: Tetromino)
        requires
            position@.in_world(),
        ensures
            t@ == v_new(Shape::S, position@),
            t@.wf(),
    {
        let t = Tetromino { position, shape: Shape::S, segments: Shape::S.segments(position) };
        proof {
            assert(t@ =~= v_new(Shape::S, position@));
            lemma_v_new_wf(Shape::S, position@);
        }
        t
    }

    pub fn new_z(position: Vec2i) -> (t: Tetromino)
        requires
            position@.in_world(),
        ensures
            t@ == v_new(Shape::Z, position@),
            t@.wf(),
    {
        let t = Tetromino { position, shape: Shape::Z, segments: Shape::Z.segments(position) };
        proof {
            assert(t@ =~= v_new(Shape::Z, position@));
            lemma_v_new_wf(Shape::Z, position@);
        }
        t
    }
}

/// The smaller of two integers.
pub open spec fn imin(a: int, b: int) -> int {
    if a <= b {
        a
    } else {
        b
    }
}

/// The larger of two integers.
pub open spec fn imax(a: int, b: int) -> int {
    if a >= b {
        a
    } else {
        b
    }
}

/// The whole piece shifted by a displacement: pivot and all four cells move
/// together.
pub open spec fn v_translate(p: PieceV, d: Vec2V) -> PieceV {
    PieceV {
        pivot: Vec2V { x: p.pivot.x + d.x, y: p.pivot.y + d.y },
        shape: p.shape,
        cells: p.cells.map_values(|c: SquareV| c.translated(d)),
    }
}

/// A pivot-relative point turned a quarter turn: clockwise maps (x, y) to
/// (y, -x), counter-clockwise to (-y, x).
pub open spec fn v_rotate_point(clockwise: bool, p: Vec2V) -> Vec2V {
    if clockwise {
        Vec2V { x: p.y, y: -p.x }
    } else {
        Vec2V { x: -p.y, y: p.x }
    }
}

/// Turns a pivot-relative point a quarter turn.
fn rotate_point(clockwise: bool, point: Vec2i) -> (r: Vec2i)
    requires
        point.x != i64::MIN,
        point.y != i64::MIN,
    ensures
        r@ == v_rotate_point(clockwise, point@),
{
    if clockwise {
        Vec2i::new(point.y, -point.x)
    } else {
        Vec2i::new(-point.y, point.x)
    }
}

/// One cell after a quarter turn of the piece around `pivot`: the cell's
/// center is taken relative to the pivot, the offset is turned by 90
/// degrees, and the cell's origin is placed so that its center lands on the
/// turned point.
pub open spec fn v_rotate_cell(pivot: Vec2V, clockwise: bool, c: SquareV) -> SquareV {
    let h = SEGMENT_SIZE as int / 2;
    let rot = v_rotate_point(clockwise, Vec2V { x: c.x + h - pivot.x, y: c.y + h - pivot.y });
    SquareV { x: pivot.x + rot.x - h, y: pivot.y + rot.y - h, size: c.size }
}

/// The whole piece after a quarter turn around its pivot.
pub open spec fn v_rotate(p: PieceV, clockwise: bool) -> PieceV {
    PieceV {
        pivot: p.pivot,
        shape: p.shape,
        cells: p.cells.map_values(|c: SquareV| v_rotate_cell(p.pivot, clockwise, c)),
    }
}

/// Two pieces overlap when some cell of one coincides exactly (same origin
/// and same size) with some cell of the other.
pub open spec fn v_overlaps(a: PieceV, b: PieceV) -> bool {
    exists|i: int, j: int|
        0 <= i < a.cells.len() && 0 <= j < b.cells.len() && a.cells[i] == b.cells[j]
}

impl PieceV {
    /// The least top edge over the four cells.
    pub open spec fn top(self) -> int
        recommends
            self.cells.len() == 4,
    {
        imin(
            imin(self.cells[0].top(), self.cells[1].top()),
            imin(self.cells[2].top(), self.cells[3].top()),
        )
    }

    /// The greatest bottom edge over the four cells.
    pub open spec fn bottom(self) -> int
        recommends
            self.cells.len() == 4,
    {
        imax(
            imax(self.cells[0].bottom(), self.cells[1].bottom()),
            imax(self.cells[2].bottom(), self.cells[3].bottom()),
        )
    }

    /// The least left edge over the four cells.
    pub open spec fn left(self) -> int
        recommends
            self.cells.len() == 4,
    {
        imin(
            imin(self.cells[0].left(), self.cells[1].left()),
            imin(self.cells[2].left(), self.cells[3].left()),
        )
    }

    /// The greatest right edge over the four cells.
    pub open spec fn right(self) -> int
        recommends
            self.cells.len() == 4,
    {
        imax(
            imax(self.cells[0].right(), self.cells[1].right()),
            imax(self.cells[2].right(), self.cells[3].right()),
        )
    }
}

// getters
impl Tetromino {
    pub fn shape(&self) -> (s: Shape)
        ensures
            s == self@.shape,
    {
        self.shape
    }

    pub fn squares(&self) -> (r: &[Square; 4])
        ensures
            forall|i: int| 0 <= i < 4 ==> (#[trigger] r@[i])@ == self@.cells[i],
    {
        &self.segments
    }

    pub fn position(&self) -> (r: &Vec2i)
        ensures
            r@ == self@.pivot,
    {
        &self.position
    }

    pub fn top(&self) -> (r: i64)
        requires
            self@.wf(),
        ensures
            r == self@.top(),
    {
        let mut top_most = self.segments[0].top();
        let t = self.segments[1].top();
        if t < top_most {
            top_most = t;
        }
        let t = self.segments[2].top();
        if t < top_most {
            top_most = t;
        }
        let t = self.segments[3].top();
        if t < top_most {
            top_most = t;
        }
        top_most
    }

    pub fn bottom(&self) -> (r: i64)
        requires
            self@.wf(),
        ensures
            r == self@.bottom(),
    {
        proof {
            assert(cell_near_pivot(self@.pivot, self@.cells[0]));
            assert(cell_near_pivot(self@.pivot, self@.cells[1]));
            assert(cell_near_pivot(self@.pivot, self@.cells[2]));
            assert(cell_near_pivot(self@.pivot, self@.cells[3]));
        }
        let mut bottom_most = self.segments[0].bottom();
        let b = self.segments[1].bottom();
        if b > bottom_most {
            bottom_most = b;
        }
        let b = self.segments[2].bottom();
        if b > bottom_most {
            bottom_most = b;
        }
        let b = self.segments[3].bottom();
        if b > bottom_most {
            bottom_most = b;
        }
        bottom_most
    }

    pub fn left(&self) -> (r: i64)
        requires
            self@.wf(),
        ensures
            r == self@.left(),
    {
        let mut left_most = self.segments[0].left();
        let l = self.segments[1].left();
        if l < left_most {
            left_most = l;
        }
        let l = self.segments[2].left();
        if l < left_most {
            left_most = l;
        }
        let l = self.segments[3].left();
        if l < left_most {
            left_most = l;
        }
        left_most
    }

    pub fn right(&self) -> (r: i64)
        requires
            self@.wf(),
        ensures
            r == self@.right(),
    {
        proof {
            assert(cell_near_pivot(self@.pivot, self@.cells[0]));
            assert(cell_near_pivot(self@.pivot, self@.cells[1]));
            assert(cell_near_pivot(self@.pivot, self@.cells[2]));
            assert(cell_near_pivot(self@.pivot, self@.cells[3]));
        }
        let mut right_most = self.segments[0].right();
        let rr = self.segments[1].right();
        if rr > right_most {
            right_most = rr;
        }
        let rr = self.segments[2].right();
        if rr > right_most {
            right_most = rr;
        }
        let rr = self.segments[3].right();
        if rr > right_most {
            right_most = rr;
        }
        right_most
    }
}

// setters
impl Tetromino {
    /// Adds `delta` to the pivot and to every cell, leaving the cells'
    /// offsets from the pivot unchanged. Bounds are not enforced here; the
    /// field component corrects positions.
    pub fn add_position(&mut self, delta: Vec2i)
        requires
            old(self)@.wf(),
            (Vec2V {
                x: old(self)@.pivot.x + delta@.x,
                y: old(self)@.pivot.y + delta@.y,
            }).in_world(),
        ensures
            final(self)@ == v_translate(old(self)@, delta@),
            final(self)@.wf(),
    {
        let ghost orig = *self;
        let mut i: usize = 0;
        while i < 4
            invariant
                0 <= i <= 4,
                orig@.wf(),
                (Vec2V { x: orig@.pivot.x + delta@.x, y: orig@.pivot.y + delta@.y }).in_world(),
                self.position == orig.position,
                self.shape == orig.shape,
                forall|j: int|
                    0 <= j < i ==> (#[trigger] self.segments@[j])@ == orig@.cells[j].translated(
                        delta@,
                    ),
                forall|j: int| i <= j < 4 ==> (#[trigger] self.segments@[j]) == orig.segments@[j],
            decreases 4 - i,
        {
            proof {
                assert(cell_near_pivot(orig@.pivot, orig@.cells[i as int]));
            }
            let sq = self.segments[i];
            self.segments[i] = Square::new(sq.x + delta.x, sq.y + delta.y, sq.size);
            i = i + 1;
        }
        self.position = Vec2i::new(self.position.x + delta.x, self.position.y + delta.y);
        proof {
            assert(self@ =~= v_translate(orig@, delta@));
            assert forall|j: int| 0 <= j < 4 implies cell_near_pivot(
                self@.pivot,
                #[trigger] self@.cells[j],
            ) by {
                assert(cell_near_pivot(orig@.pivot, orig@.cells[j]));
            }
        }
    }

    /// Moves the pivot to `position` and lays the shape out afresh there,
    /// which also resets the piece's orientation.
    pub fn set_position(&mut self, position: Vec2i)
        requires
            position@.in_world(),
        ensures
            final(self)@ == v_new(old(self)@.shape, position@),
            final(self)@.wf(),
    {
        self.position = position;
        self.segments = self.shape.segments(position);
        proof {
            assert(self@ =~= v_new(old(self)@.shape, position@));
            lemma_v_new_wf(old(self)@.shape, position@);
        }
    }
}

// actions
impl Tetromino {
    /// True when some cell of `self` coincides exactly with some cell of
    /// `other`.
    pub fn check_collision(&self, other: &Tetromino) -> (r: bool)
        ensures
            r == v_overlaps(self@, other@),
    {
        let mut i: usize = 0;
        while i < 4
            invariant
                0 <= i <= 4,
                forall|a: int, b: int|
                    0 <= a < i && 0 <= b < 4 ==> self@.cells[a] != other@.cells[b],
            decreases 4 - i,
        {
            let mut j: usize = 0;
            while j < 4
                invariant
                    0 <= i < 4,
                    0 <= j <= 4,
                    forall|a: int, b: int|
                        0 <= a < i && 0 <= b < 4 ==> self@.cells[a] != other@.cells[b],
                    forall|b: int| 0 <= b < j ==> self@.cells[i as int] != other@.cells[b],
                decreases 4 - j,
            {
                if self.segments[i] == other.segments[j] {
                    proof {
                        assert(self@.cells[i as int] == other@.cells[j as int]);
                    }
                    return true;
                }
                j = j + 1;
            }
            i = i + 1;
        }
        false
    }

    pub fn move_left(&mut self)
        requires
            old(self)@.wf(),
            (Vec2V { x: old(self)@.pivot.x - SEGMENT_SIZE, y: old(self)@.pivot.y }).in_world(),
        ensures
            final(self)@ == v_translate(old(self)@, Vec2V { x: -SEGMENT_SIZE as int, y: 0 }),
            final(self)@.wf(),
    {
        self.add_position(Vec2i::new(-SEGMENT_SIZE, 0));
    }

    pub fn move_right(&mut self)
        requires
            old(self)@.wf(),
            (Vec2V { x: old(self)@.pivot.x + SEGMENT_SIZE, y: old(self)@.pivot.y }).in_world(),
        ensures
            final(self)@ == v_translate(old(self)@, Vec2V { x: SEGMENT_SIZE as int, y: 0 }),
            final(self)@.wf(),
    {
        self.add_position(Vec2i::new(SEGMENT_SIZE, 0));
    }

    pub fn move_down(&mut self)
        requires
            old(self)@.wf(),
            (Vec2V { x: old(self)@.pivot.x, y: old(self)@.pivot.y + SEGMENT_SIZE }).in_world(),
        ensures
            final(self)@ == v_translate(old(self)@, Vec2V { x: 0, y: SEGMENT_SIZE as int }),
            final(self)@.wf(),
    {
        self.add_position(Vec2i::new(0, SEGMENT_SIZE));
    }

    pub fn move_up(&mut self)
        requires
            old(self)@.wf(),
            (Vec2V { x: old(self)@.pivot.x, y: old(self)@.pivot.y - SEGMENT_SIZE }).in_world(),
        ensures
            final(self)@ == v_translate(old(self)@, Vec2V { x: 0, y: -SEGMENT_SIZE as int }),
            final(self)@.wf(),
    {
        self.add_position(Vec2i::new(0, -SEGMENT_SIZE));
    }

    /// Turns the piece a quarter turn around its pivot: every cell's center
    /// is rotated around the pivot and the cell repositioned so its center
    /// lands on the rotated point. The cells keep the fixed unit size and
    /// their centers keep their distance from the pivot.
    pub fn rotate(&mut self, clockwise: bool)
        requires
            old(self)@.wf(),
        ensures
            final(self)@ == v_rotate(old(self)@, clockwise),
            final(self)@.wf(),
    {
        let ghost orig = *self;
        let mut i: usize = 0;
        while i < 4
            invariant
                0 <= i <= 4,
                orig@.wf(),
                self.position == orig.position,
                self.shape == orig.shape,
                forall|j: int|
                    0 <= j < i ==> (#[trigger] self.segments@[j])@ == v_rotate_cell(
                        orig@.pivot,
                        clockwise,
                        orig@.cells[j],
                    ),
                forall|j: int| i <= j < 4 ==> (#[trigger] self.segments@[j]) == orig.segments@[j],
            decreases 4 - i,
        {
            proof {
                assert(cell_near_pivot(orig@.pivot, orig@.cells[i as int]));
            }
            let sq = self.segments[i];
            let center_x = sq.x + SEGMENT_SIZE / 2;
            let center_y = sq.y + SEGMENT_SIZE / 2;
            let rot = rotate_point(
                clockwise,
                Vec2i::new(center_x - self.position.x, center_y - self.position.y),
            );
            self.segments[i] = Square::new(
                self.position.x + rot.x - SEGMENT_SIZE / 2,
                self.position.y + rot.y - SEGMENT_SIZE / 2,
                sq.size,
            );
            i = i + 1;
        }
        proof {
            assert(self@ =~= v_rotate(orig@, clockwise));
            assert forall|j: int| 0 <= j < 4 implies cell_near_pivot(
                self@.pivot,
                #[trigger] self@.cells[j],
            ) by {
                assert(cell_near_pivot(orig@.pivot, orig@.cells[j]));
            }
        }
    }
}

/// Relies on macroquad::rand::rand for a pseudo-random draw from the
/// process-wide generator; nothing is promised of the value.
#[verifier::external_body]
fn random_u32() -> u32 {
    macroquad::rand::rand()
}

/// The shape that a raw draw selects: the draw modulo seven picks from the
/// fixed order I, O, T, J, L, S, Z.
pub open spec fn shape_of_draw(r: u32) -> Shape {
    if r % 7 == 0 {
        Shape::I
    } else if r % 7 == 1 {
        Shape::O
    } else if r % 7 == 2 {
        Shape::T
    } else if r % 7 == 3 {
        Shape::J
    } else if r % 7 == 4 {
        Shape::L
    } else if r % 7 == 5 {
        Shape::S
    } else {
        Shape::Z
    }
}

// random construction
impl Tetromino {
    /// The piece that the raw draw `r` selects, laid out afresh around
    /// `position`: the draw modulo seven picks the shape. Taking the draw
    /// as a plain value makes shape selection reproducible.
    pub fn from_draw(r: u32, position: Vec2i) -> (t: Tetromino)
        requires
            position@.in_world(),
        ensures
            t@ == v_new(shape_of_draw(r), position@),
            t@.wf(),
    {
        match r % 7 {
            0 => Tetromino::new_i(position),
            1 => Tetromino::new_o(position),
            2 => Tetromino::new_t(position),
            3 => Tetromino::new_j(position),
            4 => Tetromino::new_l(position),
            5 => Tetromino::new_s(position),
            6 => Tetromino::new_z(position),
            _ => Tetromino::new_i(position),
        }
    }

    /// A piece of a shape drawn from the process-wide random source, laid
    /// out afresh around `position`: the piece that `from_draw` selects for
    /// the drawn value, whatever it was.
    pub fn random_at(position: Vec2i) -> (t: Tetromino)
        requires
            position@.in_world(),
        ensures
            t@ == v_new(t@.shape, position@),
            t@.wf(),
    {
        let r = random_u32();
        Tetromino::from_draw(r, position)
    }

    /// A random piece at the origin.
    pub fn random() -> (t: Tetromino)
        ensures
            t@ == v_new(t@.shape, Vec2V { x: 0, y: 0 }),
            t@.wf(),
    {
        Tetromino::random_at(Vec2i::new(0, 0))
    }
}

/// One piece of every shape, each laid out around `origin`, in the fixed
/// order I, O, T, J, L, S, Z.
pub fn all_shapes(origin: Vec2i) -> (r: [Tetromino; 7])
    requires
        origin@.in_world(),
    ensures
        r@[0]@ == v_new(Shape::I, origin@),
        r@[1]@ == v_new(Shape::O, origin@),
        r@[2]@ == v_new(Shape::T, origin@),
        r@[3]@ == v_new(Shape::J, origin@),
        r@[4]@ == v_new(Shape::L, origin@),
        r@[5]@ == v_new(Shape::S, origin@),
        r@[6]@ == v_new(Shape::Z, origin@),
        forall|i: int| 0 <= i < 7 ==> (#[trigger] r@[i])@.wf(),
{
    let i = Tetromino::new_i(origin);
    let o = Tetromino::new_o(origin);
    let t = Tetromino::new_t(origin);
    let j = Tetromino::new_j(origin);
    let l = Tetromino::new_l(origin);
    let s = Tetromino::new_s(origin);
    let z = Tetromino::new_z(origin);

    [i, o, t, j, l, s, z]
}

// laws
/// Law: for every shape and pivot, the layout has exactly four cells, each of
/// the fixed unit size, and each cell's origin sits at the shape's own fixed
/// offset from the pivot, so the silhouette is the shape's fixed pattern.
pub proof fn lemma_layout_four_unit_cells(shape: Shape, pivot: Vec2V)
    ensures
        v_layout(shape, pivot).len() == 4,
        forall|i: int|
            0 <= i < 4 ==> (#[trigger] v_layout(shape, pivot)[i]).size == SEGMENT_SIZE,
        forall|i: int|
            0 <= i < 4 ==> (#[trigger] v_layout(shape, pivot)[i]).x == pivot.x + v_offsets(
                shape,
            )[i].x && v_layout(shape, pivot)[i].y == pivot.y + v_offsets(shape)[i].y,
{
    match shape {
        Shape::I => {},
        Shape::O => {},
        Shape::T => {},
        Shape::J => {},
        Shape::L => {},
        Shape::S => {},
        Shape::Z => {},
    }
}

/// Law: translating a piece by `d` and then by `-d` restores the original
/// pivot and all four cell positions exactly.
pub proof fn lemma_translate_round_trip(p: PieceV, d: Vec2V)
    ensures
        v_translate(v_translate(p, d), Vec2V { x: -d.x, y: -d.y }) == p,
{
    assert(v_translate(v_translate(p, d), Vec2V { x: -d.x, y: -d.y }) =~= p);
}

/// Law: four successive clockwise quarter turns restore the original cell
/// set exactly, for any piece.
pub proof fn lemma_rotate_four_times_identity(p: PieceV)
    ensures
        v_rotate(v_rotate(v_rotate(v_rotate(p, true), true), true), true) == p,
{
    assert(v_rotate(v_rotate(v_rotate(v_rotate(p, true), true), true), true) =~= p);
}

/// Law: a clockwise quarter turn followed by a counter-clockwise one is the
/// identity transform, and the other way round too.
pub proof fn lemma_rotate_inverse(p: PieceV)
    ensures
        v_rotate(v_rotate(p, true), false) == p,
        v_rotate(v_rotate(p, false), true) == p,
{
    assert(v_rotate(v_rotate(p, true), false) =~= p);
    assert(v_rotate(v_rotate(p, false), true) =~= p);
}

/// Law: overlap is symmetric; it holds exactly when some cell pair shares
/// the identical origin and size.
pub proof fn lemma_overlaps_symmetric(a: PieceV, b: PieceV)
    ensures
        v_overlaps(a, b) == v_overlaps(b, a),
{
    if v_overlaps(a, b) {
        let (i, j) = choose|i: int, j: int|
            0 <= i < a.cells.len() && 0 <= j < b.cells.len() && a.cells[i] == b.cells[j];
        assert(0 <= j < b.cells.len() && 0 <= i < a.cells.len() && b.cells[j] == a.cells[i]);
    }
    if v_overlaps(b, a) {
        let (j, i) = choose|j: int, i: int|
            0 <= j < b.cells.len() && 0 <= i < a.cells.len() && b.cells[j] == a.cells[i];
        assert(0 <= i < a.cells.len() && 0 <= j < b.cells.len() && a.cells[i] == b.cells[j]);
    }
}

} // verus!
