use vstd::prelude::*;

use crate::SEGMENT_SIZE;
use crate::geom::{Rect, RectV, Vec2i, Vec2V, WORLD_BOUND};
use crate::square::{Square, SquareV};
use crate::tetromino::{cell_near_pivot, v_translate, PieceV, Tetromino};

verus! {

/// Width of the playing field, in grid cells.
pub const BOARD_WIDTH: i64 = 10;

/// Height of the playing field, in grid cells.
pub const BOARD_HEIGHT: i64 = 20;

/// Greatest magnitude allowed for an edge coordinate of the field's
/// rectangle: half the world range, so that clamping a piece against the
/// field always lands its pivot well inside the world range.
pub const BOARD_LIMIT: i64 = 500_000_000_000;

/// The mathematical cells of a sequence of squares.
pub open spec fn cells_view(s: Seq<Square>) -> Seq<SquareV> {
    Seq::new(s.len(), |i: int| s[i]@)
}

/// A settled cell: of the fixed unit size, with its origin in the range
/// that cells of a well-formed piece can reach.
pub open spec fn settled_cell_ok(c: SquareV) -> bool {
    &&& c.size == SEGMENT_SIZE
    &&& -WORLD_BOUND - 3 * SEGMENT_SIZE <= c.x <= WORLD_BOUND + 3 * SEGMENT_SIZE
    &&& -WORLD_BOUND - 3 * SEGMENT_SIZE <= c.y <= WORLD_BOUND + 3 * SEGMENT_SIZE
}

/// The playing field: a fixed rectangle sized to the grid, and the registry
/// of settled cells. The registry holds the individual cells of the pieces
/// that have been added, in placement order: line clearing removes single
/// cells, which a four-cell piece could not represent.
#[derive(Debug)]
pub struct Board {
    cells: Vec<Square>,
    bounds: Rect,
}

/// Mathematical model of the field.
#[verifier::ext_equal]
pub ghost struct BoardV {
    pub cells: Seq<SquareV>,
    pub bounds: RectV,
}

impl View for Board {
    type V = BoardV;

    closed spec fn view(&self) -> BoardV {
        BoardV { cells: cells_view(self.cells@), bounds: self.bounds@ }
    }
}

impl BoardV {
    /// Well-formedness: the rectangle is sized to the grid once and for all,
    /// its edges lie within the board limit, and every settled cell is a
    /// unit cell in range.
    pub open spec fn wf(self) -> bool {
        &&& self.bounds.w == BOARD_WIDTH * SEGMENT_SIZE
        &&& self.bounds.h == BOARD_HEIGHT * SEGMENT_SIZE
        &&& -BOARD_LIMIT <= self.bounds.x
        &&& self.bounds.x + self.bounds.w <= BOARD_LIMIT
        &&& -BOARD_LIMIT <= self.bounds.y
        &&& self.bounds.y + self.bounds.h <= BOARD_LIMIT
        &&& forall|i: int| 0 <= i < self.cells.len() ==> settled_cell_ok(#[trigger] self.cells[i])
    }
}

/// The signed shift applied along one axis by the clamp: the penetration
/// past the low edge (measured from extent `a`) plus the penetration past
/// the high edge (measured from extent `b`), each zero when the piece does
/// not protrude past that edge. Both edges are checked independently,
/// against the extents the piece had before the clamp.
pub open spec fn clamp_shift(lo: int, hi: int, a: int, b: int) -> int {
    let d_lo = if a < lo {
        lo - a
    } else {
        0
    };
    let d_hi = if b > hi {
        hi - b
    } else {
        0
    };
    d_lo + d_hi
}

/// The spawn point of a field with this rectangle: horizontally centered,
/// one cell below the top edge.
pub open spec fn v_top_middle(bounds: RectV) -> Vec2V {
    Vec2V { x: bounds.x + bounds.w / 2, y: bounds.y + SEGMENT_SIZE as int }
}

/// The resting point of a held piece: three cells right of the field's
/// right edge, two cells below its top edge.
pub open spec fn v_hold_position(bounds: RectV) -> Vec2V {
    Vec2V { x: bounds.right() + 3 * SEGMENT_SIZE, y: bounds.top() + 2 * SEGMENT_SIZE }
}

/// The piece after the clamp against the field's rectangle: translated by
/// the per-axis clamp shifts.
pub open spec fn v_keep_in_bounds(bounds: RectV, p: PieceV) -> PieceV {
    v_translate(
        p,
        Vec2V {
            x: clamp_shift(bounds.left(), bounds.right(), p.left(), p.right()),
            y: clamp_shift(bounds.top(), bounds.bottom(), p.top(), p.bottom()),
        },
    )
}

/// The extents of a well-formed piece stay within two and a half cell sizes
/// of its pivot.
pub proof fn lemma_extents_near_pivot(p: PieceV)
    requires
        p.wf(),
    ensures
        p.pivot.y - 3 * SEGMENT_SIZE < p.top() <= p.pivot.y + 2 * SEGMENT_SIZE,
        p.pivot.y - 2 * SEGMENT_SIZE <= p.bottom() < p.pivot.y + 3 * SEGMENT_SIZE,
        p.pivot.x - 3 * SEGMENT_SIZE < p.left() <= p.pivot.x + 2 * SEGMENT_SIZE,
        p.pivot.x - 2 * SEGMENT_SIZE <= p.right() < p.pivot.x + 3 * SEGMENT_SIZE,
        p.top() < p.bottom(),
        p.left() < p.right(),
{
    assert(cell_near_pivot(p.pivot, p.cells[0]));
    assert(cell_near_pivot(p.pivot, p.cells[1]));
    assert(cell_near_pivot(p.pivot, p.cells[2]));
    assert(cell_near_pivot(p.pivot, p.cells[3]));
}

/// Translating a piece shifts all four extents by the displacement.
pub proof fn lemma_translate_extents(p: PieceV, d: Vec2V)
    requires
        p.cells.len() == 4,
    ensures
        v_translate(p, d).top() == p.top() + d.y,
        v_translate(p, d).bottom() == p.bottom() + d.y,
        v_translate(p, d).left() == p.left() + d.x,
        v_translate(p, d).right() == p.right() + d.x,
{
    assert(v_translate(p, d).cells[0] == p.cells[0].translated(d));
    assert(v_translate(p, d).cells[1] == p.cells[1].translated(d));
    assert(v_translate(p, d).cells[2] == p.cells[2].translated(d));
    assert(v_translate(p, d).cells[3] == p.cells[3].translated(d));
}

impl Board {
    /// A field centered in a canvas of the given size, with no settled
    /// cells. The rectangle is derived once from the grid dimensions and
    /// the unit cell size.
    pub fn new(canvas_width: i64, canvas_height: i64) -> (b: Board)
        requires
            BOARD_WIDTH * SEGMENT_SIZE <= canvas_width <= BOARD_LIMIT,
            BOARD_HEIGHT * SEGMENT_SIZE <= canvas_height <= BOARD_LIMIT,
        ensures
            b@.wf(),
            b@.cells.len() == 0,
            b@.bounds == (RectV {
                x: (canvas_width - BOARD_WIDTH * SEGMENT_SIZE) as int / 2,
                y: (canvas_height - BOARD_HEIGHT * SEGMENT_SIZE) as int / 2,
                w: BOARD_WIDTH * SEGMENT_SIZE as int,
                h: BOARD_HEIGHT * SEGMENT_SIZE as int,
            }),
    {
        let b = Board {
            cells: Vec::new(),
            bounds: Rect::new(
                (canvas_width - BOARD_WIDTH * SEGMENT_SIZE) / 2,
                (canvas_height - BOARD_HEIGHT * SEGMENT_SIZE) / 2,
                BOARD_WIDTH * SEGMENT_SIZE,
                BOARD_HEIGHT * SEGMENT_SIZE,
            ),
        };
        proof {
            assert(b@.bounds =~= (RectV {
                x: (canvas_width - BOARD_WIDTH * SEGMENT_SIZE) as int / 2,
                y: (canvas_height - BOARD_HEIGHT * SEGMENT_SIZE) as int / 2,
                w: BOARD_WIDTH * SEGMENT_SIZE as int,
                h: BOARD_HEIGHT * SEGMENT_SIZE as int,
            }));
        }
        b
    }

    /// The field's rectangle.
    pub fn bounds(&self) -> (r: Rect)
        ensures
            r@ == self@.bounds,
    {
        self.bounds
    }

    /// The spawn point: horizontally centered, one cell below the top edge.
    pub fn top_middle(&self) -> (v: Vec2i)
        requires
            self@.wf(),
        ensures
            v@ == v_top_middle(self@.bounds),
            v@.in_world(),
    {
        Vec2i::new(self.bounds.x + self.bounds.w / 2, self.bounds.y + SEGMENT_SIZE)
    }

    /// Appends the piece's four cells, in the piece's own cell order, to the
    /// settled registry. No validation is done here: callers check bounds
    /// and collisions first.
    pub fn add_piece(&mut self, piece: Tetromino)
        requires
            old(self)@.wf(),
            piece@.wf(),
        ensures
            final(self)@.bounds == old(self)@.bounds,
            final(self)@.cells == old(self)@.cells + piece@.cells,
            final(self)@.wf(),
    {
        let squares = piece.squares();
        proof {
            assert(cell_near_pivot(piece@.pivot, piece@.cells[0]));
            assert(cell_near_pivot(piece@.pivot, piece@.cells[1]));
            assert(cell_near_pivot(piece@.pivot, piece@.cells[2]));
            assert(cell_near_pivot(piece@.pivot, piece@.cells[3]));
        }
        self.cells.push(squares[0]);
        self.cells.push(squares[1]);
        self.cells.push(squares[2]);
        self.cells.push(squares[3]);
        proof {
            assert(final(self)@.cells =~= old(self)@.cells + piece@.cells);
        }
    }

    /// The settled cells, in placement order.
    pub fn settled(&self) -> (r: &Vec<Square>)
        ensures
            r@.len() == self@.cells.len(),
            forall|i: int| 0 <= i < r@.len() ==> (#[trigger] r@[i])@ == self@.cells[i],
    {
        &self.cells
    }

    /// Clamps the piece back inside the field: for each of the four edges
    /// independently, if the piece's extent protrudes past that edge, the
    /// whole piece is translated by exactly the penetration distance along
    /// that axis. All four edges are checked unconditionally, against the
    /// extents the piece had on entry, so a piece protruding at a corner is
    /// corrected on both axes in the same call.
    pub fn keep_in_bounds(&self, piece: &mut Tetromino)
        requires
            self@.wf(),
            old(piece)@.wf(),
        ensures
            final(piece)@ == v_keep_in_bounds(self@.bounds, old(piece)@),
            final(piece)@.wf(),
    {
        let ghost orig = old(piece)@;
        let ghost b = self@.bounds;
        proof {
            lemma_extents_near_pivot(orig);
        }

        let piece_top = piece.top();
        let piece_left = piece.left();
        let piece_bottom = piece.bottom();
        let piece_right = piece.right();

        let ghost d_top: int = if orig.top() < b.top() {
            b.top() - orig.top()
        } else {
            0
        };
        let ghost d_left: int = if orig.left() < b.left() {
            b.left() - orig.left()
        } else {
            0
        };
        let ghost d_bottom: int = if orig.bottom() > b.bottom() {
            b.bottom() - orig.bottom()
        } else {
            0
        };
        let ghost d_right: int = if orig.right() > b.right() {
            b.right() - orig.right()
        } else {
            0
        };

        if piece_top < self.bounds.top() {
            piece.add_position(Vec2i::new(0, self.bounds.top() - piece_top));
        }
        proof {
            assert(piece@ =~= v_translate(orig, Vec2V { x: 0, y: d_top }));
        }

        if piece_left < self.bounds.left() {
            piece.add_position(Vec2i::new(self.bounds.left() - piece_left, 0));
        }
        proof {
            assert(piece@ =~= v_translate(orig, Vec2V { x: d_left, y: d_top }));
        }

        if piece_bottom > self.bounds.bottom() {
            piece.add_position(Vec2i::new(0, self.bounds.bottom() - piece_bottom));
        }
        proof {
            assert(piece@ =~= v_translate(orig, Vec2V { x: d_left, y: d_top + d_bottom }));
        }

        if piece_right > self.bounds.right() {
            piece.add_position(Vec2i::new(self.bounds.right() - piece_right, 0));
        }
        proof {
            assert(piece@ =~= v_translate(
                orig,
                Vec2V { x: d_left + d_right, y: d_top + d_bottom },
            ));
            assert(piece@ =~= v_keep_in_bounds(b, orig));
        }
    }
}

/// After a clamp, a piece lies inside the field: its span always fits,
/// since a piece's cells stay within two cell sizes of its pivot and the
/// field is ten by twenty cells.
pub proof fn lemma_keep_in_bounds_contains(bounds: RectV, p: PieceV)
    requires
        p.wf(),
        bounds.w == BOARD_WIDTH * SEGMENT_SIZE,
        bounds.h == BOARD_HEIGHT * SEGMENT_SIZE,
    ensures
        bounds.left() <= v_keep_in_bounds(bounds, p).left(),
        v_keep_in_bounds(bounds, p).right() <= bounds.right(),
        bounds.top() <= v_keep_in_bounds(bounds, p).top(),
        v_keep_in_bounds(bounds, p).bottom() <= bounds.bottom(),
{
    lemma_extents_near_pivot(p);
    let d = Vec2V {
        x: clamp_shift(bounds.left(), bounds.right(), p.left(), p.right()),
        y: clamp_shift(bounds.top(), bounds.bottom(), p.top(), p.bottom()),
    };
    lemma_translate_extents(p, d);
}

/// Law: the clamp is idempotent; clamping a well-formed piece twice gives
/// the same result as clamping it once.
pub proof fn lemma_keep_in_bounds_idempotent(bounds: RectV, p: PieceV)
    requires
        p.wf(),
        bounds.w == BOARD_WIDTH * SEGMENT_SIZE,
        bounds.h == BOARD_HEIGHT * SEGMENT_SIZE,
    ensures
        v_keep_in_bounds(bounds, v_keep_in_bounds(bounds, p)) == v_keep_in_bounds(bounds, p),
{
    lemma_extents_near_pivot(p);
    let q = v_keep_in_bounds(bounds, p);
    let d = Vec2V {
        x: clamp_shift(bounds.left(), bounds.right(), p.left(), p.right()),
        y: clamp_shift(bounds.top(), bounds.bottom(), p.top(), p.bottom()),
    };
    lemma_translate_extents(p, d);
    lemma_keep_in_bounds_contains(bounds, p);
    assert(clamp_shift(bounds.left(), bounds.right(), q.left(), q.right()) == 0);
    assert(clamp_shift(bounds.top(), bounds.bottom(), q.top(), q.bottom()) == 0);
    assert(v_keep_in_bounds(bounds, q) =~= q);
}

/// Where a cell protrudes past the field's edges: the rectangle of the
/// protruding region past the first breached edge, checked in the order
/// top, left, bottom, right; nothing when the cell lies fully inside.
pub open spec fn v_cell_breach(bounds: RectV, c: SquareV) -> Option<RectV> {
    if c.top() < bounds.top() {
        Some(RectV { x: c.x, y: c.y, w: c.size, h: bounds.top() - c.y })
    } else if c.left() < bounds.left() {
        Some(RectV { x: c.x, y: c.y, w: bounds.left() - c.x, h: c.size })
    } else if c.bottom() > bounds.bottom() {
        Some(RectV { x: c.x, y: bounds.bottom(), w: c.size, h: c.bottom() - bounds.bottom() })
    } else if c.right() > bounds.right() {
        Some(RectV { x: bounds.right(), y: c.y, w: c.right() - bounds.right(), h: c.size })
    } else {
        None
    }
}

/// The first breach found scanning the piece's four cells in order.
pub open spec fn v_find_breach(bounds: RectV, p: PieceV) -> Option<RectV>
    recommends
        p.cells.len() == 4,
{
    if v_cell_breach(bounds, p.cells[0]) is Some {
        v_cell_breach(bounds, p.cells[0])
    } else if v_cell_breach(bounds, p.cells[1]) is Some {
        v_cell_breach(bounds, p.cells[1])
    } else if v_cell_breach(bounds, p.cells[2]) is Some {
        v_cell_breach(bounds, p.cells[2])
    } else if v_cell_breach(bounds, p.cells[3]) is Some {
        v_cell_breach(bounds, p.cells[3])
    } else {
        None
    }
}

/// A cell fully inside the field's rectangle.
pub open spec fn cell_inside(bounds: RectV, c: SquareV) -> bool {
    &&& bounds.top() <= c.top()
    &&& c.bottom() <= bounds.bottom()
    &&& bounds.left() <= c.left()
    &&& c.right() <= bounds.right()
}

/// Law: breach detection reports nothing exactly when every one of the four
/// cells lies fully inside the field.
pub proof fn lemma_no_breach_iff_inside(bounds: RectV, p: PieceV)
    requires
        p.cells.len() == 4,
    ensures
        v_find_breach(bounds, p) is None <==> forall|i: int|
            0 <= i < 4 ==> cell_inside(bounds, #[trigger] p.cells[i]),
{
    if v_find_breach(bounds, p) is None {
        assert forall|i: int| 0 <= i < 4 implies cell_inside(bounds, #[trigger] p.cells[i]) by {
            assert(cell_inside(bounds, p.cells[0]));
            assert(cell_inside(bounds, p.cells[1]));
            assert(cell_inside(bounds, p.cells[2]));
            assert(cell_inside(bounds, p.cells[3]));
        }
    }
}

impl Board {
    /// The protruding region of one cell, or nothing when it lies inside.
    fn cell_breach(&self, sq: Square) -> (r: Option<Rect>)
        requires
            self@.wf(),
            settled_cell_ok(sq@),
        ensures
            r is Some <==> v_cell_breach(self@.bounds, sq@) is Some,
            r matches Some(rect) ==> Some(rect@) == v_cell_breach(self@.bounds, sq@),
    {
        if sq.top() < self.bounds.top() {
            Some(Rect::new(sq.x, sq.y, sq.size, self.bounds.top() - sq.y))
        } else if sq.left() < self.bounds.left() {
            Some(Rect::new(sq.x, sq.y, self.bounds.left() - sq.x, sq.size))
        } else if sq.bottom() > self.bounds.bottom() {
            Some(Rect::new(sq.x, self.bounds.bottom(), sq.size, sq.bottom() - self.bounds.bottom()))
        } else if sq.right() > self.bounds.right() {
            Some(Rect::new(self.bounds.right(), sq.y, sq.right() - self.bounds.right(), sq.size))
        } else {
            None
        }
    }

    /// Scans the piece's four cells in order and reports the first one found
    /// to protrude past a field edge, as the rectangle of the protruding
    /// region; nothing when the piece lies fully inside. Only the first
    /// protruding cell is reported, even when several protrude.
    pub fn find_breach(&self, piece: &Tetromino) -> (r: Option<Rect>)
        requires
            self@.wf(),
            piece@.wf(),
        ensures
            r is Some <==> v_find_breach(self@.bounds, piece@) is Some,
            r matches Some(rect) ==> Some(rect@) == v_find_breach(self@.bounds, piece@),
    {
        let squares = piece.squares();
        proof {
            assert(cell_near_pivot(piece@.pivot, piece@.cells[0]));
            assert(cell_near_pivot(piece@.pivot, piece@.cells[1]));
            assert(cell_near_pivot(piece@.pivot, piece@.cells[2]));
            assert(cell_near_pivot(piece@.pivot, piece@.cells[3]));
        }
        if let Some(rect) = self.cell_breach(squares[0]) {
            return Some(rect);
        }
        if let Some(rect) = self.cell_breach(squares[1]) {
            return Some(rect);
        }
        if let Some(rect) = self.cell_breach(squares[2]) {
            return Some(rect);
        }
        if let Some(rect) = self.cell_breach(squares[3]) {
            return Some(rect);
        }
        None
    }
}

/// Some settled cell's origin lies exactly at (x, y).
pub open spec fn occupied_at(cells: Seq<SquareV>, x: int, y: int) -> bool {
    exists|i: int| 0 <= i < cells.len() && cells[i].x == x && cells[i].y == y
}

/// The y coordinate of grid row `r` of the field (row 0 at the top edge;
/// the y axis grows downward, so the bottom row has the greatest y).
pub open spec fn row_y(bounds: RectV, r: int) -> int {
    bounds.y + r * SEGMENT_SIZE
}

/// The x coordinate of grid column `c` of the field (column 0 at the left
/// edge).
pub open spec fn col_x(bounds: RectV, c: int) -> int {
    bounds.x + c * SEGMENT_SIZE
}

/// Row `r` is full: every one of the `BOARD_WIDTH` columns holds a settled
/// cell at exactly that grid position.
pub open spec fn row_full(cells: Seq<SquareV>, bounds: RectV, r: int) -> bool {
    forall|c: int| 0 <= c < BOARD_WIDTH ==> occupied_at(cells, col_x(bounds, c), row_y(bounds, r))
}

/// How many of the rows with index under `n` are full.
pub open spec fn count_full_rows_upto(cells: Seq<SquareV>, bounds: RectV, n: int) -> int
    decreases n,
{
    if n <= 0 {
        0
    } else {
        count_full_rows_upto(cells, bounds, n - 1) + if row_full(cells, bounds, n - 1) {
            1int
        } else {
            0int
        }
    }
}

/// How many of the rows with index under `n` are full and lie strictly
/// below height `y` on the screen.
pub open spec fn count_full_rows_below(cells: Seq<SquareV>, bounds: RectV, y: int, n: int) -> int
    decreases n,
{
    if n <= 0 {
        0
    } else {
        count_full_rows_below(cells, bounds, y, n - 1) + if row_full(cells, bounds, n - 1)
            && row_y(bounds, n - 1) > y {
            1int
        } else {
            0int
        }
    }
}

/// The cell lies in some full row of the field.
pub open spec fn cell_cleared(cells: Seq<SquareV>, bounds: RectV, c: SquareV) -> bool {
    exists|r: int|
        0 <= r < BOARD_HEIGHT && #[trigger] row_full(cells, bounds, r) && c.y == row_y(bounds, r)
}

/// The cell after the clear: dropped one row size for every full row below
/// it. Full rows are judged against the whole registry `cells`.
pub open spec fn v_dropped_cell(cells: Seq<SquareV>, bounds: RectV, c: SquareV) -> SquareV {
    SquareV {
        x: c.x,
        y: c.y + SEGMENT_SIZE * count_full_rows_below(cells, bounds, c.y, BOARD_HEIGHT as int),
        size: c.size,
    }
}

/// The registry after the clear: the cells of `s`, in order, with those in
/// full rows removed and the rest dropped past the cleared rows below them.
pub open spec fn v_cleared_cells(cells: Seq<SquareV>, bounds: RectV, s: Seq<SquareV>) -> Seq<
    SquareV,
>
    decreases s.len(),
{
    if s.len() == 0 {
        Seq::empty()
    } else {
        let rest = v_cleared_cells(cells, bounds, s.drop_last());
        if cell_cleared(cells, bounds, s.last()) {
            rest
        } else {
            rest.push(v_dropped_cell(cells, bounds, s.last()))
        }
    }
}

/// The count of full rows below a height is at most the number of rows
/// considered, and it is positive only when some considered row lies
/// strictly below that height.
proof fn lemma_count_below_bounds(cells: Seq<SquareV>, bounds: RectV, y: int, n: int)
    requires
        0 <= n,
    ensures
        0 <= count_full_rows_below(cells, bounds, y, n) <= n,
        count_full_rows_below(cells, bounds, y, n) > 0 ==> y < bounds.y + (n - 1) * SEGMENT_SIZE,
    decreases n,
{
    if n > 0 {
        lemma_count_below_bounds(cells, bounds, y, n - 1);
    }
}

/// True when some settled cell's origin is exactly (x, y).
fn has_cell_at(cells: &Vec<Square>, x: i64, y: i64) -> (r: bool)
    ensures
        r == occupied_at(cells_view(cells@), x as int, y as int),
{
    let mut found = false;
    let mut i: usize = 0;
    while i < cells.len()
        invariant
            0 <= i <= cells@.len(),
            found == exists|k: int|
                0 <= k < i && (#[trigger] cells@[k])@.x == x && cells@[k]@.y == y,
        decreases cells@.len() - i,
    {
        if cells[i].x == x && cells[i].y == y {
            found = true;
        }
        i = i + 1;
    }
    proof {
        assert(forall|k: int| 0 <= k < cells@.len() ==> cells_view(cells@)[k] == (#[trigger] cells@[k])@);
    }
    found
}

impl Board {
    /// Scans the grid for full rows, removes every settled cell lying in
    /// one, drops each remaining cell by one row size for every cleared row
    /// below it, and reports how many rows were cleared (zero when none is
    /// full).
    #[verifier::loop_isolation(false)]
    pub fn clear_lines(&mut self) -> (n: usize)
        requires
            old(self)@.wf(),
        ensures
            final(self)@.bounds == old(self)@.bounds,
            n as int == count_full_rows_upto(
                old(self)@.cells,
                old(self)@.bounds,
                BOARD_HEIGHT as int,
            ),
            final(self)@.cells == v_cleared_cells(
                old(self)@.cells,
                old(self)@.bounds,
                old(self)@.cells,
            ),
            final(self)@.wf(),
    {
        let ghost orig = old(self)@.cells;
        let ghost b = old(self)@.bounds;

        // which grid rows are full
        let mut full: Vec<bool> = Vec::new();
        let mut r: usize = 0;
        while r < BOARD_HEIGHT as usize
            invariant
                0 <= r <= BOARD_HEIGHT,
                full@.len() == r,
                forall|k: int| 0 <= k < r ==> full@[k] == row_full(orig, b, k),
            decreases BOARD_HEIGHT - r,
        {
            let mut is_full = true;
            let mut c: usize = 0;
            while c < BOARD_WIDTH as usize
                invariant
                    0 <= c <= BOARD_WIDTH,
                    0 <= r < BOARD_HEIGHT,
                    is_full == forall|cc: int|
                        0 <= cc < c ==> occupied_at(orig, col_x(b, cc), row_y(b, r as int)),
                decreases BOARD_WIDTH - c,
            {
                let x = self.bounds.x + (c as i64) * SEGMENT_SIZE;
                let y = self.bounds.y + (r as i64) * SEGMENT_SIZE;
                let occ = has_cell_at(&self.cells, x, y);
                proof {
                    assert(x as int == col_x(b, c as int));
                    assert(y as int == row_y(b, r as int));
                }
                let ghost was_full = is_full;
                is_full = is_full && occ;
                proof {
                    if is_full {
                        assert forall|cc: int|
                            0 <= cc < c + 1 implies occupied_at(
                            orig,
                            col_x(b, cc),
                            row_y(b, r as int),
                        ) by {
                            if cc < c {
                                assert(occupied_at(orig, col_x(b, cc), row_y(b, r as int)));
                            }
                        }
                    }
                }
                c = c + 1;
            }
            proof {
                if is_full {
                    assert(row_full(orig, b, r as int));
                }
            }
            full.push(is_full);
            r = r + 1;
        }

        // how many rows clear
        let mut count: usize = 0;
        let mut r2: usize = 0;
        while r2 < BOARD_HEIGHT as usize
            invariant
                0 <= r2 <= BOARD_HEIGHT,
                count as int == count_full_rows_upto(orig, b, r2 as int),
                count <= r2,
            decreases BOARD_HEIGHT - r2,
        {
            if full[r2] {
                count = count + 1;
            }
            r2 = r2 + 1;
        }

        // rebuild the registry
        let mut kept: Vec<Square> = Vec::new();
        let mut i: usize = 0;
        while i < self.cells.len()
            invariant
                0 <= i <= self.cells@.len(),
                cells_view(kept@) == v_cleared_cells(orig, b, orig.take(i as int)),
                forall|k: int| 0 <= k < kept@.len() ==> settled_cell_ok((#[trigger] kept@[k])@),
            decreases self.cells@.len() - i,
        {
            let sq = self.cells[i];
            proof {
                assert(sq@ == orig[i as int]);
                assert(settled_cell_ok(sq@));
            }
            let mut cleared = false;
            let mut drop_rows: i64 = 0;
            let mut r3: usize = 0;
            while r3 < BOARD_HEIGHT as usize
                invariant
                    0 <= r3 <= BOARD_HEIGHT,
                    0 <= drop_rows <= r3,
                    cleared == exists|rr: int|
                        0 <= rr < r3 && #[trigger] row_full(orig, b, rr) && sq@.y == row_y(b, rr),
                    drop_rows as int == count_full_rows_below(orig, b, sq@.y, r3 as int),
                decreases BOARD_HEIGHT - r3,
            {
                if full[r3] {
                    let ry = self.bounds.y + (r3 as i64) * SEGMENT_SIZE;
                    proof {
                        assert(ry as int == row_y(b, r3 as int));
                    }
                    if sq.y == ry {
                        cleared = true;
                    } else if ry > sq.y {
                        drop_rows = drop_rows + 1;
                    }
                }
                r3 = r3 + 1;
            }
            if !cleared {
                let dropped = Square::new(sq.x, sq.y + drop_rows * SEGMENT_SIZE, sq.size);
                proof {
                    lemma_count_below_bounds(orig, b, sq@.y, BOARD_HEIGHT as int);
                    assert(dropped@ == v_dropped_cell(orig, b, orig[i as int]));
                    assert(settled_cell_ok(dropped@));
                }
                kept.push(dropped);
            }
            proof {
                assert(orig.take(i + 1).drop_last() =~= orig.take(i as int));
                assert(orig.take(i + 1).last() == orig[i as int]);
                assert(cleared == cell_cleared(orig, b, orig[i as int]));
                assert(cells_view(kept@) =~= v_cleared_cells(orig, b, orig.take(i + 1)));
            }
            i = i + 1;
        }

        proof {
            assert(orig.take(orig.len() as int) =~= orig);
        }
        self.cells = kept;
        proof {
            assert(self@.cells =~= v_cleared_cells(orig, b, orig));
        }
        count
    }
}

/// The count of full rows under `n` is non-negative, and zero only when no
/// such row is full.
proof fn lemma_count_upto_zero(cells: Seq<SquareV>, bounds: RectV, n: int)
    requires
        0 <= n,
    ensures
        0 <= count_full_rows_upto(cells, bounds, n),
        count_full_rows_upto(cells, bounds, n) == 0 ==> forall|r: int|
            0 <= r < n ==> !row_full(cells, bounds, r),
    decreases n,
{
    if n > 0 {
        lemma_count_upto_zero(cells, bounds, n - 1);
    }
}

/// With no full row under `n`, no full row lies below any height.
proof fn lemma_count_below_zero(cells: Seq<SquareV>, bounds: RectV, y: int, n: int)
    requires
        0 <= n,
        forall|r: int| 0 <= r < n ==> !row_full(cells, bounds, r),
    ensures
        count_full_rows_below(cells, bounds, y, n) == 0,
    decreases n,
{
    if n > 0 {
        lemma_count_below_zero(cells, bounds, y, n - 1);
    }
}

/// With no full row at all, the clear keeps every cell in place.
proof fn lemma_cleared_cells_identity(cells: Seq<SquareV>, bounds: RectV, s: Seq<SquareV>)
    requires
        forall|r: int| 0 <= r < BOARD_HEIGHT ==> !row_full(cells, bounds, r),
    ensures
        v_cleared_cells(cells, bounds, s) == s,
    decreases s.len(),
{
    if s.len() > 0 {
        lemma_cleared_cells_identity(cells, bounds, s.drop_last());
        lemma_count_below_zero(cells, bounds, s.last().y, BOARD_HEIGHT as int);
        assert(!cell_cleared(cells, bounds, s.last()));
        assert(v_dropped_cell(cells, bounds, s.last()) =~= s.last());
        assert(v_cleared_cells(cells, bounds, s) =~= s);
    }
}

/// Law: when no grid row is full, the clear reports zero rows and leaves
/// the settled registry exactly as it was.
pub proof fn lemma_clear_without_full_rows(cells: Seq<SquareV>, bounds: RectV)
    requires
        count_full_rows_upto(cells, bounds, BOARD_HEIGHT as int) == 0,
    ensures
        v_cleared_cells(cells, bounds, cells) == cells,
{
    lemma_count_upto_zero(cells, bounds, BOARD_HEIGHT as int);
    lemma_cleared_cells_identity(cells, bounds, cells);
}

} // verus!
