use vstd::prelude::*;

use crate::SEGMENT_SIZE;
use crate::board::{v_hold_position, v_keep_in_bounds, v_top_middle, Board, BoardV, BOARD_LIMIT};
use crate::geom::{Vec2i, Vec2V};
use crate::tetromino::{v_new, v_rotate, v_translate, PieceV, Tetromino};

verus! {

/// The directional and rotation requests gathered for one frame; the
/// driver polls the keys and hands the flags in.
#[derive(Debug, Clone, Copy, PartialEq, Eq, Structural, Default)]
pub struct InputState {
    pub left: bool,
    pub right: bool,
    pub rotate_cw: bool,
    pub rotate_ccw: bool,
    pub hold: bool,
}

/// The running game: the score, the game-over flag, the falling piece, the
/// piece on deck, the optional held piece, and the field.
#[derive(Debug)]
pub struct Game {
    score: u32,
    is_over: bool,
    current_piece: Tetromino,
    next_piece: Tetromino,
    held_piece: Option<Tetromino>,
    board: Board,
}

/// Mathematical model of the game state.
#[verifier::ext_equal]
pub ghost struct GameV {
    pub score: int,
    pub is_over: bool,
    pub current: PieceV,
    pub next: PieceV,
    pub held: Option<PieceV>,
    pub board: BoardV,
}

impl View for Game {
    type V = GameV;

    closed spec fn view(&self) -> GameV {
        GameV {
            score: self.score as int,
            is_over: self.is_over,
            current: self.current_piece@,
            next: self.next_piece@,
            held: match self.held_piece {
                Some(t) => Some(t@),
                None => None,
            },
            board: self.board@,
        }
    }
}

/// The piece's pivot stays within a few cell sizes of the board limit, so
/// that one frame's worth of moves cannot push it out of the world range.
pub open spec fn piece_near_board(p: PieceV) -> bool {
    &&& -BOARD_LIMIT - 4 * SEGMENT_SIZE <= p.pivot.x <= BOARD_LIMIT + 4 * SEGMENT_SIZE
    &&& -BOARD_LIMIT - 4 * SEGMENT_SIZE <= p.pivot.y <= BOARD_LIMIT + 4 * SEGMENT_SIZE
}

impl GameV {
    /// Well-formedness: the field is well-formed and every piece in play is
    /// a well-formed piece near the board.
    pub open spec fn wf(self) -> bool {
        &&& self.board.wf()
        &&& self.current.wf()
        &&& piece_near_board(self.current)
        &&& self.next.wf()
        &&& piece_near_board(self.next)
        &&& self.held matches Some(h) ==> h.wf() && piece_near_board(h)
    }
}

/// The falling piece after one frame's directional and rotation requests,
/// applied in the fixed order left, right, counter-clockwise, clockwise.
pub open spec fn v_after_moves(p: PieceV, input: InputState) -> PieceV {
    let p1 = if input.left {
        v_translate(p, Vec2V { x: -SEGMENT_SIZE as int, y: 0 })
    } else {
        p
    };
    let p2 = if input.right {
        v_translate(p1, Vec2V { x: SEGMENT_SIZE as int, y: 0 })
    } else {
        p1
    };
    let p3 = if input.rotate_ccw {
        v_rotate(p2, false)
    } else {
        p2
    };
    if input.rotate_cw {
        v_rotate(p3, true)
    } else {
        p3
    }
}

impl Game {
    /// A fresh game over a field centered in a canvas of the given size:
    /// score zero, nothing held, two random pieces drawn at the origin.
    /// The process-wide random source is expected to have been seeded once
    /// by the driver at start-up.
    pub fn new(canvas_width: i64, canvas_height: i64) -> (g: Game)
        requires
            crate::board::BOARD_WIDTH * SEGMENT_SIZE <= canvas_width <= BOARD_LIMIT,
            crate::board::BOARD_HEIGHT * SEGMENT_SIZE <= canvas_height <= BOARD_LIMIT,
        ensures
            g@.wf(),
            g@.score == 0,
            !g@.is_over,
            g@.held is None,
            g@.board.cells.len() == 0,
            g@.board.bounds == (crate::geom::RectV {
                x: (canvas_width - crate::board::BOARD_WIDTH * SEGMENT_SIZE) as int / 2,
                y: (canvas_height - crate::board::BOARD_HEIGHT * SEGMENT_SIZE) as int / 2,
                w: crate::board::BOARD_WIDTH * SEGMENT_SIZE as int,
                h: crate::board::BOARD_HEIGHT * SEGMENT_SIZE as int,
            }),
            g@.current == v_new(g@.current.shape, Vec2V { x: 0, y: 0 }),
            g@.next == v_new(g@.next.shape, Vec2V { x: 0, y: 0 }),
    {
        Game {
            score: 0,
            is_over: false,
            current_piece: Tetromino::random(),
            next_piece: Tetromino::random(),
            held_piece: None,
            board: Board::new(canvas_width, canvas_height),
        }
    }

    pub fn score(&self) -> (s: u32)
        ensures
            s as int == self@.score,
    {
        self.score
    }

    pub fn is_over(&self) -> (o: bool)
        ensures
            o == self@.is_over,
    {
        self.is_over
    }

    pub fn current_piece(&self) -> (p: &Tetromino)
        ensures
            p@ == self@.current,
    {
        &self.current_piece
    }

    pub fn next_piece(&self) -> (p: &Tetromino)
        ensures
            p@ == self@.next,
    {
        &self.next_piece
    }

    pub fn held_piece(&self) -> (p: &Option<Tetromino>)
        ensures
            p is Some <==> self@.held is Some,
            p matches Some(t) ==> self@.held == Some(t@),
    {
        &self.held_piece
    }

    pub fn board(&self) -> (b: &Board)
        ensures
            b@ == self@.board,
    {
        &self.board
    }

    /// Replaces the falling piece by a fresh random piece laid out at the
    /// field's spawn point. The piece on deck, the held piece, the field,
    /// the score and the game-over flag stay as they were.
    fn spawn_piece(&mut self)
        requires
            old(self)@.wf(),
        ensures
            final(self)@ == (GameV {
                current: final(self)@.current,
                ..old(self)@
            }),
            final(self)@.current == v_new(
                final(self)@.current.shape,
                v_top_middle(old(self)@.board.bounds),
            ),
            final(self)@.wf(),
    {
        self.current_piece = Tetromino::random();
        let tm = self.board.top_middle();
        self.current_piece.set_position(tm);
        proof {
            assert(final(self)@ =~= (GameV { current: final(self)@.current, ..old(self)@ }));
        }
    }

    /// Parks the falling piece at the hold slot beside the field (laid out
    /// afresh there) and makes it the held piece. The piece that was held
    /// is laid out afresh at the spawn point and becomes the falling piece;
    /// when nothing was held, a fresh random piece spawns instead.
    fn swap_held_piece(&mut self)
        requires
            old(self)@.board.wf(),
            old(self)@.next.wf(),
            piece_near_board(old(self)@.next),
            old(self)@.held matches Some(h) ==> h.wf() && piece_near_board(h),
        ensures
            final(self)@.score == old(self)@.score,
            final(self)@.is_over == old(self)@.is_over,
            final(self)@.next == old(self)@.next,
            final(self)@.board == old(self)@.board,
            final(self)@.held == Some(
                v_new(old(self)@.current.shape, v_hold_position(old(self)@.board.bounds)),
            ),
            old(self)@.held matches Some(h) ==> final(self)@.current == v_new(
                h.shape,
                v_top_middle(old(self)@.board.bounds),
            ),
            old(self)@.held is None ==> final(self)@.current == v_new(
                final(self)@.current.shape,
                v_top_middle(old(self)@.board.bounds),
            ),
            final(self)@.wf(),
    {
        let bounds = self.board.bounds();
        let hold_pos = Vec2i::new(
            bounds.right() + 3 * SEGMENT_SIZE,
            bounds.top() + 2 * SEGMENT_SIZE,
        );
        self.current_piece.set_position(hold_pos);

        match self.held_piece {
            Some(held) => {
                self.held_piece = Some(self.current_piece);
                self.current_piece = held;
                let tm = self.board.top_middle();
                self.current_piece.set_position(tm);
            },
            None => {
                self.held_piece = Some(self.current_piece);
                self.spawn_piece();
            },
        }
    }

    /// One frame of the game rules: applies the frame's move and rotation
    /// requests to the falling piece, performs the hold swap when asked,
    /// lets the piece fall one cell, and clamps it back inside the field.
    /// Drawing and input polling belong to the driver.
    #[verifier::rlimit(100)]
    pub fn update(&mut self, input: InputState)
        requires
            old(self)@.wf(),
        ensures
            final(self)@.score == old(self)@.score,
            final(self)@.is_over == old(self)@.is_over,
            final(self)@.next == old(self)@.next,
            final(self)@.board == old(self)@.board,
            !input.hold ==> final(self)@.held == old(self)@.held && final(self)@.current
                == v_keep_in_bounds(
                old(self)@.board.bounds,
                v_translate(
                    v_after_moves(old(self)@.current, input),
                    Vec2V { x: 0, y: SEGMENT_SIZE as int },
                ),
            ),
            input.hold ==> final(self)@.held == Some(
                v_new(
                    v_after_moves(old(self)@.current, input).shape,
                    v_hold_position(old(self)@.board.bounds),
                ),
            ),
            input.hold ==> (old(self)@.held matches Some(h) ==> final(self)@.current
                == v_keep_in_bounds(
                old(self)@.board.bounds,
                v_translate(
                    v_new(h.shape, v_top_middle(old(self)@.board.bounds)),
                    Vec2V { x: 0, y: SEGMENT_SIZE as int },
                ),
            )),
            input.hold && old(self)@.held is None ==> final(self)@.current == v_keep_in_bounds(
                old(self)@.board.bounds,
                v_translate(
                    v_new(final(self)@.current.shape, v_top_middle(old(self)@.board.bounds)),
                    Vec2V { x: 0, y: SEGMENT_SIZE as int },
                ),
            ),
            final(self)@.wf(),
    {
        if input.left {
            self.current_piece.move_left();
        }
        if input.right {
            self.current_piece.move_right();
        }
        if input.rotate_ccw {
            self.current_piece.rotate(false);
        }
        if input.rotate_cw {
            self.current_piece.rotate(true);
        }
        proof {
            assert(self.current_piece@ == v_after_moves(old(self)@.current, input));
        }
        if input.hold {
            self.swap_held_piece();
        }
        self.current_piece.move_down();
        self.board.keep_in_bounds(&mut self.current_piece);
    }
}

} // verus!
