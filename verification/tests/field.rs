use tetrs::board::{Board, BOARD_HEIGHT, BOARD_WIDTH};
use tetrs::geom::Vec2i;
use tetrs::tetromino::Tetromino;
use tetrs::SEGMENT_SIZE;

fn squares_of(t: &Tetromino) -> Vec<(i64, i64, i64)> {
    t.squares().iter().map(|s| (s.x, s.y, s.size)).collect()
}

fn settled_of(b: &Board) -> Vec<(i64, i64, i64)> {
    b.settled().iter().map(|s| (s.x, s.y, s.size)).collect()
}

#[test]
fn board_is_centered_and_sized_to_the_grid() {
    let b = Board::new(400, 600);
    let r = b.bounds();
    assert_eq!(r.x, 100);
    assert_eq!(r.y, 100);
    assert_eq!(r.w, BOARD_WIDTH * SEGMENT_SIZE);
    assert_eq!(r.h, BOARD_HEIGHT * SEGMENT_SIZE);
    assert_eq!(settled_of(&b).len(), 0);
}

#[test]
fn top_middle_is_centered_one_cell_down() {
    let b = Board::new(400, 600);
    let v = b.top_middle();
    assert_eq!(v.x, 200);
    assert_eq!(v.y, 120);
}

#[test]
fn keep_in_bounds_leaves_an_inside_piece_alone() {
    let b = Board::new(400, 600);
    let mut t = Tetromino::new_o(b.top_middle());
    let before = squares_of(&t);
    b.keep_in_bounds(&mut t);
    assert_eq!(squares_of(&t), before);
}

#[test]
fn keep_in_bounds_lifts_a_piece_25_below_the_bottom() {
    // field of 10 x 20 cells with its bottom edge at y == 500; the O block's
    // bottom edge is 20 below its pivot, so this pivot puts it 25 past the
    // field's bottom edge
    let b = Board::new(400, 600);
    let bottom = b.bounds().y + b.bounds().h;
    let mut t = Tetromino::new_o(Vec2i::new(200, bottom + 5));
    assert_eq!(t.bottom(), bottom + 25);
    let pivot_before = *t.position();
    b.keep_in_bounds(&mut t);
    assert_eq!(t.bottom(), bottom);
    assert_eq!(t.position().x, pivot_before.x);
    assert_eq!(t.position().y, pivot_before.y - 25);
}

#[test]
fn keep_in_bounds_corrects_both_axes_at_a_corner() {
    let b = Board::new(400, 600);
    let r = b.bounds();
    // far past the bottom-left corner
    let mut t = Tetromino::new_o(Vec2i::new(r.x - 100, r.y + r.h + 100));
    b.keep_in_bounds(&mut t);
    assert_eq!(t.left(), r.x);
    assert_eq!(t.bottom(), r.y + r.h);
}

#[test]
fn keep_in_bounds_is_idempotent() {
    let b = Board::new(400, 600);
    let r = b.bounds();
    let mut t = Tetromino::new_j(Vec2i::new(r.x - 55, r.y - 33));
    b.keep_in_bounds(&mut t);
    let once = squares_of(&t);
    let pivot_once = *t.position();
    b.keep_in_bounds(&mut t);
    assert_eq!(squares_of(&t), once);
    assert_eq!(*t.position(), pivot_once);
}

#[test]
fn find_breach_returns_none_for_an_inside_piece() {
    let b = Board::new(400, 600);
    let t = Tetromino::new_t(b.top_middle());
    let mut inside = t;
    b.keep_in_bounds(&mut inside);
    assert!(b.find_breach(&inside).is_none());
}

#[test]
fn find_breach_reports_a_cell_5_past_the_bottom() {
    let b = Board::new(400, 600);
    let r = b.bounds();
    let bottom = r.y + r.h;
    // a T piece turned twice points its single stem cell downward: the stem's
    // bottom edge is 30 below the pivot, the other three cells' only 10
    let mut t = Tetromino::new_t(Vec2i::new(200, bottom - 25));
    t.rotate(true);
    t.rotate(true);
    assert_eq!(t.bottom(), bottom + 5);
    let breach = b.find_breach(&t).expect("the stem protrudes");
    assert_eq!(breach.h, 5);
    assert_eq!(breach.w, SEGMENT_SIZE);
    assert_eq!(breach.y, bottom);
    assert_eq!(breach.x, 200 - 10);
}

#[test]
fn add_piece_appends_its_four_cells() {
    let mut b = Board::new(400, 600);
    let t = Tetromino::new_l(b.top_middle());
    b.add_piece(t);
    assert_eq!(settled_of(&b), squares_of(&t));
    let u = Tetromino::new_s(b.top_middle());
    b.add_piece(u);
    let mut expected = squares_of(&t);
    expected.extend(squares_of(&u));
    assert_eq!(settled_of(&b), expected);
}

#[test]
fn clear_lines_reports_zero_on_an_empty_board() {
    let mut b = Board::new(400, 600);
    assert_eq!(b.clear_lines(), 0);
    assert_eq!(settled_of(&b).len(), 0);
}

#[test]
fn clear_lines_reports_zero_when_no_row_is_full() {
    let mut b = Board::new(400, 600);
    let t = Tetromino::new_z(b.top_middle());
    b.add_piece(t);
    let before = settled_of(&b);
    assert_eq!(b.clear_lines(), 0);
    assert_eq!(settled_of(&b), before);
}

#[test]
fn clear_lines_clears_a_full_bottom_row_and_shifts_the_rest_down() {
    let mut b = Board::new(400, 600);
    let r = b.bounds();
    // three I bars whose cells all lie in the bottom row (row 19, cell
    // origins at y == r.y + 380): together they cover all ten columns,
    // with two cells laid twice
    let bar_y = r.y + r.h;
    b.add_piece(Tetromino::new_i(Vec2i::new(r.x + 40, bar_y)));
    b.add_piece(Tetromino::new_i(Vec2i::new(r.x + 120, bar_y)));
    b.add_piece(Tetromino::new_i(Vec2i::new(r.x + 160, bar_y)));
    // one O block higher up, in rows 11 and 12
    let block = Tetromino::new_o(Vec2i::new(r.x + 20, r.y + 240));
    b.add_piece(block);
    let block_cells = squares_of(&block);

    assert_eq!(b.clear_lines(), 1);

    let expected: Vec<(i64, i64, i64)> =
        block_cells.iter().map(|&(x, y, size)| (x, y + SEGMENT_SIZE, size)).collect();
    assert_eq!(settled_of(&b), expected);
}

#[test]
fn clear_lines_clears_two_full_rows_at_once() {
    let mut b = Board::new(400, 600);
    let r = b.bounds();
    // five O blocks fill the bottom two rows completely
    for k in 0..5 {
        let px = r.x + 20 + 40 * k;
        b.add_piece(Tetromino::new_o(Vec2i::new(px, r.y + r.h - SEGMENT_SIZE)));
    }
    // one extra cell group above, in rows 1 and 2
    let block = Tetromino::new_o(Vec2i::new(r.x + 20, r.y + 40));
    b.add_piece(block);
    let block_cells = squares_of(&block);

    assert_eq!(b.clear_lines(), 2);

    let expected: Vec<(i64, i64, i64)> =
        block_cells.iter().map(|&(x, y, size)| (x, y + 2 * SEGMENT_SIZE, size)).collect();
    assert_eq!(settled_of(&b), expected);
}
