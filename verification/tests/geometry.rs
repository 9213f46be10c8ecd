use tetrs::geom::Vec2i;
use tetrs::tetromino::{Shape, Tetromino};
use tetrs::SEGMENT_SIZE;

fn squares_of(t: &Tetromino) -> Vec<(i64, i64, i64)> {
    t.squares().iter().map(|s| (s.x, s.y, s.size)).collect()
}

fn offsets_of(t: &Tetromino, pivot: Vec2i) -> Vec<(i64, i64)> {
    t.squares().iter().map(|s| (s.x - pivot.x, s.y - pivot.y)).collect()
}

#[test]
fn layout_has_four_unit_cells_for_every_shape() {
    let pivot = Vec2i::new(100, 100);
    let pieces = tetrs::tetromino::all_shapes(pivot);
    for piece in pieces.iter() {
        let cells = squares_of(piece);
        assert_eq!(cells.len(), 4);
        for &(_, _, size) in cells.iter() {
            assert_eq!(size, SEGMENT_SIZE);
        }
        assert_eq!(piece.position().x, 100);
        assert_eq!(piece.position().y, 100);
    }
}

#[test]
fn layout_i_matches_pattern() {
    let pivot = Vec2i::new(100, 100);
    let t = Tetromino::new_i(pivot);
    assert_eq!(offsets_of(&t, pivot), vec![(-40, -20), (-20, -20), (0, -20), (20, -20)]);
}

#[test]
fn layout_o_matches_pattern() {
    let pivot = Vec2i::new(100, 100);
    let t = Tetromino::new_o(pivot);
    assert_eq!(offsets_of(&t, pivot), vec![(-20, -20), (0, -20), (-20, 0), (0, 0)]);
}

#[test]
fn layout_t_matches_pattern() {
    let pivot = Vec2i::new(100, 100);
    let t = Tetromino::new_t(pivot);
    assert_eq!(offsets_of(&t, pivot), vec![(-10, -30), (-10, -10), (10, -10), (-30, -10)]);
}

#[test]
fn layout_j_matches_pattern() {
    let pivot = Vec2i::new(100, 100);
    let t = Tetromino::new_j(pivot);
    assert_eq!(offsets_of(&t, pivot), vec![(-30, -30), (-30, -10), (-10, -10), (10, -10)]);
}

#[test]
fn layout_l_matches_pattern() {
    let pivot = Vec2i::new(100, 100);
    let t = Tetromino::new_l(pivot);
    assert_eq!(offsets_of(&t, pivot), vec![(-30, -10), (-10, -10), (10, -10), (10, -30)]);
}

#[test]
fn layout_s_matches_pattern() {
    let pivot = Vec2i::new(100, 100);
    let t = Tetromino::new_s(pivot);
    assert_eq!(offsets_of(&t, pivot), vec![(-10, -30), (10, -30), (-30, -10), (-10, -10)]);
}

#[test]
fn layout_z_matches_pattern() {
    let pivot = Vec2i::new(100, 100);
    let t = Tetromino::new_z(pivot);
    assert_eq!(offsets_of(&t, pivot), vec![(-30, -30), (-10, -30), (-10, -10), (10, -10)]);
}

#[test]
fn shape_tags_match_constructors() {
    assert_eq!(Tetromino::new_i(Vec2i::new(0, 0)).shape(), Shape::I);
    assert_eq!(Tetromino::new_o(Vec2i::new(0, 0)).shape(), Shape::O);
    assert_eq!(Tetromino::new_t(Vec2i::new(0, 0)).shape(), Shape::T);
    assert_eq!(Tetromino::new_j(Vec2i::new(0, 0)).shape(), Shape::J);
    assert_eq!(Tetromino::new_l(Vec2i::new(0, 0)).shape(), Shape::L);
    assert_eq!(Tetromino::new_s(Vec2i::new(0, 0)).shape(), Shape::S);
    assert_eq!(Tetromino::new_z(Vec2i::new(0, 0)).shape(), Shape::Z);
}

#[test]
fn translate_round_trip_restores_piece() {
    let mut t = Tetromino::new_j(Vec2i::new(60, -40));
    let before = squares_of(&t);
    let d = Vec2i::new(7, 13);
    t.add_position(d);
    assert_ne!(squares_of(&t), before);
    t.add_position(d.negated());
    assert_eq!(squares_of(&t), before);
    assert_eq!(t.position().x, 60);
    assert_eq!(t.position().y, -40);
}

#[test]
fn translate_moves_pivot_and_cells_together() {
    let mut t = Tetromino::new_s(Vec2i::new(0, 0));
    let before = squares_of(&t);
    t.add_position(Vec2i::new(5, -9));
    let after = squares_of(&t);
    for (b, a) in before.iter().zip(after.iter()) {
        assert_eq!(a.0, b.0 + 5);
        assert_eq!(a.1, b.1 - 9);
        assert_eq!(a.2, b.2);
    }
    assert_eq!(t.position().x, 5);
    assert_eq!(t.position().y, -9);
}

#[test]
fn rotate_clockwise_once_i_piece() {
    let mut t = Tetromino::new_i(Vec2i::new(0, 0));
    t.rotate(true);
    assert_eq!(
        squares_of(&t),
        vec![(-20, 20, 20), (-20, 0, 20), (-20, -20, 20), (-20, -40, 20)]
    );
}

#[test]
fn rotate_four_times_is_identity_for_every_shape() {
    let pieces = tetrs::tetromino::all_shapes(Vec2i::new(30, 50));
    for piece in pieces.iter() {
        let mut t = *piece;
        let before = squares_of(&t);
        t.rotate(true);
        t.rotate(true);
        t.rotate(true);
        t.rotate(true);
        assert_eq!(squares_of(&t), before);
        assert_eq!(t.position().x, 30);
        assert_eq!(t.position().y, 50);
    }
}

#[test]
fn rotate_clockwise_then_counterclockwise_is_identity() {
    let pieces = tetrs::tetromino::all_shapes(Vec2i::new(-10, 70));
    for piece in pieces.iter() {
        let mut t = *piece;
        let before = squares_of(&t);
        t.rotate(true);
        t.rotate(false);
        assert_eq!(squares_of(&t), before);
        let mut u = *piece;
        u.rotate(false);
        u.rotate(true);
        assert_eq!(squares_of(&u), before);
    }
}

#[test]
fn rotation_keeps_cell_size() {
    let mut t = Tetromino::new_z(Vec2i::new(0, 0));
    t.rotate(true);
    t.rotate(true);
    for s in t.squares().iter() {
        assert_eq!(s.size, SEGMENT_SIZE);
    }
}

#[test]
fn cardinal_moves_shift_by_one_cell() {
    let mut t = Tetromino::new_t(Vec2i::new(0, 0));
    t.move_left();
    assert_eq!((t.position().x, t.position().y), (-20, 0));
    t.move_right();
    assert_eq!((t.position().x, t.position().y), (0, 0));
    t.move_down();
    assert_eq!((t.position().x, t.position().y), (0, 20));
    t.move_up();
    assert_eq!((t.position().x, t.position().y), (0, 0));
}

#[test]
fn extents_of_t_piece() {
    let t = Tetromino::new_t(Vec2i::new(0, 0));
    assert_eq!(t.top(), -30);
    assert_eq!(t.bottom(), 10);
    assert_eq!(t.left(), -30);
    assert_eq!(t.right(), 30);
}

#[test]
fn extents_of_i_piece() {
    let t = Tetromino::new_i(Vec2i::new(0, 0));
    assert_eq!(t.top(), -20);
    assert_eq!(t.bottom(), 0);
    assert_eq!(t.left(), -40);
    assert_eq!(t.right(), 40);
}

#[test]
fn set_position_resets_orientation() {
    let mut t = Tetromino::new_l(Vec2i::new(0, 0));
    t.rotate(true);
    t.set_position(Vec2i::new(200, 300));
    let fresh = Tetromino::new_l(Vec2i::new(200, 300));
    assert_eq!(squares_of(&t), squares_of(&fresh));
}

#[test]
fn overlap_detected_on_identical_pieces() {
    let a = Tetromino::new_s(Vec2i::new(40, 40));
    let b = Tetromino::new_s(Vec2i::new(40, 40));
    assert!(a.check_collision(&b));
}

#[test]
fn overlap_on_single_shared_cell() {
    // the O block's lower row lies at y in {-20, 0}; an I bar whose row is
    // y == 0 and whose x range meets the O block shares the cell at (0, 0)
    let a = Tetromino::new_o(Vec2i::new(20, 20));
    let b = Tetromino::new_i(Vec2i::new(40, 20));
    assert!(a.check_collision(&b));
}

#[test]
fn no_overlap_when_apart() {
    let a = Tetromino::new_o(Vec2i::new(0, 0));
    let b = Tetromino::new_o(Vec2i::new(200, 200));
    assert!(!a.check_collision(&b));
}

#[test]
fn no_overlap_when_misaligned() {
    // same region of the plane, but origins differ by half a cell
    let a = Tetromino::new_o(Vec2i::new(0, 0));
    let b = Tetromino::new_o(Vec2i::new(10, 0));
    assert!(!a.check_collision(&b));
}

#[test]
fn overlap_is_symmetric() {
    let a = Tetromino::new_o(Vec2i::new(20, 20));
    let b = Tetromino::new_i(Vec2i::new(40, 20));
    assert_eq!(a.check_collision(&b), b.check_collision(&a));
    let c = Tetromino::new_o(Vec2i::new(500, 500));
    assert_eq!(a.check_collision(&c), c.check_collision(&a));
}

#[test]
fn random_piece_is_laid_out_at_requested_position() {
    let pivot = Vec2i::new(80, 120);
    let t = Tetromino::random_at(pivot);
    assert_eq!(t.position().x, 80);
    assert_eq!(t.position().y, 120);
    let fresh = match t.shape() {
        Shape::I => Tetromino::new_i(pivot),
        Shape::O => Tetromino::new_o(pivot),
        Shape::T => Tetromino::new_t(pivot),
        Shape::J => Tetromino::new_j(pivot),
        Shape::L => Tetromino::new_l(pivot),
        Shape::S => Tetromino::new_s(pivot),
        Shape::Z => Tetromino::new_z(pivot),
    };
    assert_eq!(squares_of(&t), squares_of(&fresh));
}

#[test]
fn from_draw_selects_shapes_by_modulo_seven() {
    let pivot = Vec2i::new(0, 0);
    let order = [Shape::I, Shape::O, Shape::T, Shape::J, Shape::L, Shape::S, Shape::Z];
    for r in 0u32..14 {
        let t = Tetromino::from_draw(r, pivot);
        assert_eq!(t.shape(), order[(r % 7) as usize]);
        assert_eq!(t.position().x, 0);
        assert_eq!(t.position().y, 0);
    }
}

#[test]
fn from_draw_lays_the_selected_shape_out_exactly() {
    let pivot = Vec2i::new(80, 120);
    let t = Tetromino::from_draw(3, pivot);
    let fresh = Tetromino::new_j(pivot);
    assert_eq!(squares_of(&t), squares_of(&fresh));
}
