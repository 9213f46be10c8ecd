use tetrs::game::{Game, InputState};

fn no_input() -> InputState {
    InputState { left: false, right: false, rotate_cw: false, rotate_ccw: false, hold: false }
}

#[test]
fn fresh_game_starts_empty() {
    let g = Game::new(400, 600);
    assert_eq!(g.score(), 0);
    assert!(!g.is_over());
    assert!(g.held_piece().is_none());
    assert_eq!(g.board().settled().len(), 0);
    assert_eq!(g.current_piece().position().x, 0);
    assert_eq!(g.current_piece().position().y, 0);
}

#[test]
fn fresh_game_centers_its_field_in_the_canvas() {
    let g = Game::new(400, 600);
    let r = g.board().bounds();
    assert_eq!((r.x, r.y, r.w, r.h), (100, 100, 200, 400));
    let h = Game::new(1000, 800);
    let s = h.board().bounds();
    assert_eq!((s.x, s.y, s.w, s.h), (400, 200, 200, 400));
}

#[test]
fn update_keeps_the_piece_inside_the_field() {
    let mut g = Game::new(400, 600);
    let r = g.board().bounds();
    for _ in 0..30 {
        g.update(no_input());
        let p = g.current_piece();
        assert!(p.top() >= r.y);
        assert!(p.bottom() <= r.y + r.h);
        assert!(p.left() >= r.x);
        assert!(p.right() <= r.x + r.w);
    }
}

#[test]
fn update_moves_the_piece_down_until_it_rests_on_the_floor() {
    let mut g = Game::new(400, 600);
    let r = g.board().bounds();
    // more frames than the field is tall: the piece ends flush with the
    // bottom edge and stays there
    for _ in 0..40 {
        g.update(no_input());
    }
    assert_eq!(g.current_piece().bottom(), r.y + r.h);
    let before = g.current_piece().position().y;
    g.update(no_input());
    assert_eq!(g.current_piece().position().y, before);
}

#[test]
fn update_applies_a_left_request() {
    let mut g = Game::new(400, 600);
    // settle the piece against the left wall: it cannot go further
    let left = InputState { left: true, ..no_input() };
    for _ in 0..30 {
        g.update(left);
    }
    let r = g.board().bounds();
    assert_eq!(g.current_piece().left(), r.x);
}

#[test]
fn update_does_not_touch_score_or_board() {
    let mut g = Game::new(400, 600);
    let bounds_before = g.board().bounds();
    g.update(InputState { right: true, rotate_cw: true, ..no_input() });
    assert_eq!(g.score(), 0);
    assert!(!g.is_over());
    assert_eq!(g.board().bounds(), bounds_before);
    assert_eq!(g.board().settled().len(), 0);
}

#[test]
fn holding_parks_the_current_shape() {
    let mut g = Game::new(400, 600);
    let shape_before = g.current_piece().shape();
    g.update(InputState { hold: true, ..no_input() });
    let held = g.held_piece().as_ref().expect("a piece is held after the swap");
    assert_eq!(held.shape(), shape_before);
    // the held piece rests beside the field: three cells right of the right
    // edge, two cells below the top edge
    let r = g.board().bounds();
    assert_eq!(held.position().x, r.x + r.w + 60);
    assert_eq!(held.position().y, r.y + 40);
}

#[test]
fn holding_twice_swaps_the_pieces_back() {
    let mut g = Game::new(400, 600);
    let first = g.current_piece().shape();
    g.update(InputState { hold: true, ..no_input() });
    let second = g.current_piece().shape();
    g.update(InputState { hold: true, ..no_input() });
    assert_eq!(g.current_piece().shape(), first);
    let held = g.held_piece().as_ref().expect("still holding");
    assert_eq!(held.shape(), second);
}

#[test]
fn rotation_requests_cancel_out() {
    let mut g = Game::new(400, 600);
    // let the piece fall clear of the walls first, then ask for both
    // rotations in one frame: they cancel, leaving a plain one-cell fall
    for _ in 0..3 {
        g.update(no_input());
    }
    let before: Vec<(i64, i64)> =
        g.current_piece().squares().iter().map(|s| (s.x, s.y)).collect();
    g.update(InputState { rotate_cw: true, rotate_ccw: true, ..no_input() });
    let after: Vec<(i64, i64)> =
        g.current_piece().squares().iter().map(|s| (s.x, s.y)).collect();
    for (b, a) in before.iter().zip(after.iter()) {
        assert_eq!(a.0, b.0);
        assert_eq!(a.1, b.1 + 20);
    }
}
