use tetropolis::playerstate::{cell_of_shape, shape_from_roll, BoardState, Cell, PlayerState, Shape, TradeState, COLS, ROWS};

#[test]
fn new_state_is_empty_and_idle() {
    let p = PlayerState::new(4);
    assert_eq!(p.id, 4);
    assert_eq!(p.board.len(), ROWS * COLS);
    assert!(p.board.iter().all(|c| *c == Cell::E));
    assert_eq!(p.tetromino, (Shape::I, 0));
    assert_eq!(p.next_tetromino, (Shape::I, 0, TradeState::NoTrade));
    assert_eq!(p.tetro_pos, (19, 4));
    assert_eq!(p.score, 0);
    assert_eq!(p.board_state, BoardState::Stable);
    assert!(!p.paused);
}

#[test]
fn shapes_map_to_their_colours() {
    assert_eq!(cell_of_shape(Shape::I), Cell::I);
    assert_eq!(cell_of_shape(Shape::O), Cell::O);
    assert_eq!(cell_of_shape(Shape::Z), Cell::Z);
    assert_eq!(shape_from_roll(0), Shape::I);
    assert_eq!(shape_from_roll(3), Shape::O);
    assert_eq!(shape_from_roll(6), Shape::Z);
    assert_eq!(shape_from_roll(7), Shape::I);
}

#[test]
fn drawn_pieces_vary() {
    let mut p = PlayerState::new(0);
    p.begin();
    let mut seen: Vec<Shape> = Vec::new();
    for _ in 0..200 {
        p.new_tetromino();
        assert_eq!(p.next_tetromino.1, 0);
        assert_eq!(p.next_tetromino.2, TradeState::NoTrade);
        if !seen.contains(&p.next_tetromino.0) {
            seen.push(p.next_tetromino.0);
        }
    }
    assert!(seen.len() > 1);
}

#[test]
fn advance_piece_promotes_the_upcoming_piece() {
    let mut p = PlayerState::new(0);
    p.next_tetromino = (Shape::S, 0, TradeState::Pending(1));
    p.advance_piece(Shape::T);
    assert_eq!(p.tetromino, (Shape::S, 0));
    assert_eq!(p.next_tetromino, (Shape::T, 0, TradeState::NoTrade));
}

#[test]
fn move_down_lowers_then_lands() {
    let mut p = PlayerState::new(0);
    p.move_down();
    assert_eq!(p.tetro_pos, (18, 4));
    p.drop();
    assert_eq!(p.tetro_pos, (0, 4));
    p.move_down();
    assert_eq!(p.tetro_pos, (19, 4));
    for r in 0..4 {
        assert_eq!(p.board[r * COLS + 5], Cell::I);
    }
    assert_eq!(p.board[4 * COLS + 5], Cell::E);
    assert_eq!(p.score, 1);
    assert_eq!(p.tetromino, (Shape::I, 0));
}

#[test]
fn full_row_is_cleared_and_scored() {
    let mut p = PlayerState::new(0);
    for c in 0..COLS {
        if c != 5 {
            p.board[c] = Cell::O;
        }
    }
    p.drop();
    p.move_down();
    assert_eq!(p.score, 4);
    for c in 0..COLS {
        let expected = if c == 5 { Cell::I } else { Cell::E };
        assert_eq!(p.board[c], expected);
    }
    assert_eq!(p.board[2 * COLS + 5], Cell::I);
    assert_eq!(p.board[3 * COLS + 5], Cell::E);
}

#[test]
fn rotation_is_refused_where_the_piece_would_not_fit() {
    let mut p = PlayerState::new(0);
    p.tetro_pos = (10, 4);
    p.rotate_tetromino();
    assert_eq!(p.tetromino, (Shape::I, 1));
    p.rotate_tetromino();
    assert_eq!(p.tetromino, (Shape::I, 2));

    let mut q = PlayerState::new(0);
    q.tetro_pos = (10, 4);
    q.board[11 * COLS + 4] = Cell::T;
    q.rotate_tetromino();
    assert_eq!(q.tetromino, (Shape::I, 0));
}

#[test]
fn sideways_moves_stop_at_the_walls() {
    let mut p = PlayerState::new(0);
    p.tetro_pos = (10, 4);
    p.move_right();
    assert_eq!(p.tetro_pos, (10, 3));
    for _ in 0..10 {
        p.move_right();
    }
    assert_eq!(p.tetro_pos, (10, -1));
    for _ in 0..20 {
        p.move_left();
    }
    assert_eq!(p.tetro_pos, (10, 8));
}

#[test]
fn paused_state_ignores_moves() {
    let mut p = PlayerState::new(0);
    p.paused = true;
    p.move_down();
    p.move_left();
    p.move_right();
    p.rotate_tetromino();
    p.drop();
    assert_eq!(p.tetro_pos, (19, 4));
    assert_eq!(p.tetromino, (Shape::I, 0));
}
