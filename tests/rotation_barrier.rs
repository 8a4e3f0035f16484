use tetropolis::barrier::{check_rot, RotateError};
use tetropolis::playerstate::{BoardState, Cell, PlayerState, COLS, ROWS};

fn with_stage(id: usize, stage: BoardState, score: u32) -> PlayerState {
    let mut p = PlayerState::new(id);
    p.board_state = stage;
    p.score = score;
    p
}

/// (donor, donor column) for each local column, worked out by hand for three
/// preserved states and identities 0, 1 and 2.
const EXPECTED: [[(usize, usize); 10]; 3] = [
    [(0, 9), (1, 9), (2, 9), (0, 8), (1, 8), (2, 8), (0, 7), (1, 7), (2, 7), (0, 6)],
    [(1, 6), (2, 6), (0, 5), (1, 5), (2, 5), (0, 4), (1, 4), (2, 4), (0, 3), (1, 3)],
    [(2, 3), (0, 2), (1, 2), (2, 2), (0, 1), (1, 1), (2, 1), (0, 0), (1, 0), (2, 0)],
];

#[test]
fn rotate_board_with_three_participants_matches_hand_computed_columns() {
    for donor in 0..3usize {
        for donor_col in 0..COLS {
            let mut preserved: Vec<PlayerState> = (0..3).map(PlayerState::new).collect();
            preserved[donor].board[3 * COLS + donor_col] = Cell::Z;
            for id in 0..3usize {
                let mut me = PlayerState::new(id);
                me.rotate_board(&preserved).unwrap();
                for c in 0..COLS {
                    let expect_z = EXPECTED[id][c] == (donor, donor_col);
                    let got = me.board[3 * COLS + c];
                    assert_eq!(got == Cell::Z, expect_z, "id {} column {}", id, c);
                    assert_eq!(me.board[c], Cell::E);
                }
            }
        }
    }
}

#[test]
fn rotate_board_is_deterministic() {
    let mut preserved: Vec<PlayerState> = (0..3).map(PlayerState::new).collect();
    for r in 0..ROWS {
        for c in 0..COLS {
            if (r * 7 + c * 3) % 4 == 0 {
                preserved[(r + c) % 3].board[r * COLS + c] = Cell::J;
            }
        }
    }
    let mut first = PlayerState::new(1);
    let mut second = PlayerState::new(1);
    first.rotate_board(&preserved).unwrap();
    second.rotate_board(&preserved).unwrap();
    assert_eq!(first.board, second.board);
}

#[test]
fn rotate_board_reports_defects() {
    let mut me = PlayerState::new(0);
    assert_eq!(me.rotate_board(&Vec::new()), Err(RotateError::NoPreservedStates));
    let mut far = PlayerState::new(3);
    far.board[0] = Cell::T;
    let preserved: Vec<PlayerState> = (0..3).map(PlayerState::new).collect();
    assert_eq!(far.rotate_board(&preserved), Err(RotateError::ColumnOutOfRange(3)));
    assert_eq!(far.board[0], Cell::T);
}

#[test]
fn stable_becomes_ready_once_scores_rise_enough() {
    let mut me = with_stage(0, BoardState::Stable, 60);
    let cur = vec![with_stage(0, BoardState::Stable, 60), with_stage(1, BoardState::Stable, 39)];
    let mut preserved: Vec<PlayerState> = Vec::new();
    let mut last: u64 = 0;
    assert_eq!(check_rot(&mut me, &cur, &mut preserved, &mut last), Ok((99, false)));
    assert_eq!(me.board_state, BoardState::Stable);
    assert!(!me.paused);
    assert_eq!(last, 0);

    let cur = vec![with_stage(0, BoardState::Stable, 60), with_stage(1, BoardState::Stable, 40)];
    assert_eq!(check_rot(&mut me, &cur, &mut preserved, &mut last), Ok((100, false)));
    assert_eq!(me.board_state, BoardState::Ready);
    assert!(me.paused);
    assert_eq!(last, 100);
}

#[test]
fn stable_ignores_a_lower_score_sum() {
    let mut me = with_stage(0, BoardState::Stable, 0);
    let cur = vec![with_stage(0, BoardState::Stable, 0)];
    let mut preserved: Vec<PlayerState> = Vec::new();
    let mut last: u64 = 500;
    assert_eq!(check_rot(&mut me, &cur, &mut preserved, &mut last), Ok((0, false)));
    assert_eq!(me.board_state, BoardState::Stable);
    assert_eq!(last, 500);
}

#[test]
fn ready_waits_for_everyone_then_preserves_states() {
    let mut me = with_stage(0, BoardState::Ready, 0);
    let mut preserved: Vec<PlayerState> = Vec::new();
    let mut last: u64 = 0;
    let cur = vec![with_stage(0, BoardState::Ready, 0), with_stage(1, BoardState::Stable, 0)];
    check_rot(&mut me, &cur, &mut preserved, &mut last).unwrap();
    assert_eq!(me.board_state, BoardState::Ready);
    assert!(preserved.is_empty());

    let mut other = with_stage(1, BoardState::Confirm, 0);
    other.board[5] = Cell::S;
    let cur = vec![with_stage(0, BoardState::Ready, 0), other];
    check_rot(&mut me, &cur, &mut preserved, &mut last).unwrap();
    assert_eq!(me.board_state, BoardState::Confirm);
    assert_eq!(preserved.len(), 2);
    assert_eq!(preserved[1].board[5], Cell::S);
    assert_eq!(preserved[1].id, 1);
}

#[test]
fn confirm_rotates_once_nobody_is_ready() {
    let mut me = with_stage(1, BoardState::Confirm, 0);
    me.paused = true;
    let mut preserved = vec![with_stage(0, BoardState::Ready, 0), with_stage(1, BoardState::Ready, 0)];
    preserved[0].board[2 * COLS + 4] = Cell::O;
    let mut last: u64 = 0;

    let cur = vec![with_stage(0, BoardState::Ready, 0), with_stage(1, BoardState::Confirm, 0)];
    assert_eq!(check_rot(&mut me, &cur, &mut preserved, &mut last), Ok((0, false)));
    assert_eq!(me.board_state, BoardState::Confirm);

    let cur = vec![with_stage(0, BoardState::Stable, 0), with_stage(1, BoardState::Confirm, 0)];
    assert_eq!(check_rot(&mut me, &cur, &mut preserved, &mut last), Ok((0, true)));
    assert_eq!(me.board_state, BoardState::Stable);
    assert!(!me.paused);
    // id 1 of 2: column offset 5, donor index (0 + c) % 2, donor column 4 - c / 2.
    assert_eq!(me.board[2 * COLS], Cell::O);
    assert_eq!(me.board[2 * COLS + 1], Cell::E);
}

#[test]
fn confirm_surfaces_transform_defects() {
    let mut me = with_stage(2, BoardState::Confirm, 0);
    let mut preserved = vec![with_stage(0, BoardState::Confirm, 0)];
    let mut last: u64 = 0;
    let cur = vec![with_stage(0, BoardState::Confirm, 0)];
    assert_eq!(
        check_rot(&mut me, &cur, &mut preserved, &mut last),
        Err(RotateError::ColumnOutOfRange(2))
    );
    assert_eq!(me.board_state, BoardState::Confirm);

    let mut empty: Vec<PlayerState> = Vec::new();
    assert_eq!(
        check_rot(&mut me, &cur, &mut empty, &mut last),
        Err(RotateError::NoPreservedStates)
    );
}

#[test]
fn ready_never_falls_back_to_stable() {
    let mut me = with_stage(0, BoardState::Ready, 0);
    let mut preserved: Vec<PlayerState> = Vec::new();
    let mut last: u64 = 0;
    for score in [0u32, 100, 1000, 100000] {
        let cur = vec![with_stage(0, BoardState::Ready, score), with_stage(1, BoardState::Stable, score)];
        check_rot(&mut me, &cur, &mut preserved, &mut last).unwrap();
        assert_eq!(me.board_state, BoardState::Ready);
    }
}
