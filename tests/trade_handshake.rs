use tetropolis::playerstate::{PlayerState, Shape, TradeState};
use tetropolis::trade::{check_target_swap, make_trade, TradeError};

fn player(id: usize, next: Shape, trade: TradeState) -> PlayerState {
    let mut p = PlayerState::new(id);
    p.next_tetromino = (next, 1, trade);
    p
}

fn seen_by(me: &PlayerState, others: Vec<PlayerState>) -> Vec<PlayerState> {
    let mut all = vec![me.clone()];
    all.extend(others);
    all
}

#[test]
fn proposing_twice_cancels() {
    let mut p = PlayerState::new(1);
    p.toggle_swap(1, 3);
    assert_eq!(p.next_tetromino.2, TradeState::Pending(2));
    p.toggle_swap(1, 3);
    assert_eq!(p.next_tetromino.2, TradeState::NoTrade);
}

#[test]
fn toggle_swap_wraps_around_the_ring() {
    let mut p = PlayerState::new(0);
    p.toggle_swap(-1, 3);
    assert_eq!(p.next_tetromino.2, TradeState::Pending(2));
    p.toggle_swap(1, 3);
    assert_eq!(p.next_tetromino.2, TradeState::Pending(1));
}

#[test]
fn toggle_swap_ignored_while_paused_or_confirmed() {
    let mut p = PlayerState::new(0);
    p.paused = true;
    p.toggle_swap(1, 2);
    assert_eq!(p.next_tetromino.2, TradeState::NoTrade);
    let mut q = player(0, Shape::O, TradeState::Confirm(1));
    q.toggle_swap(1, 2);
    assert_eq!(q.next_tetromino.2, TradeState::Confirm(1));
}

#[test]
fn mutual_proposals_complete_the_swap() {
    let mut a = player(0, Shape::T, TradeState::Pending(1));
    let mut b = player(1, Shape::Z, TradeState::Pending(0));
    let mut saved_a: Option<Shape> = None;
    let mut saved_b: Option<Shape> = None;

    let seen = vec![a.clone(), b.clone()];
    check_target_swap(&mut a, &seen, &mut saved_a).unwrap();
    check_target_swap(&mut b, &seen, &mut saved_b).unwrap();
    assert_eq!(a.next_tetromino.2, TradeState::Confirm(1));
    assert_eq!(b.next_tetromino.2, TradeState::Confirm(0));
    assert_eq!(saved_a, Some(Shape::Z));
    assert_eq!(saved_b, Some(Shape::T));

    let seen = vec![a.clone(), b.clone()];
    check_target_swap(&mut a, &seen, &mut saved_a).unwrap();
    check_target_swap(&mut b, &seen, &mut saved_b).unwrap();
    assert_eq!(a.next_tetromino, (Shape::Z, 0, TradeState::NoTrade));
    assert_eq!(b.next_tetromino, (Shape::T, 0, TradeState::NoTrade));
    assert_eq!(saved_a, None);
    assert_eq!(saved_b, None);
}

#[test]
fn pending_waits_while_peer_is_idle() {
    let mut a = player(0, Shape::T, TradeState::Pending(1));
    let b = player(1, Shape::L, TradeState::NoTrade);
    let mut saved: Option<Shape> = None;
    let seen = seen_by(&a, vec![b]);
    check_target_swap(&mut a, &seen, &mut saved).unwrap();
    assert_eq!(a.next_tetromino.2, TradeState::Pending(1));
    assert_eq!(saved, Some(Shape::L));
}

#[test]
fn pending_cancels_when_peer_confirms_someone_else() {
    let mut a = player(0, Shape::T, TradeState::Pending(1));
    let b = player(1, Shape::L, TradeState::Confirm(2));
    let c = player(2, Shape::O, TradeState::Confirm(1));
    let mut saved: Option<Shape> = None;
    let seen = seen_by(&a, vec![b, c]);
    check_target_swap(&mut a, &seen, &mut saved).unwrap();
    assert_eq!(a.next_tetromino.2, TradeState::NoTrade);
    assert_eq!(saved, None);
}

#[test]
fn confirm_cancels_when_peer_turns_to_someone_else() {
    let mut a = player(0, Shape::T, TradeState::Confirm(1));
    let b = player(1, Shape::L, TradeState::Pending(2));
    let c = player(2, Shape::O, TradeState::NoTrade);
    let mut saved = Some(Shape::L);
    let seen = seen_by(&a, vec![b, c]);
    check_target_swap(&mut a, &seen, &mut saved).unwrap();
    assert_eq!(a.next_tetromino, (Shape::T, 1, TradeState::NoTrade));
    assert_eq!(saved, None);

    let mut a = player(0, Shape::T, TradeState::Confirm(1));
    let b = player(1, Shape::L, TradeState::Confirm(2));
    let c = player(2, Shape::O, TradeState::Confirm(1));
    let mut saved = Some(Shape::L);
    let seen = seen_by(&a, vec![b, c]);
    check_target_swap(&mut a, &seen, &mut saved).unwrap();
    assert_eq!(a.next_tetromino, (Shape::T, 1, TradeState::NoTrade));
    assert_eq!(saved, None);
}

#[test]
fn confirm_waits_while_peer_still_pending_on_me() {
    let mut a = player(0, Shape::T, TradeState::Confirm(1));
    let b = player(1, Shape::L, TradeState::Pending(0));
    let mut saved = Some(Shape::L);
    let seen = seen_by(&a, vec![b]);
    check_target_swap(&mut a, &seen, &mut saved).unwrap();
    assert_eq!(a.next_tetromino, (Shape::T, 1, TradeState::Confirm(1)));
    assert_eq!(saved, Some(Shape::L));
}

#[test]
fn confirm_completes_when_peer_already_done() {
    let mut a = player(0, Shape::T, TradeState::Confirm(1));
    let b = player(1, Shape::T, TradeState::NoTrade);
    let mut saved = Some(Shape::S);
    let seen = seen_by(&a, vec![b]);
    check_target_swap(&mut a, &seen, &mut saved).unwrap();
    assert_eq!(a.next_tetromino, (Shape::S, 0, TradeState::NoTrade));
    assert_eq!(saved, None);
}

#[test]
fn unknown_trade_partner_is_reported() {
    let mut a = player(0, Shape::T, TradeState::Pending(5));
    let mut saved: Option<Shape> = None;
    let seen = vec![a.clone()];
    assert_eq!(check_target_swap(&mut a, &seen, &mut saved), Err(TradeError::UnknownPeer(5)));
    assert_eq!(a.next_tetromino.2, TradeState::Pending(5));
    assert_eq!(saved, None);
}

#[test]
fn make_trade_without_saved_shape_changes_nothing() {
    let mut a = player(0, Shape::T, TradeState::Confirm(1));
    let mut saved: Option<Shape> = None;
    make_trade(&mut a, &mut saved);
    assert_eq!(a.next_tetromino, (Shape::T, 1, TradeState::Confirm(1)));
    assert_eq!(saved, None);
}
