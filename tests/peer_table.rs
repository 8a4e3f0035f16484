use tetropolis::playerstate::{Cell, PlayerState};
use tetropolis::session::{Inbound, PeerTable, SessionLink};
use tetropolis::frame::{encode_identity, FrameError};

#[test]
fn table_starts_with_a_slot_per_identity_up_to_mine() {
    let t = PeerTable::new(2);
    assert_eq!(t.len(), 3);
    let me = PlayerState::new(2);
    let seen = t.visible_states(&me);
    for (k, s) in seen.iter().enumerate() {
        assert_eq!(s.id, k);
    }
}

#[test]
fn publish_grows_the_table_with_placeholders() {
    let mut t = PeerTable::new(0);
    let mut peer = PlayerState::new(3);
    peer.score = 77;
    assert!(t.publish(peer));
    assert_eq!(t.len(), 4);
    let me = PlayerState::new(0);
    let seen = t.visible_states(&me);
    assert_eq!(seen[3].score, 77);
    assert_eq!(seen[1].id, 1);
    assert_eq!(seen[2].id, 2);
    assert_eq!(seen[2].score, 0);
}

#[test]
fn publish_replaces_the_whole_snapshot() {
    let mut t = PeerTable::new(1);
    let mut first = PlayerState::new(1);
    first.board[0] = Cell::J;
    first.score = 5;
    assert!(t.publish(first));
    let mut second = PlayerState::new(1);
    second.score = 9;
    assert!(t.publish(second));
    let seen = t.visible_states(&PlayerState::new(0));
    assert_eq!(seen[1].score, 9);
    assert_eq!(seen[1].board[0], Cell::E);
    assert_eq!(t.len(), 2);
}

#[test]
fn publish_refuses_the_largest_identity() {
    let mut t = PeerTable::new(0);
    let peer = PlayerState::new(usize::MAX);
    assert!(!t.publish(peer));
    assert_eq!(t.len(), 1);
}

#[test]
fn visible_states_put_my_own_state_in_my_slot() {
    let mut t = PeerTable::new(1);
    let mut stale = PlayerState::new(1);
    stale.score = 1;
    assert!(t.publish(stale));
    let mut me = PlayerState::new(1);
    me.score = 50;
    let seen = t.visible_states(&me);
    assert_eq!(seen.len(), 2);
    assert_eq!(seen[1].score, 50);
}

#[test]
fn session_link_reads_identity_then_snapshots() {
    let mut link = SessionLink::new();
    assert_eq!(link.on_frame(vec![1, 2, 3]).err(), Some(FrameError::BadIdentity));
    assert_eq!(link, SessionLink::AwaitingIdentity);
    match link.on_frame(encode_identity(4)) {
        Ok(Inbound::Identity(id)) => assert_eq!(id, 4),
        other => panic!("unexpected {:?}", other),
    }
    assert_eq!(link, SessionLink::Established(4));
    match link.on_frame(encode_identity(9)) {
        Ok(Inbound::Snapshot(bytes)) => assert_eq!(bytes, encode_identity(9)),
        other => panic!("unexpected {:?}", other),
    }
}
