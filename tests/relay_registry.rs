use tetropolis::frame::{decode_frame, decode_identity};
use tetropolis::relay::Relay;

#[test]
fn relay_assigns_sequential_identities() {
    let mut relay = Relay::new();
    for expected in 0..5usize {
        let (id, frame) = relay.accept().unwrap();
        assert_eq!(id, expected);
        let (payload, used) = decode_frame(&frame).unwrap();
        assert_eq!(used, 12);
        assert_eq!(decode_identity(&payload), Ok(expected));
    }
}

#[test]
fn relay_identity_frame_bytes() {
    let mut relay = Relay::new();
    let _ = relay.accept().unwrap();
    let (id, frame) = relay.accept().unwrap();
    assert_eq!(id, 1);
    assert_eq!(frame, vec![0, 0, 0, 12, 0, 0, 0, 0, 0, 0, 0, 1]);
}

#[test]
fn relay_forwards_to_everyone_but_the_sender() {
    let mut relay = Relay::new();
    for _ in 0..4 {
        relay.accept().unwrap();
    }
    assert_eq!(relay.recipients(2), vec![0, 1, 3]);
    assert_eq!(relay.recipients(0), vec![1, 2, 3]);
    assert_eq!(relay.recipients(7), vec![0, 1, 2, 3]);
}

#[test]
fn relay_alone_forwards_to_nobody() {
    let mut relay = Relay::new();
    assert_eq!(relay.recipients(0), Vec::<usize>::new());
    relay.accept().unwrap();
    assert_eq!(relay.recipients(0), Vec::<usize>::new());
}
