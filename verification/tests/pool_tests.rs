use collab_client::inbound::{pump, Inbound, InboundRouter, IncomingMessage};
use collab_client::frame::FrameReader;
use collab_client::message::{ErrorKind, WireMessage};
use collab_client::outbound::{Broadcaster, Delivery, OutgoingMessage};
use collab_client::wire::{decode, encode};

fn frame(data: &[u8]) -> Vec<u8> {
    encode(&WireMessage::DocumentSync { data: data.to_vec() }).unwrap()
}

#[test]
fn one_edit_reaches_each_of_two_peers_once() {
    let mut pool = Broadcaster::new();
    assert!(pool.register(4));
    assert!(pool.register(9));
    let deliveries = pool.broadcast(&[1, 2, 3]).unwrap();
    assert_eq!(
        deliveries,
        vec![
            Delivery { peer: 4, frame: frame(&[1, 2, 3]) },
            Delivery { peer: 9, frame: frame(&[1, 2, 3]) },
        ]
    );
    for delivery in deliveries {
        assert_eq!(decode(&delivery.frame), Ok(WireMessage::DocumentSync { data: vec![1, 2, 3] }));
    }
}

#[test]
fn an_empty_pool_delivers_nothing() {
    let pool = Broadcaster::new();
    assert_eq!(pool.len(), 0);
    assert_eq!(pool.broadcast(&[1]), Ok(vec![]));
}

#[test]
fn a_handle_is_in_the_pool_once() {
    let mut pool = Broadcaster::new();
    assert!(pool.register(1));
    assert!(!pool.register(1));
    assert_eq!(pool.len(), 1);
    assert_eq!(pool.broadcast(&[]).unwrap().len(), 1);
}

#[test]
fn a_failed_member_leaves_and_the_others_stay_in_order() {
    let mut pool = Broadcaster::new();
    for peer in [3, 1, 2] {
        pool.register(peer);
    }
    assert!(pool.remove(1));
    assert!(!pool.remove(1));
    assert!(!pool.remove(7));
    let peers: Vec<u64> = pool.broadcast(&[0]).unwrap().iter().map(|d| d.peer).collect();
    assert_eq!(peers, vec![3, 2]);
    pool.register(1);
    let peers: Vec<u64> = pool.broadcast(&[0]).unwrap().iter().map(|d| d.peer).collect();
    assert_eq!(peers, vec![3, 2, 1]);
}

#[test]
fn updates_come_out_as_frames_complete() {
    let mut router = InboundRouter::new(1024);
    assert!(router.register(1));
    let bytes = frame(&[7, 8]);
    let (head, tail) = bytes.split_at(9);
    assert_eq!(router.receive(1, head), Inbound { updates: vec![], failure: None });
    assert_eq!(router.receive(1, tail), Inbound { updates: vec![vec![7, 8]], failure: None });
    assert_eq!(router.receive(1, &[]), Inbound { updates: vec![], failure: None });
}

#[test]
fn frames_that_arrive_together_come_out_in_order() {
    let mut router = InboundRouter::new(1024);
    router.register(1);
    let mut bytes = frame(&[1]);
    bytes.extend(frame(&[]));
    bytes.extend(frame(&[2, 3]));
    assert_eq!(
        router.receive(1, &bytes),
        Inbound { updates: vec![vec![1], vec![], vec![2, 3]], failure: None }
    );
}

#[test]
fn a_malformed_frame_ends_only_its_own_link() {
    let mut router = InboundRouter::new(1024);
    router.register(1);
    router.register(2);
    let good = frame(&[5, 6, 7]);
    let (head, tail) = good.split_at(10);
    assert_eq!(router.receive(1, head), Inbound { updates: vec![], failure: None });
    let mut bad = frame(&[9]);
    bad.extend_from_slice(&[0, 0, 0, 2, b'{', b'}']);
    bad.extend(frame(&[10]));
    assert_eq!(
        router.receive(2, &bad),
        Inbound { updates: vec![vec![9]], failure: Some(ErrorKind::MessageFormat) }
    );
    assert_eq!(router.len(), 1);
    assert_eq!(router.receive(1, tail), Inbound { updates: vec![vec![5, 6, 7]], failure: None });
    assert_eq!(router.receive(2, &frame(&[1])), Inbound { updates: vec![], failure: None });
}

#[test]
fn an_oversized_frame_ends_its_link() {
    let mut router = InboundRouter::new(8);
    router.register(1);
    router.register(2);
    assert_eq!(
        router.receive(1, &[0, 0, 1, 0, 1, 2, 3]),
        Inbound { updates: vec![], failure: Some(ErrorKind::Framing) }
    );
    assert_eq!(router.len(), 1);
    assert!(router.register(1));
    assert_eq!(router.len(), 2);
}

#[test]
fn bytes_for_an_unknown_link_are_dropped() {
    let mut router = InboundRouter::new(1024);
    assert_eq!(router.receive(3, &frame(&[1])), Inbound { updates: vec![], failure: None });
    assert_eq!(router.len(), 0);
}

#[test]
fn a_stream_that_ends_inside_a_frame_is_a_framing_failure() {
    let mut router = InboundRouter::new(1024);
    router.register(1);
    router.register(2);
    router.register(3);
    router.receive(1, &[0, 0]);
    router.receive(3, &frame(&[1]));
    assert_eq!(router.close(1), Some(ErrorKind::Framing));
    assert_eq!(router.close(3), None);
    assert_eq!(router.close(7), None);
    assert_eq!(router.len(), 1);
    assert_eq!(router.receive(2, &frame(&[4])), Inbound { updates: vec![vec![4]], failure: None });
}

#[test]
fn a_registered_link_keeps_its_bytes() {
    let mut router = InboundRouter::new(1024);
    router.register(1);
    let bytes = frame(&[1, 1]);
    router.receive(1, &bytes[..5]);
    assert!(!router.register(1));
    assert_eq!(router.receive(1, &bytes[5..]), Inbound { updates: vec![vec![1, 1]], failure: None });
}

#[test]
fn pump_decodes_until_a_frame_fails() {
    let mut reader = FrameReader::new(1024);
    let mut bytes = frame(&[1]);
    bytes.extend(frame(&[2]));
    bytes.extend_from_slice(&[0, 0, 0, 1, b'x']);
    bytes.extend(frame(&[3]));
    reader.push(&bytes);
    assert_eq!(
        pump(&mut reader),
        Inbound { updates: vec![vec![1], vec![2]], failure: Some(ErrorKind::MessageFormat) }
    );
}

#[test]
fn the_broadcaster_serves_its_requests_in_turn() {
    let mut pool = Broadcaster::new();
    assert_eq!(pool.step(OutgoingMessage::DocumentData { data: vec![1] }), Ok(vec![]));
    assert_eq!(pool.step(OutgoingMessage::NewSocket { peer: 0 }), Ok(vec![]));
    assert_eq!(pool.step(OutgoingMessage::NewSocket { peer: 1 }), Ok(vec![]));
    assert_eq!(
        pool.step(OutgoingMessage::DocumentData { data: vec![8, 9] }),
        Ok(vec![
            Delivery { peer: 0, frame: frame(&[8, 9]) },
            Delivery { peer: 1, frame: frame(&[8, 9]) },
        ])
    );
    assert_eq!(pool.step(OutgoingMessage::SendFailed { peer: 0 }), Ok(vec![]));
    assert_eq!(
        pool.step(OutgoingMessage::DocumentData { data: vec![] }),
        Ok(vec![Delivery { peer: 1, frame: frame(&[]) }])
    );
}

#[test]
fn the_router_serves_its_notices_in_turn() {
    let mut router = InboundRouter::new(64);
    let nothing = Inbound { updates: vec![], failure: None };
    assert_eq!(router.step(IncomingMessage::NewSocket { peer: 5 }), nothing);
    assert_eq!(router.step(IncomingMessage::NewSocket { peer: 6 }), nothing);
    let bytes = frame(&[3]);
    assert_eq!(
        router.step(IncomingMessage::Bytes { peer: 5, bytes: bytes[..3].to_vec() }),
        nothing
    );
    assert_eq!(
        router.step(IncomingMessage::Bytes { peer: 6, bytes: bytes.clone() }),
        Inbound { updates: vec![vec![3]], failure: None }
    );
    assert_eq!(
        router.step(IncomingMessage::Closed { peer: 5 }),
        Inbound { updates: vec![], failure: Some(ErrorKind::Framing) }
    );
    assert_eq!(router.step(IncomingMessage::Closed { peer: 6 }), nothing);
    assert_eq!(router.len(), 0);
}
