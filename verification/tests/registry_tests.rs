use futures::channel::mpsc::unbounded;
use futures::channel::mpsc::UnboundedReceiver;
use hammeregg::codec::deserialize_packet;
use hammeregg::codec::serialize_packet;
use hammeregg::packets::Frame;
use hammeregg::packets::HandshakeInitPacket;
use hammeregg::packets::HandshakePacket;
use hammeregg::registry::classify_handshake;
use hammeregg::registry::DesktopRegistry;
use hammeregg::registry::ForwardOutcome;
use hammeregg::registry::PeerSink;
use hammeregg::registry::Role;
use hammeregg::registry::RouteOutcome;
use hammeregg::VERSION_1_0;

fn sink() -> (PeerSink, UnboundedReceiver<Frame>) {
    let (tx, rx) = unbounded();
    (PeerSink::new(tx), rx)
}

fn recv_bytes(rx: &mut UnboundedReceiver<Frame>) -> Vec<u8> {
    match rx.try_next() {
        Ok(Some(Frame::Binary(b))) => b,
        other => panic!("expected a binary frame, got {:?}", other.map(|_| ())),
    }
}

fn assert_empty(rx: &mut UnboundedReceiver<Frame>) {
    assert!(rx.try_next().is_err(), "expected no frame yet");
}

fn assert_closed(rx: &mut UnboundedReceiver<Frame>) {
    match rx.try_next() {
        Ok(None) => {}
        _ => panic!("expected the channel to be closed"),
    }
}

fn offer_frame(peer: u32, payload: Vec<u8>) -> Frame {
    serialize_packet(&HandshakePacket::RemoteOffer {
        peer,
        key: vec![9u8; 32],
        iv: vec![7u8; 12],
        payload,
    })
    .unwrap()
}

#[test]
fn duplicate_home_name_is_refused() {
    let mut reg = DesktopRegistry::new();
    let (s1, _r1) = sink();
    assert!(reg.register_home("alpha".to_string(), s1).is_ok());
    let (s2, _r2) = sink();
    let err = reg.register_home("alpha".to_string(), s2).unwrap_err();
    assert_eq!(err.0, "Requested desktop name was already taken");
}

#[test]
fn unknown_desktop_is_refused() {
    let mut reg = DesktopRegistry::new();
    let (s, _r) = sink();
    let err = reg.register_remote(&"ghost".to_string(), s).unwrap_err();
    assert_eq!(err.0, "Requested desktop not found");
}

#[test]
fn peer_ids_are_issued_in_order() {
    let mut reg = DesktopRegistry::new();
    let name = "alpha".to_string();
    let (home, mut home_rx) = sink();
    reg.register_home(name.clone(), home).unwrap();

    let mut ids = Vec::new();
    for _ in 0..3 {
        let (peer, _rx) = sink();
        ids.push(reg.register_remote(&name, peer).unwrap());
    }
    assert_eq!(ids, vec![0, 1, 2]);

    // Each remote claims peer 0 in its own offer; the registry must
    // rewrite the field to the issued id before forwarding.
    for (assigned, body) in ids.iter().zip([b"one".to_vec(), b"two".to_vec(), b"three".to_vec()]) {
        let f = offer_frame(0, body);
        match reg.route_remote_frame(&name, *assigned, &f) {
            ForwardOutcome::Forwarded => {}
            _ => panic!("offer should be forwarded"),
        }
    }
    for (expect_id, expect_body) in [(0u32, b"one".to_vec()), (1, b"two".to_vec()), (2, b"three".to_vec())] {
        let bytes = recv_bytes(&mut home_rx);
        match deserialize_packet(&Frame::Binary(bytes)).unwrap() {
            HandshakePacket::RemoteOffer { peer, key, iv, payload } => {
                assert_eq!(peer, expect_id);
                assert_eq!(key, vec![9u8; 32]);
                assert_eq!(iv, vec![7u8; 12]);
                assert_eq!(payload, expect_body);
            }
            _ => panic!("wrong variant"),
        }
    }
    assert_empty(&mut home_rx);
}

#[test]
fn answers_are_routed_to_exactly_the_addressed_peer() {
    let mut reg = DesktopRegistry::new();
    let name = "alpha".to_string();
    let (home, _home_rx) = sink();
    reg.register_home(name.clone(), home).unwrap();
    let (p1, mut r1) = sink();
    let (p2, mut r2) = sink();
    let (p3, mut r3) = sink();
    assert_eq!(reg.register_remote(&name, p1).unwrap(), 0);
    assert_eq!(reg.register_remote(&name, p2).unwrap(), 1);
    assert_eq!(reg.register_remote(&name, p3).unwrap(), 2);

    let answer = serialize_packet(&HandshakePacket::HomeAnswerSuccess {
        peer: 1,
        key: vec![0xAA; 16],
        iv: vec![0xBB; 12],
        payload: vec![0xCC; 40],
    })
    .unwrap();
    let sent_bytes = match &answer {
        Frame::Binary(b) => b.clone(),
        Frame::NonBinary => unreachable!(),
    };
    match reg.route_home_frame(&name, &answer) {
        RouteOutcome::Delivered { peer } => assert_eq!(peer, 1),
        _ => panic!("answer should be delivered"),
    }
    // The delivered frame is byte-identical; the other peers get
    // nothing.
    assert_eq!(recv_bytes(&mut r2), sent_bytes);
    assert_empty(&mut r1);
    assert_empty(&mut r3);
}

#[test]
fn answer_to_unknown_peer_is_dropped() {
    let mut reg = DesktopRegistry::new();
    let name = "alpha".to_string();
    let (home, _home_rx) = sink();
    reg.register_home(name.clone(), home).unwrap();
    let answer = serialize_packet(&HandshakePacket::HomeAnswerFailure {
        peer: 99,
        error: "Signalling failed".to_string(),
    })
    .unwrap();
    match reg.route_home_frame(&name, &answer) {
        RouteOutcome::PeerGone { peer } => assert_eq!(peer, 99),
        _ => panic!("unknown peer should be reported"),
    }
}

#[test]
fn non_answer_from_home_terminates() {
    let mut reg = DesktopRegistry::new();
    let name = "alpha".to_string();
    let (home, _home_rx) = sink();
    reg.register_home(name.clone(), home).unwrap();
    let not_answer = offer_frame(0, b"sdp".to_vec());
    match reg.route_home_frame(&name, &not_answer) {
        RouteOutcome::Reject => {}
        _ => panic!("an offer from the home side must be rejected"),
    }
    match reg.route_home_frame(&name, &Frame::NonBinary) {
        RouteOutcome::Reject => {}
        _ => panic!("a non-binary frame must be rejected"),
    }
}

#[test]
fn non_offer_from_remote_terminates() {
    let mut reg = DesktopRegistry::new();
    let name = "alpha".to_string();
    let (home, _home_rx) = sink();
    reg.register_home(name.clone(), home).unwrap();
    let (peer, _rx) = sink();
    let id = reg.register_remote(&name, peer).unwrap();
    let not_offer = serialize_packet(&HandshakePacket::HomeAnswerSuccess {
        peer: 0,
        key: vec![],
        iv: vec![],
        payload: vec![],
    })
    .unwrap();
    match reg.route_remote_frame(&name, id, &not_offer) {
        ForwardOutcome::Reject => {}
        _ => panic!("an answer from the remote side must be rejected"),
    }
}

#[test]
fn home_disconnect_cascades() {
    let mut reg = DesktopRegistry::new();
    let name = "alpha".to_string();
    let (home, _home_rx) = sink();
    reg.register_home(name.clone(), home).unwrap();
    let (p1, mut r1) = sink();
    let (p2, mut r2) = sink();
    reg.register_remote(&name, p1).unwrap();
    reg.register_remote(&name, p2).unwrap();

    let removed = reg.remove_desktop(&name);
    assert!(removed.is_some());
    // Both peer channels were closed by the removal.
    assert_closed(&mut r1);
    assert_closed(&mut r2);
    // The name is free again only in the sense that it is gone: a
    // remote for it is now refused.
    let (p3, _r3) = sink();
    let err = reg.register_remote(&name, p3).unwrap_err();
    assert_eq!(err.0, "Requested desktop not found");
}

#[test]
fn peer_ids_survive_disconnects_without_reuse() {
    let mut reg = DesktopRegistry::new();
    let name = "alpha".to_string();
    let (home, _home_rx) = sink();
    reg.register_home(name.clone(), home).unwrap();
    let (p1, _r1) = sink();
    let id1 = reg.register_remote(&name, p1).unwrap();
    reg.remove_remote_peer(&name, id1);
    let (p2, _r2) = sink();
    let id2 = reg.register_remote(&name, p2).unwrap();
    assert_eq!(id1, 0);
    assert_eq!(id2, 1);
}

#[test]
fn handshake_classification_assigns_roles() {
    let home = HandshakeInitPacket::new(
        VERSION_1_0,
        HandshakePacket::HomeInit { home_name: "alpha".to_string() },
    )
    .unwrap();
    let f = hammeregg::codec::serialize_init_packet(&home).unwrap();
    match classify_handshake(&f).unwrap() {
        Role::Home(n) => assert_eq!(n, "alpha"),
        _ => panic!("expected the home role"),
    }

    let remote = HandshakeInitPacket::new(
        VERSION_1_0,
        HandshakePacket::RemoteInit { home_name: "beta".to_string() },
    )
    .unwrap();
    let f = hammeregg::codec::serialize_init_packet(&remote).unwrap();
    match classify_handshake(&f).unwrap() {
        Role::Remote(n) => assert_eq!(n, "beta"),
        _ => panic!("expected the remote role"),
    }

    assert!(classify_handshake(&Frame::NonBinary).is_err());
    // A bare packet that is no init packet at all fails to parse.
    let bare = serialize_packet(&HandshakePacket::HomeInitResponse { response: Ok(()) }).unwrap();
    assert!(classify_handshake(&bare).is_err());
}
