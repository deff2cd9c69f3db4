use hammeregg::codec::deserialize_packet;
use hammeregg::codec::serialize_packet;
use hammeregg::crypto::derive_public;
use hammeregg::crypto::gen_private_key;
use hammeregg::crypto::unwrap;
use hammeregg::crypto::wrap;
use hammeregg::crypto::Envelope;
use hammeregg::home::home_init_frame;
use hammeregg::home::parse_home_init_response;
use hammeregg::home::validate_desktop_name;
use hammeregg::home::AnswerOutcome;
use hammeregg::home::HandshakeReply;
use hammeregg::home::HomeSignaller;
use hammeregg::home::OfferOutcome;
use hammeregg::packets::ErrorMsg;
use hammeregg::packets::Frame;
use hammeregg::packets::HandshakePacket;
use hammeregg::registry::classify_handshake;
use hammeregg::registry::Role;

fn remote_rng() -> rand_chacha::ChaCha20Rng {
    <rand_chacha::ChaCha20Rng as rand_chacha::rand_core::SeedableRng>::from_seed([7u8; 32])
}

/// Builds the offer frame a remote would send: the SDP wrapped for
/// the home's public key.
fn offer_from_remote(
    home: &hammeregg::crypto::PrivateKey,
    peer: u32,
    sdp: &str,
) -> Frame {
    let home_pub = derive_public(home);
    let mut rng = remote_rng();
    let e = wrap(&sdp.as_bytes().to_vec(), &home_pub, &mut rng).unwrap();
    serialize_packet(&HandshakePacket::RemoteOffer {
        peer,
        key: e.key,
        iv: e.iv,
        payload: e.payload,
    })
    .unwrap()
}

#[test]
fn offer_to_answer_pipeline_round_trips() {
    let home_key = gen_private_key(1024).unwrap();
    let remote_key = gen_private_key(1024).unwrap();
    let offer = offer_from_remote(&home_key, 4, "v=0 offer sdp");

    let mut hs = HomeSignaller::new(home_key, derive_public(&remote_key));
    let (generation, sdp) = match hs.handle_frame(&offer) {
        OfferOutcome::Negotiate { generation, offer_sdp, supersede } => {
            assert!(!supersede, "the first offer supersedes nothing");
            (generation, offer_sdp)
        }
        _ => panic!("a valid offer must start negotiation"),
    };
    assert_eq!(sdp, b"v=0 offer sdp");

    let answer = b"v=0 answer sdp".to_vec();
    let frame = match hs.handle_bridge_result(generation, Some(answer.clone())) {
        AnswerOutcome::Success { frame } => frame,
        _ => panic!("a live answer must be sent"),
    };
    // The remote unwraps the answer with its private key.
    match deserialize_packet(&frame).unwrap() {
        HandshakePacket::HomeAnswerSuccess { peer, key, iv, payload } => {
            assert_eq!(peer, 4);
            let e = Envelope { key, iv, payload };
            assert_eq!(unwrap(&e, &remote_key).unwrap(), answer);
        }
        _ => panic!("wrong variant"),
    }
}

#[test]
fn new_offer_supersedes_and_stale_answers_are_dropped() {
    let home_key = gen_private_key(1024).unwrap();
    let remote_key = gen_private_key(1024).unwrap();
    let offer1 = offer_from_remote(&home_key, 1, "offer one");
    let offer2 = offer_from_remote(&home_key, 1, "offer two");

    let mut hs = HomeSignaller::new(home_key, derive_public(&remote_key));
    let g1 = match hs.handle_frame(&offer1) {
        OfferOutcome::Negotiate { generation, supersede, .. } => {
            assert!(!supersede);
            generation
        }
        _ => panic!("first offer must negotiate"),
    };
    match hs.handle_bridge_result(g1, Some(b"answer one".to_vec())) {
        AnswerOutcome::Success { .. } => {}
        _ => panic!("first answer must be sent"),
    }

    // The second offer arrives while the first session is active: the
    // prior session must be stopped before the new one starts.
    let g2 = match hs.handle_frame(&offer2) {
        OfferOutcome::Negotiate { generation, supersede, .. } => {
            assert!(supersede, "a live session must be superseded");
            generation
        }
        _ => panic!("second offer must negotiate"),
    };
    assert_ne!(g1, g2);

    // A late answer for the first session produces no frame at all.
    match hs.handle_bridge_result(g1, Some(b"late answer one".to_vec())) {
        AnswerOutcome::Stale => {}
        _ => panic!("a superseded answer must be dropped"),
    }

    // The second session still answers normally.
    match hs.handle_bridge_result(g2, Some(b"answer two".to_vec())) {
        AnswerOutcome::Success { frame } => match deserialize_packet(&frame).unwrap() {
            HandshakePacket::HomeAnswerSuccess { peer, .. } => assert_eq!(peer, 1),
            _ => panic!("wrong variant"),
        },
        _ => panic!("second answer must be sent"),
    }
}

#[test]
fn undecryptable_offer_yields_generic_failure() {
    let home_key = gen_private_key(1024).unwrap();
    let remote_key = gen_private_key(1024).unwrap();
    let mut hs = HomeSignaller::new(home_key, derive_public(&remote_key));

    let garbage = serialize_packet(&HandshakePacket::RemoteOffer {
        peer: 12,
        key: vec![0u8; 128],
        iv: vec![0u8; 12],
        payload: vec![1, 2, 3],
    })
    .unwrap();
    match hs.handle_frame(&garbage) {
        OfferOutcome::Failure { frame } => match deserialize_packet(&frame).unwrap() {
            HandshakePacket::HomeAnswerFailure { peer, error } => {
                assert_eq!(peer, 12);
                assert_eq!(error, "Signalling failed");
            }
            _ => panic!("wrong variant"),
        },
        _ => panic!("an undecryptable offer must fail"),
    }
}

#[test]
fn bridge_failure_yields_generic_failure() {
    let home_key = gen_private_key(1024).unwrap();
    let remote_key = gen_private_key(1024).unwrap();
    let offer = offer_from_remote(&home_key, 2, "an offer");
    let mut hs = HomeSignaller::new(home_key, derive_public(&remote_key));
    let g = match hs.handle_frame(&offer) {
        OfferOutcome::Negotiate { generation, .. } => generation,
        _ => panic!("offer must negotiate"),
    };
    match hs.handle_bridge_result(g, None) {
        AnswerOutcome::Failure { frame } => match deserialize_packet(&frame).unwrap() {
            HandshakePacket::HomeAnswerFailure { peer, error } => {
                assert_eq!(peer, 2);
                assert_eq!(error, "Signalling failed");
            }
            _ => panic!("wrong variant"),
        },
        _ => panic!("a missing answer must fail"),
    }
}

#[test]
fn non_offer_frames_are_skipped() {
    let home_key = gen_private_key(1024).unwrap();
    let remote_key = gen_private_key(1024).unwrap();
    let mut hs = HomeSignaller::new(home_key, derive_public(&remote_key));
    let other = serialize_packet(&HandshakePacket::HomeInitResponse { response: Ok(()) }).unwrap();
    match hs.handle_frame(&other) {
        OfferOutcome::Ignored => {}
        _ => panic!("a non-offer frame is skipped"),
    }
    match hs.handle_frame(&Frame::NonBinary) {
        OfferOutcome::Ignored => {}
        _ => panic!("a non-binary frame is skipped"),
    }
}

#[test]
fn home_handshake_frames_round_trip() {
    let f = home_init_frame(&"alpha".to_string()).unwrap();
    match classify_handshake(&f).unwrap() {
        Role::Home(n) => assert_eq!(n, "alpha"),
        _ => panic!("the init frame must classify as a home"),
    }

    let ok = serialize_packet(&HandshakePacket::HomeInitResponse { response: Ok(()) }).unwrap();
    assert!(matches!(parse_home_init_response(&ok), HandshakeReply::Accepted));

    let refused = serialize_packet(&HandshakePacket::HomeInitResponse {
        response: Err(ErrorMsg("Requested desktop name was already taken".to_string())),
    })
    .unwrap();
    match parse_home_init_response(&refused) {
        HandshakeReply::Refused(m) => {
            assert_eq!(m.0, "Requested desktop name was already taken")
        }
        _ => panic!("an error response is a refusal"),
    }

    let other = serialize_packet(&HandshakePacket::RemoteInitResponse { response: Ok(()) }).unwrap();
    assert!(matches!(parse_home_init_response(&other), HandshakeReply::Unexpected));
    assert!(matches!(parse_home_init_response(&Frame::NonBinary), HandshakeReply::Unexpected));
}

#[test]
fn desktop_names_are_validated() {
    assert!(validate_desktop_name(&"alpha".to_string()));
    assert!(validate_desktop_name(&"héllo 🥚".to_string()));
    assert!(!validate_desktop_name(&"".to_string()));
    assert!(!validate_desktop_name(&"a\0b".to_string()));
}
