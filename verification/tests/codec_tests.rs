use hammeregg::packets::ErrorMsg;
use hammeregg::packets::Frame;
use hammeregg::packets::HandshakeInitPacket;
use hammeregg::packets::HandshakePacket;
use hammeregg::packets::ProtocolError;
use hammeregg::codec::deserialize_and_validate_packet;
use hammeregg::codec::deserialize_packet;
use hammeregg::codec::serialize_init_packet;
use hammeregg::codec::serialize_packet;
use hammeregg::MAGIC;
use hammeregg::VERSION_1_0;

fn frame_bytes(f: Frame) -> Vec<u8> {
    match f {
        Frame::Binary(b) => b,
        Frame::NonBinary => panic!("expected a binary frame"),
    }
}

fn round_trip(p: &HandshakePacket) -> HandshakePacket {
    let f = serialize_packet(p).expect("packet must fit");
    deserialize_packet(&f).expect("own encoding must parse")
}

#[test]
fn home_init_round_trips() {
    let p = HandshakePacket::HomeInit { home_name: "alpha".to_string() };
    match round_trip(&p) {
        HandshakePacket::HomeInit { home_name } => assert_eq!(home_name, "alpha"),
        _ => panic!("wrong variant"),
    }
}

#[test]
fn remote_init_round_trips() {
    let p = HandshakePacket::RemoteInit { home_name: "émile 🥚".to_string() };
    match round_trip(&p) {
        HandshakePacket::RemoteInit { home_name } => assert_eq!(home_name, "émile 🥚"),
        _ => panic!("wrong variant"),
    }
}

#[test]
fn responses_round_trip() {
    let ok = HandshakePacket::HomeInitResponse { response: Ok(()) };
    match round_trip(&ok) {
        HandshakePacket::HomeInitResponse { response: Ok(()) } => {}
        _ => panic!("wrong variant"),
    }
    let err = HandshakePacket::RemoteInitResponse {
        response: Err(ErrorMsg("Requested desktop not found".to_string())),
    };
    match round_trip(&err) {
        HandshakePacket::RemoteInitResponse { response: Err(m) } => {
            assert_eq!(m.0, "Requested desktop not found")
        }
        _ => panic!("wrong variant"),
    }
}

#[test]
fn offer_round_trips() {
    let p = HandshakePacket::RemoteOffer {
        peer: 7,
        key: vec![1u8; 32],
        iv: vec![2u8; 12],
        payload: vec![3, 4, 5],
    };
    match round_trip(&p) {
        HandshakePacket::RemoteOffer { peer, key, iv, payload } => {
            assert_eq!(peer, 7);
            assert_eq!(key, vec![1u8; 32]);
            assert_eq!(iv, vec![2u8; 12]);
            assert_eq!(payload, vec![3, 4, 5]);
        }
        _ => panic!("wrong variant"),
    }
}

#[test]
fn answer_success_round_trips_with_large_peer() {
    let p = HandshakePacket::HomeAnswerSuccess {
        peer: u32::MAX,
        key: vec![],
        iv: vec![0xAB; 12],
        payload: vec![0xCD; 100],
    };
    match round_trip(&p) {
        HandshakePacket::HomeAnswerSuccess { peer, key, iv, payload } => {
            assert_eq!(peer, u32::MAX);
            assert!(key.is_empty());
            assert_eq!(iv.len(), 12);
            assert_eq!(payload.len(), 100);
        }
        _ => panic!("wrong variant"),
    }
}

#[test]
fn answer_failure_round_trips() {
    let p = HandshakePacket::HomeAnswerFailure { peer: 3, error: "Signalling failed".to_string() };
    match round_trip(&p) {
        HandshakePacket::HomeAnswerFailure { peer, error } => {
            assert_eq!(peer, 3);
            assert_eq!(error, "Signalling failed");
        }
        _ => panic!("wrong variant"),
    }
}

#[test]
fn init_packet_round_trips() {
    let q = HandshakeInitPacket::new(
        VERSION_1_0,
        HandshakePacket::HomeInit { home_name: "alpha".to_string() },
    )
    .expect("valid init packet");
    let f = serialize_init_packet(&q).expect("must fit");
    let back = deserialize_and_validate_packet(&f).expect("must validate");
    assert_eq!(back.magic, MAGIC);
    assert_eq!(back.version, VERSION_1_0);
    match back.packet {
        HandshakePacket::HomeInit { home_name } => assert_eq!(home_name, "alpha"),
        _ => panic!("wrong variant"),
    }
}

#[test]
fn magic_matches_utf8_of_emoji_pair() {
    assert_eq!(MAGIC, 0xF09F94A8F09FA59Au64 as i64);
    let bytes = "🔨🥚".as_bytes();
    assert_eq!(bytes.len(), 8);
    assert_eq!(MAGIC, i64::from_be_bytes(bytes.try_into().unwrap()));
}

#[test]
fn init_gate_rejects_bad_magic() {
    let q = HandshakeInitPacket {
        magic: 0,
        version: VERSION_1_0,
        packet: HandshakePacket::HomeInit { home_name: "alpha".to_string() },
    };
    let f = serialize_init_packet(&q).expect("must fit");
    assert_eq!(
        deserialize_and_validate_packet(&f).unwrap_err(),
        ProtocolError::InvalidMagic
    );
}

#[test]
fn init_gate_rejects_bad_version() {
    let q = HandshakeInitPacket {
        magic: MAGIC,
        version: 0x0002_0000,
        packet: HandshakePacket::RemoteInit { home_name: "alpha".to_string() },
    };
    let f = serialize_init_packet(&q).expect("must fit");
    assert_eq!(
        deserialize_and_validate_packet(&f).unwrap_err(),
        ProtocolError::UnsupportedVersion
    );
}

#[test]
fn init_gate_rejects_non_init_variant() {
    let q = HandshakeInitPacket {
        magic: MAGIC,
        version: VERSION_1_0,
        packet: HandshakePacket::HomeAnswerFailure { peer: 0, error: "x".to_string() },
    };
    let f = serialize_init_packet(&q).expect("must fit");
    assert_eq!(
        deserialize_and_validate_packet(&f).unwrap_err(),
        ProtocolError::InvalidInitVariant
    );
}

#[test]
fn init_constructor_rejects_bad_inputs() {
    let r = HandshakeInitPacket::new(
        0xDEAD,
        HandshakePacket::HomeInit { home_name: "alpha".to_string() },
    );
    assert_eq!(r.unwrap_err(), ProtocolError::UnsupportedVersion);
    let r = HandshakeInitPacket::new(
        VERSION_1_0,
        HandshakePacket::HomeInitResponse { response: Ok(()) },
    );
    assert_eq!(r.unwrap_err(), ProtocolError::InvalidInitVariant);
}

#[test]
fn non_binary_frames_are_rejected() {
    assert_eq!(
        deserialize_packet(&Frame::NonBinary).unwrap_err(),
        ProtocolError::NonBinaryFrame
    );
    assert_eq!(
        deserialize_and_validate_packet(&Frame::NonBinary).unwrap_err(),
        ProtocolError::NonBinaryFrame
    );
}

#[test]
fn malformed_bytes_are_rejected() {
    assert_eq!(
        deserialize_packet(&Frame::Binary(vec![])).unwrap_err(),
        ProtocolError::Malformed
    );
    assert_eq!(
        deserialize_packet(&Frame::Binary(vec![5, 0, 0, 0, 0])).unwrap_err(),
        ProtocolError::Malformed
    );
    // A document of the right shape but an unknown discriminator.
    let p = HandshakePacket::HomeInit { home_name: "alpha".to_string() };
    let mut bytes = frame_bytes(serialize_packet(&p).unwrap());
    // Corrupt the first letter of the discriminator string.
    bytes[15] = b'X';
    assert_eq!(
        deserialize_packet(&Frame::Binary(bytes)).unwrap_err(),
        ProtocolError::Malformed
    );
}

#[test]
fn invalid_utf8_in_string_field_is_rejected() {
    let p = HandshakePacket::HomeInit { home_name: "okay".to_string() };
    let mut bytes = frame_bytes(serialize_packet(&p).unwrap());
    // The name's bytes start after the document prefix (4), the type
    // element (19), the name element's header (11) and length (4).
    assert_eq!(&bytes[38..42], b"okay");
    bytes[38] = 0xFF;
    assert_eq!(
        deserialize_packet(&Frame::Binary(bytes)).unwrap_err(),
        ProtocolError::Malformed
    );
}

#[test]
fn encoding_matches_standard_document_encoding() {
    // The same packet written as a plain document through the bson
    // crate must produce the same bytes.
    let p = HandshakePacket::RemoteOffer {
        peer: 9,
        key: vec![1, 2, 3],
        iv: vec![4, 5],
        payload: vec![6],
    };
    let ours = frame_bytes(serialize_packet(&p).unwrap());
    let mut doc = bson::Document::new();
    doc.insert("type", bson::Bson::String("RemoteOffer".to_string()));
    doc.insert("peer", bson::Bson::Int64(9));
    doc.insert(
        "key",
        bson::Bson::Binary(bson::Binary {
            subtype: bson::spec::BinarySubtype::Generic,
            bytes: vec![1, 2, 3],
        }),
    );
    doc.insert(
        "iv",
        bson::Bson::Binary(bson::Binary {
            subtype: bson::spec::BinarySubtype::Generic,
            bytes: vec![4, 5],
        }),
    );
    doc.insert(
        "payload",
        bson::Bson::Binary(bson::Binary {
            subtype: bson::spec::BinarySubtype::Generic,
            bytes: vec![6],
        }),
    );
    let theirs = doc.to_vec().unwrap();
    assert_eq!(ours, theirs);
}

#[test]
fn response_encoding_matches_standard_document_encoding() {
    let p = HandshakePacket::HomeInitResponse { response: Ok(()) };
    let ours = frame_bytes(serialize_packet(&p).unwrap());
    let mut inner = bson::Document::new();
    inner.insert("Ok", bson::Bson::Null);
    let mut doc = bson::Document::new();
    doc.insert("type", bson::Bson::String("HomeInitResponse".to_string()));
    doc.insert("response", bson::Bson::Document(inner));
    let theirs = doc.to_vec().unwrap();
    assert_eq!(ours, theirs);
}
