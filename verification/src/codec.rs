//! The envelope codec: every packet becomes one binary frame holding a
//! document of tagged elements, and parsing inverts encoding. The
//! element names and the variant discriminator strings here are the
//! compatibility surface of the protocol and must not change.

use vstd::prelude::*;
use vstd::utf8::decode_utf8;
use vstd::utf8::encode_utf8;
use vstd::utf8::valid_utf8;

use crate::packets::ErrorMsg;
use crate::packets::Frame;
use crate::packets::HandshakeInitPacket;
use crate::packets::HandshakePacket;
use crate::packets::InitView;
use crate::packets::PacketView;
use crate::packets::ProtocolError;
use crate::packets::resp_view;
use crate::wire::check_header;
use crate::wire::finish_doc;
use crate::wire::parse_bin_at;
use crate::wire::parse_doc_at;
use crate::wire::parse_string_at;
use crate::wire::parse_u64_at;
use crate::wire::push_elem_header;
use crate::wire::push_le64;
use crate::wire::push_str_value;
use crate::wire::push_bin_value;
use crate::wire::bytes_eq;
use crate::wire::push_bytes;
use crate::wire::read_le32;
use crate::wire::bin_value;
use crate::wire::doc;
use crate::wire::elem;
use crate::wire::expect_header;
use crate::wire::i64_value;
use crate::wire::lemma_expect_elem;
use crate::wire::lemma_match_append;
use crate::wire::lemma_parse_doc_of_doc;
use crate::wire::lemma_take_bin;
use crate::wire::lemma_take_doc;
use crate::wire::lemma_take_string;
use crate::wire::lemma_take_u64;
use crate::wire::match_bytes;
use crate::wire::parse_doc_body;
use crate::wire::str_value;
use crate::wire::str_value_bytes;
use crate::wire::take_bin;
use crate::wire::take_doc;
use crate::wire::take_string;
use crate::wire::take_u64;
use crate::wire::u32_value;
use crate::wire::MAX_DOC;
use crate::wire::T_BINARY;
use crate::wire::T_DOC;
use crate::wire::T_INT64;
use crate::wire::T_NULL;
use crate::wire::T_STRING;

verus! {

/// The element name `type`.
pub open spec fn k_type() -> Seq<u8> {
    seq![116u8, 121, 112, 101]
}

/// The element name `home_name`.
pub open spec fn k_home_name() -> Seq<u8> {
    seq![104u8, 111, 109, 101, 95, 110, 97, 109, 101]
}

/// The element name `response`.
pub open spec fn k_response() -> Seq<u8> {
    seq![114u8, 101, 115, 112, 111, 110, 115, 101]
}

/// The element name `Ok`.
pub open spec fn k_ok() -> Seq<u8> {
    seq![79u8, 107]
}

/// The element name `Err`.
pub open spec fn k_err() -> Seq<u8> {
    seq![69u8, 114, 114]
}

/// The element name `peer`.
pub open spec fn k_peer() -> Seq<u8> {
    seq![112u8, 101, 101, 114]
}

/// The element name `key`.
pub open spec fn k_key() -> Seq<u8> {
    seq![107u8, 101, 121]
}

/// The element name `iv`.
pub open spec fn k_iv() -> Seq<u8> {
    seq![105u8, 118]
}

/// The element name `payload`.
pub open spec fn k_payload() -> Seq<u8> {
    seq![112u8, 97, 121, 108, 111, 97, 100]
}

/// The element name `error`.
pub open spec fn k_error() -> Seq<u8> {
    seq![101u8, 114, 114, 111, 114]
}

/// The element name `magic`.
pub open spec fn k_magic() -> Seq<u8> {
    seq![109u8, 97, 103, 105, 99]
}

/// The element name `version`.
pub open spec fn k_version() -> Seq<u8> {
    seq![118u8, 101, 114, 115, 105, 111, 110]
}

/// The element name `packet`.
pub open spec fn k_packet() -> Seq<u8> {
    seq![112u8, 97, 99, 107, 101, 116]
}

/// The discriminator `HomeInit`.
pub open spec fn d_home_init() -> Seq<u8> {
    seq![72u8, 111, 109, 101, 73, 110, 105, 116]
}

/// The discriminator `HomeInitResponse`.
pub open spec fn d_home_init_response() -> Seq<u8> {
    seq![72u8, 111, 109, 101, 73, 110, 105, 116, 82, 101, 115, 112, 111, 110, 115, 101]
}

/// The discriminator `RemoteInit`.
pub open spec fn d_remote_init() -> Seq<u8> {
    seq![82u8, 101, 109, 111, 116, 101, 73, 110, 105, 116]
}

/// The discriminator `RemoteInitResponse`.
pub open spec fn d_remote_init_response() -> Seq<u8> {
    seq![82u8, 101, 109, 111, 116, 101, 73, 110, 105, 116, 82, 101, 115, 112, 111, 110, 115, 101]
}

/// The discriminator `RemoteOffer`.
pub open spec fn d_remote_offer() -> Seq<u8> {
    seq![82u8, 101, 109, 111, 116, 101, 79, 102, 102, 101, 114]
}

/// The discriminator `HomeAnswerSuccess`.
pub open spec fn d_home_answer_success() -> Seq<u8> {
    seq![72u8, 111, 109, 101, 65, 110, 115, 119, 101, 114, 83, 117, 99, 99, 101, 115, 115]
}

/// The discriminator `HomeAnswerFailure`.
pub open spec fn d_home_answer_failure() -> Seq<u8> {
    seq![72u8, 111, 109, 101, 65, 110, 115, 119, 101, 114, 70, 97, 105, 108, 117, 114, 101]
}

/// The `type` element carrying a variant discriminator.
pub open spec fn enc_type_elem(disc: Seq<u8>) -> Seq<u8> {
    elem(T_STRING, k_type(), str_value_bytes(disc))
}

/// The embedded document encoding a handshake response: `Ok` maps to
/// a null element named `Ok`, an error to a string element named
/// `Err` holding the message.
pub open spec fn enc_response_doc(r: Result<(), Seq<char>>) -> Seq<u8> {
    match r {
        Ok(()) => doc(elem(T_NULL, k_ok(), Seq::<u8>::empty())),
        Err(m) => doc(elem(T_STRING, k_err(), str_value(m))),
    }
}

/// The element bytes of a packet document.
pub open spec fn enc_packet_body(m: PacketView) -> Seq<u8> {
    match m {
        PacketView::HomeInit { home_name } => enc_type_elem(d_home_init()) + elem(
            T_STRING,
            k_home_name(),
            str_value(home_name),
        ),
        PacketView::HomeInitResponse { response } => enc_type_elem(d_home_init_response()) + elem(
            T_DOC,
            k_response(),
            enc_response_doc(response),
        ),
        PacketView::RemoteInit { home_name } => enc_type_elem(d_remote_init()) + elem(
            T_STRING,
            k_home_name(),
            str_value(home_name),
        ),
        PacketView::RemoteInitResponse { response } => enc_type_elem(d_remote_init_response())
            + elem(T_DOC, k_response(), enc_response_doc(response)),
        PacketView::RemoteOffer { peer, key, iv, payload } => enc_type_elem(d_remote_offer())
            + elem(T_INT64, k_peer(), u32_value(peer)) + elem(T_BINARY, k_key(), bin_value(key))
            + elem(T_BINARY, k_iv(), bin_value(iv)) + elem(
            T_BINARY,
            k_payload(),
            bin_value(payload),
        ),
        PacketView::HomeAnswerSuccess { peer, key, iv, payload } => enc_type_elem(
            d_home_answer_success(),
        ) + elem(T_INT64, k_peer(), u32_value(peer)) + elem(T_BINARY, k_key(), bin_value(key))
            + elem(T_BINARY, k_iv(), bin_value(iv)) + elem(
            T_BINARY,
            k_payload(),
            bin_value(payload),
        ),
        PacketView::HomeAnswerFailure { peer, error } => enc_type_elem(d_home_answer_failure())
            + elem(T_INT64, k_peer(), u32_value(peer)) + elem(
            T_STRING,
            k_error(),
            str_value(error),
        ),
    }
}

/// The full encoding of a packet: one document.
pub open spec fn enc_packet(m: PacketView) -> Seq<u8> {
    doc(enc_packet_body(m))
}

/// Whether a packet fits within the document size limit; only such
/// packets can be put on the wire.
pub open spec fn packet_fits(m: PacketView) -> bool {
    enc_packet(m).len() <= MAX_DOC
}

/// The element bytes of an init packet document.
pub open spec fn enc_init_body(v: InitView) -> Seq<u8> {
    elem(T_INT64, k_magic(), i64_value(v.magic)) + elem(T_INT64, k_version(), u32_value(v.version))
        + elem(T_DOC, k_packet(), enc_packet(v.packet))
}

/// The full encoding of an init packet: one document wrapping the
/// packet document.
pub open spec fn enc_init(v: InitView) -> Seq<u8> {
    doc(enc_init_body(v))
}

/// Whether an init packet fits within the document size limit.
pub open spec fn init_fits(v: InitView) -> bool {
    enc_init(v).len() <= MAX_DOC
}

/// Parses the embedded response document.
pub open spec fn parse_response_doc(d: Seq<u8>) -> Option<Result<(), Seq<char>>> {
    match parse_doc_body(d) {
        None => None,
        Some(inner) => if inner == elem(T_NULL, k_ok(), Seq::<u8>::empty()) {
            Some(Ok(()))
        } else {
            match expect_header(inner, 0, T_STRING, k_err()) {
                None => None,
                Some(i) => match take_string(inner, i) {
                    None => None,
                    Some((bytes, j)) => if j == inner.len() && valid_utf8(bytes) {
                        Some(Err(decode_utf8(bytes)))
                    } else {
                        None
                    },
                },
            }
        },
    }
}

/// Parses a `home_name` element and builds the given init variant.
pub open spec fn parse_name_rest(body: Seq<u8>, i: int, home: bool) -> Option<PacketView> {
    match expect_header(body, i, T_STRING, k_home_name()) {
        None => None,
        Some(j) => match take_string(body, j) {
            None => None,
            Some((bytes, k)) => if k == body.len() && valid_utf8(bytes) {
                if home {
                    Some(PacketView::HomeInit { home_name: decode_utf8(bytes) })
                } else {
                    Some(PacketView::RemoteInit { home_name: decode_utf8(bytes) })
                }
            } else {
                None
            },
        },
    }
}

/// Parses a `response` element and builds the given response variant.
pub open spec fn parse_response_rest(body: Seq<u8>, i: int, home: bool) -> Option<PacketView> {
    match expect_header(body, i, T_DOC, k_response()) {
        None => None,
        Some(j) => match take_doc(body, j) {
            None => None,
            Some((d, k)) => if k == body.len() {
                match parse_response_doc(d) {
                    None => None,
                    Some(response) => if home {
                        Some(PacketView::HomeInitResponse { response })
                    } else {
                        Some(PacketView::RemoteInitResponse { response })
                    },
                }
            } else {
                None
            },
        },
    }
}

/// Parses `peer`, `key`, `iv` and `payload` elements and builds the
/// given envelope variant.
pub open spec fn parse_envelope_rest(body: Seq<u8>, i: int, offer: bool) -> Option<PacketView> {
    match expect_header(body, i, T_INT64, k_peer()) {
        None => None,
        Some(j1) => match take_u64(body, j1) {
            None => None,
            Some((p, i2)) => if p <= u32::MAX {
                match expect_header(body, i2, T_BINARY, k_key()) {
                    None => None,
                    Some(j2) => match take_bin(body, j2) {
                        None => None,
                        Some((key, i3)) => match expect_header(body, i3, T_BINARY, k_iv()) {
                            None => None,
                            Some(j3) => match take_bin(body, j3) {
                                None => None,
                                Some((iv, i4)) => match expect_header(
                                    body,
                                    i4,
                                    T_BINARY,
                                    k_payload(),
                                ) {
                                    None => None,
                                    Some(j4) => match take_bin(body, j4) {
                                        None => None,
                                        Some((payload, i5)) => if i5 == body.len() {
                                            if offer {
                                                Some(
                                                    PacketView::RemoteOffer {
                                                        peer: p as u32,
                                                        key,
                                                        iv,
                                                        payload,
                                                    },
                                                )
                                            } else {
                                                Some(
                                                    PacketView::HomeAnswerSuccess {
                                                        peer: p as u32,
                                                        key,
                                                        iv,
                                                        payload,
                                                    },
                                                )
                                            }
                                        } else {
                                            None
                                        },
                                    },
                                },
                            },
                        },
                    },
                }
            } else {
                None
            },
        },
    }
}

/// Parses `peer` and `error` elements and builds the failure variant.
pub open spec fn parse_failure_rest(body: Seq<u8>, i: int) -> Option<PacketView> {
    match expect_header(body, i, T_INT64, k_peer()) {
        None => None,
        Some(j1) => match take_u64(body, j1) {
            None => None,
            Some((p, i2)) => if p <= u32::MAX {
                match expect_header(body, i2, T_STRING, k_error()) {
                    None => None,
                    Some(j2) => match take_string(body, j2) {
                        None => None,
                        Some((bytes, i3)) => if i3 == body.len() && valid_utf8(bytes) {
                            Some(
                                PacketView::HomeAnswerFailure {
                                    peer: p as u32,
                                    error: decode_utf8(bytes),
                                },
                            )
                        } else {
                            None
                        },
                    },
                }
            } else {
                None
            },
        },
    }
}

/// Parses the element bytes of a packet document: the `type` element
/// selects the variant, then the variant's fields follow in order.
pub open spec fn parse_packet_body(body: Seq<u8>) -> Option<PacketView> {
    match expect_header(body, 0, T_STRING, k_type()) {
        None => None,
        Some(i) => match take_string(body, i) {
            None => None,
            Some((disc, j)) => if disc == d_home_init() {
                parse_name_rest(body, j, true)
            } else if disc == d_home_init_response() {
                parse_response_rest(body, j, true)
            } else if disc == d_remote_init() {
                parse_name_rest(body, j, false)
            } else if disc == d_remote_init_response() {
                parse_response_rest(body, j, false)
            } else if disc == d_remote_offer() {
                parse_envelope_rest(body, j, true)
            } else if disc == d_home_answer_success() {
                parse_envelope_rest(body, j, false)
            } else if disc == d_home_answer_failure() {
                parse_failure_rest(body, j)
            } else {
                None
            },
        },
    }
}

/// Parses a whole packet frame.
pub open spec fn parse_packet(b: Seq<u8>) -> Option<PacketView> {
    match parse_doc_body(b) {
        None => None,
        Some(body) => parse_packet_body(body),
    }
}

/// Parses a whole init packet frame, without validating its contents.
pub open spec fn parse_init(b: Seq<u8>) -> Option<InitView> {
    match parse_doc_body(b) {
        None => None,
        Some(body) => match expect_header(body, 0, T_INT64, k_magic()) {
            None => None,
            Some(i1) => match take_u64(body, i1) {
                None => None,
                Some((mg, i2)) => match expect_header(body, i2, T_INT64, k_version()) {
                    None => None,
                    Some(i3) => match take_u64(body, i3) {
                        None => None,
                        Some((vn, i4)) => if vn <= u32::MAX {
                            match expect_header(body, i4, T_DOC, k_packet()) {
                                None => None,
                                Some(i5) => match take_doc(body, i5) {
                                    None => None,
                                    Some((d, i6)) => if i6 == body.len() {
                                        match parse_packet(d) {
                                            None => None,
                                            Some(packet) => Some(
                                                InitView {
                                                    magic: mg as i64,
                                                    version: vn as u32,
                                                    packet,
                                                },
                                            ),
                                        }
                                    } else {
                                        None
                                    },
                                },
                            }
                        } else {
                            None
                        },
                    },
                },
            },
        },
    }
}

/// Round trip of the response document: parsing inverts encoding.
#[verifier::rlimit(60)]
pub proof fn lemma_response_round_trip(r: Result<(), Seq<char>>)
    requires
        enc_response_doc(r).len() <= MAX_DOC,
    ensures
        parse_response_doc(enc_response_doc(r)) == Some(r),
{
    vstd::bytes::lemma_auto_spec_u32_to_from_le_bytes();
    match r {
        Ok(()) => {
            let inner = elem(T_NULL, k_ok(), Seq::<u8>::empty());
            assert(inner.len() == 4);
            lemma_parse_doc_of_doc(inner);
            let u = r->Ok_0;
            assert(u == ());
            assert(r == Ok::<(), Seq<char>>(()));
        },
        Err(m) => {
            let eb = encode_utf8(m);
            vstd::utf8::encode_utf8_valid_utf8(m);
            vstd::utf8::encode_utf8_decode_utf8(m);
            let inner = elem(T_STRING, k_err(), str_value(m));
            lemma_parse_doc_of_doc(inner);
            assert(inner != elem(T_NULL, k_ok(), Seq::<u8>::empty())) by {
                assert(inner[0] == T_STRING);
                assert(elem(T_NULL, k_ok(), Seq::<u8>::empty())[0] == T_NULL);
            }
            assert(match_bytes(inner, 0, elem(T_STRING, k_err(), str_value(m)))) by {
                assert(inner.subrange(0, inner.len() as int) =~= inner);
            }
            lemma_expect_elem(inner, 0, T_STRING, k_err(), str_value(m));
            lemma_take_string(inner, 5, eb);
        },
    }
}

/// Round trip of a packet frame: parsing inverts encoding for every
/// packet that fits on the wire.
#[verifier::rlimit(100)]
#[verifier::spinoff_prover]
proof fn rt_name(m: PacketView, home_name: Seq<char>)
    requires
        packet_fits(m),
        m == (PacketView::HomeInit { home_name }) || m == (PacketView::RemoteInit { home_name }),
    ensures
        parse_packet(enc_packet(m)) == Some(m),
{
    vstd::bytes::lemma_auto_spec_u32_to_from_le_bytes();
    let body = enc_packet_body(m);
    lemma_parse_doc_of_doc(body);
    assert(match_bytes(body, 0, body)) by {
        assert(body.subrange(0, body.len() as int) =~= body);
    }
    let eb = encode_utf8(home_name);
    vstd::utf8::encode_utf8_valid_utf8(home_name);
    vstd::utf8::encode_utf8_decode_utf8(home_name);
    let e2 = elem(T_STRING, k_home_name(), str_value(home_name));
    if m is HomeInit {
        let e1 = enc_type_elem(d_home_init());
        lemma_match_append(body, 0, e1, e2);
        lemma_expect_elem(body, 0, T_STRING, k_type(), str_value_bytes(d_home_init()));
        lemma_take_string(body, 6, d_home_init());
        lemma_expect_elem(body, 19, T_STRING, k_home_name(), str_value(home_name));
        lemma_take_string(body, 30, eb);
    } else {
        let e1 = enc_type_elem(d_remote_init());
        lemma_match_append(body, 0, e1, e2);
        lemma_expect_elem(body, 0, T_STRING, k_type(), str_value_bytes(d_remote_init()));
        lemma_take_string(body, 6, d_remote_init());
        lemma_expect_elem(body, 21, T_STRING, k_home_name(), str_value(home_name));
        lemma_take_string(body, 32, eb);
    }
}

#[verifier::rlimit(100)]
#[verifier::spinoff_prover]
proof fn rt_home_response(response: Result<(), Seq<char>>)
    requires
        packet_fits((PacketView::HomeInitResponse { response })),
    ensures
        parse_packet(enc_packet((PacketView::HomeInitResponse { response }))) == Some(
            (PacketView::HomeInitResponse { response }),
        ),
{
    vstd::bytes::lemma_auto_spec_u32_to_from_le_bytes();
    let m = PacketView::HomeInitResponse { response };
    let body = enc_packet_body(m);
    lemma_parse_doc_of_doc(body);
    assert(match_bytes(body, 0, body)) by {
        assert(body.subrange(0, body.len() as int) =~= body);
    }
    let e1 = enc_type_elem(d_home_init_response());
    let e2 = elem(T_DOC, k_response(), enc_response_doc(response));
    lemma_match_append(body, 0, e1, e2);
    lemma_expect_elem(body, 0, T_STRING, k_type(), str_value_bytes(d_home_init_response()));
    lemma_take_string(body, 6, d_home_init_response());
    assert(take_string(body, 6) == Some((d_home_init_response(), 27int)));
    lemma_expect_elem(body, 27, T_DOC, k_response(), enc_response_doc(response));
    match response {
        Ok(()) => {
            lemma_take_doc(body, 37, elem(T_NULL, k_ok(), Seq::<u8>::empty()));
        },
        Err(msg) => {
            lemma_take_doc(body, 37, elem(T_STRING, k_err(), str_value(msg)));
        },
    }
    assert(take_doc(body, 37) == Some((enc_response_doc(response), body.len() as int)));
    lemma_response_round_trip(response);
    assert(parse_response_rest(body, 27, true) == Some(m));
}

#[verifier::rlimit(100)]
#[verifier::spinoff_prover]
proof fn rt_remote_response(response: Result<(), Seq<char>>)
    requires
        packet_fits((PacketView::RemoteInitResponse { response })),
    ensures
        parse_packet(enc_packet((PacketView::RemoteInitResponse { response }))) == Some(
            (PacketView::RemoteInitResponse { response }),
        ),
{
    vstd::bytes::lemma_auto_spec_u32_to_from_le_bytes();
    let m = PacketView::RemoteInitResponse { response };
    let body = enc_packet_body(m);
    lemma_parse_doc_of_doc(body);
    assert(match_bytes(body, 0, body)) by {
        assert(body.subrange(0, body.len() as int) =~= body);
    }
    let e1 = enc_type_elem(d_remote_init_response());
    let e2 = elem(T_DOC, k_response(), enc_response_doc(response));
    lemma_match_append(body, 0, e1, e2);
    lemma_expect_elem(body, 0, T_STRING, k_type(), str_value_bytes(d_remote_init_response()));
    lemma_take_string(body, 6, d_remote_init_response());
    assert(take_string(body, 6) == Some((d_remote_init_response(), 29int)));
    lemma_expect_elem(body, 29, T_DOC, k_response(), enc_response_doc(response));
    match response {
        Ok(()) => {
            lemma_take_doc(body, 39, elem(T_NULL, k_ok(), Seq::<u8>::empty()));
        },
        Err(msg) => {
            lemma_take_doc(body, 39, elem(T_STRING, k_err(), str_value(msg)));
        },
    }
    assert(take_doc(body, 39) == Some((enc_response_doc(response), body.len() as int)));
    lemma_response_round_trip(response);
    assert(parse_response_rest(body, 29, false) == Some(m));
}

#[verifier::rlimit(100)]
#[verifier::spinoff_prover]
proof fn rt_offer(peer: u32, key: Seq<u8>, iv: Seq<u8>, payload: Seq<u8>)
    requires
        packet_fits((PacketView::RemoteOffer { peer, key, iv, payload })),
    ensures
        parse_packet(enc_packet((PacketView::RemoteOffer { peer, key, iv, payload }))) == Some(
            (PacketView::RemoteOffer { peer, key, iv, payload }),
        ),
{
    vstd::bytes::lemma_auto_spec_u32_to_from_le_bytes();
    vstd::bytes::lemma_auto_spec_u64_to_from_le_bytes();
    let m = PacketView::RemoteOffer { peer, key, iv, payload };
    let body = enc_packet_body(m);
    lemma_parse_doc_of_doc(body);
    assert(match_bytes(body, 0, body)) by {
        assert(body.subrange(0, body.len() as int) =~= body);
    }
    let e1 = enc_type_elem(d_remote_offer());
    let e2 = elem(T_INT64, k_peer(), u32_value(peer));
    let e3 = elem(T_BINARY, k_key(), bin_value(key));
    let e4 = elem(T_BINARY, k_iv(), bin_value(iv));
    let e5 = elem(T_BINARY, k_payload(), bin_value(payload));
    lemma_match_append(body, 0, e1 + e2 + e3 + e4, e5);
    lemma_match_append(body, 0, e1 + e2 + e3, e4);
    lemma_match_append(body, 0, e1 + e2, e3);
    lemma_match_append(body, 0, e1, e2);
    lemma_expect_elem(body, 0, T_STRING, k_type(), str_value_bytes(d_remote_offer()));
    lemma_take_string(body, 6, d_remote_offer());
    assert(take_string(body, 6) == Some((d_remote_offer(), 22int)));
    lemma_expect_elem(body, 22, T_INT64, k_peer(), u32_value(peer));
    lemma_take_u64(body, 28, peer as u64);
    assert(peer as u64 <= u32::MAX && (peer as u64) as u32 == peer);
    lemma_expect_elem(body, 36, T_BINARY, k_key(), bin_value(key));
    lemma_take_bin(body, 41, key);
    assert(take_bin(body, 41) == Some((key, (46 + key.len()) as int)));
    lemma_expect_elem(body, (46 + key.len()) as int, T_BINARY, k_iv(), bin_value(iv));
    lemma_take_bin(body, (50 + key.len()) as int, iv);
    lemma_expect_elem(
        body,
        (55 + key.len() + iv.len()) as int,
        T_BINARY,
        k_payload(),
        bin_value(payload),
    );
    lemma_take_bin(body, (64 + key.len() + iv.len()) as int, payload);
    assert(take_bin(body, (64 + key.len() + iv.len()) as int) == Some(
        (payload, (69 + key.len() + iv.len() + payload.len()) as int),
    ));
    assert(body.len() == 69 + key.len() + iv.len() + payload.len());
    assert(parse_envelope_rest(body, 22, true) == Some(m));
}

#[verifier::rlimit(100)]
#[verifier::spinoff_prover]
proof fn rt_success(peer: u32, key: Seq<u8>, iv: Seq<u8>, payload: Seq<u8>)
    requires
        packet_fits((PacketView::HomeAnswerSuccess { peer, key, iv, payload })),
    ensures
        parse_packet(enc_packet((PacketView::HomeAnswerSuccess { peer, key, iv, payload })))
            == Some((PacketView::HomeAnswerSuccess { peer, key, iv, payload })),
{
    vstd::bytes::lemma_auto_spec_u32_to_from_le_bytes();
    vstd::bytes::lemma_auto_spec_u64_to_from_le_bytes();
    let m = PacketView::HomeAnswerSuccess { peer, key, iv, payload };
    let body = enc_packet_body(m);
    lemma_parse_doc_of_doc(body);
    assert(match_bytes(body, 0, body)) by {
        assert(body.subrange(0, body.len() as int) =~= body);
    }
    let e1 = enc_type_elem(d_home_answer_success());
    let e2 = elem(T_INT64, k_peer(), u32_value(peer));
    let e3 = elem(T_BINARY, k_key(), bin_value(key));
    let e4 = elem(T_BINARY, k_iv(), bin_value(iv));
    let e5 = elem(T_BINARY, k_payload(), bin_value(payload));
    lemma_match_append(body, 0, e1 + e2 + e3 + e4, e5);
    lemma_match_append(body, 0, e1 + e2 + e3, e4);
    lemma_match_append(body, 0, e1 + e2, e3);
    lemma_match_append(body, 0, e1, e2);
    lemma_expect_elem(body, 0, T_STRING, k_type(), str_value_bytes(d_home_answer_success()));
    lemma_take_string(body, 6, d_home_answer_success());
    assert(take_string(body, 6) == Some((d_home_answer_success(), 28int)));
    lemma_expect_elem(body, 28, T_INT64, k_peer(), u32_value(peer));
    lemma_take_u64(body, 34, peer as u64);
    assert(peer as u64 <= u32::MAX && (peer as u64) as u32 == peer);
    lemma_expect_elem(body, 42, T_BINARY, k_key(), bin_value(key));
    lemma_take_bin(body, 47, key);
    assert(take_bin(body, 47) == Some((key, (52 + key.len()) as int)));
    lemma_expect_elem(body, (52 + key.len()) as int, T_BINARY, k_iv(), bin_value(iv));
    lemma_take_bin(body, (56 + key.len()) as int, iv);
    lemma_expect_elem(
        body,
        (61 + key.len() + iv.len()) as int,
        T_BINARY,
        k_payload(),
        bin_value(payload),
    );
    lemma_take_bin(body, (70 + key.len() + iv.len()) as int, payload);
    assert(take_bin(body, (70 + key.len() + iv.len()) as int) == Some(
        (payload, (75 + key.len() + iv.len() + payload.len()) as int),
    ));
    assert(body.len() == 75 + key.len() + iv.len() + payload.len());
    assert(parse_envelope_rest(body, 28, false) == Some(m));
}

#[verifier::rlimit(100)]
#[verifier::spinoff_prover]
proof fn rt_failure(peer: u32, error: Seq<char>)
    requires
        packet_fits((PacketView::HomeAnswerFailure { peer, error })),
    ensures
        parse_packet(enc_packet((PacketView::HomeAnswerFailure { peer, error }))) == Some(
            (PacketView::HomeAnswerFailure { peer, error }),
        ),
{
    vstd::bytes::lemma_auto_spec_u32_to_from_le_bytes();
    vstd::bytes::lemma_auto_spec_u64_to_from_le_bytes();
    let m = PacketView::HomeAnswerFailure { peer, error };
    let body = enc_packet_body(m);
    lemma_parse_doc_of_doc(body);
    assert(match_bytes(body, 0, body)) by {
        assert(body.subrange(0, body.len() as int) =~= body);
    }
    let eb = encode_utf8(error);
    vstd::utf8::encode_utf8_valid_utf8(error);
    vstd::utf8::encode_utf8_decode_utf8(error);
    let e1 = enc_type_elem(d_home_answer_failure());
    let e2 = elem(T_INT64, k_peer(), u32_value(peer));
    let e3 = elem(T_STRING, k_error(), str_value(error));
    lemma_match_append(body, 0, e1 + e2, e3);
    lemma_match_append(body, 0, e1, e2);
    assert(d_home_answer_failure()[10] != d_home_answer_success()[10]);
    lemma_expect_elem(body, 0, T_STRING, k_type(), str_value_bytes(d_home_answer_failure()));
    lemma_take_string(body, 6, d_home_answer_failure());
    lemma_expect_elem(body, 28, T_INT64, k_peer(), u32_value(peer));
    lemma_take_u64(body, 34, peer as u64);
    lemma_expect_elem(body, 42, T_STRING, k_error(), str_value(error));
    lemma_take_string(body, 49, eb);
}

/// Round trip of a packet frame: parsing inverts encoding for every
/// packet that fits on the wire.
pub proof fn lemma_packet_round_trip(m: PacketView)
    requires
        packet_fits(m),
    ensures
        parse_packet(enc_packet(m)) == Some(m),
{
    match m {
        PacketView::HomeInit { home_name } => rt_name(m, home_name),
        PacketView::RemoteInit { home_name } => rt_name(m, home_name),
        PacketView::HomeInitResponse { response } => rt_home_response(response),
        PacketView::RemoteInitResponse { response } => rt_remote_response(response),
        PacketView::RemoteOffer { peer, key, iv, payload } => rt_offer(peer, key, iv, payload),
        PacketView::HomeAnswerSuccess { peer, key, iv, payload } => rt_success(
            peer,
            key,
            iv,
            payload,
        ),
        PacketView::HomeAnswerFailure { peer, error } => rt_failure(peer, error),
    }
}

/// Round trip of an init packet frame: parsing inverts encoding for
/// every init packet that fits on the wire, whatever its magic,
/// version, or inner variant.
pub proof fn lemma_init_round_trip(v: InitView)
    requires
        init_fits(v),
    ensures
        parse_init(enc_init(v)) == Some(v),
{
    vstd::bytes::lemma_auto_spec_u32_to_from_le_bytes();
    vstd::bytes::lemma_auto_spec_u64_to_from_le_bytes();
    let body = enc_init_body(v);
    lemma_parse_doc_of_doc(body);
    assert(match_bytes(body, 0, body)) by {
        assert(body.subrange(0, body.len() as int) =~= body);
    }
    let e1 = elem(T_INT64, k_magic(), i64_value(v.magic));
    let e2 = elem(T_INT64, k_version(), u32_value(v.version));
    let e3 = elem(T_DOC, k_packet(), enc_packet(v.packet));
    lemma_match_append(body, 0, e1 + e2, e3);
    lemma_match_append(body, 0, e1, e2);
    lemma_expect_elem(body, 0, T_INT64, k_magic(), i64_value(v.magic));
    lemma_take_u64(body, 7, v.magic as u64);
    let mg: i64 = v.magic;
    assert((mg as u64) as i64 == mg) by (bit_vector);
    lemma_expect_elem(body, 15, T_INT64, k_version(), u32_value(v.version));
    lemma_take_u64(body, 24, v.version as u64);
    lemma_expect_elem(body, 32, T_DOC, k_packet(), enc_packet(v.packet));
    lemma_take_doc(body, 40, enc_packet_body(v.packet));
    lemma_packet_round_trip(v.packet);
}

/// Law: an encoded init packet deserializes, and passes validation
/// exactly when its magic number, version, and inner variant are the
/// ones the protocol defines.
pub proof fn lemma_init_gate(v: InitView)
    requires
        init_fits(v),
    ensures
        parse_init(enc_init(v)) == Some(v),
        v.is_valid() <==> (v.magic == crate::MAGIC && v.version == crate::VERSION_1_0
            && v.packet.is_init_variant()),
{
    lemma_init_round_trip(v);
}

/// Relies on `String::from_utf8`: it succeeds exactly on valid UTF-8
/// input and returns the string of the decoded characters.
#[verifier::external_body]
pub(crate) fn bytes_to_string(v: &Vec<u8>) -> (r: Option<String>)
    ensures
        r is Some <==> valid_utf8(v@),
        r matches Some(s) ==> s@ == decode_utf8(v@),
{
    String::from_utf8(v.clone()).ok()
}

/// Appends the `type` element carrying a variant discriminator.
fn push_type_elem(out: &mut Vec<u8>, disc: &[u8])
    requires
        disc@.len() + 1 <= MAX_DOC,
    ensures
        final(out)@ == old(out)@ + enc_type_elem(disc@),
{
    let kt = [116u8, 121, 112, 101];
    proof {
        assert(kt@ =~= k_type());
    }
    push_elem_header(out, T_STRING, kt.as_slice());
    push_str_value(out, disc);
    proof {
        assert(old(out)@ + seq![T_STRING] + k_type() + seq![0u8] + str_value_bytes(disc@)
            =~= old(out)@ + enc_type_elem(disc@));
    }
}

/// Appends a string element, refusing a string too long for the format.
fn push_string_elem(out: &mut Vec<u8>, key: &[u8], s: &String) -> (ok: bool)
    ensures
        ok ==> final(out)@ == old(out)@ + elem(T_STRING, key@, str_value(s@)) && encode_utf8(s@).len()
            + 1 <= MAX_DOC,
        !ok ==> final(out)@ == old(out)@ && encode_utf8(s@).len() + 1 > MAX_DOC,
{
    let bs = s.as_str().as_bytes();
    if bs.len() >= MAX_DOC as usize {
        return false;
    }
    push_elem_header(out, T_STRING, key);
    push_str_value(out, bs);
    proof {
        assert(old(out)@ + seq![T_STRING] + key@ + seq![0u8] + str_value_bytes(bs@) =~= old(out)@
            + elem(T_STRING, key@, str_value(s@)));
    }
    true
}

/// Appends a binary element, refusing a blob too long for the format.
fn push_bin_elem(out: &mut Vec<u8>, key: &[u8], v: &Vec<u8>) -> (ok: bool)
    ensures
        ok ==> final(out)@ == old(out)@ + elem(T_BINARY, key@, bin_value(v@)) && v@.len()
            <= MAX_DOC,
        !ok ==> final(out)@ == old(out)@ && v@.len() > MAX_DOC,
{
    if v.len() > MAX_DOC as usize {
        return false;
    }
    push_elem_header(out, T_BINARY, key);
    push_bin_value(out, v.as_slice());
    proof {
        assert(old(out)@ + seq![T_BINARY] + key@ + seq![0u8] + bin_value(v@) =~= old(out)@ + elem(
            T_BINARY,
            key@,
            bin_value(v@),
        ));
    }
    true
}

/// Appends a 32-bit unsigned element.
fn push_u32_elem(out: &mut Vec<u8>, key: &[u8], v: u32)
    ensures
        final(out)@ == old(out)@ + elem(T_INT64, key@, u32_value(v)),
{
    push_elem_header(out, T_INT64, key);
    push_le64(out, v as u64);
    proof {
        assert(old(out)@ + seq![T_INT64] + key@ + seq![0u8] + u32_value(v) =~= old(out)@ + elem(
            T_INT64,
            key@,
            u32_value(v),
        ));
    }
}

/// Appends a 64-bit signed element.
fn push_i64_elem(out: &mut Vec<u8>, key: &[u8], v: i64)
    ensures
        final(out)@ == old(out)@ + elem(T_INT64, key@, i64_value(v)),
{
    push_elem_header(out, T_INT64, key);
    push_le64(out, v as u64);
    proof {
        assert(old(out)@ + seq![T_INT64] + key@ + seq![0u8] + i64_value(v) =~= old(out)@ + elem(
            T_INT64,
            key@,
            i64_value(v),
        ));
    }
}

/// Appends an embedded-document element from the document's bytes.
fn push_doc_elem(out: &mut Vec<u8>, key: &[u8], d: &Vec<u8>)
    ensures
        final(out)@ == old(out)@ + elem(T_DOC, key@, d@),
{
    push_elem_header(out, T_DOC, key);
    push_bytes(out, d.as_slice());
    proof {
        assert(old(out)@ + seq![T_DOC] + key@ + seq![0u8] + d@ =~= old(out)@ + elem(
            T_DOC,
            key@,
            d@,
        ));
    }
}

/// Builds the embedded response document, refusing a message too long
/// for the format.
fn response_doc(r: &Result<(), ErrorMsg>) -> (res: Option<Vec<u8>>)
    ensures
        match res {
            Some(v) => v@ == enc_response_doc(resp_view(r)) && v@.len() <= MAX_DOC,
            None => enc_response_doc(resp_view(r)).len() > MAX_DOC,
        },
{
    proof {
        vstd::bytes::lemma_auto_spec_u32_to_from_le_bytes();
    }
    let mut body: Vec<u8> = Vec::new();
    match r {
        Ok(()) => {
            let ko = [79u8, 107];
            proof {
                assert(ko@ =~= k_ok());
            }
            push_elem_header(&mut body, T_NULL, ko.as_slice());
            proof {
                assert(body@ =~= elem(T_NULL, k_ok(), Seq::<u8>::empty()));
            }
        },
        Err(m) => {
            let ke = [69u8, 114, 114];
            proof {
                assert(ke@ =~= k_err());
            }
            if !push_string_elem(&mut body, ke.as_slice(), &m.0) {
                proof {
                    assert(enc_response_doc(resp_view(r)).len() == 15 + encode_utf8(m.0@).len());
                }
                return None;
            }
            proof {
                assert(body@ =~= elem(T_STRING, k_err(), str_value(m.0@)));
            }
        },
    }
    if body.len() > (MAX_DOC as usize) - 5 {
        return None;
    }
    Some(finish_doc(&body))
}

/// Serializes a packet into one binary frame. Fails exactly when the
/// packet cannot be encoded within the document size limit.
pub fn serialize_packet(packet: &HandshakePacket) -> (r: Result<Frame, ProtocolError>)
    ensures
        match r {
            Ok(f) => match f {
                Frame::Binary(b) => packet_fits(packet@) && b@ == enc_packet(packet@),
                Frame::NonBinary => false,
            },
            Err(e) => e == ProtocolError::TooLong && !packet_fits(packet@),
        },
{
    proof {
        vstd::bytes::lemma_auto_spec_u32_to_from_le_bytes();
        vstd::bytes::lemma_auto_spec_u64_to_from_le_bytes();
    }
    let mut body: Vec<u8> = Vec::new();
    match packet {
        HandshakePacket::HomeInit { home_name } => {
            let d = [72u8, 111, 109, 101, 73, 110, 105, 116];
            proof {
                assert(d@ =~= d_home_init());
            }
            push_type_elem(&mut body, d.as_slice());
            let kh = [104u8, 111, 109, 101, 95, 110, 97, 109, 101];
            proof {
                assert(kh@ =~= k_home_name());
            }
            if !push_string_elem(&mut body, kh.as_slice(), home_name) {
                proof {
                    assert(enc_packet(packet@).len() == 40 + encode_utf8(home_name@).len());
                }
                return Err(ProtocolError::TooLong);
            }
        },
        HandshakePacket::RemoteInit { home_name } => {
            let d = [82u8, 101, 109, 111, 116, 101, 73, 110, 105, 116];
            proof {
                assert(d@ =~= d_remote_init());
            }
            push_type_elem(&mut body, d.as_slice());
            let kh = [104u8, 111, 109, 101, 95, 110, 97, 109, 101];
            proof {
                assert(kh@ =~= k_home_name());
            }
            if !push_string_elem(&mut body, kh.as_slice(), home_name) {
                proof {
                    assert(enc_packet(packet@).len() == 42 + encode_utf8(home_name@).len());
                }
                return Err(ProtocolError::TooLong);
            }
        },
        HandshakePacket::HomeInitResponse { response } => {
            let d = [72u8, 111, 109, 101, 73, 110, 105, 116, 82, 101, 115, 112, 111, 110, 115, 101];
            proof {
                assert(d@ =~= d_home_init_response());
            }
            push_type_elem(&mut body, d.as_slice());
            let rd = match response_doc(response) {
                Some(v) => v,
                None => {
                    proof {
                        assert(enc_packet(packet@).len() == 42 + enc_response_doc(
                            resp_view(response),
                        ).len());
                    }
                    return Err(ProtocolError::TooLong);
                },
            };
            let kr = [114u8, 101, 115, 112, 111, 110, 115, 101];
            proof {
                assert(kr@ =~= k_response());
            }
            push_doc_elem(&mut body, kr.as_slice(), &rd);
        },
        HandshakePacket::RemoteInitResponse { response } => {
            let d = [
                82u8,
                101,
                109,
                111,
                116,
                101,
                73,
                110,
                105,
                116,
                82,
                101,
                115,
                112,
                111,
                110,
                115,
                101,
            ];
            proof {
                assert(d@ =~= d_remote_init_response());
            }
            push_type_elem(&mut body, d.as_slice());
            let rd = match response_doc(response) {
                Some(v) => v,
                None => {
                    proof {
                        assert(enc_packet(packet@).len() == 44 + enc_response_doc(
                            resp_view(response),
                        ).len());
                    }
                    return Err(ProtocolError::TooLong);
                },
            };
            let kr = [114u8, 101, 115, 112, 111, 110, 115, 101];
            proof {
                assert(kr@ =~= k_response());
            }
            push_doc_elem(&mut body, kr.as_slice(), &rd);
        },
        HandshakePacket::RemoteOffer { peer, key, iv, payload } => {
            let d = [82u8, 101, 109, 111, 116, 101, 79, 102, 102, 101, 114];
            proof {
                assert(d@ =~= d_remote_offer());
            }
            push_type_elem(&mut body, d.as_slice());
            let kp = [112u8, 101, 101, 114];
            proof {
                assert(kp@ =~= k_peer());
            }
            push_u32_elem(&mut body, kp.as_slice(), *peer);
            let kk = [107u8, 101, 121];
            let ki = [105u8, 118];
            let kl = [112u8, 97, 121, 108, 111, 97, 100];
            proof {
                assert(kk@ =~= k_key());
                assert(ki@ =~= k_iv());
                assert(kl@ =~= k_payload());
            }
            let ok1 = push_bin_elem(&mut body, kk.as_slice(), key);
            if !ok1 {
                proof {
                    assert(enc_packet(packet@).len() == 74 + key@.len() + iv@.len()
                        + payload@.len());
                }
                return Err(ProtocolError::TooLong);
            }
            let ok2 = push_bin_elem(&mut body, ki.as_slice(), iv);
            if !ok2 {
                proof {
                    assert(enc_packet(packet@).len() == 74 + key@.len() + iv@.len()
                        + payload@.len());
                }
                return Err(ProtocolError::TooLong);
            }
            let ok3 = push_bin_elem(&mut body, kl.as_slice(), payload);
            if !ok3 {
                proof {
                    assert(enc_packet(packet@).len() == 74 + key@.len() + iv@.len()
                        + payload@.len());
                }
                return Err(ProtocolError::TooLong);
            }
        },
        HandshakePacket::HomeAnswerSuccess { peer, key, iv, payload } => {
            let d = [72u8, 111, 109, 101, 65, 110, 115, 119, 101, 114, 83, 117, 99, 99, 101, 115,
                115];
            proof {
                assert(d@ =~= d_home_answer_success());
            }
            push_type_elem(&mut body, d.as_slice());
            let kp = [112u8, 101, 101, 114];
            proof {
                assert(kp@ =~= k_peer());
            }
            push_u32_elem(&mut body, kp.as_slice(), *peer);
            let kk = [107u8, 101, 121];
            let ki = [105u8, 118];
            let kl = [112u8, 97, 121, 108, 111, 97, 100];
            proof {
                assert(kk@ =~= k_key());
                assert(ki@ =~= k_iv());
                assert(kl@ =~= k_payload());
            }
            let ok1 = push_bin_elem(&mut body, kk.as_slice(), key);
            if !ok1 {
                proof {
                    assert(enc_packet(packet@).len() == 80 + key@.len() + iv@.len()
                        + payload@.len());
                }
                return Err(ProtocolError::TooLong);
            }
            let ok2 = push_bin_elem(&mut body, ki.as_slice(), iv);
            if !ok2 {
                proof {
                    assert(enc_packet(packet@).len() == 80 + key@.len() + iv@.len()
                        + payload@.len());
                }
                return Err(ProtocolError::TooLong);
            }
            let ok3 = push_bin_elem(&mut body, kl.as_slice(), payload);
            if !ok3 {
                proof {
                    assert(enc_packet(packet@).len() == 80 + key@.len() + iv@.len()
                        + payload@.len());
                }
                return Err(ProtocolError::TooLong);
            }
        },
        HandshakePacket::HomeAnswerFailure { peer, error } => {
            let d = [72u8, 111, 109, 101, 65, 110, 115, 119, 101, 114, 70, 97, 105, 108, 117, 114,
                101];
            proof {
                assert(d@ =~= d_home_answer_failure());
            }
            push_type_elem(&mut body, d.as_slice());
            let kp = [112u8, 101, 101, 114];
            proof {
                assert(kp@ =~= k_peer());
            }
            push_u32_elem(&mut body, kp.as_slice(), *peer);
            let ke = [101u8, 114, 114, 111, 114];
            proof {
                assert(ke@ =~= k_error());
            }
            if !push_string_elem(&mut body, ke.as_slice(), error) {
                proof {
                    assert(enc_packet(packet@).len() == 59 + encode_utf8(error@).len());
                }
                return Err(ProtocolError::TooLong);
            }
        },
    }
    proof {
        assert(body@ =~= enc_packet_body(packet@));
    }
    if body.len() > (MAX_DOC as usize) - 5 {
        return Err(ProtocolError::TooLong);
    }
    Ok(Frame::Binary(finish_doc(&body)))
}

/// Serializes an init packet into one binary frame. Fails exactly when
/// it cannot be encoded within the document size limit.
pub fn serialize_init_packet(p: &HandshakeInitPacket) -> (r: Result<Frame, ProtocolError>)
    ensures
        match r {
            Ok(f) => match f {
                Frame::Binary(b) => init_fits(p@) && b@ == enc_init(p@),
                Frame::NonBinary => false,
            },
            Err(e) => e == ProtocolError::TooLong && !init_fits(p@),
        },
{
    proof {
        vstd::bytes::lemma_auto_spec_u32_to_from_le_bytes();
        vstd::bytes::lemma_auto_spec_u64_to_from_le_bytes();
    }
    let inner = match serialize_packet(&p.packet) {
        Ok(Frame::Binary(v)) => v,
        Ok(Frame::NonBinary) => {
            proof {
                assert(false);
            }
            return Err(ProtocolError::TooLong);
        },
        Err(_) => {
            proof {
                assert(enc_init(p@).len() == 45 + enc_packet(p@.packet).len());
            }
            return Err(ProtocolError::TooLong);
        },
    };
    let mut body: Vec<u8> = Vec::new();
    let km = [109u8, 97, 103, 105, 99];
    proof {
        assert(km@ =~= k_magic());
    }
    push_i64_elem(&mut body, km.as_slice(), p.magic);
    let kv = [118u8, 101, 114, 115, 105, 111, 110];
    proof {
        assert(kv@ =~= k_version());
    }
    push_u32_elem(&mut body, kv.as_slice(), p.version);
    let kp = [112u8, 97, 99, 107, 101, 116];
    proof {
        assert(kp@ =~= k_packet());
    }
    push_doc_elem(&mut body, kp.as_slice(), &inner);
    proof {
        assert(body@ =~= enc_init_body(p@));
    }
    if body.len() > (MAX_DOC as usize) - 5 {
        return Err(ProtocolError::TooLong);
    }
    Ok(Frame::Binary(finish_doc(&body)))
}

/// The element name `home_public_key`.
pub open spec fn k_home_public_key() -> Seq<u8> {
    seq![104u8, 111, 109, 101, 95, 112, 117, 98, 108, 105, 99, 95, 107, 101, 121]
}

/// The element name `remote_private_key`.
pub open spec fn k_remote_private_key() -> Seq<u8> {
    seq![114u8, 101, 109, 111, 116, 101, 95, 112, 114, 105, 118, 97, 116, 101, 95, 107, 101, 121]
}

/// The encoding of the persisted password bundle: one document with
/// the two PEM strings.
pub open spec fn enc_remote_password(home_pub: Seq<char>, remote_priv: Seq<char>) -> Seq<u8> {
    doc(
        elem(T_STRING, k_home_public_key(), str_value(home_pub)) + elem(
            T_STRING,
            k_remote_private_key(),
            str_value(remote_priv),
        ),
    )
}

/// Serializes the password bundle for persistence. Fails exactly when
/// the document size limit is exceeded.
pub fn serialize_remote_password(p: &crate::crypto::RemotePassword) -> (r: Result<
    Vec<u8>,
    ProtocolError,
>)
    ensures
        match r {
            Ok(v) => v@ == enc_remote_password(p.home_public_key@, p.remote_private_key@)
                && enc_remote_password(p.home_public_key@, p.remote_private_key@).len() <= MAX_DOC,
            Err(e) => e == ProtocolError::TooLong && enc_remote_password(
                p.home_public_key@,
                p.remote_private_key@,
            ).len() > MAX_DOC,
        },
{
    proof {
        vstd::bytes::lemma_auto_spec_u32_to_from_le_bytes();
    }
    let mut body: Vec<u8> = Vec::new();
    let kh = [104u8, 111, 109, 101, 95, 112, 117, 98, 108, 105, 99, 95, 107, 101, 121];
    let kr = [114u8, 101, 109, 111, 116, 101, 95, 112, 114, 105, 118, 97, 116, 101, 95, 107, 101,
        121];
    proof {
        assert(kh@ =~= k_home_public_key());
        assert(kr@ =~= k_remote_private_key());
    }
    if !push_string_elem(&mut body, kh.as_slice(), &p.home_public_key) {
        proof {
            assert(enc_remote_password(p.home_public_key@, p.remote_private_key@).len() == 52
                + encode_utf8(p.home_public_key@).len() + encode_utf8(p.remote_private_key@).len());
        }
        return Err(ProtocolError::TooLong);
    }
    if !push_string_elem(&mut body, kr.as_slice(), &p.remote_private_key) {
        proof {
            assert(enc_remote_password(p.home_public_key@, p.remote_private_key@).len() == 52
                + encode_utf8(p.home_public_key@).len() + encode_utf8(p.remote_private_key@).len());
        }
        return Err(ProtocolError::TooLong);
    }
    proof {
        assert(body@ =~= elem(T_STRING, k_home_public_key(), str_value(p.home_public_key@)) + elem(
            T_STRING,
            k_remote_private_key(),
            str_value(p.remote_private_key@),
        ));
    }
    if body.len() > (MAX_DOC as usize) - 5 {
        return Err(ProtocolError::TooLong);
    }
    Ok(finish_doc(&body))
}

/// Parses a `home_name` element at `i` and builds the init variant.
fn parse_name_rest_exec(body: &[u8], i: usize, home: bool) -> (r: Option<HandshakePacket>)
    ensures
        match r {
            Some(p) => parse_name_rest(body@, i as int, home) == Some(p@),
            None => parse_name_rest(body@, i as int, home) is None,
        },
{
    let kh = [104u8, 111, 109, 101, 95, 110, 97, 109, 101];
    proof {
        assert(kh@ =~= k_home_name());
    }
    let j = match check_header(body, i, T_STRING, kh.as_slice()) {
        Some(j) => j,
        None => {
            return None;
        },
    };
    let (bytes, k) = match parse_string_at(body, j) {
        Some(p) => p,
        None => {
            return None;
        },
    };
    if k != body.len() {
        return None;
    }
    let name = match bytes_to_string(&bytes) {
        Some(s) => s,
        None => {
            return None;
        },
    };
    if home {
        Some(HandshakePacket::HomeInit { home_name: name })
    } else {
        Some(HandshakePacket::RemoteInit { home_name: name })
    }
}

/// Parses the embedded response document's bytes.
fn parse_response_doc_exec(d: &[u8]) -> (r: Option<Result<(), ErrorMsg>>)
    ensures
        match r {
            Some(resp) => parse_response_doc(d@) == Some(resp_view(&resp)),
            None => parse_response_doc(d@) is None,
        },
{
    let l = d.len();
    if l < 5 || l > MAX_DOC as usize {
        return None;
    }
    let n = read_le32(d, 0);
    if n as usize != l {
        return None;
    }
    if d[l - 1] != 0 {
        return None;
    }
    let inner = vstd::slice::slice_subrange(d, 4, l - 1);
    let okpat = [T_NULL, 79u8, 107, 0];
    proof {
        assert(okpat@ =~= elem(T_NULL, k_ok(), Seq::<u8>::empty()));
    }
    if bytes_eq(inner, okpat.as_slice()) {
        return Some(Ok(()));
    }
    let ke = [69u8, 114, 114];
    proof {
        assert(ke@ =~= k_err());
    }
    let i = match check_header(inner, 0, T_STRING, ke.as_slice()) {
        Some(i) => i,
        None => {
            return None;
        },
    };
    let (bytes, j) = match parse_string_at(inner, i) {
        Some(p) => p,
        None => {
            return None;
        },
    };
    if j != inner.len() {
        return None;
    }
    let msg = match bytes_to_string(&bytes) {
        Some(s) => s,
        None => {
            return None;
        },
    };
    Some(Err(ErrorMsg(msg)))
}

/// Parses a `response` element at `i` and builds the response variant.
fn parse_response_rest_exec(body: &[u8], i: usize, home: bool) -> (r: Option<HandshakePacket>)
    ensures
        match r {
            Some(p) => parse_response_rest(body@, i as int, home) == Some(p@),
            None => parse_response_rest(body@, i as int, home) is None,
        },
{
    let kr = [114u8, 101, 115, 112, 111, 110, 115, 101];
    proof {
        assert(kr@ =~= k_response());
    }
    let j = match check_header(body, i, T_DOC, kr.as_slice()) {
        Some(j) => j,
        None => {
            return None;
        },
    };
    let (d, k) = match parse_doc_at(body, j) {
        Some(p) => p,
        None => {
            return None;
        },
    };
    if k != body.len() {
        return None;
    }
    let response = match parse_response_doc_exec(d.as_slice()) {
        Some(resp) => resp,
        None => {
            return None;
        },
    };
    if home {
        Some(HandshakePacket::HomeInitResponse { response })
    } else {
        Some(HandshakePacket::RemoteInitResponse { response })
    }
}

/// Parses `peer`, `key`, `iv` and `payload` elements at `i` and builds
/// the envelope variant.
fn parse_envelope_rest_exec(body: &[u8], i: usize, offer: bool) -> (r: Option<HandshakePacket>)
    ensures
        match r {
            Some(p) => parse_envelope_rest(body@, i as int, offer) == Some(p@),
            None => parse_envelope_rest(body@, i as int, offer) is None,
        },
{
    let kp = [112u8, 101, 101, 114];
    proof {
        assert(kp@ =~= k_peer());
    }
    let j1 = match check_header(body, i, T_INT64, kp.as_slice()) {
        Some(j) => j,
        None => {
            return None;
        },
    };
    let (p64, i2) = match parse_u64_at(body, j1) {
        Some(p) => p,
        None => {
            return None;
        },
    };
    if p64 > u32::MAX as u64 {
        return None;
    }
    let peer = p64 as u32;
    let kk = [107u8, 101, 121];
    proof {
        assert(kk@ =~= k_key());
    }
    let j2 = match check_header(body, i2, T_BINARY, kk.as_slice()) {
        Some(j) => j,
        None => {
            return None;
        },
    };
    let (key, i3) = match parse_bin_at(body, j2) {
        Some(p) => p,
        None => {
            return None;
        },
    };
    let ki = [105u8, 118];
    proof {
        assert(ki@ =~= k_iv());
    }
    let j3 = match check_header(body, i3, T_BINARY, ki.as_slice()) {
        Some(j) => j,
        None => {
            return None;
        },
    };
    let (iv, i4) = match parse_bin_at(body, j3) {
        Some(p) => p,
        None => {
            return None;
        },
    };
    let kl = [112u8, 97, 121, 108, 111, 97, 100];
    proof {
        assert(kl@ =~= k_payload());
    }
    let j4 = match check_header(body, i4, T_BINARY, kl.as_slice()) {
        Some(j) => j,
        None => {
            return None;
        },
    };
    let (payload, i5) = match parse_bin_at(body, j4) {
        Some(p) => p,
        None => {
            return None;
        },
    };
    if i5 != body.len() {
        return None;
    }
    if offer {
        Some(HandshakePacket::RemoteOffer { peer, key, iv, payload })
    } else {
        Some(HandshakePacket::HomeAnswerSuccess { peer, key, iv, payload })
    }
}

/// Parses `peer` and `error` elements at `i` and builds the failure
/// variant.
fn parse_failure_rest_exec(body: &[u8], i: usize) -> (r: Option<HandshakePacket>)
    ensures
        match r {
            Some(p) => parse_failure_rest(body@, i as int) == Some(p@),
            None => parse_failure_rest(body@, i as int) is None,
        },
{
    let kp = [112u8, 101, 101, 114];
    proof {
        assert(kp@ =~= k_peer());
    }
    let j1 = match check_header(body, i, T_INT64, kp.as_slice()) {
        Some(j) => j,
        None => {
            return None;
        },
    };
    let (p64, i2) = match parse_u64_at(body, j1) {
        Some(p) => p,
        None => {
            return None;
        },
    };
    if p64 > u32::MAX as u64 {
        return None;
    }
    let peer = p64 as u32;
    let ke = [101u8, 114, 114, 111, 114];
    proof {
        assert(ke@ =~= k_error());
    }
    let j2 = match check_header(body, i2, T_STRING, ke.as_slice()) {
        Some(j) => j,
        None => {
            return None;
        },
    };
    let (bytes, i3) = match parse_string_at(body, j2) {
        Some(p) => p,
        None => {
            return None;
        },
    };
    if i3 != body.len() {
        return None;
    }
    let msg = match bytes_to_string(&bytes) {
        Some(s) => s,
        None => {
            return None;
        },
    };
    Some(HandshakePacket::HomeAnswerFailure { peer, error: msg })
}

/// Parses a packet document's element bytes.
#[verifier::rlimit(60)]
fn parse_packet_body_exec(body: &[u8]) -> (r: Option<HandshakePacket>)
    ensures
        match r {
            Some(p) => parse_packet_body(body@) == Some(p@),
            None => parse_packet_body(body@) is None,
        },
{
    let kt = [116u8, 121, 112, 101];
    proof {
        assert(kt@ =~= k_type());
    }
    let i = match check_header(body, 0, T_STRING, kt.as_slice()) {
        Some(i) => i,
        None => {
            return None;
        },
    };
    let (disc, j) = match parse_string_at(body, i) {
        Some(p) => p,
        None => {
            return None;
        },
    };
    let d1 = [72u8, 111, 109, 101, 73, 110, 105, 116];
    let d2 = [72u8, 111, 109, 101, 73, 110, 105, 116, 82, 101, 115, 112, 111, 110, 115, 101];
    let d3 = [82u8, 101, 109, 111, 116, 101, 73, 110, 105, 116];
    let d4 = [82u8, 101, 109, 111, 116, 101, 73, 110, 105, 116, 82, 101, 115, 112, 111, 110, 115,
        101];
    let d5 = [82u8, 101, 109, 111, 116, 101, 79, 102, 102, 101, 114];
    let d6 = [72u8, 111, 109, 101, 65, 110, 115, 119, 101, 114, 83, 117, 99, 99, 101, 115, 115];
    let d7 = [72u8, 111, 109, 101, 65, 110, 115, 119, 101, 114, 70, 97, 105, 108, 117, 114, 101];
    proof {
        assert(d1@ =~= d_home_init());
        assert(d2@ =~= d_home_init_response());
        assert(d3@ =~= d_remote_init());
        assert(d4@ =~= d_remote_init_response());
        assert(d5@ =~= d_remote_offer());
        assert(d6@ =~= d_home_answer_success());
        assert(d7@ =~= d_home_answer_failure());
    }
    if bytes_eq(disc.as_slice(), d1.as_slice()) {
        parse_name_rest_exec(body, j, true)
    } else if bytes_eq(disc.as_slice(), d2.as_slice()) {
        parse_response_rest_exec(body, j, true)
    } else if bytes_eq(disc.as_slice(), d3.as_slice()) {
        parse_name_rest_exec(body, j, false)
    } else if bytes_eq(disc.as_slice(), d4.as_slice()) {
        parse_response_rest_exec(body, j, false)
    } else if bytes_eq(disc.as_slice(), d5.as_slice()) {
        parse_envelope_rest_exec(body, j, true)
    } else if bytes_eq(disc.as_slice(), d6.as_slice()) {
        parse_envelope_rest_exec(body, j, false)
    } else if bytes_eq(disc.as_slice(), d7.as_slice()) {
        parse_failure_rest_exec(body, j)
    } else {
        None
    }
}

/// Parses a whole packet frame's bytes.
fn parse_packet_exec(b: &[u8]) -> (r: Option<HandshakePacket>)
    ensures
        match r {
            Some(p) => parse_packet(b@) == Some(p@),
            None => parse_packet(b@) is None,
        },
{
    let l = b.len();
    if l < 5 || l > MAX_DOC as usize {
        return None;
    }
    let n = read_le32(b, 0);
    if n as usize != l {
        return None;
    }
    if b[l - 1] != 0 {
        return None;
    }
    let body = vstd::slice::slice_subrange(b, 4, l - 1);
    parse_packet_body_exec(body)
}

/// Deserializes a packet from a binary frame; any other frame kind and
/// any bytes that are not a well-formed packet document are rejected.
pub fn deserialize_packet(data: &Frame) -> (r: Result<HandshakePacket, ProtocolError>)
    ensures
        match data {
            Frame::NonBinary => r == Err::<HandshakePacket, ProtocolError>(
                ProtocolError::NonBinaryFrame,
            ),
            Frame::Binary(bytes) => match r {
                Ok(p) => parse_packet(bytes@) == Some(p@),
                Err(e) => parse_packet(bytes@) is None && e == ProtocolError::Malformed,
            },
        },
{
    let bytes = match data {
        Frame::Binary(v) => v,
        Frame::NonBinary => {
            return Err(ProtocolError::NonBinaryFrame);
        },
    };
    match parse_packet_exec(bytes.as_slice()) {
        Some(p) => Ok(p),
        None => Err(ProtocolError::Malformed),
    }
}

/// Parses a whole init packet frame's bytes, without validation.
fn parse_init_exec(b: &[u8]) -> (r: Option<HandshakeInitPacket>)
    ensures
        match r {
            Some(q) => parse_init(b@) == Some(q@),
            None => parse_init(b@) is None,
        },
{
    let l = b.len();
    if l < 5 || l > MAX_DOC as usize {
        return None;
    }
    let n = read_le32(b, 0);
    if n as usize != l {
        return None;
    }
    if b[l - 1] != 0 {
        return None;
    }
    let body = vstd::slice::slice_subrange(b, 4, l - 1);
    let km = [109u8, 97, 103, 105, 99];
    proof {
        assert(km@ =~= k_magic());
    }
    let i1 = match check_header(body, 0, T_INT64, km.as_slice()) {
        Some(i) => i,
        None => {
            return None;
        },
    };
    let (mg64, i2) = match parse_u64_at(body, i1) {
        Some(p) => p,
        None => {
            return None;
        },
    };
    let kv = [118u8, 101, 114, 115, 105, 111, 110];
    proof {
        assert(kv@ =~= k_version());
    }
    let i3 = match check_header(body, i2, T_INT64, kv.as_slice()) {
        Some(i) => i,
        None => {
            return None;
        },
    };
    let (vn64, i4) = match parse_u64_at(body, i3) {
        Some(p) => p,
        None => {
            return None;
        },
    };
    if vn64 > u32::MAX as u64 {
        return None;
    }
    let kp = [112u8, 97, 99, 107, 101, 116];
    proof {
        assert(kp@ =~= k_packet());
    }
    let i5 = match check_header(body, i4, T_DOC, kp.as_slice()) {
        Some(i) => i,
        None => {
            return None;
        },
    };
    let (d, i6) = match parse_doc_at(body, i5) {
        Some(p) => p,
        None => {
            return None;
        },
    };
    if i6 != body.len() {
        return None;
    }
    let packet = match parse_packet_exec(d.as_slice()) {
        Some(p) => p,
        None => {
            return None;
        },
    };
    Some(HandshakeInitPacket { magic: mg64 as i64, version: vn64 as u32, packet })
}

/// Deserializes an init packet from a binary frame and validates its
/// magic number, version, and inner variant.
pub fn deserialize_and_validate_packet(data: &Frame) -> (r: Result<
    HandshakeInitPacket,
    ProtocolError,
>)
    ensures
        match data {
            Frame::NonBinary => r == Err::<HandshakeInitPacket, ProtocolError>(
                ProtocolError::NonBinaryFrame,
            ),
            Frame::Binary(bytes) => match parse_init(bytes@) {
                None => r == Err::<HandshakeInitPacket, ProtocolError>(ProtocolError::Malformed),
                Some(v) => match r {
                    Ok(q) => q@ == v && v.is_valid(),
                    Err(e) => {
                        &&& !v.is_valid()
                        &&& (e == ProtocolError::InvalidMagic <==> v.magic != crate::MAGIC)
                        &&& (e == ProtocolError::UnsupportedVersion <==> v.magic == crate::MAGIC
                            && v.version != crate::VERSION_1_0)
                        &&& (e == ProtocolError::InvalidInitVariant <==> v.magic == crate::MAGIC
                            && v.version == crate::VERSION_1_0 && !v.packet.is_init_variant())
                    },
                },
            },
        },
{
    let bytes = match data {
        Frame::Binary(v) => v,
        Frame::NonBinary => {
            return Err(ProtocolError::NonBinaryFrame);
        },
    };
    let q = match parse_init_exec(bytes.as_slice()) {
        Some(q) => q,
        None => {
            return Err(ProtocolError::Malformed);
        },
    };
    if let Err(e) = q.validate() {
        return Err(e);
    }
    Ok(q)
}

} // verus!
