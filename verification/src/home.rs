//! The home-side signalling loop: the handshake frames, the at-most-
//! one-session state machine, and the offer-to-answer pipeline. The
//! caller performs the socket and bridge work and feeds the results
//! back as events; every decision is taken here.

use vstd::prelude::*;
use vstd::utf8::encode_utf8;
use vstd::utf8::valid_utf8;

use crate::codec::bytes_to_string;
use crate::codec::enc_init;
use crate::codec::init_fits;
use crate::codec::packet_fits;
use crate::codec::enc_packet;
use crate::codec::lemma_packet_round_trip;
use crate::codec::parse_packet;
use crate::codec::serialize_init_packet;
use crate::codec::serialize_packet;
use crate::crypto::oaep_fits;
use crate::crypto::unwrap;
use crate::crypto::unwrap_spec;
use crate::crypto::wrap;
use crate::crypto::wraps;
use crate::crypto::AES_GCM_MAX_PLAIN;
use crate::crypto::Envelope;
use crate::crypto::PrivateKey;
use crate::crypto::PublicKey;
use crate::packets::ErrorMsg;
use crate::packets::Frame;
use crate::packets::HandshakeInitPacket;
use crate::packets::HandshakePacket;
use crate::packets::InitView;
use crate::packets::PacketView;
use crate::packets::ProtocolError;
use crate::VERSION_1_0;

verus! {

/// The generic failure text sent to a remote when any step of the
/// offer-to-answer pipeline fails; it deliberately says no more.
pub open spec fn msg_signalling_failed() -> Seq<char> {
    "Signalling failed"@
}

/// The offer a frame carries: peer id, wrapped key, nonce, payload.
pub open spec fn frame_offer(f: &Frame) -> Option<(u32, Seq<u8>, Seq<u8>, Seq<u8>)> {
    match f {
        Frame::NonBinary => None,
        Frame::Binary(b) => match parse_packet(b@) {
            Some(PacketView::RemoteOffer { peer, key, iv, payload }) => Some(
                (peer, key, iv, payload),
            ),
            _ => None,
        },
    }
}

/// The UTF-8 encoding of every character sequence takes at most four
/// bytes per character.
pub proof fn lemma_encode_utf8_len_bound(s: Seq<char>)
    ensures
        encode_utf8(s).len() <= 4 * s.len(),
    decreases s.len(),
{
    if s.len() == 0 {
    } else {
        vstd::utf8::char_is_scalar(s[0]);
        lemma_encode_utf8_len_bound(s.drop_first());
    }
}

/// The home-session lifecycle: idle, negotiating an offer with the
/// bridge, streaming, or ended with the connection.
pub enum SessionState {
    Idle,
    Negotiating { peer: u32, generation: u64 },
    Active { peer: u32, generation: u64 },
    Terminated,
}

impl SessionState {
    /// The generation of the session this state belongs to.
    pub open spec fn generation_of(&self) -> Option<u64> {
        match *self {
            SessionState::Idle => None,
            SessionState::Negotiating { generation, .. } => Some(generation),
            SessionState::Active { generation, .. } => Some(generation),
            SessionState::Terminated => None,
        }
    }

    /// The peer the session belongs to.
    pub open spec fn peer_of(&self) -> Option<u32> {
        match *self {
            SessionState::Idle => None,
            SessionState::Negotiating { peer, .. } => Some(peer),
            SessionState::Active { peer, .. } => Some(peer),
            SessionState::Terminated => None,
        }
    }
}

/// The outcome of one frame read from the signalling socket.
pub enum OfferOutcome {
    /// The frame was not an offer: log and skip it.
    Ignored,
    /// Decrypting or decoding the offer failed: send this failure
    /// frame to the signalling server.
    Failure { frame: Frame },
    /// A valid offer: stop the prior bridge session if `supersede`,
    /// then start the bridge on this SDP offer and report back under
    /// this generation.
    Negotiate { generation: u64, offer_sdp: Vec<u8>, supersede: bool },
}

/// The outcome of a bridge answer handed back by the caller.
pub enum AnswerOutcome {
    /// The answer belongs to a superseded session: drop it, send
    /// nothing.
    Stale,
    /// Send this success frame; the session is now active.
    Success { frame: Frame },
    /// The bridge failed or the answer could not be encoded: send
    /// this failure frame; the session is gone.
    Failure { frame: Frame },
}

/// The home-side signalling state machine: holds the home private key
/// for unwrapping offers, the remote public key for wrapping answers,
/// and the at-most-one active session.
pub struct HomeSignaller {
    home_key: PrivateKey,
    remote_key: PublicKey,
    rng: rand_chacha::ChaCha20Rng,
    state: SessionState,
    next_generation: u64,
}

impl HomeSignaller {
    /// The current session state.
    pub closed spec fn state(&self) -> SessionState {
        self.state
    }

    /// The generation the next accepted offer will get.
    pub closed spec fn next_gen(&self) -> u64 {
        self.next_generation
    }

    /// The public PEM of the home key, identifying it.
    pub closed spec fn home_pem(&self) -> Seq<char> {
        self.home_key.pem()
    }

    /// The PEM of the remote public key, identifying it.
    pub closed spec fn remote_pem(&self) -> Seq<char> {
        self.remote_key.pem()
    }

    /// Well-formedness: a live session's generation was issued.
    pub open spec fn wf(&self) -> bool {
        match self.state().generation_of() {
            Some(g) => g < self.next_gen(),
            None => true,
        }
    }

    /// A fresh signaller around the two keys, idle.
    pub fn new(home_key: PrivateKey, remote_key: PublicKey) -> (r: HomeSignaller)
        ensures
            r.wf(),
            r.state() == SessionState::Idle,
            r.next_gen() == 0,
            r.home_pem() == home_key.pem(),
            r.remote_pem() == remote_key.pem(),
    {
        HomeSignaller {
            home_key,
            remote_key,
            rng: crate::crypto::fresh_rng(),
            state: SessionState::Idle,
            next_generation: 0,
        }
    }

    /// Whether another offer can still be accepted: the generation
    /// counter has room for a fresh session.
    pub fn generations_left(&self) -> (r: bool)
        ensures
            r == (self.next_gen() < u64::MAX),
    {
        self.next_generation < u64::MAX
    }

    /// Handles one frame read from the signalling socket. Only the
    /// offer variant is acted on: it is unwrapped with the home key
    /// and checked to be UTF-8; failure of either step yields the
    /// generic failure frame for the offer's peer; success supersedes
    /// any current session and hands the caller the plaintext SDP
    /// offer under a fresh generation.
    pub fn handle_frame(&mut self, frame: &Frame) -> (r: OfferOutcome)
        requires
            old(self).wf(),
            old(self).next_gen() < u64::MAX,
        ensures
            final(self).wf(),
            final(self).home_pem() == old(self).home_pem(),
            final(self).remote_pem() == old(self).remote_pem(),
            match r {
                OfferOutcome::Ignored => frame_offer(frame) is None && final(self).state() == old(
                    self,
                ).state() && final(self).next_gen() == old(self).next_gen(),
                OfferOutcome::Failure { frame: f } => {
                    &&& frame_offer(frame) is Some
                    &&& ({
                        let (p, k, iv, c) = frame_offer(frame).unwrap();
                        {
                            &&& match unwrap_spec(k, iv, c, old(self).home_pem()) {
                                None => true,
                                Some(plain) => !valid_utf8(plain),
                            }
                            &&& match f {
                                Frame::Binary(b) => b@ == enc_packet(
                                    (PacketView::HomeAnswerFailure {
                                        peer: p,
                                        error: msg_signalling_failed(),
                                    }),
                                ),
                                Frame::NonBinary => false,
                            }
                        }
                    })
                    &&& final(self).state() == old(self).state()
                    &&& final(self).next_gen() == old(self).next_gen()
                },
                OfferOutcome::Negotiate { generation, offer_sdp, supersede } => {
                    &&& frame_offer(frame) is Some
                    &&& ({
                        let (p, k, iv, c) = frame_offer(frame).unwrap();
                        {
                            &&& unwrap_spec(k, iv, c, old(self).home_pem()) == Some(offer_sdp@)
                            &&& valid_utf8(offer_sdp@)
                            &&& generation == old(self).next_gen()
                            &&& final(self).state() == (SessionState::Negotiating {
                                peer: p,
                                generation,
                            })
                            &&& final(self).next_gen() == old(self).next_gen() + 1
                            &&& (supersede <==> old(self).state().generation_of() is Some)
                        }
                    })
                },
            },
    {
        let packet = match crate::codec::deserialize_packet(frame) {
            Ok(p) => p,
            Err(_) => {
                return OfferOutcome::Ignored;
            },
        };
        let (peer, envelope) = match packet {
            HandshakePacket::RemoteOffer { peer, key, iv, payload } => {
                (peer, Envelope { key, iv, payload })
            },
            _ => {
                return OfferOutcome::Ignored;
            },
        };
        let plain = match unwrap(&envelope, &self.home_key) {
            Ok(p) => p,
            Err(_) => {
                return OfferOutcome::Failure { frame: self.failure_frame(peer) };
            },
        };
        if bytes_to_string(&plain).is_none() {
            return OfferOutcome::Failure { frame: self.failure_frame(peer) };
        }
        let supersede = match self.state {
            SessionState::Negotiating { .. } | SessionState::Active { .. } => true,
            SessionState::Idle | SessionState::Terminated => false,
        };
        let generation = self.next_generation;
        self.state = SessionState::Negotiating { peer, generation };
        self.next_generation = self.next_generation + 1;
        OfferOutcome::Negotiate { generation, offer_sdp: plain, supersede }
    }

    /// Handles the bridge's answer for the session of `generation`.
    /// An answer for a superseded generation is dropped: no frame is
    /// ever sent for it. A live answer is wrapped for the remote key
    /// and sent as a success frame; a missing answer, or one that
    /// cannot be encoded, yields the generic failure frame and ends
    /// the session.
    pub fn handle_bridge_result(&mut self, generation: u64, answer: Option<Vec<u8>>) -> (r:
        AnswerOutcome)
        requires
            old(self).wf(),
        ensures
            final(self).wf(),
            final(self).home_pem() == old(self).home_pem(),
            final(self).remote_pem() == old(self).remote_pem(),
            final(self).next_gen() == old(self).next_gen(),
            match r {
                AnswerOutcome::Stale => {
                    &&& !(old(self).state() matches SessionState::Negotiating { generation: g, .. }
                        && g == generation)
                    &&& final(self).state() == old(self).state()
                },
                AnswerOutcome::Success { frame: f } => {
                    &&& old(self).state() matches SessionState::Negotiating { generation: g, .. }
                        && g == generation
                    &&& answer is Some
                    &&& ({
                        let p = old(self).state().peer_of().unwrap();
                        {
                            &&& final(self).state() == (SessionState::Active {
                                peer: p,
                                generation,
                            })
                            &&& match f {
                                Frame::Binary(b) => match parse_packet(b@) {
                                    Some(
                                        PacketView::HomeAnswerSuccess { peer, key, iv, payload },
                                    ) => peer == p && wraps(
                                        key,
                                        iv,
                                        payload,
                                        answer.unwrap()@,
                                        old(self).remote_pem(),
                                    ),
                                    _ => false,
                                },
                                Frame::NonBinary => false,
                            }
                        }
                    })
                },
                AnswerOutcome::Failure { frame: f } => {
                    &&& old(self).state() matches SessionState::Negotiating { generation: g, .. }
                        && g == generation
                    &&& final(self).state() == SessionState::Idle
                    &&& ({
                        let p = old(self).state().peer_of().unwrap();
                        {
                            &&& match f {
                                Frame::Binary(b) => b@ == enc_packet(
                                    (PacketView::HomeAnswerFailure {
                                        peer: p,
                                        error: msg_signalling_failed(),
                                    }),
                                ),
                                Frame::NonBinary => false,
                            }
                            &&& (answer matches Some(a) ==> {
                                ||| a@.len() > AES_GCM_MAX_PLAIN
                                ||| !oaep_fits(old(self).remote_pem(), 32)
                                ||| exists|wk: Seq<u8>, wiv: Seq<u8>, wc: Seq<u8>|
                                    {
                                        &&& #[trigger] wraps(wk, wiv, wc, a@, old(self).remote_pem())
                                        &&& !packet_fits(
                                            (PacketView::HomeAnswerSuccess {
                                                peer: p,
                                                key: wk,
                                                iv: wiv,
                                                payload: wc,
                                            }),
                                        )
                                    }
                            })
                        }
                    })
                },
            },
    {
        let peer = match self.state {
            SessionState::Negotiating { peer, generation: g } => {
                if g != generation {
                    return AnswerOutcome::Stale;
                }
                peer
            },
            _ => {
                return AnswerOutcome::Stale;
            },
        };
        let answer_bytes = match answer {
            Some(a) => a,
            None => {
                self.state = SessionState::Idle;
                return AnswerOutcome::Failure { frame: self.failure_frame(peer) };
            },
        };
        let envelope = match wrap(&answer_bytes, &self.remote_key, &mut self.rng) {
            Ok(e) => e,
            Err(_) => {
                self.state = SessionState::Idle;
                return AnswerOutcome::Failure { frame: self.failure_frame(peer) };
            },
        };
        let success = HandshakePacket::HomeAnswerSuccess {
            peer,
            key: envelope.key,
            iv: envelope.iv,
            payload: envelope.payload,
        };
        match serialize_packet(&success) {
            Ok(f) => {
                proof {
                    lemma_packet_round_trip(success@);
                }
                self.state = SessionState::Active { peer, generation };
                AnswerOutcome::Success { frame: f }
            },
            Err(_) => {
                proof {
                    assert(wraps(
                        envelope.key@,
                        envelope.iv@,
                        envelope.payload@,
                        answer_bytes@,
                        old(self).remote_pem(),
                    ));
                }
                self.state = SessionState::Idle;
                AnswerOutcome::Failure { frame: self.failure_frame(peer) }
            },
        }
    }

    /// The connection closed: the session ends for good.
    pub fn terminate(&mut self)
        requires
            old(self).wf(),
        ensures
            final(self).wf(),
            final(self).state() == SessionState::Terminated,
            final(self).next_gen() == old(self).next_gen(),
            final(self).home_pem() == old(self).home_pem(),
            final(self).remote_pem() == old(self).remote_pem(),
    {
        self.state = SessionState::Terminated;
    }

    /// Builds the generic failure frame for a peer; it always fits on
    /// the wire.
    fn failure_frame(&mut self, peer: u32) -> (f: Frame)
        ensures
            final(self).state() == old(self).state(),
            final(self).next_gen() == old(self).next_gen(),
            final(self).home_pem() == old(self).home_pem(),
            final(self).remote_pem() == old(self).remote_pem(),
            match f {
                Frame::Binary(b) => b@ == enc_packet(
                    (PacketView::HomeAnswerFailure { peer, error: msg_signalling_failed() }),
                ),
                Frame::NonBinary => false,
            },
    {
        let failure = HandshakePacket::HomeAnswerFailure {
            peer,
            error: "Signalling failed".to_owned(),
        };
        proof {
            vstd::bytes::lemma_auto_spec_u32_to_from_le_bytes();
            vstd::bytes::lemma_auto_spec_u64_to_from_le_bytes();
            lemma_encode_utf8_len_bound(msg_signalling_failed());
            reveal_strlit("Signalling failed");
            assert(msg_signalling_failed().len() <= 64);
            assert(enc_packet(failure@).len() == 59 + encode_utf8(msg_signalling_failed()).len());
        }
        match serialize_packet(&failure) {
            Ok(f) => f,
            Err(_) => {
                proof {
                    assert(false);
                }
                Frame::NonBinary
            },
        }
    }
}

/// Builds the handshake frame a home sends first: the init packet
/// wrapping `HomeInit` with the desktop's name.
pub fn home_init_frame(desktop_name: &String) -> (r: Result<Frame, ProtocolError>)
    ensures
        match r {
            Ok(f) => match f {
                Frame::Binary(b) => b@ == enc_init(
                    (InitView {
                        magic: crate::MAGIC,
                        version: VERSION_1_0,
                        packet: PacketView::HomeInit { home_name: desktop_name@ },
                    }),
                ),
                Frame::NonBinary => false,
            },
            Err(e) => e == ProtocolError::TooLong && !init_fits(
                (InitView {
                    magic: crate::MAGIC,
                    version: VERSION_1_0,
                    packet: PacketView::HomeInit { home_name: desktop_name@ },
                }),
            ),
        },
{
    let packet = HandshakePacket::HomeInit { home_name: desktop_name.clone() };
    let q = match HandshakeInitPacket::new(VERSION_1_0, packet) {
        Ok(q) => q,
        Err(_) => {
            proof {
                assert(false);
            }
            return Err(ProtocolError::TooLong);
        },
    };
    serialize_init_packet(&q)
}

/// What the signalling server said to the home's handshake.
pub enum HandshakeReply {
    /// `HomeInitResponse` carrying success: the name is registered.
    Accepted,
    /// `HomeInitResponse` carrying an error: a terminal failure.
    Refused(ErrorMsg),
    /// Any other frame: the handshake failed.
    Unexpected,
}

/// Reads the server's reply to the home's init packet: exactly a
/// `HomeInitResponse` is expected, and its payload decides.
pub fn parse_home_init_response(frame: &Frame) -> (r: HandshakeReply)
    ensures
        match frame {
            Frame::NonBinary => r is Unexpected,
            Frame::Binary(b) => match parse_packet(b@) {
                Some(PacketView::HomeInitResponse { response }) => match response {
                    Ok(()) => r is Accepted,
                    Err(m) => match r {
                        HandshakeReply::Refused(e) => e.0@ == m,
                        _ => false,
                    },
                },
                _ => r is Unexpected,
            },
        },
{
    let packet = match crate::codec::deserialize_packet(frame) {
        Ok(p) => p,
        Err(_) => {
            return HandshakeReply::Unexpected;
        },
    };
    match packet {
        HandshakePacket::HomeInitResponse { response } => match response {
            Ok(()) => HandshakeReply::Accepted,
            Err(m) => HandshakeReply::Refused(m),
        },
        _ => HandshakeReply::Unexpected,
    }
}

/// Whether a desktop name can be used: its UTF-8 encoding is
/// nonempty and holds no zero byte, so it survives the handshake and
/// the bridge's string handling.
pub fn validate_desktop_name(name: &String) -> (r: bool)
    ensures
        r == (encode_utf8(name@).len() > 0 && forall|i: int|
            0 <= i < encode_utf8(name@).len() ==> encode_utf8(name@)[i] != 0u8),
{
    let bs = name.as_str().as_bytes();
    if bs.len() == 0 {
        return false;
    }
    let mut i: usize = 0;
    while i < bs.len()
        invariant
            bs@ == encode_utf8(name@),
            i <= bs@.len(),
            forall|k: int| 0 <= k < i ==> bs@[k] != 0u8,
        decreases bs@.len() - i,
    {
        if bs[i] == 0 {
            return false;
        }
        i = i + 1;
    }
    true
}

} // verus!
