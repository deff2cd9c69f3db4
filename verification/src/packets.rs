//! The packet types carried over the signalling channel, the init-packet
//! wrapper with its validation rules, and the error types they surface.

use vstd::prelude::*;

use crate::MAGIC;
use crate::VERSION_1_0;

verus! {

/// A wrapper around a `String` used as the error payload of the
/// handshake response packets.
#[derive(Debug)]
pub struct ErrorMsg(pub String);

impl ErrorMsg {
    /// The message text.
    pub fn message(&self) -> (r: &String)
        ensures
            r@ == self.0@,
    {
        &self.0
    }
}

/// The body of every packet sent over the signalling channel. `HomeInit`
/// and `RemoteInit` travel wrapped in a [`HandshakeInitPacket`]; the
/// other variants travel bare.
#[derive(Debug)]
pub enum HandshakePacket {
    HomeInit { home_name: String },
    HomeInitResponse { response: Result<(), ErrorMsg> },
    RemoteInit { home_name: String },
    RemoteInitResponse { response: Result<(), ErrorMsg> },
    RemoteOffer { peer: u32, key: Vec<u8>, iv: Vec<u8>, payload: Vec<u8> },
    HomeAnswerSuccess { peer: u32, key: Vec<u8>, iv: Vec<u8>, payload: Vec<u8> },
    HomeAnswerFailure { peer: u32, error: String },
}

/// The model of a handshake response: success, or an error message.
pub open spec fn resp_view(r: &Result<(), ErrorMsg>) -> Result<(), Seq<char>> {
    match r {
        Ok(()) => Ok(()),
        Err(m) => Err(m.0@),
    }
}

/// The mathematical model of a [`HandshakePacket`]: the same variants
/// over sequences instead of heap-allocated strings and vectors.
pub enum PacketView {
    HomeInit { home_name: Seq<char> },
    HomeInitResponse { response: Result<(), Seq<char>> },
    RemoteInit { home_name: Seq<char> },
    RemoteInitResponse { response: Result<(), Seq<char>> },
    RemoteOffer { peer: u32, key: Seq<u8>, iv: Seq<u8>, payload: Seq<u8> },
    HomeAnswerSuccess { peer: u32, key: Seq<u8>, iv: Seq<u8>, payload: Seq<u8> },
    HomeAnswerFailure { peer: u32, error: Seq<char> },
}

impl PacketView {
    /// Whether this variant is allowed inside an init packet.
    pub open spec fn is_init_variant(&self) -> bool {
        self is HomeInit || self is RemoteInit
    }

    /// The peer id an answer variant addresses.
    pub open spec fn answer_peer(&self) -> Option<u32> {
        match *self {
            PacketView::HomeAnswerSuccess { peer, .. } => Some(peer),
            PacketView::HomeAnswerFailure { peer, .. } => Some(peer),
            _ => None,
        }
    }
}

impl View for HandshakePacket {
    type V = PacketView;

    open spec fn view(&self) -> PacketView {
        match self {
            HandshakePacket::HomeInit { home_name } => PacketView::HomeInit {
                home_name: home_name@,
            },
            HandshakePacket::HomeInitResponse { response } => PacketView::HomeInitResponse {
                response: resp_view(response),
            },
            HandshakePacket::RemoteInit { home_name } => PacketView::RemoteInit {
                home_name: home_name@,
            },
            HandshakePacket::RemoteInitResponse { response } => PacketView::RemoteInitResponse {
                response: resp_view(response),
            },
            HandshakePacket::RemoteOffer { peer, key, iv, payload } => PacketView::RemoteOffer {
                peer: *peer,
                key: key@,
                iv: iv@,
                payload: payload@,
            },
            HandshakePacket::HomeAnswerSuccess { peer, key, iv, payload } => PacketView::HomeAnswerSuccess {
                peer: *peer,
                key: key@,
                iv: iv@,
                payload: payload@,
            },
            HandshakePacket::HomeAnswerFailure { peer, error } => PacketView::HomeAnswerFailure {
                peer: *peer,
                error: error@,
            },
        }
    }
}

impl HandshakePacket {
    /// Whether this variant is allowed inside a [`HandshakeInitPacket`].
    pub open spec fn is_init_variant(&self) -> bool {
        self is HomeInit || self is RemoteInit
    }
}

/// The first packet of a connection: a [`HandshakePacket`] of variant
/// `HomeInit` or `RemoteInit`, together with the protocol magic number
/// and version.
#[derive(Debug)]
pub struct HandshakeInitPacket {
    pub magic: i64,
    pub version: u32,
    pub packet: HandshakePacket,
}

/// Rejection reasons for frames and packets that do not follow the
/// protocol.
#[derive(Debug, Clone, Copy, PartialEq, Eq, Structural)]
pub enum ProtocolError {
    /// The frame was not a binary WebSocket frame.
    NonBinaryFrame,
    /// The frame's bytes were not a well-formed encoding of the
    /// expected packet.
    Malformed,
    /// An init packet carried a magic number other than [`MAGIC`].
    InvalidMagic,
    /// An init packet carried a version other than [`VERSION_1_0`].
    UnsupportedVersion,
    /// An init packet wrapped a variant other than `HomeInit` or
    /// `RemoteInit`.
    InvalidInitVariant,
    /// The packet cannot be encoded within the document size limit.
    TooLong,
}

/// The mathematical model of a [`HandshakeInitPacket`].
pub struct InitView {
    pub magic: i64,
    pub version: u32,
    pub packet: PacketView,
}

impl InitView {
    /// Validity of the modelled init packet.
    pub open spec fn is_valid(&self) -> bool {
        &&& self.magic == MAGIC
        &&& self.version == VERSION_1_0
        &&& self.packet.is_init_variant()
    }
}

impl View for HandshakeInitPacket {
    type V = InitView;

    open spec fn view(&self) -> InitView {
        InitView { magic: self.magic, version: self.version, packet: self.packet@ }
    }
}

impl HandshakeInitPacket {
    /// Validity: correct magic, supported version, and an inner variant
    /// that is allowed in an init packet.
    pub open spec fn is_valid(&self) -> bool {
        &&& self.magic == MAGIC
        &&& self.version == VERSION_1_0
        &&& self.packet.is_init_variant()
    }

    /// Builds an init packet with the protocol magic number, rejecting
    /// unsupported versions and inner variants that may not start a
    /// handshake.
    pub fn new(version: u32, packet: HandshakePacket) -> (r: Result<Self, ProtocolError>)
        ensures
            match r {
                Ok(p) => {
                    &&& p.magic == MAGIC
                    &&& p.version == version
                    &&& p.packet == packet
                    &&& p.is_valid()
                },
                Err(e) => {
                    &&& !(version == VERSION_1_0 && packet.is_init_variant())
                    &&& (e == ProtocolError::UnsupportedVersion || e
                        == ProtocolError::InvalidInitVariant)
                    &&& (e == ProtocolError::UnsupportedVersion <==> version != VERSION_1_0)
                },
            },
    {
        let new = Self { magic: MAGIC, version, packet };
        if let Err(e) = new.validate() {
            return Err(e);
        }
        Ok(new)
    }

    /// Checks magic, version, and inner variant, reporting the first
    /// failure in that order.
    pub fn validate(&self) -> (r: Result<(), ProtocolError>)
        ensures
            r is Ok <==> self.is_valid(),
            match r {
                Ok(()) => self.is_valid(),
                Err(e) => {
                    &&& (e == ProtocolError::InvalidMagic <==> self.magic != MAGIC)
                    &&& (e == ProtocolError::UnsupportedVersion <==> self.magic == MAGIC
                        && self.version != VERSION_1_0)
                    &&& (e == ProtocolError::InvalidInitVariant <==> self.magic == MAGIC
                        && self.version == VERSION_1_0 && !self.packet.is_init_variant())
                },
            },
    {
        Self::validate_magic(self.magic)?;
        Self::validate_version(self.version)?;
        Self::validate_packet(&self.packet)?;
        Ok(())
    }

    /// Validates that the magic number equals [`MAGIC`].
    fn validate_magic(magic: i64) -> (r: Result<(), ProtocolError>)
        ensures
            r is Ok <==> magic == MAGIC,
            r is Err ==> r == Err::<(), ProtocolError>(ProtocolError::InvalidMagic),
    {
        if magic == MAGIC {
            Ok(())
        } else {
            Err(ProtocolError::InvalidMagic)
        }
    }

    /// Validates that the version equals [`VERSION_1_0`].
    fn validate_version(version: u32) -> (r: Result<(), ProtocolError>)
        ensures
            r is Ok <==> version == VERSION_1_0,
            r is Err ==> r == Err::<(), ProtocolError>(ProtocolError::UnsupportedVersion),
    {
        if version == VERSION_1_0 {
            Ok(())
        } else {
            Err(ProtocolError::UnsupportedVersion)
        }
    }

    /// Validates that the inner packet is `HomeInit` or `RemoteInit`.
    fn validate_packet(packet: &HandshakePacket) -> (r: Result<(), ProtocolError>)
        ensures
            r is Ok <==> packet.is_init_variant(),
            r is Err ==> r == Err::<(), ProtocolError>(ProtocolError::InvalidInitVariant),
    {
        match packet {
            HandshakePacket::HomeInit { .. } | HandshakePacket::RemoteInit { .. } => Ok(()),
            _ => Err(ProtocolError::InvalidInitVariant),
        }
    }
}

/// A WebSocket frame as the signalling code sees it: either a binary
/// frame with its payload, or any other kind of frame, which the
/// protocol rejects.
#[derive(Debug)]
pub enum Frame {
    Binary(Vec<u8>),
    NonBinary,
}

} // verus!
