//! The Rooster side: the name-indexed registry of home desktops, the
//! per-home peer table with its id generator, and the routing rules
//! for answer and offer frames. Each public operation is one critical
//! section: the caller holds the registry lock around one call.

use vstd::prelude::*;

use crate::codec::enc_packet;
use crate::codec::parse_init;
use crate::codec::parse_packet;
use crate::codec::packet_fits;
use crate::codec::deserialize_packet;
use crate::codec::deserialize_and_validate_packet;
use crate::codec::serialize_packet;
use crate::packets::ErrorMsg;
use crate::packets::Frame;
use crate::packets::HandshakePacket;
use crate::packets::PacketView;
use crate::packets::ProtocolError;

verus! {

#[verifier::external_type_specification]
#[verifier::external_body]
#[verifier::reject_recursive_types(T)]
pub struct ExUnboundedSender<T>(futures::channel::mpsc::UnboundedSender<T>);

/// A sink to one connection's egress pump: the sending half of an
/// unbounded channel of frames. Its model is the history of binary
/// frames pushed into it, in order, and whether it was closed.
pub struct PeerSink {
    tx: futures::channel::mpsc::UnboundedSender<Frame>,
    sent: Ghost<Seq<Seq<u8>>>,
    shut: Ghost<bool>,
}

impl PeerSink {
    /// The payloads of the binary frames pushed into this sink so
    /// far, oldest first.
    pub closed spec fn sent(&self) -> Seq<Seq<u8>> {
        self.sent@
    }

    /// Whether this sink's channel was closed from this side.
    pub closed spec fn is_shut(&self) -> bool {
        self.shut@
    }

    /// Wraps a fresh channel sender; its history starts empty.
    pub fn new(tx: futures::channel::mpsc::UnboundedSender<Frame>) -> (r: PeerSink)
        ensures
            r.sent() == Seq::<Seq<u8>>::empty(),
            !r.is_shut(),
    {
        PeerSink { tx, sent: Ghost(Seq::empty()), shut: Ghost(false) }
    }

    /// Relies on futures' `UnboundedSender::unbounded_send`: appends
    /// the frame at the tail of the channel's queue, preserving the
    /// order of earlier sends; fails only when the channel is
    /// disconnected, in which case nothing is delivered.
    #[verifier::external_body]
    pub fn send_binary(&mut self, bytes: &Vec<u8>) -> (ok: bool)
        ensures
            ok ==> final(self).sent() == old(self).sent().push(bytes@),
            !ok ==> final(self).sent() == old(self).sent(),
            final(self).is_shut() == old(self).is_shut(),
    {
        self.tx.unbounded_send(Frame::Binary(bytes.clone())).is_ok()
    }

    /// Relies on futures' `UnboundedSender::close_channel`: closes
    /// the channel, waking its receiving half.
    #[verifier::external_body]
    pub fn close(&mut self)
        ensures
            final(self).is_shut(),
            final(self).sent() == old(self).sent(),
    {
        self.tx.close_channel();
    }
}

/// One registered home desktop: the sink to its connection, the peer
/// id generator, and the attached peers' sinks keyed by id.
pub struct DesktopAndPeers {
    desktop_tx: PeerSink,
    id_counter: u32,
    peers: Vec<(u32, PeerSink)>,
    issued: Ghost<Seq<u32>>,
}

impl DesktopAndPeers {
    /// The next peer id to hand out.
    pub closed spec fn counter(&self) -> u32 {
        self.id_counter
    }

    /// The peer table: id and sink pairs, in insertion order.
    pub closed spec fn peers_seq(&self) -> Seq<(u32, PeerSink)> {
        self.peers@
    }

    /// Every peer id issued over this entry's lifetime, in order.
    pub closed spec fn issued(&self) -> Seq<u32> {
        self.issued@
    }

    /// The sink to the home connection.
    pub closed spec fn home_sink(&self) -> PeerSink {
        self.desktop_tx
    }

    /// Well-formedness: ids were issued consecutively from zero, every
    /// present peer carries an issued id, and ids are unique in the
    /// table.
    pub open spec fn wf(&self) -> bool {
        &&& self.issued().len() == self.counter()
        &&& forall|i: int| 0 <= i < self.issued().len() ==> self.issued()[i] == i
        &&& forall|i: int|
            0 <= i < self.peers_seq().len() ==> (#[trigger] self.peers_seq()[i].0) < self.counter()
        &&& forall|i: int, j: int|
            0 <= i < j < self.peers_seq().len() ==> (#[trigger] self.peers_seq()[i].0) != (
            #[trigger] self.peers_seq()[j].0)
    }

    /// Whether a peer with this id is attached.
    pub open spec fn has_peer(&self, id: u32) -> bool {
        exists|i: int| 0 <= i < self.peers_seq().len() && (#[trigger] self.peers_seq()[i].0) == id
    }

    /// The table index of the peer with this id.
    pub closed spec fn peer_index(&self, id: u32) -> int {
        choose|i: int| 0 <= i < self.peers_seq().len() && (#[trigger] self.peers_seq()[i].0) == id
    }

    /// The sink of the peer with this id.
    pub open spec fn peer_at(&self, id: u32) -> PeerSink {
        self.peers_seq()[self.peer_index(id)].1
    }

    /// A fresh entry around the home connection's sink: id counter at
    /// zero and no peers.
    pub fn new(desktop_tx: PeerSink) -> (r: Self)
        ensures
            r.wf(),
            r.counter() == 0,
            r.issued() == Seq::<u32>::empty(),
            r.peers_seq().len() == 0,
            r.home_sink() == desktop_tx,
    {
        Self { desktop_tx, id_counter: 0, peers: Vec::new(), issued: Ghost(Seq::empty()) }
    }

    /// Attaches a peer sink under a fresh id: the current counter
    /// value, which was never issued before and increases by one.
    pub fn insert_peer(&mut self, peer: PeerSink) -> (id: u32)
        requires
            old(self).wf(),
            old(self).counter() < u32::MAX,
        ensures
            final(self).wf(),
            id == old(self).counter(),
            final(self).counter() == old(self).counter() + 1,
            final(self).issued() == old(self).issued().push(id),
            !old(self).has_peer(id),
            final(self).has_peer(id),
            final(self).peers_seq() == old(self).peers_seq().push((id, peer)),
            final(self).home_sink() == old(self).home_sink(),
    {
        let id = self.id_counter;
        self.peers.push((id, peer));
        self.id_counter = self.id_counter + 1;
        proof {
            self.issued@ = self.issued@.push(id);
            assert(!old(self).has_peer(id));
            assert(self.peers_seq()[self.peers_seq().len() - 1].0 == id);
            assert forall|k: int|
                0 <= k < self.peers_seq().len() implies (#[trigger] self.peers_seq()[k].0)
                < self.counter() by {
                if k < old(self).peers_seq().len() {
                    assert(self.peers_seq()[k] == old(self).peers_seq()[k]);
                }
            }
            assert forall|i1: int, j1: int|
                0 <= i1 < j1 < self.peers_seq().len() implies (#[trigger] self.peers_seq()[i1].0)
                != (#[trigger] self.peers_seq()[j1].0) by {
                if j1 < old(self).peers_seq().len() {
                    assert(self.peers_seq()[i1] == old(self).peers_seq()[i1]);
                    assert(self.peers_seq()[j1] == old(self).peers_seq()[j1]);
                } else {
                    assert(self.peers_seq()[i1] == old(self).peers_seq()[i1]);
                    assert(old(self).peers_seq()[i1].0 < old(self).counter());
                }
            }
        }
        id
    }

    /// The sink of the peer with this id, if one is attached.
    pub fn get_peer(&self, id: &u32) -> (r: Option<&PeerSink>)
        requires
            self.wf(),
        ensures
            r is Some <==> self.has_peer(*id),
            r matches Some(s) ==> *s == self.peer_at(*id),
    {
        let mut i: usize = 0;
        while i < self.peers.len()
            invariant
                self.wf(),
                i <= self.peers_seq().len(),
                forall|k: int| 0 <= k < i ==> (#[trigger] self.peers_seq()[k].0) != *id,
            decreases self.peers_seq().len() - i,
        {
            if self.peers[i].0 == *id {
                proof {
                    assert(self.peers_seq()[i as int].0 == *id);
                    assert(self.peer_index(*id) == i as int) by {
                        let j = self.peer_index(*id);
                        if j != i as int {
                            assert(self.peers_seq()[j].0 == *id);
                        }
                    }
                }
                return Some(&self.peers[i].1);
            }
            i = i + 1;
        }
        proof {
            assert(!self.has_peer(*id));
        }
        None
    }

    /// Detaches the peer with this id, if present; every other peer
    /// keeps its place.
    pub fn remove_peer(&mut self, id: &u32)
        requires
            old(self).wf(),
        ensures
            final(self).wf(),
            !final(self).has_peer(*id),
            final(self).counter() == old(self).counter(),
            final(self).issued() == old(self).issued(),
            final(self).home_sink() == old(self).home_sink(),
            old(self).has_peer(*id) ==> final(self).peers_seq() == old(self).peers_seq().remove(
                old(self).peer_index(*id),
            ),
            !old(self).has_peer(*id) ==> final(self).peers_seq() == old(self).peers_seq(),
            forall|q: u32|
                q != *id && (#[trigger] old(self).has_peer(q)) ==> final(self).has_peer(q) && final(self).peer_at(q) == old(self).peer_at(q),
    {
        let mut i: usize = 0;
        while i < self.peers.len()
            invariant
                *self == *old(self),
                old(self).wf(),
                i <= self.peers_seq().len(),
                forall|k: int| 0 <= k < i ==> (#[trigger] self.peers_seq()[k].0) != *id,
            decreases self.peers_seq().len() - i,
        {
            if self.peers[i].0 == *id {
                proof {
                    assert(old(self).peers_seq()[i as int].0 == *id);
                    assert(old(self).peer_index(*id) == i as int) by {
                        let j = old(self).peer_index(*id);
                        if j != i as int {
                            assert(old(self).peers_seq()[j].0 == *id);
                        }
                    }
                }
                self.peers.remove(i);
                proof {
                    assert(!self.has_peer(*id)) by {
                        assert forall|k: int|
                            0 <= k < self.peers_seq().len() implies (#[trigger] self.peers_seq()[k].0)
                            != *id by {
                            if k < i as int {
                                assert(self.peers_seq()[k] == old(self).peers_seq()[k]);
                            } else {
                                assert(self.peers_seq()[k] == old(self).peers_seq()[k + 1]);
                            }
                        }
                    }
                    let snew = *self;
                    let sold = *old(self);
                    assert forall|q: u32|
                        q != *id && (#[trigger] sold.has_peer(q)) implies snew.has_peer(q)
                        && snew.peer_at(q) == sold.peer_at(q) by {
                        let k = choose|k: int|
                            0 <= k < sold.peers_seq().len() && (#[trigger] sold.peers_seq()[k].0)
                                == q;
                        lemma_peer_index_of(&sold, q, k);
                        if k < i as int {
                            assert(snew.peers_seq()[k] == sold.peers_seq()[k]);
                            lemma_peer_index_of(&snew, q, k);
                        } else {
                            assert(sold.peers_seq()[i as int].0 == *id);
                            assert(k > i as int);
                            assert(snew.peers_seq()[k - 1] == sold.peers_seq()[k]);
                            lemma_peer_index_of(&snew, q, k - 1);
                        }
                    }
                }
                return ;
            }
            i = i + 1;
        }
        proof {
            assert(!self.has_peer(*id));
        }
    }

    /// The next peer id this entry would issue.
    pub fn next_peer_id(&self) -> (r: u32)
        ensures
            r == self.counter(),
    {
        self.id_counter
    }

    /// The peer table, for walking the attached peers.
    pub fn peers(&self) -> (r: &Vec<(u32, PeerSink)>)
        ensures
            r@ == self.peers_seq(),
    {
        &self.peers
    }

    /// Sends a binary frame to the peer with this id. Returns `None`
    /// when no such peer is attached, otherwise whether the channel
    /// accepted the frame; exactly that peer's history grows, by
    /// exactly this frame.
    pub fn send_to_peer(&mut self, id: &u32, bytes: &Vec<u8>) -> (r: Option<bool>)
        requires
            old(self).wf(),
        ensures
            final(self).wf(),
            final(self).counter() == old(self).counter(),
            final(self).issued() == old(self).issued(),
            final(self).home_sink() == old(self).home_sink(),
            final(self).peers_seq().len() == old(self).peers_seq().len(),
            forall|k: int|
                0 <= k < old(self).peers_seq().len() ==> (#[trigger] final(self).peers_seq()[k].0)
                    == old(self).peers_seq()[k].0,
            match r {
                None => !old(self).has_peer(*id) && final(self).peers_seq() == old(self).peers_seq(),
                Some(ok) => {
                    &&& old(self).has_peer(*id)
                    &&& (ok ==> final(self).peer_at(*id).sent() == old(self).peer_at(
                        *id,
                    ).sent().push(bytes@))
                    &&& (!ok ==> final(self).peer_at(*id).sent() == old(self).peer_at(*id).sent())
                    &&& forall|k: int|
                        0 <= k < old(self).peers_seq().len() && old(self).peers_seq()[k].0 != *id
                            ==> (#[trigger] final(self).peers_seq()[k]) == old(self).peers_seq()[k]
                },
            },
    {
        let mut i: usize = 0;
        while i < self.peers.len()
            invariant
                *self == *old(self),
                old(self).wf(),
                i <= self.peers_seq().len(),
                forall|k: int| 0 <= k < i ==> (#[trigger] self.peers_seq()[k].0) != *id,
            decreases self.peers_seq().len() - i,
        {
            if self.peers[i].0 == *id {
                proof {
                    assert(old(self).peers_seq()[i as int].0 == *id);
                    assert(old(self).peer_index(*id) == i as int) by {
                        let j = old(self).peer_index(*id);
                        if j != i as int {
                            assert(old(self).peers_seq()[j].0 == *id);
                        }
                    }
                }
                let mut pair = self.peers.remove(i);
                let ok = pair.1.send_binary(bytes);
                self.peers.insert(i, pair);
                proof {
                    assert(self.peers_seq() =~= old(self).peers_seq().update(
                        i as int,
                        self.peers_seq()[i as int],
                    ));
                    assert(self.peers_seq()[i as int].0 == *id);
                    assert(self.peer_index(*id) == i as int) by {
                        let j = self.peer_index(*id);
                        if j != i as int {
                            assert(self.peers_seq()[j].0 == *id);
                        }
                    }
                }
                return Some(ok);
            }
            i = i + 1;
        }
        proof {
            assert(!self.has_peer(*id));
        }
        None
    }

    /// Sends a binary frame to the home connection's sink; its
    /// history grows by exactly this frame when the channel accepts.
    pub fn send_to_home(&mut self, bytes: &Vec<u8>) -> (ok: bool)
        requires
            old(self).wf(),
        ensures
            final(self).wf(),
            final(self).counter() == old(self).counter(),
            final(self).issued() == old(self).issued(),
            final(self).peers_seq() == old(self).peers_seq(),
            ok ==> final(self).home_sink().sent() == old(self).home_sink().sent().push(bytes@),
            !ok ==> final(self).home_sink().sent() == old(self).home_sink().sent(),
    {
        let ok = self.desktop_tx.send_binary(bytes);
        proof {
            assert(self.peers_seq() == old(self).peers_seq());
            assert(self.issued() == old(self).issued());
            assert(self.counter() == old(self).counter());
        }
        ok
    }

    /// Closes every attached peer's sink, leaving ids, order, and
    /// histories as they were.
    pub fn close_all_peers(&mut self)
        requires
            old(self).wf(),
        ensures
            final(self).wf(),
            final(self).counter() == old(self).counter(),
            final(self).issued() == old(self).issued(),
            final(self).home_sink() == old(self).home_sink(),
            final(self).peers_seq().len() == old(self).peers_seq().len(),
            forall|k: int|
                0 <= k < old(self).peers_seq().len() ==> {
                    &&& (#[trigger] final(self).peers_seq()[k].0) == old(self).peers_seq()[k].0
                    &&& final(self).peers_seq()[k].1.is_shut()
                    &&& final(self).peers_seq()[k].1.sent() == old(self).peers_seq()[k].1.sent()
                },
    {
        let mut i: usize = 0;
        while i < self.peers.len()
            invariant
                old(self).wf(),
                i <= self.peers_seq().len(),
                self.id_counter == old(self).id_counter,
                self.issued@ == old(self).issued@,
                self.desktop_tx == old(self).desktop_tx,
                self.peers_seq().len() == old(self).peers_seq().len(),
                forall|k: int|
                    0 <= k < self.peers_seq().len() ==> (#[trigger] self.peers_seq()[k].0) == old(self).peers_seq()[k].0,
                forall|k: int|
                    0 <= k < i ==> (#[trigger] self.peers_seq()[k].1).is_shut() && self.peers_seq()[k].1.sent()
                        == old(self).peers_seq()[k].1.sent(),
                forall|k: int|
                    i <= k < self.peers_seq().len() ==> (#[trigger] self.peers_seq()[k].1) == old(self).peers_seq()[k].1,
            decreases self.peers_seq().len() - i,
        {
            let ghost prev = self.peers@;
            let mut pair = self.peers.remove(i);
            pair.1.close();
            self.peers.insert(i, pair);
            proof {
                assert(self.peers_seq() =~= prev.update(i as int, self.peers_seq()[i as int]));
                assert forall|k: int|
                    0 <= k < self.peers_seq().len() && k != i as int implies (
                #[trigger] self.peers_seq()[k]) == prev[k] by {}
            }
            i = i + 1;
        }
        proof {
            assert(self.wf()) by {
                assert(forall|k: int|
                    0 <= k < self.peers_seq().len() ==> (#[trigger] self.peers_seq()[k].0) == old(self).peers_seq()[k].0);
            }
        }
    }
}

/// The error message sent to a home whose name is already registered.
pub open spec fn msg_name_taken() -> Seq<char> {
    "Requested desktop name was already taken"@
}

/// The error message sent to a remote naming an unknown desktop.
pub open spec fn msg_not_found() -> Seq<char> {
    "Requested desktop not found"@
}

/// The payload of a binary frame; empty for any other frame.
pub open spec fn frame_bytes(f: &Frame) -> Seq<u8> {
    match f {
        Frame::Binary(b) => b@,
        Frame::NonBinary => Seq::empty(),
    }
}

/// The peer id an answer frame addresses: the frame must be binary
/// and parse as `HomeAnswerSuccess` or `HomeAnswerFailure`.
pub open spec fn frame_answer_peer(f: &Frame) -> Option<u32> {
    match f {
        Frame::NonBinary => None,
        Frame::Binary(b) => match parse_packet(b@) {
            None => None,
            Some(m) => m.answer_peer(),
        },
    }
}

/// The offer a remote's frame carries, with its peer field replaced
/// by the id the registry issued to that remote.
pub open spec fn rewritten_offer(f: &Frame, assigned: u32) -> Option<PacketView> {
    match f {
        Frame::NonBinary => None,
        Frame::Binary(b) => match parse_packet(b@) {
            Some(PacketView::RemoteOffer { peer, key, iv, payload }) => Some(
                PacketView::RemoteOffer { peer: assigned, key, iv, payload },
            ),
            _ => None,
        },
    }
}

/// The outcome of routing one frame read from a home connection.
pub enum RouteOutcome {
    /// The frame was an answer and went, byte-identical, to the
    /// addressed peer's sink.
    Delivered { peer: u32 },
    /// The frame was an answer but no such peer is attached; it is
    /// dropped.
    PeerGone { peer: u32 },
    /// The frame was an answer but the peer's channel is disconnected.
    ChannelDown { peer: u32 },
    /// The frame was not an answer packet; the connection must end.
    Reject,
}

/// The outcome of routing one frame read from a remote connection.
pub enum ForwardOutcome {
    /// The frame was an offer and went, rewritten with the issued
    /// peer id, to the home's sink.
    Forwarded,
    /// The home entry no longer exists.
    HomeGone,
    /// The home's channel is disconnected.
    ChannelDown,
    /// The frame was not an offer packet, or the rewritten offer
    /// cannot be encoded; the connection must end.
    Reject,
}

/// The role the first frame of a connection assigns to it.
pub enum Role {
    Home(String),
    Remote(String),
}

/// Classifies a connection's first frame: a valid init packet
/// wrapping `HomeInit` makes it a home, `RemoteInit` a remote;
/// anything else closes the connection.
pub fn classify_handshake(frame: &Frame) -> (r: Result<Role, ProtocolError>)
    ensures
        match frame {
            Frame::NonBinary => r == Err::<Role, ProtocolError>(ProtocolError::NonBinaryFrame),
            Frame::Binary(bytes) => match parse_init(bytes@) {
                None => r == Err::<Role, ProtocolError>(ProtocolError::Malformed),
                Some(v) => match r {
                    Ok(Role::Home(n)) => v.is_valid() && v.packet == (PacketView::HomeInit {
                        home_name: n@,
                    }),
                    Ok(Role::Remote(n)) => v.is_valid() && v.packet == (PacketView::RemoteInit {
                        home_name: n@,
                    }),
                    Err(_) => !v.is_valid(),
                },
            },
        },
{
    let q = match deserialize_and_validate_packet(frame) {
        Ok(q) => q,
        Err(e) => {
            return Err(e);
        },
    };
    match q.packet {
        HandshakePacket::HomeInit { home_name } => Ok(Role::Home(home_name)),
        HandshakePacket::RemoteInit { home_name } => Ok(Role::Remote(home_name)),
        _ => {
            proof {
                assert(false);
            }
            Err(ProtocolError::InvalidInitVariant)
        },
    }
}

/// The registry of home desktops, one entry per registered name. The
/// caller guards it with one lock and holds the lock around each
/// operation: every lookup-then-mutate below is one critical section.
pub struct DesktopRegistry {
    desktops: Vec<(String, DesktopAndPeers)>,
}

impl DesktopRegistry {
    /// The entries: name and desktop pairs, in registration order.
    pub closed spec fn entries(&self) -> Seq<(String, DesktopAndPeers)> {
        self.desktops@
    }

    /// Well-formedness: names are unique, and every entry is
    /// well-formed.
    pub open spec fn wf(&self) -> bool {
        &&& forall|i: int, j: int|
            0 <= i < j < self.entries().len() ==> (#[trigger] self.entries()[i]).0@ != (
            #[trigger] self.entries()[j]).0@
        &&& forall|i: int| 0 <= i < self.entries().len() ==> (#[trigger] self.entries()[i]).1.wf()
    }

    /// Whether a desktop with this name is registered.
    pub open spec fn has_desktop(&self, name: Seq<char>) -> bool {
        exists|i: int| 0 <= i < self.entries().len() && (#[trigger] self.entries()[i]).0@ == name
    }

    /// The index of the entry with this name.
    pub closed spec fn desktop_index(&self, name: Seq<char>) -> int {
        choose|i: int| 0 <= i < self.entries().len() && (#[trigger] self.entries()[i]).0@ == name
    }

    /// The entry registered under this name.
    pub open spec fn desktop_at(&self, name: Seq<char>) -> DesktopAndPeers {
        self.entries()[self.desktop_index(name)].1
    }

    /// An empty registry.
    pub fn new() -> (r: Self)
        ensures
            r.wf(),
            r.entries().len() == 0,
    {
        Self { desktops: Vec::new() }
    }

    /// Finds the index of the entry with this name.
    fn find(&self, name: &String) -> (r: Option<usize>)
        requires
            self.wf(),
        ensures
            match r {
                Some(i) => self.has_desktop(name@) && i as int == self.desktop_index(name@) && i
                    < self.entries().len(),
                None => !self.has_desktop(name@),
            },
    {
        let mut i: usize = 0;
        while i < self.desktops.len()
            invariant
                self.wf(),
                i <= self.entries().len(),
                forall|k: int| 0 <= k < i ==> (#[trigger] self.entries()[k]).0@ != name@,
            decreases self.entries().len() - i,
        {
            if self.desktops[i].0 == *name {
                proof {
                    assert(self.entries()[i as int].0@ == name@);
                    assert(self.desktop_index(name@) == i as int) by {
                        let j = self.desktop_index(name@);
                        if j != i as int {
                            assert(self.entries()[j].0@ == name@);
                        }
                    }
                }
                return Some(i);
            }
            i = i + 1;
        }
        proof {
            assert(!self.has_desktop(name@));
        }
        None
    }

    /// Registers a home under its name with the sink to its
    /// connection, or reports that the name is already taken.
    pub fn register_home(&mut self, name: String, desktop_tx: PeerSink) -> (r: Result<
        (),
        ErrorMsg,
    >)
        requires
            old(self).wf(),
        ensures
            final(self).wf(),
            match r {
                Ok(()) => {
                    &&& !old(self).has_desktop(name@)
                    &&& final(self).has_desktop(name@)
                    &&& final(self).entries().len() == old(self).entries().len() + 1
                    &&& forall|k: int|
                        0 <= k < old(self).entries().len() ==> (#[trigger] final(self).entries()[k]) == old(self).entries()[k]
                    &&& final(self).desktop_at(name@).counter() == 0
                    &&& final(self).desktop_at(name@).peers_seq().len() == 0
                    &&& final(self).desktop_at(name@).home_sink() == desktop_tx
                },
                Err(m) => {
                    &&& old(self).has_desktop(name@)
                    &&& *final(self) == *old(self)
                    &&& m.0@ == msg_name_taken()
                },
            },
    {
        if let Some(_) = self.find(&name) {
            return Err(ErrorMsg("Requested desktop name was already taken".to_owned()));
        }
        let ghost oldlen = self.entries().len();
        let entry = DesktopAndPeers::new(desktop_tx);
        self.desktops.push((name, entry));
        proof {
            assert(self.entries().len() == oldlen + 1);
            assert(self.entries()[self.entries().len() - 1].0@ == name@);
            assert(self.has_desktop(name@));
            assert(self.desktop_index(name@) == self.entries().len() - 1) by {
                let j = self.desktop_index(name@);
                if j != self.entries().len() - 1 {
                    assert(self.entries()[j].0@ == name@);
                    assert(self.entries()[j] == old(self).entries()[j]);
                }
            }
            assert forall|i1: int, j1: int|
                0 <= i1 < j1 < self.entries().len() implies (#[trigger] self.entries()[i1]).0@ != (
            #[trigger] self.entries()[j1]).0@ by {
                if j1 < oldlen {
                    assert(self.entries()[i1] == old(self).entries()[i1]);
                    assert(self.entries()[j1] == old(self).entries()[j1]);
                } else {
                    assert(self.entries()[i1] == old(self).entries()[i1]);
                    assert(!old(self).has_desktop(name@));
                }
            }
            assert forall|i1: int|
                0 <= i1 < self.entries().len() implies (#[trigger] self.entries()[i1]).1.wf() by {
                if i1 < oldlen {
                    assert(self.entries()[i1] == old(self).entries()[i1]);
                }
            }
        }
        Ok(())
    }

    /// Whether a remote can still be attached under this name: ids
    /// are not exhausted.
    pub fn remote_capacity(&self, name: &String) -> (r: bool)
        requires
            self.wf(),
        ensures
            r == (self.has_desktop(name@) ==> self.desktop_at(name@).counter() < u32::MAX),
    {
        match self.find(name) {
            None => true,
            Some(i) => self.desktops[i].1.next_peer_id() < u32::MAX,
        }
    }

    /// Attaches a remote under a registered name: issues the next
    /// peer id and stores the remote's sink under it; or reports that
    /// the desktop is unknown.
    pub fn register_remote(&mut self, name: &String, peer: PeerSink) -> (r: Result<u32, ErrorMsg>)
        requires
            old(self).wf(),
            old(self).has_desktop(name@) ==> old(self).desktop_at(name@).counter() < u32::MAX,
        ensures
            final(self).wf(),
            final(self).entries().len() == old(self).entries().len(),
            forall|k: int|
                0 <= k < old(self).entries().len() ==> (#[trigger] final(self).entries()[k]).0
                    == old(self).entries()[k].0,
            match r {
                Ok(id) => {
                    &&& old(self).has_desktop(name@)
                    &&& id == old(self).desktop_at(name@).counter()
                    &&& !old(self).desktop_at(name@).has_peer(id)
                    &&& final(self).desktop_at(name@).counter() == id + 1
                    &&& final(self).desktop_at(name@).issued() == old(self).desktop_at(
                        name@,
                    ).issued().push(id)
                    &&& final(self).desktop_at(name@).has_peer(id)
                    &&& final(self).desktop_at(name@).peers_seq() == old(self).desktop_at(
                        name@,
                    ).peers_seq().push((id, peer))
                    &&& final(self).desktop_at(name@).home_sink() == old(self).desktop_at(
                        name@,
                    ).home_sink()
                    &&& forall|k: int|
                        0 <= k < old(self).entries().len() && k != old(self).desktop_index(name@)
                            ==> (#[trigger] final(self).entries()[k]) == old(self).entries()[k]
                },
                Err(m) => {
                    &&& !old(self).has_desktop(name@)
                    &&& *final(self) == *old(self)
                    &&& m.0@ == msg_not_found()
                },
            },
    {
        let i = match self.find(name) {
            Some(i) => i,
            None => {
                return Err(ErrorMsg("Requested desktop not found".to_owned()));
            },
        };
        let mut pair = self.desktops.remove(i);
        let id = pair.1.insert_peer(peer);
        self.desktops.insert(i, pair);
        proof {
            self.lemma_update_at(old(self), i as int, name@);
        }
        Ok(id)
    }

    /// Routes one frame read from the home connection of `home_name`:
    /// the only permitted variants are the two answers, and the frame
    /// goes byte-identical to the sink of the peer it addresses.
    pub fn route_home_frame(&mut self, home_name: &String, frame: &Frame) -> (r: RouteOutcome)
        requires
            old(self).wf(),
        ensures
            final(self).wf(),
            final(self).entries().len() == old(self).entries().len(),
            forall|k: int|
                0 <= k < old(self).entries().len() ==> (#[trigger] final(self).entries()[k]).0
                    == old(self).entries()[k].0,
            match r {
                RouteOutcome::Delivered { peer } => {
                    &&& frame_answer_peer(frame) == Some(peer)
                    &&& old(self).has_desktop(home_name@)
                    &&& old(self).desktop_at(home_name@).has_peer(peer)
                    &&& final(self).desktop_at(home_name@).peer_at(peer).sent() == old(self).desktop_at(home_name@).peer_at(peer).sent().push(frame_bytes(frame))
                    &&& forall|q: u32|
                        q != peer && (#[trigger] old(self).desktop_at(home_name@).has_peer(q))
                            ==> final(self).desktop_at(home_name@).has_peer(q) && final(self).desktop_at(home_name@).peer_at(q).sent() == old(self).desktop_at(
                            home_name@,
                        ).peer_at(q).sent()
                    &&& forall|k: int|
                        0 <= k < old(self).entries().len() && k != old(self).desktop_index(
                            home_name@,
                        ) ==> (#[trigger] final(self).entries()[k]) == old(self).entries()[k]
                },
                RouteOutcome::PeerGone { peer } => {
                    &&& frame_answer_peer(frame) == Some(peer)
                    &&& (old(self).has_desktop(home_name@) ==> {
                        &&& !old(self).desktop_at(home_name@).has_peer(peer)
                        &&& final(self).desktop_at(home_name@).peers_seq() == old(self).desktop_at(home_name@).peers_seq()
                        &&& final(self).desktop_at(home_name@).home_sink() == old(self).desktop_at(home_name@).home_sink()
                    })
                    &&& (!old(self).has_desktop(home_name@) ==> *final(self) == *old(self))
                },
                RouteOutcome::ChannelDown { peer } => {
                    &&& frame_answer_peer(frame) == Some(peer)
                    &&& old(self).has_desktop(home_name@)
                    &&& old(self).desktop_at(home_name@).has_peer(peer)
                    &&& final(self).desktop_at(home_name@).peer_at(peer).sent() == old(self).desktop_at(home_name@).peer_at(peer).sent()
                },
                RouteOutcome::Reject => frame_answer_peer(frame) is None && *final(self) == *old(self),
            },
    {
        let packet = match deserialize_packet(frame) {
            Ok(p) => p,
            Err(_) => {
                return RouteOutcome::Reject;
            },
        };
        let peer: u32 = match &packet {
            HandshakePacket::HomeAnswerSuccess { peer, .. } => *peer,
            HandshakePacket::HomeAnswerFailure { peer, .. } => *peer,
            _ => {
                return RouteOutcome::Reject;
            },
        };
        let bytes = match frame {
            Frame::Binary(b) => b,
            Frame::NonBinary => {
                proof {
                    assert(false);
                }
                return RouteOutcome::Reject;
            },
        };
        let i = match self.find(home_name) {
            Some(i) => i,
            None => {
                return RouteOutcome::PeerGone { peer };
            },
        };
        let mut pair = self.desktops.remove(i);
        let sent = pair.1.send_to_peer(&peer, bytes);
        self.desktops.insert(i, pair);
        proof {
            self.lemma_update_at(old(self), i as int, home_name@);
        }
        match sent {
            None => RouteOutcome::PeerGone { peer },
            Some(true) => {
                proof {
                    assert forall|q: u32|
                        q != peer && (#[trigger] old(self).desktop_at(home_name@).has_peer(
                            q,
                        )) implies self.desktop_at(home_name@).has_peer(q) && self.desktop_at(
                        home_name@,
                    ).peer_at(q).sent() == old(self).desktop_at(home_name@).peer_at(q).sent() by {
                        let eo = old(self).desktop_at(home_name@);
                        let en = self.desktop_at(home_name@);
                        let k = choose|k: int|
                            0 <= k < eo.peers_seq().len() && (#[trigger] eo.peers_seq()[k].0) == q;
                        lemma_peer_index_of(&eo, q, k);
                        assert(en.peers_seq()[k] == eo.peers_seq()[k]);
                        lemma_peer_index_of(&en, q, k);
                    }
                }
                RouteOutcome::Delivered { peer }
            },
            Some(false) => RouteOutcome::ChannelDown { peer },
        }
    }

    /// Routes one frame read from a remote connection attached to
    /// `home_name` under the issued id `assigned`: the only permitted
    /// variant is the offer, which is rewritten to carry `assigned`
    /// and forwarded to the home's sink.
    pub fn route_remote_frame(&mut self, home_name: &String, assigned: u32, frame: &Frame) -> (r:
        ForwardOutcome)
        requires
            old(self).wf(),
        ensures
            final(self).wf(),
            final(self).entries().len() == old(self).entries().len(),
            forall|k: int|
                0 <= k < old(self).entries().len() ==> (#[trigger] final(self).entries()[k]).0
                    == old(self).entries()[k].0,
            match r {
                ForwardOutcome::Forwarded => {
                    &&& rewritten_offer(frame, assigned) is Some
                    &&& packet_fits(rewritten_offer(frame, assigned).unwrap())
                    &&& old(self).has_desktop(home_name@)
                    &&& final(self).desktop_at(home_name@).home_sink().sent() == old(self).desktop_at(home_name@).home_sink().sent().push(
                        enc_packet(rewritten_offer(frame, assigned).unwrap()),
                    )
                    &&& forall|k: int|
                        0 <= k < old(self).entries().len() && k != old(self).desktop_index(
                            home_name@,
                        ) ==> (#[trigger] final(self).entries()[k]) == old(self).entries()[k]
                },
                ForwardOutcome::HomeGone => !old(self).has_desktop(home_name@) && *final(self)
                    == *old(self),
                ForwardOutcome::ChannelDown => {
                    &&& old(self).has_desktop(home_name@)
                    &&& rewritten_offer(frame, assigned) is Some
                    &&& packet_fits(rewritten_offer(frame, assigned).unwrap())
                    &&& final(self).desktop_at(home_name@).home_sink().sent() == old(self).desktop_at(home_name@).home_sink().sent()
                },
                ForwardOutcome::Reject => (rewritten_offer(frame, assigned) is None || !packet_fits(
                    rewritten_offer(frame, assigned).unwrap(),
                )) && *final(self) == *old(self),
            },
    {
        let packet = match deserialize_packet(frame) {
            Ok(p) => p,
            Err(_) => {
                return ForwardOutcome::Reject;
            },
        };
        let filled = match packet {
            HandshakePacket::RemoteOffer { peer: _, key, iv, payload } => {
                HandshakePacket::RemoteOffer { peer: assigned, key, iv, payload }
            },
            _ => {
                return ForwardOutcome::Reject;
            },
        };
        let out = match serialize_packet(&filled) {
            Ok(Frame::Binary(v)) => v,
            Ok(Frame::NonBinary) => {
                proof {
                    assert(false);
                }
                return ForwardOutcome::Reject;
            },
            Err(_) => {
                return ForwardOutcome::Reject;
            },
        };
        let i = match self.find(home_name) {
            Some(i) => i,
            None => {
                return ForwardOutcome::HomeGone;
            },
        };
        let mut pair = self.desktops.remove(i);
        let ok = pair.1.send_to_home(&out);
        self.desktops.insert(i, pair);
        proof {
            self.lemma_update_at(old(self), i as int, home_name@);
        }
        if ok {
            ForwardOutcome::Forwarded
        } else {
            ForwardOutcome::ChannelDown
        }
    }

    /// Removes the entry under this name when the home connection
    /// ends, closing every attached peer's sink, and returns the
    /// removed entry.
    pub fn remove_desktop(&mut self, name: &String) -> (r: Option<DesktopAndPeers>)
        requires
            old(self).wf(),
        ensures
            final(self).wf(),
            !final(self).has_desktop(name@),
            match r {
                Some(entry) => {
                    &&& old(self).has_desktop(name@)
                    &&& final(self).entries() == old(self).entries().remove(
                        old(self).desktop_index(name@),
                    )
                    &&& entry.peers_seq().len() == old(self).desktop_at(name@).peers_seq().len()
                    &&& forall|k: int|
                        0 <= k < entry.peers_seq().len() ==> {
                            &&& (#[trigger] entry.peers_seq()[k].0) == old(self).desktop_at(
                                name@,
                            ).peers_seq()[k].0
                            &&& entry.peers_seq()[k].1.is_shut()
                        }
                },
                None => !old(self).has_desktop(name@) && *final(self) == *old(self),
            },
    {
        let i = match self.find(name) {
            Some(i) => i,
            None => {
                return None;
            },
        };
        let pair = self.desktops.remove(i);
        let mut entry = pair.1;
        entry.close_all_peers();
        proof {
            assert forall|n: Seq<char>| !(#[trigger] self.has_desktop(n)) || old(self).has_desktop(
                n,
            ) by {
                if self.has_desktop(n) {
                    let k = choose|k: int|
                        0 <= k < self.entries().len() && (#[trigger] self.entries()[k]).0@ == n;
                    if k < i as int {
                        assert(old(self).entries()[k].0@ == n);
                    } else {
                        assert(old(self).entries()[k + 1].0@ == n);
                    }
                }
            }
            assert(!self.has_desktop(name@)) by {
                if self.has_desktop(name@) {
                    let k = choose|k: int|
                        0 <= k < self.entries().len() && (#[trigger] self.entries()[k]).0@
                            == name@;
                    if k < i as int {
                        assert(old(self).entries()[k].0@ == name@);
                        assert(old(self).entries()[i as int].0@ == name@);
                    } else {
                        assert(old(self).entries()[k + 1].0@ == name@);
                        assert(old(self).entries()[i as int].0@ == name@);
                    }
                }
            }
            assert forall|i1: int, j1: int|
                0 <= i1 < j1 < self.entries().len() implies (#[trigger] self.entries()[i1]).0@
                != (#[trigger] self.entries()[j1]).0@ by {
                let oi = if i1 < i as int { i1 } else { i1 + 1 };
                let oj = if j1 < i as int { j1 } else { j1 + 1 };
                assert(self.entries()[i1] == old(self).entries()[oi]);
                assert(self.entries()[j1] == old(self).entries()[oj]);
            }
            assert forall|i1: int|
                0 <= i1 < self.entries().len() implies (#[trigger] self.entries()[i1]).1.wf() by {
                let oi = if i1 < i as int { i1 } else { i1 + 1 };
                assert(self.entries()[i1] == old(self).entries()[oi]);
            }
        }
        Some(entry)
    }

    /// Detaches a remote's peer entry when its connection ends; the
    /// home entry, if still present, keeps everything else.
    pub fn remove_remote_peer(&mut self, name: &String, id: u32)
        requires
            old(self).wf(),
        ensures
            final(self).wf(),
            final(self).entries().len() == old(self).entries().len(),
            forall|k: int|
                0 <= k < old(self).entries().len() ==> (#[trigger] final(self).entries()[k]).0
                    == old(self).entries()[k].0,
            old(self).has_desktop(name@) ==> !final(self).desktop_at(name@).has_peer(id),
            old(self).has_desktop(name@) ==> {
                &&& final(self).desktop_at(name@).counter() == old(self).desktop_at(
                    name@,
                ).counter()
                &&& final(self).desktop_at(name@).issued() == old(self).desktop_at(name@).issued()
                &&& final(self).desktop_at(name@).home_sink() == old(self).desktop_at(
                    name@,
                ).home_sink()
                &&& forall|q: u32|
                    q != id && (#[trigger] old(self).desktop_at(name@).has_peer(q)) ==> final(self).desktop_at(name@).has_peer(q) && final(self).desktop_at(name@).peer_at(q)
                        == old(self).desktop_at(name@).peer_at(q)
                &&& forall|k: int|
                    0 <= k < old(self).entries().len() && k != old(self).desktop_index(name@)
                        ==> (#[trigger] final(self).entries()[k]) == old(self).entries()[k]
            },
            !old(self).has_desktop(name@) ==> *final(self) == *old(self),
    {
        let i = match self.find(name) {
            Some(i) => i,
            None => {
                return ;
            },
        };
        let mut pair = self.desktops.remove(i);
        pair.1.remove_peer(&id);
        self.desktops.insert(i, pair);
        proof {
            self.lemma_update_at(old(self), i as int, name@);
        }
    }

    /// After removing index `i` and reinserting a pair with the same
    /// name there, the registry is well-formed again and lookups by
    /// that name land on index `i`.
    proof fn lemma_update_at(&self, prev: &Self, i: int, name: Seq<char>)
        requires
            prev.wf(),
            0 <= i < prev.entries().len(),
            prev.entries()[i].0@ == name,
            self.entries().len() == prev.entries().len(),
            self.entries()[i].0 == prev.entries()[i].0,
            self.entries()[i].1.wf(),
            forall|k: int|
                0 <= k < self.entries().len() && k != i ==> (#[trigger] self.entries()[k]) == prev.entries()[k],
        ensures
            self.wf(),
            self.has_desktop(name),
            self.desktop_index(name) == i,
            prev.has_desktop(name),
            prev.desktop_index(name) == i,
            forall|k: int|
                0 <= k < self.entries().len() ==> (#[trigger] self.entries()[k]).0 == prev.entries()[k].0,
            self.desktop_at(name) == self.entries()[i].1,
            prev.desktop_at(name) == prev.entries()[i].1,
    {
        assert forall|i1: int, j1: int|
            0 <= i1 < j1 < self.entries().len() implies (#[trigger] self.entries()[i1]).0@ != (
        #[trigger] self.entries()[j1]).0@ by {
            assert(self.entries()[i1].0 == prev.entries()[i1].0);
            assert(self.entries()[j1].0 == prev.entries()[j1].0);
        }
        assert forall|i1: int|
            0 <= i1 < self.entries().len() implies (#[trigger] self.entries()[i1]).1.wf() by {
            if i1 != i {
                assert(self.entries()[i1] == prev.entries()[i1]);
            }
        }
        assert(self.entries()[i].0@ == name);
        assert(self.desktop_index(name) == i) by {
            let j = self.desktop_index(name);
            if j != i {
                assert(self.entries()[j].0@ == name);
                assert(self.entries()[j].0 == prev.entries()[j].0);
            }
        }
        assert(prev.desktop_index(name) == i) by {
            let j = prev.desktop_index(name);
            if j != i {
                assert(prev.entries()[j].0@ == name);
            }
        }
    }
}

/// A peer table index carrying an id pins down `peer_index`.
proof fn lemma_peer_index_of(e: &DesktopAndPeers, id: u32, k: int)
    requires
        e.wf(),
        0 <= k < e.peers_seq().len(),
        e.peers_seq()[k].0 == id,
    ensures
        e.has_peer(id),
        e.peer_index(id) == k,
{
    assert(e.has_peer(id));
    let j = e.peer_index(id);
    if j != k {
        assert(e.peers_seq()[j].0 == id);
    }
}

/// Law: home names are unique in the registry: two distinct entries
/// never carry the same name.
pub proof fn lemma_registry_names_unique(r: &DesktopRegistry, i: int, j: int)
    requires
        r.wf(),
        0 <= i < r.entries().len(),
        0 <= j < r.entries().len(),
        i != j,
    ensures
        r.entries()[i].0@ != r.entries()[j].0@,
{
}

/// Law: peer ids are issued strictly increasing within one home
/// registration; an id, once issued, is never issued again.
pub proof fn lemma_peer_ids_strictly_increasing(e: &DesktopAndPeers, i: int, j: int)
    requires
        e.wf(),
        0 <= i < j < e.issued().len(),
    ensures
        e.issued()[i] < e.issued()[j],
        e.issued()[i] != e.issued()[j],
{
}

} // verus!
