use std::collections::VecDeque;
use vstd::prelude::*;
use vstd::slice::slice_subrange;
use crate::rlp::{advance, be_bytes, Rlp, RlpError};
use crate::rlp_payload::{
    decode_payload, encode_payload, lemma_payload_round_trip, payload_length, payload_read,
    payload_sound, payload_wire,
};
use crate::eth_wire::capability::{
    ids_fit, is_shared, laid_out, picks, protocol_models, CapabilityModel, SharedCapabilities,
    MAX_RESERVED_MESSAGE_ID,
};
use crate::eth_wire::disconnect::{lemma_reason_round_trip, read_reason, DisconnectReason};
use crate::eth_wire::errors::{GotExpected, P2PHandshakeError, P2PStreamError, PingerError};
use crate::eth_wire::hello::{HelloMessage, HelloMessageWithProtocols, HelloModel};
use crate::eth_wire::pinger::{timer_of, PingState, PingTimer, Pinger, PingerEvent};
use crate::eth_wire::snappy::{
    compress, decompress, decompress_len, snappy, snappy_length, unsnappy,
};

verus! {

/// The largest payload that is accepted, uncompressed: 16 MiB.
pub const MAX_PAYLOAD_SIZE: usize = 16 * 1024 * 1024;

/// The largest message id that the `p2p` protocol uses.
pub const MAX_P2P_MESSAGE_ID: u8 = 0x03;

/// How many seconds a `p2p` handshake may take.
pub const HANDSHAKE_TIMEOUT_SECS: u64 = 10;

/// How many seconds a pong may take.
pub const PING_TIMEOUT_SECS: u64 = 15;

/// How many seconds lie between pings.
pub const PING_INTERVAL_SECS: u64 = 60;

/// How many messages are buffered for sending unless told otherwise.
pub const MAX_P2P_CAPACITY: usize = 2;

/// The ids of the messages of the `p2p` protocol.
#[derive(Clone, Copy, Debug, PartialEq, Eq, Structural)]
pub enum P2PMessageID {
    Hello,
    Disconnect,
    Ping,
    Pong,
}

/// The id that a byte stands for.
pub open spec fn p2p_id_of(b: u8) -> Option<P2PMessageID> {
    match b {
        0x00 => Some(P2PMessageID::Hello),
        0x01 => Some(P2PMessageID::Disconnect),
        0x02 => Some(P2PMessageID::Ping),
        0x03 => Some(P2PMessageID::Pong),
        _ => None,
    }
}

impl P2PMessageID {
    /// The byte of the id.
    pub open spec fn byte(self) -> u8 {
        match self {
            P2PMessageID::Hello => 0x00,
            P2PMessageID::Disconnect => 0x01,
            P2PMessageID::Ping => 0x02,
            P2PMessageID::Pong => 0x03,
        }
    }

    /// The byte of the id.
    pub fn to_u8(self) -> (r: u8)
        ensures
            r == self.byte(),
    {
        match self {
            P2PMessageID::Hello => 0x00,
            P2PMessageID::Disconnect => 0x01,
            P2PMessageID::Ping => 0x02,
            P2PMessageID::Pong => 0x03,
        }
    }

    /// The id that a byte stands for.
    pub fn try_from(id: u8) -> (r: Result<P2PMessageID, P2PStreamError>)
        ensures
            match p2p_id_of(id) {
                Some(i) => r == Ok::<P2PMessageID, P2PStreamError>(i),
                None => r == Err::<P2PMessageID, P2PStreamError>(
                    P2PStreamError::UnknownReservedMessageId(id),
                ),
            },
    {
        match id {
            0x00 => Ok(P2PMessageID::Hello),
            0x01 => Ok(P2PMessageID::Disconnect),
            0x02 => Ok(P2PMessageID::Ping),
            0x03 => Ok(P2PMessageID::Pong),
            _ => Err(P2PStreamError::UnknownReservedMessageId(id)),
        }
    }
}

/// A message of the `p2p` protocol itself.
#[derive(Clone, Debug, PartialEq, Eq)]
pub enum P2PMessage {
    /// The first message of either side.
    Hello(HelloMessage),
    /// The session ends.
    Disconnect(DisconnectReason),
    /// Asks for a pong.
    Ping,
    /// Answers a ping.
    Pong,
}

/// What a message of the `p2p` protocol says.
pub ghost enum P2PModel {
    Hello(HelloModel),
    Disconnect(DisconnectReason),
    Ping,
    Pong,
}

impl P2PModel {
    /// The id of the message.
    pub open spec fn id(self) -> P2PMessageID {
        match self {
            P2PModel::Hello(_) => P2PMessageID::Hello,
            P2PModel::Disconnect(_) => P2PMessageID::Disconnect,
            P2PModel::Ping => P2PMessageID::Ping,
            P2PModel::Pong => P2PMessageID::Pong,
        }
    }

    /// The encoding: the id as an integer, then the payload. That of pings and pongs is the
    /// Snappy block of an empty list.
    pub open spec fn wire(self) -> Seq<u8> {
        match self {
            P2PModel::Hello(m) => seq![0x80u8] + payload_wire::<HelloMessage>(m),
            P2PModel::Disconnect(m) => seq![0x01u8] + m.wire(),
            P2PModel::Ping => seq![0x02u8, 0x01, 0x00, 0xc0],
            P2PModel::Pong => seq![0x03u8, 0x01, 0x00, 0xc0],
        }
    }
}

/// What the payload of a ping or pong reads as.
pub open spec fn read_empty_block(rest: Seq<u8>, m: P2PModel) -> Result<(P2PModel, int), RlpError> {
    if rest.len() < 3 {
        Err(RlpError::InputTooShort)
    } else if rest.take(3) != seq![0x01u8, 0x00, 0xc0] {
        Err(RlpError::Custom("expected snappy payload"))
    } else {
        Ok((m, 4))
    }
}

/// What reading a message at the front of `buf` gives: the message and the bytes it takes.
pub open spec fn read_p2p(buf: Seq<u8>) -> Result<(P2PModel, int), RlpError> {
    match read_p2p_byte(buf) {
        Err(e) => Err(e),
        Ok((b, _)) => match p2p_id_of(b) {
            None => Err(RlpError::Custom("unknown p2p message id")),
            Some(P2PMessageID::Hello) => match payload_read::<HelloMessage>(buf.skip(1)) {
                Err(e) => Err(e),
                Ok((m, n)) => Ok((P2PModel::Hello(m), n + 1)),
            },
            Some(P2PMessageID::Disconnect) => match read_reason(buf.skip(1)) {
                Err(e) => Err(e),
                Ok(m) => Ok((P2PModel::Disconnect(m), buf.len() as int)),
            },
            Some(P2PMessageID::Ping) => read_empty_block(buf.skip(1), P2PModel::Ping),
            Some(P2PMessageID::Pong) => read_empty_block(buf.skip(1), P2PModel::Pong),
        },
    }
}

/// What the id at the front of a message reads as.
#[verifier::opaque]
pub open spec fn read_p2p_byte(buf: Seq<u8>) -> Result<(u8, int), RlpError> {
    u8::read(buf)
}

/// An integer below 0x80 is one byte, and zero is the empty string.
pub proof fn lemma_small_integer(b: u8)
    requires
        b < 0x80,
    ensures
        u8::wire(b) == seq![if b == 0 { 0x80u8 } else { b }],
{
    reveal_with_fuel(be_bytes, 2);
    if b == 0 {
        assert(u8::wire(b) =~= seq![0x80u8]);
    } else {
        assert(be_bytes(b as nat) =~= seq![b]);
    }
}

impl P2PMessage {
    /// What the message says.
    pub open spec fn model(self) -> P2PModel {
        match self {
            P2PMessage::Hello(m) => P2PModel::Hello(m.deep_view()),
            P2PMessage::Disconnect(m) => P2PModel::Disconnect(m),
            P2PMessage::Ping => P2PModel::Ping,
            P2PMessage::Pong => P2PModel::Pong,
        }
    }

    /// The id of the message.
    pub fn message_id(&self) -> (r: P2PMessageID)
        ensures
            r == self.model().id(),
    {
        match self {
            P2PMessage::Hello(_) => P2PMessageID::Hello,
            P2PMessage::Disconnect(_) => P2PMessageID::Disconnect,
            P2PMessage::Ping => P2PMessageID::Ping,
            P2PMessage::Pong => P2PMessageID::Pong,
        }
    }

    /// Appends the encoding.
    pub fn encode(&self, out: &mut Vec<u8>)
        requires
            self.model().wire().len() <= usize::MAX,
        ensures
            final(out)@ == old(out)@ + self.model().wire(),
    {
        let ghost front = out@;
        let id: u8 = self.message_id().to_u8();
        proof {
            lemma_small_integer(id);
        }
        id.encode(out);
        match self {
            P2PMessage::Hello(m) => encode_payload(m, out),
            P2PMessage::Disconnect(m) => m.encode(out),
            P2PMessage::Ping | P2PMessage::Pong => {
                out.push(0x01);
                out.push(0x00);
                out.push(0xc0);
            },
        }
        proof {
            assert(out@ =~= front + self.model().wire());
        }
    }

    /// The length of the encoding.
    pub fn length(&self) -> (n: usize)
        requires
            self.model().wire().len() <= usize::MAX,
        ensures
            n == self.model().wire().len(),
    {
        let payload_length: usize = match self {
            P2PMessage::Hello(m) => payload_length(m),
            P2PMessage::Disconnect(m) => m.length(),
            P2PMessage::Ping | P2PMessage::Pong => 3,
        };
        payload_length + 1
    }

    /// Reads a message from the front of `buf` and moves the front behind it.
    pub fn decode(buf: &mut &[u8]) -> (r: Result<P2PMessage, RlpError>)
        ensures
            match read_p2p(old(buf)@) {
                Ok((m, n)) => r is Ok && r->Ok_0.model() == m && final(buf)@ == old(buf)@.skip(n),
                Err(e) => r == Err::<P2PMessage, RlpError>(e),
            },
    {
        let start = *buf;
        let message_id: u8 = match decode_p2p_byte(start) {
            Ok(b) => b,
            Err(e) => {
                return Err(e);
            },
        };
        let id = match P2PMessageID::try_from(message_id) {
            Ok(id) => id,
            Err(_) => {
                return Err(RlpError::Custom("unknown p2p message id"));
            },
        };
        advance(buf, 1);
        match id {
            P2PMessageID::Hello => match decode_payload::<HelloMessage>(buf) {
                Err(e) => Err(e),
                Ok(m) => {
                    proof {
                        let n = payload_read::<HelloMessage>(start@.skip(1))->Ok_0.1;
                        assert(start@.skip(1).skip(n) =~= start@.skip(n + 1));
                    }
                    Ok(P2PMessage::Hello(m))
                },
            },
            P2PMessageID::Disconnect => {
                let rest = *buf;
                match DisconnectReason::decode(rest) {
                    Err(e) => Err(e),
                    Ok(m) => {
                        advance(buf, rest.len());
                        proof {
                            assert(buf@ =~= start@.skip(start@.len() as int));
                        }
                        Ok(P2PMessage::Disconnect(m))
                    },
                }
            },
            P2PMessageID::Ping => match advance_snappy_ping_pong_payload(buf) {
                Err(e) => Err(e),
                Ok(_) => {
                    proof {
                        assert(buf@ =~= start@.skip(4));
                    }
                    Ok(P2PMessage::Ping)
                },
            },
            P2PMessageID::Pong => match advance_snappy_ping_pong_payload(buf) {
                Err(e) => Err(e),
                Ok(_) => {
                    proof {
                        assert(buf@ =~= start@.skip(4));
                    }
                    Ok(P2PMessage::Pong)
                },
            },
        }
    }
}

/// Reads the id at the front of a message.
fn decode_p2p_byte(buf: &[u8]) -> (r: Result<u8, RlpError>)
    ensures
        match read_p2p_byte(buf@) {
            Ok((b, n)) => r == Ok::<u8, RlpError>(b) && buf@.len() > 0,
            Err(e) => r == Err::<u8, RlpError>(e),
        },
{
    proof {
        reveal(read_p2p_byte);
        u8::read_within(buf@);
    }
    let mut front = buf;
    u8::decode(&mut front)
}

/// Moves the front of `buf` behind the Snappy block of an empty list.
fn advance_snappy_ping_pong_payload(buf: &mut &[u8]) -> (r: Result<(), RlpError>)
    ensures
        match read_empty_block(old(buf)@, P2PModel::Ping) {
            Ok(_) => r is Ok && final(buf)@ == old(buf)@.skip(3) && old(buf)@.len() >= 3,
            Err(e) => r == Err::<(), RlpError>(e),
        },
{
    let bytes = *buf;
    if bytes.len() < 3 {
        return Err(RlpError::InputTooShort);
    }
    if bytes[0] != 0x01 || bytes[1] != 0x00 || bytes[2] != 0xc0 {
        proof {
            assert(bytes@.take(3)[0] == bytes@[0]);
            assert(bytes@.take(3)[1] == bytes@[1]);
            assert(bytes@.take(3)[2] == bytes@[2]);
        }
        return Err(RlpError::Custom("expected snappy payload"));
    }
    proof {
        assert(bytes@.take(3) =~= seq![0x01u8, 0x00, 0xc0]);
    }
    advance(buf, 3);
    Ok(())
}

impl From<P2PMessage> for P2PMessageID {
    fn from(msg: P2PMessage) -> (r: P2PMessageID) {
        msg.message_id()
    }
}

impl vstd::std_specs::convert::FromSpecImpl<P2PMessage> for P2PMessageID {
    open spec fn obeys_from_spec() -> bool {
        true
    }

    open spec fn from_spec(msg: P2PMessage) -> P2PMessageID {
        msg.model().id()
    }
}

/// The id of a message is read back from its front.
proof fn lemma_p2p_byte(id: u8, buf: Seq<u8>)
    requires
        id < 0x80,
        buf.len() > 0,
        buf[0] == (if id == 0 { 0x80 } else { id }),
    ensures
        read_p2p_byte(buf) == Ok::<(u8, int), RlpError>((id, 1)),
{
    reveal(read_p2p_byte);
    lemma_small_integer(id);
    u8::round_trip(id, buf.skip(1));
    assert(u8::wire(id) + buf.skip(1) =~= buf);
}

/// Every message of the `p2p` protocol is read back from its own encoding, whole.
pub proof fn lemma_p2p_round_trip(m: P2PModel)
    requires
        m.wire().len() <= usize::MAX,
    ensures
        read_p2p(m.wire()) == Ok::<(P2PModel, int), RlpError>((m, m.wire().len() as int)),
{
    let buf = m.wire();
    lemma_p2p_byte(m.id().byte(), buf);
    match m {
        P2PModel::Hello(h) => {
            assert(buf.skip(1) =~= payload_wire::<HelloMessage>(h));
            assert(payload_sound::<HelloMessage>(h)) by {
                reveal(payload_sound);
            }
            lemma_payload_round_trip::<HelloMessage>(h);
        },
        P2PModel::Disconnect(reason) => {
            assert(buf.skip(1) =~= reason.wire());
            lemma_reason_round_trip(reason);
        },
        P2PModel::Ping | P2PModel::Pong => {
            assert(buf.skip(1).take(3) =~= seq![0x01u8, 0x00, 0xc0]);
        },
    }
}

/// What came first in a handshake.
#[derive(Clone, Copy, Debug)]
pub enum FirstMessage<'a> {
    /// Nothing in time.
    Timeout,
    /// The end of the stream.
    Closed,
    /// These bytes.
    Bytes(&'a [u8]),
}

/// How a handshake ends: what is told to the peer before, and what comes of it.
#[derive(Debug)]
pub struct HandshakeEnd {
    pub disconnect: Option<DisconnectReason>,
    pub result: Result<(SharedCapabilities, HelloMessage), P2PStreamError>,
}

/// The failure that a first message is by itself, or the hello in it.
pub open spec fn first_hello(first: FirstMessage) -> Result<HelloModel, P2PStreamError> {
    match first {
        FirstMessage::Timeout => Err(P2PStreamError::HandshakeError(P2PHandshakeError::Timeout)),
        FirstMessage::Closed => Err(P2PStreamError::HandshakeError(P2PHandshakeError::NoResponse)),
        FirstMessage::Bytes(bytes) => if bytes@.len() > MAX_PAYLOAD_SIZE {
            Err(
                P2PStreamError::MessageTooBig {
                    message_size: bytes@.len() as usize,
                    max_size: MAX_PAYLOAD_SIZE,
                },
            )
        } else {
            match read_p2p(bytes@) {
                Ok((P2PModel::Hello(hello), _)) => Ok(hello),
                Ok((P2PModel::Disconnect(reason), _)) => Err(
                    P2PStreamError::HandshakeError(P2PHandshakeError::Disconnected(reason)),
                ),
                Ok(_) => Err(
                    P2PStreamError::HandshakeError(P2PHandshakeError::NonHelloMessageInHandshake),
                ),
                Err(e) => Err(P2PStreamError::HandshakeError(P2PHandshakeError::DecodeError(e))),
            }
        },
    }
}

/// Whether the message ids of what is shared with a peer of our `p2p` version fit behind the
/// reserved ones.
pub open spec fn hello_fits(hello: HelloMessageWithProtocols, first: FirstMessage) -> bool {
    match first_hello(first) {
        Ok(theirs) => theirs.protocol_version == hello.protocol_version ==> ids_fit(
            protocol_models(hello.protocols@),
            theirs.capabilities,
        ),
        Err(_) => true,
    }
}

/// What is wrong with the hello of a peer, with what it is told for it.
pub open spec fn hello_fault(hello: HelloMessageWithProtocols, theirs: HelloModel) -> Option<
    (DisconnectReason, P2PStreamError),
> {
    if hello.protocol_version != theirs.protocol_version {
        Some(
            (
                DisconnectReason::IncompatibleP2PProtocolVersion,
                P2PStreamError::MismatchedProtocolVersion(
                    GotExpected {
                        got: theirs.protocol_version,
                        expected: hello.protocol_version,
                    },
                ),
            ),
        )
    } else if exists|cap: CapabilityModel| #[trigger]
        is_shared(protocol_models(hello.protocols@), theirs.capabilities, cap) {
        None
    } else {
        Some(
            (
                DisconnectReason::UselessPeer,
                P2PStreamError::HandshakeError(P2PHandshakeError::NoSharedCapabilities),
            ),
        )
    }
}

/// The hello in a first message, or the failure that it is by itself.
fn read_first(first: FirstMessage) -> (r: Result<HelloMessage, P2PStreamError>)
    ensures
        match first_hello(first) {
            Ok(theirs) => r is Ok && r->Ok_0.deep_view() == theirs,
            Err(e) => r is Err && r->Err_0 == e,
        },
{
    let bytes = match first {
        FirstMessage::Timeout => {
            return Err(P2PStreamError::HandshakeError(P2PHandshakeError::Timeout));
        },
        FirstMessage::Closed => {
            return Err(P2PStreamError::HandshakeError(P2PHandshakeError::NoResponse));
        },
        FirstMessage::Bytes(bytes) => bytes,
    };
    if bytes.len() > MAX_PAYLOAD_SIZE {
        return Err(
            P2PStreamError::MessageTooBig { message_size: bytes.len(), max_size: MAX_PAYLOAD_SIZE },
        );
    }
    let mut rest = bytes;
    match P2PMessage::decode(&mut rest) {
        Ok(P2PMessage::Hello(theirs)) => Ok(theirs),
        Ok(P2PMessage::Disconnect(reason)) => Err(
            P2PStreamError::HandshakeError(P2PHandshakeError::Disconnected(reason)),
        ),
        Ok(_) => Err(P2PStreamError::HandshakeError(P2PHandshakeError::NonHelloMessageInHandshake)),
        Err(e) => Err(P2PStreamError::HandshakeError(P2PHandshakeError::DecodeError(e))),
    }
}

/// A `p2p` stream before its handshake.
#[derive(Debug)]
pub struct UnauthedP2PStream<S> {
    pub inner: S,
}

impl<S> UnauthedP2PStream<S> {
    /// The stream over this transport.
    pub fn new(inner: S) -> (r: UnauthedP2PStream<S>)
        ensures
            r.inner == inner,
    {
        UnauthedP2PStream { inner }
    }

    /// The transport.
    pub fn inner(&self) -> (r: &S)
        ensures
            *r == self.inner,
    {
        &self.inner
    }

    /// The first message that we send: our hello, uncompressed.
    pub fn hello_bytes(hello: &HelloMessageWithProtocols) -> (r: Vec<u8>)
        requires
            P2PModel::Hello(hello.model()).wire().len() <= usize::MAX,
        ensures
            r@ == P2PModel::Hello(hello.model()).wire(),
    {
        let mut out: Vec<u8> = Vec::new();
        P2PMessage::Hello(hello.message()).encode(&mut out);
        proof {
            assert(out@ =~= P2PModel::Hello(hello.model()).wire());
        }
        out
    }

    /// A disconnect message as it is sent during the handshake: uncompressed.
    pub fn disconnect_bytes(reason: DisconnectReason) -> (r: Vec<u8>)
        ensures
            r@ == P2PModel::Disconnect(reason).wire(),
    {
        let mut out: Vec<u8> = Vec::new();
        P2PMessage::Disconnect(reason).encode(&mut out);
        proof {
            assert(out@ =~= P2PModel::Disconnect(reason).wire());
        }
        out
    }

    /// Whether the message ids of what is shared with the peer fit behind the reserved ones, where
    /// the handshake comes to that.
    pub fn fits(hello: &HelloMessageWithProtocols, first: FirstMessage) -> (r: bool)
        ensures
            r == hello_fits(*hello, first),
    {
        match read_first(first) {
            Ok(theirs) => {
                proof {
                    assert(theirs.deep_view().capabilities == theirs.capabilities.deep_view());
                }
                hello.protocol_version.to_u8() != theirs.protocol_version.to_u8()
                    || SharedCapabilities::fit(&hello.protocols, &theirs.capabilities)
            },
            Err(_) => true,
        }
    }

    /// How the handshake ends when this came first from the peer. The first message has to be a
    /// hello of the same `p2p` version with a capability that we have too. A peer that fails one
    /// of the two is told so.
    pub fn handshake(hello: &HelloMessageWithProtocols, first: FirstMessage) -> (r: HandshakeEnd)
        requires
            hello_fits(*hello, first),
        ensures
            match first_hello(first) {
                Err(e) => r.disconnect is None && r.result is Err && r.result->Err_0 == e,
                Ok(theirs) => {
                    let ours = protocol_models(hello.protocols@);
                    if hello.protocol_version != theirs.protocol_version {
                        &&& r.disconnect == Some(DisconnectReason::IncompatibleP2PProtocolVersion)
                        &&& r.result is Err
                        &&& r.result->Err_0 == P2PStreamError::MismatchedProtocolVersion(
                            GotExpected {
                                got: theirs.protocol_version,
                                expected: hello.protocol_version,
                            },
                        )
                    } else if exists|cap: CapabilityModel| #[trigger]
                        is_shared(ours, theirs.capabilities, cap) {
                        &&& r.disconnect is None
                        &&& r.result is Ok
                        &&& r.result->Ok_0.1.deep_view() == theirs
                        &&& exists|list: Seq<(CapabilityModel, u8)>| #[trigger]
                            picks(ours, theirs.capabilities, list) && r.result->Ok_0.0.model()
                                == laid_out(list)
                    } else {
                        &&& r.disconnect == Some(DisconnectReason::UselessPeer)
                        &&& r.result is Err
                        &&& r.result->Err_0 == P2PStreamError::HandshakeError(
                            P2PHandshakeError::NoSharedCapabilities,
                        )
                    }
                },
            },
            first_hello(first) matches Ok(theirs) ==> match hello_fault(*hello, theirs) {
                Some((reason, e)) => r.disconnect == Some(reason) && r.result is Err
                    && r.result->Err_0 == e,
                None => r.disconnect is None && r.result is Ok,
            },
    {
        let their_hello = match read_first(first) {
            Ok(theirs) => theirs,
            Err(e) => {
                return HandshakeEnd { disconnect: None, result: Err(e) };
            },
        };
        if hello.protocol_version.to_u8() != their_hello.protocol_version.to_u8() {
            return HandshakeEnd {
                disconnect: Some(DisconnectReason::IncompatibleP2PProtocolVersion),
                result: Err(
                    P2PStreamError::MismatchedProtocolVersion(
                        GotExpected {
                            got: their_hello.protocol_version,
                            expected: hello.protocol_version,
                        },
                    ),
                ),
            };
        }
        let ghost theirs = their_hello.deep_view();
        proof {
            assert(first_hello(first) == Ok::<HelloModel, P2PStreamError>(theirs));
            assert(theirs.capabilities == their_hello.capabilities.deep_view());
            assert(hello.protocol_version == theirs.protocol_version);
        }
        match SharedCapabilities::try_new(&hello.protocols, &their_hello.capabilities) {
            Err(e) => HandshakeEnd {
                disconnect: Some(DisconnectReason::UselessPeer),
                result: Err(e),
            },
            Ok(shared) => HandshakeEnd { disconnect: None, result: Ok((shared, their_hello)) },
        }
    }
}

/// Ends a session by telling the peer.
pub trait DisconnectP2P {
    /// Starts to disconnect.
    fn start_disconnect(&mut self, reason: DisconnectReason) -> Result<(), P2PStreamError>;

    /// Whether the session is about to end.
    fn is_disconnecting(&self) -> bool;
}

/// What bytes from the transport are, after the handshake.
pub ghost enum Incoming {
    /// Nothing at all.
    Empty,
    /// The end of the session.
    Disconnect(DisconnectReason),
    /// A disconnect message that gives no reason.
    BadDisconnect(RlpError),
    /// No Snappy block behind the id.
    Corrupt,
    /// A payload of this size, larger than any that is accepted.
    TooBig(usize),
    Hello,
    Ping,
    Pong,
    /// An id that is reserved and not used.
    Unknown(u8),
    /// A message of another protocol, ids counted from zero.
    Message(Seq<u8>),
}

/// What bytes from the transport are, after the handshake. The reason of a disconnect message may
/// stand behind its id compressed or not. Every other payload is a Snappy block.
pub open spec fn incoming(bytes: Seq<u8>) -> Incoming {
    if bytes.len() == 0 {
        Incoming::Empty
    } else {
        let id = bytes[0];
        let payload = bytes.skip(1);
        if id == 0x01 && read_reason(payload) is Ok {
            Incoming::Disconnect(read_reason(payload)->Ok_0)
        } else {
            match (snappy_length(payload), unsnappy(payload)) {
                (None, _) => Incoming::Corrupt,
                (Some(n), data) => if n > MAX_PAYLOAD_SIZE {
                    Incoming::TooBig(n)
                } else {
                    match data {
                        None => Incoming::Corrupt,
                        Some(data) => uncompressed(id, data),
                    }
                },
            }
        }
    }
}

/// What a message of this id with this payload is.
pub open spec fn uncompressed(id: u8, data: Seq<u8>) -> Incoming {
    if id == 0x00 {
        Incoming::Hello
    } else if id == 0x01 {
        match read_reason(data) {
            Ok(reason) => Incoming::Disconnect(reason),
            Err(e) => Incoming::BadDisconnect(e),
        }
    } else if id == 0x02 {
        Incoming::Ping
    } else if id == 0x03 {
        Incoming::Pong
    } else if id <= MAX_RESERVED_MESSAGE_ID {
        Incoming::Unknown(id)
    } else {
        Incoming::Message(seq![(id - 0x10) as u8] + data)
    }
}

/// The failure that something from the transport is, where that is told by what it says. Of a block
/// that is no Snappy block it is not.
pub open spec fn failure_of(came: Incoming, state: PingState) -> Option<P2PStreamError> {
    match came {
        Incoming::Empty => Some(P2PStreamError::EmptyProtocolMessage),
        Incoming::Disconnect(reason) => Some(P2PStreamError::Disconnected(reason)),
        Incoming::BadDisconnect(e) => Some(P2PStreamError::Rlp(e)),
        Incoming::TooBig(n) => Some(
            P2PStreamError::MessageTooBig { message_size: n, max_size: MAX_PAYLOAD_SIZE },
        ),
        Incoming::Hello => Some(
            P2PStreamError::HandshakeError(P2PHandshakeError::HelloNotInHandshake),
        ),
        Incoming::Pong => if state == PingState::Ready {
            Some(P2PStreamError::PingerError(PingerError::UnexpectedPong))
        } else {
            None
        },
        Incoming::Unknown(id) => Some(P2PStreamError::UnknownReservedMessageId(id)),
        _ => None,
    }
}

/// Why a message of some length is not taken for sending while others wait.
pub open spec fn send_fault(length: nat, waiting: nat, capacity: nat) -> Option<P2PStreamError> {
    if length > MAX_PAYLOAD_SIZE {
        Some(
            P2PStreamError::MessageTooBig {
                message_size: length as usize,
                max_size: MAX_PAYLOAD_SIZE,
            },
        )
    } else if length == 0 {
        Some(P2PStreamError::EmptyProtocolMessage)
    } else if waiting >= capacity {
        Some(P2PStreamError::SendBufferFull)
    } else {
        None
    }
}

/// What comes of bytes from the transport.
#[derive(Debug)]
pub enum Received {
    /// They were dealt with. The next ones are to be read.
    Nothing,
    /// A message of another protocol, ids counted from zero.
    Message(Vec<u8>),
    /// A failure, or a reason for which the peer ends the session.
    Failed(P2PStreamError),
    /// Nothing is read any more: we have begun to disconnect.
    Ended,
}

/// What came of asking the transport to take more, and of sending it what waits.
#[derive(Clone, Copy, Debug, PartialEq, Eq, Structural)]
pub enum TransportState<E> {
    /// It takes nothing now.
    Busy,
    /// It has failed.
    Failed(E),
    /// It takes more, but not all of what waits has gone out.
    Flushing,
    /// All of what waits has gone out, or that has failed.
    Flushed(Option<E>),
}

/// How far the transport, or the stream over it, has come with something.
#[derive(Clone, Copy, Debug, PartialEq, Eq, Structural)]
pub enum Progress<E> {
    /// It has to wait.
    Pending,
    /// It is done.
    Done,
    /// It has failed.
    Failed(E),
}

/// What is next in sending what waits.
#[derive(Debug)]
pub enum FlushStep<E> {
    /// This message goes to the transport, and the next step is asked for.
    Send(Vec<u8>),
    /// The transport is flushed. So far sending has come to this.
    Flush(Progress<E>),
}

/// What sending all that waits comes to, told what handing it to the transport came to and how far
/// the transport is with flushing it. The transport counts first.
pub fn flushed<E>(sent: Progress<E>, transport: Progress<E>) -> (r: Progress<E>)
    ensures
        r == (match transport {
            Progress::Done => sent,
            _ => transport,
        }),
{
    match transport {
        Progress::Done => sent,
        _ => transport,
    }
}

/// A `p2p` stream after its handshake.
///
/// Message ids 0x00 to 0x0f are those of the `p2p` protocol itself. Those of the shared protocols
/// follow, and are counted from zero above this stream. Payloads are Snappy blocks.
#[derive(Debug)]
pub struct P2PStream<S> {
    inner: S,
    pinger: Pinger,
    shared_capabilities: SharedCapabilities,
    outgoing_messages: VecDeque<Vec<u8>>,
    outgoing_message_buffer_capacity: usize,
    disconnecting: bool,
}

/// The contents of messages.
spec fn contents(messages: Seq<Vec<u8>>) -> Seq<Seq<u8>> {
    messages.map_values(|m: Vec<u8>| m@)
}

impl<S> P2PStream<S> {
    /// The transport.
    pub closed spec fn transport(self) -> S {
        self.inner
    }

    /// Where the exchange of pings stands.
    pub closed spec fn ping_state(self) -> PingState {
        self.pinger.state
    }

    /// The capabilities that both sides have.
    pub closed spec fn capabilities(self) -> SharedCapabilities {
        self.shared_capabilities
    }

    /// The messages that wait to be sent, the first to go first.
    pub closed spec fn queue(self) -> Seq<Seq<u8>> {
        contents(self.outgoing_messages@)
    }

    /// How many messages may wait before no more are taken.
    pub closed spec fn capacity(self) -> usize {
        self.outgoing_message_buffer_capacity
    }

    /// Whether the session is about to end.
    pub closed spec fn ending(self) -> bool {
        self.disconnecting
    }

    /// Whether nothing but the queue may differ between two states.
    pub open spec fn same_but_queue(self, other: P2PStream<S>) -> bool {
        &&& self.transport() == other.transport()
        &&& self.ping_state() == other.ping_state()
        &&& self.capabilities() == other.capabilities()
        &&& self.capacity() == other.capacity()
        &&& self.ending() == other.ending()
    }

    /// Whether nothing differs between two states.
    pub open spec fn unchanged(self, other: P2PStream<S>) -> bool {
        self.same_but_queue(other) && self.queue() == other.queue()
    }

    /// The stream over this transport, whose handshake is done.
    pub fn new(inner: S, shared_capabilities: SharedCapabilities) -> (r: P2PStream<S>)
        ensures
            r.transport() == inner,
            r.ping_state() == PingState::Ready,
            r.capabilities() == shared_capabilities,
            r.queue() == Seq::<Seq<u8>>::empty(),
            r.capacity() == MAX_P2P_CAPACITY,
            !r.ending(),
    {
        let r = P2PStream {
            inner,
            pinger: Pinger::new(),
            shared_capabilities,
            outgoing_messages: VecDeque::new(),
            outgoing_message_buffer_capacity: MAX_P2P_CAPACITY,
            disconnecting: false,
        };
        proof {
            assert(r.queue() =~= Seq::<Seq<u8>>::empty());
        }
        r
    }

    /// The transport.
    pub fn inner(&self) -> (r: &S)
        ensures
            *r == self.transport(),
    {
        &self.inner
    }

    /// Sets how many messages may wait before no more are taken. None at all would let nothing
    /// through.
    pub fn set_outgoing_message_buffer_capacity(&mut self, capacity: usize)
        requires
            capacity > 0,
        ensures
            final(self).capacity() == capacity,
            final(self).transport() == old(self).transport(),
            final(self).ping_state() == old(self).ping_state(),
            final(self).capabilities() == old(self).capabilities(),
            final(self).queue() == old(self).queue(),
            final(self).ending() == old(self).ending(),
    {
        self.outgoing_message_buffer_capacity = capacity;
    }

    /// The capabilities that both sides have.
    pub fn shared_capabilities(&self) -> (r: &SharedCapabilities)
        ensures
            *r == self.capabilities(),
    {
        &self.shared_capabilities
    }

    /// Whether one more message is taken.
    pub fn has_outgoing_capacity(&self) -> (r: bool)
        ensures
            r == (self.queue().len() < self.capacity()),
    {
        self.outgoing_messages.len() < self.outgoing_message_buffer_capacity
    }

    /// Queues a message.
    fn enqueue(&mut self, message: Vec<u8>)
        ensures
            final(self).same_but_queue(*old(self)),
            final(self).queue() == old(self).queue().push(message@),
    {
        let ghost before = self.queue();
        self.outgoing_messages.push_back(message);
        proof {
            assert(self.queue() =~= before.push(message@));
        }
    }

    /// Queues a pong.
    fn send_pong(&mut self)
        ensures
            final(self).same_but_queue(*old(self)),
            final(self).queue() == old(self).queue().push(P2PModel::Pong.wire()),
    {
        let mut out: Vec<u8> = Vec::new();
        P2PMessage::Pong.encode(&mut out);
        proof {
            assert(out@ =~= P2PModel::Pong.wire());
        }
        self.enqueue(out);
    }

    /// Queues a ping.
    pub fn send_ping(&mut self)
        ensures
            final(self).same_but_queue(*old(self)),
            final(self).queue() == old(self).queue().push(P2PModel::Ping.wire()),
    {
        let mut out: Vec<u8> = Vec::new();
        P2PMessage::Ping.encode(&mut out);
        proof {
            assert(out@ =~= P2PModel::Ping.wire());
        }
        self.enqueue(out);
    }

    /// Takes bytes from the transport. A ping is answered by a pong in the queue. What comes out
    /// starts with a message id counted from zero. Once we have begun to disconnect, the bytes are
    /// not looked at.
    pub fn receive(&mut self, bytes: &[u8]) -> (r: Received)
        ensures
            old(self).ending() ==> r == Received::Ended && final(self).unchanged(*old(self)),
            !old(self).ending() ==> match incoming(bytes@) {
                Incoming::Empty => r == Received::Failed(P2PStreamError::EmptyProtocolMessage)
                    && final(self).unchanged(*old(self)),
                Incoming::Disconnect(reason) => r == Received::Failed(
                    P2PStreamError::Disconnected(reason),
                ) && final(self).unchanged(*old(self)),
                Incoming::BadDisconnect(e) => r == Received::Failed(P2PStreamError::Rlp(e))
                    && final(self).unchanged(*old(self)),
                Incoming::Corrupt => r is Failed && r->Failed_0 is Snap && final(self).unchanged(
                    *old(self),
                ),
                Incoming::TooBig(n) => r == Received::Failed(
                    P2PStreamError::MessageTooBig { message_size: n, max_size: MAX_PAYLOAD_SIZE },
                ) && final(self).unchanged(*old(self)),
                Incoming::Hello => r == Received::Failed(
                    P2PStreamError::HandshakeError(P2PHandshakeError::HelloNotInHandshake),
                ) && final(self).unchanged(*old(self)),
                Incoming::Ping => r == Received::Nothing && final(self).same_but_queue(*old(self))
                    && final(self).queue() == old(self).queue().push(P2PModel::Pong.wire()),
                Incoming::Pong => {
                    &&& r == (if old(self).ping_state() == PingState::Ready {
                        Received::Failed(P2PStreamError::PingerError(PingerError::UnexpectedPong))
                    } else {
                        Received::Nothing
                    })
                    &&& final(self).ping_state() == PingState::Ready
                    &&& final(self).transport() == old(self).transport()
                    &&& final(self).capabilities() == old(self).capabilities()
                    &&& final(self).queue() == old(self).queue()
                    &&& final(self).capacity() == old(self).capacity()
                    &&& final(self).ending() == old(self).ending()
                },
                Incoming::Unknown(id) => r == Received::Failed(
                    P2PStreamError::UnknownReservedMessageId(id),
                ) && final(self).unchanged(*old(self)),
                Incoming::Message(message) => {
                    &&& r is Message
                    &&& r->Message_0@ == message
                    &&& final(self).unchanged(*old(self))
                },
            },
            !old(self).ending() ==> (failure_of(incoming(bytes@), old(self).ping_state()) matches Some(
                e,
            ) ==> r == Received::Failed(e)),
    {
        if self.disconnecting {
            return Received::Ended;
        }
        if bytes.len() == 0 {
            return Received::Failed(P2PStreamError::EmptyProtocolMessage);
        }
        let id: u8 = bytes[0];
        let payload = slice_subrange(bytes, 1, bytes.len());
        proof {
            assert(payload@ =~= bytes@.skip(1));
        }
        if id == 0x01 {
            if let Ok(reason) = DisconnectReason::decode(payload) {
                return Received::Failed(P2PStreamError::Disconnected(reason));
            }
        }
        let decompressed_len: usize = match decompress_len(payload) {
            Ok(n) => n,
            Err(e) => {
                return Received::Failed(P2PStreamError::Snap(e));
            },
        };
        if decompressed_len > MAX_PAYLOAD_SIZE {
            return Received::Failed(
                P2PStreamError::MessageTooBig {
                    message_size: decompressed_len,
                    max_size: MAX_PAYLOAD_SIZE,
                },
            );
        }
        let data = match decompress(payload) {
            Ok(data) => data,
            Err(e) => {
                return Received::Failed(P2PStreamError::Snap(e));
            },
        };
        if id == 0x02 {
            self.send_pong();
            Received::Nothing
        } else if id == 0x00 {
            Received::Failed(P2PStreamError::HandshakeError(P2PHandshakeError::HelloNotInHandshake))
        } else if id == 0x03 {
            match self.pinger.on_pong() {
                Ok(_) => Received::Nothing,
                Err(e) => Received::Failed(P2PStreamError::PingerError(e)),
            }
        } else if id == 0x01 {
            match DisconnectReason::decode(data.as_slice()) {
                Ok(reason) => Received::Failed(P2PStreamError::Disconnected(reason)),
                Err(e) => Received::Failed(P2PStreamError::Rlp(e)),
            }
        } else if id > MAX_P2P_MESSAGE_ID && id <= MAX_RESERVED_MESSAGE_ID {
            Received::Failed(P2PStreamError::UnknownReservedMessageId(id))
        } else {
            let mut message: Vec<u8> = Vec::new();
            message.push(id - MAX_RESERVED_MESSAGE_ID - 1);
            let mut data = data;
            message.append(&mut data);
            Received::Message(message)
        }
    }

    /// Goes on with the exchange of pings, told whether the timer that it waits for has fired. A
    /// ping that is due is queued. A peer that has timed out is disconnected, which is told by
    /// `true`.
    pub fn poll_pinger(&mut self, has_fired: bool) -> (r: Result<bool, P2PStreamError>)
        ensures
            r is Ok,
            final(self).transport() == old(self).transport(),
            final(self).capabilities() == old(self).capabilities(),
            final(self).capacity() == old(self).capacity(),
            !has_fired || old(self).ping_state() == PingState::TimedOut ==> r == Ok::<
                bool,
                P2PStreamError,
            >(false) && final(self).unchanged(*old(self)),
            has_fired && old(self).ping_state() == PingState::Ready ==> {
                &&& r == Ok::<bool, P2PStreamError>(false)
                &&& final(self).ping_state() == PingState::WaitingForPong
                &&& final(self).queue() == old(self).queue().push(P2PModel::Ping.wire())
                &&& final(self).ending() == old(self).ending()
            },
            has_fired && old(self).ping_state() == PingState::WaitingForPong ==> {
                &&& r == Ok::<bool, P2PStreamError>(true)
                &&& final(self).ping_state() == PingState::TimedOut
                &&& final(self).ending()
                &&& final(self).queue() == seq![
                    seq![0x01u8] + snappy(DisconnectReason::PingTimeout.wire()),
                ]
                &&& incoming(final(self).queue()[0]) == Incoming::Disconnect(
                    DisconnectReason::PingTimeout,
                )
            },
    {
        match self.pinger.poll_ping(has_fired) {
            None => Ok(false),
            Some(PingerEvent::Ping) => {
                self.send_ping();
                Ok(false)
            },
            Some(PingerEvent::Timeout) => match self.start_disconnect(
                DisconnectReason::PingTimeout,
            ) {
                Ok(_) => Ok(true),
                Err(e) => Err(e),
            },
        }
    }

    /// Whether the stream is ready for a message, once the exchange of pings has gone on: `None`
    /// as long as it is not. It is where all has gone out, and where the queue has room.
    pub fn poll_ready<E>(&self, transport: TransportState<E>) -> (r: Option<Result<(), E>>)
        ensures
            match transport {
                TransportState::Failed(e) => r == Some(Err::<(), E>(e)),
                TransportState::Flushed(Some(e)) => r == Some(Err::<(), E>(e)),
                TransportState::Flushed(None) => r is Some && r->0 is Ok,
                _ => r is Some <==> self.queue().len() < self.capacity(),
            },
            r is Some && (transport is Busy || transport is Flushing) ==> r->0 is Ok,
    {
        match transport {
            TransportState::Failed(e) => Some(Err(e)),
            TransportState::Flushed(Some(e)) => Some(Err(e)),
            TransportState::Flushed(None) => Some(Ok(())),
            TransportState::Busy | TransportState::Flushing => if self.has_outgoing_capacity() {
                Some(Ok(()))
            } else {
                None
            },
        }
    }

    /// Which timer the exchange of pings waits for.
    pub fn waits_for(&self) -> (r: PingTimer)
        ensures
            r == (match self.ping_state() {
                PingState::Ready => PingTimer::Interval,
                PingState::WaitingForPong => PingTimer::Timeout,
                PingState::TimedOut => PingTimer::Never,
            }),
            r == timer_of(self.ping_state()),
    {
        self.pinger.waits_for()
    }

    /// Takes a message of a shared protocol for sending. Its id, counted from zero, moves behind
    /// the reserved ones. The peer reads from what is queued the message that was given.
    pub fn start_send(&mut self, item: &[u8]) -> (r: Result<(), P2PStreamError>)
        requires
            0 < item@.len() <= MAX_PAYLOAD_SIZE && old(self).queue().len() < old(self).capacity()
                ==> item@[0] <= 0xef,
        ensures
            final(self).same_but_queue(*old(self)),
            r == (if item@.len() > MAX_PAYLOAD_SIZE {
                Err(
                    P2PStreamError::MessageTooBig {
                        message_size: item@.len() as usize,
                        max_size: MAX_PAYLOAD_SIZE,
                    },
                )
            } else if item@.len() == 0 {
                Err(P2PStreamError::EmptyProtocolMessage)
            } else if old(self).queue().len() >= old(self).capacity() {
                Err(P2PStreamError::SendBufferFull)
            } else {
                Ok(())
            }),
            r == (match send_fault(item@.len(), old(self).queue().len(), old(self).capacity() as nat) {
                Some(e) => Err(e),
                None => Ok(()),
            }),
            r is Err ==> final(self).queue() == old(self).queue(),
            r is Ok ==> {
                let message = seq![(item@[0] + 0x10) as u8] + snappy(item@.skip(1));
                &&& final(self).queue() == old(self).queue().push(message)
                &&& incoming(message) == Incoming::Message(item@)
            },
    {
        if item.len() > MAX_PAYLOAD_SIZE {
            return Err(
                P2PStreamError::MessageTooBig {
                    message_size: item.len(),
                    max_size: MAX_PAYLOAD_SIZE,
                },
            );
        }
        if item.len() == 0 {
            return Err(P2PStreamError::EmptyProtocolMessage);
        }
        if !self.has_outgoing_capacity() {
            return Err(P2PStreamError::SendBufferFull);
        }
        let payload = slice_subrange(item, 1, item.len());
        proof {
            assert(payload@ =~= item@.skip(1));
        }
        let mut block = match compress(payload) {
            Ok(block) => block,
            Err(e) => {
                return Err(P2PStreamError::Snap(e));
            },
        };
        let mut message: Vec<u8> = Vec::new();
        message.push(item[0] + MAX_RESERVED_MESSAGE_ID + 1);
        message.append(&mut block);
        proof {
            assert(message@ =~= seq![(item@[0] + 0x10) as u8] + snappy(item@.skip(1)));
            assert(message@.skip(1) =~= snappy(item@.skip(1)));
            assert(seq![item@[0]] + item@.skip(1) =~= item@);
        }
        self.enqueue(message);
        Ok(())
    }

    /// Takes the message that is to go first out of the queue.
    pub fn next_outgoing(&mut self) -> (r: Option<Vec<u8>>)
        ensures
            final(self).same_but_queue(*old(self)),
            match r {
                Some(message) => old(self).queue().len() > 0 && message@ == old(self).queue()[0]
                    && final(self).queue() == old(self).queue().skip(1),
                None => old(self).queue().len() == 0 && final(self).queue() == old(self).queue(),
            },
    {
        let ghost before = self.queue();
        let r = self.outgoing_messages.pop_front();
        proof {
            if r is Some {
                assert(self.queue() =~= before.skip(1));
            } else {
                assert(self.queue() =~= before);
            }
        }
        r
    }

    /// What is next in sending what waits, told whether the transport takes another message. The
    /// messages go out in the order in which they were queued.
    pub fn poll_flush<E>(&mut self, transport: Progress<E>) -> (r: FlushStep<E>)
        ensures
            final(self).same_but_queue(*old(self)),
            transport is Done && old(self).queue().len() > 0 ==> r is Send && r->Send_0@ == old(
                self,
            ).queue()[0] && final(self).queue() == old(self).queue().skip(1),
            !(transport is Done && old(self).queue().len() > 0) ==> r == FlushStep::Flush(transport)
                && final(self).queue() == old(self).queue(),
    {
        match transport {
            Progress::Done => match self.next_outgoing() {
                Some(message) => FlushStep::Send(message),
                None => FlushStep::Flush(Progress::Done),
            },
            _ => FlushStep::Flush(transport),
        }
    }
}

impl<S> DisconnectP2P for P2PStream<S> {
    /// Drops what waits to be sent, and queues the reason for the peer, compressed. Nothing is
    /// read any more.
    fn start_disconnect(&mut self, reason: DisconnectReason) -> (r: Result<(), P2PStreamError>)
        ensures
            r is Ok,
            final(self).ending(),
            final(self).transport() == old(self).transport(),
            final(self).ping_state() == old(self).ping_state(),
            final(self).capabilities() == old(self).capabilities(),
            final(self).capacity() == old(self).capacity(),
            final(self).queue() == seq![seq![0x01u8] + snappy(reason.wire())],
            incoming(seq![0x01u8] + snappy(reason.wire())) == Incoming::Disconnect(reason),
    {
        self.outgoing_messages.clear();
        let mut buf: Vec<u8> = Vec::new();
        P2PMessage::Disconnect(reason).encode(&mut buf);
        let payload = slice_subrange(buf.as_slice(), 1, buf.len());
        proof {
            assert(payload@ =~= reason.wire());
        }
        let mut block = match compress(payload) {
            Ok(block) => block,
            Err(e) => {
                return Err(P2PStreamError::Snap(e));
            },
        };
        let mut message: Vec<u8> = Vec::new();
        message.push(buf[0]);
        message.append(&mut block);
        proof {
            assert(message@ =~= seq![0x01u8] + snappy(reason.wire()));
            assert(message@.skip(1) =~= snappy(reason.wire()));
            lemma_reason_round_trip(reason);
        }
        let ghost last = message@;
        self.outgoing_messages.push_back(message);
        self.disconnecting = true;
        proof {
            assert(self.queue() =~= seq![last]);
        }
        Ok(())
    }

    fn is_disconnecting(&self) -> (r: bool)
        ensures
            r == self.ending(),
    {
        self.disconnecting
    }
}

/// A peer that sends its hello first is known by that hello; one that sends a reason to disconnect
/// has disconnected for that reason; and any other message of the protocol has no place there.
pub proof fn lemma_first_message_is_answered(m: P2PModel, bytes: &[u8])
    requires
        bytes@ == m.wire(),
        bytes@.len() <= 16 * 1024 * 1024,
    ensures
        m matches P2PModel::Hello(hello) ==> first_hello(FirstMessage::Bytes(bytes)) == Ok::<
            HelloModel,
            P2PStreamError,
        >(hello),
        m matches P2PModel::Disconnect(reason) ==> first_hello(FirstMessage::Bytes(bytes)) == Err::<
            HelloModel,
            P2PStreamError,
        >(P2PStreamError::HandshakeError(P2PHandshakeError::Disconnected(reason))),
        m is Ping || m is Pong ==> first_hello(FirstMessage::Bytes(bytes)) == Err::<
            HelloModel,
            P2PStreamError,
        >(P2PStreamError::HandshakeError(P2PHandshakeError::NonHelloMessageInHandshake)),
{
    lemma_p2p_round_trip(m);
}

/// A first message is taken only up to 16 MiB, and a hello comes only from bytes that are one.
pub proof fn lemma_first_message_is_a_hello(first: FirstMessage)
    ensures
        first_hello(first) matches Ok(hello) ==> {
            &&& first matches FirstMessage::Bytes(bytes)
            &&& bytes@.len() <= 16 * 1024 * 1024
            &&& read_p2p(bytes@) matches Ok((P2PModel::Hello(read), _)) && read == hello
        },
        first matches FirstMessage::Bytes(bytes) ==> bytes@.len() > 16 * 1024 * 1024 ==> first_hello(
            first,
        ) == Err::<HelloModel, P2PStreamError>(
            P2PStreamError::MessageTooBig {
                message_size: bytes@.len() as usize,
                max_size: 0x100_0000,
            },
        ),
{
}

/// A reason to disconnect is understood compressed and not.
pub proof fn lemma_disconnect_is_understood(reason: DisconnectReason, block: Seq<u8>)
    requires
        snappy_length(block) == Some(reason.wire().len() as usize),
        unsnappy(block) == Some(reason.wire()),
    ensures
        incoming(seq![0x01u8] + reason.wire()) == Incoming::Disconnect(reason),
        !(read_reason(block) is Ok) ==> incoming(seq![0x01u8] + block) == Incoming::Disconnect(
            reason,
        ),
{
    lemma_reason_round_trip(reason);
    assert((seq![0x01u8] + reason.wire()).skip(1) =~= reason.wire());
    assert((seq![0x01u8] + block).skip(1) =~= block);
}

/// What comes in is told by its id: the reserved ones are messages of `p2p` or unknown, and every
/// other is passed on with its id counted from zero and its payload as it was before it was
/// compressed.
pub proof fn lemma_incoming_is_told_by_its_id(bytes: Seq<u8>, data: Seq<u8>)
    requires
        bytes.len() > 0,
        unsnappy(bytes.skip(1)) == Some(data),
        snappy_length(bytes.skip(1)) == Some(data.len() as usize),
        data.len() <= 16 * 1024 * 1024,
    ensures
        bytes[0] == 0x00 <==> incoming(bytes) == Incoming::Hello,
        bytes[0] == 0x01 <==> incoming(bytes) is Disconnect || incoming(bytes) is BadDisconnect,
        bytes[0] == 0x02 <==> incoming(bytes) == Incoming::Ping,
        bytes[0] == 0x03 <==> incoming(bytes) == Incoming::Pong,
        0x04 <= bytes[0] <= 0x0f <==> incoming(bytes) == Incoming::Unknown(bytes[0]),
        bytes[0] >= 0x10 <==> incoming(bytes) is Message,
        bytes[0] >= 0x10 ==> {
            let passed = incoming(bytes)->Message_0;
            &&& passed.len() == data.len() + 1
            &&& passed[0] + 0x10 == bytes[0]
            &&& passed.skip(1) == data
        },
{
    if bytes[0] >= 0x10 {
        assert((seq![(bytes[0] - 0x10) as u8] + data).skip(1) =~= data);
    }
}

/// A message whose payload is longer than 16 MiB before it is compressed is refused for that, and
/// one that is no compressed block is refused too. Only a reason to disconnect may stand there as it
/// is.
pub proof fn lemma_oversized_payloads_are_refused(bytes: Seq<u8>)
    requires
        bytes.len() > 0,
        !(bytes[0] == 0x01 && read_reason(bytes.skip(1)) is Ok),
    ensures
        snappy_length(bytes.skip(1)) matches Some(n) ==> n > 16 * 1024 * 1024 ==> incoming(bytes)
            == Incoming::TooBig(n),
        snappy_length(bytes.skip(1)) is None ==> incoming(bytes) == Incoming::Corrupt,
        snappy_length(bytes.skip(1)) matches Some(n) ==> n <= 16 * 1024 * 1024 && unsnappy(
            bytes.skip(1),
        ) is None ==> incoming(bytes) == Incoming::Corrupt,
{
}

/// Each id has a byte of its own, by which it is found, and no other byte stands for one.
pub proof fn lemma_p2p_ids(id: P2PMessageID, b: u8)
    ensures
        p2p_id_of(id.byte()) == Some(id),
        p2p_id_of(b) matches Some(found) ==> found.byte() == b,
        p2p_id_of(b) is Some <==> b <= 3,
        P2PModel::Ping.id().byte() == 0x02,
        P2PModel::Pong.id().byte() == 0x03,
{
}

/// A peer is accepted exactly where its hello has our version of `p2p` and names a capability that we
/// have too. One of another version is told so whatever it names, and one with nothing in common is
/// told that it is of no use.
pub proof fn lemma_hello_is_accepted_when(
    hello: HelloMessageWithProtocols,
    theirs: HelloModel,
)
    ensures
        hello_fault(hello, theirs) is None <==> {
            &&& theirs.protocol_version == hello.protocol_version
            &&& exists|i: int, j: int|
                0 <= i < hello.protocols@.len() && 0 <= j < theirs.capabilities.len() && (
                #[trigger] hello.protocols@[i]).cap.model() == #[trigger] theirs.capabilities[j]
        },
        theirs.protocol_version != hello.protocol_version ==> hello_fault(hello, theirs) == Some(
            (
                DisconnectReason::IncompatibleP2PProtocolVersion,
                P2PStreamError::MismatchedProtocolVersion(
                    GotExpected {
                        got: theirs.protocol_version,
                        expected: hello.protocol_version,
                    },
                ),
            ),
        ),
        theirs.protocol_version == hello.protocol_version && hello_fault(hello, theirs) is Some
            ==> hello_fault(hello, theirs) == Some(
            (
                DisconnectReason::UselessPeer,
                P2PStreamError::HandshakeError(P2PHandshakeError::NoSharedCapabilities),
            ),
        ),
{
    reveal(is_shared);
    let ours = protocol_models(hello.protocols@);
    assert forall|i: int| 0 <= i < ours.len() implies (#[trigger] ours[i]).0
        == hello.protocols@[i].cap.model() by {}
    if exists|cap: CapabilityModel| #[trigger] is_shared(ours, theirs.capabilities, cap) {
        let cap = choose|cap: CapabilityModel| #[trigger] is_shared(ours, theirs.capabilities, cap);
        let i = choose|i: int| 0 <= i < ours.len() && (#[trigger] ours[i]).0 == cap;
        let j = choose|j: int| 0 <= j < theirs.capabilities.len() && theirs.capabilities[j] == cap;
        assert(hello.protocols@[i].cap.model() == theirs.capabilities[j]);
    }
    if exists|i: int, j: int|
        0 <= i < hello.protocols@.len() && 0 <= j < theirs.capabilities.len() && (
        #[trigger] hello.protocols@[i]).cap.model() == #[trigger] theirs.capabilities[j] {
        let (i, j) = choose|i: int, j: int|
            0 <= i < hello.protocols@.len() && 0 <= j < theirs.capabilities.len() && (
            #[trigger] hello.protocols@[i]).cap.model() == #[trigger] theirs.capabilities[j];
        assert(ours[i].0 == theirs.capabilities[j]);
        assert(is_shared(ours, theirs.capabilities, theirs.capabilities[j]));
    }
}

/// A session fails for what has no place in it: nothing at all, a second hello, a pong that was not
/// asked for, an unknown id, a payload that is too large; and it ends for the reason that the peer
/// gives. A ping, an awaited pong and a message of another protocol are no failures.
pub proof fn lemma_what_ends_a_session(came: Incoming, state: PingState)
    ensures
        came matches Incoming::Disconnect(reason) ==> failure_of(came, state) == Some(
            P2PStreamError::Disconnected(reason),
        ),
        came matches Incoming::BadDisconnect(e) ==> failure_of(came, state) == Some(
            P2PStreamError::Rlp(e),
        ),
        came matches Incoming::TooBig(n) ==> failure_of(came, state) == Some(
            P2PStreamError::MessageTooBig { message_size: n, max_size: 0x100_0000 },
        ),
        came matches Incoming::Unknown(id) ==> failure_of(came, state) == Some(
            P2PStreamError::UnknownReservedMessageId(id),
        ),
        came is Empty ==> failure_of(came, state) == Some(P2PStreamError::EmptyProtocolMessage),
        came is Hello ==> failure_of(came, state) == Some(
            P2PStreamError::HandshakeError(P2PHandshakeError::HelloNotInHandshake),
        ),
        came is Ping || came is Message ==> failure_of(came, state) is None,
        came is Pong ==> (failure_of(came, state) is Some <==> state == PingState::Ready),
        came is Pong && state == PingState::Ready ==> failure_of(came, state) == Some(
            P2PStreamError::PingerError(PingerError::UnexpectedPong),
        ),
{
}

/// A message is taken for sending exactly where it has an id, is no longer than 16 MiB, and fewer
/// messages wait than may.
pub proof fn lemma_message_is_taken_when(length: nat, waiting: nat, capacity: nat)
    ensures
        send_fault(length, waiting, capacity) is None <==> 0 < length <= 16 * 1024 * 1024 && waiting
            < capacity,
        length > 16 * 1024 * 1024 ==> send_fault(length, waiting, capacity) == Some(
            P2PStreamError::MessageTooBig { message_size: length as usize, max_size: 0x100_0000 },
        ),
        length == 0 ==> send_fault(length, waiting, capacity) == Some(
            P2PStreamError::EmptyProtocolMessage,
        ),
        0 < length <= 16 * 1024 * 1024 && waiting >= capacity ==> send_fault(
            length,
            waiting,
            capacity,
        ) == Some(P2PStreamError::SendBufferFull),
{
}

} // verus!
