use vstd::prelude::*;
use vstd::slice::slice_subrange;
use vstd::string::StringExecFns;
use crate::text::{decimal, push_decimal};
use crate::rlp::{Rlp, RlpError};
use crate::eth_wire::ethstream::{message_bytes, raw_message_bytes};
use crate::eth_wire_types::message::{
    lemma_message_round_trip, read_message, EthBroadcastMessage, EthMessage, EthMessageID,
    EthMessageModel, MessageError, ProtocolBroadcastMessage, ProtocolMessage,
    RawCapabilityMessage, MAX_MESSAGE_SIZE,
};
use crate::eth_wire_types::snap::{
    lemma_snap_round_trip, read_snap, SnapModel, SnapProtocolMessage, MAX_SNAP_MESSAGE_ID,
};
use crate::eth_wire_types::version::EthVersion;

verus! {

/// Why a stream of `eth` and `snap` messages failed.
#[derive(Debug, PartialEq, Eq)]
pub enum EthSnapStreamError {
    /// The version does not have the message, or its payload is not encoded as it should be.
    InvalidMessage(EthVersion, MessageError),
    UnknownMessageId(u8),
    /// The size of the message, and the largest that is accepted.
    MessageTooLarge(usize, usize),
    Rlp(RlpError),
    StatusNotInHandshake,
}

impl EthSnapStreamError {
    /// What [`EthSnapStreamError::message`] says.
    pub open spec fn text(self) -> Seq<char> {
        match self {
            EthSnapStreamError::InvalidMessage(version, e) => {
                "invalid message for version "@ + version.text() + ": "@ + e.text()
            },
            EthSnapStreamError::UnknownMessageId(id) => {
                "unknown message id: "@ + decimal(id as nat)
            },
            EthSnapStreamError::MessageTooLarge(size, max) => {
                "message too large: "@ + decimal(size as nat) + " > "@ + decimal(max as nat)
            },
            EthSnapStreamError::Rlp(e) => "rlp error: "@ + e.text(),
            EthSnapStreamError::StatusNotInHandshake => {
                "status message received outside handshake"@
            },
        }
    }

    /// The error in words.
    pub fn message(&self) -> (r: String)
        ensures
            r@ == self.text(),
    {
        match self {
            EthSnapStreamError::InvalidMessage(version, e) => {
                let mut r = "invalid message for version ".to_owned();
                r.append(version.name());
                r.append(": ");
                r.append(e.message().as_str());
                r
            },
            EthSnapStreamError::UnknownMessageId(id) => {
                let mut r = "unknown message id: ".to_owned();
                push_decimal(&mut r, *id as u64);
                r
            },
            EthSnapStreamError::MessageTooLarge(size, max) => {
                let mut r = "message too large: ".to_owned();
                push_decimal(&mut r, *size as u64);
                r.append(" > ");
                push_decimal(&mut r, *max as u64);
                r
            },
            EthSnapStreamError::Rlp(e) => {
                let mut r = "rlp error: ".to_owned();
                r.append(e.message().as_str());
                r
            },
            EthSnapStreamError::StatusNotInHandshake => {
                "status message received outside handshake".to_owned()
            },
        }
    }
}

/// A message of either protocol.
#[derive(Debug, PartialEq, Eq)]
pub enum EthSnapMessage {
    Eth(EthMessage),
    Snap(SnapProtocolMessage),
}

/// What a message of either protocol says.
pub ghost enum EthSnapModel {
    Eth(EthMessageModel),
    Snap(SnapModel),
}

impl EthSnapMessage {
    /// What the message says.
    pub open spec fn model(self) -> EthSnapModel {
        match self {
            EthSnapMessage::Eth(m) => EthSnapModel::Eth(m.deep_view()),
            EthSnapMessage::Snap(m) => EthSnapModel::Snap(m.model()),
        }
    }
}

/// The message that bytes are. The ids of `snap` follow those of `eth`.
pub open spec fn read_eth_snap(version: EthVersion, bytes: Seq<u8>) -> Result<
    EthSnapModel,
    EthSnapStreamError,
> {
    let max = EthMessageID::spec_max(version);
    if bytes.len() > MAX_MESSAGE_SIZE {
        Err(EthSnapStreamError::MessageTooLarge(bytes.len() as usize, MAX_MESSAGE_SIZE))
    } else if bytes.len() == 0 {
        Err(EthSnapStreamError::Rlp(RlpError::InputTooShort))
    } else if bytes[0] <= max {
        match read_message(version, bytes) {
            Ok((EthMessageModel::Status(_), _)) => Err(EthSnapStreamError::StatusNotInHandshake),
            Ok((m, _)) => Ok(EthSnapModel::Eth(m)),
            Err(e) => Err(EthSnapStreamError::InvalidMessage(version, e)),
        }
    } else if bytes[0] <= max + 1 + MAX_SNAP_MESSAGE_ID {
        match read_snap((bytes[0] - max - 1) as u8, bytes.skip(1)) {
            Ok(m) => Ok(EthSnapModel::Snap(m)),
            Err(e) => Err(EthSnapStreamError::Rlp(e)),
        }
    } else {
        Err(EthSnapStreamError::UnknownMessageId(bytes[0]))
    }
}

/// The encoding of a `snap` message, its id moved behind those of `eth`.
pub open spec fn snap_bytes(version: EthVersion, m: SnapModel) -> Seq<u8> {
    seq![(m.byte() + EthMessageID::spec_max(version) + 1) as u8] + m.wire()
}

/// The rules by which `eth` and `snap` share the ids of one connection.
#[derive(Clone, Copy, Debug, PartialEq, Eq, Structural)]
pub struct EthSnapStreamInner {
    pub eth_version: EthVersion,
}

impl EthSnapStreamInner {
    /// The rules of an `eth` version.
    pub fn new(eth_version: EthVersion) -> (r: EthSnapStreamInner)
        ensures
            r.eth_version == eth_version,
    {
        EthSnapStreamInner { eth_version }
    }

    /// The `eth` version.
    pub fn eth_version(&self) -> (r: EthVersion)
        ensures
            r == self.eth_version,
    {
        self.eth_version
    }

    /// The message that bytes are.
    pub fn decode_message(&self, bytes: &[u8]) -> (r: Result<EthSnapMessage, EthSnapStreamError>)
        ensures
            match read_eth_snap(self.eth_version, bytes@) {
                Ok(m) => r is Ok && r->Ok_0.model() == m,
                Err(e) => r == Err::<EthSnapMessage, EthSnapStreamError>(e),
            },
    {
        if bytes.len() > MAX_MESSAGE_SIZE {
            return Err(EthSnapStreamError::MessageTooLarge(bytes.len(), MAX_MESSAGE_SIZE));
        }
        if bytes.len() == 0 {
            return Err(EthSnapStreamError::Rlp(RlpError::InputTooShort));
        }
        let message_id: u8 = bytes[0];
        if message_id <= EthMessageID::max(self.eth_version) {
            let mut buf = bytes;
            match ProtocolMessage::decode_message(self.eth_version, &mut buf) {
                Ok(m) => {
                    if matches!(m.message, EthMessage::Status(_)) {
                        return Err(EthSnapStreamError::StatusNotInHandshake);
                    }
                    Ok(EthSnapMessage::Eth(m.message))
                },
                Err(e) => Err(EthSnapStreamError::InvalidMessage(self.eth_version, e)),
            }
        } else if message_id <= EthMessageID::message_count(self.eth_version)
            + MAX_SNAP_MESSAGE_ID {
            let adjusted_message_id: u8 = message_id - EthMessageID::message_count(
                self.eth_version,
            );
            let payload = slice_subrange(bytes, 1, bytes.len());
            proof {
                assert(payload@ =~= bytes@.skip(1));
            }
            match SnapProtocolMessage::decode(adjusted_message_id, payload) {
                Ok(m) => Ok(EthSnapMessage::Snap(m)),
                Err(e) => Err(EthSnapStreamError::Rlp(e)),
            }
        } else {
            Err(EthSnapStreamError::UnknownMessageId(message_id))
        }
    }

    /// The bytes of an `eth` message. A status cannot be sent after the handshake.
    pub fn encode_eth_message(&self, item: EthMessage) -> (r: Result<Vec<u8>, EthSnapStreamError>)
        requires
            item.deep_view().wire().len() < usize::MAX,
        ensures
            item is Status ==> r == Err::<Vec<u8>, EthSnapStreamError>(
                EthSnapStreamError::StatusNotInHandshake,
            ),
            !(item is Status) ==> r is Ok && r->Ok_0@ == message_bytes(item.deep_view()),
    {
        if matches!(item, EthMessage::Status(_)) {
            return Err(EthSnapStreamError::StatusNotInHandshake);
        }
        let mut buf: Vec<u8> = Vec::new();
        ProtocolMessage::from(item).encode(&mut buf);
        proof {
            assert(buf@ =~= message_bytes(item.deep_view()));
        }
        Ok(buf)
    }

    /// The bytes of a `snap` message, its id moved behind those of `eth`.
    pub fn encode_snap_message(&self, message: SnapProtocolMessage) -> (r: Vec<u8>)
        requires
            message.model().wire().len() <= usize::MAX,
        ensures
            r@ == snap_bytes(self.eth_version, message.model()),
    {
        let mut adjusted: Vec<u8> = Vec::new();
        adjusted.push(message.id() + EthMessageID::message_count(self.eth_version));
        message.encode(&mut adjusted);
        proof {
            assert(adjusted@ =~= snap_bytes(self.eth_version, message.model()));
        }
        adjusted
    }
}

/// A stream of `eth` and `snap` messages over one transport of bytes.
#[derive(Clone, Debug)]
pub struct EthSnapStream<S> {
    pub eth_snap: EthSnapStreamInner,
    pub inner: S,
}

impl<S> EthSnapStream<S> {
    /// The stream of an `eth` version over this transport.
    pub fn new(stream: S, eth_version: EthVersion) -> (r: EthSnapStream<S>)
        ensures
            r.eth_snap.eth_version == eth_version,
            r.inner == stream,
    {
        EthSnapStream { eth_snap: EthSnapStreamInner::new(eth_version), inner: stream }
    }

    /// The `eth` version.
    pub fn eth_version(&self) -> (r: EthVersion)
        ensures
            r == self.eth_snap.eth_version,
    {
        self.eth_snap.eth_version()
    }

    /// The transport.
    pub fn inner(&self) -> (r: &S)
        ensures
            *r == self.inner,
    {
        &self.inner
    }

    /// The transport, to be changed.
    pub fn inner_mut(&mut self) -> (r: &mut S)
        ensures
            *r == old(self).inner,
            final(self).eth_snap == old(self).eth_snap,
            final(self).inner == *final(r),
    {
        &mut self.inner
    }

    /// The transport.
    pub fn into_inner(self) -> (r: S)
        ensures
            r == self.inner,
    {
        self.inner
    }

    /// The bytes that the transport is to send for a broadcast.
    pub fn start_send_broadcast(&self, item: EthBroadcastMessage) -> (r: Vec<u8>)
        requires
            item.model().wire().len() < usize::MAX,
        ensures
            r@ == message_bytes(item.model()),
    {
        let mut out: Vec<u8> = Vec::new();
        ProtocolBroadcastMessage::from(item).encode(&mut out);
        proof {
            assert(out@ =~= message_bytes(item.model()));
        }
        out
    }

    /// The bytes that the transport is to send for a message of any protocol: the id as an
    /// integer, then the payload.
    pub fn start_send_raw(&self, msg: RawCapabilityMessage) -> (r: Vec<u8>)
        ensures
            r@ == usize::wire(msg.id) + msg.payload@,
    {
        raw_message_bytes(&msg)
    }

    /// The bytes that the transport is to send for a message.
    pub fn start_send(&self, item: EthSnapMessage) -> (r: Result<Vec<u8>, EthSnapStreamError>)
        requires
            match item.model() {
                EthSnapModel::Eth(m) => m.wire().len() < usize::MAX,
                EthSnapModel::Snap(m) => m.wire().len() <= usize::MAX,
            },
        ensures
            match item.model() {
                EthSnapModel::Eth(m) => if m is Status {
                    r == Err::<Vec<u8>, EthSnapStreamError>(
                        EthSnapStreamError::StatusNotInHandshake,
                    )
                } else {
                    r is Ok && r->Ok_0@ == message_bytes(m)
                },
                EthSnapModel::Snap(m) => r is Ok && r->Ok_0@ == snap_bytes(
                    self.eth_snap.eth_version,
                    m,
                ),
            },
    {
        match item {
            EthSnapMessage::Eth(m) => self.eth_snap.encode_eth_message(m),
            EthSnapMessage::Snap(m) => Ok(self.eth_snap.encode_snap_message(m)),
        }
    }
}

/// What one side sends, the other reads as the message of the same protocol.
pub proof fn lemma_eth_snap_round_trip(version: EthVersion, eth: EthMessageModel, snap: SnapModel)
    requires
        eth.sound(),
        eth.fits(version),
        !(eth is Status),
        eth.id().byte() <= EthMessageID::spec_max(version),
        message_bytes(eth).len() <= MAX_MESSAGE_SIZE,
        snap_bytes(version, snap).len() <= MAX_MESSAGE_SIZE,
    ensures
        read_eth_snap(version, message_bytes(eth)) == Ok::<EthSnapModel, EthSnapStreamError>(
            EthSnapModel::Eth(eth),
        ),
        read_eth_snap(version, snap_bytes(version, snap)) == Ok::<EthSnapModel, EthSnapStreamError>(
            EthSnapModel::Snap(snap),
        ),
{
    lemma_message_round_trip(eth, version);
    assert(snap_bytes(version, snap).skip(1) =~= snap.wire());
    lemma_snap_round_trip(snap);
}

/// Which protocol a message is of is told by its first byte: up to the largest id of the version it
/// is `eth`, the next eight are `snap` counted from zero, and all others are unknown.
pub proof fn lemma_protocol_is_told_by_the_id(version: EthVersion, bytes: Seq<u8>)
    requires
        0 < bytes.len() <= 10 * 1024 * 1024,
    ensures
        ({
            let first: int = if version.number() >= 69 {
                0x12
            } else {
                0x11
            };
            let id = bytes[0] as int;
            &&& read_eth_snap(version, bytes) matches Ok(EthSnapModel::Eth(m)) ==> {
                id < first && m.fits(version) && !(m is Status)
            }
            &&& read_eth_snap(version, bytes) matches Ok(EthSnapModel::Snap(m)) ==> {
                first <= id < first + 8 && m.byte() + first == id
            }
            &&& id >= first + 8 <==> read_eth_snap(version, bytes) == Err::<
                EthSnapModel,
                EthSnapStreamError,
            >(EthSnapStreamError::UnknownMessageId(bytes[0]))
            &&& id == 0 ==> read_eth_snap(version, bytes) is Err
        }),
{
}

} // verus!
