use vstd::prelude::*;
use crate::rlp::Rlp;
use crate::eth_wire::disconnect::DisconnectReason;
use crate::eth_wire::errors::{EthHandshakeError, EthStreamError};
use crate::eth_wire::fork_filter::ForkFilter;
use crate::eth_wire::handshake::{eth_handshake_end, EthHandshake, EthHandshakeEnd};
use crate::eth_wire::p2pstream::FirstMessage;
use crate::eth_wire_types::message::{
    read_message, EthBroadcastMessage, EthMessage, EthMessageModel, ProtocolBroadcastMessage,
    ProtocolMessage, RawCapabilityMessage, MAX_MESSAGE_SIZE,
};
use crate::eth_wire_types::status::UnifiedStatus;
use crate::eth_wire_types::version::EthVersion;

verus! {

/// An `eth` stream before its handshake.
#[derive(Debug)]
pub struct UnauthedEthStream<S> {
    pub inner: S,
}

impl<S> UnauthedEthStream<S> {
    /// The stream over this transport.
    pub fn new(inner: S) -> (r: UnauthedEthStream<S>)
        ensures
            r.inner == inner,
    {
        UnauthedEthStream { inner }
    }

    /// The transport.
    pub fn into_inner(self) -> (r: S)
        ensures
            r == self.inner,
    {
        self.inner
    }

    /// How the handshake ends on what came first from the peer.
    pub fn handshake(
        &self,
        status: UnifiedStatus,
        fork_filter: &ForkFilter,
        first: FirstMessage,
    ) -> (r: EthHandshakeEnd)
        ensures
            (r.disconnect, r.result) == (match first {
                FirstMessage::Timeout => (None, Err(EthStreamError::StreamTimeout)),
                FirstMessage::Closed => eth_handshake_end(status.message(), *fork_filter, None),
                FirstMessage::Bytes(bytes) => eth_handshake_end(
                    status.message(),
                    *fork_filter,
                    Some(bytes@),
                ),
            }),
    {
        EthHandshake.handshake(status, fork_filter, first)
    }

    /// The stream once the handshake with this status has succeeded.
    pub fn into_stream(self, status: UnifiedStatus) -> (r: EthStream<S>)
        ensures
            r.eth.version == status.version,
            r.inner == self.inner,
    {
        EthStream::new(status.version, self.inner)
    }
}

/// The rules of `eth` messages after the handshake.
#[derive(Clone, Copy, Debug, PartialEq, Eq, Structural)]
pub struct EthStreamInner {
    pub version: EthVersion,
}

/// The encoding of a message with its id.
pub open spec fn message_bytes(m: EthMessageModel) -> Seq<u8> {
    seq![m.id().byte()] + m.wire()
}

/// The message that bytes are after the handshake, in which a status has no place.
pub open spec fn session_message(version: EthVersion, bytes: Seq<u8>) -> Result<
    EthMessageModel,
    EthStreamError,
> {
    if bytes.len() > MAX_MESSAGE_SIZE {
        Err(EthStreamError::MessageTooBig(bytes.len() as usize))
    } else {
        match read_message(version, bytes) {
            Err(e) => Err(EthStreamError::InvalidMessage(e)),
            Ok((EthMessageModel::Status(_), _)) => Err(
                EthStreamError::EthHandshakeError(EthHandshakeError::StatusNotInHandshake),
            ),
            Ok((m, _)) => Ok(m),
        }
    }
}

impl EthStreamInner {
    /// The rules of a version.
    pub fn new(version: EthVersion) -> (r: EthStreamInner)
        ensures
            r.version == version,
    {
        EthStreamInner { version }
    }

    /// The version.
    pub fn version(&self) -> (r: EthVersion)
        ensures
            r == self.version,
    {
        self.version
    }

    /// The message that bytes are.
    pub fn decode_message(&self, bytes: &[u8]) -> (r: Result<EthMessage, EthStreamError>)
        ensures
            match session_message(self.version, bytes@) {
                Ok(m) => r is Ok && r->Ok_0.deep_view() == m,
                Err(e) => r == Err::<EthMessage, EthStreamError>(e),
            },
    {
        if bytes.len() > MAX_MESSAGE_SIZE {
            return Err(EthStreamError::MessageTooBig(bytes.len()));
        }
        let mut rest = bytes;
        match ProtocolMessage::decode_message(self.version, &mut rest) {
            Err(e) => Err(EthStreamError::InvalidMessage(e)),
            Ok(m) => {
                if matches!(m.message, EthMessage::Status(_)) {
                    return Err(
                        EthStreamError::EthHandshakeError(EthHandshakeError::StatusNotInHandshake),
                    );
                }
                Ok(m.message)
            },
        }
    }

    /// The bytes of a message. A status cannot be sent after the handshake.
    pub fn encode_message(&self, item: EthMessage) -> (r: Result<Vec<u8>, EthStreamError>)
        requires
            item.deep_view().wire().len() < usize::MAX,
        ensures
            item is Status ==> r == Err::<Vec<u8>, EthStreamError>(
                EthStreamError::EthHandshakeError(EthHandshakeError::StatusNotInHandshake),
            ),
            !(item is Status) ==> r is Ok && r->Ok_0@ == message_bytes(item.deep_view()),
    {
        if matches!(item, EthMessage::Status(_)) {
            return Err(
                EthStreamError::EthHandshakeError(EthHandshakeError::StatusNotInHandshake),
            );
        }
        let mut out: Vec<u8> = Vec::new();
        ProtocolMessage::from(item).encode(&mut out);
        proof {
            assert(out@ =~= message_bytes(item.deep_view()));
        }
        Ok(out)
    }
}

/// What is sent for a message: the bytes, or the reason for which the session is ended and the
/// failure.
#[derive(Debug)]
pub struct EthSend {
    pub disconnect: Option<DisconnectReason>,
    pub result: Result<Vec<u8>, EthStreamError>,
}

/// An `eth` stream over a transport of bytes.
#[derive(Debug)]
pub struct EthStream<S> {
    pub eth: EthStreamInner,
    pub inner: S,
}

impl<S> EthStream<S> {
    /// The stream of a version over this transport, whose handshake is done.
    pub fn new(version: EthVersion, inner: S) -> (r: EthStream<S>)
        ensures
            r.eth.version == version,
            r.inner == inner,
    {
        EthStream { eth: EthStreamInner::new(version), inner }
    }

    /// The version.
    pub fn version(&self) -> (r: EthVersion)
        ensures
            r == self.eth.version,
    {
        self.eth.version()
    }

    /// The transport.
    pub fn inner(&self) -> (r: &S)
        ensures
            *r == self.inner,
    {
        &self.inner
    }

    /// The transport, to be changed.
    pub fn inner_mut(&mut self) -> (r: &mut S)
        ensures
            *r == old(self).inner,
            final(self).eth == old(self).eth,
            final(self).inner == *final(r),
    {
        &mut self.inner
    }

    /// The transport.
    pub fn into_inner(self) -> (r: S)
        ensures
            r == self.inner,
    {
        self.inner
    }

    /// The bytes that the transport is to send for a broadcast.
    pub fn start_send_broadcast(&self, item: EthBroadcastMessage) -> (r: Vec<u8>)
        requires
            item.model().wire().len() < usize::MAX,
        ensures
            r@ == message_bytes(item.model()),
    {
        let mut out: Vec<u8> = Vec::new();
        ProtocolBroadcastMessage::from(item).encode(&mut out);
        proof {
            assert(out@ =~= message_bytes(item.model()));
        }
        out
    }

    /// The bytes that the transport is to send for a message of any protocol: the id as an
    /// integer, then the payload.
    pub fn start_send_raw(&self, msg: RawCapabilityMessage) -> (r: Vec<u8>)
        ensures
            r@ == usize::wire(msg.id) + msg.payload@,
    {
        raw_message_bytes(&msg)
    }

    /// What is sent for a message. A status cannot be sent after the handshake: it is a breach of
    /// the protocol, for which the session is ended.
    pub fn start_send(&self, item: EthMessage) -> (r: EthSend)
        requires
            item.deep_view().wire().len() < usize::MAX,
        ensures
            item is Status ==> r.disconnect == Some(DisconnectReason::ProtocolBreach) && r.result
                == Err::<Vec<u8>, EthStreamError>(
                EthStreamError::EthHandshakeError(EthHandshakeError::StatusNotInHandshake),
            ),
            !(item is Status) ==> r.disconnect is None && r.result is Ok && r.result->Ok_0@
                == message_bytes(item.deep_view()),
    {
        if matches!(item, EthMessage::Status(_)) {
            return EthSend {
                disconnect: Some(DisconnectReason::ProtocolBreach),
                result: Err(
                    EthStreamError::EthHandshakeError(EthHandshakeError::StatusNotInHandshake),
                ),
            };
        }
        EthSend { disconnect: None, result: self.eth.encode_message(item) }
    }
}

/// A message of any protocol as it is sent: the id as an integer, then the payload.
pub(crate) fn raw_message_bytes(msg: &RawCapabilityMessage) -> (r: Vec<u8>)
    ensures
        r@ == usize::wire(msg.id) + msg.payload@,
{
    proof {
        crate::rlp_types::lemma_word_wire_is_short(msg.id);
    }
    let mut out: Vec<u8> = Vec::new();
    msg.id.encode(&mut out);
    out.extend_from_slice(msg.payload.as_slice());
    proof {
        assert(out@ =~= usize::wire(msg.id) + msg.payload@);
    }
    out
}

/// What one side sends after the handshake, the other reads, where the version has the message.
pub proof fn lemma_session_round_trip(m: EthMessageModel, version: EthVersion)
    requires
        m.sound(),
        m.fits(version),
        !(m is Status),
        message_bytes(m).len() <= MAX_MESSAGE_SIZE,
    ensures
        session_message(version, message_bytes(m)) == Ok::<EthMessageModel, EthStreamError>(m),
{
    crate::eth_wire_types::message::lemma_message_round_trip(m, version);
}

/// After the handshake a message is taken only up to 10 MiB and never a status; what is taken is
/// what the bytes say.
pub proof fn lemma_session_messages(version: EthVersion, bytes: Seq<u8>)
    ensures
        session_message(version, bytes) is Ok <==> {
            &&& bytes.len() <= 10 * 1024 * 1024
            &&& read_message(version, bytes) is Ok
            &&& !(read_message(version, bytes)->Ok_0.0 is Status)
        },
        session_message(version, bytes) matches Ok(m) ==> m == read_message(version, bytes)->Ok_0.0
            && m.fits(version) && m.id().byte() == bytes[0],
        bytes.len() > 10 * 1024 * 1024 ==> session_message(version, bytes) == Err::<
            EthMessageModel,
            EthStreamError,
        >(EthStreamError::MessageTooBig(bytes.len() as usize)),
        session_message(version, bytes) matches Err(EthStreamError::EthHandshakeError(e)) ==> e
            == EthHandshakeError::StatusNotInHandshake && read_message(version, bytes) matches Ok((
            EthMessageModel::Status(_),
            _,
        )),
        session_message(version, bytes) matches Err(EthStreamError::InvalidMessage(e)) ==> {
            read_message(version, bytes) matches Err(read) && read == e
        },
{
}

} // verus!
