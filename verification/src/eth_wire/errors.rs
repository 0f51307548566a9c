use vstd::prelude::*;
use crate::primitives::B256;
use crate::rlp::RlpError;
use crate::eth_wire::disconnect::DisconnectReason;
use crate::eth_wire::hello::ProtocolVersion;
use crate::eth_wire_types::message::MessageError;
use crate::eth_wire_types::status::ForkId;
use crate::eth_wire_types::version::EthVersion;

verus! {

/// `snap::Error`, carried on as it came.
#[verifier::external_type_specification]
#[verifier::external_body]
pub struct ExSnapError(snap::Error);

/// What came, and what was expected in its place.
#[derive(Clone, Copy, Debug, PartialEq, Eq, Structural)]
pub struct GotExpected<T> {
    pub got: T,
    pub expected: T,
}

/// Why a `p2p` handshake failed.
#[derive(Clone, Copy, Debug, PartialEq, Eq)]
pub enum P2PHandshakeError {
    HelloNotInHandshake,
    NonHelloMessageInHandshake,
    NoSharedCapabilities,
    NoResponse,
    Timeout,
    Disconnected(DisconnectReason),
    DecodeError(RlpError),
}

/// What went wrong with pings.
#[derive(Clone, Copy, Debug, PartialEq, Eq, Structural)]
pub enum PingerError {
    UnexpectedPong,
}

/// Why a `p2p` stream failed.
#[derive(Debug, PartialEq, Eq)]
pub enum P2PStreamError {
    Rlp(RlpError),
    Snap(snap::Error),
    HandshakeError(P2PHandshakeError),
    MessageTooBig { message_size: usize, max_size: usize },
    UnknownReservedMessageId(u8),
    EmptyProtocolMessage,
    PingerError(PingerError),
    MismatchedProtocolVersion(GotExpected<ProtocolVersion>),
    SendBufferFull,
    Disconnected(DisconnectReason),
}

/// Why a fork id is refused.
#[derive(Clone, Copy, Debug, PartialEq, Eq, Structural)]
pub enum ForkValidationError {
    /// The peer is outdated.
    RemoteStale { local: ForkId, remote: ForkId },
    /// We are on another chain than the peer, or outdated.
    LocalIncompatibleOrStale { local: ForkId, remote: ForkId },
}

/// Why an `eth` handshake failed.
#[derive(Clone, Copy, Debug, PartialEq, Eq, Structural)]
pub enum EthHandshakeError {
    StatusNotInHandshake,
    NonStatusMessageInHandshake,
    NoResponse,
    InvalidFork(ForkValidationError),
    MismatchedGenesis(GotExpected<B256>),
    MismatchedProtocolVersion(GotExpected<EthVersion>),
    MismatchedChain(GotExpected<u64>),
    TotalDifficultyBitLenTooLarge { got: usize, maximum: usize },
    EarliestBlockGreaterThanLatestBlock { got: u64, latest: u64 },
    BlockhashZero,
}

/// Why an `eth` stream failed.
#[derive(Debug, PartialEq, Eq)]
pub enum EthStreamError {
    P2PStreamError(P2PStreamError),
    InvalidMessage(MessageError),
    MessageTooBig(usize),
    EthHandshakeError(EthHandshakeError),
    StreamTimeout,
}

} // verus!
