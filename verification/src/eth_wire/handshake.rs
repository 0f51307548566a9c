use vstd::prelude::*;
use crate::primitives::{bit_length, fixed_bytes, lemma_fixed_bytes, B256};
use crate::rlp::{
    lemma_pow256_values, lemma_string_round_trip, lemma_uint_round_trip, lemma_word_bytes_len,
    list_bytes, Rlp,
};
use crate::rlp_payload::{payload_sound, payload_wire};
use crate::eth_wire::disconnect::DisconnectReason;
use crate::eth_wire::errors::{
    EthHandshakeError, EthStreamError, ForkValidationError, GotExpected,
};
use crate::eth_wire::fork_filter::ForkFilter;
use crate::eth_wire::p2pstream::FirstMessage;
use crate::eth_wire_types::message::{
    lemma_message_round_trip, read_message, EthMessage, EthMessageModel, ProtocolMessage, MAX_MESSAGE_SIZE,
};
use crate::eth_wire_types::status::{
    ForkIdFields, Status, StatusEth69, StatusEth69Fields, StatusFields, StatusMessage,
    UnifiedStatus,
};

verus! {

/// How an `eth` handshake ends: what is told to the peer before, and what comes of it.
#[derive(Debug)]
pub struct EthHandshakeEnd {
    pub disconnect: Option<DisconnectReason>,
    pub result: Result<UnifiedStatus, EthStreamError>,
}

/// What is wrong with the status of a peer, with what it is told for it, told whether its fork id
/// is compatible. The first that is wrong counts, in this order: the genesis block, the version,
/// the chain, the total difficulty, the fork id, the range of blocks, the hash of the latest block.
pub open spec fn status_fault(
    ours: StatusMessage,
    theirs: StatusMessage,
    fork: Result<(), ForkValidationError>,
) -> Option<(Option<DisconnectReason>, EthHandshakeError)> {
    let breach = Some(DisconnectReason::ProtocolBreach);
    if ours.spec_genesis() != theirs.spec_genesis() {
        Some(
            (
                breach,
                EthHandshakeError::MismatchedGenesis(
                    GotExpected { got: theirs.spec_genesis(), expected: ours.spec_genesis() },
                ),
            ),
        )
    } else if ours.spec_version() != theirs.spec_version() {
        Some(
            (
                breach,
                EthHandshakeError::MismatchedProtocolVersion(
                    GotExpected { got: theirs.spec_version(), expected: ours.spec_version() },
                ),
            ),
        )
    } else if ours.spec_chain() != theirs.spec_chain() {
        Some(
            (
                breach,
                EthHandshakeError::MismatchedChain(
                    GotExpected { got: theirs.spec_chain(), expected: ours.spec_chain() },
                ),
            ),
        )
    } else if theirs is Legacy && bit_length(theirs->Legacy_0.total_difficulty.value()) > 160 {
        Some(
            (
                breach,
                EthHandshakeError::TotalDifficultyBitLenTooLarge {
                    got: bit_length(theirs->Legacy_0.total_difficulty.value()) as usize,
                    maximum: 160,
                },
            ),
        )
    } else if fork is Err {
        Some((breach, EthHandshakeError::InvalidFork(fork->Err_0)))
    } else if theirs is Eth69 && theirs->Eth69_0.earliest > theirs->Eth69_0.latest {
        Some(
            (
                None,
                EthHandshakeError::EarliestBlockGreaterThanLatestBlock {
                    got: theirs->Eth69_0.earliest,
                    latest: theirs->Eth69_0.latest,
                },
            ),
        )
    } else if theirs is Eth69 && theirs->Eth69_0.blockhash.hi == 0 && theirs->Eth69_0.blockhash.lo
        == 0 {
        Some((None, EthHandshakeError::BlockhashZero))
    } else {
        None
    }
}

/// What is wrong with the status of a peer, with what it is told for it, told whether its fork id
/// is compatible.
pub fn check_status(
    ours: StatusMessage,
    theirs: StatusMessage,
    fork: Result<(), ForkValidationError>,
) -> (r: Option<(Option<DisconnectReason>, EthHandshakeError)>)
    ensures
        r == status_fault(ours, theirs, fork),
{
    let breach = Some(DisconnectReason::ProtocolBreach);
    if ours.genesis() != theirs.genesis() {
        return Some(
            (
                breach,
                EthHandshakeError::MismatchedGenesis(
                    GotExpected { got: theirs.genesis(), expected: ours.genesis() },
                ),
            ),
        );
    }
    if ours.version() != theirs.version() {
        return Some(
            (
                breach,
                EthHandshakeError::MismatchedProtocolVersion(
                    GotExpected { got: theirs.version(), expected: ours.version() },
                ),
            ),
        );
    }
    if ours.chain() != theirs.chain() {
        return Some(
            (
                breach,
                EthHandshakeError::MismatchedChain(
                    GotExpected { got: theirs.chain(), expected: ours.chain() },
                ),
            ),
        );
    }
    if let StatusMessage::Legacy(s) = theirs {
        let bits: usize = s.total_difficulty.bit_len();
        if bits > 160 {
            return Some(
                (
                    breach,
                    EthHandshakeError::TotalDifficultyBitLenTooLarge { got: bits, maximum: 160 },
                ),
            );
        }
    }
    if let Err(e) = fork {
        return Some((breach, EthHandshakeError::InvalidFork(e)));
    }
    if let StatusMessage::Eth69(s) = theirs {
        if s.earliest > s.latest {
            return Some(
                (
                    None,
                    EthHandshakeError::EarliestBlockGreaterThanLatestBlock {
                        got: s.earliest,
                        latest: s.latest,
                    },
                ),
            );
        }
        if s.blockhash.is_zero() {
            return Some((None, EthHandshakeError::BlockhashZero));
        }
    }
    None
}

/// Runs the `eth` handshake.
#[derive(Clone, Copy, Debug)]
pub struct EthereumEthHandshake;

/// How a handshake ends on these bytes from the peer, or on the end of the stream.
pub open spec fn eth_handshake_end(
    ours: StatusMessage,
    fork_filter: ForkFilter,
    first: Option<Seq<u8>>,
) -> (Option<DisconnectReason>, Result<UnifiedStatus, EthStreamError>) {
    match first {
        None => (
            Some(DisconnectReason::DisconnectRequested),
            Err(EthStreamError::EthHandshakeError(EthHandshakeError::NoResponse)),
        ),
        Some(bytes) => if bytes.len() > MAX_MESSAGE_SIZE {
            (
                Some(DisconnectReason::ProtocolBreach),
                Err(EthStreamError::MessageTooBig(bytes.len() as usize)),
            )
        } else {
            match read_message(ours.spec_version(), bytes) {
                Err(e) => (
                    Some(DisconnectReason::DisconnectRequested),
                    Err(EthStreamError::InvalidMessage(e)),
                ),
                Ok((EthMessageModel::Status(theirs), _)) => match status_fault(
                    ours,
                    theirs,
                    fork_filter.validity(theirs.spec_forkid()),
                ) {
                    Some((disconnect, e)) => (
                        disconnect,
                        Err(EthStreamError::EthHandshakeError(e)),
                    ),
                    None => (None, Ok(UnifiedStatus::of_message(theirs))),
                },
                Ok(_) => (
                    Some(DisconnectReason::ProtocolBreach),
                    Err(
                        EthStreamError::EthHandshakeError(
                            EthHandshakeError::NonStatusMessageInHandshake,
                        ),
                    ),
                ),
            }
        },
    }
}

impl EthereumEthHandshake {
    /// The first message that we send: our status.
    pub fn status_bytes(status: UnifiedStatus) -> (r: Vec<u8>)
        ensures
            r@ == seq![0x00u8] + EthMessageModel::Status(status.message()).wire(),
    {
        proof {
            lemma_status_is_short(status.message());
        }
        let mut out: Vec<u8> = Vec::new();
        ProtocolMessage::from(EthMessage::Status(status.into_message())).encode(&mut out);
        proof {
            assert(out@ =~= seq![0x00u8] + EthMessageModel::Status(status.message()).wire());
        }
        out
    }

    /// How the handshake ends on these bytes from the peer, or on the end of the stream.
    pub fn eth_handshake(
        &self,
        status: UnifiedStatus,
        fork_filter: &ForkFilter,
        first: Option<&[u8]>,
    ) -> (r: EthHandshakeEnd)
        ensures
            (r.disconnect, r.result) == eth_handshake_end(
                status.message(),
                *fork_filter,
                match first {
                    Some(bytes) => Some(bytes@),
                    None => None,
                },
            ),
    {
        let ours = status.into_message();
        let bytes = match first {
            Some(bytes) => bytes,
            None => {
                return EthHandshakeEnd {
                    disconnect: Some(DisconnectReason::DisconnectRequested),
                    result: Err(EthStreamError::EthHandshakeError(EthHandshakeError::NoResponse)),
                };
            },
        };
        if bytes.len() > MAX_MESSAGE_SIZE {
            return EthHandshakeEnd {
                disconnect: Some(DisconnectReason::ProtocolBreach),
                result: Err(EthStreamError::MessageTooBig(bytes.len())),
            };
        }
        let mut rest = bytes;
        let message = match ProtocolMessage::decode_message(ours.version(), &mut rest) {
            Ok(m) => m.message,
            Err(e) => {
                return EthHandshakeEnd {
                    disconnect: Some(DisconnectReason::DisconnectRequested),
                    result: Err(EthStreamError::InvalidMessage(e)),
                };
            },
        };
        match message {
            EthMessage::Status(theirs) => {
                let fork = fork_filter.validate(theirs.forkid());
                match check_status(ours, theirs, fork) {
                    Some((disconnect, e)) => EthHandshakeEnd {
                        disconnect,
                        result: Err(EthStreamError::EthHandshakeError(e)),
                    },
                    None => EthHandshakeEnd {
                        disconnect: None,
                        result: Ok(UnifiedStatus::from_message(theirs)),
                    },
                }
            },
            _ => EthHandshakeEnd {
                disconnect: Some(DisconnectReason::ProtocolBreach),
                result: Err(
                    EthStreamError::EthHandshakeError(
                        EthHandshakeError::NonStatusMessageInHandshake,
                    ),
                ),
            },
        }
    }
}

/// The standard `eth` handshake, with a limit on the time it may take.
#[derive(Clone, Copy, Debug, Default)]
pub struct EthHandshake;

impl EthHandshake {
    /// How the handshake ends on what came first from the peer. Where nothing came in time the
    /// handshake is given up and nothing is told to the peer.
    pub fn handshake(
        &self,
        status: UnifiedStatus,
        fork_filter: &ForkFilter,
        first: FirstMessage,
    ) -> (r: EthHandshakeEnd)
        ensures
            (r.disconnect, r.result) == (match first {
                FirstMessage::Timeout => (None, Err(EthStreamError::StreamTimeout)),
                FirstMessage::Closed => eth_handshake_end(status.message(), *fork_filter, None),
                FirstMessage::Bytes(bytes) => eth_handshake_end(
                    status.message(),
                    *fork_filter,
                    Some(bytes@),
                ),
            }),
    {
        match first {
            FirstMessage::Timeout => EthHandshakeEnd {
                disconnect: None,
                result: Err(EthStreamError::StreamTimeout),
            },
            FirstMessage::Closed => EthereumEthHandshake.eth_handshake(status, fork_filter, None),
            FirstMessage::Bytes(bytes) => EthereumEthHandshake.eth_handshake(
                status,
                fork_filter,
                Some(bytes),
            ),
        }
    }
}

/// The encoding of a status is short.
pub proof fn lemma_status_is_short(m: StatusMessage)
    ensures
        EthMessageModel::Status(m).wire().len() <= 512,
{
    reveal(payload_wire);
    lemma_pow256_values();
    let forkid = m.spec_forkid();
    lemma_fixed_bytes(forkid.hash.0 as nat, 4);
    lemma_string_round_trip(fixed_bytes(forkid.hash.0 as nat, 4), Seq::empty());
    lemma_uint_round_trip(forkid.next as nat, 8, Seq::empty());
    lemma_list_header(ForkIdFields::wire(forkid.fields()));
    lemma_uint_round_trip(m.spec_version().number() as nat, 1, Seq::empty());
    lemma_uint_round_trip(m.spec_chain() as nat, 8, Seq::empty());
    m.spec_genesis().lemma_bytes();
    lemma_string_round_trip(m.spec_genesis().bytes(), Seq::empty());
    match m {
        StatusMessage::Legacy(s) => {
            s.blockhash.lemma_bytes();
            lemma_string_round_trip(s.blockhash.bytes(), Seq::empty());
            s.total_difficulty.lemma_join();
            lemma_uint_round_trip(s.total_difficulty.value(), 32, Seq::empty());
            lemma_list_header(StatusFields::wire(s.fields()));
        },
        StatusMessage::Eth69(s) => {
            s.blockhash.lemma_bytes();
            lemma_string_round_trip(s.blockhash.bytes(), Seq::empty());
            lemma_uint_round_trip(s.earliest as nat, 8, Seq::empty());
            lemma_uint_round_trip(s.latest as nat, 8, Seq::empty());
            lemma_list_header(StatusEth69Fields::wire(s.fields()));
        },
    }
}

/// The header of a short list is short.
proof fn lemma_list_header(payload: Seq<u8>)
    requires
        payload.len() <= u32::MAX,
    ensures
        list_bytes(payload).len() <= payload.len() + 9,
{
    lemma_word_bytes_len(payload.len());
}

/// A peer whose status has the form of its version, and in which nothing is wrong, is accepted,
/// and what it said is what comes out.
pub proof fn lemma_handshake_succeeds(
    ours: StatusMessage,
    theirs: StatusMessage,
    fork_filter: ForkFilter,
)
    requires
        theirs is Eth69 <==> theirs.spec_version().number() >= 69,
        status_fault(ours, theirs, fork_filter.validity(theirs.spec_forkid())) is None,
    ensures
        eth_handshake_end(
            ours,
            fork_filter,
            Some(seq![0x00u8] + EthMessageModel::Status(theirs).wire()),
        ) == (
            None::<DisconnectReason>,
            Ok::<UnifiedStatus, EthStreamError>(UnifiedStatus::of_message(theirs)),
        ),
{
    lemma_status_is_short(theirs);
    assert(EthMessageModel::Status(theirs).sound()) by {
        reveal(payload_sound);
    }
    lemma_message_round_trip(EthMessageModel::Status(theirs), ours.spec_version());
}

/// A handshake succeeds only with a peer of the same genesis block, version and chain whose fork
/// id is compatible, and gives what its status says.
pub proof fn lemma_handshake_agrees(
    ours: StatusMessage,
    fork_filter: ForkFilter,
    bytes: Seq<u8>,
)
    ensures
        eth_handshake_end(ours, fork_filter, Some(bytes)).1 matches Ok(theirs) ==> {
            &&& theirs.genesis == ours.spec_genesis()
            &&& theirs.version == ours.spec_version()
            &&& theirs.chain == ours.spec_chain()
            &&& fork_filter.validity(theirs.forkid) is Ok
            &&& eth_handshake_end(ours, fork_filter, Some(bytes)).0 is None
        },
{
}

/// A status in the old form is accepted exactly where its version is ours, it is of our chain and of
/// our genesis block, its total difficulty has no more than 160 bits, and its fork id is compatible.
pub proof fn lemma_legacy_status_is_accepted_when(
    ours: UnifiedStatus,
    theirs: Status,
    fork: Result<(), ForkValidationError>,
)
    ensures
        status_fault(ours.message(), StatusMessage::Legacy(theirs), fork) is None <==> {
            &&& theirs.genesis == ours.genesis
            &&& theirs.version == ours.version
            &&& theirs.chain == ours.chain
            &&& theirs.total_difficulty.hi < 0x1_0000_0000
            &&& fork is Ok
        },
{
    theirs.total_difficulty.lemma_bits(32);
}

/// A status in the form of `eth/69` is accepted exactly where its version is ours, it is of our
/// chain and of our genesis block, its fork id is compatible, its first block is not behind its
/// last, and the hash of the last is not zero.
pub proof fn lemma_status_with_range_is_accepted_when(
    ours: UnifiedStatus,
    theirs: StatusEth69,
    fork: Result<(), ForkValidationError>,
)
    ensures
        status_fault(ours.message(), StatusMessage::Eth69(theirs), fork) is None <==> {
            &&& theirs.genesis == ours.genesis
            &&& theirs.version == ours.version
            &&& theirs.chain == ours.chain
            &&& fork is Ok
            &&& theirs.earliest <= theirs.latest
            &&& theirs.blockhash != B256 { hi: 0, lo: 0 }
        },
{
}

/// What is told of a refused status is so: what we have and what the peer has differ as said, and
/// the peer is told of a breach unless only its range or its last hash is wrong.
pub proof fn lemma_refusals_are_true(
    ours: UnifiedStatus,
    theirs: StatusMessage,
    fork: Result<(), ForkValidationError>,
)
    ensures
        status_fault(ours.message(), theirs, fork) matches Some((told, fault)) ==> {
            let s = UnifiedStatus::of_message(theirs);
            match fault {
                EthHandshakeError::MismatchedGenesis(e) => {
                    &&& e.got == s.genesis && e.expected == ours.genesis && s.genesis
                        != ours.genesis
                    &&& told == Some(DisconnectReason::ProtocolBreach)
                },
                EthHandshakeError::MismatchedProtocolVersion(e) => {
                    &&& e.got == s.version && e.expected == ours.version && s.version
                        != ours.version
                    &&& told == Some(DisconnectReason::ProtocolBreach)
                },
                EthHandshakeError::MismatchedChain(e) => {
                    &&& e.got == s.chain && e.expected == ours.chain && s.chain != ours.chain
                    &&& told == Some(DisconnectReason::ProtocolBreach)
                },
                EthHandshakeError::TotalDifficultyBitLenTooLarge { got, maximum } => {
                    &&& theirs matches StatusMessage::Legacy(l)
                        && l.total_difficulty.hi >= 0x1_0000_0000
                    &&& 160 < got <= 256
                    &&& maximum == 160
                    &&& told == Some(DisconnectReason::ProtocolBreach)
                },
                EthHandshakeError::InvalidFork(e) => {
                    fork == Err::<(), ForkValidationError>(e) && told == Some(
                        DisconnectReason::ProtocolBreach,
                    )
                },
                EthHandshakeError::EarliestBlockGreaterThanLatestBlock { got, latest } => {
                    &&& theirs matches StatusMessage::Eth69(l) && got == l.earliest && latest
                        == l.latest
                    &&& got > latest
                    &&& told is None
                },
                EthHandshakeError::BlockhashZero => {
                    &&& theirs matches StatusMessage::Eth69(l) && l.blockhash == B256 {
                        hi: 0,
                        lo: 0,
                    }
                    &&& told is None
                },
                _ => false,
            }
        },
        UnifiedStatus::of_message(theirs).genesis != ours.genesis ==> status_fault(
            ours.message(),
            theirs,
            fork,
        ) matches Some((_, EthHandshakeError::MismatchedGenesis(_))),
        UnifiedStatus::of_message(theirs).genesis == ours.genesis && UnifiedStatus::of_message(
            theirs,
        ).version != ours.version ==> status_fault(ours.message(), theirs, fork) matches Some(
            (_, EthHandshakeError::MismatchedProtocolVersion(_)),
        ),
        UnifiedStatus::of_message(theirs).genesis == ours.genesis && UnifiedStatus::of_message(
            theirs,
        ).version == ours.version && UnifiedStatus::of_message(theirs).chain != ours.chain
            ==> status_fault(ours.message(), theirs, fork) matches Some(
            (_, EthHandshakeError::MismatchedChain(_)),
        ),
{
    if let StatusMessage::Legacy(s) = theirs {
        s.total_difficulty.lemma_bits(32);
    }
}

/// A peer that sends the bytes of its status is answered by what its status says: it is accepted,
/// and its status comes out field by field, or, where its version has the same form, it is refused.
pub proof fn lemma_sent_status_is_answered(
    ours: UnifiedStatus,
    theirs: UnifiedStatus,
    fork_filter: ForkFilter,
)
    ensures
        ({
            let sent = seq![0x00u8] + EthMessageModel::Status(theirs.message()).wire();
            let (told, result) = eth_handshake_end(ours.message(), fork_filter, Some(sent));
            let ranged = theirs.version.number() >= 69;
            let first: u64 = match theirs.earliest_block {
                Some(n) => n,
                None => 0,
            };
            let last: u64 = match theirs.latest_block {
                Some(n) => n,
                None => 0,
            };
            let good = {
                &&& theirs.genesis == ours.genesis
                &&& theirs.version == ours.version
                &&& theirs.chain == ours.chain
                &&& fork_filter.validity(theirs.forkid) is Ok
                &&& ranged ==> first <= last && theirs.blockhash != B256 { hi: 0, lo: 0 }
                &&& !ranged ==> match theirs.total_difficulty {
                    Some(d) => d.hi < 0x1_0000_0000,
                    None => true,
                }
            };
            &&& good ==> result is Ok
            &&& !good && (ranged <==> ours.version.number() >= 69) ==> result is Err
            &&& good ==> {
                let said = result->Ok_0;
                &&& told is None
                &&& said.version == theirs.version
                &&& said.chain == theirs.chain
                &&& said.genesis == theirs.genesis
                &&& said.forkid == theirs.forkid
                &&& said.blockhash == theirs.blockhash
                &&& ranged ==> said.earliest_block == Some(first) && said.latest_block == Some(
                    last,
                ) && said.total_difficulty is None
                &&& !ranged ==> said.earliest_block is None && said.latest_block is None
                &&& !ranged && theirs.total_difficulty is Some ==> said.total_difficulty
                    == theirs.total_difficulty
            }
        }),
{
    let m = theirs.message();
    lemma_status_is_short(m);
    assert(EthMessageModel::Status(m).sound()) by {
        reveal(payload_sound);
    }
    if theirs.version.number() >= 69 <==> ours.version.number() >= 69 {
        lemma_message_round_trip(EthMessageModel::Status(m), ours.message().spec_version());
    }
    if let StatusMessage::Legacy(s) = m {
        s.total_difficulty.lemma_bits(32);
    }
}

/// A handshake without a status fails: where nothing came, where the bytes are more than 10 MiB,
/// where they are no message, and where they are another message than a status, which are a breach
/// of the protocol.
pub proof fn lemma_handshake_needs_a_status(
    ours: StatusMessage,
    fork_filter: ForkFilter,
    bytes: Seq<u8>,
    m: EthMessageModel,
)
    ensures
        eth_handshake_end(ours, fork_filter, None).1 == Err::<UnifiedStatus, EthStreamError>(
            EthStreamError::EthHandshakeError(EthHandshakeError::NoResponse),
        ),
        bytes.len() > 10 * 1024 * 1024 ==> eth_handshake_end(ours, fork_filter, Some(bytes)) == (
            Some(DisconnectReason::ProtocolBreach),
            Err::<UnifiedStatus, EthStreamError>(
                EthStreamError::MessageTooBig(bytes.len() as usize),
            ),
        ),
        bytes.len() <= 10 * 1024 * 1024 ==> (read_message(ours.spec_version(), bytes) matches Err(
            e,
        ) ==> eth_handshake_end(ours, fork_filter, Some(bytes)) == (
            Some(DisconnectReason::DisconnectRequested),
            Err::<UnifiedStatus, EthStreamError>(EthStreamError::InvalidMessage(e)),
        )),
        m.sound() && m.fits(ours.spec_version()) && !(m is Status) && m.wire().len() < 10 * 1024
            * 1024 ==> eth_handshake_end(
            ours,
            fork_filter,
            Some(seq![m.id().byte()] + m.wire()),
        ) == (
            Some(DisconnectReason::ProtocolBreach),
            Err::<UnifiedStatus, EthStreamError>(
                EthStreamError::EthHandshakeError(EthHandshakeError::NonStatusMessageInHandshake),
            ),
        ),
{
    if m.sound() && m.fits(ours.spec_version()) && !(m is Status) && m.wire().len() < 10 * 1024
        * 1024 {
        lemma_message_round_trip(m, ours.spec_version());
    }
}

} // verus!
