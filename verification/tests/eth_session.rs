use reth::eth_wire::disconnect::DisconnectReason;
use reth::eth_wire::errors::{
    EthHandshakeError, EthStreamError, ForkValidationError, GotExpected,
};
use reth::eth_wire::eth_snap_stream::{
    EthSnapMessage, EthSnapStream, EthSnapStreamError, EthSnapStreamInner,
};
use reth::eth_wire::ethstream::{EthStream, EthStreamInner, UnauthedEthStream};
use reth::eth_wire::fork_filter::{check_refusal, ForkFilter, ForkFilterKey};
use reth::eth_wire::handshake::{check_status, EthHandshake, EthereumEthHandshake};
use reth::eth_wire::p2pstream::FirstMessage;
use reth::eth_wire_types::message::{
    EthBroadcastMessage, EthMessage, MessageError, ProtocolMessage, RawCapabilityMessage,
    RequestPair, MAX_MESSAGE_SIZE,
};
use reth::eth_wire_types::payloads::BlockHashNumber;
use reth::eth_wire_types::snap::SnapProtocolMessage;
use reth::eth_wire_types::status::{ForkId, StatusMessage, UnifiedStatus};
use reth::eth_wire_types::version::EthVersion;
use reth::primitives::{ForkHash, B256, U256};
use reth::rlp::RlpError;
use reth::rlp_types::{Bytes, Listed};

/// The genesis hash of the main chain.
fn genesis() -> B256 {
    B256 {
        hi: 0xd4e56740f876aef8c010b86a40d5f567,
        lo: 0x45a118d0906a34e69aec8c0db1cb8fa3,
    }
}

/// The forks of the main chain up to Constantinople, seen from genesis.
fn fork_filter() -> ForkFilter {
    ForkFilter {
        head_number: 0,
        head_timestamp: 0,
        genesis_hash: genesis(),
        genesis_timestamp: 0,
        forks: vec![
            ForkFilterKey::Block(1_150_000),
            ForkFilterKey::Block(1_920_000),
            ForkFilterKey::Block(2_463_000),
            ForkFilterKey::Block(2_675_000),
            ForkFilterKey::Block(4_370_000),
            ForkFilterKey::Block(7_280_000),
        ],
    }
}

/// The fork id of the main chain before Homestead.
fn frontier() -> ForkId {
    ForkId { hash: ForkHash(0xfc64ec04), next: 1_150_000 }
}

fn status(version: EthVersion) -> UnifiedStatus {
    let modern = version == EthVersion::Eth69 || version == EthVersion::Eth70;
    UnifiedStatus {
        version,
        chain: 1,
        genesis: genesis(),
        forkid: frontier(),
        blockhash: B256 { hi: 9, lo: 9 },
        total_difficulty: if modern { None } else { Some(U256::from_u64(17)) },
        earliest_block: if modern { Some(0) } else { None },
        latest_block: if modern { Some(100) } else { None },
    }
}

fn handshake(ours: UnifiedStatus, theirs: UnifiedStatus) -> Result<UnifiedStatus, EthStreamError> {
    let bytes = EthereumEthHandshake::status_bytes(theirs);
    EthHandshake.handshake(ours, &fork_filter(), FirstMessage::Bytes(&bytes)).result
}

#[test]
fn handshakes_agree() {
    for version in [
        EthVersion::Eth66,
        EthVersion::Eth67,
        EthVersion::Eth68,
        EthVersion::Eth69,
        EthVersion::Eth70,
    ] {
        let theirs = status(version);
        assert_eq!(handshake(status(version), theirs), Ok(theirs));
        let stream = UnauthedEthStream::new(7u8);
        let bytes = EthereumEthHandshake::status_bytes(theirs);
        let end = stream.handshake(theirs, &fork_filter(), FirstMessage::Bytes(&bytes));
        assert_eq!(end.disconnect, None);
        let stream = stream.into_stream(end.result.unwrap());
        assert_eq!(stream.version(), version);
        assert_eq!(stream.into_inner(), 7);
    }
}

#[test]
fn fork_ids_are_checked() {
    let filter = fork_filter();
    assert_eq!(filter.validate(frontier()), Ok(()));
    // A peer that announces a fork which is already past here, or that knows another chain.
    let strange = ForkId { hash: ForkHash(0xdeadbeef), next: 0 };
    assert_eq!(
        filter.validate(strange),
        Err(ForkValidationError::LocalIncompatibleOrStale {
            local: frontier(),
            remote: strange
        })
    );
    let later = ForkFilter { head_number: 7_987_396, ..fork_filter() };
    // A peer that is at Spurious Dragon and has not heard of Byzantium.
    let stale = ForkId { hash: ForkHash(0x3edd5b10), next: 0 };
    assert_eq!(
        later.validate(stale),
        Err(ForkValidationError::RemoteStale {
            local: ForkId { hash: ForkHash(0x668db0af), next: 0 },
            remote: stale
        })
    );
    // One that is at Byzantium and knows what comes next.
    assert_eq!(
        later.validate(ForkId { hash: ForkHash(0xa00bc324), next: 7_280_000 }),
        Ok(())
    );
}

#[test]
fn refusals_name_both_fork_ids() {
    assert_eq!(check_refusal(None, frontier()), Ok(()));
    let local = ForkId { hash: ForkHash(1), next: 2 };
    assert_eq!(
        check_refusal(Some((true, local)), frontier()),
        Err(ForkValidationError::RemoteStale { local, remote: frontier() })
    );
    assert_eq!(
        check_refusal(Some((false, local)), frontier()),
        Err(ForkValidationError::LocalIncompatibleOrStale { local, remote: frontier() })
    );
}

#[test]
fn statuses_of_other_chains_are_refused() {
    let ours = status(EthVersion::Eth68);
    let other_genesis = B256 { hi: 1, lo: 1 };
    assert_eq!(
        handshake(ours, UnifiedStatus { genesis: other_genesis, ..ours }),
        Err(EthStreamError::EthHandshakeError(EthHandshakeError::MismatchedGenesis(
            GotExpected { got: other_genesis, expected: genesis() }
        )))
    );
    assert_eq!(
        handshake(ours, UnifiedStatus { version: EthVersion::Eth67, ..ours }),
        Err(EthStreamError::EthHandshakeError(EthHandshakeError::MismatchedProtocolVersion(
            GotExpected { got: EthVersion::Eth67, expected: EthVersion::Eth68 }
        )))
    );
    assert_eq!(
        handshake(ours, UnifiedStatus { chain: 5, ..ours }),
        Err(EthStreamError::EthHandshakeError(EthHandshakeError::MismatchedChain(
            GotExpected { got: 5, expected: 1 }
        )))
    );
    let huge = U256 { hi: 1 << 100, lo: 0 };
    assert_eq!(
        handshake(ours, UnifiedStatus { total_difficulty: Some(huge), ..ours }),
        Err(EthStreamError::EthHandshakeError(
            EthHandshakeError::TotalDifficultyBitLenTooLarge { got: 229, maximum: 160 }
        ))
    );
    let strange = ForkId { hash: ForkHash(0xdeadbeef), next: 0 };
    assert_eq!(
        handshake(ours, UnifiedStatus { forkid: strange, ..ours }),
        Err(EthStreamError::EthHandshakeError(EthHandshakeError::InvalidFork(
            ForkValidationError::LocalIncompatibleOrStale { local: frontier(), remote: strange }
        )))
    );
}

#[test]
fn block_ranges_are_checked() {
    let ours = status(EthVersion::Eth69);
    assert_eq!(
        handshake(ours, UnifiedStatus { earliest_block: Some(101), ..ours }),
        Err(EthStreamError::EthHandshakeError(
            EthHandshakeError::EarliestBlockGreaterThanLatestBlock { got: 101, latest: 100 }
        ))
    );
    assert_eq!(
        handshake(ours, UnifiedStatus { blockhash: B256::zero(), ..ours }),
        Err(EthStreamError::EthHandshakeError(EthHandshakeError::BlockhashZero))
    );
}

#[test]
fn the_first_fault_counts() {
    let ours = status(EthVersion::Eth68).into_message();
    let theirs = UnifiedStatus {
        chain: 2,
        version: EthVersion::Eth66,
        ..status(EthVersion::Eth68)
    }
    .into_message();
    assert_eq!(
        check_status(ours, theirs, Ok(())),
        Some((
            Some(DisconnectReason::ProtocolBreach),
            EthHandshakeError::MismatchedProtocolVersion(GotExpected {
                got: EthVersion::Eth66,
                expected: EthVersion::Eth68
            })
        ))
    );
    assert_eq!(check_status(ours, ours, Ok(())), None);
}

#[test]
fn handshakes_need_a_status() {
    let ours = status(EthVersion::Eth68);
    let run = |first: FirstMessage| EthHandshake.handshake(ours, &fork_filter(), first);
    let end = run(FirstMessage::Timeout);
    assert_eq!(end.result, Err(EthStreamError::StreamTimeout));
    let end = run(FirstMessage::Closed);
    assert_eq!(end.disconnect, Some(DisconnectReason::DisconnectRequested));
    assert_eq!(
        end.result,
        Err(EthStreamError::EthHandshakeError(EthHandshakeError::NoResponse))
    );
    let huge = vec![0u8; MAX_MESSAGE_SIZE + 1];
    let end = run(FirstMessage::Bytes(&huge));
    assert_eq!(end.result, Err(EthStreamError::MessageTooBig(MAX_MESSAGE_SIZE + 1)));
    let end = run(FirstMessage::Bytes(&[0x00, 0xc0]));
    assert!(matches!(end.result, Err(EthStreamError::InvalidMessage(_))));
    let mut other = Vec::new();
    ProtocolMessage::from(EthMessage::NewBlockHashes(vec![])).encode(&mut other);
    let end = run(FirstMessage::Bytes(&other));
    assert_eq!(
        end.result,
        Err(EthStreamError::EthHandshakeError(EthHandshakeError::NonStatusMessageInHandshake))
    );
}

#[test]
fn statuses_keep_what_their_version_tells() {
    let legacy = status(EthVersion::Eth68);
    assert!(matches!(legacy.into_message(), StatusMessage::Legacy(_)));
    assert_eq!(UnifiedStatus::from_message(legacy.into_message()), legacy);
    let modern = status(EthVersion::Eth69);
    assert!(matches!(modern.into_message(), StatusMessage::Eth69(_)));
    assert_eq!(UnifiedStatus::from_message(modern.into_message()), modern);
}

#[test]
fn sessions_carry_messages() {
    let eth = EthStreamInner::new(EthVersion::Eth68);
    let message = EthMessage::NewBlockHashes(vec![BlockHashNumber {
        hash: B256 { hi: 1, lo: 2 },
        number: 3,
    }]);
    let bytes = eth.encode_message(message.clone()).unwrap();
    assert_eq!(eth.decode_message(&bytes), Ok(message.clone()));

    let stream = EthStream::new(EthVersion::Eth68, ());
    let send = stream.start_send(message.clone());
    assert_eq!(send.disconnect, None);
    assert_eq!(send.result, Ok(bytes));

    // A status has no place after the handshake.
    let status = EthMessage::Status(status(EthVersion::Eth68).into_message());
    assert_eq!(
        eth.encode_message(status.clone()),
        Err(EthStreamError::EthHandshakeError(EthHandshakeError::StatusNotInHandshake))
    );
    let send = stream.start_send(status.clone());
    assert_eq!(send.disconnect, Some(DisconnectReason::ProtocolBreach));
    let mut bytes = Vec::new();
    ProtocolMessage::from(status).encode(&mut bytes);
    assert_eq!(
        eth.decode_message(&bytes),
        Err(EthStreamError::EthHandshakeError(EthHandshakeError::StatusNotInHandshake))
    );

    let huge = vec![0u8; MAX_MESSAGE_SIZE + 1];
    assert_eq!(
        eth.decode_message(&huge),
        Err(EthStreamError::MessageTooBig(MAX_MESSAGE_SIZE + 1))
    );
    assert!(matches!(
        eth.decode_message(&[0x0d, 0xc2, 0x01, 0xc0]),
        Err(EthStreamError::InvalidMessage(MessageError::Invalid(..)))
    ));
}

#[test]
fn raw_messages_and_broadcasts_are_framed() {
    let stream = EthStream::new(EthVersion::Eth68, ());
    assert_eq!(
        stream.start_send_raw(RawCapabilityMessage::new(0x20, vec![1, 2])),
        vec![0x20, 1, 2]
    );
    assert_eq!(
        stream.start_send_broadcast(EthBroadcastMessage::Transactions(vec![])),
        vec![0x02, 0xc0]
    );
    let mut stream = EthSnapStream::new(5u8, EthVersion::Eth68);
    assert_eq!(
        stream.start_send_raw(RawCapabilityMessage::new(0x20, vec![1, 2])),
        vec![0x20, 1, 2]
    );
    assert_eq!(
        stream.start_send_broadcast(EthBroadcastMessage::Transactions(vec![])),
        vec![0x02, 0xc0]
    );
    *stream.inner_mut() = 6;
    assert_eq!(*stream.inner(), 6);
    assert_eq!(stream.into_inner(), 6);
}

#[test]
fn eth_and_snap_share_a_stream() {
    let stream = EthSnapStreamInner::new(EthVersion::Eth68);
    let snap = SnapProtocolMessage::ByteCodes(Listed((7, vec![Bytes(vec![1, 2, 3])])));
    let bytes = stream.encode_snap_message(snap);
    // Behind the ids of the eth messages.
    assert_eq!(bytes[0], 17 + 0x05);
    match stream.decode_message(&bytes) {
        Ok(EthSnapMessage::Snap(SnapProtocolMessage::ByteCodes(Listed((id, codes))))) => {
            assert_eq!(id, 7);
            assert_eq!(codes, vec![Bytes(vec![1, 2, 3])]);
        }
        other => panic!("unexpected: {other:?}"),
    }
    let eth = EthMessage::GetBlockBodies(RequestPair { request_id: 1, message: vec![] });
    let bytes = stream.encode_eth_message(eth.clone()).unwrap();
    assert_eq!(stream.decode_message(&bytes), Ok(EthSnapMessage::Eth(eth)));

    assert_eq!(
        stream.encode_eth_message(EthMessage::Status(
            status(EthVersion::Eth68).into_message()
        )),
        Err(EthSnapStreamError::StatusNotInHandshake)
    );
    assert_eq!(
        stream.decode_message(&[]),
        Err(EthSnapStreamError::Rlp(RlpError::InputTooShort))
    );
    assert_eq!(
        stream.decode_message(&[17 + 8, 0xc0]),
        Err(EthSnapStreamError::UnknownMessageId(17 + 8))
    );
    let huge = vec![0u8; MAX_MESSAGE_SIZE + 1];
    assert_eq!(
        stream.decode_message(&huge),
        Err(EthSnapStreamError::MessageTooLarge(MAX_MESSAGE_SIZE + 1, MAX_MESSAGE_SIZE))
    );
}

#[test]
fn stream_errors_in_words() {
    assert_eq!(
        EthSnapStreamError::InvalidMessage(
            EthVersion::Eth68,
            MessageError::RlpError(RlpError::UnexpectedString),
        )
        .message(),
        "invalid message for version Eth68: RLP error: unexpected string"
    );
    assert_eq!(EthSnapStreamError::UnknownMessageId(40).message(), "unknown message id: 40");
    assert_eq!(
        EthSnapStreamError::MessageTooLarge(10485761, 10485760).message(),
        "message too large: 10485761 > 10485760"
    );
    assert_eq!(EthSnapStreamError::Rlp(RlpError::Overflow).message(), "rlp error: overflow");
    assert_eq!(
        EthSnapStreamError::StatusNotInHandshake.message(),
        "status message received outside handshake"
    );
}
