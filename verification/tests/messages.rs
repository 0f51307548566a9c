use reth::eth_wire_types::items::{BlockBody, BlockHeader, Transaction};
use reth::eth_wire_types::message::{
    EthBroadcastMessage, EthMessage, EthMessageID, MessageError, ProtocolBroadcastMessage,
    ProtocolMessage, RawCapabilityMessage, RequestPair,
};
use reth::eth_wire_types::payloads::{
    BlockHashNumber, BlockHashOrNumber, BlockRangeUpdate, GetBlockHeaders, GetReceipts70,
    HeadersDirection, NewPooledTransactionHashes68,
};
use reth::eth_wire_types::version::EthVersion;
use reth::primitives::B256;
use reth::rlp::{Rlp, RlpError};
use reth::rlp_types::Bytes;

fn hash(n: u128) -> B256 {
    B256 { hi: 0, lo: n }
}

fn encoded(message: &ProtocolMessage) -> Vec<u8> {
    let mut buf = Vec::new();
    message.encode(&mut buf);
    assert_eq!(buf.len(), message.length());
    buf
}

fn assert_roundtrip(version: EthVersion, message: EthMessage) {
    let message = ProtocolMessage::from(message);
    let buf = encoded(&message);
    let mut rest = &buf[..];
    let decoded = ProtocolMessage::decode_message(version, &mut rest).unwrap();
    assert_eq!(decoded, message);
    assert!(rest.is_empty());
}

#[test]
fn test_removed_message_at_eth67() {
    let get_node_data =
        EthMessage::GetNodeData(RequestPair { request_id: 1337, message: vec![] });
    let buf = encoded(&ProtocolMessage {
        message_type: EthMessageID::GetNodeData,
        message: get_node_data,
    });
    let msg = ProtocolMessage::decode_message(EthVersion::Eth67, &mut &buf[..]);
    assert!(matches!(msg, Err(MessageError::Invalid(..))));

    let node_data = EthMessage::NodeData(RequestPair { request_id: 1337, message: vec![] });
    let buf =
        encoded(&ProtocolMessage { message_type: EthMessageID::NodeData, message: node_data });
    let msg = ProtocolMessage::decode_message(EthVersion::Eth67, &mut &buf[..]);
    assert!(matches!(msg, Err(MessageError::Invalid(..))));
}

#[test]
fn removed_messages_are_refused_with_their_ids() {
    for (id, byte) in [(EthMessageID::GetNodeData, 0x0d), (EthMessageID::NodeData, 0x0e)] {
        let buf = [byte, 0xc4, 0x82, 0x05, 0x39, 0xc0];
        assert!(ProtocolMessage::decode_message(EthVersion::Eth66, &mut &buf[..]).is_ok());
        let refused = ProtocolMessage::decode_message(EthVersion::Eth67, &mut &buf[..]);
        assert_eq!(refused, Err(MessageError::Invalid(EthVersion::Eth67, id)));
    }
}

#[test]
fn request_pair_encode() {
    let request_pair = RequestPair { request_id: 1337, message: vec![5u8] };

    // A list of five bytes: the string 0x0539, which is 1337, and the list of 5.
    let expected = vec![0xc5, 0x82, 0x05, 0x39, 0xc1, 0x05];
    let mut got = Vec::new();
    request_pair.encode(&mut got);
    assert_eq!(expected, got);
}

#[test]
fn request_pair_decode() {
    let raw_pair: [u8; 6] = [0xc5, 0x82, 0x05, 0x39, 0xc1, 0x05];

    let expected = RequestPair { request_id: 1337, message: vec![5u8] };

    let got = RequestPair::<Vec<u8>>::decode(&mut &raw_pair[..]).unwrap();
    assert_eq!(expected.length(), raw_pair.len());
    assert_eq!(expected, got);
}

#[test]
fn malicious_request_pair_decode() {
    // The list says five bytes, but its items take six.
    let raw_pair: [u8; 7] = [0xc5, 0x82, 0x05, 0x39, 0xc2, 0x05, 0x05];

    let result = RequestPair::<Vec<u8>>::decode(&mut &raw_pair[..]);
    assert!(matches!(result, Err(RlpError::UnexpectedLength)));
}

#[test]
fn empty_block_bodies_protocol() {
    let empty_block_bodies = ProtocolMessage::from(EthMessage::BlockBodies(RequestPair {
        request_id: 0,
        message: Default::default(),
    }));
    let mut buf = Vec::new();
    empty_block_bodies.encode(&mut buf);
    let decoded = ProtocolMessage::decode_message(EthVersion::Eth68, &mut buf.as_slice()).unwrap();
    assert_eq!(empty_block_bodies, decoded);
}

#[test]
fn empty_block_body_protocol() {
    // No transactions, no ommers, and an empty list of withdrawals.
    let body = BlockBody::from_encoding(vec![0xc3, 0xc0, 0xc0, 0xc0]);
    let empty_block_bodies = ProtocolMessage::from(EthMessage::BlockBodies(RequestPair {
        request_id: 0,
        message: vec![body],
    }));
    let mut buf = Vec::new();
    empty_block_bodies.encode(&mut buf);
    assert_eq!(buf, vec![0x06, 0xc6, 0x80, 0xc4, 0xc3, 0xc0, 0xc0, 0xc0]);
    let decoded = ProtocolMessage::decode_message(EthVersion::Eth68, &mut buf.as_slice()).unwrap();
    assert_eq!(empty_block_bodies, decoded);
}

#[test]
fn decode_block_bodies_message() {
    let buf: [u8; 6] = [0x06, 0xc4, 0x81, 0x99, 0xc1, 0xc0];
    let msg = ProtocolMessage::decode_message(EthVersion::Eth68, &mut &buf[..]).unwrap_err();
    assert!(matches!(msg, MessageError::RlpError(RlpError::InputTooShort)));
}

#[test]
fn custom_message_roundtrip() {
    let custom_payload = vec![1, 2, 3, 4, 5];
    let custom_message = RawCapabilityMessage::new(0x20, custom_payload);
    let protocol_message = ProtocolMessage {
        message_type: EthMessageID::Other(0x20),
        message: EthMessage::Other(custom_message),
    };

    let encoded = encoded(&protocol_message);
    let decoded =
        ProtocolMessage::decode_message(EthVersion::Eth68, &mut &encoded[..]).unwrap();

    assert_eq!(protocol_message, decoded);
}

#[test]
fn custom_message_empty_payload_roundtrip() {
    let custom_message = RawCapabilityMessage::new(0x30, vec![]);
    let protocol_message = ProtocolMessage {
        message_type: EthMessageID::Other(0x30),
        message: EthMessage::Other(custom_message),
    };

    let encoded = encoded(&protocol_message);
    let decoded =
        ProtocolMessage::decode_message(EthVersion::Eth68, &mut &encoded[..]).unwrap();

    assert_eq!(protocol_message, decoded);
}

#[test]
fn test_protocol_message_ids() {
    let ids = vec![
        (EthMessageID::Status, 0x00),
        (EthMessageID::NewBlockHashes, 0x01),
        (EthMessageID::Transactions, 0x02),
        (EthMessageID::GetBlockHeaders, 0x03),
        (EthMessageID::BlockHeaders, 0x04),
        (EthMessageID::GetBlockBodies, 0x05),
        (EthMessageID::BlockBodies, 0x06),
        (EthMessageID::NewBlock, 0x07),
        (EthMessageID::NewPooledTransactionHashes, 0x08),
        (EthMessageID::GetPooledTransactions, 0x09),
        (EthMessageID::PooledTransactions, 0x0a),
        (EthMessageID::GetNodeData, 0x0d),
        (EthMessageID::NodeData, 0x0e),
        (EthMessageID::GetReceipts, 0x0f),
        (EthMessageID::Receipts, 0x10),
        (EthMessageID::BlockRangeUpdate, 0x11),
        (EthMessageID::Other(0x42), 0x42),
    ];
    for (id, byte) in ids {
        assert_eq!(id.to_u8(), byte);
        let mut buf = Vec::new();
        id.encode(&mut buf);
        assert_eq!(buf, vec![byte]);
        assert_eq!(id.length(), 1);
        assert_eq!(EthMessageID::decode(&mut &buf[..]), Ok(id));
    }
    assert_eq!(EthMessageID::decode(&mut &[][..]), Err(RlpError::InputTooShort));
}

#[test]
fn message_ids_from_numbers() {
    assert_eq!(EthMessageID::try_from(0x11), Ok(EthMessageID::BlockRangeUpdate));
    assert_eq!(EthMessageID::try_from(0x00), Ok(EthMessageID::Status));
    assert!(EthMessageID::try_from(0x0b).is_err());
    assert!(EthMessageID::try_from(0x100).is_err());
}

#[test]
fn message_counts_by_version() {
    assert_eq!(EthMessageID::max(EthVersion::Eth66), 0x10);
    assert_eq!(EthMessageID::max(EthVersion::Eth68), 0x10);
    assert_eq!(EthMessageID::max(EthVersion::Eth69), 0x11);
    assert_eq!(EthMessageID::max(EthVersion::Eth70), 0x11);
    assert_eq!(EthMessageID::message_count(EthVersion::Eth68), 17);
    assert_eq!(EthMessageID::message_count(EthVersion::Eth69), 18);
}

#[test]
fn messages_come_back_from_their_encoding() {
    assert_roundtrip(
        EthVersion::Eth68,
        EthMessage::NewBlockHashes(vec![BlockHashNumber { hash: hash(7), number: 1024 }]),
    );
    assert_roundtrip(
        EthVersion::Eth66,
        EthMessage::NewPooledTransactionHashes66(vec![hash(1), hash(2)]),
    );
    assert_roundtrip(
        EthVersion::Eth68,
        EthMessage::NewPooledTransactionHashes68(NewPooledTransactionHashes68 {
            types: Bytes(vec![0, 2]),
            sizes: vec![100, 70_000],
            hashes: vec![hash(1), hash(2)],
        }),
    );
    assert_roundtrip(
        EthVersion::Eth68,
        EthMessage::GetBlockHeaders(RequestPair {
            request_id: 3,
            message: GetBlockHeaders {
                start_block: BlockHashOrNumber::Number(17),
                limit: 1024,
                skip: 5,
                direction: HeadersDirection::Falling,
            },
        }),
    );
    assert_roundtrip(
        EthVersion::Eth68,
        EthMessage::GetBlockHeaders(RequestPair {
            request_id: 3,
            message: GetBlockHeaders {
                start_block: BlockHashOrNumber::Hash(hash(9)),
                limit: 1,
                skip: 0,
                direction: HeadersDirection::Rising,
            },
        }),
    );
    assert_roundtrip(
        EthVersion::Eth66,
        EthMessage::NodeData(RequestPair { request_id: 9, message: vec![Bytes(vec![1, 2, 3])] }),
    );
    assert_roundtrip(
        EthVersion::Eth70,
        EthMessage::GetReceipts70(RequestPair {
            request_id: 9,
            message: GetReceipts70 { first_block_receipt_index: 4, block_hashes: vec![hash(3)] },
        }),
    );
    assert_roundtrip(
        EthVersion::Eth69,
        EthMessage::BlockRangeUpdate(BlockRangeUpdate {
            earliest: 1,
            latest: 2,
            latest_hash: hash(5),
        }),
    );
    assert_roundtrip(
        EthVersion::Eth69,
        EthMessage::Receipts69(RequestPair { request_id: 2, message: vec![vec![]] }),
    );
}

#[test]
fn block_range_update_before_eth69() {
    let message = ProtocolMessage::from(EthMessage::BlockRangeUpdate(BlockRangeUpdate {
        earliest: 1,
        latest: 2,
        latest_hash: hash(5),
    }));
    let buf = encoded(&message);
    assert_eq!(
        ProtocolMessage::decode_message(EthVersion::Eth68, &mut &buf[..]),
        Err(MessageError::Invalid(EthVersion::Eth68, EthMessageID::BlockRangeUpdate))
    );
}

#[test]
fn requests_and_responses() {
    let request = EthMessage::GetReceipts(RequestPair { request_id: 1, message: vec![hash(1)] });
    assert!(request.is_request());
    assert!(!request.is_response());
    let response = EthMessage::Receipts(RequestPair { request_id: 1, message: vec![] });
    assert!(response.is_response());
    assert!(!response.is_request());
    let broadcast = EthMessage::NewBlockHashes(vec![]);
    assert!(!broadcast.is_request());
    assert!(!broadcast.is_response());
}

#[test]
fn receipts_request_follows_the_version() {
    let request = EthMessage::GetReceipts(RequestPair { request_id: 1, message: vec![hash(1)] });
    assert_eq!(request.clone().map_versioned(EthVersion::Eth69), request);
    assert_eq!(
        request.map_versioned(EthVersion::Eth70),
        EthMessage::GetReceipts70(RequestPair {
            request_id: 1,
            message: GetReceipts70 { first_block_receipt_index: 0, block_hashes: vec![hash(1)] },
        })
    );
}

#[test]
fn request_pairs_map() {
    let pair = RequestPair { request_id: 4, message: vec![1u8, 2, 3] };
    assert_eq!(
        pair.map(|message: Vec<u8>| message.len()),
        RequestPair { request_id: 4, message: 3 }
    );
}

#[test]
fn broadcasts_read_as_messages() {
    // A legacy transaction with empty fields.
    let transaction = vec![0xc9, 0x80, 0x80, 0x80, 0x80, 0x80, 0x80, 0x1b, 0x01, 0x01];
    let broadcast = ProtocolBroadcastMessage::from(EthBroadcastMessage::Transactions(vec![
        Transaction::from_encoding(transaction.clone()),
    ]));
    assert_eq!(broadcast.message.message_id(), EthMessageID::Transactions);
    let mut buf = Vec::new();
    broadcast.encode(&mut buf);
    assert_eq!(buf.len(), broadcast.length());
    let decoded = ProtocolMessage::decode_message(EthVersion::Eth68, &mut &buf[..]).unwrap();
    assert_eq!(
        decoded.message,
        EthMessage::Transactions(vec![Transaction::from_encoding(transaction)])
    );
}

#[test]
fn items_are_measured_by_their_decoders() {
    // A list where a header should have its fields.
    let mut buf = Vec::new();
    RequestPair { request_id: 1, message: vec![Bytes(vec![1, 2, 3])] }.encode(&mut buf);
    let mut message = vec![0x04];
    message.extend_from_slice(&buf);
    assert!(matches!(
        ProtocolMessage::decode_message(EthVersion::Eth68, &mut &message[..]),
        Err(MessageError::RlpError(_))
    ));
    let header = BlockHeader::from_encoding(vec![0xc0]);
    assert_eq!(header.encoding(), &vec![0xc0]);
}

#[test]
fn items_are_sent_in_their_own_encoding() {
    // A transaction with an access list, without the string header that it is sent with.
    let bare = [1, 0xcb, 1, 0x80, 0x80, 0x80, 0x80, 0x80, 0x80, 0xc0, 0x80, 1, 1];
    let mut wrapped = vec![0x8d];
    wrapped.extend_from_slice(&bare);
    let read = |bytes: &[u8]| {
        let mut buf = bytes;
        let transaction = Transaction::decode(&mut buf).unwrap();
        assert!(buf.is_empty());
        transaction
    };
    assert_eq!(read(&wrapped).encoding(), &wrapped);
    assert_eq!(read(&bare).encoding(), &wrapped);
    assert_eq!(read(&bare), read(&wrapped));
}

#[test]
fn errors_in_words() {
    assert_eq!(
        MessageError::Invalid(EthVersion::Eth67, EthMessageID::NodeData).message(),
        "message id NodeData is invalid for version Eth67"
    );
    assert_eq!(
        MessageError::Invalid(EthVersion::Eth70, EthMessageID::Other(205)).message(),
        "message id Other(205) is invalid for version Eth70"
    );
    assert_eq!(
        MessageError::RlpError(RlpError::InputTooShort).message(),
        "RLP error: input too short"
    );
    assert_eq!(MessageError::Other(String::from("why")).message(), "why");
    assert_eq!(
        RlpError::ListLengthMismatch { expected: 10, got: 1203 }.message(),
        "unexpected list length (got 1203, expected 10)"
    );
    assert_eq!(RlpError::Custom("odd").message(), "odd");
    // The words are those of the decoder itself.
    for (own, outside) in [
        (RlpError::Overflow, alloy_rlp::Error::Overflow),
        (RlpError::LeadingZero, alloy_rlp::Error::LeadingZero),
        (RlpError::InputTooShort, alloy_rlp::Error::InputTooShort),
        (RlpError::NonCanonicalSingleByte, alloy_rlp::Error::NonCanonicalSingleByte),
        (RlpError::NonCanonicalSize, alloy_rlp::Error::NonCanonicalSize),
        (RlpError::UnexpectedLength, alloy_rlp::Error::UnexpectedLength),
        (RlpError::UnexpectedString, alloy_rlp::Error::UnexpectedString),
        (RlpError::UnexpectedList, alloy_rlp::Error::UnexpectedList),
        (
            RlpError::ListLengthMismatch { expected: 2, got: 0 },
            alloy_rlp::Error::ListLengthMismatch { expected: 2, got: 0 },
        ),
    ] {
        assert_eq!(own.message(), outside.to_string());
    }
}
