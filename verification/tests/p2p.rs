use reth::eth_wire::capability::{
    Capability, SharedCapabilities, SharedCapability, MAX_RESERVED_MESSAGE_ID,
};
use reth::eth_wire::disconnect::DisconnectReason;
use reth::eth_wire::errors::{
    GotExpected, P2PHandshakeError, P2PStreamError, PingerError,
};
use reth::eth_wire::hello::{HelloMessageWithProtocols, ProtocolVersion, DEFAULT_TCP_PORT};
use reth::eth_wire::p2pstream::{
    flushed, DisconnectP2P, FirstMessage, FlushStep, P2PMessage, P2PMessageID, P2PStream,
    Progress, Received, TransportState, UnauthedP2PStream, MAX_PAYLOAD_SIZE,
};
use reth::eth_wire::pinger::{PingState, PingTimer, Pinger, PingerEvent};
use reth::eth_wire::protocol::Protocol;
use reth::eth_wire_types::version::EthVersion;
use reth::primitives::{PeerId, B256};
use reth::rlp::{Rlp, RlpError};

fn eth_hello() -> HelloMessageWithProtocols {
    let id = PeerId { hi: B256 { hi: 1, lo: 2 }, lo: B256 { hi: 3, lo: 4 } };
    HelloMessageWithProtocols {
        protocol_version: ProtocolVersion::V5,
        client_version: String::from("eth/1.0.0"),
        protocols: vec![Protocol::eth(EthVersion::Eth67)],
        port: DEFAULT_TCP_PORT,
        id,
    }
}

fn hello_bytes(hello: &HelloMessageWithProtocols) -> Vec<u8> {
    UnauthedP2PStream::<()>::hello_bytes(hello)
}

fn authed(ours: &HelloMessageWithProtocols, theirs: &HelloMessageWithProtocols) -> P2PStream<()> {
    let bytes = hello_bytes(theirs);
    let end = UnauthedP2PStream::<()>::handshake(ours, FirstMessage::Bytes(&bytes));
    assert_eq!(end.disconnect, None);
    let (shared, hello) = end.result.unwrap();
    assert_eq!(hello, theirs.message());
    P2PStream::new((), shared)
}

fn encoded(message: &P2PMessage) -> Vec<u8> {
    let mut buf = Vec::new();
    message.encode(&mut buf);
    assert_eq!(buf.len(), message.length());
    buf
}

#[test]
fn test_protocol_eth_message_count() {
    assert_eq!(Protocol::eth(EthVersion::Eth66).messages(), 17);
    assert_eq!(Protocol::eth(EthVersion::Eth67).messages(), 17);
    assert_eq!(Protocol::eth(EthVersion::Eth68).messages(), 17);
    assert_eq!(Protocol::eth(EthVersion::Eth69).messages(), 18);
}

#[test]
fn snappy_decode_encode_ping() {
    let snappy_ping = b"\x02\x01\0\xc0";
    let ping = P2PMessage::decode(&mut &snappy_ping[..]).unwrap();
    assert!(matches!(ping, P2PMessage::Ping));
    assert_eq!(encoded(&ping), &snappy_ping[..]);
}

#[test]
fn snappy_decode_encode_pong() {
    let snappy_pong = b"\x03\x01\0\xc0";
    let pong = P2PMessage::decode(&mut &snappy_pong[..]).unwrap();
    assert!(matches!(pong, P2PMessage::Pong));
    assert_eq!(encoded(&pong), &snappy_pong[..]);
}

#[test]
fn test_can_disconnect() {
    let expected_disconnect = DisconnectReason::UselessPeer;

    let mut server = authed(&eth_hello(), &eth_hello());
    let mut client = authed(&eth_hello(), &eth_hello());

    server.start_disconnect(expected_disconnect).unwrap();
    assert!(server.is_disconnecting());
    let sent = server.next_outgoing().unwrap();
    assert!(server.next_outgoing().is_none());

    match client.receive(&sent) {
        Received::Failed(P2PStreamError::Disconnected(reason)) => {
            assert_eq!(reason, expected_disconnect)
        }
        other => panic!("unexpected: {other:?}"),
    }
}

#[test]
fn test_can_disconnect_weird_disconnect_encoding() {
    let expected_disconnect = DisconnectReason::SubprotocolSpecific;

    let mut client = authed(&eth_hello(), &eth_hello());

    // The message as it is encoded, without compression.
    let sent = encoded(&P2PMessage::Disconnect(DisconnectReason::SubprotocolSpecific));

    match client.receive(&sent) {
        Received::Failed(P2PStreamError::Disconnected(reason)) => {
            assert_eq!(reason, expected_disconnect)
        }
        other => panic!("unexpected: {other:?}"),
    }
}

#[test]
fn test_handshake_passthrough() {
    let server = authed(&eth_hello(), &eth_hello());
    let client = authed(&eth_hello(), &eth_hello());

    // The two share a single capability, eth67.
    for stream in [server, client] {
        assert_eq!(
            stream.shared_capabilities().iter_caps()[0],
            SharedCapability::Eth {
                version: EthVersion::Eth67,
                offset: MAX_RESERVED_MESSAGE_ID + 1
            }
        );
        assert_eq!(stream.shared_capabilities().iter_caps().len(), 1);
    }
}

#[test]
fn test_handshake_disconnect() {
    let server_hello = eth_hello();
    let mut client_hello = eth_hello();

    // An incompatible p2p protocol version.
    client_hello.protocol_version = ProtocolVersion::V4;

    for (ours, theirs) in [(&server_hello, &client_hello), (&client_hello, &server_hello)] {
        let bytes = hello_bytes(theirs);
        let end = UnauthedP2PStream::<()>::handshake(ours, FirstMessage::Bytes(&bytes));
        assert_eq!(end.disconnect, Some(DisconnectReason::IncompatibleP2PProtocolVersion));
        match end.result {
            Ok((_, hello)) => {
                panic!("expected handshake to fail, instead got a successful Hello: {hello:?}")
            }
            Err(P2PStreamError::MismatchedProtocolVersion(GotExpected { got, expected })) => {
                assert_ne!(expected, got);
                assert_eq!(expected, ours.protocol_version);
            }
            Err(other_err) => {
                panic!("expected mismatched protocol version error, got {other_err:?}")
            }
        }
    }
}

#[test]
fn handshakes_fail_on_other_first_messages() {
    let ours = eth_hello();
    let failed = |first: FirstMessage| UnauthedP2PStream::<()>::handshake(&ours, first);

    let end = failed(FirstMessage::Timeout);
    assert_eq!(
        end.result.unwrap_err(),
        P2PStreamError::HandshakeError(P2PHandshakeError::Timeout)
    );
    let end = failed(FirstMessage::Closed);
    assert_eq!(
        end.result.unwrap_err(),
        P2PStreamError::HandshakeError(P2PHandshakeError::NoResponse)
    );
    let end = failed(FirstMessage::Bytes(&[]));
    assert_eq!(
        end.result.unwrap_err(),
        P2PStreamError::HandshakeError(P2PHandshakeError::DecodeError(RlpError::InputTooShort))
    );
    let ping = encoded(&P2PMessage::Ping);
    let end = failed(FirstMessage::Bytes(&ping));
    assert_eq!(
        end.result.unwrap_err(),
        P2PStreamError::HandshakeError(P2PHandshakeError::NonHelloMessageInHandshake)
    );
    let disconnect = UnauthedP2PStream::<()>::disconnect_bytes(DisconnectReason::TooManyPeers);
    let end = failed(FirstMessage::Bytes(&disconnect));
    assert_eq!(
        end.result.unwrap_err(),
        P2PStreamError::HandshakeError(P2PHandshakeError::Disconnected(
            DisconnectReason::TooManyPeers
        ))
    );
    let huge = vec![0u8; MAX_PAYLOAD_SIZE + 1];
    let end = failed(FirstMessage::Bytes(&huge));
    assert_eq!(
        end.result.unwrap_err(),
        P2PStreamError::MessageTooBig {
            message_size: MAX_PAYLOAD_SIZE + 1,
            max_size: MAX_PAYLOAD_SIZE
        }
    );
}

#[test]
fn peers_without_shared_capabilities_are_useless() {
    let ours = eth_hello();
    let mut theirs = eth_hello();
    theirs.protocols = vec![Protocol::eth(EthVersion::Eth68)];
    let bytes = hello_bytes(&theirs);
    let end = UnauthedP2PStream::<()>::handshake(&ours, FirstMessage::Bytes(&bytes));
    assert_eq!(end.disconnect, Some(DisconnectReason::UselessPeer));
    assert_eq!(
        end.result.unwrap_err(),
        P2PStreamError::HandshakeError(P2PHandshakeError::NoSharedCapabilities)
    );
}

#[test]
fn hellos_come_back_from_their_encoding() {
    let hello = eth_hello().message();
    let mut buf = Vec::new();
    hello.encode(&mut buf);
    assert_eq!(buf.len(), hello.length());
    assert_eq!(reth::eth_wire::hello::HelloMessage::decode(&mut &buf[..]), Ok(hello));
}

#[test]
fn protocols_are_added_once() {
    let mut hello = HelloMessageWithProtocols::builder(eth_hello().id)
        .port(1)
        .protocol(Protocol::eth(EthVersion::Eth68))
        .client_version(String::from("test"))
        .protocol_version(ProtocolVersion::V5)
        .build();
    assert_eq!(hello.port, 1);
    assert!(hello.contains_protocol(&Protocol::eth(EthVersion::Eth68)));
    assert!(!hello.contains_protocol(&Protocol::eth(EthVersion::Eth67)));
    assert!(hello.try_add_protocol(Protocol::eth(EthVersion::Eth67)).is_ok());
    assert_eq!(
        hello.try_add_protocol(Protocol::eth(EthVersion::Eth67)),
        Err(Protocol::eth(EthVersion::Eth67))
    );
    assert_eq!(hello.protocols.len(), 2);
}

#[test]
fn newest_shared_versions_get_their_ids_in_order() {
    let other = |name: &str, version: usize, messages: u8| {
        Protocol::new(Capability::new(String::from(name), version), messages)
    };
    let ours = vec![
        Protocol::eth(EthVersion::Eth66),
        Protocol::eth(EthVersion::Eth68),
        other("aaa", 1, 7),
        other("zzz", 1, 2),
        other("zzz", 3, 4),
    ];
    let theirs = vec![
        Capability::new(String::from("zzz"), 3),
        Capability::new(String::from("zzz"), 1),
        Capability::eth(EthVersion::Eth66),
        Capability::eth(EthVersion::Eth68),
        Capability::new(String::from("aaa"), 1),
        Capability::new(String::from("bbb"), 1),
    ];
    let shared = SharedCapabilities::try_new(&ours, &theirs).unwrap();
    let caps = shared.iter_caps();
    assert_eq!(caps.len(), 3);
    assert_eq!(
        caps[0],
        SharedCapability::UnknownCapability {
            cap: Capability::new(String::from("aaa"), 1),
            offset: 0x10,
            messages: 7
        }
    );
    assert_eq!(
        caps[1],
        SharedCapability::Eth { version: EthVersion::Eth68, offset: 0x10 + 7 }
    );
    assert_eq!(
        caps[2],
        SharedCapability::UnknownCapability {
            cap: Capability::new(String::from("zzz"), 3),
            offset: 0x10 + 7 + 17,
            messages: 4
        }
    );
    assert_eq!(caps[1].num_messages(), 17);
}

#[test]
fn messages_cross_the_stream() {
    let mut alice = authed(&eth_hello(), &eth_hello());
    let mut bob = authed(&eth_hello(), &eth_hello());
    let mut item = vec![0x05];
    item.extend(vec![7u8; 1000]);
    alice.start_send(&item).unwrap();
    let sent = alice.next_outgoing().unwrap();
    // The id of a message is shifted by the reserved ones, and the payload is compressed.
    assert_eq!(sent[0], 0x15);
    assert!(sent.len() < 100);
    match bob.receive(&sent) {
        Received::Message(bytes) => assert_eq!(bytes, item),
        other => panic!("unexpected: {other:?}"),
    }
}

#[test]
fn sends_are_refused() {
    let mut stream = authed(&eth_hello(), &eth_hello());
    assert_eq!(stream.start_send(&[]), Err(P2PStreamError::EmptyProtocolMessage));
    let huge = vec![0u8; MAX_PAYLOAD_SIZE + 1];
    assert_eq!(
        stream.start_send(&huge),
        Err(P2PStreamError::MessageTooBig {
            message_size: MAX_PAYLOAD_SIZE + 1,
            max_size: MAX_PAYLOAD_SIZE
        })
    );
    stream.set_outgoing_message_buffer_capacity(1);
    assert!(stream.has_outgoing_capacity());
    assert_eq!(stream.start_send(&[1, 2]), Ok(()));
    assert!(!stream.has_outgoing_capacity());
    assert_eq!(stream.start_send(&[1, 2]), Err(P2PStreamError::SendBufferFull));
}

#[test]
fn pings_are_answered() {
    let mut stream = authed(&eth_hello(), &eth_hello());
    assert!(matches!(stream.receive(b"\x02\x01\0\xc0"), Received::Nothing));
    assert_eq!(stream.next_outgoing().unwrap(), b"\x03\x01\0\xc0");
    // Nobody has asked for a pong.
    assert!(matches!(
        stream.receive(b"\x03\x01\0\xc0"),
        Received::Failed(P2PStreamError::PingerError(PingerError::UnexpectedPong))
    ));
    stream.send_ping();
    assert_eq!(stream.next_outgoing().unwrap(), b"\x02\x01\0\xc0");
}

#[test]
fn frames_are_refused() {
    let mut stream = authed(&eth_hello(), &eth_hello());
    assert!(matches!(
        stream.receive(&[]),
        Received::Failed(P2PStreamError::EmptyProtocolMessage)
    ));
    assert!(matches!(
        stream.receive(&[0x10, 0xff, 0xff]),
        Received::Failed(P2PStreamError::Snap(_))
    ));
    // A block that says it holds more than any payload may.
    assert!(matches!(
        stream.receive(&[0x10, 0x80, 0x80, 0x80, 0x10]),
        Received::Failed(P2PStreamError::MessageTooBig { .. })
    ));
    assert!(matches!(
        stream.receive(b"\x0b\x01\0\xc0"),
        Received::Failed(P2PStreamError::UnknownReservedMessageId(0x0b))
    ));
    let hello = {
        let mut sender = authed(&eth_hello(), &eth_hello());
        sender.start_send(&[0, 1]).unwrap();
        let mut frame = sender.next_outgoing().unwrap();
        frame[0] = 0;
        frame
    };
    assert!(matches!(
        stream.receive(&hello),
        Received::Failed(P2PStreamError::HandshakeError(
            P2PHandshakeError::HelloNotInHandshake
        ))
    ));
}

#[test]
fn missing_pongs_end_the_session() {
    let mut stream = authed(&eth_hello(), &eth_hello());
    // The first timer asks for a ping, the second for the end.
    assert_eq!(stream.poll_pinger(false), Ok(false));
    assert_eq!(stream.poll_pinger(true), Ok(false));
    assert_eq!(stream.next_outgoing().unwrap(), b"\x02\x01\0\xc0");
    assert_eq!(stream.poll_pinger(true), Ok(true));
    assert!(stream.is_disconnecting());
    let mut peer = authed(&eth_hello(), &eth_hello());
    assert!(matches!(
        peer.receive(&stream.next_outgoing().unwrap()),
        Received::Failed(P2PStreamError::Disconnected(DisconnectReason::PingTimeout))
    ));
}

#[test]
fn test_ping_timeout() {
    let mut pinger = Pinger::new();
    assert_eq!(pinger.waits_for(), PingTimer::Interval);
    assert_eq!(pinger.poll_ping(true), Some(PingerEvent::Ping));
    pinger.on_pong().unwrap();
    assert_eq!(pinger.poll_ping(true), Some(PingerEvent::Ping));

    assert_eq!(pinger.state(), PingState::WaitingForPong);
    assert_eq!(pinger.poll_ping(false), None);
    assert_eq!(pinger.poll_ping(true), Some(PingerEvent::Timeout));
    pinger.on_pong().unwrap();

    assert_eq!(pinger.poll_ping(true), Some(PingerEvent::Ping));
    pinger.on_pong().unwrap();
    assert_eq!(pinger.on_pong(), Err(PingerError::UnexpectedPong));
}

#[test]
fn reasons_come_back_from_their_bytes() {
    for byte in 0..=0xffu8 {
        match DisconnectReason::from_u8(byte) {
            Some(reason) => {
                assert_eq!(reason.to_u8(), byte);
                let mut buf = Vec::new();
                reason.encode(&mut buf);
                assert_eq!(buf.len(), reason.length());
                assert_eq!(DisconnectReason::decode(&buf), Ok(reason));
            }
            None => assert!(byte > 0x0b && byte != 0x10),
        }
    }
    assert_eq!(DisconnectReason::decode(&[]), Err(RlpError::InputTooShort));
    assert_eq!(DisconnectReason::decode(&[1, 2, 3]), Err(RlpError::Overflow));
    // A bare byte is a reason too.
    assert_eq!(DisconnectReason::decode(&[0x04]), Ok(DisconnectReason::TooManyPeers));
    assert!(DisconnectReason::decode(&[0x0c]).is_err());
}

#[test]
fn p2p_ids() {
    for id in [
        P2PMessageID::Hello,
        P2PMessageID::Disconnect,
        P2PMessageID::Ping,
        P2PMessageID::Pong,
    ] {
        assert_eq!(P2PMessageID::try_from(id.to_u8()).unwrap(), id);
    }
    assert_eq!(
        P2PMessageID::try_from(4).unwrap_err(),
        P2PStreamError::UnknownReservedMessageId(4)
    );
    assert_eq!(P2PMessageID::from(P2PMessage::Pong), P2PMessageID::Pong);
}

#[test]
fn a_full_queue_makes_a_stream_wait() {
    let hello = eth_hello();
    let mut stream = authed(&hello, &hello);
    stream.set_outgoing_message_buffer_capacity(1);
    assert_eq!(stream.poll_ready(TransportState::<u8>::Busy), Some(Ok(())));
    stream.start_send(&[0, 1]).unwrap();
    assert_eq!(stream.poll_ready(TransportState::<u8>::Busy), None);
    assert_eq!(stream.poll_ready(TransportState::<u8>::Flushing), None);
    assert_eq!(stream.poll_ready(TransportState::<u8>::Flushed(None)), Some(Ok(())));
    assert_eq!(stream.poll_ready(TransportState::Flushed(Some(7u8))), Some(Err(7)));
    assert_eq!(stream.poll_ready(TransportState::Failed(8u8)), Some(Err(8)));
}

#[test]
fn messages_go_out_in_their_order() {
    let hello = eth_hello();
    let mut stream = authed(&hello, &hello);
    stream.start_send(&[0, 1]).unwrap();
    stream.start_send(&[1, 2]).unwrap();
    assert!(matches!(
        stream.poll_flush(Progress::<u8>::Pending),
        FlushStep::Flush(Progress::Pending)
    ));
    assert!(matches!(
        stream.poll_flush(Progress::Failed(9u8)),
        FlushStep::Flush(Progress::Failed(9))
    ));
    for id in [0x10, 0x11] {
        match stream.poll_flush(Progress::<u8>::Done) {
            FlushStep::Send(message) => assert_eq!(message[0], id),
            step => panic!("{step:?}"),
        }
    }
    assert!(matches!(stream.poll_flush(Progress::<u8>::Done), FlushStep::Flush(Progress::Done)));
}

#[test]
fn flushing_counts_before_sending() {
    assert_eq!(flushed(Progress::<u8>::Done, Progress::Done), Progress::Done);
    assert_eq!(flushed(Progress::Failed(1u8), Progress::Done), Progress::Failed(1));
    assert_eq!(flushed(Progress::Failed(1u8), Progress::Pending), Progress::Pending);
    assert_eq!(flushed(Progress::Failed(1u8), Progress::Failed(2)), Progress::Failed(2));
}

#[test]
fn nothing_is_read_once_disconnecting() {
    let hello = eth_hello();
    let mut peer = authed(&hello, &hello);
    peer.start_send(&[0, 1]).unwrap();
    let message = peer.next_outgoing().unwrap();
    peer.send_ping();
    let ping = peer.next_outgoing().unwrap();

    let mut stream = authed(&hello, &hello);
    assert!(matches!(stream.receive(&message), Received::Message(m) if m == [0, 1]));
    stream.start_disconnect(DisconnectReason::ClientQuitting).unwrap();
    for bytes in [&message[..], &ping[..], &[]] {
        assert!(matches!(stream.receive(bytes), Received::Ended));
    }
    // Only the reason waits to be sent.
    let last = stream.next_outgoing().unwrap();
    assert!(stream.next_outgoing().is_none());
    assert!(matches!(
        peer.receive(&last),
        Received::Failed(P2PStreamError::Disconnected(DisconnectReason::ClientQuitting))
    ));
}

#[test]
fn protocols_come_from_versions() {
    for version in [EthVersion::Eth66, EthVersion::Eth68, EthVersion::Eth69, EthVersion::Eth70] {
        assert_eq!(Protocol::from(version), Protocol::eth(version));
    }
}

#[test]
fn only_shared_protocols_count_for_the_ids() {
    let many = |name: &str| Protocol::new(Capability::new(String::from(name), 1), 200);
    let mut ours = eth_hello();
    ours.protocols.push(many("a"));
    ours.protocols.push(many("b"));
    let mut theirs = eth_hello();
    theirs.protocols.push(many("a"));

    let one = hello_bytes(&theirs);
    assert!(UnauthedP2PStream::<()>::fits(&ours, FirstMessage::Bytes(&one)));
    let end = UnauthedP2PStream::<()>::handshake(&ours, FirstMessage::Bytes(&one));
    assert_eq!(end.result.unwrap().0.iter_caps().len(), 2);

    let both = hello_bytes(&ours);
    assert!(!UnauthedP2PStream::<()>::fits(&ours, FirstMessage::Bytes(&both)));
    assert!(UnauthedP2PStream::<()>::fits(&ours, FirstMessage::Timeout));

    // With another version the handshake does not come to the ids.
    ours.protocol_version = ProtocolVersion::V4;
    assert!(UnauthedP2PStream::<()>::fits(&ours, FirstMessage::Bytes(&both)));
}
