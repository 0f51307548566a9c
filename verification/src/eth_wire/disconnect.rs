use vstd::prelude::*;
use crate::rlp::{advance, decode_header, lemma_header_within, read_header, Rlp, RlpError};

verus! {

/// Why a peer ends a session.
#[derive(Clone, Copy, Debug, PartialEq, Eq, Structural)]
pub enum DisconnectReason {
    DisconnectRequested,
    TcpSubsystemError,
    ProtocolBreach,
    UselessPeer,
    TooManyPeers,
    AlreadyConnected,
    IncompatibleP2PProtocolVersion,
    NullNodeIdentity,
    ClientQuitting,
    UnexpectedHandshakeIdentity,
    ConnectedToSelf,
    PingTimeout,
    SubprotocolSpecific,
}

/// The reason that a byte stands for.
pub open spec fn reason_of(b: u8) -> Option<DisconnectReason> {
    match b {
        0x00 => Some(DisconnectReason::DisconnectRequested),
        0x01 => Some(DisconnectReason::TcpSubsystemError),
        0x02 => Some(DisconnectReason::ProtocolBreach),
        0x03 => Some(DisconnectReason::UselessPeer),
        0x04 => Some(DisconnectReason::TooManyPeers),
        0x05 => Some(DisconnectReason::AlreadyConnected),
        0x06 => Some(DisconnectReason::IncompatibleP2PProtocolVersion),
        0x07 => Some(DisconnectReason::NullNodeIdentity),
        0x08 => Some(DisconnectReason::ClientQuitting),
        0x09 => Some(DisconnectReason::UnexpectedHandshakeIdentity),
        0x0a => Some(DisconnectReason::ConnectedToSelf),
        0x0b => Some(DisconnectReason::PingTimeout),
        0x10 => Some(DisconnectReason::SubprotocolSpecific),
        _ => None,
    }
}

/// The reason that `buf` as a whole gives: a byte, or a list of one byte. The byte zero is
/// accepted in place of the empty string.
pub open spec fn read_reason(buf: Seq<u8>) -> Result<DisconnectReason, RlpError> {
    if buf.len() == 0 {
        Err(RlpError::InputTooShort)
    } else if buf.len() > 2 {
        Err(RlpError::Overflow)
    } else if buf.len() == 2 {
        match read_header(buf) {
            Err(e) => Err(e),
            Ok(h) => if !h.list {
                Err(RlpError::UnexpectedString)
            } else if h.payload_length != 1 {
                Err(RlpError::ListLengthMismatch { expected: 1, got: h.payload_length })
            } else {
                read_reason_byte(buf.skip(h.header_length as int))
            },
        }
    } else {
        read_reason_byte(buf)
    }
}

/// The reason of a byte.
pub open spec fn read_reason_byte(buf: Seq<u8>) -> Result<DisconnectReason, RlpError> {
    if buf[0] == 0 {
        Ok(DisconnectReason::DisconnectRequested)
    } else {
        match u8::read(buf) {
            Err(e) => Err(e),
            Ok((b, n)) => match reason_of(b) {
                Some(reason) => Ok(reason),
                None => Err(RlpError::Custom("unknown disconnect reason")),
            },
        }
    }
}

impl DisconnectReason {
    /// The byte of the reason.
    pub open spec fn byte(self) -> u8 {
        match self {
            DisconnectReason::DisconnectRequested => 0x00,
            DisconnectReason::TcpSubsystemError => 0x01,
            DisconnectReason::ProtocolBreach => 0x02,
            DisconnectReason::UselessPeer => 0x03,
            DisconnectReason::TooManyPeers => 0x04,
            DisconnectReason::AlreadyConnected => 0x05,
            DisconnectReason::IncompatibleP2PProtocolVersion => 0x06,
            DisconnectReason::NullNodeIdentity => 0x07,
            DisconnectReason::ClientQuitting => 0x08,
            DisconnectReason::UnexpectedHandshakeIdentity => 0x09,
            DisconnectReason::ConnectedToSelf => 0x0a,
            DisconnectReason::PingTimeout => 0x0b,
            DisconnectReason::SubprotocolSpecific => 0x10,
        }
    }

    /// The encoding: a list of the one byte.
    pub open spec fn wire(self) -> Seq<u8> {
        seq![0xc1u8, if self.byte() == 0 { 0x80 } else { self.byte() }]
    }

    /// The byte of the reason.
    pub fn to_u8(self) -> (r: u8)
        ensures
            r == self.byte(),
    {
        match self {
            DisconnectReason::DisconnectRequested => 0x00,
            DisconnectReason::TcpSubsystemError => 0x01,
            DisconnectReason::ProtocolBreach => 0x02,
            DisconnectReason::UselessPeer => 0x03,
            DisconnectReason::TooManyPeers => 0x04,
            DisconnectReason::AlreadyConnected => 0x05,
            DisconnectReason::IncompatibleP2PProtocolVersion => 0x06,
            DisconnectReason::NullNodeIdentity => 0x07,
            DisconnectReason::ClientQuitting => 0x08,
            DisconnectReason::UnexpectedHandshakeIdentity => 0x09,
            DisconnectReason::ConnectedToSelf => 0x0a,
            DisconnectReason::PingTimeout => 0x0b,
            DisconnectReason::SubprotocolSpecific => 0x10,
        }
    }

    /// The reason that a byte stands for.
    pub fn from_u8(b: u8) -> (r: Option<DisconnectReason>)
        ensures
            r == reason_of(b),
    {
        match b {
            0x00 => Some(DisconnectReason::DisconnectRequested),
            0x01 => Some(DisconnectReason::TcpSubsystemError),
            0x02 => Some(DisconnectReason::ProtocolBreach),
            0x03 => Some(DisconnectReason::UselessPeer),
            0x04 => Some(DisconnectReason::TooManyPeers),
            0x05 => Some(DisconnectReason::AlreadyConnected),
            0x06 => Some(DisconnectReason::IncompatibleP2PProtocolVersion),
            0x07 => Some(DisconnectReason::NullNodeIdentity),
            0x08 => Some(DisconnectReason::ClientQuitting),
            0x09 => Some(DisconnectReason::UnexpectedHandshakeIdentity),
            0x0a => Some(DisconnectReason::ConnectedToSelf),
            0x0b => Some(DisconnectReason::PingTimeout),
            0x10 => Some(DisconnectReason::SubprotocolSpecific),
            _ => None,
        }
    }

    /// Appends the encoding.
    pub fn encode(&self, out: &mut Vec<u8>)
        ensures
            final(out)@ == old(out)@ + self.wire(),
    {
        let ghost front = out@;
        let b: u8 = self.to_u8();
        out.push(0xc1);
        out.push(if b == 0 { 0x80 } else { b });
        proof {
            assert(out@ =~= front + self.wire());
        }
    }

    /// The length of the encoding.
    pub fn length(&self) -> (n: usize)
        ensures
            n == self.wire().len(),
    {
        2
    }

    /// The reason that `buf` as a whole gives.
    pub fn decode(buf: &[u8]) -> (r: Result<DisconnectReason, RlpError>)
        ensures
            r == read_reason(buf@),
    {
        if buf.len() == 0 {
            return Err(RlpError::InputTooShort);
        }
        if buf.len() > 2 {
            return Err(RlpError::Overflow);
        }
        let mut rest = buf;
        if buf.len() == 2 {
            proof {
                lemma_header_within(buf@);
            }
            match decode_header(buf) {
                Err(e) => {
                    return Err(e);
                },
                Ok(h) => {
                    if !h.list {
                        return Err(RlpError::UnexpectedString);
                    }
                    if h.payload_length != 1 {
                        return Err(
                            RlpError::ListLengthMismatch { expected: 1, got: h.payload_length },
                        );
                    }
                    advance(&mut rest, h.header_length);
                },
            }
        }
        if rest[0] == 0 {
            return Ok(DisconnectReason::DisconnectRequested);
        }
        match u8::decode(&mut rest) {
            Err(e) => Err(e),
            Ok(b) => match DisconnectReason::from_u8(b) {
                Some(reason) => Ok(reason),
                None => Err(RlpError::Custom("unknown disconnect reason")),
            },
        }
    }
}

/// A reason is read back from its encoding.
pub proof fn lemma_reason_round_trip(reason: DisconnectReason)
    ensures
        read_reason(reason.wire()) == Ok::<DisconnectReason, RlpError>(reason),
{
    let buf = reason.wire();
    let b = reason.byte();
    assert(buf.skip(1) =~= seq![if b == 0 { 0x80u8 } else { b }]);
    let byte = buf.skip(1);
    if b == 0 {
        assert(crate::rlp::read_string(byte)->Ok_0.0 =~= Seq::<u8>::empty());
    } else {
        assert(crate::rlp::read_string(byte)->Ok_0.0 =~= seq![b]);
        assert(seq![b].drop_last() =~= Seq::<u8>::empty());
        reveal_with_fuel(crate::rlp::be_value, 2);
    }
}

/// Each reason has a byte of its own, by which it is found, and no other byte stands for one.
pub proof fn lemma_reason_bytes(reason: DisconnectReason, b: u8)
    ensures
        reason_of(reason.byte()) == Some(reason),
        reason_of(b) matches Some(found) ==> found.byte() == b,
        reason_of(b) is Some <==> b <= 0x0b || b == 0x10,
{
}

/// A reason is also read from its byte alone, without a list around it, and zero from the byte as
/// well as from the empty string.
pub proof fn lemma_reason_alone(reason: DisconnectReason)
    ensures
        read_reason(seq![reason.byte()]) == Ok::<DisconnectReason, RlpError>(reason),
        reason.byte() == 0 ==> read_reason(seq![0x80u8]) == Ok::<DisconnectReason, RlpError>(
            reason,
        ),
{
    let buf = seq![reason.byte()];
    reveal_with_fuel(crate::rlp::be_value, 2);
    if reason.byte() != 0 {
        assert(buf.subrange(0, 1) =~= buf);
        assert(buf.drop_last() =~= Seq::empty());
    } else {
        let empty = seq![0x80u8];
        assert(empty.subrange(1, 1) =~= Seq::empty());
    }
}

/// A reason is read only from its byte, alone or as the one item of a list; zero may stand there as
/// itself too.
pub proof fn lemma_reason_is_a_byte(buf: Seq<u8>)
    ensures
        read_reason(buf) matches Ok(reason) ==> {
            &&& buf.len() == 1 || buf.len() == 2 && buf[0] == 0xc1
            &&& buf.last() == reason.byte() || reason.byte() == 0 && buf.last() == 0x80
        },
        buf.len() == 0 ==> read_reason(buf) == Err::<DisconnectReason, RlpError>(
            RlpError::InputTooShort,
        ),
        buf.len() > 2 ==> read_reason(buf) == Err::<DisconnectReason, RlpError>(RlpError::Overflow),
{
    if buf.len() == 1 {
        lemma_byte_is_reason(buf);
    } else if buf.len() == 2 {
        crate::rlp::lemma_header_is_canonical(buf);
        if let Ok(h) = read_header(buf) {
            if h.list && h.payload_length == 1 {
                assert(h.header_length == 1) by {
                    crate::rlp::lemma_header_within(buf);
                    assert(buf.take(h.header_length as int).len() == 1);
                }
                assert(buf.skip(1) =~= seq![buf[1]]);
                lemma_byte_is_reason(buf.skip(1));
                assert(buf.take(1)[0] == buf[0]);
            }
        }
    }
}

/// One byte is read as the reason that it is, and 0x80 as zero.
proof fn lemma_byte_is_reason(buf: Seq<u8>)
    requires
        buf.len() == 1,
    ensures
        read_reason_byte(buf) matches Ok(reason) ==> buf[0] == reason.byte() || reason.byte() == 0
            && buf[0] == 0x80,
{
    reveal_with_fuel(crate::rlp::be_value, 2);
    if buf[0] != 0 {
        if buf[0] < 0x80 {
            assert(buf.subrange(0, 1) =~= buf);
            assert(buf.drop_last() =~= Seq::empty());
        } else if buf[0] == 0x80 {
            assert(buf.subrange(1, 1) =~= Seq::empty());
        }
    }
}

} // verus!
