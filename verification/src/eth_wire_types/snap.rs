use vstd::prelude::*;
use crate::primitives::B256;
use crate::rlp::RlpError;
use crate::rlp_payload::{
    decode_payload, encode_payload, lemma_sound_round_trip, payload_read,
    payload_wire,
};
use crate::rlp_types::{Bytes, Listed};

verus! {

/// A request for accounts: request id, state root, first and last hash, and how many bytes the
/// response may have.
pub type GetAccountRange = Listed<(u64, (B256, (B256, (B256, u64))))>;

/// Accounts: request id, hash and body of each account, and the proof.
pub type AccountRange = Listed<(u64, (Vec<Listed<(B256, Bytes)>>, Vec<Bytes>))>;

/// A request for storage slots: request id, state root, accounts, first and last hash, and how
/// many bytes the response may have.
pub type GetStorageRanges = Listed<(u64, (B256, (Vec<B256>, (B256, (B256, u64)))))>;

/// Storage slots: request id, hash and data of each slot by account, and the proof.
pub type StorageRanges = Listed<(u64, (Vec<Vec<Listed<(B256, Bytes)>>>, Vec<Bytes>))>;

/// A request for byte codes: request id, hashes, and how many bytes the response may have.
pub type GetByteCodes = Listed<(u64, (Vec<B256>, u64))>;

/// Byte codes: request id and codes.
pub type ByteCodes = Listed<(u64, Vec<Bytes>)>;

/// A request for trie nodes: request id, state root, paths, and how many bytes the response may
/// have.
pub type GetTrieNodes = Listed<(u64, (B256, (Vec<Listed<Vec<Bytes>>>, u64)))>;

/// Trie nodes: request id and nodes.
pub type TrieNodes = Listed<(u64, Vec<Bytes>)>;

/// The largest id of the `snap` protocol, that of trie nodes.
pub const MAX_SNAP_MESSAGE_ID: u8 = 0x07;

/// A message of the `snap` protocol.
#[derive(Clone, Debug, PartialEq, Eq)]
pub enum SnapProtocolMessage {
    GetAccountRange(GetAccountRange),
    AccountRange(AccountRange),
    GetStorageRanges(GetStorageRanges),
    StorageRanges(StorageRanges),
    GetByteCodes(GetByteCodes),
    ByteCodes(ByteCodes),
    GetTrieNodes(GetTrieNodes),
    TrieNodes(TrieNodes),
}

/// What a message of the `snap` protocol says.
pub ghost enum SnapModel {
    GetAccountRange(<GetAccountRange as DeepView>::V),
    AccountRange(<AccountRange as DeepView>::V),
    GetStorageRanges(<GetStorageRanges as DeepView>::V),
    StorageRanges(<StorageRanges as DeepView>::V),
    GetByteCodes(<GetByteCodes as DeepView>::V),
    ByteCodes(<ByteCodes as DeepView>::V),
    GetTrieNodes(<GetTrieNodes as DeepView>::V),
    TrieNodes(<TrieNodes as DeepView>::V),
}

impl SnapModel {
    /// The byte of the id.
    pub open spec fn byte(self) -> u8 {
        match self {
            SnapModel::GetAccountRange(_) => 0x00,
            SnapModel::AccountRange(_) => 0x01,
            SnapModel::GetStorageRanges(_) => 0x02,
            SnapModel::StorageRanges(_) => 0x03,
            SnapModel::GetByteCodes(_) => 0x04,
            SnapModel::ByteCodes(_) => 0x05,
            SnapModel::GetTrieNodes(_) => 0x06,
            SnapModel::TrieNodes(_) => 0x07,
        }
    }

    /// The encoding of the payload.
    pub open spec fn wire(self) -> Seq<u8> {
        match self {
            SnapModel::GetAccountRange(m) => payload_wire::<GetAccountRange>(m),
            SnapModel::AccountRange(m) => payload_wire::<AccountRange>(m),
            SnapModel::GetStorageRanges(m) => payload_wire::<GetStorageRanges>(m),
            SnapModel::StorageRanges(m) => payload_wire::<StorageRanges>(m),
            SnapModel::GetByteCodes(m) => payload_wire::<GetByteCodes>(m),
            SnapModel::ByteCodes(m) => payload_wire::<ByteCodes>(m),
            SnapModel::GetTrieNodes(m) => payload_wire::<GetTrieNodes>(m),
            SnapModel::TrieNodes(m) => payload_wire::<TrieNodes>(m),
        }
    }
}

/// What reading the payload of a message of this id gives.
pub open spec fn read_snap(id: u8, buf: Seq<u8>) -> Result<SnapModel, RlpError> {
    match id {
        0x00 => match payload_read::<GetAccountRange>(buf) {
            Ok((m, _)) => Ok(SnapModel::GetAccountRange(m)),
            Err(e) => Err(e),
        },
        0x01 => match payload_read::<AccountRange>(buf) {
            Ok((m, _)) => Ok(SnapModel::AccountRange(m)),
            Err(e) => Err(e),
        },
        0x02 => match payload_read::<GetStorageRanges>(buf) {
            Ok((m, _)) => Ok(SnapModel::GetStorageRanges(m)),
            Err(e) => Err(e),
        },
        0x03 => match payload_read::<StorageRanges>(buf) {
            Ok((m, _)) => Ok(SnapModel::StorageRanges(m)),
            Err(e) => Err(e),
        },
        0x04 => match payload_read::<GetByteCodes>(buf) {
            Ok((m, _)) => Ok(SnapModel::GetByteCodes(m)),
            Err(e) => Err(e),
        },
        0x05 => match payload_read::<ByteCodes>(buf) {
            Ok((m, _)) => Ok(SnapModel::ByteCodes(m)),
            Err(e) => Err(e),
        },
        0x06 => match payload_read::<GetTrieNodes>(buf) {
            Ok((m, _)) => Ok(SnapModel::GetTrieNodes(m)),
            Err(e) => Err(e),
        },
        0x07 => match payload_read::<TrieNodes>(buf) {
            Ok((m, _)) => Ok(SnapModel::TrieNodes(m)),
            Err(e) => Err(e),
        },
        _ => Err(RlpError::Custom("Unknown message ID")),
    }
}

impl SnapProtocolMessage {
    /// What the message says.
    pub open spec fn model(self) -> SnapModel {
        match self {
            SnapProtocolMessage::GetAccountRange(m) => SnapModel::GetAccountRange(m.deep_view()),
            SnapProtocolMessage::AccountRange(m) => SnapModel::AccountRange(m.deep_view()),
            SnapProtocolMessage::GetStorageRanges(m) => SnapModel::GetStorageRanges(m.deep_view()),
            SnapProtocolMessage::StorageRanges(m) => SnapModel::StorageRanges(m.deep_view()),
            SnapProtocolMessage::GetByteCodes(m) => SnapModel::GetByteCodes(m.deep_view()),
            SnapProtocolMessage::ByteCodes(m) => SnapModel::ByteCodes(m.deep_view()),
            SnapProtocolMessage::GetTrieNodes(m) => SnapModel::GetTrieNodes(m.deep_view()),
            SnapProtocolMessage::TrieNodes(m) => SnapModel::TrieNodes(m.deep_view()),
        }
    }

    /// The byte of the id.
    pub fn id(&self) -> (r: u8)
        ensures
            r == self.model().byte(),
    {
        match self {
            SnapProtocolMessage::GetAccountRange(_) => 0x00,
            SnapProtocolMessage::AccountRange(_) => 0x01,
            SnapProtocolMessage::GetStorageRanges(_) => 0x02,
            SnapProtocolMessage::StorageRanges(_) => 0x03,
            SnapProtocolMessage::GetByteCodes(_) => 0x04,
            SnapProtocolMessage::ByteCodes(_) => 0x05,
            SnapProtocolMessage::GetTrieNodes(_) => 0x06,
            SnapProtocolMessage::TrieNodes(_) => 0x07,
        }
    }

    /// Appends the encoding of the payload.
    pub fn encode(&self, out: &mut Vec<u8>)
        requires
            self.model().wire().len() <= usize::MAX,
        ensures
            final(out)@ == old(out)@ + self.model().wire(),
    {
        match self {
            SnapProtocolMessage::GetAccountRange(m) => encode_payload(m, out),
            SnapProtocolMessage::AccountRange(m) => encode_payload(m, out),
            SnapProtocolMessage::GetStorageRanges(m) => encode_payload(m, out),
            SnapProtocolMessage::StorageRanges(m) => encode_payload(m, out),
            SnapProtocolMessage::GetByteCodes(m) => encode_payload(m, out),
            SnapProtocolMessage::ByteCodes(m) => encode_payload(m, out),
            SnapProtocolMessage::GetTrieNodes(m) => encode_payload(m, out),
            SnapProtocolMessage::TrieNodes(m) => encode_payload(m, out),
        }
    }

    /// Reads the payload of a message of this id from the front of `bytes`.
    pub fn decode(id: u8, bytes: &[u8]) -> (r: Result<SnapProtocolMessage, RlpError>)
        ensures
            match read_snap(id, bytes@) {
                Ok(m) => r is Ok && r->Ok_0.model() == m,
                Err(e) => r == Err::<SnapProtocolMessage, RlpError>(e),
            },
    {
        let mut buf = bytes;
        match id {
            0x00 => match decode_payload::<GetAccountRange>(&mut buf) {
                Ok(m) => Ok(SnapProtocolMessage::GetAccountRange(m)),
                Err(e) => Err(e),
            },
            0x01 => match decode_payload::<AccountRange>(&mut buf) {
                Ok(m) => Ok(SnapProtocolMessage::AccountRange(m)),
                Err(e) => Err(e),
            },
            0x02 => match decode_payload::<GetStorageRanges>(&mut buf) {
                Ok(m) => Ok(SnapProtocolMessage::GetStorageRanges(m)),
                Err(e) => Err(e),
            },
            0x03 => match decode_payload::<StorageRanges>(&mut buf) {
                Ok(m) => Ok(SnapProtocolMessage::StorageRanges(m)),
                Err(e) => Err(e),
            },
            0x04 => match decode_payload::<GetByteCodes>(&mut buf) {
                Ok(m) => Ok(SnapProtocolMessage::GetByteCodes(m)),
                Err(e) => Err(e),
            },
            0x05 => match decode_payload::<ByteCodes>(&mut buf) {
                Ok(m) => Ok(SnapProtocolMessage::ByteCodes(m)),
                Err(e) => Err(e),
            },
            0x06 => match decode_payload::<GetTrieNodes>(&mut buf) {
                Ok(m) => Ok(SnapProtocolMessage::GetTrieNodes(m)),
                Err(e) => Err(e),
            },
            0x07 => match decode_payload::<TrieNodes>(&mut buf) {
                Ok(m) => Ok(SnapProtocolMessage::TrieNodes(m)),
                Err(e) => Err(e),
            },
            _ => Err(RlpError::Custom("Unknown message ID")),
        }
    }
}

/// Every message of the `snap` protocol is read back from its own encoding.
pub proof fn lemma_snap_round_trip(m: SnapModel)
    requires
        m.wire().len() <= usize::MAX,
    ensures
        read_snap(m.byte(), m.wire()) == Ok::<SnapModel, RlpError>(m),
{
    match m {
        SnapModel::GetAccountRange(v) => lemma_sound_round_trip::<GetAccountRange>(v),
        SnapModel::AccountRange(v) => lemma_sound_round_trip::<AccountRange>(v),
        SnapModel::GetStorageRanges(v) => lemma_sound_round_trip::<GetStorageRanges>(v),
        SnapModel::StorageRanges(v) => lemma_sound_round_trip::<StorageRanges>(v),
        SnapModel::GetByteCodes(v) => lemma_sound_round_trip::<GetByteCodes>(v),
        SnapModel::ByteCodes(v) => lemma_sound_round_trip::<ByteCodes>(v),
        SnapModel::GetTrieNodes(v) => lemma_sound_round_trip::<GetTrieNodes>(v),
        SnapModel::TrieNodes(v) => lemma_sound_round_trip::<TrieNodes>(v),
    }
}

/// The id of each message, and what is read under an id is the message that has it.
pub proof fn lemma_snap_ids(m: SnapModel, id: u8, buf: Seq<u8>)
    ensures
        m is GetAccountRange <==> m.byte() == 0x00,
        m is AccountRange <==> m.byte() == 0x01,
        m is GetStorageRanges <==> m.byte() == 0x02,
        m is StorageRanges <==> m.byte() == 0x03,
        m is GetByteCodes <==> m.byte() == 0x04,
        m is ByteCodes <==> m.byte() == 0x05,
        m is GetTrieNodes <==> m.byte() == 0x06,
        m is TrieNodes <==> m.byte() == 0x07,
        read_snap(id, buf) matches Ok(read) ==> read.byte() == id,
        id > 0x07 ==> read_snap(id, buf) is Err,
{
}

} // verus!
