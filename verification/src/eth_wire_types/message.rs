use vstd::prelude::*;
use vstd::string::StringExecFns;
use crate::text::{decimal, push_decimal};
use vstd::slice::slice_to_vec;
use crate::primitives::B256;
use crate::rlp::{
    advance, decode_header, encode_header, header_bytes, lemma_header_round_trip,
    lemma_header_within, length_of_length, list_bytes, read_header, Rlp, RlpError,
};
use crate::rlp_payload::{
    encode_payload, lemma_payload_round_trip, payload_length, payload_read, payload_sound,
    payload_wire,
};
use crate::rlp_types::{encode_pair, pair_length, Bytes};
use crate::eth_wire_types::items::{
    BlockBody, BlockHeader, PooledTransaction, Receipt, ReceiptWithBloom, Transaction,
};
use crate::eth_wire_types::payloads::{
    BlockHashNumber, BlockRangeUpdate, GetBlockHeaders, GetReceipts70, NewBlock,
    NewPooledTransactionHashes68, Receipts70,
};
use crate::eth_wire_types::status::{Status, StatusEth69, StatusMessage};
use crate::eth_wire_types::version::EthVersion;

verus! {

/// The largest `eth` message that is accepted, 10 MiB.
pub const MAX_MESSAGE_SIZE: usize = 10 * 1024 * 1024;

/// Why bytes are no message.
#[derive(Clone, Debug, PartialEq, Eq)]
pub enum MessageError {
    /// The version does not have messages of this id.
    Invalid(EthVersion, EthMessageID),
    /// The payload is not encoded as it should be.
    RlpError(RlpError),
    /// Any other reason.
    Other(String),
}

impl MessageError {
    /// What [`MessageError::message`] says.
    pub open spec fn text(self) -> Seq<char> {
        match self {
            MessageError::Invalid(version, id) => {
                "message id "@ + id.text() + " is invalid for version "@ + version.text()
            },
            MessageError::RlpError(e) => "RLP error: "@ + e.text(),
            MessageError::Other(text) => text@,
        }
    }

    /// The error in words.
    pub fn message(&self) -> (r: String)
        ensures
            r@ == self.text(),
    {
        match self {
            MessageError::Invalid(version, id) => {
                let mut r = "message id ".to_owned();
                r.append(id.name().as_str());
                r.append(" is invalid for version ");
                r.append(version.name());
                r
            },
            MessageError::RlpError(e) => {
                let mut r = "RLP error: ".to_owned();
                r.append(e.message().as_str());
                r
            },
            MessageError::Other(text) => text.clone(),
        }
    }
}

/// The ids of the messages of the `eth` protocol.
#[derive(Clone, Copy, Debug, PartialEq, Eq, Structural)]
pub enum EthMessageID {
    Status,
    NewBlockHashes,
    Transactions,
    GetBlockHeaders,
    BlockHeaders,
    GetBlockBodies,
    BlockBodies,
    NewBlock,
    NewPooledTransactionHashes,
    GetPooledTransactions,
    PooledTransactions,
    GetNodeData,
    NodeData,
    GetReceipts,
    Receipts,
    BlockRangeUpdate,
    /// An id that the protocol does not know.
    Other(u8),
}

/// The id that a byte stands for.
pub open spec fn message_id_of(b: u8) -> EthMessageID {
    if b == 0x00 {
        EthMessageID::Status
    } else if b == 0x01 {
        EthMessageID::NewBlockHashes
    } else if b == 0x02 {
        EthMessageID::Transactions
    } else if b == 0x03 {
        EthMessageID::GetBlockHeaders
    } else if b == 0x04 {
        EthMessageID::BlockHeaders
    } else if b == 0x05 {
        EthMessageID::GetBlockBodies
    } else if b == 0x06 {
        EthMessageID::BlockBodies
    } else if b == 0x07 {
        EthMessageID::NewBlock
    } else if b == 0x08 {
        EthMessageID::NewPooledTransactionHashes
    } else if b == 0x09 {
        EthMessageID::GetPooledTransactions
    } else if b == 0x0a {
        EthMessageID::PooledTransactions
    } else if b == 0x0d {
        EthMessageID::GetNodeData
    } else if b == 0x0e {
        EthMessageID::NodeData
    } else if b == 0x0f {
        EthMessageID::GetReceipts
    } else if b == 0x10 {
        EthMessageID::Receipts
    } else if b == 0x11 {
        EthMessageID::BlockRangeUpdate
    } else {
        EthMessageID::Other(b)
    }
}

impl EthMessageID {
    /// The byte of the id.
    pub open spec fn byte(self) -> u8 {
        match self {
            EthMessageID::Status => 0x00,
            EthMessageID::NewBlockHashes => 0x01,
            EthMessageID::Transactions => 0x02,
            EthMessageID::GetBlockHeaders => 0x03,
            EthMessageID::BlockHeaders => 0x04,
            EthMessageID::GetBlockBodies => 0x05,
            EthMessageID::BlockBodies => 0x06,
            EthMessageID::NewBlock => 0x07,
            EthMessageID::NewPooledTransactionHashes => 0x08,
            EthMessageID::GetPooledTransactions => 0x09,
            EthMessageID::PooledTransactions => 0x0a,
            EthMessageID::GetNodeData => 0x0d,
            EthMessageID::NodeData => 0x0e,
            EthMessageID::GetReceipts => 0x0f,
            EthMessageID::Receipts => 0x10,
            EthMessageID::BlockRangeUpdate => 0x11,
            EthMessageID::Other(value) => value,
        }
    }

    /// The name of the id.
    pub open spec fn text(self) -> Seq<char> {
        match self {
            EthMessageID::Status => "Status"@,
            EthMessageID::NewBlockHashes => "NewBlockHashes"@,
            EthMessageID::Transactions => "Transactions"@,
            EthMessageID::GetBlockHeaders => "GetBlockHeaders"@,
            EthMessageID::BlockHeaders => "BlockHeaders"@,
            EthMessageID::GetBlockBodies => "GetBlockBodies"@,
            EthMessageID::BlockBodies => "BlockBodies"@,
            EthMessageID::NewBlock => "NewBlock"@,
            EthMessageID::NewPooledTransactionHashes => "NewPooledTransactionHashes"@,
            EthMessageID::GetPooledTransactions => "GetPooledTransactions"@,
            EthMessageID::PooledTransactions => "PooledTransactions"@,
            EthMessageID::GetNodeData => "GetNodeData"@,
            EthMessageID::NodeData => "NodeData"@,
            EthMessageID::GetReceipts => "GetReceipts"@,
            EthMessageID::Receipts => "Receipts"@,
            EthMessageID::BlockRangeUpdate => "BlockRangeUpdate"@,
            EthMessageID::Other(id) => "Other("@ + decimal(id as nat) + ")"@,
        }
    }

    /// The name of the id.
    pub fn name(&self) -> (r: String)
        ensures
            r@ == self.text(),
    {
        let known: &str = match self {
            EthMessageID::Status => "Status",
            EthMessageID::NewBlockHashes => "NewBlockHashes",
            EthMessageID::Transactions => "Transactions",
            EthMessageID::GetBlockHeaders => "GetBlockHeaders",
            EthMessageID::BlockHeaders => "BlockHeaders",
            EthMessageID::GetBlockBodies => "GetBlockBodies",
            EthMessageID::BlockBodies => "BlockBodies",
            EthMessageID::NewBlock => "NewBlock",
            EthMessageID::NewPooledTransactionHashes => "NewPooledTransactionHashes",
            EthMessageID::GetPooledTransactions => "GetPooledTransactions",
            EthMessageID::PooledTransactions => "PooledTransactions",
            EthMessageID::GetNodeData => "GetNodeData",
            EthMessageID::NodeData => "NodeData",
            EthMessageID::GetReceipts => "GetReceipts",
            EthMessageID::Receipts => "Receipts",
            EthMessageID::BlockRangeUpdate => "BlockRangeUpdate",
            EthMessageID::Other(id) => {
                let mut r = "Other(".to_owned();
                push_decimal(&mut r, *id as u64);
                r.append(")");
                return r;
            },
        };
        known.to_owned()
    }

    /// The byte of the id.
    pub fn to_u8(&self) -> (r: u8)
        ensures
            r == self.byte(),
    {
        match self {
            EthMessageID::Status => 0x00,
            EthMessageID::NewBlockHashes => 0x01,
            EthMessageID::Transactions => 0x02,
            EthMessageID::GetBlockHeaders => 0x03,
            EthMessageID::BlockHeaders => 0x04,
            EthMessageID::GetBlockBodies => 0x05,
            EthMessageID::BlockBodies => 0x06,
            EthMessageID::NewBlock => 0x07,
            EthMessageID::NewPooledTransactionHashes => 0x08,
            EthMessageID::GetPooledTransactions => 0x09,
            EthMessageID::PooledTransactions => 0x0a,
            EthMessageID::GetNodeData => 0x0d,
            EthMessageID::NodeData => 0x0e,
            EthMessageID::GetReceipts => 0x0f,
            EthMessageID::Receipts => 0x10,
            EthMessageID::BlockRangeUpdate => 0x11,
            EthMessageID::Other(value) => *value,
        }
    }

    /// The largest id of a version: from `eth/69` on there are block range updates.
    pub open spec fn spec_max(version: EthVersion) -> u8 {
        if version.number() >= 69 {
            0x11
        } else {
            0x10
        }
    }

    /// The largest id of a version.
    pub fn max(version: EthVersion) -> (r: u8)
        ensures
            r == Self::spec_max(version),
    {
        if version.to_u8() >= 69 {
            EthMessageID::BlockRangeUpdate.to_u8()
        } else {
            EthMessageID::Receipts.to_u8()
        }
    }

    /// How many ids a version takes, by which the ids of several protocols are kept apart.
    pub fn message_count(version: EthVersion) -> (r: u8)
        ensures
            r == Self::spec_max(version) + 1,
    {
        Self::max(version) + 1
    }

    /// Appends the byte of the id.
    pub fn encode(&self, out: &mut Vec<u8>)
        ensures
            final(out)@ == old(out)@ + seq![self.byte()],
    {
        let ghost front = out@;
        out.push(self.to_u8());
        proof {
            assert(out@ =~= front + seq![self.byte()]);
        }
    }

    /// The length of the encoding.
    pub fn length(&self) -> (n: usize)
        ensures
            n == 1,
    {
        1
    }

    /// Reads the id at the front of `buf` and moves the front behind it.
    pub fn decode(buf: &mut &[u8]) -> (r: Result<EthMessageID, RlpError>)
        ensures
            old(buf)@.len() == 0 ==> r == Err::<EthMessageID, RlpError>(RlpError::InputTooShort),
            old(buf)@.len() > 0 ==> r == Ok::<EthMessageID, RlpError>(message_id_of(old(buf)@[0]))
                && final(buf)@ == old(buf)@.skip(1),
    {
        let bytes = *buf;
        if bytes.len() == 0 {
            return Err(RlpError::InputTooShort);
        }
        let id = match bytes[0] {
            0x00 => EthMessageID::Status,
            0x01 => EthMessageID::NewBlockHashes,
            0x02 => EthMessageID::Transactions,
            0x03 => EthMessageID::GetBlockHeaders,
            0x04 => EthMessageID::BlockHeaders,
            0x05 => EthMessageID::GetBlockBodies,
            0x06 => EthMessageID::BlockBodies,
            0x07 => EthMessageID::NewBlock,
            0x08 => EthMessageID::NewPooledTransactionHashes,
            0x09 => EthMessageID::GetPooledTransactions,
            0x0a => EthMessageID::PooledTransactions,
            0x0d => EthMessageID::GetNodeData,
            0x0e => EthMessageID::NodeData,
            0x0f => EthMessageID::GetReceipts,
            0x10 => EthMessageID::Receipts,
            0x11 => EthMessageID::BlockRangeUpdate,
            unknown => EthMessageID::Other(unknown),
        };
        advance(buf, 1);
        Ok(id)
    }

    /// The id of a number that the protocol knows.
    pub fn try_from(value: usize) -> (r: Result<EthMessageID, &'static str>)
        ensures
            r == (if value <= u8::MAX && !(message_id_of(value as u8) is Other) {
                Ok(message_id_of(value as u8))
            } else {
                Err("Invalid message ID")
            }),
    {
        match value {
            0x00 => Ok(EthMessageID::Status),
            0x01 => Ok(EthMessageID::NewBlockHashes),
            0x02 => Ok(EthMessageID::Transactions),
            0x03 => Ok(EthMessageID::GetBlockHeaders),
            0x04 => Ok(EthMessageID::BlockHeaders),
            0x05 => Ok(EthMessageID::GetBlockBodies),
            0x06 => Ok(EthMessageID::BlockBodies),
            0x07 => Ok(EthMessageID::NewBlock),
            0x08 => Ok(EthMessageID::NewPooledTransactionHashes),
            0x09 => Ok(EthMessageID::GetPooledTransactions),
            0x0a => Ok(EthMessageID::PooledTransactions),
            0x0d => Ok(EthMessageID::GetNodeData),
            0x0e => Ok(EthMessageID::NodeData),
            0x0f => Ok(EthMessageID::GetReceipts),
            0x10 => Ok(EthMessageID::Receipts),
            0x11 => Ok(EthMessageID::BlockRangeUpdate),
            _ => Err("Invalid message ID"),
        }
    }
}

/// An id is told from its byte, unless it claims not to be known and is.
pub proof fn lemma_message_id_round_trip(id: EthMessageID)
    requires
        id matches EthMessageID::Other(b) ==> message_id_of(b) is Other,
    ensures
        message_id_of(id.byte()) == id,
{
}

/// A message with the id that ties a response to its request.
#[derive(Clone, Debug, PartialEq, Eq)]
pub struct RequestPair<T> {
    pub request_id: u64,
    pub message: T,
}

impl<T> RequestPair<T> {
    /// The pair with another message in it.
    pub fn map<F, R>(self, f: F) -> (r: RequestPair<R>) where F: FnOnce(T) -> R
        requires
            f.requires((self.message,)),
        ensures
            r.request_id == self.request_id,
            f.ensures((self.message,), r.message),
    {
        let RequestPair { request_id, message } = self;
        RequestPair { request_id, message: f(message) }
    }
}

impl<T: DeepView> DeepView for RequestPair<T> {
    type V = RequestPair<T::V>;

    open spec fn deep_view(&self) -> RequestPair<T::V> {
        RequestPair { request_id: self.request_id, message: self.message.deep_view() }
    }
}

impl<T: Rlp> Rlp for RequestPair<T> {
    open spec fn wire(v: RequestPair<T::V>) -> Seq<u8> {
        list_bytes(u64::wire(v.request_id) + T::wire(v.message))
    }

    open spec fn sound(v: RequestPair<T::V>) -> bool {
        T::sound(v.message)
    }

    open spec fn read(buf: Seq<u8>) -> Result<(RequestPair<T::V>, int), RlpError> {
        match read_header(buf) {
            Err(e) => Err(e),
            Ok(h) => match <(u64, T)>::read(buf.skip(h.header_length as int)) {
                Err(e) => Err(e),
                Ok((v, n)) => if n != h.payload_length {
                    Err(RlpError::UnexpectedLength)
                } else {
                    Ok((RequestPair { request_id: v.0, message: v.1 }, h.header_length + n))
                },
            },
        }
    }

    fn encode(&self, out: &mut Vec<u8>) {
        let ghost front = out@;
        encode_header(true, pair_length(&self.request_id, &self.message), out);
        encode_pair(&self.request_id, &self.message, out);
        proof {
            assert(out@ =~= front + Self::wire(self.deep_view()));
        }
    }

    fn length(&self) -> (n: usize) {
        let payload_length: usize = pair_length(&self.request_id, &self.message);
        payload_length + length_of_length(payload_length)
    }

    fn decode(buf: &mut &[u8]) -> (r: Result<RequestPair<T>, RlpError>) {
        let bytes = *buf;
        proof {
            lemma_header_within(bytes@);
            assert(bytes@.len() == bytes.len());
        }
        match decode_header(bytes) {
            Err(e) => Err(e),
            Ok(h) => {
                advance(buf, h.header_length);
                let initial = *buf;
                proof {
                    <(u64, T)>::read_within(initial@);
                    assert(initial@.len() == initial.len());
                }
                match <(u64, T)>::decode(buf) {
                    Err(e) => Err(e),
                    Ok((request_id, message)) => {
                        let consumed: usize = initial.len() - buf.len();
                        if consumed != h.payload_length {
                            return Err(RlpError::UnexpectedLength);
                        }
                        proof {
                            assert(buf@ =~= bytes@.skip(h.header_length + consumed));
                        }
                        Ok(RequestPair { request_id, message })
                    },
                }
            },
        }
    }

    proof fn read_within(buf: Seq<u8>) {
        lemma_header_within(buf);
    }

    proof fn round_trip(v: RequestPair<T::V>, rest: Seq<u8>) {
        let payload = u64::wire(v.request_id) + T::wire(v.message);
        lemma_header_round_trip(true, payload, rest);
        let h = header_bytes(true, payload.len());
        let buf = list_bytes(payload) + rest;
        assert(buf =~= h + payload + rest);
        assert(buf.skip(h.len() as int) =~= payload + rest);
        <(u64, T)>::round_trip((v.request_id, v.message), rest);
    }
}

/// A message of a protocol that is not known here.
#[derive(Clone, Debug, PartialEq, Eq)]
pub struct RawCapabilityMessage {
    pub id: usize,
    pub payload: Vec<u8>,
}

impl RawCapabilityMessage {
    /// The message of this id and payload.
    pub fn new(id: usize, payload: Vec<u8>) -> (r: RawCapabilityMessage)
        ensures
            r.id == id,
            r.payload@ == payload@,
    {
        RawCapabilityMessage { id, payload }
    }
}

/// A message of the `eth` protocol.
///
/// Requests and responses carry a request id; the other messages are broadcast.
#[derive(Clone, Debug, PartialEq, Eq)]
pub enum EthMessage {
    /// The status by which a session starts.
    Status(StatusMessage),
    /// The hashes of new blocks.
    NewBlockHashes(Vec<BlockHashNumber>),
    /// A new block.
    NewBlock(NewBlock),
    /// New transactions.
    Transactions(Vec<Transaction>),
    /// The hashes of new transactions, before `eth/68`.
    NewPooledTransactionHashes66(Vec<B256>),
    /// The types, sizes and hashes of new transactions, from `eth/68` on.
    NewPooledTransactionHashes68(NewPooledTransactionHashes68),
    /// A request for block headers.
    GetBlockHeaders(RequestPair<GetBlockHeaders>),
    /// Block headers.
    BlockHeaders(RequestPair<Vec<BlockHeader>>),
    /// A request for the bodies of the blocks with these hashes.
    GetBlockBodies(RequestPair<Vec<B256>>),
    /// Block bodies.
    BlockBodies(RequestPair<Vec<BlockBody>>),
    /// A request for the transactions with these hashes.
    GetPooledTransactions(RequestPair<Vec<B256>>),
    /// Transactions out of the pool.
    PooledTransactions(RequestPair<Vec<PooledTransaction>>),
    /// A request for trie nodes, before `eth/67`.
    GetNodeData(RequestPair<Vec<B256>>),
    /// Trie nodes, before `eth/67`.
    NodeData(RequestPair<Vec<Bytes>>),
    /// A request for the receipts of the blocks with these hashes, before `eth/70`.
    GetReceipts(RequestPair<Vec<B256>>),
    /// A request for receipts from `eth/70` on.
    GetReceipts70(RequestPair<GetReceipts70>),
    /// Receipts with their bloom filters, before `eth/69`.
    Receipts(RequestPair<Vec<Vec<ReceiptWithBloom>>>),
    /// Receipts without bloom filters, in `eth/69`.
    Receipts69(RequestPair<Vec<Vec<Receipt>>>),
    /// Receipts from `eth/70` on.
    Receipts70(RequestPair<Receipts70>),
    /// The range of blocks served, from `eth/69` on.
    BlockRangeUpdate(BlockRangeUpdate),
    /// Anything else.
    Other(RawCapabilityMessage),
}

/// Reads a payload from the front of `buf` and moves the front behind it.
fn decode_payload<T: Rlp>(buf: &mut &[u8]) -> (r: Result<T, MessageError>)
    ensures
        match payload_read::<T>(old(buf)@) {
            Ok((v, n)) => {
                &&& r is Ok
                &&& r->Ok_0.deep_view() == v
                &&& final(buf)@ == old(buf)@.skip(n)
                &&& 0 < n <= old(buf)@.len()
            },
            Err(e) => r == Err::<T, MessageError>(MessageError::RlpError(e)),
        },
{
    match crate::rlp_payload::decode_payload::<T>(buf) {
        Ok(v) => Ok(v),
        Err(e) => Err(MessageError::RlpError(e)),
    }
}

/// What a message of the `eth` protocol says.
#[verifier::ext_equal]
pub ghost enum EthMessageModel {
    Status(StatusMessage),
    NewBlockHashes(<Vec<BlockHashNumber> as DeepView>::V),
    NewBlock(<NewBlock as DeepView>::V),
    Transactions(<Vec<Transaction> as DeepView>::V),
    NewPooledTransactionHashes66(<Vec<B256> as DeepView>::V),
    NewPooledTransactionHashes68(<NewPooledTransactionHashes68 as DeepView>::V),
    GetBlockHeaders(<RequestPair<GetBlockHeaders> as DeepView>::V),
    BlockHeaders(<RequestPair<Vec<BlockHeader>> as DeepView>::V),
    GetBlockBodies(<RequestPair<Vec<B256>> as DeepView>::V),
    BlockBodies(<RequestPair<Vec<BlockBody>> as DeepView>::V),
    GetPooledTransactions(<RequestPair<Vec<B256>> as DeepView>::V),
    PooledTransactions(<RequestPair<Vec<PooledTransaction>> as DeepView>::V),
    GetNodeData(<RequestPair<Vec<B256>> as DeepView>::V),
    NodeData(<RequestPair<Vec<Bytes>> as DeepView>::V),
    GetReceipts(<RequestPair<Vec<B256>> as DeepView>::V),
    GetReceipts70(<RequestPair<GetReceipts70> as DeepView>::V),
    Receipts(<RequestPair<Vec<Vec<ReceiptWithBloom>>> as DeepView>::V),
    Receipts69(<RequestPair<Vec<Vec<Receipt>>> as DeepView>::V),
    Receipts70(<RequestPair<Receipts70> as DeepView>::V),
    BlockRangeUpdate(<BlockRangeUpdate as DeepView>::V),
    Other(usize, Seq<u8>),
}

impl DeepView for EthMessage {
    type V = EthMessageModel;

    open spec fn deep_view(&self) -> EthMessageModel {
        match *self {
            EthMessage::Status(m) => EthMessageModel::Status(m),
            EthMessage::NewBlockHashes(m) => EthMessageModel::NewBlockHashes(m.deep_view()),
            EthMessage::NewBlock(m) => EthMessageModel::NewBlock(m.deep_view()),
            EthMessage::Transactions(m) => EthMessageModel::Transactions(m.deep_view()),
            EthMessage::NewPooledTransactionHashes66(m) => EthMessageModel::NewPooledTransactionHashes66(m.deep_view()),
            EthMessage::NewPooledTransactionHashes68(m) => EthMessageModel::NewPooledTransactionHashes68(m.deep_view()),
            EthMessage::GetBlockHeaders(m) => EthMessageModel::GetBlockHeaders(m.deep_view()),
            EthMessage::BlockHeaders(m) => EthMessageModel::BlockHeaders(m.deep_view()),
            EthMessage::GetBlockBodies(m) => EthMessageModel::GetBlockBodies(m.deep_view()),
            EthMessage::BlockBodies(m) => EthMessageModel::BlockBodies(m.deep_view()),
            EthMessage::GetPooledTransactions(m) => EthMessageModel::GetPooledTransactions(m.deep_view()),
            EthMessage::PooledTransactions(m) => EthMessageModel::PooledTransactions(m.deep_view()),
            EthMessage::GetNodeData(m) => EthMessageModel::GetNodeData(m.deep_view()),
            EthMessage::NodeData(m) => EthMessageModel::NodeData(m.deep_view()),
            EthMessage::GetReceipts(m) => EthMessageModel::GetReceipts(m.deep_view()),
            EthMessage::GetReceipts70(m) => EthMessageModel::GetReceipts70(m.deep_view()),
            EthMessage::Receipts(m) => EthMessageModel::Receipts(m.deep_view()),
            EthMessage::Receipts69(m) => EthMessageModel::Receipts69(m.deep_view()),
            EthMessage::Receipts70(m) => EthMessageModel::Receipts70(m.deep_view()),
            EthMessage::BlockRangeUpdate(m) => EthMessageModel::BlockRangeUpdate(m.deep_view()),
            EthMessage::Other(m) => EthMessageModel::Other(m.id, m.payload@),
        }
    }
}

impl EthMessageModel {
    /// The id of the message.
    pub open spec fn id(self) -> EthMessageID {
        match self {
            EthMessageModel::Status(_) => EthMessageID::Status,
            EthMessageModel::NewBlockHashes(_) => EthMessageID::NewBlockHashes,
            EthMessageModel::NewBlock(_) => EthMessageID::NewBlock,
            EthMessageModel::Transactions(_) => EthMessageID::Transactions,
            EthMessageModel::NewPooledTransactionHashes66(_) => EthMessageID::NewPooledTransactionHashes,
            EthMessageModel::NewPooledTransactionHashes68(_) => EthMessageID::NewPooledTransactionHashes,
            EthMessageModel::GetBlockHeaders(_) => EthMessageID::GetBlockHeaders,
            EthMessageModel::BlockHeaders(_) => EthMessageID::BlockHeaders,
            EthMessageModel::GetBlockBodies(_) => EthMessageID::GetBlockBodies,
            EthMessageModel::BlockBodies(_) => EthMessageID::BlockBodies,
            EthMessageModel::GetPooledTransactions(_) => EthMessageID::GetPooledTransactions,
            EthMessageModel::PooledTransactions(_) => EthMessageID::PooledTransactions,
            EthMessageModel::GetNodeData(_) => EthMessageID::GetNodeData,
            EthMessageModel::NodeData(_) => EthMessageID::NodeData,
            EthMessageModel::GetReceipts(_) => EthMessageID::GetReceipts,
            EthMessageModel::GetReceipts70(_) => EthMessageID::GetReceipts,
            EthMessageModel::Receipts(_) => EthMessageID::Receipts,
            EthMessageModel::Receipts69(_) => EthMessageID::Receipts,
            EthMessageModel::Receipts70(_) => EthMessageID::Receipts,
            EthMessageModel::BlockRangeUpdate(_) => EthMessageID::BlockRangeUpdate,
            EthMessageModel::Other(id, _) => EthMessageID::Other(id as u8),
        }
    }

    /// The encoding of the payload.
    pub open spec fn wire(self) -> Seq<u8> {
        match self {
            EthMessageModel::Status(StatusMessage::Legacy(m)) => payload_wire::<Status>(m),
            EthMessageModel::Status(StatusMessage::Eth69(m)) => payload_wire::<StatusEth69>(m),
            EthMessageModel::NewBlockHashes(m) => payload_wire::<Vec<BlockHashNumber>>(m),
            EthMessageModel::NewBlock(m) => payload_wire::<NewBlock>(m),
            EthMessageModel::Transactions(m) => payload_wire::<Vec<Transaction>>(m),
            EthMessageModel::NewPooledTransactionHashes66(m) => payload_wire::<Vec<B256>>(m),
            EthMessageModel::NewPooledTransactionHashes68(m) => payload_wire::<NewPooledTransactionHashes68>(m),
            EthMessageModel::GetBlockHeaders(m) => payload_wire::<RequestPair<GetBlockHeaders>>(m),
            EthMessageModel::BlockHeaders(m) => payload_wire::<RequestPair<Vec<BlockHeader>>>(m),
            EthMessageModel::GetBlockBodies(m) => payload_wire::<RequestPair<Vec<B256>>>(m),
            EthMessageModel::BlockBodies(m) => payload_wire::<RequestPair<Vec<BlockBody>>>(m),
            EthMessageModel::GetPooledTransactions(m) => payload_wire::<RequestPair<Vec<B256>>>(m),
            EthMessageModel::PooledTransactions(m) => payload_wire::<RequestPair<Vec<PooledTransaction>>>(m),
            EthMessageModel::GetNodeData(m) => payload_wire::<RequestPair<Vec<B256>>>(m),
            EthMessageModel::NodeData(m) => payload_wire::<RequestPair<Vec<Bytes>>>(m),
            EthMessageModel::GetReceipts(m) => payload_wire::<RequestPair<Vec<B256>>>(m),
            EthMessageModel::GetReceipts70(m) => payload_wire::<RequestPair<GetReceipts70>>(m),
            EthMessageModel::Receipts(m) => payload_wire::<RequestPair<Vec<Vec<ReceiptWithBloom>>>>(m),
            EthMessageModel::Receipts69(m) => payload_wire::<RequestPair<Vec<Vec<Receipt>>>>(m),
            EthMessageModel::Receipts70(m) => payload_wire::<RequestPair<Receipts70>>(m),
            EthMessageModel::BlockRangeUpdate(m) => payload_wire::<BlockRangeUpdate>(m),
            EthMessageModel::Other(_, payload) => payload,
        }
    }

    /// Whether the payload is one that its own encoding gives back.
    pub open spec fn sound(self) -> bool {
        match self {
            EthMessageModel::Status(StatusMessage::Legacy(m)) => payload_sound::<Status>(m),
            EthMessageModel::Status(StatusMessage::Eth69(m)) => payload_sound::<StatusEth69>(m),
            EthMessageModel::NewBlockHashes(m) => payload_sound::<Vec<BlockHashNumber>>(m),
            EthMessageModel::NewBlock(m) => payload_sound::<NewBlock>(m),
            EthMessageModel::Transactions(m) => payload_sound::<Vec<Transaction>>(m),
            EthMessageModel::NewPooledTransactionHashes66(m) => payload_sound::<Vec<B256>>(m),
            EthMessageModel::NewPooledTransactionHashes68(m) => payload_sound::<NewPooledTransactionHashes68>(m),
            EthMessageModel::GetBlockHeaders(m) => payload_sound::<RequestPair<GetBlockHeaders>>(m),
            EthMessageModel::BlockHeaders(m) => payload_sound::<RequestPair<Vec<BlockHeader>>>(m),
            EthMessageModel::GetBlockBodies(m) => payload_sound::<RequestPair<Vec<B256>>>(m),
            EthMessageModel::BlockBodies(m) => payload_sound::<RequestPair<Vec<BlockBody>>>(m),
            EthMessageModel::GetPooledTransactions(m) => payload_sound::<RequestPair<Vec<B256>>>(m),
            EthMessageModel::PooledTransactions(m) => payload_sound::<RequestPair<Vec<PooledTransaction>>>(m),
            EthMessageModel::GetNodeData(m) => payload_sound::<RequestPair<Vec<B256>>>(m),
            EthMessageModel::NodeData(m) => payload_sound::<RequestPair<Vec<Bytes>>>(m),
            EthMessageModel::GetReceipts(m) => payload_sound::<RequestPair<Vec<B256>>>(m),
            EthMessageModel::GetReceipts70(m) => payload_sound::<RequestPair<GetReceipts70>>(m),
            EthMessageModel::Receipts(m) => payload_sound::<RequestPair<Vec<Vec<ReceiptWithBloom>>>>(m),
            EthMessageModel::Receipts69(m) => payload_sound::<RequestPair<Vec<Vec<Receipt>>>>(m),
            EthMessageModel::Receipts70(m) => payload_sound::<RequestPair<Receipts70>>(m),
            EthMessageModel::BlockRangeUpdate(m) => payload_sound::<BlockRangeUpdate>(m),
            EthMessageModel::Other(id, _) => id <= u8::MAX && message_id_of(id as u8) is Other,
        }
    }

    /// Whether the message asks for something.
    pub open spec fn asks(self) -> bool {
        self is GetBlockBodies || self is GetBlockHeaders || self is GetReceipts || self
            is GetReceipts70 || self is GetPooledTransactions || self is GetNodeData
    }

    /// Whether the message answers a request.
    pub open spec fn answers(self) -> bool {
        self is PooledTransactions || self is Receipts || self is Receipts69 || self is Receipts70
            || self is BlockHeaders || self is BlockBodies || self is NodeData
    }

    /// Whether a version has the message, in this form.
    pub open spec fn fits(self, version: EthVersion) -> bool {
        match self {
            EthMessageModel::Status(m) => m is Eth69 <==> version.number() >= 69,
            EthMessageModel::NewBlockHashes(_) => true,
            EthMessageModel::NewBlock(_) => true,
            EthMessageModel::Transactions(_) => true,
            EthMessageModel::NewPooledTransactionHashes66(_) => version.number() < 68,
            EthMessageModel::NewPooledTransactionHashes68(_) => version.number() >= 68,
            EthMessageModel::GetBlockHeaders(_) => true,
            EthMessageModel::BlockHeaders(_) => true,
            EthMessageModel::GetBlockBodies(_) => true,
            EthMessageModel::BlockBodies(_) => true,
            EthMessageModel::GetPooledTransactions(_) => true,
            EthMessageModel::PooledTransactions(_) => true,
            EthMessageModel::GetNodeData(_) => version.number() < 67,
            EthMessageModel::NodeData(_) => version.number() < 67,
            EthMessageModel::GetReceipts(_) => version.number() < 70,
            EthMessageModel::GetReceipts70(_) => version.number() >= 70,
            EthMessageModel::Receipts(_) => version.number() < 69,
            EthMessageModel::Receipts69(_) => version.number() == 69,
            EthMessageModel::Receipts70(_) => version.number() >= 70,
            EthMessageModel::BlockRangeUpdate(_) => version.number() >= 69,
            EthMessageModel::Other(..) => true,
        }
    }
}

/// What reading the payload of a message of this id gives: the message and the bytes it takes.
pub open spec fn read_payload(version: EthVersion, id: EthMessageID, buf: Seq<u8>) -> Result<
    (EthMessageModel, int),
    MessageError,
> {
    match id {
        EthMessageID::Status => if version.number() < 69 {
            match payload_read::<Status>(buf) {
                Ok((m, n)) => Ok((EthMessageModel::Status(StatusMessage::Legacy(m)), n)),
                Err(e) => Err(MessageError::RlpError(e)),
            }
        } else {
            match payload_read::<StatusEth69>(buf) {
                Ok((m, n)) => Ok((EthMessageModel::Status(StatusMessage::Eth69(m)), n)),
                Err(e) => Err(MessageError::RlpError(e)),
            }
        },
        EthMessageID::NewBlockHashes => match payload_read::<Vec<BlockHashNumber>>(buf) {
            Ok((m, n)) => Ok((EthMessageModel::NewBlockHashes(m), n)),
            Err(e) => Err(MessageError::RlpError(e)),
        },
        EthMessageID::Transactions => match payload_read::<Vec<Transaction>>(buf) {
            Ok((m, n)) => Ok((EthMessageModel::Transactions(m), n)),
            Err(e) => Err(MessageError::RlpError(e)),
        },
        EthMessageID::GetBlockHeaders => match payload_read::<RequestPair<GetBlockHeaders>>(buf) {
            Ok((m, n)) => Ok((EthMessageModel::GetBlockHeaders(m), n)),
            Err(e) => Err(MessageError::RlpError(e)),
        },
        EthMessageID::BlockHeaders => match payload_read::<RequestPair<Vec<BlockHeader>>>(buf) {
            Ok((m, n)) => Ok((EthMessageModel::BlockHeaders(m), n)),
            Err(e) => Err(MessageError::RlpError(e)),
        },
        EthMessageID::GetBlockBodies => match payload_read::<RequestPair<Vec<B256>>>(buf) {
            Ok((m, n)) => Ok((EthMessageModel::GetBlockBodies(m), n)),
            Err(e) => Err(MessageError::RlpError(e)),
        },
        EthMessageID::BlockBodies => match payload_read::<RequestPair<Vec<BlockBody>>>(buf) {
            Ok((m, n)) => Ok((EthMessageModel::BlockBodies(m), n)),
            Err(e) => Err(MessageError::RlpError(e)),
        },
        EthMessageID::NewBlock => match payload_read::<NewBlock>(buf) {
            Ok((m, n)) => Ok((EthMessageModel::NewBlock(m), n)),
            Err(e) => Err(MessageError::RlpError(e)),
        },
        EthMessageID::NewPooledTransactionHashes => if version.number() >= 68 {
            match payload_read::<NewPooledTransactionHashes68>(buf) {
                Ok((m, n)) => Ok((EthMessageModel::NewPooledTransactionHashes68(m), n)),
                Err(e) => Err(MessageError::RlpError(e)),
            }
        } else {
            match payload_read::<Vec<B256>>(buf) {
                Ok((m, n)) => Ok((EthMessageModel::NewPooledTransactionHashes66(m), n)),
                Err(e) => Err(MessageError::RlpError(e)),
            }
        },
        EthMessageID::GetPooledTransactions => match payload_read::<RequestPair<Vec<B256>>>(buf) {
            Ok((m, n)) => Ok((EthMessageModel::GetPooledTransactions(m), n)),
            Err(e) => Err(MessageError::RlpError(e)),
        },
        EthMessageID::PooledTransactions => match payload_read::<RequestPair<Vec<PooledTransaction>>>(buf) {
            Ok((m, n)) => Ok((EthMessageModel::PooledTransactions(m), n)),
            Err(e) => Err(MessageError::RlpError(e)),
        },
        EthMessageID::GetNodeData => if version.number() >= 67 {
            Err(MessageError::Invalid(version, EthMessageID::GetNodeData))
        } else {
            match payload_read::<RequestPair<Vec<B256>>>(buf) {
                Ok((m, n)) => Ok((EthMessageModel::GetNodeData(m), n)),
                Err(e) => Err(MessageError::RlpError(e)),
            }
        },
        EthMessageID::NodeData => if version.number() >= 67 {
            Err(MessageError::Invalid(version, EthMessageID::NodeData))
        } else {
            match payload_read::<RequestPair<Vec<Bytes>>>(buf) {
                Ok((m, n)) => Ok((EthMessageModel::NodeData(m), n)),
                Err(e) => Err(MessageError::RlpError(e)),
            }
        },
        EthMessageID::GetReceipts => if version.number() >= 70 {
            match payload_read::<RequestPair<GetReceipts70>>(buf) {
                Ok((m, n)) => Ok((EthMessageModel::GetReceipts70(m), n)),
                Err(e) => Err(MessageError::RlpError(e)),
            }
        } else {
            match payload_read::<RequestPair<Vec<B256>>>(buf) {
                Ok((m, n)) => Ok((EthMessageModel::GetReceipts(m), n)),
                Err(e) => Err(MessageError::RlpError(e)),
            }
        },
        EthMessageID::Receipts => if version.number() >= 70 {
            match payload_read::<RequestPair<Receipts70>>(buf) {
                Ok((m, n)) => Ok((EthMessageModel::Receipts70(m), n)),
                Err(e) => Err(MessageError::RlpError(e)),
            }
        } else if version.number() == 69 {
            match payload_read::<RequestPair<Vec<Vec<Receipt>>>>(buf) {
                Ok((m, n)) => Ok((EthMessageModel::Receipts69(m), n)),
                Err(e) => Err(MessageError::RlpError(e)),
            }
        } else {
            match payload_read::<RequestPair<Vec<Vec<ReceiptWithBloom>>>>(buf) {
                Ok((m, n)) => Ok((EthMessageModel::Receipts(m), n)),
                Err(e) => Err(MessageError::RlpError(e)),
            }
        },
        EthMessageID::BlockRangeUpdate => if version.number() < 69 {
            Err(MessageError::Invalid(version, EthMessageID::BlockRangeUpdate))
        } else {
            match payload_read::<BlockRangeUpdate>(buf) {
                Ok((m, n)) => Ok((EthMessageModel::BlockRangeUpdate(m), n)),
                Err(e) => Err(MessageError::RlpError(e)),
            }
        },
        EthMessageID::Other(b) => Ok((EthMessageModel::Other(b as usize, buf), buf.len() as int)),
    }
}

/// What reading a message at the front of `buf` gives: the message and the bytes it takes.
pub open spec fn read_message(version: EthVersion, buf: Seq<u8>) -> Result<
    (EthMessageModel, int),
    MessageError,
> {
    if buf.len() == 0 {
        Err(MessageError::RlpError(RlpError::InputTooShort))
    } else {
        match read_payload(version, message_id_of(buf[0]), buf.skip(1)) {
            Err(e) => Err(e),
            Ok((m, n)) => Ok((m, n + 1)),
        }
    }
}

impl EthMessage {
    /// The id of the message.
    pub fn message_id(&self) -> (r: EthMessageID)
        ensures
            r == self.deep_view().id(),
    {
        match self {
            EthMessage::Status(_) => EthMessageID::Status,
            EthMessage::NewBlockHashes(_) => EthMessageID::NewBlockHashes,
            EthMessage::NewBlock(_) => EthMessageID::NewBlock,
            EthMessage::Transactions(_) => EthMessageID::Transactions,
            EthMessage::NewPooledTransactionHashes66(_) => EthMessageID::NewPooledTransactionHashes,
            EthMessage::NewPooledTransactionHashes68(_) => EthMessageID::NewPooledTransactionHashes,
            EthMessage::GetBlockHeaders(_) => EthMessageID::GetBlockHeaders,
            EthMessage::BlockHeaders(_) => EthMessageID::BlockHeaders,
            EthMessage::GetBlockBodies(_) => EthMessageID::GetBlockBodies,
            EthMessage::BlockBodies(_) => EthMessageID::BlockBodies,
            EthMessage::GetPooledTransactions(_) => EthMessageID::GetPooledTransactions,
            EthMessage::PooledTransactions(_) => EthMessageID::PooledTransactions,
            EthMessage::GetNodeData(_) => EthMessageID::GetNodeData,
            EthMessage::NodeData(_) => EthMessageID::NodeData,
            EthMessage::GetReceipts(_) => EthMessageID::GetReceipts,
            EthMessage::GetReceipts70(_) => EthMessageID::GetReceipts,
            EthMessage::Receipts(_) => EthMessageID::Receipts,
            EthMessage::Receipts69(_) => EthMessageID::Receipts,
            EthMessage::Receipts70(_) => EthMessageID::Receipts,
            EthMessage::BlockRangeUpdate(_) => EthMessageID::BlockRangeUpdate,
            EthMessage::Other(msg) => EthMessageID::Other(
                #[verifier::truncate]
                (msg.id as u8),
            ),
        }
    }

    /// Whether the message asks for something.
    pub fn is_request(&self) -> (r: bool)
        ensures
            r == (self is GetBlockBodies || self is GetBlockHeaders || self is GetReceipts || self
                is GetReceipts70 || self is GetPooledTransactions || self is GetNodeData),
            r == self.deep_view().asks(),
    {
        matches!(
            self,
            EthMessage::GetBlockBodies(_)
                | EthMessage::GetBlockHeaders(_)
                | EthMessage::GetReceipts(_)
                | EthMessage::GetReceipts70(_)
                | EthMessage::GetPooledTransactions(_)
                | EthMessage::GetNodeData(_)
        )
    }

    /// Whether the message answers a request.
    pub fn is_response(&self) -> (r: bool)
        ensures
            r == (self is PooledTransactions || self is Receipts || self is Receipts69 || self
                is Receipts70 || self is BlockHeaders || self is BlockBodies || self is NodeData),
            r == self.deep_view().answers(),
    {
        matches!(
            self,
            EthMessage::PooledTransactions(_)
                | EthMessage::Receipts(_)
                | EthMessage::Receipts69(_)
                | EthMessage::Receipts70(_)
                | EthMessage::BlockHeaders(_)
                | EthMessage::BlockBodies(_)
                | EthMessage::NodeData(_)
        )
    }

    /// The message in the form that a version has: from `eth/70` on a request for receipts says
    /// from which receipt of the first block on it wants them, here from the first.
    pub fn map_versioned(self, version: EthVersion) -> (r: EthMessage)
        ensures
            r.deep_view() == versioned(self.deep_view(), version),
    {
        if version.to_u8() >= 70 {
            return match self {
                EthMessage::GetReceipts(pair) => {
                    let RequestPair { request_id, message } = pair;
                    EthMessage::GetReceipts70(
                        RequestPair {
                            request_id,
                            message: GetReceipts70 {
                                first_block_receipt_index: 0,
                                block_hashes: message,
                            },
                        },
                    )
                },
                other => other,
            };
        }
        self
    }

    /// Appends the encoding of the payload.
    pub fn encode(&self, out: &mut Vec<u8>)
        requires
            self.deep_view().wire().len() <= usize::MAX,
        ensures
            final(out)@ == old(out)@ + self.deep_view().wire(),
    {
        match self {
            EthMessage::Status(StatusMessage::Legacy(m)) => encode_payload(m, out),
            EthMessage::Status(StatusMessage::Eth69(m)) => encode_payload(m, out),
            EthMessage::NewBlockHashes(m) => encode_payload(m, out),
            EthMessage::NewBlock(m) => encode_payload(m, out),
            EthMessage::Transactions(m) => encode_payload(m, out),
            EthMessage::NewPooledTransactionHashes66(m) => encode_payload(m, out),
            EthMessage::NewPooledTransactionHashes68(m) => encode_payload(m, out),
            EthMessage::GetBlockHeaders(m) => encode_payload(m, out),
            EthMessage::BlockHeaders(m) => encode_payload(m, out),
            EthMessage::GetBlockBodies(m) => encode_payload(m, out),
            EthMessage::BlockBodies(m) => encode_payload(m, out),
            EthMessage::GetPooledTransactions(m) => encode_payload(m, out),
            EthMessage::PooledTransactions(m) => encode_payload(m, out),
            EthMessage::GetNodeData(m) => encode_payload(m, out),
            EthMessage::NodeData(m) => encode_payload(m, out),
            EthMessage::GetReceipts(m) => encode_payload(m, out),
            EthMessage::GetReceipts70(m) => encode_payload(m, out),
            EthMessage::Receipts(m) => encode_payload(m, out),
            EthMessage::Receipts69(m) => encode_payload(m, out),
            EthMessage::Receipts70(m) => encode_payload(m, out),
            EthMessage::BlockRangeUpdate(m) => encode_payload(m, out),
            EthMessage::Other(m) => {
                let ghost front = out@;
                out.extend_from_slice(m.payload.as_slice());
                proof {
                    assert(out@ =~= front + m.payload@);
                }
            },
        }
    }

    /// The length of the encoding of the payload.
    pub fn length(&self) -> (n: usize)
        requires
            self.deep_view().wire().len() <= usize::MAX,
        ensures
            n == self.deep_view().wire().len(),
    {
        match self {
            EthMessage::Status(StatusMessage::Legacy(m)) => payload_length(m),
            EthMessage::Status(StatusMessage::Eth69(m)) => payload_length(m),
            EthMessage::NewBlockHashes(m) => payload_length(m),
            EthMessage::NewBlock(m) => payload_length(m),
            EthMessage::Transactions(m) => payload_length(m),
            EthMessage::NewPooledTransactionHashes66(m) => payload_length(m),
            EthMessage::NewPooledTransactionHashes68(m) => payload_length(m),
            EthMessage::GetBlockHeaders(m) => payload_length(m),
            EthMessage::BlockHeaders(m) => payload_length(m),
            EthMessage::GetBlockBodies(m) => payload_length(m),
            EthMessage::BlockBodies(m) => payload_length(m),
            EthMessage::GetPooledTransactions(m) => payload_length(m),
            EthMessage::PooledTransactions(m) => payload_length(m),
            EthMessage::GetNodeData(m) => payload_length(m),
            EthMessage::NodeData(m) => payload_length(m),
            EthMessage::GetReceipts(m) => payload_length(m),
            EthMessage::GetReceipts70(m) => payload_length(m),
            EthMessage::Receipts(m) => payload_length(m),
            EthMessage::Receipts69(m) => payload_length(m),
            EthMessage::Receipts70(m) => payload_length(m),
            EthMessage::BlockRangeUpdate(m) => payload_length(m),
            EthMessage::Other(m) => m.payload.len(),
        }
    }
}

/// A message in the form that a version has.
pub open spec fn versioned(m: EthMessageModel, version: EthVersion) -> EthMessageModel {
    match m {
        EthMessageModel::GetReceipts(pair) => if version.number() >= 70 {
            EthMessageModel::GetReceipts70(
                RequestPair { request_id: pair.request_id, message: (0u64, pair.message) },
            )
        } else {
            m
        },
        _ => m,
    }
}

/// A message with its id in front, as it goes over the wire.
#[derive(Clone, Debug, PartialEq, Eq)]
pub struct ProtocolMessage {
    pub message_type: EthMessageID,
    pub message: EthMessage,
}

impl ProtocolMessage {
    /// The encoding: the byte of the id, then the payload.
    pub open spec fn wire(self) -> Seq<u8> {
        seq![self.message_type.byte()] + self.message.deep_view().wire()
    }

    /// Reads a message from the front of `buf` and moves the front behind it. Which form a
    /// payload has depends on the version of the session.
    pub fn decode_message(version: EthVersion, buf: &mut &[u8]) -> (r: Result<
        ProtocolMessage,
        MessageError,
    >)
        ensures
            match read_message(version, old(buf)@) {
                Ok((m, n)) => {
                    &&& r is Ok
                    &&& r->Ok_0.message.deep_view() == m
                    &&& r->Ok_0.message_type == message_id_of(old(buf)@[0])
                    &&& final(buf)@ == old(buf)@.skip(n)
                },
                Err(e) => r == Err::<ProtocolMessage, MessageError>(e),
            },
    {
        let ghost start = buf@;
        let message_type = match EthMessageID::decode(buf) {
            Ok(id) => id,
            Err(e) => {
                return Err(MessageError::RlpError(e));
            },
        };
        let ghost payload = buf@;
        let v: u8 = version.to_u8();
        let message = match message_type {
            EthMessageID::Status => if v < 69 {
                match decode_payload::<Status>(buf) {
                    Ok(m) => EthMessage::Status(StatusMessage::Legacy(m)),
                    Err(e) => {
                        return Err(e);
                    },
                }
            } else {
                match decode_payload::<StatusEth69>(buf) {
                    Ok(m) => EthMessage::Status(StatusMessage::Eth69(m)),
                    Err(e) => {
                        return Err(e);
                    },
                }
            },
            EthMessageID::NewBlockHashes => match decode_payload::<Vec<BlockHashNumber>>(buf) {
                Ok(m) => EthMessage::NewBlockHashes(m),
                Err(e) => {
                    return Err(e);
                },
            },
            EthMessageID::Transactions => match decode_payload::<Vec<Transaction>>(buf) {
                Ok(m) => EthMessage::Transactions(m),
                Err(e) => {
                    return Err(e);
                },
            },
            EthMessageID::GetBlockHeaders => match decode_payload::<RequestPair<GetBlockHeaders>>(buf) {
                Ok(m) => EthMessage::GetBlockHeaders(m),
                Err(e) => {
                    return Err(e);
                },
            },
            EthMessageID::BlockHeaders => match decode_payload::<RequestPair<Vec<BlockHeader>>>(buf) {
                Ok(m) => EthMessage::BlockHeaders(m),
                Err(e) => {
                    return Err(e);
                },
            },
            EthMessageID::GetBlockBodies => match decode_payload::<RequestPair<Vec<B256>>>(buf) {
                Ok(m) => EthMessage::GetBlockBodies(m),
                Err(e) => {
                    return Err(e);
                },
            },
            EthMessageID::BlockBodies => match decode_payload::<RequestPair<Vec<BlockBody>>>(buf) {
                Ok(m) => EthMessage::BlockBodies(m),
                Err(e) => {
                    return Err(e);
                },
            },
            EthMessageID::NewBlock => match decode_payload::<NewBlock>(buf) {
                Ok(m) => EthMessage::NewBlock(m),
                Err(e) => {
                    return Err(e);
                },
            },
            EthMessageID::NewPooledTransactionHashes => if v >= 68 {
                match decode_payload::<NewPooledTransactionHashes68>(buf) {
                    Ok(m) => EthMessage::NewPooledTransactionHashes68(m),
                    Err(e) => {
                        return Err(e);
                    },
                }
            } else {
                match decode_payload::<Vec<B256>>(buf) {
                    Ok(m) => EthMessage::NewPooledTransactionHashes66(m),
                    Err(e) => {
                        return Err(e);
                    },
                }
            },
            EthMessageID::GetPooledTransactions => match decode_payload::<RequestPair<Vec<B256>>>(buf) {
                Ok(m) => EthMessage::GetPooledTransactions(m),
                Err(e) => {
                    return Err(e);
                },
            },
            EthMessageID::PooledTransactions => match decode_payload::<RequestPair<Vec<PooledTransaction>>>(buf) {
                Ok(m) => EthMessage::PooledTransactions(m),
                Err(e) => {
                    return Err(e);
                },
            },
            EthMessageID::GetNodeData => if v >= 67 {
                return Err(MessageError::Invalid(version, EthMessageID::GetNodeData));
            } else {
                match decode_payload::<RequestPair<Vec<B256>>>(buf) {
                    Ok(m) => EthMessage::GetNodeData(m),
                    Err(e) => {
                        return Err(e);
                    },
                }
            },
            EthMessageID::NodeData => if v >= 67 {
                return Err(MessageError::Invalid(version, EthMessageID::NodeData));
            } else {
                match decode_payload::<RequestPair<Vec<Bytes>>>(buf) {
                    Ok(m) => EthMessage::NodeData(m),
                    Err(e) => {
                        return Err(e);
                    },
                }
            },
            EthMessageID::GetReceipts => if v >= 70 {
                match decode_payload::<RequestPair<GetReceipts70>>(buf) {
                    Ok(m) => EthMessage::GetReceipts70(m),
                    Err(e) => {
                        return Err(e);
                    },
                }
            } else {
                match decode_payload::<RequestPair<Vec<B256>>>(buf) {
                    Ok(m) => EthMessage::GetReceipts(m),
                    Err(e) => {
                        return Err(e);
                    },
                }
            },
            EthMessageID::Receipts => if v >= 70 {
                match decode_payload::<RequestPair<Receipts70>>(buf) {
                    Ok(m) => EthMessage::Receipts70(m),
                    Err(e) => {
                        return Err(e);
                    },
                }
            } else if v == 69 {
                match decode_payload::<RequestPair<Vec<Vec<Receipt>>>>(buf) {
                    Ok(m) => EthMessage::Receipts69(m),
                    Err(e) => {
                        return Err(e);
                    },
                }
            } else {
                match decode_payload::<RequestPair<Vec<Vec<ReceiptWithBloom>>>>(buf) {
                    Ok(m) => EthMessage::Receipts(m),
                    Err(e) => {
                        return Err(e);
                    },
                }
            },
            EthMessageID::BlockRangeUpdate => if v < 69 {
                return Err(MessageError::Invalid(version, EthMessageID::BlockRangeUpdate));
            } else {
                match decode_payload::<BlockRangeUpdate>(buf) {
                    Ok(m) => EthMessage::BlockRangeUpdate(m),
                    Err(e) => {
                        return Err(e);
                    },
                }
            },
            EthMessageID::Other(_) => {
                let rest = *buf;
                let raw_payload = slice_to_vec(rest);
                advance(buf, rest.len());
                EthMessage::Other(
                    RawCapabilityMessage::new(message_type.to_u8() as usize, raw_payload),
                )
            },
        };
        proof {
            let n = read_payload(version, message_type, payload)->Ok_0.1;
            assert(start.skip(1).skip(n) =~= start.skip(n + 1));
        }
        Ok(ProtocolMessage { message_type, message })
    }

    /// Appends the encoding.
    pub fn encode(&self, out: &mut Vec<u8>)
        requires
            self.wire().len() <= usize::MAX,
        ensures
            final(out)@ == old(out)@ + self.wire(),
    {
        let ghost front = out@;
        self.message_type.encode(out);
        self.message.encode(out);
        proof {
            assert(out@ =~= front + self.wire());
        }
    }

    /// The length of the encoding.
    pub fn length(&self) -> (n: usize)
        requires
            self.wire().len() <= usize::MAX,
        ensures
            n == self.wire().len(),
    {
        self.message_type.length() + self.message.length()
    }
}

impl From<EthMessage> for ProtocolMessage {
    fn from(message: EthMessage) -> (r: ProtocolMessage) {
        ProtocolMessage { message_type: message.message_id(), message }
    }
}

impl vstd::std_specs::convert::FromSpecImpl<EthMessage> for ProtocolMessage {
    open spec fn obeys_from_spec() -> bool {
        true
    }

    open spec fn from_spec(message: EthMessage) -> ProtocolMessage {
        ProtocolMessage { message_type: message.deep_view().id(), message }
    }
}

/// Every message that a version has is read back from its own encoding, whole.
pub proof fn lemma_message_round_trip(m: EthMessageModel, version: EthVersion)
    requires
        m.sound(),
        m.fits(version),
        m.wire().len() < usize::MAX,
    ensures
        read_message(version, seq![m.id().byte()] + m.wire()) == Ok::<
            (EthMessageModel, int),
            MessageError,
        >((m, 1 + m.wire().len() as int)),
{
    let buf = seq![m.id().byte()] + m.wire();
    assert(buf.skip(1) =~= m.wire());
    match m {
        EthMessageModel::Status(StatusMessage::Legacy(v)) => lemma_payload_round_trip::<Status>(v),
        EthMessageModel::Status(StatusMessage::Eth69(v)) => lemma_payload_round_trip::<StatusEth69>(v),
        EthMessageModel::NewBlockHashes(v) => lemma_payload_round_trip::<Vec<BlockHashNumber>>(v),
        EthMessageModel::NewBlock(v) => lemma_payload_round_trip::<NewBlock>(v),
        EthMessageModel::Transactions(v) => lemma_payload_round_trip::<Vec<Transaction>>(v),
        EthMessageModel::NewPooledTransactionHashes66(v) => lemma_payload_round_trip::<Vec<B256>>(v),
        EthMessageModel::NewPooledTransactionHashes68(v) => lemma_payload_round_trip::<NewPooledTransactionHashes68>(v),
        EthMessageModel::GetBlockHeaders(v) => lemma_payload_round_trip::<RequestPair<GetBlockHeaders>>(v),
        EthMessageModel::BlockHeaders(v) => lemma_payload_round_trip::<RequestPair<Vec<BlockHeader>>>(v),
        EthMessageModel::GetBlockBodies(v) => lemma_payload_round_trip::<RequestPair<Vec<B256>>>(v),
        EthMessageModel::BlockBodies(v) => lemma_payload_round_trip::<RequestPair<Vec<BlockBody>>>(v),
        EthMessageModel::GetPooledTransactions(v) => lemma_payload_round_trip::<RequestPair<Vec<B256>>>(v),
        EthMessageModel::PooledTransactions(v) => lemma_payload_round_trip::<RequestPair<Vec<PooledTransaction>>>(v),
        EthMessageModel::GetNodeData(v) => lemma_payload_round_trip::<RequestPair<Vec<B256>>>(v),
        EthMessageModel::NodeData(v) => lemma_payload_round_trip::<RequestPair<Vec<Bytes>>>(v),
        EthMessageModel::GetReceipts(v) => lemma_payload_round_trip::<RequestPair<Vec<B256>>>(v),
        EthMessageModel::GetReceipts70(v) => lemma_payload_round_trip::<RequestPair<GetReceipts70>>(v),
        EthMessageModel::Receipts(v) => lemma_payload_round_trip::<RequestPair<Vec<Vec<ReceiptWithBloom>>>>(v),
        EthMessageModel::Receipts69(v) => lemma_payload_round_trip::<RequestPair<Vec<Vec<Receipt>>>>(v),
        EthMessageModel::Receipts70(v) => lemma_payload_round_trip::<RequestPair<Receipts70>>(v),
        EthMessageModel::BlockRangeUpdate(v) => lemma_payload_round_trip::<BlockRangeUpdate>(v),
        EthMessageModel::Other(id, _) => {},
    }
}

/// A message that a version does not have any more, or does not have yet, is refused with its id.
pub proof fn lemma_removed_messages(version: EthVersion, buf: Seq<u8>)
    requires
        buf.len() > 0,
    ensures
        buf[0] == 0x0d && version.number() >= 67 ==> read_message(version, buf) == Err::<
            (EthMessageModel, int),
            MessageError,
        >(MessageError::Invalid(version, EthMessageID::GetNodeData)),
        buf[0] == 0x0e && version.number() >= 67 ==> read_message(version, buf) == Err::<
            (EthMessageModel, int),
            MessageError,
        >(MessageError::Invalid(version, EthMessageID::NodeData)),
        buf[0] == 0x11 && version.number() < 69 ==> read_message(version, buf) == Err::<
            (EthMessageModel, int),
            MessageError,
        >(MessageError::Invalid(version, EthMessageID::BlockRangeUpdate)),
{
}

/// A message that goes to many peers.
#[derive(Clone, Debug, PartialEq, Eq)]
pub enum EthBroadcastMessage {
    /// A new block.
    NewBlock(NewBlock),
    /// New transactions.
    Transactions(Vec<Transaction>),
}

impl EthBroadcastMessage {
    /// The message as one for a single peer.
    pub open spec fn model(self) -> EthMessageModel {
        match self {
            EthBroadcastMessage::NewBlock(m) => EthMessageModel::NewBlock(m.deep_view()),
            EthBroadcastMessage::Transactions(m) => EthMessageModel::Transactions(m.deep_view()),
        }
    }

    /// The id of the message.
    pub fn message_id(&self) -> (r: EthMessageID)
        ensures
            r == self.model().id(),
    {
        match self {
            EthBroadcastMessage::NewBlock(_) => EthMessageID::NewBlock,
            EthBroadcastMessage::Transactions(_) => EthMessageID::Transactions,
        }
    }

    /// Appends the encoding of the payload.
    pub fn encode(&self, out: &mut Vec<u8>)
        requires
            self.model().wire().len() <= usize::MAX,
        ensures
            final(out)@ == old(out)@ + self.model().wire(),
    {
        match self {
            EthBroadcastMessage::NewBlock(m) => encode_payload(m, out),
            EthBroadcastMessage::Transactions(m) => encode_payload(m, out),
        }
    }

    /// The length of the encoding of the payload.
    pub fn length(&self) -> (n: usize)
        requires
            self.model().wire().len() <= usize::MAX,
        ensures
            n == self.model().wire().len(),
    {
        match self {
            EthBroadcastMessage::NewBlock(m) => payload_length(m),
            EthBroadcastMessage::Transactions(m) => payload_length(m),
        }
    }
}

/// A message that goes to many peers, with its id in front.
#[derive(Clone, Debug, PartialEq, Eq)]
pub struct ProtocolBroadcastMessage {
    pub message_type: EthMessageID,
    pub message: EthBroadcastMessage,
}

impl ProtocolBroadcastMessage {
    /// The encoding: the byte of the id, then the payload.
    pub open spec fn wire(self) -> Seq<u8> {
        seq![self.message_type.byte()] + self.message.model().wire()
    }

    /// Appends the encoding.
    pub fn encode(&self, out: &mut Vec<u8>)
        requires
            self.wire().len() <= usize::MAX,
        ensures
            final(out)@ == old(out)@ + self.wire(),
    {
        let ghost front = out@;
        self.message_type.encode(out);
        self.message.encode(out);
        proof {
            assert(out@ =~= front + self.wire());
        }
    }

    /// The length of the encoding.
    pub fn length(&self) -> (n: usize)
        requires
            self.wire().len() <= usize::MAX,
        ensures
            n == self.wire().len(),
    {
        self.message_type.length() + self.message.length()
    }
}

impl From<EthBroadcastMessage> for ProtocolBroadcastMessage {
    fn from(message: EthBroadcastMessage) -> (r: ProtocolBroadcastMessage) {
        ProtocolBroadcastMessage { message_type: message.message_id(), message }
    }
}

impl vstd::std_specs::convert::FromSpecImpl<EthBroadcastMessage> for ProtocolBroadcastMessage {
    open spec fn obeys_from_spec() -> bool {
        true
    }

    open spec fn from_spec(message: EthBroadcastMessage) -> ProtocolBroadcastMessage {
        ProtocolBroadcastMessage { message_type: message.model().id(), message }
    }
}

/// A broadcast is read by its receiver as the message that it is.
pub proof fn lemma_broadcast_round_trip(message: EthBroadcastMessage, version: EthVersion)
    requires
        message.model().sound(),
        message.model().wire().len() < usize::MAX,
    ensures
        read_message(version, seq![message.model().id().byte()] + message.model().wire()) == Ok::<
            (EthMessageModel, int),
            MessageError,
        >((message.model(), 1 + message.model().wire().len() as int)),
{
    lemma_message_round_trip(message.model(), version);
}

/// What is read fits the version that it is read in, and has the id that it was read under.
pub proof fn lemma_read_messages_fit(version: EthVersion, buf: Seq<u8>)
    ensures
        read_message(version, buf) matches Ok((m, n)) ==> {
            &&& buf.len() > 0
            &&& m.fits(version)
            &&& m.id().byte() == buf[0]
            &&& m is Other ==> m->Other_1 == buf.skip(1) && n == buf.len()
        },
{
}

/// The first byte of a message tells which it is, and where versions differ in its form, the version
/// tells the form.
pub proof fn lemma_first_byte_tells_the_message(version: EthVersion, buf: Seq<u8>)
    ensures
        read_message(version, buf) matches Ok((m, _)) ==> {
            let v = version.number();
            &&& buf[0] == 0x00 <==> m is Status
            &&& buf[0] == 0x00 ==> (m->Status_0 is Eth69 <==> v >= 69)
            &&& buf[0] == 0x01 <==> m is NewBlockHashes
            &&& buf[0] == 0x02 <==> m is Transactions
            &&& buf[0] == 0x03 <==> m is GetBlockHeaders
            &&& buf[0] == 0x04 <==> m is BlockHeaders
            &&& buf[0] == 0x05 <==> m is GetBlockBodies
            &&& buf[0] == 0x06 <==> m is BlockBodies
            &&& buf[0] == 0x07 <==> m is NewBlock
            &&& buf[0] == 0x08 && v < 68 <==> m is NewPooledTransactionHashes66
            &&& buf[0] == 0x08 && v >= 68 <==> m is NewPooledTransactionHashes68
            &&& buf[0] == 0x09 <==> m is GetPooledTransactions
            &&& buf[0] == 0x0a <==> m is PooledTransactions
            &&& buf[0] == 0x0d <==> m is GetNodeData
            &&& buf[0] == 0x0e <==> m is NodeData
            &&& buf[0] == 0x0f && v < 70 <==> m is GetReceipts
            &&& buf[0] == 0x0f && v >= 70 <==> m is GetReceipts70
            &&& buf[0] == 0x10 && v < 69 <==> m is Receipts
            &&& buf[0] == 0x10 && v == 69 <==> m is Receipts69
            &&& buf[0] == 0x10 && v > 69 <==> m is Receipts70
            &&& buf[0] == 0x11 <==> m is BlockRangeUpdate
            &&& m is Other <==> buf[0] == 0x0b || buf[0] == 0x0c || buf[0] > 0x11
        },
{
}

/// The first byte of what is sent for a message is the id that the protocol has for it.
pub proof fn lemma_sent_ids(m: EthMessageModel)
    ensures
        m is Status ==> m.id().byte() == 0x00,
        m is NewBlockHashes ==> m.id().byte() == 0x01,
        m is Transactions ==> m.id().byte() == 0x02,
        m is GetBlockHeaders ==> m.id().byte() == 0x03,
        m is BlockHeaders ==> m.id().byte() == 0x04,
        m is GetBlockBodies ==> m.id().byte() == 0x05,
        m is BlockBodies ==> m.id().byte() == 0x06,
        m is NewBlock ==> m.id().byte() == 0x07,
        m is NewPooledTransactionHashes66 ==> m.id().byte() == 0x08,
        m is NewPooledTransactionHashes68 ==> m.id().byte() == 0x08,
        m is GetPooledTransactions ==> m.id().byte() == 0x09,
        m is PooledTransactions ==> m.id().byte() == 0x0a,
        m is GetNodeData ==> m.id().byte() == 0x0d,
        m is NodeData ==> m.id().byte() == 0x0e,
        m is GetReceipts || m is GetReceipts70 ==> m.id().byte() == 0x0f,
        m is Receipts || m is Receipts69 || m is Receipts70 ==> m.id().byte() == 0x10,
        m is BlockRangeUpdate ==> m.id().byte() == 0x11,
        m matches EthMessageModel::Other(id, _) ==> id <= u8::MAX ==> m.id().byte() == id,
{
}

/// The ids of a version reach from zero to its largest, which one of its messages has: none that it
/// has lies above.
pub proof fn lemma_largest_id(version: EthVersion, m: EthMessageModel)
    ensures
        m.fits(version) && !(m is Other) ==> m.id().byte() <= EthMessageID::spec_max(version),
        m is BlockRangeUpdate && m.fits(version) ==> m.id().byte() == EthMessageID::spec_max(
            version,
        ),
        m is Receipts && m.fits(version) ==> m.id().byte() == EthMessageID::spec_max(version),
{
}

/// A request for receipts takes the form that the version reads, and asks for the same receipts from
/// the first on, under the same request id. Every other message stays as it is, and so does one that
/// has its form.
pub proof fn lemma_versioned_requests(m: EthMessageModel, version: EthVersion)
    ensures
        !(m is GetReceipts) ==> versioned(m, version) == m,
        m.fits(version) ==> versioned(m, version) == m,
        m matches EthMessageModel::GetReceipts(asked) ==> {
            let sent = versioned(m, version);
            &&& sent.fits(version)
            &&& sent.id() == m.id()
            &&& sent matches EthMessageModel::GetReceipts70(pair) ==> {
                &&& pair.request_id == asked.request_id
                &&& pair.message.0 == 0
                &&& pair.message.1 == asked.message
            }
        },
        versioned(versioned(m, version), version) == versioned(m, version),
{
}

/// A request takes all of the bytes that its header speaks of: the request id, and then the message.
pub proof fn lemma_requests_are_taken_whole<T: Rlp>(buf: Seq<u8>)
    ensures
        RequestPair::<T>::read(buf) matches Ok((v, n)) ==> {
            &&& read_header(buf) matches Ok(h) && n == h.header_length + h.payload_length && {
                let rest = buf.skip(h.header_length as int);
                &&& u64::read(rest) matches Ok((id, k)) && id == v.request_id && (T::read(
                    rest.skip(k),
                ) matches Ok((message, _)) && message == v.message)
            }
        },
{
}

/// Requests and their answers go together: an answer has the id behind that of what it answers, no
/// message is both, and what is neither is told to a peer without being asked.
pub proof fn lemma_requests_and_answers(m: EthMessageModel)
    requires
        !(m is Other),
    ensures
        ({
            let id = m.id().byte();
            &&& m.asks() <==> id == 0x03 || id == 0x05 || id == 0x09 || id == 0x0d || id == 0x0f
            &&& m.answers() <==> id == 0x04 || id == 0x06 || id == 0x0a || id == 0x0e || id == 0x10
            &&& !(m.asks() && m.answers())
        }),
{
}

} // verus!
