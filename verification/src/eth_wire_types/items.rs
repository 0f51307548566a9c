use core::marker::PhantomData;
use vstd::prelude::*;
use vstd::slice::slice_to_vec;
use alloy_consensus::{
    Block, BlockBody as ConsensusBlockBody, EthereumReceipt, EthereumTxEnvelope,
    Header as ConsensusHeader, ReceiptWithBloom as ConsensusReceiptWithBloom, TxEip4844,
    transaction::PooledTransaction as ConsensusPooledTransaction,
};
use crate::rlp::{advance, error_of, rlp_error, Rlp, RlpError};

verus! {

/// What a block header at the front of `buf` is encoded to, and how many bytes are left behind it.
pub uninterp spec fn header_in(buf: Seq<u8>) -> Result<(Seq<u8>, usize), RlpError>;

/// What a block body at the front of `buf` is encoded to, and how many bytes are left behind it.
pub uninterp spec fn body_in(buf: Seq<u8>) -> Result<(Seq<u8>, usize), RlpError>;

/// What a block at the front of `buf` is encoded to, and how many bytes are left behind it.
pub uninterp spec fn block_in(buf: Seq<u8>) -> Result<(Seq<u8>, usize), RlpError>;

/// What a signed transaction at the front of `buf` is encoded to, and how many bytes are left
/// behind it.
pub uninterp spec fn transaction_in(buf: Seq<u8>) -> Result<(Seq<u8>, usize), RlpError>;

/// What a signed transaction with its blobs at the front of `buf` is encoded to, and how many bytes
/// are left behind it.
pub uninterp spec fn pooled_transaction_in(buf: Seq<u8>) -> Result<(Seq<u8>, usize), RlpError>;

/// What a receipt with its bloom filter at the front of `buf` is encoded to, and how many bytes are
/// left behind it.
pub uninterp spec fn bloom_receipt_in(buf: Seq<u8>) -> Result<(Seq<u8>, usize), RlpError>;

/// What a receipt without a bloom filter at the front of `buf` is encoded to, and how many bytes
/// are left behind it.
pub uninterp spec fn receipt_in(buf: Seq<u8>) -> Result<(Seq<u8>, usize), RlpError>;

/// What a decoder of `alloy_rlp` came to.
pub open spec fn told(r: Result<(Vec<u8>, usize), alloy_rlp::Error>) -> Result<
    (Seq<u8>, usize),
    RlpError,
> {
    match r {
        Ok((encoding, left)) => Ok((encoding@, left)),
        Err(e) => Err(error_of(e)),
    }
}

/// `<alloy_consensus::Header as Decodable>::decode` and `alloy_rlp::encode`: reads a block header
/// at the front of `buf`. It gives what the object is encoded to, which need not be the bytes that
/// it was read from, and how many bytes are left behind it. It takes one at least.
#[verifier::external_body]
fn header_at(buf: &[u8]) -> (r: Result<(Vec<u8>, usize), alloy_rlp::Error>)
    ensures
        told(r) == header_in(buf@),
        r matches Ok((_, left)) ==> left < buf@.len(),
{
    let mut rest = buf;
    let item = <ConsensusHeader as alloy_rlp::Decodable>::decode(&mut rest)?;
    Ok((alloy_rlp::encode(&item), rest.len()))
}

/// `<alloy_consensus::BlockBody as Decodable>::decode` and `alloy_rlp::encode`: reads a block body
/// at the front of `buf`. It gives what the object is encoded to, which need not be the bytes that
/// it was read from, and how many bytes are left behind it. It takes one at least.
#[verifier::external_body]
fn body_at(buf: &[u8]) -> (r: Result<(Vec<u8>, usize), alloy_rlp::Error>)
    ensures
        told(r) == body_in(buf@),
        r matches Ok((_, left)) ==> left < buf@.len(),
{
    let mut rest = buf;
    let item = <ConsensusBlockBody<EthereumTxEnvelope<TxEip4844>> as alloy_rlp::Decodable>::decode(&mut rest)?;
    Ok((alloy_rlp::encode(&item), rest.len()))
}

/// `<alloy_consensus::Block as Decodable>::decode` and `alloy_rlp::encode`: reads a block at the
/// front of `buf`. It gives what the object is encoded to, which need not be the bytes that it was
/// read from, and how many bytes are left behind it. It takes one at least.
#[verifier::external_body]
fn block_at(buf: &[u8]) -> (r: Result<(Vec<u8>, usize), alloy_rlp::Error>)
    ensures
        told(r) == block_in(buf@),
        r matches Ok((_, left)) ==> left < buf@.len(),
{
    let mut rest = buf;
    let item = <Block<EthereumTxEnvelope<TxEip4844>> as alloy_rlp::Decodable>::decode(&mut rest)?;
    Ok((alloy_rlp::encode(&item), rest.len()))
}

/// `<alloy_consensus::EthereumTxEnvelope<TxEip4844> as Decodable>::decode` and `alloy_rlp::encode`:
/// reads a signed transaction at the front of `buf`. It gives what the object is encoded to, which
/// need not be the bytes that it was read from, and how many bytes are left behind it. It takes one
/// at least.
#[verifier::external_body]
fn transaction_at(buf: &[u8]) -> (r: Result<(Vec<u8>, usize), alloy_rlp::Error>)
    ensures
        told(r) == transaction_in(buf@),
        r matches Ok((_, left)) ==> left < buf@.len(),
{
    let mut rest = buf;
    let item = <EthereumTxEnvelope<TxEip4844> as alloy_rlp::Decodable>::decode(&mut rest)?;
    Ok((alloy_rlp::encode(&item), rest.len()))
}

/// `<alloy_consensus::transaction::PooledTransaction as Decodable>::decode` and
/// `alloy_rlp::encode`: reads a signed transaction with its blobs at the front of `buf`. It gives
/// what the object is encoded to, which need not be the bytes that it was read from, and how many
/// bytes are left behind it. It takes one at least.
#[verifier::external_body]
fn pooled_transaction_at(buf: &[u8]) -> (r: Result<(Vec<u8>, usize), alloy_rlp::Error>)
    ensures
        told(r) == pooled_transaction_in(buf@),
        r matches Ok((_, left)) ==> left < buf@.len(),
{
    let mut rest = buf;
    let item = <ConsensusPooledTransaction as alloy_rlp::Decodable>::decode(&mut rest)?;
    Ok((alloy_rlp::encode(&item), rest.len()))
}

/// `<alloy_consensus::ReceiptWithBloom<EthereumReceipt> as Decodable>::decode` and
/// `alloy_rlp::encode`: reads a receipt with its bloom filter at the front of `buf`. It gives what
/// the object is encoded to, which need not be the bytes that it was read from, and how many bytes
/// are left behind it. It takes one at least.
#[verifier::external_body]
fn bloom_receipt_at(buf: &[u8]) -> (r: Result<(Vec<u8>, usize), alloy_rlp::Error>)
    ensures
        told(r) == bloom_receipt_in(buf@),
        r matches Ok((_, left)) ==> left < buf@.len(),
{
    let mut rest = buf;
    let item = <ConsensusReceiptWithBloom<EthereumReceipt> as alloy_rlp::Decodable>::decode(&mut rest)?;
    Ok((alloy_rlp::encode(&item), rest.len()))
}

/// `<alloy_consensus::EthereumReceipt as Decodable>::decode` and `alloy_rlp::encode`: reads a
/// receipt without a bloom filter at the front of `buf`. It gives what the object is encoded to,
/// which need not be the bytes that it was read from, and how many bytes are left behind it. It
/// takes one at least.
#[verifier::external_body]
fn receipt_at(buf: &[u8]) -> (r: Result<(Vec<u8>, usize), alloy_rlp::Error>)
    ensures
        told(r) == receipt_in(buf@),
        r matches Ok((_, left)) ==> left < buf@.len(),
{
    let mut rest = buf;
    let item = <EthereumReceipt as alloy_rlp::Decodable>::decode(&mut rest)?;
    Ok((alloy_rlp::encode(&item), rest.len()))
}

/// What an object is encoded to and how many bytes of `buf` it takes, told how many are left behind
/// it.
pub open spec fn taken(buf: Seq<u8>, r: Result<(Seq<u8>, usize), RlpError>) -> Result<
    (Seq<u8>, int),
    RlpError,
> {
    match r {
        Ok((encoding, left)) => Ok((encoding, buf.len() - left)),
        Err(e) => Err(e),
    }
}

/// A kind of chain object that the messages carry without looking into it.
pub trait ItemKind: Sized {
    /// What the object at the front of `buf` is encoded to, and how many bytes of `buf` it takes.
    spec fn item(buf: Seq<u8>) -> Result<(Seq<u8>, int), RlpError>;

    /// What the object at the front of `buf` is encoded to, and how many bytes are left behind it.
    fn take(buf: &[u8]) -> (r: Result<(Vec<u8>, usize), alloy_rlp::Error>)
        ensures
            taken(buf@, told(r)) == Self::item(buf@),
            r matches Ok((_, left)) ==> left < buf@.len(),
    ;
}

/// Block headers.
#[derive(Clone, Copy, Debug, PartialEq, Eq)]
pub struct HeaderKind;

/// Block bodies.
#[derive(Clone, Copy, Debug, PartialEq, Eq)]
pub struct BodyKind;

/// Blocks.
#[derive(Clone, Copy, Debug, PartialEq, Eq)]
pub struct BlockKind;

/// Signed transactions as they are broadcast.
#[derive(Clone, Copy, Debug, PartialEq, Eq)]
pub struct TransactionKind;

/// Signed transactions as the pool hands them out.
#[derive(Clone, Copy, Debug, PartialEq, Eq)]
pub struct PooledTransactionKind;

/// Receipts with their bloom filters.
#[derive(Clone, Copy, Debug, PartialEq, Eq)]
pub struct BloomReceiptKind;

/// Receipts without bloom filters.
#[derive(Clone, Copy, Debug, PartialEq, Eq)]
pub struct ReceiptKind;

impl ItemKind for HeaderKind {
    open spec fn item(buf: Seq<u8>) -> Result<(Seq<u8>, int), RlpError> {
        taken(buf, header_in(buf))
    }

    fn take(buf: &[u8]) -> (r: Result<(Vec<u8>, usize), alloy_rlp::Error>) {
        header_at(buf)
    }
}

impl ItemKind for BodyKind {
    open spec fn item(buf: Seq<u8>) -> Result<(Seq<u8>, int), RlpError> {
        taken(buf, body_in(buf))
    }

    fn take(buf: &[u8]) -> (r: Result<(Vec<u8>, usize), alloy_rlp::Error>) {
        body_at(buf)
    }
}

impl ItemKind for BlockKind {
    open spec fn item(buf: Seq<u8>) -> Result<(Seq<u8>, int), RlpError> {
        taken(buf, block_in(buf))
    }

    fn take(buf: &[u8]) -> (r: Result<(Vec<u8>, usize), alloy_rlp::Error>) {
        block_at(buf)
    }
}

impl ItemKind for TransactionKind {
    open spec fn item(buf: Seq<u8>) -> Result<(Seq<u8>, int), RlpError> {
        taken(buf, transaction_in(buf))
    }

    fn take(buf: &[u8]) -> (r: Result<(Vec<u8>, usize), alloy_rlp::Error>) {
        transaction_at(buf)
    }
}

impl ItemKind for PooledTransactionKind {
    open spec fn item(buf: Seq<u8>) -> Result<(Seq<u8>, int), RlpError> {
        taken(buf, pooled_transaction_in(buf))
    }

    fn take(buf: &[u8]) -> (r: Result<(Vec<u8>, usize), alloy_rlp::Error>) {
        pooled_transaction_at(buf)
    }
}

impl ItemKind for BloomReceiptKind {
    open spec fn item(buf: Seq<u8>) -> Result<(Seq<u8>, int), RlpError> {
        taken(buf, bloom_receipt_in(buf))
    }

    fn take(buf: &[u8]) -> (r: Result<(Vec<u8>, usize), alloy_rlp::Error>) {
        bloom_receipt_at(buf)
    }
}

impl ItemKind for ReceiptKind {
    open spec fn item(buf: Seq<u8>) -> Result<(Seq<u8>, int), RlpError> {
        taken(buf, receipt_in(buf))
    }

    fn take(buf: &[u8]) -> (r: Result<(Vec<u8>, usize), alloy_rlp::Error>) {
        receipt_at(buf)
    }
}

/// A chain object of kind `K`, held as what it is encoded to.
#[derive(Debug, PartialEq, Eq)]
pub struct RawItem<K> {
    bytes: Vec<u8>,
    kind: PhantomData<K>,
}

/// A block header.
pub type BlockHeader = RawItem<HeaderKind>;

/// A block body.
pub type BlockBody = RawItem<BodyKind>;

/// A block.
pub type RawBlock = RawItem<BlockKind>;

/// A signed transaction.
pub type Transaction = RawItem<TransactionKind>;

/// A signed transaction with its blobs.
pub type PooledTransaction = RawItem<PooledTransactionKind>;

/// A receipt with its bloom filter.
pub type ReceiptWithBloom = RawItem<BloomReceiptKind>;

/// A receipt without a bloom filter.
pub type Receipt = RawItem<ReceiptKind>;

impl<K> Clone for RawItem<K> {
    fn clone(&self) -> (r: Self)
        ensures
            r@ == self@,
    {
        RawItem { bytes: slice_to_vec(self.bytes.as_slice()), kind: PhantomData }
    }
}

impl<K> View for RawItem<K> {
    type V = Seq<u8>;

    closed spec fn view(&self) -> Seq<u8> {
        self.bytes@
    }
}

impl<K> DeepView for RawItem<K> {
    type V = Seq<u8>;

    open spec fn deep_view(&self) -> Seq<u8> {
        self@
    }
}

impl<K> RawItem<K> {
    /// The object with this encoding.
    pub fn from_encoding(bytes: Vec<u8>) -> (r: Self)
        ensures
            r@ == bytes@,
    {
        RawItem { bytes, kind: PhantomData }
    }

    /// The encoding.
    pub fn encoding(&self) -> (r: &Vec<u8>)
        ensures
            r@ == self@,
    {
        &self.bytes
    }
}

impl<K: ItemKind> Rlp for RawItem<K> {
    open spec fn wire(v: Seq<u8>) -> Seq<u8> {
        v
    }

    open spec fn sound(v: Seq<u8>) -> bool {
        v.len() > 0 && forall|rest: Seq<u8>|
            K::item(#[trigger] (v + rest)) == Ok::<(Seq<u8>, int), RlpError>((v, v.len() as int))
    }

    open spec fn read(buf: Seq<u8>) -> Result<(Seq<u8>, int), RlpError> {
        match K::item(buf) {
            Err(e) => Err(e),
            Ok((encoding, n)) => if 0 < n <= buf.len() {
                Ok((encoding, n))
            } else {
                Err(RlpError::InputTooShort)
            },
        }
    }

    fn encode(&self, out: &mut Vec<u8>) {
        let ghost front = out@;
        out.extend_from_slice(self.bytes.as_slice());
        proof {
            assert(out@ =~= front + self.bytes@);
        }
    }

    fn length(&self) -> (n: usize) {
        self.bytes.len()
    }

    fn decode(buf: &mut &[u8]) -> (r: Result<RawItem<K>, RlpError>) {
        let bytes = *buf;
        proof {
            assert(bytes@.len() == bytes.len());
        }
        match K::take(bytes) {
            Err(e) => Err(rlp_error(e)),
            Ok((encoding, left)) => {
                advance(buf, bytes.len() - left);
                Ok(RawItem { bytes: encoding, kind: PhantomData })
            },
        }
    }

    proof fn read_within(buf: Seq<u8>) {
    }

    proof fn round_trip(v: Seq<u8>, rest: Seq<u8>) {
    }
}

/// An object takes the bytes up to where its decoder stopped, and a failure of the decoder is told as
/// it is.
pub proof fn lemma_taken(buf: Seq<u8>, r: Result<(Seq<u8>, usize), RlpError>)
    ensures
        taken(buf, r) is Ok <==> r is Ok,
        r matches Ok((encoding, left)) ==> {
            &&& taken(buf, r)->Ok_0.0 == encoding
            &&& taken(buf, r)->Ok_0.1 + left == buf.len()
        },
        r matches Err(e) ==> taken(buf, r) == Err::<(Seq<u8>, int), RlpError>(e),
{
}

} // verus!
