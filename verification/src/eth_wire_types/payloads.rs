use vstd::prelude::*;
use crate::primitives::{B256, U128};
use crate::rlp::{
    be_bytes, encode_header, lemma_be_bytes, lemma_string_round_trip, lemma_word_bytes_len,
    length_of_length, list_bytes, Rlp, RlpError,
};
use crate::rlp_types::{encode_pair, pair_length, Bytes, Listed};
use crate::eth_wire_types::items::{RawBlock, Receipt};

verus! {

/// A block that a peer announces.
#[derive(Clone, Copy, Debug, PartialEq, Eq, Structural)]
pub struct BlockHashNumber {
    pub hash: B256,
    pub number: u64,
}

/// The fields of [`BlockHashNumber`] in the order in which they are encoded.
pub type BlockHashNumberFields = (B256, u64);

impl DeepView for BlockHashNumber {
    type V = BlockHashNumber;

    open spec fn deep_view(&self) -> BlockHashNumber {
        *self
    }
}

impl BlockHashNumber {
    /// The fields in the order in which they are encoded.
    pub open spec fn fields(self) -> <BlockHashNumberFields as DeepView>::V {
        (self.hash, self.number)
    }

    /// The value with these fields.
    pub open spec fn of(f: <BlockHashNumberFields as DeepView>::V) -> BlockHashNumber {
        BlockHashNumber { hash: f.0, number: f.1 }
    }
}

impl Rlp for BlockHashNumber {
    open spec fn wire(v: BlockHashNumber) -> Seq<u8> {
        Listed::<BlockHashNumberFields>::wire(v.fields())
    }

    open spec fn sound(v: BlockHashNumber) -> bool {
        true
    }

    open spec fn read(buf: Seq<u8>) -> Result<(BlockHashNumber, int), RlpError> {
        match Listed::<BlockHashNumberFields>::read(buf) {
            Err(e) => Err(e),
            Ok((f, n)) => Ok((BlockHashNumber::of(f), n)),
        }
    }

    fn encode(&self, out: &mut Vec<u8>) {
        let fields: BlockHashNumberFields = (self.hash, self.number);
        Listed(fields).encode(out)
    }

    fn length(&self) -> (n: usize) {
        let fields: BlockHashNumberFields = (self.hash, self.number);
        Listed(fields).length()
    }

    fn decode(buf: &mut &[u8]) -> (r: Result<BlockHashNumber, RlpError>) {
        match Listed::<BlockHashNumberFields>::decode(buf) {
            Err(e) => Err(e),
            Ok(Listed(f)) => Ok(BlockHashNumber { hash: f.0, number: f.1 }),
        }
    }

    proof fn read_within(buf: Seq<u8>) {
        Listed::<BlockHashNumberFields>::read_within(buf);
    }

    proof fn round_trip(v: BlockHashNumber, rest: Seq<u8>) {
        Listed::<BlockHashNumberFields>::round_trip(v.fields(), rest);
    }
}

/// The range of blocks that a peer serves.
#[derive(Clone, Copy, Debug, PartialEq, Eq, Structural)]
pub struct BlockRangeUpdate {
    pub earliest: u64,
    pub latest: u64,
    pub latest_hash: B256,
}

/// The fields of [`BlockRangeUpdate`] in the order in which they are encoded.
pub type BlockRangeUpdateFields = (u64, (u64, B256));

impl DeepView for BlockRangeUpdate {
    type V = BlockRangeUpdate;

    open spec fn deep_view(&self) -> BlockRangeUpdate {
        *self
    }
}

impl BlockRangeUpdate {
    /// The fields in the order in which they are encoded.
    pub open spec fn fields(self) -> <BlockRangeUpdateFields as DeepView>::V {
        (self.earliest, (self.latest, self.latest_hash))
    }

    /// The value with these fields.
    pub open spec fn of(f: <BlockRangeUpdateFields as DeepView>::V) -> BlockRangeUpdate {
        BlockRangeUpdate { earliest: f.0, latest: f.1.0, latest_hash: f.1.1 }
    }
}

impl Rlp for BlockRangeUpdate {
    open spec fn wire(v: BlockRangeUpdate) -> Seq<u8> {
        Listed::<BlockRangeUpdateFields>::wire(v.fields())
    }

    open spec fn sound(v: BlockRangeUpdate) -> bool {
        true
    }

    open spec fn read(buf: Seq<u8>) -> Result<(BlockRangeUpdate, int), RlpError> {
        match Listed::<BlockRangeUpdateFields>::read(buf) {
            Err(e) => Err(e),
            Ok((f, n)) => Ok((BlockRangeUpdate::of(f), n)),
        }
    }

    fn encode(&self, out: &mut Vec<u8>) {
        let fields: BlockRangeUpdateFields = (self.earliest, (self.latest, self.latest_hash));
        Listed(fields).encode(out)
    }

    fn length(&self) -> (n: usize) {
        let fields: BlockRangeUpdateFields = (self.earliest, (self.latest, self.latest_hash));
        Listed(fields).length()
    }

    fn decode(buf: &mut &[u8]) -> (r: Result<BlockRangeUpdate, RlpError>) {
        match Listed::<BlockRangeUpdateFields>::decode(buf) {
            Err(e) => Err(e),
            Ok(Listed(f)) => Ok(BlockRangeUpdate { earliest: f.0, latest: f.1.0, latest_hash: f.1.1 }),
        }
    }

    proof fn read_within(buf: Seq<u8>) {
        Listed::<BlockRangeUpdateFields>::read_within(buf);
    }

    proof fn round_trip(v: BlockRangeUpdate, rest: Seq<u8>) {
        Listed::<BlockRangeUpdateFields>::round_trip(v.fields(), rest);
    }
}

/// The block that a request starts at.
#[derive(Clone, Copy, Debug, PartialEq, Eq, Structural)]
pub enum BlockHashOrNumber {
    Hash(B256),
    Number(u64),
}

impl DeepView for BlockHashOrNumber {
    type V = BlockHashOrNumber;

    open spec fn deep_view(&self) -> BlockHashOrNumber {
        *self
    }
}

impl Rlp for BlockHashOrNumber {
    open spec fn wire(v: BlockHashOrNumber) -> Seq<u8> {
        match v {
            BlockHashOrNumber::Hash(h) => B256::wire(h),
            BlockHashOrNumber::Number(n) => u64::wire(n),
        }
    }

    open spec fn sound(v: BlockHashOrNumber) -> bool {
        true
    }

    open spec fn read(buf: Seq<u8>) -> Result<(BlockHashOrNumber, int), RlpError> {
        if buf.len() == 0 {
            Err(RlpError::InputTooShort)
        } else if buf[0] == 0xa0 {
            match B256::read(buf) {
                Err(e) => Err(e),
                Ok((h, n)) => Ok((BlockHashOrNumber::Hash(h), n)),
            }
        } else {
            match u64::read(buf) {
                Err(e) => Err(e),
                Ok((v, n)) => Ok((BlockHashOrNumber::Number(v), n)),
            }
        }
    }

    fn encode(&self, out: &mut Vec<u8>) {
        match self {
            BlockHashOrNumber::Hash(h) => h.encode(out),
            BlockHashOrNumber::Number(n) => n.encode(out),
        }
    }

    fn length(&self) -> (n: usize) {
        match self {
            BlockHashOrNumber::Hash(h) => h.length(),
            BlockHashOrNumber::Number(n) => n.length(),
        }
    }

    fn decode(buf: &mut &[u8]) -> (r: Result<BlockHashOrNumber, RlpError>) {
        let bytes = *buf;
        if bytes.len() == 0 {
            return Err(RlpError::InputTooShort);
        }
        if bytes[0] == 0xa0 {
            match B256::decode(buf) {
                Err(e) => Err(e),
                Ok(h) => Ok(BlockHashOrNumber::Hash(h)),
            }
        } else {
            match u64::decode(buf) {
                Err(e) => Err(e),
                Ok(n) => Ok(BlockHashOrNumber::Number(n)),
            }
        }
    }

    proof fn read_within(buf: Seq<u8>) {
        B256::read_within(buf);
        u64::read_within(buf);
    }

    proof fn round_trip(v: BlockHashOrNumber, rest: Seq<u8>) {
        match v {
            BlockHashOrNumber::Hash(h) => {
                h.lemma_bytes();
                B256::round_trip(h, rest);
            },
            BlockHashOrNumber::Number(n) => {
                lemma_be_bytes(n as nat);
                lemma_word_bytes_len(n as nat);
                u64::round_trip(n, rest);
                lemma_string_round_trip(be_bytes(n as nat), rest);
            },
        }
    }
}

/// Which way from the first block headers are asked for.
#[derive(Clone, Copy, Debug, PartialEq, Eq, Structural)]
pub enum HeadersDirection {
    Falling,
    Rising,
}

impl DeepView for HeadersDirection {
    type V = HeadersDirection;

    open spec fn deep_view(&self) -> HeadersDirection {
        *self
    }
}

impl Rlp for HeadersDirection {
    open spec fn wire(v: HeadersDirection) -> Seq<u8> {
        bool::wire(v is Falling)
    }

    open spec fn sound(v: HeadersDirection) -> bool {
        true
    }

    open spec fn read(buf: Seq<u8>) -> Result<(HeadersDirection, int), RlpError> {
        match bool::read(buf) {
            Err(e) => Err(e),
            Ok((reverse, n)) => Ok(
                (if reverse { HeadersDirection::Falling } else { HeadersDirection::Rising }, n),
            ),
        }
    }

    fn encode(&self, out: &mut Vec<u8>) {
        let reverse: bool = matches!(self, HeadersDirection::Falling);
        reverse.encode(out)
    }

    fn length(&self) -> (n: usize) {
        let reverse: bool = matches!(self, HeadersDirection::Falling);
        reverse.length()
    }

    fn decode(buf: &mut &[u8]) -> (r: Result<HeadersDirection, RlpError>) {
        match bool::decode(buf) {
            Err(e) => Err(e),
            Ok(reverse) => Ok(
                if reverse {
                    HeadersDirection::Falling
                } else {
                    HeadersDirection::Rising
                },
            ),
        }
    }

    proof fn read_within(buf: Seq<u8>) {
        bool::read_within(buf);
    }

    proof fn round_trip(v: HeadersDirection, rest: Seq<u8>) {
        bool::round_trip(v is Falling, rest);
    }
}

/// A request for headers.
#[derive(Clone, Copy, Debug, PartialEq, Eq, Structural)]
pub struct GetBlockHeaders {
    pub start_block: BlockHashOrNumber,
    pub limit: u64,
    pub skip: u32,
    pub direction: HeadersDirection,
}

/// The fields of [`GetBlockHeaders`] in the order in which they are encoded.
pub type GetBlockHeadersFields = (BlockHashOrNumber, (u64, (u32, HeadersDirection)));

impl DeepView for GetBlockHeaders {
    type V = GetBlockHeaders;

    open spec fn deep_view(&self) -> GetBlockHeaders {
        *self
    }
}

impl GetBlockHeaders {
    /// The fields in the order in which they are encoded.
    pub open spec fn fields(self) -> <GetBlockHeadersFields as DeepView>::V {
        (self.start_block, (self.limit, (self.skip, self.direction)))
    }

    /// The value with these fields.
    pub open spec fn of(f: <GetBlockHeadersFields as DeepView>::V) -> GetBlockHeaders {
        GetBlockHeaders { start_block: f.0, limit: f.1.0, skip: f.1.1.0, direction: f.1.1.1 }
    }
}

impl Rlp for GetBlockHeaders {
    open spec fn wire(v: GetBlockHeaders) -> Seq<u8> {
        Listed::<GetBlockHeadersFields>::wire(v.fields())
    }

    open spec fn sound(v: GetBlockHeaders) -> bool {
        true
    }

    open spec fn read(buf: Seq<u8>) -> Result<(GetBlockHeaders, int), RlpError> {
        match Listed::<GetBlockHeadersFields>::read(buf) {
            Err(e) => Err(e),
            Ok((f, n)) => Ok((GetBlockHeaders::of(f), n)),
        }
    }

    fn encode(&self, out: &mut Vec<u8>) {
        let fields: GetBlockHeadersFields = (self.start_block, (self.limit, (self.skip, self.direction)));
        Listed(fields).encode(out)
    }

    fn length(&self) -> (n: usize) {
        let fields: GetBlockHeadersFields = (self.start_block, (self.limit, (self.skip, self.direction)));
        Listed(fields).length()
    }

    fn decode(buf: &mut &[u8]) -> (r: Result<GetBlockHeaders, RlpError>) {
        match Listed::<GetBlockHeadersFields>::decode(buf) {
            Err(e) => Err(e),
            Ok(Listed(f)) => Ok(GetBlockHeaders { start_block: f.0, limit: f.1.0, skip: f.1.1.0, direction: f.1.1.1 }),
        }
    }

    proof fn read_within(buf: Seq<u8>) {
        Listed::<GetBlockHeadersFields>::read_within(buf);
    }

    proof fn round_trip(v: GetBlockHeaders, rest: Seq<u8>) {
        Listed::<GetBlockHeadersFields>::round_trip(v.fields(), rest);
    }
}

/// A request for receipts from `eth/70` on. It stands in its request without a list of its own.
#[derive(Clone, Debug, PartialEq, Eq)]
pub struct GetReceipts70 {
    pub first_block_receipt_index: u64,
    pub block_hashes: Vec<B256>,
}

/// The fields of [`GetReceipts70`] in the order in which they are encoded.
pub type GetReceipts70Fields = (u64, Vec<B256>);

impl DeepView for GetReceipts70 {
    type V = <GetReceipts70Fields as DeepView>::V;

    open spec fn deep_view(&self) -> <GetReceipts70Fields as DeepView>::V {
        (self.first_block_receipt_index.deep_view(), self.block_hashes.deep_view())
    }
}

impl Rlp for GetReceipts70 {
    open spec fn wire(v: <GetReceipts70Fields as DeepView>::V) -> Seq<u8> {
        GetReceipts70Fields::wire(v)
    }

    open spec fn sound(v: <GetReceipts70Fields as DeepView>::V) -> bool {
        GetReceipts70Fields::sound(v)
    }

    open spec fn read(buf: Seq<u8>) -> Result<(<GetReceipts70Fields as DeepView>::V, int), RlpError> {
        GetReceipts70Fields::read(buf)
    }

    fn encode(&self, out: &mut Vec<u8>) {
        encode_pair(&self.first_block_receipt_index, &self.block_hashes, out)
    }

    fn length(&self) -> (n: usize) {
        pair_length(&self.first_block_receipt_index, &self.block_hashes)
    }

    fn decode(buf: &mut &[u8]) -> (r: Result<GetReceipts70, RlpError>) {
        match GetReceipts70Fields::decode(buf) {
            Err(e) => Err(e),
            Ok(f) => Ok(GetReceipts70 { first_block_receipt_index: f.0, block_hashes: f.1 }),
        }
    }

    proof fn read_within(buf: Seq<u8>) {
        GetReceipts70Fields::read_within(buf);
    }

    proof fn round_trip(v: <GetReceipts70Fields as DeepView>::V, rest: Seq<u8>) {
        GetReceipts70Fields::round_trip(v, rest);
    }
}

/// Receipts from `eth/70` on. They stand in their response without a list of their own.
#[derive(Clone, Debug, PartialEq, Eq)]
pub struct Receipts70 {
    pub last_block_incomplete: bool,
    pub receipts: Vec<Vec<Receipt>>,
}

/// The fields of [`Receipts70`] in the order in which they are encoded.
pub type Receipts70Fields = (bool, Vec<Vec<Receipt>>);

impl DeepView for Receipts70 {
    type V = <Receipts70Fields as DeepView>::V;

    open spec fn deep_view(&self) -> <Receipts70Fields as DeepView>::V {
        (self.last_block_incomplete.deep_view(), self.receipts.deep_view())
    }
}

impl Rlp for Receipts70 {
    open spec fn wire(v: <Receipts70Fields as DeepView>::V) -> Seq<u8> {
        Receipts70Fields::wire(v)
    }

    open spec fn sound(v: <Receipts70Fields as DeepView>::V) -> bool {
        Receipts70Fields::sound(v)
    }

    open spec fn read(buf: Seq<u8>) -> Result<(<Receipts70Fields as DeepView>::V, int), RlpError> {
        Receipts70Fields::read(buf)
    }

    fn encode(&self, out: &mut Vec<u8>) {
        encode_pair(&self.last_block_incomplete, &self.receipts, out)
    }

    fn length(&self) -> (n: usize) {
        pair_length(&self.last_block_incomplete, &self.receipts)
    }

    fn decode(buf: &mut &[u8]) -> (r: Result<Receipts70, RlpError>) {
        match Receipts70Fields::decode(buf) {
            Err(e) => Err(e),
            Ok(f) => Ok(Receipts70 { last_block_incomplete: f.0, receipts: f.1 }),
        }
    }

    proof fn read_within(buf: Seq<u8>) {
        Receipts70Fields::read_within(buf);
    }

    proof fn round_trip(v: <Receipts70Fields as DeepView>::V, rest: Seq<u8>) {
        Receipts70Fields::round_trip(v, rest);
    }
}

/// A new block and the total difficulty at it.
#[derive(Clone, Debug, PartialEq, Eq)]
pub struct NewBlock {
    pub block: RawBlock,
    pub td: U128,
}

/// The fields of [`NewBlock`] in the order in which they are encoded.
pub type NewBlockFields = (RawBlock, U128);

impl DeepView for NewBlock {
    type V = <NewBlockFields as DeepView>::V;

    open spec fn deep_view(&self) -> <NewBlockFields as DeepView>::V {
        (self.block.deep_view(), self.td.deep_view())
    }
}

impl Rlp for NewBlock {
    open spec fn wire(v: <NewBlockFields as DeepView>::V) -> Seq<u8> {
        Listed::<NewBlockFields>::wire(v)
    }

    open spec fn sound(v: <NewBlockFields as DeepView>::V) -> bool {
        NewBlockFields::sound(v)
    }

    open spec fn read(buf: Seq<u8>) -> Result<(<NewBlockFields as DeepView>::V, int), RlpError> {
        Listed::<NewBlockFields>::read(buf)
    }

    fn encode(&self, out: &mut Vec<u8>) {
        let ghost front = out@;
        encode_header(true, pair_length(&self.block, &self.td), out);
        encode_pair(&self.block, &self.td, out);
        proof {
            assert(out@ =~= front + Self::wire(self.deep_view()));
        }
    }

    fn length(&self) -> (n: usize) {
        let payload_length: usize = pair_length(&self.block, &self.td);
        payload_length + length_of_length(payload_length)
    }

    fn decode(buf: &mut &[u8]) -> (r: Result<NewBlock, RlpError>) {
        match Listed::<NewBlockFields>::decode(buf) {
            Err(e) => Err(e),
            Ok(Listed(f)) => Ok(NewBlock { block: f.0, td: f.1 }),
        }
    }

    proof fn read_within(buf: Seq<u8>) {
        Listed::<NewBlockFields>::read_within(buf);
    }

    proof fn round_trip(v: <NewBlockFields as DeepView>::V, rest: Seq<u8>) {
        Listed::<NewBlockFields>::round_trip(v, rest);
    }
}

/// New transactions from `eth/68` on: the type, the size and the hash of each.
#[derive(Clone, Debug, PartialEq, Eq)]
pub struct NewPooledTransactionHashes68 {
    pub types: Bytes,
    pub sizes: Vec<usize>,
    pub hashes: Vec<B256>,
}

/// The fields of [`NewPooledTransactionHashes68`] in the order in which they are encoded.
pub type NewPooledTransactionHashes68Fields = (Bytes, (Vec<usize>, Vec<B256>));

impl DeepView for NewPooledTransactionHashes68 {
    type V = <NewPooledTransactionHashes68Fields as DeepView>::V;

    open spec fn deep_view(&self) -> <NewPooledTransactionHashes68Fields as DeepView>::V {
        (self.types.deep_view(), (self.sizes.deep_view(), self.hashes.deep_view()))
    }
}

impl Rlp for NewPooledTransactionHashes68 {
    open spec fn wire(v: <NewPooledTransactionHashes68Fields as DeepView>::V) -> Seq<u8> {
        Listed::<NewPooledTransactionHashes68Fields>::wire(v)
    }

    open spec fn sound(v: <NewPooledTransactionHashes68Fields as DeepView>::V) -> bool {
        NewPooledTransactionHashes68Fields::sound(v)
    }

    open spec fn read(buf: Seq<u8>) -> Result<
        (<NewPooledTransactionHashes68Fields as DeepView>::V, int),
        RlpError,
    > {
        Listed::<NewPooledTransactionHashes68Fields>::read(buf)
    }

    fn encode(&self, out: &mut Vec<u8>) {
        let ghost front = out@;
        let payload_length: usize = self.types.length() + pair_length(&self.sizes, &self.hashes);
        encode_header(true, payload_length, out);
        self.types.encode(out);
        encode_pair(&self.sizes, &self.hashes, out);
        proof {
            assert(out@ =~= front + Self::wire(self.deep_view()));
        }
    }

    fn length(&self) -> (n: usize) {
        let payload_length: usize = self.types.length() + pair_length(&self.sizes, &self.hashes);
        payload_length + length_of_length(payload_length)
    }

    fn decode(buf: &mut &[u8]) -> (r: Result<NewPooledTransactionHashes68, RlpError>) {
        match Listed::<NewPooledTransactionHashes68Fields>::decode(buf) {
            Err(e) => Err(e),
            Ok(Listed(f)) => Ok(
                NewPooledTransactionHashes68 { types: f.0, sizes: (f.1).0, hashes: (f.1).1 },
            ),
        }
    }

    proof fn read_within(buf: Seq<u8>) {
        Listed::<NewPooledTransactionHashes68Fields>::read_within(buf);
    }

    proof fn round_trip(v: <NewPooledTransactionHashes68Fields as DeepView>::V, rest: Seq<u8>) {
        Listed::<NewPooledTransactionHashes68Fields>::round_trip(v, rest);
    }
}

/// Payloads are sent as lists of their fields in the order of the protocol.
pub proof fn lemma_payload_layouts(
    announced: BlockHashNumber,
    range: BlockRangeUpdate,
    asked: GetBlockHeaders,
)
    ensures
        BlockHashNumber::wire(announced) == list_bytes(
            B256::wire(announced.hash) + u64::wire(announced.number),
        ),
        BlockRangeUpdate::wire(range) == list_bytes(
            u64::wire(range.earliest) + u64::wire(range.latest) + B256::wire(range.latest_hash),
        ),
        GetBlockHeaders::wire(asked) == list_bytes(
            BlockHashOrNumber::wire(asked.start_block) + u64::wire(asked.limit) + u32::wire(
                asked.skip,
            ) + HeadersDirection::wire(asked.direction),
        ),
        HeadersDirection::wire(HeadersDirection::Rising) == seq![0x80u8],
        HeadersDirection::wire(HeadersDirection::Falling) == seq![0x01u8],
{
    assert(BlockRangeUpdateFields::wire(range.fields()) =~= u64::wire(range.earliest) + u64::wire(
        range.latest,
    ) + B256::wire(range.latest_hash));
    assert(GetBlockHeadersFields::wire(asked.fields()) =~= BlockHashOrNumber::wire(
        asked.start_block,
    ) + u64::wire(asked.limit) + u32::wire(asked.skip) + HeadersDirection::wire(asked.direction));
    reveal_with_fuel(be_bytes, 2);
    assert(u8::wire(1) =~= seq![0x01u8]);
    assert(u8::wire(0) =~= seq![0x80u8]);
}

/// A request for receipts sends the place of the first before the hashes of their blocks, and the
/// answer whether the last block is whole before the receipts; a new block is sent before its total
/// difficulty; and of announced transactions the types are sent before the sizes, and those before
/// the hashes.
pub proof fn lemma_longer_layouts(
    asked: <GetReceipts70 as DeepView>::V,
    answered: <Receipts70 as DeepView>::V,
    block: <NewBlock as DeepView>::V,
    hashes: <NewPooledTransactionHashes68 as DeepView>::V,
)
    ensures
        GetReceipts70::wire(asked) == u64::wire(asked.0) + Vec::<B256>::wire(asked.1),
        Receipts70::wire(answered) == bool::wire(answered.0) + Vec::<Vec<Receipt>>::wire(
            answered.1,
        ),
        NewBlock::wire(block) == list_bytes(RawBlock::wire(block.0) + U128::wire(block.1)),
        NewPooledTransactionHashes68::wire(hashes) == list_bytes(
            Bytes::wire(hashes.0) + Vec::<usize>::wire(hashes.1.0) + Vec::<B256>::wire(hashes.1.1),
        ),
{
    assert(NewPooledTransactionHashes68Fields::wire(hashes) =~= Bytes::wire(hashes.0) + Vec::<
        usize,
    >::wire(hashes.1.0) + Vec::<B256>::wire(hashes.1.1));
}

} // verus!
