use vstd::prelude::*;
use vstd::utf8::decode_utf8_encode_utf8;
use crate::eth_wire::capability::{Capability, CapabilityFields};
use crate::eth_wire::hello::{HelloFields, HelloMessage, ProtocolVersion};
use crate::eth_wire::p2pstream::{lemma_small_integer, read_p2p, read_p2p_byte};
use crate::eth_wire_types::message::read_message;
use crate::eth_wire_types::payloads::{
    BlockHashNumber, BlockHashNumberFields, BlockHashOrNumber, BlockRangeUpdate,
    BlockRangeUpdateFields, GetBlockHeaders, GetBlockHeadersFields, HeadersDirection,
    NewPooledTransactionHashes68, NewPooledTransactionHashes68Fields,
};
use crate::eth_wire_types::snap::{
    AccountRange, ByteCodes, GetAccountRange, GetByteCodes, GetStorageRanges, GetTrieNodes,
    StorageRanges, TrieNodes,
};
use crate::eth_wire_types::status::{
    ForkId, ForkIdFields, Status, StatusEth69, StatusEth69Fields, StatusFields,
};
use crate::eth_wire_types::version::EthVersion;
use crate::primitives::{
    b256_of, fixed_bytes, lemma_big_uint_is_canonical, peer_id_of, read_big_uint, u256_of, ForkHash,
    PeerId, B256, U128, U256,
};
use crate::rlp::{
    be_value, lemma_be_value_bound, lemma_header_is_canonical, lemma_pow256_values,
    lemma_string_is_canonical, lemma_uint_is_canonical, pow256, read_header, read_string, Rlp,
};
use crate::rlp_payload::{payload_read, payload_wire};
use crate::rlp_types::{items_wire, read_items, word_width, Bytes, Listed};

verus! {

/// Whether values of a type are read only from their own encodings: what is read, encoded again,
/// gives the bytes that it was read from.
pub open spec fn is_unique<T: Rlp>() -> bool {
    forall|buf: Seq<u8>| #[trigger]
        T::read(buf) matches Ok((v, n)) ==> 0 < n <= buf.len() && buf.take(n) == T::wire(v)
}

/// Integers and flags are read only from their own encodings.
pub proof fn lemma_integers_are_unique()
    ensures
        is_unique::<u8>(),
        is_unique::<u16>(),
        is_unique::<u32>(),
        is_unique::<u64>(),
        is_unique::<bool>(),
{
    lemma_pow256_values();
    assert forall|buf: Seq<u8>| (#[trigger] u8::read(buf) matches Ok((v, n)) ==> 0 < n <= buf.len()
        && buf.take(n) == u8::wire(v)) by {
        lemma_uint_is_canonical(buf, 1);
    }
    assert forall|buf: Seq<u8>| (#[trigger] u16::read(buf) matches Ok((v, n)) ==> 0 < n <= buf.len()
        && buf.take(n) == u16::wire(v)) by {
        lemma_uint_is_canonical(buf, 2);
    }
    assert forall|buf: Seq<u8>| (#[trigger] u32::read(buf) matches Ok((v, n)) ==> 0 < n <= buf.len()
        && buf.take(n) == u32::wire(v)) by {
        lemma_uint_is_canonical(buf, 4);
    }
    assert forall|buf: Seq<u8>| (#[trigger] u64::read(buf) matches Ok((v, n)) ==> 0 < n <= buf.len()
        && buf.take(n) == u64::wire(v)) by {
        lemma_uint_is_canonical(buf, 8);
    }
    assert forall|buf: Seq<u8>| (#[trigger] bool::read(buf) matches Ok((v, n)) ==> 0 < n
        <= buf.len() && buf.take(n) == bool::wire(v)) by {
        if let Ok((v, n)) = u8::read(buf) {
            assert(buf.take(n) == u8::wire(v));
        }
    }
}

/// A machine word is read only from its own encoding.
pub proof fn lemma_words_are_unique()
    ensures
        is_unique::<usize>(),
{
    lemma_pow256_values();
    assert forall|buf: Seq<u8>| (#[trigger] usize::read(buf) matches Ok((v, n)) ==> 0 < n
        <= buf.len() && buf.take(n) == usize::wire(v)) by {
        lemma_uint_is_canonical(buf, word_width());
        assert(usize::BITS == 32 || usize::BITS == 64);
        assert(word_width() == 4 || word_width() == 8);
    }
}

/// Bytes of a fixed number are those of the number that they stand for.
proof fn lemma_fixed_inverse(data: Seq<u8>)
    ensures
        fixed_bytes(be_value(data), data.len()) == data,
    decreases data.len(),
{
    if data.len() > 0 {
        let front = data.drop_last();
        lemma_fixed_inverse(front);
        let n = be_value(data);
        assert(n / 256 == be_value(front) && n % 256 == data.last());
        assert(front.push(data.last()) =~= data);
    } else {
        assert(fixed_bytes(be_value(data), 0) =~= data);
    }
}

/// The hash of 32 bytes has these bytes.
proof fn lemma_hash_inverse(data: Seq<u8>)
    requires
        data.len() == 32,
    ensures
        b256_of(data).bytes() == data,
{
    let hi = data.take(16);
    let lo = data.skip(16);
    lemma_fixed_inverse(hi);
    lemma_fixed_inverse(lo);
    lemma_be_value_bound(hi);
    lemma_be_value_bound(lo);
    reveal_with_fuel(pow256, 17);
    assert(hi + lo =~= data);
}

/// Hashes, keys, fork hashes, byte strings and texts are read only from their own encodings.
pub proof fn lemma_strings_are_unique()
    ensures
        is_unique::<B256>(),
        is_unique::<PeerId>(),
        is_unique::<ForkHash>(),
        is_unique::<Bytes>(),
        is_unique::<String>(),
{
    assert forall|buf: Seq<u8>| (#[trigger] B256::read(buf) matches Ok((v, n)) ==> 0 < n
        <= buf.len() && buf.take(n) == B256::wire(v)) by {
        lemma_string_is_canonical(buf);
        if B256::read(buf) is Ok {
            lemma_hash_inverse(read_string(buf)->Ok_0.0);
        }
    }
    assert forall|buf: Seq<u8>| (#[trigger] PeerId::read(buf) matches Ok((v, n)) ==> 0 < n
        <= buf.len() && buf.take(n) == PeerId::wire(v)) by {
        lemma_string_is_canonical(buf);
        if PeerId::read(buf) is Ok {
            let data = read_string(buf)->Ok_0.0;
            lemma_hash_inverse(data.take(32));
            lemma_hash_inverse(data.skip(32));
            assert(data.take(32) + data.skip(32) =~= data);
            assert(peer_id_of(data).bytes() == data);
        }
    }
    assert forall|buf: Seq<u8>| (#[trigger] ForkHash::read(buf) matches Ok((v, n)) ==> 0 < n
        <= buf.len() && buf.take(n) == ForkHash::wire(v)) by {
        lemma_string_is_canonical(buf);
        if ForkHash::read(buf) is Ok {
            let data = read_string(buf)->Ok_0.0;
            lemma_fixed_inverse(data);
            lemma_be_value_bound(data);
            lemma_pow256_values();
        }
    }
    assert forall|buf: Seq<u8>| (#[trigger] Bytes::read(buf) matches Ok((v, n)) ==> 0 < n
        <= buf.len() && buf.take(n) == Bytes::wire(v)) by {
        lemma_string_is_canonical(buf);
    }
    assert forall|buf: Seq<u8>| (#[trigger] String::read(buf) matches Ok((v, n)) ==> 0 < n
        <= buf.len() && buf.take(n) == String::wire(v)) by {
        lemma_string_is_canonical(buf);
        if String::read(buf) is Ok {
            decode_utf8_encode_utf8(read_string(buf)->Ok_0.0);
        }
    }
}

/// A number of 32 bytes is what its halves make up.
proof fn lemma_halves(v: nat)
    requires
        v < pow256(32),
    ensures
        u256_of(v).value() == v,
{
    reveal_with_fuel(pow256, 33);
    let p = pow256(16);
    let hi = v / p;
    let lo = v % p;
    vstd::arithmetic::div_mod::lemma_fundamental_div_mod(v as int, p as int);
    assert(p == 0x1_0000_0000_0000_0000_0000_0000_0000_0000);
    assert(pow256(32)
        == 0x1_0000_0000_0000_0000_0000_0000_0000_0000_0000_0000_0000_0000_0000_0000_0000_0000);
    assert(p * p == pow256(32)) by (nonlinear_arith)
        requires
            p == 0x1_0000_0000_0000_0000_0000_0000_0000_0000,
            pow256(32)
                == 0x1_0000_0000_0000_0000_0000_0000_0000_0000_0000_0000_0000_0000_0000_0000_0000_0000,
    ;
    assert(hi < p) by (nonlinear_arith)
        requires
            v == p * hi + lo,
            v < p * p,
            p > 0,
            lo >= 0,
    ;
    assert(hi * p == p * hi) by (nonlinear_arith);
}

/// Large integers are read only from their own encodings.
pub proof fn lemma_large_integers_are_unique()
    ensures
        is_unique::<U256>(),
        is_unique::<U128>(),
{
    reveal_with_fuel(pow256, 33);
    assert forall|buf: Seq<u8>| (#[trigger] U256::read(buf) matches Ok((v, n)) ==> 0 < n
        <= buf.len() && buf.take(n) == U256::wire(v)) by {
        lemma_big_uint_is_canonical(buf, 32);
        if let Ok((v, _)) = read_big_uint(buf, 32) {
            lemma_halves(v);
        }
    }
    assert forall|buf: Seq<u8>| (#[trigger] U128::read(buf) matches Ok((v, n)) ==> 0 < n
        <= buf.len() && buf.take(n) == U128::wire(v)) by {
        lemma_big_uint_is_canonical(buf, 16);
    }
}

/// A pair is read only from its own encoding where its parts are.
pub proof fn lemma_pairs_are_unique<A: Rlp, B: Rlp>()
    requires
        is_unique::<A>(),
        is_unique::<B>(),
    ensures
        is_unique::<(A, B)>(),
{
    assert forall|buf: Seq<u8>| (#[trigger] <(A, B)>::read(buf) matches Ok((v, n)) ==> 0 < n
        <= buf.len() && buf.take(n) == <(A, B)>::wire(v)) by {
        if let Ok((a, n)) = A::read(buf) {
            if let Ok((b, m)) = B::read(buf.skip(n)) {
                assert(buf.take(n) == A::wire(a));
                assert(buf.skip(n).take(m) == B::wire(b));
                assert(buf.take(n + m) =~= buf.take(n) + buf.skip(n).take(m));
            }
        }
    }
}

/// A list of fields is read only from its own encoding where the fields are.
pub proof fn lemma_lists_of_fields_are_unique<T: Rlp>()
    requires
        is_unique::<T>(),
    ensures
        is_unique::<Listed<T>>(),
{
    assert forall|buf: Seq<u8>| (#[trigger] Listed::<T>::read(buf) matches Ok((v, n)) ==> 0 < n
        <= buf.len() && buf.take(n) == Listed::<T>::wire(v)) by {
        lemma_header_is_canonical(buf);
        Listed::<T>::read_within(buf);
        if let Ok((v, n)) = Listed::<T>::read(buf) {
            let h = read_header(buf)->Ok_0;
            let at = h.header_length as int;
            assert(buf.skip(at).take(n - at) == T::wire(v));
            assert(buf.take(n) =~= buf.take(at) + buf.skip(at).take(n - at));
        }
    }
}

/// Items that were read are those whose encodings were there.
proof fn lemma_items_are_unique<T: Rlp>(payload: Seq<u8>)
    requires
        is_unique::<T>(),
    ensures
        read_items::<T>(payload) matches Ok(vs) ==> items_wire::<T>(vs) == payload,
    decreases payload.len(),
{
    if payload.len() > 0 {
        if let Ok((v, n)) = T::read(payload) {
            lemma_items_are_unique::<T>(payload.skip(n));
            if let Ok(rest) = read_items::<T>(payload.skip(n)) {
                let vs = seq![v] + rest;
                assert(vs.skip(1) =~= rest);
                assert(vs[0] == v);
                assert(payload.take(n) == T::wire(v));
                assert(payload =~= payload.take(n) + payload.skip(n));
            }
        }
    } else {
        assert(payload =~= Seq::empty());
    }
}

/// A list of items is read only from its own encoding where the items are.
pub proof fn lemma_lists_are_unique<T: Rlp>()
    requires
        is_unique::<T>(),
    ensures
        is_unique::<Vec<T>>(),
{
    assert forall|buf: Seq<u8>| (#[trigger] Vec::<T>::read(buf) matches Ok((v, n)) ==> 0 < n
        <= buf.len() && buf.take(n) == Vec::<T>::wire(v)) by {
        lemma_header_is_canonical(buf);
        Vec::<T>::read_within(buf);
        if let Ok((v, n)) = Vec::<T>::read(buf) {
            let h = read_header(buf)->Ok_0;
            let at = h.header_length as int;
            let payload = buf.subrange(at, n);
            lemma_items_are_unique::<T>(payload);
            assert(buf.take(n) =~= buf.take(at) + payload);
        }
    }
}

/// What tells versions apart, a status in either form and a fork id are read only from their own
/// encodings.
pub proof fn lemma_statuses_are_unique()
    ensures
        is_unique::<EthVersion>(),
        is_unique::<ForkId>(),
        is_unique::<Status>(),
        is_unique::<StatusEth69>(),
{
    lemma_integers_are_unique();
    lemma_strings_are_unique();
    lemma_large_integers_are_unique();
    assert forall|buf: Seq<u8>| (#[trigger] EthVersion::read(buf) matches Ok((v, n)) ==> 0 < n
        <= buf.len() && buf.take(n) == EthVersion::wire(v)) by {
        if let Ok((v, n)) = u8::read(buf) {
            assert(buf.take(n) == u8::wire(v));
        }
    }
    lemma_pairs_are_unique::<ForkHash, u64>();
    lemma_lists_of_fields_are_unique::<(ForkHash, u64)>();
    assert forall|buf: Seq<u8>| (#[trigger] ForkId::read(buf) matches Ok((v, n)) ==> 0 < n <= buf.len()
        && buf.take(n) == ForkId::wire(v)) by {
        assert(Listed::<ForkIdFields>::read(buf) matches Ok((f, n)) ==> 0 < n <= buf.len() && buf.take(n)
            == Listed::<ForkIdFields>::wire(f));
    }
    lemma_pairs_are_unique::<B256, ForkId>();
    lemma_pairs_are_unique::<B256, (B256, ForkId)>();
    lemma_pairs_are_unique::<U256, (B256, (B256, ForkId))>();
    lemma_pairs_are_unique::<u64, (U256, (B256, (B256, ForkId)))>();
    lemma_pairs_are_unique::<EthVersion, (u64, (U256, (B256, (B256, ForkId))))>();
    lemma_lists_of_fields_are_unique::<(EthVersion, (u64, (U256, (B256, (B256, ForkId)))))>();
    assert forall|buf: Seq<u8>| (#[trigger] Status::read(buf) matches Ok((v, n)) ==> 0 < n <= buf.len()
        && buf.take(n) == Status::wire(v)) by {
        assert(Listed::<StatusFields>::read(buf) matches Ok((f, n)) ==> 0 < n <= buf.len() && buf.take(n)
            == Listed::<StatusFields>::wire(f));
    }
    lemma_pairs_are_unique::<u64, B256>();
    lemma_pairs_are_unique::<u64, (u64, B256)>();
    lemma_pairs_are_unique::<ForkId, (u64, (u64, B256))>();
    lemma_pairs_are_unique::<B256, (ForkId, (u64, (u64, B256)))>();
    lemma_pairs_are_unique::<u64, (B256, (ForkId, (u64, (u64, B256))))>();
    lemma_pairs_are_unique::<EthVersion, (u64, (B256, (ForkId, (u64, (u64, B256)))))>();
    lemma_lists_of_fields_are_unique::<(EthVersion, (u64, (B256, (ForkId, (u64, (u64, B256))))))>();
    assert forall|buf: Seq<u8>| (#[trigger] StatusEth69::read(buf) matches Ok((v, n)) ==> 0 < n <= buf.len()
        && buf.take(n) == StatusEth69::wire(v)) by {
        assert(Listed::<StatusEth69Fields>::read(buf) matches Ok((f, n)) ==> 0 < n <= buf.len() && buf.take(n)
            == Listed::<StatusEth69Fields>::wire(f));
    }
}

/// Announced blocks and transactions, ranges of blocks and requests for headers are read only from
/// their own encodings.
pub proof fn lemma_payloads_are_unique()
    ensures
        is_unique::<BlockHashNumber>(),
        is_unique::<Vec<BlockHashNumber>>(),
        is_unique::<BlockRangeUpdate>(),
        is_unique::<GetBlockHeaders>(),
        is_unique::<NewPooledTransactionHashes68>(),
        is_unique::<Vec<B256>>(),
{
    lemma_integers_are_unique();
    lemma_words_are_unique();
    lemma_strings_are_unique();
    lemma_pairs_are_unique::<B256, u64>();
    lemma_lists_of_fields_are_unique::<(B256, u64)>();
    assert forall|buf: Seq<u8>| (#[trigger] BlockHashNumber::read(buf) matches Ok((v, n)) ==> 0 < n <= buf.len()
        && buf.take(n) == BlockHashNumber::wire(v)) by {
        assert(Listed::<BlockHashNumberFields>::read(buf) matches Ok((f, n)) ==> 0 < n <= buf.len() && buf.take(n)
            == Listed::<BlockHashNumberFields>::wire(f));
    }
    lemma_lists_are_unique::<BlockHashNumber>();
    lemma_pairs_are_unique::<u64, B256>();
    lemma_pairs_are_unique::<u64, (u64, B256)>();
    lemma_lists_of_fields_are_unique::<(u64, (u64, B256))>();
    assert forall|buf: Seq<u8>| (#[trigger] BlockRangeUpdate::read(buf) matches Ok((v, n)) ==> 0 < n <= buf.len()
        && buf.take(n) == BlockRangeUpdate::wire(v)) by {
        assert(Listed::<BlockRangeUpdateFields>::read(buf) matches Ok((f, n)) ==> 0 < n <= buf.len() && buf.take(n)
            == Listed::<BlockRangeUpdateFields>::wire(f));
    }
    assert forall|buf: Seq<u8>| (#[trigger] BlockHashOrNumber::read(buf) matches Ok((v, n)) ==> 0 < n
        <= buf.len() && buf.take(n) == BlockHashOrNumber::wire(v)) by {
        assert(B256::read(buf) matches Ok((h, n)) ==> buf.take(n) == B256::wire(h));
        assert(u64::read(buf) matches Ok((v, n)) ==> buf.take(n) == u64::wire(v));
    }
    assert forall|buf: Seq<u8>| (#[trigger] HeadersDirection::read(buf) matches Ok((v, n)) ==> 0 < n
        <= buf.len() && buf.take(n) == HeadersDirection::wire(v)) by {
        assert(bool::read(buf) matches Ok((b, n)) ==> buf.take(n) == bool::wire(b));
    }
    lemma_pairs_are_unique::<u32, HeadersDirection>();
    lemma_pairs_are_unique::<u64, (u32, HeadersDirection)>();
    lemma_pairs_are_unique::<BlockHashOrNumber, (u64, (u32, HeadersDirection))>();
    lemma_lists_of_fields_are_unique::<(BlockHashOrNumber, (u64, (u32, HeadersDirection)))>();
    assert forall|buf: Seq<u8>| (#[trigger] GetBlockHeaders::read(buf) matches Ok((v, n)) ==> 0 < n <= buf.len()
        && buf.take(n) == GetBlockHeaders::wire(v)) by {
        assert(Listed::<GetBlockHeadersFields>::read(buf) matches Ok((f, n)) ==> 0 < n <= buf.len() && buf.take(n)
            == Listed::<GetBlockHeadersFields>::wire(f));
    }
    lemma_lists_are_unique::<B256>();
    lemma_lists_are_unique::<usize>();
    lemma_pairs_are_unique::<Vec<usize>, Vec<B256>>();
    lemma_pairs_are_unique::<Bytes, (Vec<usize>, Vec<B256>)>();
    lemma_lists_of_fields_are_unique::<(Bytes, (Vec<usize>, Vec<B256>))>();
    assert forall|buf: Seq<u8>| (#[trigger] NewPooledTransactionHashes68::read(buf) matches Ok((v, n))
        ==> 0 < n <= buf.len() && buf.take(n) == NewPooledTransactionHashes68::wire(v)) by {
        assert(Listed::<NewPooledTransactionHashes68Fields>::read(buf) matches Ok((f, n)) ==> 0 < n
            <= buf.len() && buf.take(n) == Listed::<NewPooledTransactionHashes68Fields>::wire(f));
    }
}

/// A hello is read only from its own encoding.
pub proof fn lemma_hellos_are_unique()
    ensures
        is_unique::<ProtocolVersion>(),
        is_unique::<Capability>(),
        is_unique::<HelloMessage>(),
{
    lemma_integers_are_unique();
    lemma_words_are_unique();
    lemma_strings_are_unique();
    assert forall|buf: Seq<u8>| (#[trigger] ProtocolVersion::read(buf) matches Ok((v, n)) ==> 0 < n
        <= buf.len() && buf.take(n) == ProtocolVersion::wire(v)) by {
        if let Ok((v, n)) = u8::read(buf) {
            assert(buf.take(n) == u8::wire(v));
        }
    }
    lemma_pairs_are_unique::<String, usize>();
    lemma_lists_of_fields_are_unique::<(String, usize)>();
    assert forall|buf: Seq<u8>| (#[trigger] Capability::read(buf) matches Ok((v, n)) ==> 0 < n
        <= buf.len() && buf.take(n) == Capability::wire(v)) by {
        assert(Listed::<CapabilityFields>::read(buf) matches Ok((f, n)) ==> 0 < n <= buf.len()
            && buf.take(n) == Listed::<CapabilityFields>::wire(f));
    }
    lemma_lists_are_unique::<Capability>();
    lemma_pairs_are_unique::<u16, PeerId>();
    lemma_pairs_are_unique::<Vec<Capability>, (u16, PeerId)>();
    lemma_pairs_are_unique::<String, (Vec<Capability>, (u16, PeerId))>();
    lemma_pairs_are_unique::<ProtocolVersion, (String, (Vec<Capability>, (u16, PeerId)))>();
    lemma_lists_of_fields_are_unique::<(ProtocolVersion, (String, (Vec<Capability>, (u16, PeerId))))>();
    assert forall|buf: Seq<u8>| (#[trigger] HelloMessage::read(buf) matches Ok((v, n)) ==> 0 < n <= buf.len()
        && buf.take(n) == HelloMessage::wire(v)) by {
        assert(Listed::<HelloFields>::read(buf) matches Ok((f, n)) ==> 0 < n <= buf.len() && buf.take(n)
            == Listed::<HelloFields>::wire(f));
    }
}

/// Every message of `snap` is read only from its own encoding.
pub proof fn lemma_snap_messages_are_unique()
    ensures
        is_unique::<GetAccountRange>(),
        is_unique::<AccountRange>(),
        is_unique::<GetStorageRanges>(),
        is_unique::<StorageRanges>(),
        is_unique::<GetByteCodes>(),
        is_unique::<ByteCodes>(),
        is_unique::<GetTrieNodes>(),
        is_unique::<TrieNodes>(),
{
    lemma_integers_are_unique();
    lemma_strings_are_unique();
    lemma_lists_are_unique::<B256>();
    lemma_lists_are_unique::<Bytes>();
    lemma_lists_of_fields_are_unique::<Vec<Bytes>>();
    lemma_lists_are_unique::<Listed<Vec<Bytes>>>();
    lemma_pairs_are_unique::<B256, Bytes>();
    lemma_lists_of_fields_are_unique::<(B256, Bytes)>();
    lemma_lists_are_unique::<Listed<(B256, Bytes)>>();
    lemma_lists_are_unique::<Vec<Listed<(B256, Bytes)>>>();
    lemma_pairs_are_unique::<B256, u64>();
    lemma_pairs_are_unique::<B256, (B256, u64)>();
    lemma_pairs_are_unique::<B256, (B256, (B256, u64))>();
    lemma_pairs_are_unique::<u64, (B256, (B256, (B256, u64)))>();
    lemma_lists_of_fields_are_unique::<(u64, (B256, (B256, (B256, u64))))>();
    lemma_pairs_are_unique::<Vec<Listed<(B256, Bytes)>>, Vec<Bytes>>();
    lemma_pairs_are_unique::<u64, (Vec<Listed<(B256, Bytes)>>, Vec<Bytes>)>();
    lemma_lists_of_fields_are_unique::<(u64, (Vec<Listed<(B256, Bytes)>>, Vec<Bytes>))>();
    lemma_pairs_are_unique::<B256, u64>();
    lemma_pairs_are_unique::<B256, (B256, u64)>();
    lemma_pairs_are_unique::<Vec<B256>, (B256, (B256, u64))>();
    lemma_pairs_are_unique::<B256, (Vec<B256>, (B256, (B256, u64)))>();
    lemma_pairs_are_unique::<u64, (B256, (Vec<B256>, (B256, (B256, u64))))>();
    lemma_lists_of_fields_are_unique::<(u64, (B256, (Vec<B256>, (B256, (B256, u64)))))>();
    lemma_pairs_are_unique::<Vec<Vec<Listed<(B256, Bytes)>>>, Vec<Bytes>>();
    lemma_pairs_are_unique::<u64, (Vec<Vec<Listed<(B256, Bytes)>>>, Vec<Bytes>)>();
    lemma_lists_of_fields_are_unique::<(u64, (Vec<Vec<Listed<(B256, Bytes)>>>, Vec<Bytes>))>();
    lemma_pairs_are_unique::<Vec<B256>, u64>();
    lemma_pairs_are_unique::<u64, (Vec<B256>, u64)>();
    lemma_lists_of_fields_are_unique::<(u64, (Vec<B256>, u64))>();
    lemma_pairs_are_unique::<u64, Vec<Bytes>>();
    lemma_lists_of_fields_are_unique::<(u64, Vec<Bytes>)>();
    lemma_pairs_are_unique::<Vec<Listed<Vec<Bytes>>>, u64>();
    lemma_pairs_are_unique::<B256, (Vec<Listed<Vec<Bytes>>>, u64)>();
    lemma_pairs_are_unique::<u64, (B256, (Vec<Listed<Vec<Bytes>>>, u64))>();
    lemma_lists_of_fields_are_unique::<(u64, (B256, (Vec<Listed<Vec<Bytes>>>, u64)))>();
}

/// A payload of a type whose values are read only from their own encodings is too.
proof fn lemma_payload_is_unique<T: Rlp>(buf: Seq<u8>)
    requires
        is_unique::<T>(),
    ensures
        payload_read::<T>(buf) matches Ok((v, n)) ==> 0 < n <= buf.len() && buf.take(n)
            == payload_wire::<T>(v),
{
    reveal(payload_read);
    reveal(payload_wire);
    assert(T::read(buf) matches Ok((v, n)) ==> 0 < n <= buf.len() && buf.take(n) == T::wire(v));
}

/// A status, announced blocks and transactions, and a range of blocks are read only from the bytes
/// that are sent for them.
pub proof fn lemma_messages_are_unique(version: EthVersion, buf: Seq<u8>)
    ensures
        read_message(version, buf) matches Ok((m, n)) ==> (m is Status || m is NewBlockHashes || m
            is NewPooledTransactionHashes66 || m is NewPooledTransactionHashes68 || m
            is BlockRangeUpdate || m is Other) ==> {
            &&& 0 < n <= buf.len()
            &&& buf.take(n) == seq![m.id().byte()] + m.wire()
        },
{
    let rest = buf.skip(1);
    assert(payload_read::<Status>(rest) matches Ok((v, n)) ==> 0 < n <= rest.len() && rest.take(n)
        == payload_wire::<Status>(v)) by {
        lemma_statuses_are_unique();
        lemma_payload_is_unique::<Status>(rest);
    }
    assert(payload_read::<StatusEth69>(rest) matches Ok((v, n)) ==> 0 < n <= rest.len() && rest.take(n)
        == payload_wire::<StatusEth69>(v)) by {
        lemma_statuses_are_unique();
        lemma_payload_is_unique::<StatusEth69>(rest);
    }
    assert(payload_read::<Vec<BlockHashNumber>>(rest) matches Ok((v, n)) ==> 0 < n <= rest.len() && rest.take(n)
        == payload_wire::<Vec<BlockHashNumber>>(v)) by {
        lemma_payloads_are_unique();
        lemma_payload_is_unique::<Vec<BlockHashNumber>>(rest);
    }
    assert(payload_read::<Vec<B256>>(rest) matches Ok((v, n)) ==> 0 < n <= rest.len() && rest.take(n)
        == payload_wire::<Vec<B256>>(v)) by {
        lemma_payloads_are_unique();
        lemma_payload_is_unique::<Vec<B256>>(rest);
    }
    assert(payload_read::<NewPooledTransactionHashes68>(rest) matches Ok((v, n)) ==> 0 < n <= rest.len() && rest.take(n)
        == payload_wire::<NewPooledTransactionHashes68>(v)) by {
        lemma_payloads_are_unique();
        lemma_payload_is_unique::<NewPooledTransactionHashes68>(rest);
    }
    assert(payload_read::<BlockRangeUpdate>(rest) matches Ok((v, n)) ==> 0 < n <= rest.len() && rest.take(n)
        == payload_wire::<BlockRangeUpdate>(v)) by {
        lemma_payloads_are_unique();
        lemma_payload_is_unique::<BlockRangeUpdate>(rest);
    }
    if let Ok((m, n)) = read_message(version, buf) {
        if m is Status || m is NewBlockHashes || m is NewPooledTransactionHashes66 || m
            is NewPooledTransactionHashes68 || m is BlockRangeUpdate || m is Other {
            if m is Other {
                assert(rest.take(n - 1) =~= rest);
            }
            assert(0 < n <= buf.len());
            assert(buf.take(n) =~= seq![buf[0]] + rest.take(n - 1));
            assert(m.id().byte() == buf[0]);
            assert(rest.take(n - 1) == m.wire());
        }
    }
}

/// A hello, a ping and a pong are read only from the bytes that are sent for them.
pub proof fn lemma_p2p_messages_are_unique(buf: Seq<u8>)
    ensures
        read_p2p(buf) matches Ok((m, n)) ==> !(m is Disconnect) ==> {
            &&& 0 < n <= buf.len()
            &&& buf.take(n) == m.wire()
        },
{
    lemma_integers_are_unique();
    lemma_hellos_are_unique();
    let rest = buf.skip(1);
    lemma_payload_is_unique::<HelloMessage>(rest);
    reveal(read_p2p_byte);
    if let Ok((m, n)) = read_p2p(buf) {
        let (b, k) = u8::read(buf)->Ok_0;
        assert(buf.take(k) == u8::wire(b));
        lemma_small_integer(b);
        assert(k == u8::wire(b).len());
        assert(buf[0] == buf.take(k)[0]);
        if !(m is Disconnect) {
            assert(rest.take(n - 1) =~= buf.subrange(1, n));
            assert(buf.take(n) =~= seq![buf[0]] + rest.take(n - 1));
            assert(buf.take(n) =~= m.wire());
        }
    }
}

} // verus!
