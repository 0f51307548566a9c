use vstd::prelude::*;

verus! {

/// The Snappy block that `snap` compresses bytes into.
pub uninterp spec fn snappy(data: Seq<u8>) -> Seq<u8>;

/// How many bytes the header of a Snappy block says that it holds, if it says that.
pub uninterp spec fn snappy_length(block: Seq<u8>) -> Option<usize>;

/// The bytes that a Snappy block holds, if it is one.
pub uninterp spec fn unsnappy(block: Seq<u8>) -> Option<Seq<u8>>;

/// Whether a block holds these bytes, and says how many they are.
pub open spec fn holds(block: Seq<u8>, data: Seq<u8>) -> bool {
    unsnappy(block) == Some(data) && snappy_length(block) == Some(data.len() as usize)
}

/// `snap::raw::Encoder::compress_vec`: the block of `data`. It fails only where the block could
/// come to more than `2^32 - 1` bytes, 32 and a sixth of the input being allowed for on top of
/// it. Decompressing the block gives the input back, and the block of an input that is not empty
/// takes three bytes at least: the length, the tag of a literal and the literal.
#[verifier::external_body]
pub(crate) fn compress(data: &[u8]) -> (r: Result<Vec<u8>, snap::Error>)
    ensures
        r is Ok <==> 32 + data@.len() + data@.len() / 6 <= 0xffff_ffff,
        r matches Ok(block) ==> {
            &&& block@ == snappy(data@)
            &&& holds(block@, data@)
            &&& data@.len() > 0 ==> block@.len() >= 3
        },
{
    snap::raw::Encoder::new().compress_vec(data)
}

/// `snap::raw::decompress_len`: how many bytes the header of `block` says that it holds.
#[verifier::external_body]
pub(crate) fn decompress_len(block: &[u8]) -> (r: Result<usize, snap::Error>)
    ensures
        match r {
            Ok(n) => snappy_length(block@) == Some(n),
            Err(_) => snappy_length(block@) is None,
        },
{
    snap::raw::decompress_len(block)
}

/// `snap::raw::Decoder::decompress_vec`: the bytes that `block` holds, as many as its header says.
#[verifier::external_body]
pub(crate) fn decompress(block: &[u8]) -> (r: Result<Vec<u8>, snap::Error>)
    ensures
        match r {
            Ok(data) => unsnappy(block@) == Some(data@) && snappy_length(block@) == Some(
                data@.len() as usize,
            ),
            Err(_) => unsnappy(block@) is None,
        },
{
    snap::raw::Decoder::new().decompress_vec(block)
}

} // verus!
