use vstd::prelude::*;
use crate::rlp::{Rlp, RlpError};

verus! {

/// The encoding of a payload.
#[verifier::opaque]
pub open spec fn payload_wire<T: Rlp>(v: T::V) -> Seq<u8> {
    T::wire(v)
}

/// Whether a payload is one that its own encoding gives back.
#[verifier::opaque]
pub open spec fn payload_sound<T: Rlp>(v: T::V) -> bool {
    T::sound(v)
}

/// What reading a payload at the front of `buf` gives.
#[verifier::opaque]
pub open spec fn payload_read<T: Rlp>(buf: Seq<u8>) -> Result<(T::V, int), RlpError> {
    T::read(buf)
}

/// A payload is read back from its encoding.
pub proof fn lemma_payload_round_trip<T: Rlp>(v: T::V)
    requires
        payload_sound::<T>(v),
        payload_wire::<T>(v).len() <= usize::MAX,
    ensures
        payload_read::<T>(payload_wire::<T>(v)) == Ok::<(T::V, int), RlpError>(
            (v, payload_wire::<T>(v).len() as int),
        ),
{
    reveal(payload_read);
    reveal(payload_wire);
    reveal(payload_sound);
    T::round_trip(v, Seq::empty());
    assert(T::wire(v) + Seq::<u8>::empty() =~= T::wire(v));
}

/// A value that its own encoding gives back is read back as a payload.
pub proof fn lemma_sound_round_trip<T: Rlp>(v: T::V)
    requires
        T::sound(v),
        payload_wire::<T>(v).len() <= usize::MAX,
    ensures
        payload_read::<T>(payload_wire::<T>(v)) == Ok::<(T::V, int), RlpError>(
            (v, payload_wire::<T>(v).len() as int),
        ),
{
    reveal(payload_sound);
    lemma_payload_round_trip::<T>(v);
}

/// Reads a payload from the front of `buf` and moves the front behind it.
pub(crate) fn decode_payload<T: Rlp>(buf: &mut &[u8]) -> (r: Result<T, RlpError>)
    ensures
        match payload_read::<T>(old(buf)@) {
            Ok((v, n)) => {
                &&& r is Ok
                &&& r->Ok_0.deep_view() == v
                &&& final(buf)@ == old(buf)@.skip(n)
                &&& 0 < n <= old(buf)@.len()
            },
            Err(e) => r == Err::<T, RlpError>(e),
        },
{
    proof {
        reveal(payload_read);
        T::read_within(buf@);
    }
    T::decode(buf)
}

/// Appends the encoding of a payload.
pub(crate) fn encode_payload<T: Rlp>(m: &T, out: &mut Vec<u8>)
    requires
        payload_wire::<T>(m.deep_view()).len() <= usize::MAX,
    ensures
        final(out)@ == old(out)@ + payload_wire::<T>(m.deep_view()),
{
    proof {
        reveal(payload_wire);
    }
    m.encode(out)
}

/// The length of the encoding of a payload.
pub(crate) fn payload_length<T: Rlp>(m: &T) -> (n: usize)
    requires
        payload_wire::<T>(m.deep_view()).len() <= usize::MAX,
    ensures
        n == payload_wire::<T>(m.deep_view()).len(),
{
    proof {
        reveal(payload_wire);
    }
    m.length()
}

} // verus!
