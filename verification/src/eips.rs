use vstd::prelude::*;

verus! {

/// `alloy_eips::merge::EPOCH_SLOTS`: an epoch of the beacon chain has 32 slots.
#[verifier::external_body]
pub(crate) fn epoch_slots() -> (slots: u64)
    ensures
        slots == 32,
{
    alloy_eips::merge::EPOCH_SLOTS
}

/// `alloy_eips::eip7840::BlobParams::cancun`: the Cancun fork aims at three blobs in a block.
#[verifier::external_body]
pub(crate) fn cancun_target_blob_count() -> (count: u64)
    ensures
        count == 3,
{
    alloy_eips::eip7840::BlobParams::cancun().target_blob_count
}

} // verus!
