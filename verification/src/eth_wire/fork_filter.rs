use alloy_eip2124::ForkFilterKey::{Block, Time};
use alloy_eip2124::ValidationError::{LocalIncompatibleOrStale, RemoteStale};
use alloy_eip2124::{ForkFilter as OutsideFilter, ForkHash as OutsideHash, ForkId as OutsideId, Head};
use alloy_primitives::FixedBytes;
use vstd::prelude::*;
use crate::primitives::{ForkHash, B256};
use crate::eth_wire::errors::ForkValidationError;
use crate::eth_wire_types::status::ForkId;

verus! {

/// When a fork becomes active.
#[derive(Clone, Copy, Debug, PartialEq, Eq, Structural)]
pub enum ForkFilterKey {
    /// At a block.
    Block(u64),
    /// At a time.
    Time(u64),
}

/// What is known of the chain by which fork ids of peers are checked: the head, the genesis block
/// and the forks, past and expected.
#[derive(Debug)]
pub struct ForkFilter {
    pub head_number: u64,
    pub head_timestamp: u64,
    pub genesis_hash: B256,
    pub genesis_timestamp: u64,
    pub forks: Vec<ForkFilterKey>,
}

/// Whether a fork id is refused on a chain by the rules of EIP-2124: then whether the peer is
/// outdated, and the fork id of the chain itself.
pub uninterp spec fn fork_refusal(
    number: u64,
    timestamp: u64,
    genesis_hash: Seq<u8>,
    genesis_timestamp: u64,
    forks: Seq<ForkFilterKey>,
    id: ForkId,
) -> Option<(bool, ForkId)>;

/// `alloy_eip2124::ForkFilter::new` and `validate`: builds the filter of a chain and checks a
/// fork id against it. Of the head only the number and the time are looked at. An error says
/// whether it is the one for an outdated peer, and holds the fork id of the chain; the other fork
/// id in it is the one that was checked, and is left out.
#[verifier::external_body]
fn validate_fork_id(
    number: u64,
    timestamp: u64,
    genesis_hash: &[u8],
    genesis_timestamp: u64,
    forks: &[ForkFilterKey],
    id: ForkId,
) -> (r: Option<(bool, ForkId)>)
    requires
        genesis_hash@.len() == 32,
    ensures
        r == fork_refusal(number, timestamp, genesis_hash@, genesis_timestamp, forks@, id),
{
    let keys = forks.iter().map(|k| match *k {
        ForkFilterKey::Block(b) => Block(b),
        ForkFilterKey::Time(t) => Time(t),
    });
    let head = Head { number, timestamp, ..Default::default() };
    let genesis = FixedBytes::from_slice(genesis_hash);
    let id = OutsideId { hash: OutsideHash(id.hash.0.to_be_bytes()), next: id.next };
    let own = |f: OutsideId| ForkId { hash: ForkHash(u32::from_be_bytes(f.hash.0)), next: f.next };
    OutsideFilter::new(head, genesis, genesis_timestamp, keys).validate(id).err().map(|e| match e {
        RemoteStale { local, .. } => (true, own(local)),
        LocalIncompatibleOrStale { local, .. } => (false, own(local)),
    })
}

/// What a check of a fork id comes to.
pub open spec fn checked(refusal: Option<(bool, ForkId)>, id: ForkId) -> Result<
    (),
    ForkValidationError,
> {
    match refusal {
        None => Ok(()),
        Some((true, local)) => Err(ForkValidationError::RemoteStale { local, remote: id }),
        Some((false, local)) => Err(
            ForkValidationError::LocalIncompatibleOrStale { local, remote: id },
        ),
    }
}

/// What a check of a fork id comes to.
pub fn check_refusal(refusal: Option<(bool, ForkId)>, id: ForkId) -> (r: Result<
    (),
    ForkValidationError,
>)
    ensures
        r == checked(refusal, id),
{
    match refusal {
        None => Ok(()),
        Some((stale, local)) => if stale {
            Err(ForkValidationError::RemoteStale { local, remote: id })
        } else {
            Err(ForkValidationError::LocalIncompatibleOrStale { local, remote: id })
        },
    }
}

impl ForkFilter {
    /// Whether a fork id is compatible with the chain.
    pub open spec fn validity(self, id: ForkId) -> Result<(), ForkValidationError> {
        checked(
            fork_refusal(
                self.head_number,
                self.head_timestamp,
                self.genesis_hash.bytes(),
                self.genesis_timestamp,
                self.forks@,
                id,
            ),
            id,
        )
    }

    /// Whether a fork id is compatible with the chain.
    pub fn validate(&self, id: ForkId) -> (r: Result<(), ForkValidationError>)
        ensures
            r == self.validity(id),
    {
        let genesis_hash = self.genesis_hash.to_vec();
        proof {
            self.genesis_hash.lemma_bytes();
        }
        let refusal = validate_fork_id(
            self.head_number,
            self.head_timestamp,
            genesis_hash.as_slice(),
            self.genesis_timestamp,
            self.forks.as_slice(),
            id,
        );
        check_refusal(refusal, id)
    }
}

/// A fork id is compatible exactly where the filter of the chain refuses nothing. A refusal names
/// the fork id that was checked as the one of the peer, and says who is behind.
pub proof fn lemma_refused_fork_ids(refusal: Option<(bool, ForkId)>, id: ForkId)
    ensures
        checked(refusal, id) is Ok <==> refusal is None,
        checked(refusal, id) matches Err(e) ==> match e {
            ForkValidationError::RemoteStale { local, remote } => {
                remote == id && refusal == Some((true, local))
            },
            ForkValidationError::LocalIncompatibleOrStale { local, remote } => {
                remote == id && refusal == Some((false, local))
            },
        },
{
}

} // verus!
