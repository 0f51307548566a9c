use vstd::prelude::*;
use crate::primitives::{ForkHash, B256, U256};
use crate::rlp::{list_bytes, Rlp, RlpError};
use crate::rlp_types::Listed;
use crate::eth_wire_types::version::EthVersion;

verus! {

/// The forks that a chain has passed, and the next one, by which peers are told apart.
#[derive(Clone, Copy, Debug, PartialEq, Eq, Structural, Hash)]
pub struct ForkId {
    pub hash: ForkHash,
    pub next: u64,
}

/// The fields of [`ForkId`] in the order in which they are encoded.
pub type ForkIdFields = (ForkHash, u64);

impl DeepView for ForkId {
    type V = ForkId;

    open spec fn deep_view(&self) -> ForkId {
        *self
    }
}

impl ForkId {
    /// The fields in the order in which they are encoded.
    pub open spec fn fields(self) -> <ForkIdFields as DeepView>::V {
        (self.hash, self.next)
    }

    /// The value with these fields.
    pub open spec fn of(f: <ForkIdFields as DeepView>::V) -> ForkId {
        ForkId { hash: f.0, next: f.1 }
    }
}

impl Rlp for ForkId {
    open spec fn wire(v: ForkId) -> Seq<u8> {
        Listed::<ForkIdFields>::wire(v.fields())
    }

    open spec fn sound(v: ForkId) -> bool {
        true
    }

    open spec fn read(buf: Seq<u8>) -> Result<(ForkId, int), RlpError> {
        match Listed::<ForkIdFields>::read(buf) {
            Err(e) => Err(e),
            Ok((f, n)) => Ok((ForkId::of(f), n)),
        }
    }

    fn encode(&self, out: &mut Vec<u8>) {
        let fields: ForkIdFields = (self.hash, self.next);
        Listed(fields).encode(out)
    }

    fn length(&self) -> (n: usize) {
        let fields: ForkIdFields = (self.hash, self.next);
        Listed(fields).length()
    }

    fn decode(buf: &mut &[u8]) -> (r: Result<ForkId, RlpError>) {
        match Listed::<ForkIdFields>::decode(buf) {
            Err(e) => Err(e),
            Ok(Listed(f)) => Ok(ForkId { hash: f.0, next: f.1 }),
        }
    }

    proof fn read_within(buf: Seq<u8>) {
        Listed::<ForkIdFields>::read_within(buf);
    }

    proof fn round_trip(v: ForkId, rest: Seq<u8>) {
        Listed::<ForkIdFields>::round_trip(v.fields(), rest);
    }
}

/// The status of a peer before `eth/69`.
#[derive(Clone, Copy, Debug, PartialEq, Eq, Structural)]
pub struct Status {
    pub version: EthVersion,
    pub chain: u64,
    pub total_difficulty: U256,
    pub blockhash: B256,
    pub genesis: B256,
    pub forkid: ForkId,
}

/// The fields of [`Status`] in the order in which they are encoded.
pub type StatusFields = (EthVersion, (u64, (U256, (B256, (B256, ForkId)))));

impl DeepView for Status {
    type V = Status;

    open spec fn deep_view(&self) -> Status {
        *self
    }
}

impl Status {
    /// The fields in the order in which they are encoded.
    pub open spec fn fields(self) -> <StatusFields as DeepView>::V {
        (self.version, (self.chain, (self.total_difficulty, (self.blockhash, (self.genesis, self.forkid)))))
    }

    /// The value with these fields.
    pub open spec fn of(f: <StatusFields as DeepView>::V) -> Status {
        Status { version: f.0, chain: f.1.0, total_difficulty: f.1.1.0, blockhash: f.1.1.1.0, genesis: f.1.1.1.1.0, forkid: f.1.1.1.1.1 }
    }
}

impl Rlp for Status {
    open spec fn wire(v: Status) -> Seq<u8> {
        Listed::<StatusFields>::wire(v.fields())
    }

    open spec fn sound(v: Status) -> bool {
        true
    }

    open spec fn read(buf: Seq<u8>) -> Result<(Status, int), RlpError> {
        match Listed::<StatusFields>::read(buf) {
            Err(e) => Err(e),
            Ok((f, n)) => Ok((Status::of(f), n)),
        }
    }

    fn encode(&self, out: &mut Vec<u8>) {
        let fields: StatusFields = (self.version, (self.chain, (self.total_difficulty, (self.blockhash, (self.genesis, self.forkid)))));
        Listed(fields).encode(out)
    }

    fn length(&self) -> (n: usize) {
        let fields: StatusFields = (self.version, (self.chain, (self.total_difficulty, (self.blockhash, (self.genesis, self.forkid)))));
        Listed(fields).length()
    }

    fn decode(buf: &mut &[u8]) -> (r: Result<Status, RlpError>) {
        match Listed::<StatusFields>::decode(buf) {
            Err(e) => Err(e),
            Ok(Listed(f)) => Ok(Status { version: f.0, chain: f.1.0, total_difficulty: f.1.1.0, blockhash: f.1.1.1.0, genesis: f.1.1.1.1.0, forkid: f.1.1.1.1.1 }),
        }
    }

    proof fn read_within(buf: Seq<u8>) {
        Listed::<StatusFields>::read_within(buf);
    }

    proof fn round_trip(v: Status, rest: Seq<u8>) {
        Listed::<StatusFields>::round_trip(v.fields(), rest);
    }
}

/// The status of a peer from `eth/69` on: no total difficulty, but the range of blocks served.
#[derive(Clone, Copy, Debug, PartialEq, Eq, Structural)]
pub struct StatusEth69 {
    pub version: EthVersion,
    pub chain: u64,
    pub genesis: B256,
    pub forkid: ForkId,
    pub earliest: u64,
    pub latest: u64,
    pub blockhash: B256,
}

/// The fields of [`StatusEth69`] in the order in which they are encoded.
pub type StatusEth69Fields = (EthVersion, (u64, (B256, (ForkId, (u64, (u64, B256))))));

impl DeepView for StatusEth69 {
    type V = StatusEth69;

    open spec fn deep_view(&self) -> StatusEth69 {
        *self
    }
}

impl StatusEth69 {
    /// The fields in the order in which they are encoded.
    pub open spec fn fields(self) -> <StatusEth69Fields as DeepView>::V {
        (self.version, (self.chain, (self.genesis, (self.forkid, (self.earliest, (self.latest, self.blockhash))))))
    }

    /// The value with these fields.
    pub open spec fn of(f: <StatusEth69Fields as DeepView>::V) -> StatusEth69 {
        StatusEth69 { version: f.0, chain: f.1.0, genesis: f.1.1.0, forkid: f.1.1.1.0, earliest: f.1.1.1.1.0, latest: f.1.1.1.1.1.0, blockhash: f.1.1.1.1.1.1 }
    }
}

impl Rlp for StatusEth69 {
    open spec fn wire(v: StatusEth69) -> Seq<u8> {
        Listed::<StatusEth69Fields>::wire(v.fields())
    }

    open spec fn sound(v: StatusEth69) -> bool {
        true
    }

    open spec fn read(buf: Seq<u8>) -> Result<(StatusEth69, int), RlpError> {
        match Listed::<StatusEth69Fields>::read(buf) {
            Err(e) => Err(e),
            Ok((f, n)) => Ok((StatusEth69::of(f), n)),
        }
    }

    fn encode(&self, out: &mut Vec<u8>) {
        let fields: StatusEth69Fields = (self.version, (self.chain, (self.genesis, (self.forkid, (self.earliest, (self.latest, self.blockhash))))));
        Listed(fields).encode(out)
    }

    fn length(&self) -> (n: usize) {
        let fields: StatusEth69Fields = (self.version, (self.chain, (self.genesis, (self.forkid, (self.earliest, (self.latest, self.blockhash))))));
        Listed(fields).length()
    }

    fn decode(buf: &mut &[u8]) -> (r: Result<StatusEth69, RlpError>) {
        match Listed::<StatusEth69Fields>::decode(buf) {
            Err(e) => Err(e),
            Ok(Listed(f)) => Ok(StatusEth69 { version: f.0, chain: f.1.0, genesis: f.1.1.0, forkid: f.1.1.1.0, earliest: f.1.1.1.1.0, latest: f.1.1.1.1.1.0, blockhash: f.1.1.1.1.1.1 }),
        }
    }

    proof fn read_within(buf: Seq<u8>) {
        Listed::<StatusEth69Fields>::read_within(buf);
    }

    proof fn round_trip(v: StatusEth69, rest: Seq<u8>) {
        Listed::<StatusEth69Fields>::round_trip(v.fields(), rest);
    }
}

/// A status in the form that its version has.
#[derive(Clone, Copy, Debug, PartialEq, Eq, Structural)]
pub enum StatusMessage {
    Legacy(Status),
    Eth69(StatusEth69),
}

impl StatusMessage {
    /// The genesis hash.
    pub open spec fn spec_genesis(self) -> B256 {
        match self {
            StatusMessage::Legacy(s) => s.genesis,
            StatusMessage::Eth69(s) => s.genesis,
        }
    }

    /// The version.
    pub open spec fn spec_version(self) -> EthVersion {
        match self {
            StatusMessage::Legacy(s) => s.version,
            StatusMessage::Eth69(s) => s.version,
        }
    }

    /// The chain id.
    pub open spec fn spec_chain(self) -> u64 {
        match self {
            StatusMessage::Legacy(s) => s.chain,
            StatusMessage::Eth69(s) => s.chain,
        }
    }

    /// The fork id.
    pub open spec fn spec_forkid(self) -> ForkId {
        match self {
            StatusMessage::Legacy(s) => s.forkid,
            StatusMessage::Eth69(s) => s.forkid,
        }
    }

    /// The genesis hash.
    pub fn genesis(&self) -> (r: B256)
        ensures
            r == self.spec_genesis(),
    {
        match self {
            StatusMessage::Legacy(s) => s.genesis,
            StatusMessage::Eth69(s) => s.genesis,
        }
    }

    /// The version.
    pub fn version(&self) -> (r: EthVersion)
        ensures
            r == self.spec_version(),
    {
        match self {
            StatusMessage::Legacy(s) => s.version,
            StatusMessage::Eth69(s) => s.version,
        }
    }

    /// The chain id.
    pub fn chain(&self) -> (r: u64)
        ensures
            r == self.spec_chain(),
    {
        match self {
            StatusMessage::Legacy(s) => s.chain,
            StatusMessage::Eth69(s) => s.chain,
        }
    }

    /// The fork id.
    pub fn forkid(&self) -> (r: ForkId)
        ensures
            r == self.spec_forkid(),
    {
        match self {
            StatusMessage::Legacy(s) => s.forkid,
            StatusMessage::Eth69(s) => s.forkid,
        }
    }
}

/// What a status says, whatever the version: the total difficulty stands in it only before
/// `eth/69`, the range of blocks only from then on.
#[derive(Clone, Copy, Debug, PartialEq, Eq, Structural)]
pub struct UnifiedStatus {
    pub version: EthVersion,
    pub chain: u64,
    pub genesis: B256,
    pub forkid: ForkId,
    pub blockhash: B256,
    pub total_difficulty: Option<U256>,
    pub earliest_block: Option<u64>,
    pub latest_block: Option<u64>,
}

/// A number that may be missing, zero if it is.
pub open spec fn or_zero(n: Option<u64>) -> u64 {
    match n {
        Some(n) => n,
        None => 0,
    }
}

impl UnifiedStatus {
    /// The status in the form that its version has. What the form needs and is missing is zero.
    pub open spec fn message(self) -> StatusMessage {
        if self.version.number() >= 69 {
            StatusMessage::Eth69(
                StatusEth69 {
                    version: self.version,
                    chain: self.chain,
                    genesis: self.genesis,
                    forkid: self.forkid,
                    earliest: or_zero(self.earliest_block),
                    latest: or_zero(self.latest_block),
                    blockhash: self.blockhash,
                },
            )
        } else {
            StatusMessage::Legacy(
                Status {
                    version: self.version,
                    chain: self.chain,
                    total_difficulty: match self.total_difficulty {
                        Some(td) => td,
                        None => U256 { hi: 0, lo: 0 },
                    },
                    blockhash: self.blockhash,
                    genesis: self.genesis,
                    forkid: self.forkid,
                },
            )
        }
    }

    /// What a status in either form says.
    pub open spec fn of_message(m: StatusMessage) -> UnifiedStatus {
        match m {
            StatusMessage::Legacy(s) => UnifiedStatus {
                version: s.version,
                chain: s.chain,
                genesis: s.genesis,
                forkid: s.forkid,
                blockhash: s.blockhash,
                total_difficulty: Some(s.total_difficulty),
                earliest_block: None,
                latest_block: None,
            },
            StatusMessage::Eth69(s) => UnifiedStatus {
                version: s.version,
                chain: s.chain,
                genesis: s.genesis,
                forkid: s.forkid,
                blockhash: s.blockhash,
                total_difficulty: None,
                earliest_block: Some(s.earliest),
                latest_block: Some(s.latest),
            },
        }
    }

    /// The status in the form that its version has.
    pub fn into_message(self) -> (r: StatusMessage)
        ensures
            r == self.message(),
    {
        if self.version.to_u8() >= 69 {
            StatusMessage::Eth69(
                StatusEth69 {
                    version: self.version,
                    chain: self.chain,
                    genesis: self.genesis,
                    forkid: self.forkid,
                    earliest: self.earliest_block.unwrap_or(0),
                    latest: self.latest_block.unwrap_or(0),
                    blockhash: self.blockhash,
                },
            )
        } else {
            StatusMessage::Legacy(
                Status {
                    version: self.version,
                    chain: self.chain,
                    total_difficulty: self.total_difficulty.unwrap_or(U256 { hi: 0, lo: 0 }),
                    blockhash: self.blockhash,
                    genesis: self.genesis,
                    forkid: self.forkid,
                },
            )
        }
    }

    /// What a status in either form says.
    pub fn from_message(m: StatusMessage) -> (r: UnifiedStatus)
        ensures
            r == Self::of_message(m),
    {
        match m {
            StatusMessage::Legacy(s) => UnifiedStatus {
                version: s.version,
                chain: s.chain,
                genesis: s.genesis,
                forkid: s.forkid,
                blockhash: s.blockhash,
                total_difficulty: Some(s.total_difficulty),
                earliest_block: None,
                latest_block: None,
            },
            StatusMessage::Eth69(s) => UnifiedStatus {
                version: s.version,
                chain: s.chain,
                genesis: s.genesis,
                forkid: s.forkid,
                blockhash: s.blockhash,
                total_difficulty: None,
                earliest_block: Some(s.earliest),
                latest_block: Some(s.latest),
            },
        }
    }
}

/// A status read from a message, put into a message again, is the message, where it has the form
/// of its version.
pub proof fn lemma_status_round_trip(m: StatusMessage)
    requires
        m is Eth69 <==> m.spec_version().number() >= 69,
    ensures
        UnifiedStatus::of_message(m).message() == m,
{
}

/// A status is sent as a list of its fields: in the old form the version, the chain, the total
/// difficulty, the hashes of the head and of the genesis block, and the fork id; from `eth/69` on the
/// version, the chain, the hash of the genesis block, the fork id, the first and the last block, and
/// the hash of the last.
pub proof fn lemma_status_layout(old_form: Status, ranged: StatusEth69, forkid: ForkId)
    ensures
        Status::wire(old_form) == list_bytes(
            EthVersion::wire(old_form.version) + u64::wire(old_form.chain) + U256::wire(
                old_form.total_difficulty,
            ) + B256::wire(old_form.blockhash) + B256::wire(old_form.genesis) + ForkId::wire(
                old_form.forkid,
            ),
        ),
        StatusEth69::wire(ranged) == list_bytes(
            EthVersion::wire(ranged.version) + u64::wire(ranged.chain) + B256::wire(ranged.genesis)
                + ForkId::wire(ranged.forkid) + u64::wire(ranged.earliest) + u64::wire(
                ranged.latest,
            ) + B256::wire(ranged.blockhash),
        ),
        ForkId::wire(forkid) == list_bytes(ForkHash::wire(forkid.hash) + u64::wire(forkid.next)),
{
    lemma_seven(
        EthVersion::wire(old_form.version),
        u64::wire(old_form.chain),
        U256::wire(old_form.total_difficulty),
        B256::wire(old_form.blockhash),
        B256::wire(old_form.genesis),
        ForkId::wire(old_form.forkid),
        Seq::empty(),
    );
    lemma_seven(
        EthVersion::wire(ranged.version),
        u64::wire(ranged.chain),
        B256::wire(ranged.genesis),
        ForkId::wire(ranged.forkid),
        u64::wire(ranged.earliest),
        u64::wire(ranged.latest),
        B256::wire(ranged.blockhash),
    );
}

/// Parts make up the same whether they are put together from the front or from the back.
proof fn lemma_seven(
    a: Seq<u8>,
    b: Seq<u8>,
    c: Seq<u8>,
    d: Seq<u8>,
    e: Seq<u8>,
    f: Seq<u8>,
    g: Seq<u8>,
)
    ensures
        a + (b + (c + (d + (e + (f + g))))) == a + b + c + d + e + f + g,
        a + (b + (c + (d + (e + f)))) == a + b + c + d + e + f,
{
    assert(a + (b + (c + (d + (e + (f + g))))) =~= a + b + c + d + e + f + g);
    assert(a + (b + (c + (d + (e + f)))) =~= a + b + c + d + e + f);
}

/// A status keeps what it says in the form of its version: what the form has a place for comes out
/// as it was, or as zero where nothing was said.
pub proof fn lemma_status_says_the_same(status: UnifiedStatus)
    ensures
        ({
            let said = UnifiedStatus::of_message(status.message());
            &&& said.version == status.version
            &&& said.chain == status.chain
            &&& said.genesis == status.genesis
            &&& said.forkid == status.forkid
            &&& said.blockhash == status.blockhash
            &&& status.version.number() >= 69 <==> status.message() is Eth69
            &&& status.version.number() >= 69 && status.earliest_block is Some
                ==> said.earliest_block == status.earliest_block
            &&& status.version.number() >= 69 && status.latest_block is Some ==> said.latest_block
                == status.latest_block
            &&& status.version.number() >= 69 && status.earliest_block is None
                ==> said.earliest_block == Some(0u64)
            &&& status.version.number() >= 69 && status.latest_block is None ==> said.latest_block
                == Some(0u64)
            &&& status.version.number() < 69 && status.total_difficulty is Some
                ==> said.total_difficulty == status.total_difficulty
            &&& status.version.number() < 69 && status.total_difficulty is None
                ==> said.total_difficulty == Some(U256 { hi: 0, lo: 0 })
        }),
{
}

} // verus!
