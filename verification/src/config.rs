use vstd::prelude::*;

use crate::time::Duration;
use crate::sorted_map::{Rank, SortKey, SortedMap};

verus! {

/// The extension of a configuration file.
pub const EXTENSION: &'static str = "toml";

/// How many blocks lie between two runs of the pruner.
pub const DEFAULT_BLOCK_INTERVAL: usize = 5;

/// The directory below the data directory that keeps downloaded ERA files.
pub const ERA_DIRECTORY: &'static str = "era";

/// The directory below the data directory that keeps temporary files.
pub const ETL_DIRECTORY: &'static str = "etl-tmp";

/// The path of an entry of a directory: both, with a slash between them where the directory does
/// not end in one. An empty path is the present directory.
pub open spec fn path_below(dir: Seq<char>, name: Seq<char>) -> Seq<char> {
    if dir.len() == 0 || dir.last() == '/' {
        dir + name
    } else {
        dir + seq!['/'] + name
    }
}

/// The path of an entry of a directory.
pub fn join_path(dir: &str, name: &str) -> (path: String)
    ensures
        path@ == path_below(dir@, name@),
{
    let len: usize = dir.unicode_len();
    let mut path: String = dir.to_owned();
    if len != 0 && dir.get_char(len - 1) != '/' {
        proof {
            reveal_strlit("/");
            assert("/"@ =~= seq!['/']);
        }
        path.append("/");
    }
    path.append(name);
    path
}

/// How the stage that imports ERA files gets them.
#[derive(Debug)]
pub struct EraConfig {
    /// The directory with files on this machine. Not together with `url`.
    pub path: Option<String>,
    /// Where files are downloaded from. Not together with `path`.
    pub url: Option<String>,
    /// Where downloaded files stay until they are imported. Needed with `url`.
    pub folder: Option<String>,
}

impl Default for EraConfig {
    fn default() -> (made: EraConfig)
        ensures
            made == (EraConfig { path: None, url: None, folder: None }),
    {
        EraConfig { path: None, url: None, folder: None }
    }
}

impl EraConfig {
    /// Keeps downloaded files in the directory `era` below a data directory.
    pub fn with_datadir(self, dir: &str) -> (made: EraConfig)
        ensures
            made.path == self.path,
            made.url == self.url,
            made.folder is Some,
            made.folder->0@ == path_below(dir@, ERA_DIRECTORY@),
    {
        EraConfig { path: self.path, url: self.url, folder: Some(join_path(dir, ERA_DIRECTORY)) }
    }
}

/// How headers are downloaded.
#[derive(Clone, Copy, Debug, PartialEq, Eq, Structural)]
pub struct HeadersConfig {
    /// How many requests run at once at most.
    pub downloader_max_concurrent_requests: usize,
    /// How many requests run at once at least.
    pub downloader_min_concurrent_requests: usize,
    /// How many responses are kept, each of which may hold several headers.
    pub downloader_max_buffered_responses: usize,
    /// How many headers one peer is asked for at a time.
    pub downloader_request_limit: u64,
    /// How many headers are downloaded before progress is written down.
    pub commit_threshold: u64,
}

impl Default for HeadersConfig {
    fn default() -> (made: HeadersConfig)
        ensures
            made == (HeadersConfig {
                downloader_max_concurrent_requests: 100,
                downloader_min_concurrent_requests: 5,
                downloader_max_buffered_responses: 100,
                downloader_request_limit: 1_000,
                commit_threshold: 10_000,
            }),
    {
        HeadersConfig {
            downloader_max_concurrent_requests: 100,
            downloader_min_concurrent_requests: 5,
            downloader_max_buffered_responses: 100,
            downloader_request_limit: 1_000,
            commit_threshold: 10_000,
        }
    }
}

/// How block bodies are downloaded.
#[derive(Clone, Copy, Debug, PartialEq, Eq, Structural)]
pub struct BodiesConfig {
    /// How many blocks that are not empty one request asks for.
    pub downloader_request_limit: u64,
    /// How many bodies are handed on at a time at most.
    pub downloader_stream_batch_size: usize,
    /// How many bytes of blocks are kept.
    pub downloader_max_buffered_blocks_size_bytes: usize,
    /// How many requests run at once at least.
    pub downloader_min_concurrent_requests: usize,
    /// How many requests run at once at most, which is how many peers are asked.
    pub downloader_max_concurrent_requests: usize,
}

impl Default for BodiesConfig {
    fn default() -> (made: BodiesConfig)
        ensures
            made == (BodiesConfig {
                downloader_request_limit: 200,
                downloader_stream_batch_size: 1_000,
                downloader_max_buffered_blocks_size_bytes: 2_147_483_648,
                downloader_min_concurrent_requests: 5,
                downloader_max_concurrent_requests: 100,
            }),
    {
        BodiesConfig {
            downloader_request_limit: 200,
            downloader_stream_batch_size: 1_000,
            downloader_max_buffered_blocks_size_bytes: 2 * 1024 * 1024 * 1024,
            downloader_min_concurrent_requests: 5,
            downloader_max_concurrent_requests: 100,
        }
    }
}

/// How the senders of transactions are recovered.
#[derive(Clone, Copy, Debug, PartialEq, Eq, Structural)]
pub struct SenderRecoveryConfig {
    /// How many transactions are handled before progress is written down.
    pub commit_threshold: u64,
}

impl Default for SenderRecoveryConfig {
    fn default() -> (made: SenderRecoveryConfig)
        ensures
            made.commit_threshold == 5_000_000,
    {
        SenderRecoveryConfig { commit_threshold: 5_000_000 }
    }
}

/// How long blocks are executed before progress is written down.
#[derive(Clone, Copy, Debug, PartialEq, Eq, Structural)]
pub struct ExecutionConfig {
    /// How many blocks at most.
    pub max_blocks: Option<u64>,
    /// How many changes of the state at most.
    pub max_changes: Option<u64>,
    /// How much gas at most.
    pub max_cumulative_gas: Option<u64>,
    /// How much time at most.
    pub max_duration: Option<Duration>,
}

impl Default for ExecutionConfig {
    fn default() -> (made: ExecutionConfig)
        ensures
            made == (ExecutionConfig {
                max_blocks: Some(500_000),
                max_changes: Some(5_000_000),
                max_cumulative_gas: Some(1_500_000_000_000),
                max_duration: Some(Duration { secs: 600, nanos: 0 }),
            }),
    {
        ExecutionConfig {
            max_blocks: Some(500_000),
            max_changes: Some(5_000_000),
            // 50,000 full blocks of 30 million gas.
            max_cumulative_gas: Some(30_000_000 * 50_000),
            max_duration: Some(Duration { secs: 10 * 60, nanos: 0 }),
        }
    }
}

/// When the execution stage writes its progress down.
#[derive(Clone, Copy, Debug, PartialEq, Eq, Structural)]
pub struct ExecutionStageThresholds {
    pub max_blocks: Option<u64>,
    pub max_changes: Option<u64>,
    pub max_cumulative_gas: Option<u64>,
    pub max_duration: Option<Duration>,
}

impl vstd::std_specs::convert::FromSpecImpl<ExecutionConfig> for ExecutionStageThresholds {
    open spec fn obeys_from_spec() -> bool {
        true
    }

    open spec fn from_spec(config: ExecutionConfig) -> ExecutionStageThresholds {
        ExecutionStageThresholds {
            max_blocks: config.max_blocks,
            max_changes: config.max_changes,
            max_cumulative_gas: config.max_cumulative_gas,
            max_duration: config.max_duration,
        }
    }
}

impl From<ExecutionConfig> for ExecutionStageThresholds {
    fn from(config: ExecutionConfig) -> (thresholds: ExecutionStageThresholds) {
        ExecutionStageThresholds {
            max_blocks: config.max_blocks,
            max_changes: config.max_changes,
            max_cumulative_gas: config.max_cumulative_gas,
            max_duration: config.max_duration,
        }
    }
}

/// How the prune stage works.
#[derive(Clone, Copy, Debug, PartialEq, Eq, Structural)]
pub struct PruneStageConfig {
    /// How many entries are pruned before progress is written down.
    pub commit_threshold: usize,
}

impl Default for PruneStageConfig {
    fn default() -> (made: PruneStageConfig)
        ensures
            made.commit_threshold == 1_000_000,
    {
        PruneStageConfig { commit_threshold: 1_000_000 }
    }
}

/// How accounts or storage are hashed.
#[derive(Clone, Copy, Debug, PartialEq, Eq, Structural)]
pub struct HashingConfig {
    /// From how many blocks on everything is hashed anew.
    pub clean_threshold: u64,
    /// How many entries are hashed before progress is written down.
    pub commit_threshold: u64,
}

impl Default for HashingConfig {
    fn default() -> (made: HashingConfig)
        ensures
            made == (HashingConfig { clean_threshold: 500_000, commit_threshold: 100_000 }),
    {
        HashingConfig { clean_threshold: 500_000, commit_threshold: 100_000 }
    }
}

/// How the state root is computed.
#[derive(Clone, Copy, Debug, PartialEq, Eq, Structural)]
pub struct MerkleConfig {
    /// For how many blocks in a row the root is computed from changes, so that memory holds them.
    pub incremental_threshold: u64,
    /// From how many blocks on the trie is built anew.
    pub rebuild_threshold: u64,
}

impl Default for MerkleConfig {
    fn default() -> (made: MerkleConfig)
        ensures
            made == (MerkleConfig { incremental_threshold: 7_000, rebuild_threshold: 100_000 }),
    {
        MerkleConfig { incremental_threshold: 7_000, rebuild_threshold: 100_000 }
    }
}

/// How transactions are indexed by hash.
#[derive(Clone, Copy, Debug, PartialEq, Eq, Structural)]
pub struct TransactionLookupConfig {
    /// How many transactions are handled before they are written to disk.
    pub chunk_size: u64,
}

impl Default for TransactionLookupConfig {
    fn default() -> (made: TransactionLookupConfig)
        ensures
            made.chunk_size == 5_000_000,
    {
        TransactionLookupConfig { chunk_size: 5_000_000 }
    }
}

/// How the histories of accounts or storage are indexed.
#[derive(Clone, Copy, Debug, PartialEq, Eq, Structural)]
pub struct IndexHistoryConfig {
    /// How many blocks are handled before progress is written down.
    pub commit_threshold: u64,
}

impl Default for IndexHistoryConfig {
    fn default() -> (made: IndexHistoryConfig)
        ensures
            made.commit_threshold == 100_000,
    {
        IndexHistoryConfig { commit_threshold: 100_000 }
    }
}

/// Where stages keep temporary files.
#[derive(Debug)]
pub struct EtlConfig {
    /// The directory of the files.
    pub dir: Option<String>,
    /// How many bytes stay in memory before a file is written.
    pub file_size: usize,
}

impl Default for EtlConfig {
    fn default() -> (made: EtlConfig)
        ensures
            made == (EtlConfig { dir: None, file_size: 524_288_000 }),
    {
        EtlConfig { dir: None, file_size: EtlConfig::default_file_size() }
    }
}

impl EtlConfig {
    /// A configuration from its values.
    pub fn new(dir: Option<String>, file_size: usize) -> (made: EtlConfig)
        ensures
            made == (EtlConfig { dir, file_size }),
    {
        EtlConfig { dir, file_size }
    }

    /// The directory `etl-tmp` below a data directory.
    pub fn from_datadir(path: &str) -> (dir: String)
        ensures
            dir@ == path_below(path@, ETL_DIRECTORY@),
    {
        join_path(path, ETL_DIRECTORY)
    }

    /// How many bytes stay in memory where nothing is said: 500 mebibytes.
    pub fn default_file_size() -> (size: usize)
        ensures
            size == 524_288_000,
    {
        500 * (1024 * 1024)
    }
}

/// How the stages of the pipeline work.
#[derive(Debug)]
pub struct StageConfig {
    pub era: EraConfig,
    pub headers: HeadersConfig,
    pub bodies: BodiesConfig,
    pub sender_recovery: SenderRecoveryConfig,
    pub execution: ExecutionConfig,
    pub prune: PruneStageConfig,
    pub account_hashing: HashingConfig,
    pub storage_hashing: HashingConfig,
    pub merkle: MerkleConfig,
    pub transaction_lookup: TransactionLookupConfig,
    pub index_account_history: IndexHistoryConfig,
    pub index_storage_history: IndexHistoryConfig,
    pub etl: EtlConfig,
}

/// The larger of two numbers.
pub open spec fn larger(a: u64, b: u64) -> u64 {
    if a < b {
        b
    } else {
        a
    }
}

impl Default for StageConfig {
    fn default() -> (made: StageConfig)
        ensures
            made.era == (EraConfig { path: None, url: None, folder: None }),
            made.headers.downloader_max_concurrent_requests == 100,
            made.headers.downloader_min_concurrent_requests == 5,
            made.headers.downloader_max_buffered_responses == 100,
            made.headers.downloader_request_limit == 1_000,
            made.headers.commit_threshold == 10_000,
            made.bodies.downloader_request_limit == 200,
            made.bodies.downloader_stream_batch_size == 1_000,
            made.bodies.downloader_max_buffered_blocks_size_bytes == 2_147_483_648,
            made.bodies.downloader_min_concurrent_requests == 5,
            made.bodies.downloader_max_concurrent_requests == 100,
            made.sender_recovery.commit_threshold == 5_000_000,
            made.execution == (ExecutionConfig {
                max_blocks: Some(500_000),
                max_changes: Some(5_000_000),
                max_cumulative_gas: Some(1_500_000_000_000),
                max_duration: Some(Duration { secs: 600, nanos: 0 }),
            }),
            made.prune.commit_threshold == 1_000_000,
            made.account_hashing == (HashingConfig {
                clean_threshold: 500_000,
                commit_threshold: 100_000,
            }),
            made.storage_hashing == made.account_hashing,
            made.merkle == (MerkleConfig {
                incremental_threshold: 7_000,
                rebuild_threshold: 100_000,
            }),
            made.transaction_lookup.chunk_size == 5_000_000,
            made.index_account_history.commit_threshold == 100_000,
            made.index_storage_history.commit_threshold == 100_000,
            made.etl == (EtlConfig { dir: None, file_size: 524_288_000 }),
    {
        StageConfig {
            era: EraConfig::default(),
            headers: HeadersConfig::default(),
            bodies: BodiesConfig::default(),
            sender_recovery: SenderRecoveryConfig::default(),
            execution: ExecutionConfig::default(),
            prune: PruneStageConfig::default(),
            account_hashing: HashingConfig::default(),
            storage_hashing: HashingConfig::default(),
            merkle: MerkleConfig::default(),
            transaction_lookup: TransactionLookupConfig::default(),
            index_account_history: IndexHistoryConfig::default(),
            index_storage_history: IndexHistoryConfig::default(),
            etl: EtlConfig::default(),
        }
    }
}

impl StageConfig {
    /// The highest number of blocks from which on one of the stages that hash accounts, hash
    /// storage or compute the root starts anew. Changesets of as many blocks are not needed.
    pub fn execution_external_clean_threshold(&self) -> (threshold: u64)
        ensures
            threshold == larger(
                larger(self.merkle.incremental_threshold, self.account_hashing.clean_threshold),
                self.storage_hashing.clean_threshold,
            ),
    {
        let mut threshold: u64 = self.merkle.incremental_threshold;
        if self.account_hashing.clean_threshold > threshold {
            threshold = self.account_hashing.clean_threshold;
        }
        if self.storage_hashing.clean_threshold > threshold {
            threshold = self.storage_hashing.clean_threshold;
        }
        threshold
    }
}

/// The threshold is no less than that of any of the three stages, and it is that of one of them.
pub proof fn lemma_clean_threshold_is_highest(merkle: u64, accounts: u64, storage: u64)
    ensures
        larger(larger(merkle, accounts), storage) >= merkle,
        larger(larger(merkle, accounts), storage) >= accounts,
        larger(larger(merkle, accounts), storage) >= storage,
        larger(larger(merkle, accounts), storage) == merkle || larger(
            larger(merkle, accounts),
            storage,
        ) == accounts || larger(larger(merkle, accounts), storage) == storage,
{
}

/// A part of the chain that is kept in static files.
#[derive(Clone, Copy, Debug, PartialEq, Eq, Structural)]
pub enum StaticFileSegment {
    Headers,
    Transactions,
    Receipts,
    TransactionSenders,
    AccountChangeSets,
}

/// Values for some of the segments.
#[derive(Clone, Copy, Debug, PartialEq, Eq, Structural)]
pub struct StaticFileMap<T> {
    pub headers: Option<T>,
    pub transactions: Option<T>,
    pub receipts: Option<T>,
    pub transaction_senders: Option<T>,
    pub account_change_sets: Option<T>,
}

impl<T: Copy> StaticFileMap<T> {
    /// The value of a segment.
    pub open spec fn value(self, segment: StaticFileSegment) -> Option<T> {
        match segment {
            StaticFileSegment::Headers => self.headers,
            StaticFileSegment::Transactions => self.transactions,
            StaticFileSegment::Receipts => self.receipts,
            StaticFileSegment::TransactionSenders => self.transaction_senders,
            StaticFileSegment::AccountChangeSets => self.account_change_sets,
        }
    }

    /// No values.
    pub fn new() -> (map: StaticFileMap<T>)
        ensures
            forall|segment: StaticFileSegment| map.value(segment) is None,
    {
        StaticFileMap {
            headers: None,
            transactions: None,
            receipts: None,
            transaction_senders: None,
            account_change_sets: None,
        }
    }

    /// The value of a segment.
    pub fn get(&self, segment: StaticFileSegment) -> (value: Option<T>)
        ensures
            value == self.value(segment),
    {
        match segment {
            StaticFileSegment::Headers => self.headers,
            StaticFileSegment::Transactions => self.transactions,
            StaticFileSegment::Receipts => self.receipts,
            StaticFileSegment::TransactionSenders => self.transaction_senders,
            StaticFileSegment::AccountChangeSets => self.account_change_sets,
        }
    }

    /// Sets the value of a segment.
    pub fn insert(&mut self, segment: StaticFileSegment, value: T)
        ensures
            final(self).value(segment) == Some(value),
            forall|other: StaticFileSegment|
                other != segment ==> final(self).value(other) == old(self).value(other),
    {
        match segment {
            StaticFileSegment::Headers => {
                self.headers = Some(value);
            },
            StaticFileSegment::Transactions => {
                self.transactions = Some(value);
            },
            StaticFileSegment::Receipts => {
                self.receipts = Some(value);
            },
            StaticFileSegment::TransactionSenders => {
                self.transaction_senders = Some(value);
            },
            StaticFileSegment::AccountChangeSets => {
                self.account_change_sets = Some(value);
            },
        }
    }
}

/// All segments, in their order.
pub open spec fn all_segments() -> Seq<StaticFileSegment> {
    seq![
        StaticFileSegment::Headers,
        StaticFileSegment::Transactions,
        StaticFileSegment::Receipts,
        StaticFileSegment::TransactionSenders,
        StaticFileSegment::AccountChangeSets,
    ]
}

impl StaticFileSegment {
    /// All segments, in their order.
    pub fn all() -> (segments: Vec<StaticFileSegment>)
        ensures
            segments@ == all_segments(),
    {
        let mut segments: Vec<StaticFileSegment> = Vec::new();
        segments.push(StaticFileSegment::Headers);
        segments.push(StaticFileSegment::Transactions);
        segments.push(StaticFileSegment::Receipts);
        segments.push(StaticFileSegment::TransactionSenders);
        segments.push(StaticFileSegment::AccountChangeSets);
        segments
    }
}

/// Every segment is listed.
proof fn lemma_all_segments(segment: StaticFileSegment)
    ensures
        all_segments().contains(segment),
{
    let segments = all_segments();
    match segment {
        StaticFileSegment::Headers => assert(segments[0] == segment),
        StaticFileSegment::Transactions => assert(segments[1] == segment),
        StaticFileSegment::Receipts => assert(segments[2] == segment),
        StaticFileSegment::TransactionSenders => assert(segments[3] == segment),
        StaticFileSegment::AccountChangeSets => assert(segments[4] == segment),
    }
}

/// How many blocks a static file of each segment holds, where it is said.
#[derive(Clone, Copy, Debug, PartialEq, Eq, Structural)]
pub struct BlocksPerFileConfig {
    pub headers: Option<u64>,
    pub transactions: Option<u64>,
    pub receipts: Option<u64>,
    pub transaction_senders: Option<u64>,
    pub account_change_sets: Option<u64>,
}

impl Default for BlocksPerFileConfig {
    fn default() -> (made: BlocksPerFileConfig)
        ensures
            forall|segment: StaticFileSegment| made.value(segment) is None,
    {
        BlocksPerFileConfig {
            headers: None,
            transactions: None,
            receipts: None,
            transaction_senders: None,
            account_change_sets: None,
        }
    }
}

impl BlocksPerFileConfig {
    /// How many blocks a file of a segment holds.
    pub open spec fn value(self, segment: StaticFileSegment) -> Option<u64> {
        match segment {
            StaticFileSegment::Headers => self.headers,
            StaticFileSegment::Transactions => self.transactions,
            StaticFileSegment::Receipts => self.receipts,
            StaticFileSegment::TransactionSenders => self.transaction_senders,
            StaticFileSegment::AccountChangeSets => self.account_change_sets,
        }
    }

    /// How many blocks a file of a segment holds.
    pub fn get(&self, segment: StaticFileSegment) -> (value: Option<u64>)
        ensures
            value == self.value(segment),
    {
        match segment {
            StaticFileSegment::Headers => self.headers,
            StaticFileSegment::Transactions => self.transactions,
            StaticFileSegment::Receipts => self.receipts,
            StaticFileSegment::TransactionSenders => self.transaction_senders,
            StaticFileSegment::AccountChangeSets => self.account_change_sets,
        }
    }
}

/// How static files are laid out.
#[derive(Clone, Copy, Debug, PartialEq, Eq, Structural)]
pub struct StaticFilesConfig {
    pub blocks_per_file: BlocksPerFileConfig,
}

impl Default for StaticFilesConfig {
    fn default() -> (made: StaticFilesConfig)
        ensures
            forall|segment: StaticFileSegment| made.blocks_per_file.value(segment) is None,
    {
        StaticFilesConfig { blocks_per_file: BlocksPerFileConfig::default() }
    }
}

/// The files of a segment would hold no block.
#[derive(Clone, Copy, Debug, PartialEq, Eq, Structural)]
pub struct EmptyFiles {
    pub segment: StaticFileSegment,
}

/// What [`EmptyFiles`] says of a segment.
pub open spec fn empty_files_text(segment: StaticFileSegment) -> Seq<char> {
    match segment {
        StaticFileSegment::Headers => "Headers segment blocks per file must be greater than 0"@,
        StaticFileSegment::Transactions => {
            "Transactions segment blocks per file must be greater than 0"@
        },
        StaticFileSegment::Receipts => "Receipts segment blocks per file must be greater than 0"@,
        StaticFileSegment::TransactionSenders => {
            "Transaction senders segment blocks per file must be greater than 0"@
        },
        StaticFileSegment::AccountChangeSets => {
            "Account changesets segment blocks per file must be greater than 0"@
        },
    }
}

impl EmptyFiles {
    /// The error in words.
    pub fn message(&self) -> (text: &'static str)
        ensures
            text@ == empty_files_text(self.segment),
    {
        match self.segment {
            StaticFileSegment::Headers => "Headers segment blocks per file must be greater than 0",
            StaticFileSegment::Transactions => {
                "Transactions segment blocks per file must be greater than 0"
            },
            StaticFileSegment::Receipts => "Receipts segment blocks per file must be greater than 0",
            StaticFileSegment::TransactionSenders => {
                "Transaction senders segment blocks per file must be greater than 0"
            },
            StaticFileSegment::AccountChangeSets => {
                "Account changesets segment blocks per file must be greater than 0"
            },
        }
    }
}

impl StaticFilesConfig {
    /// Refuses files that hold no block, and names the first segment that has such.
    pub fn validate(&self) -> (checked: Result<(), EmptyFiles>)
        ensures
            checked is Ok <==> forall|segment: StaticFileSegment|
                self.blocks_per_file.value(segment) != Some(0u64),
            checked matches Err(error) ==> exists|i: int|
                0 <= i < all_segments().len() && #[trigger] all_segments()[i] == error.segment
                    && self.blocks_per_file.value(error.segment) == Some(0u64) && (forall|j: int|
                    0 <= j < i ==> self.blocks_per_file.value(#[trigger] all_segments()[j]) != Some(
                        0u64,
                    )),
    {
        let segments = StaticFileSegment::all();
        let mut i: usize = 0;
        while i < segments.len()
            invariant
                0 <= i <= segments@.len(),
                segments@ == all_segments(),
                forall|j: int|
                    0 <= j < i ==> self.blocks_per_file.value(#[trigger] all_segments()[j]) != Some(
                        0u64,
                    ),
            decreases segments@.len() - i,
        {
            let segment = segments[i];
            if let Some(blocks) = self.blocks_per_file.get(segment) {
                if blocks == 0 {
                    assert(all_segments()[i as int] == segment);
                    return Err(EmptyFiles { segment });
                }
            }
            i += 1;
        }
        proof {
            assert forall|segment: StaticFileSegment| self.blocks_per_file.value(segment) != Some(
                0u64,
            ) by {
                lemma_all_segments(segment);
            }
        }
        Ok(())
    }

    /// How many blocks a file holds, for the segments for which it is said.
    pub fn as_blocks_per_file_map(&self) -> (map: StaticFileMap<u64>)
        ensures
            forall|segment: StaticFileSegment|
                map.value(segment) == self.blocks_per_file.value(segment),
    {
        let segments = StaticFileSegment::all();
        let mut map: StaticFileMap<u64> = StaticFileMap::new();
        let mut i: usize = 0;
        while i < segments.len()
            invariant
                0 <= i <= segments@.len(),
                segments@ == all_segments(),
                forall|j: int|
                    0 <= j < i ==> map.value(#[trigger] all_segments()[j])
                        == self.blocks_per_file.value(all_segments()[j]),
                forall|j: int|
                    i <= j < all_segments().len() ==> map.value(
                        #[trigger] all_segments()[j],
                    ) is None,
            decreases segments@.len() - i,
        {
            let segment = segments[i];
            assert(all_segments()[i as int] == segment);
            if let Some(blocks_per_file) = self.blocks_per_file.get(segment) {
                map.insert(segment, blocks_per_file);
            }
            i += 1;
        }
        proof {
            assert forall|segment: StaticFileSegment| map.value(segment)
                == self.blocks_per_file.value(segment) by {
                lemma_all_segments(segment);
            }
        }
        map
    }
}

/// How much of a part of the history is pruned.
#[derive(Clone, Copy, Debug, PartialEq, Eq, Structural)]
pub enum PruneMode {
    /// All of it.
    Full,
    /// All but the blocks this near the tip.
    Distance(u64),
    /// All before this block.
    Before(u64),
}

/// The address of an account: the first four of its bytes, and the other sixteen.
#[derive(Clone, Copy, Debug, PartialEq, Eq, Structural)]
pub struct Address {
    pub hi: u32,
    pub lo: u128,
}

impl SortKey for Address {
    open spec fn rank(self) -> Rank {
        Rank { hi: self.hi as u128, lo: self.lo, len: 0 }
    }

    fn to_rank(&self) -> (r: Rank) {
        Rank { hi: self.hi as u128, lo: self.lo, len: 0 }
    }

    proof fn rank_injective(a: Address, b: Address) {
    }
}

/// Contracts whose logs are kept although receipts are pruned, and for how long.
#[derive(Debug)]
pub struct ReceiptsLogPruneConfig(pub SortedMap<Address, PruneMode>);

/// What is pruned.
#[derive(Debug)]
pub struct PruneModes {
    pub sender_recovery: Option<PruneMode>,
    pub transaction_lookup: Option<PruneMode>,
    pub receipts: Option<PruneMode>,
    pub account_history: Option<PruneMode>,
    pub storage_history: Option<PruneMode>,
    pub bodies_history: Option<PruneMode>,
    pub receipts_log_filter: ReceiptsLogPruneConfig,
}

impl PruneModes {
    /// Whether nothing is pruned.
    pub open spec fn prunes_nothing(self) -> bool {
        &&& self.sender_recovery is None
        &&& self.transaction_lookup is None
        &&& self.receipts is None
        &&& self.account_history is None
        &&& self.storage_history is None
        &&& self.bodies_history is None
        &&& self.receipts_log_filter.0.listed().len() == 0
    }

    /// Whether anything is said about receipts.
    pub fn has_receipts_pruning(&self) -> (has: bool)
        ensures
            has == (self.receipts is Some || self.receipts_log_filter.0.listed().len() != 0),
    {
        self.receipts.is_some() || self.receipts_log_filter.0.len() != 0
    }
}

impl Default for PruneModes {
    fn default() -> (made: PruneModes)
        ensures
            made.prunes_nothing(),
            made.receipts_log_filter.0.wf(),
    {
        PruneModes {
            sender_recovery: None,
            transaction_lookup: None,
            receipts: None,
            account_history: None,
            storage_history: None,
            bodies_history: None,
            receipts_log_filter: ReceiptsLogPruneConfig(SortedMap::new()),
        }
    }
}

/// When and what is pruned.
#[derive(Debug)]
pub struct PruneConfig {
    /// How many blocks lie between two runs of the pruner at least.
    pub block_interval: usize,
    /// What each run prunes.
    pub segments: PruneModes,
}

impl Default for PruneConfig {
    fn default() -> (made: PruneConfig)
        ensures
            made.is_as_default(),
            made.segments.receipts_log_filter.0.wf(),
    {
        PruneConfig { block_interval: DEFAULT_BLOCK_INTERVAL, segments: PruneModes::default() }
    }
}

/// The first of two values that is there.
pub open spec fn first_set(mine: Option<PruneMode>, other: Option<PruneMode>) -> Option<PruneMode> {
    match mine {
        Some(mode) => Some(mode),
        None => other,
    }
}

/// What becomes of a configuration when another fills its gaps.
pub open spec fn merged(mine: PruneConfig, other: PruneConfig) -> PruneConfig {
    PruneConfig {
        block_interval: if mine.block_interval == DEFAULT_BLOCK_INTERVAL {
            other.block_interval
        } else {
            mine.block_interval
        },
        segments: PruneModes {
            sender_recovery: first_set(
                mine.segments.sender_recovery,
                other.segments.sender_recovery,
            ),
            transaction_lookup: first_set(
                mine.segments.transaction_lookup,
                other.segments.transaction_lookup,
            ),
            receipts: first_set(mine.segments.receipts, other.segments.receipts),
            account_history: first_set(
                mine.segments.account_history,
                other.segments.account_history,
            ),
            storage_history: first_set(
                mine.segments.storage_history,
                other.segments.storage_history,
            ),
            bodies_history: first_set(mine.segments.bodies_history, other.segments.bodies_history),
            receipts_log_filter: if mine.segments.receipts_log_filter.0.listed().len() == 0
                && other.segments.receipts_log_filter.0.listed().len() != 0 {
                other.segments.receipts_log_filter
            } else {
                mine.segments.receipts_log_filter
            },
        },
    }
}

/// The first of two values that is there.
fn first_of(mine: Option<PruneMode>, other: Option<PruneMode>) -> (mode: Option<PruneMode>)
    ensures
        mode == first_set(mine, other),
{
    match mine {
        Some(mode) => Some(mode),
        None => other,
    }
}

impl PruneConfig {
    /// Whether this is what is used where nothing is said.
    pub open spec fn is_as_default(self) -> bool {
        self.block_interval == DEFAULT_BLOCK_INTERVAL && self.segments.prunes_nothing()
    }

    /// Whether this is what is used where nothing is said.
    pub fn is_default(&self) -> (same: bool)
        ensures
            same == self.is_as_default(),
    {
        self.block_interval == DEFAULT_BLOCK_INTERVAL && self.segments.sender_recovery.is_none()
            && self.segments.transaction_lookup.is_none() && self.segments.receipts.is_none()
            && self.segments.account_history.is_none() && self.segments.storage_history.is_none()
            && self.segments.bodies_history.is_none()
            && self.segments.receipts_log_filter.0.len() == 0
    }

    /// Whether anything is said about receipts.
    pub fn has_receipts_pruning(&self) -> (has: bool)
        ensures
            has == (self.segments.receipts is Some
                || self.segments.receipts_log_filter.0.listed().len() != 0),
    {
        self.segments.has_receipts_pruning()
    }

    /// Fills the gaps of this configuration from another: a mode that is not set, an interval that
    /// is the usual one, and a filter that is empty.
    pub fn merge(&mut self, other: PruneConfig)
        ensures
            *final(self) == merged(*old(self), other),
    {
        if self.block_interval == DEFAULT_BLOCK_INTERVAL {
            self.block_interval = other.block_interval;
        }
        let segments = other.segments;
        self.segments.sender_recovery = first_of(
            self.segments.sender_recovery,
            segments.sender_recovery,
        );
        self.segments.transaction_lookup = first_of(
            self.segments.transaction_lookup,
            segments.transaction_lookup,
        );
        self.segments.receipts = first_of(self.segments.receipts, segments.receipts);
        self.segments.account_history = first_of(
            self.segments.account_history,
            segments.account_history,
        );
        self.segments.storage_history = first_of(
            self.segments.storage_history,
            segments.storage_history,
        );
        self.segments.bodies_history = first_of(
            self.segments.bodies_history,
            segments.bodies_history,
        );
        if self.segments.receipts_log_filter.0.len() == 0
            && segments.receipts_log_filter.0.len() != 0 {
            self.segments.receipts_log_filter = segments.receipts_log_filter;
        }
    }
}

/// A configuration that says nothing changes no other.
pub proof fn lemma_merge_default(mine: PruneConfig, silent: PruneConfig)
    requires
        silent.is_as_default(),
    ensures
        merged(mine, silent) == mine,
{
}

/// What is set stays: a mode, an interval other than the usual one, and a filter that is not empty
/// come through every merge.
pub proof fn lemma_merge_keeps(mine: PruneConfig, other: PruneConfig)
    ensures
        mine.block_interval != DEFAULT_BLOCK_INTERVAL ==> merged(mine, other).block_interval
            == mine.block_interval,
        mine.segments.sender_recovery is Some ==> merged(mine, other).segments.sender_recovery
            == mine.segments.sender_recovery,
        mine.segments.transaction_lookup is Some ==> merged(mine, other).segments.transaction_lookup
            == mine.segments.transaction_lookup,
        mine.segments.receipts is Some ==> merged(mine, other).segments.receipts
            == mine.segments.receipts,
        mine.segments.account_history is Some ==> merged(mine, other).segments.account_history
            == mine.segments.account_history,
        mine.segments.storage_history is Some ==> merged(mine, other).segments.storage_history
            == mine.segments.storage_history,
        mine.segments.bodies_history is Some ==> merged(mine, other).segments.bodies_history
            == mine.segments.bodies_history,
        mine.segments.receipts_log_filter.0.listed().len() != 0 ==> merged(
            mine,
            other,
        ).segments.receipts_log_filter == mine.segments.receipts_log_filter,
{
}

/// What is not set is filled: where a segment has no mode, the interval is the usual one or the
/// filter is empty, the other configuration counts.
pub proof fn lemma_merge_fills(mine: PruneConfig, other: PruneConfig)
    ensures
        mine.block_interval == DEFAULT_BLOCK_INTERVAL ==> merged(mine, other).block_interval
            == other.block_interval,
        mine.segments.sender_recovery is None ==> merged(mine, other).segments.sender_recovery
            == other.segments.sender_recovery,
        mine.segments.transaction_lookup is None ==> merged(mine, other).segments.transaction_lookup
            == other.segments.transaction_lookup,
        mine.segments.receipts is None ==> merged(mine, other).segments.receipts
            == other.segments.receipts,
        mine.segments.account_history is None ==> merged(mine, other).segments.account_history
            == other.segments.account_history,
        mine.segments.storage_history is None ==> merged(mine, other).segments.storage_history
            == other.segments.storage_history,
        mine.segments.bodies_history is None ==> merged(mine, other).segments.bodies_history
            == other.segments.bodies_history,
        mine.segments.receipts_log_filter.0.listed().len() == 0 ==> merged(
            mine,
            other,
        ).segments.receipts_log_filter.0.listed() == other.segments.receipts_log_filter.0.listed(),
{
}

/// A configuration in which nothing is set becomes the one that is merged into it.
pub proof fn lemma_merge_into_silence(silent: PruneConfig, other: PruneConfig)
    requires
        silent.block_interval == 5,
        silent.segments.sender_recovery is None,
        silent.segments.transaction_lookup is None,
        silent.segments.receipts is None,
        silent.segments.account_history is None,
        silent.segments.storage_history is None,
        silent.segments.bodies_history is None,
        silent.segments.receipts_log_filter.0.listed().len() == 0,
    ensures
        merged(silent, other).block_interval == other.block_interval,
        merged(silent, other).segments.sender_recovery == other.segments.sender_recovery,
        merged(silent, other).segments.transaction_lookup == other.segments.transaction_lookup,
        merged(silent, other).segments.receipts == other.segments.receipts,
        merged(silent, other).segments.account_history == other.segments.account_history,
        merged(silent, other).segments.storage_history == other.segments.storage_history,
        merged(silent, other).segments.bodies_history == other.segments.bodies_history,
        merged(silent, other).segments.receipts_log_filter.0.listed()
            == other.segments.receipts_log_filter.0.listed(),
{
    assert(merged(silent, other).segments.receipts_log_filter.0.listed()
        =~= other.segments.receipts_log_filter.0.listed());
}

/// A configuration is as where nothing is said exactly where the interval is the usual one, no
/// segment has a mode and the filter is empty.
pub proof fn lemma_default_says_nothing(config: PruneConfig)
    ensures
        config.is_as_default() <==> {
            &&& config.block_interval == 5
            &&& config.segments.sender_recovery is None
            &&& config.segments.transaction_lookup is None
            &&& config.segments.receipts is None
            &&& config.segments.account_history is None
            &&& config.segments.storage_history is None
            &&& config.segments.bodies_history is None
            &&& config.segments.receipts_log_filter.0.listed().len() == 0
        },
{
}

/// A second merge of the same configuration changes nothing, and three configurations give the same
/// whichever two are merged first.
pub proof fn lemma_merge_order(a: PruneConfig, b: PruneConfig, c: PruneConfig)
    ensures
        merged(merged(a, b), b) == merged(a, b),
        merged(merged(a, b), c) == merged(a, merged(b, c)),
{
}

/// What a node is configured with. How it finds peers and keeps sessions is up to the network.
#[derive(Debug)]
pub struct Config<Peers, Sessions> {
    pub stages: StageConfig,
    pub prune: PruneConfig,
    pub peers: Peers,
    pub sessions: Sessions,
    pub static_files: StaticFilesConfig,
}

impl<Peers: Default, Sessions: Default> Default for Config<Peers, Sessions> {
    fn default() -> (made: Config<Peers, Sessions>)
        ensures
            call_ensures(StageConfig::default, (), made.stages),
            made.prune.is_as_default(),
            made.prune.segments.receipts_log_filter.0.wf(),
            call_ensures(Peers::default, (), made.peers),
            call_ensures(Sessions::default, (), made.sessions),
            forall|segment: StaticFileSegment|
                made.static_files.blocks_per_file.value(segment) is None,
    {
        Config {
            stages: StageConfig::default(),
            prune: PruneConfig::default(),
            peers: Peers::default(),
            sessions: Sessions::default(),
            static_files: StaticFilesConfig::default(),
        }
    }
}

/// A configuration file must have the extension of one.
#[derive(Clone, Copy, Debug, PartialEq, Eq, Structural)]
pub struct WrongExtension;

impl<Peers, Sessions> Config<Peers, Sessions> {
    /// Replaces what is said about pruning.
    pub fn set_prune_config(&mut self, prune_config: PruneConfig)
        ensures
            *final(self) == (Config {
                stages: old(self).stages,
                prune: prune_config,
                peers: old(self).peers,
                sessions: old(self).sessions,
                static_files: old(self).static_files,
            }),
    {
        self.prune = prune_config;
    }

    /// Whether the configuration can be saved in a file with this extension.
    pub fn check_extension(extension: Option<&str>) -> (checked: Result<(), WrongExtension>)
        ensures
            checked is Ok <==> (extension is Some && extension->0@ == EXTENSION@),
    {
        match extension {
            Some(extension) => if extension.to_owned() == EXTENSION.to_owned() {
                Ok(())
            } else {
                Err(WrongExtension)
            },
            None => Err(WrongExtension),
        }
    }
}

/// The path of an entry starts with the directory and ends with the name, and one slash parts the
/// two: none is added behind one.
pub proof fn lemma_path_below(dir: Seq<char>, name: Seq<char>)
    ensures
        dir.is_prefix_of(path_below(dir, name)),
        name.is_suffix_of(path_below(dir, name)),
        dir.len() > 0 ==> path_below(dir, name)[path_below(dir, name).len() - name.len() - 1]
            == '/',
        dir.len() > 0 && dir.last() == '/' ==> path_below(dir, name).len() == dir.len()
            + name.len(),
        dir.len() > 0 && dir.last() != '/' ==> path_below(dir, name).len() == dir.len() + 1
            + name.len(),
        dir.len() == 0 ==> path_below(dir, name) == name,
{
    let path = path_below(dir, name);
    assert(path.take(dir.len() as int) =~= dir);
    assert(path.skip(path.len() - name.len()) =~= name);
    assert(dir =~= path.subrange(0, dir.len() as int));
    assert(name =~= path.subrange(path.len() - name.len(), path.len() as int));
}

/// Each segment has the value that is given under its own name.
pub proof fn lemma_segment_values<T: Copy>(map: StaticFileMap<T>, config: BlocksPerFileConfig)
    ensures
        map.value(StaticFileSegment::Headers) == map.headers,
        map.value(StaticFileSegment::Transactions) == map.transactions,
        map.value(StaticFileSegment::Receipts) == map.receipts,
        map.value(StaticFileSegment::TransactionSenders) == map.transaction_senders,
        map.value(StaticFileSegment::AccountChangeSets) == map.account_change_sets,
        config.value(StaticFileSegment::Headers) == config.headers,
        config.value(StaticFileSegment::Transactions) == config.transactions,
        config.value(StaticFileSegment::Receipts) == config.receipts,
        config.value(StaticFileSegment::TransactionSenders) == config.transaction_senders,
        config.value(StaticFileSegment::AccountChangeSets) == config.account_change_sets,
{
}

/// Segments are gone through in a fixed order, each once.
pub proof fn lemma_segment_order(segment: StaticFileSegment)
    ensures
        all_segments().contains(segment),
        all_segments().no_duplicates(),
        all_segments().len() == 5,
        all_segments().index_of(StaticFileSegment::Headers) < all_segments().index_of(
            StaticFileSegment::Transactions,
        ) < all_segments().index_of(StaticFileSegment::Receipts) < all_segments().index_of(
            StaticFileSegment::TransactionSenders,
        ) < all_segments().index_of(StaticFileSegment::AccountChangeSets),
{
    lemma_all_segments(segment);
    let all = all_segments();
    assert(all[0] == StaticFileSegment::Headers);
    assert(all[1] == StaticFileSegment::Transactions);
    assert(all[2] == StaticFileSegment::Receipts);
    assert(all[3] == StaticFileSegment::TransactionSenders);
    assert(all[4] == StaticFileSegment::AccountChangeSets);
}

} // verus!
