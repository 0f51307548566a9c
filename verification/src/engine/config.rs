use vstd::prelude::*;

use crate::eips::epoch_slots;

verus! {

/// How many canonical blocks may be in memory before they are written to disk.
pub const DEFAULT_PERSISTENCE_THRESHOLD: u64 = 2;

/// How close to the canonical head blocks are written to disk.
pub const DEFAULT_MEMORY_BLOCK_BUFFER_TARGET: u64 = 0;

/// The fewest workers that can be asked for.
pub const MIN_WORKER_COUNT: usize = 32;

/// How many targets of a multiproof make up a chunk.
pub const DEFAULT_MULTIPROOF_TASK_CHUNK_SIZE: usize = 60;

/// How many cores are left to other processes.
pub const DEFAULT_RESERVED_CPU_CORES: usize = 1;

/// How many prewarming tasks run at once.
pub const DEFAULT_PREWARM_MAX_CONCURRENCY: usize = 16;

/// How many invalid headers are remembered.
pub const DEFAULT_MAX_INVALID_HEADER_CACHE_LENGTH: u32 = 256;

/// How many downloaded blocks are executed in a row.
pub const DEFAULT_MAX_EXECUTE_BLOCK_BATCH_SIZE: usize = 4;

/// How large the cache across blocks is: four gibibytes.
pub const DEFAULT_CROSS_BLOCK_CACHE_SIZE: u64 = 4 * 1024 * 1024 * 1024;

/// How many threads the state root task needs: one each for the engine, the multiproof task, the
/// sparse trie task, the multiproofs that it starts, and the storage roots that those start.
pub const THREADS_OF_STATE_ROOT_TASK: usize = 5;

/// How many workers a host starts with: two for each of its threads, but no more than the least
/// number that can be asked for, and eight where the host does not tell.
pub open spec fn default_workers(parallelism: Option<usize>) -> int {
    match parallelism {
        Some(threads) => if 2 * threads < MIN_WORKER_COUNT {
            2 * threads
        } else {
            MIN_WORKER_COUNT as int
        },
        None => 8,
    }
}

/// How many workers prove storage on a host with these threads.
pub fn default_storage_worker_count(parallelism: Option<usize>) -> (workers: usize)
    ensures
        workers == default_workers(parallelism),
{
    match parallelism {
        Some(threads) => if threads < MIN_WORKER_COUNT / 2 {
            threads * 2
        } else {
            MIN_WORKER_COUNT
        },
        None => 8,
    }
}

/// How many workers prove accounts on a host with these threads: as many as prove storage.
pub fn default_account_worker_count(parallelism: Option<usize>) -> (workers: usize)
    ensures
        workers == default_workers(parallelism),
{
    default_storage_worker_count(parallelism)
}

/// Whether a host with these threads can run the state root task.
pub fn has_enough_parallelism(parallelism: Option<usize>) -> (enough: bool)
    ensures
        enough == (parallelism is Some && parallelism->0 >= THREADS_OF_STATE_ROOT_TASK),
{
    match parallelism {
        Some(threads) => threads >= THREADS_OF_STATE_ROOT_TASK,
        None => false,
    }
}

/// How the tree of blocks in memory is kept and its state roots are computed.
#[derive(Clone, Copy, Debug, PartialEq, Eq, Structural)]
pub struct TreeConfig {
    /// How far the chain in memory may grow before blocks are written to disk.
    pub persistence_threshold: u64,
    /// How many of the latest blocks stay in memory for fast access and for reorganisations. It
    /// should not be above the persistence threshold.
    pub memory_block_buffer_target: u64,
    /// How many blocks wait in the buffer for a parent that is missing.
    pub block_buffer_limit: u32,
    /// How many invalid headers are remembered.
    pub max_invalid_header_cache_length: u32,
    /// How many downloaded blocks are executed in a row at most.
    pub max_execute_block_batch_size: usize,
    /// Whether the state root is computed the old way and not by the state root task.
    pub legacy_state_root: bool,
    /// Whether the trie updates of the state root task are compared with those of the regular
    /// computation.
    pub always_compare_trie_updates: bool,
    /// Whether the state cache is off.
    pub disable_state_cache: bool,
    /// Whether parallel prewarming is off.
    pub disable_prewarming: bool,
    /// Whether the parallel sparse trie is off.
    pub disable_parallel_sparse_trie: bool,
    /// Whether state providers report metrics.
    pub state_provider_metrics: bool,
    /// The size of the cache across blocks, in bytes.
    pub cross_block_cache_size: u64,
    /// Whether the host can run the state root task.
    pub has_enough_parallelism: bool,
    /// Whether the multiproof task splits its targets.
    pub multiproof_chunking_enabled: bool,
    /// How many targets the multiproof task takes at a time.
    pub multiproof_chunk_size: usize,
    /// How many cores are left to other processes.
    pub reserved_cpu_cores: usize,
    /// Whether the precompile cache is off.
    pub precompile_cache_disabled: bool,
    /// Whether the state root falls back to the regular computation.
    pub state_root_fallback: bool,
    /// Whether a payload is built even where the head is already canonical.
    pub always_process_payload_attributes_on_canonical_head: bool,
    /// How many prewarming tasks run at once at most.
    pub prewarm_max_concurrency: usize,
    /// Whether a forkchoice update may move the canonical header back to an ancestor.
    pub allow_unwind_canonical_header: bool,
    /// How many workers prove storage.
    pub storage_worker_count: usize,
    /// How many workers prove accounts.
    pub account_worker_count: usize,
    /// Whether storage proofs of the second version are on.
    pub enable_proof_v2: bool,
}

/// The configuration of a host with these threads, where nothing else is asked for.
pub open spec fn default_config(parallelism: Option<usize>) -> TreeConfig {
    TreeConfig {
        persistence_threshold: DEFAULT_PERSISTENCE_THRESHOLD,
        memory_block_buffer_target: DEFAULT_MEMORY_BLOCK_BUFFER_TARGET,
        block_buffer_limit: 64,
        max_invalid_header_cache_length: DEFAULT_MAX_INVALID_HEADER_CACHE_LENGTH,
        max_execute_block_batch_size: DEFAULT_MAX_EXECUTE_BLOCK_BATCH_SIZE,
        legacy_state_root: false,
        always_compare_trie_updates: false,
        disable_state_cache: false,
        disable_prewarming: false,
        disable_parallel_sparse_trie: false,
        state_provider_metrics: false,
        cross_block_cache_size: DEFAULT_CROSS_BLOCK_CACHE_SIZE,
        has_enough_parallelism: parallelism is Some && parallelism->0 >= THREADS_OF_STATE_ROOT_TASK,
        multiproof_chunking_enabled: true,
        multiproof_chunk_size: DEFAULT_MULTIPROOF_TASK_CHUNK_SIZE,
        reserved_cpu_cores: DEFAULT_RESERVED_CPU_CORES,
        precompile_cache_disabled: false,
        state_root_fallback: false,
        always_process_payload_attributes_on_canonical_head: false,
        prewarm_max_concurrency: DEFAULT_PREWARM_MAX_CONCURRENCY,
        allow_unwind_canonical_header: false,
        storage_worker_count: default_workers(parallelism) as usize,
        account_worker_count: default_workers(parallelism) as usize,
        enable_proof_v2: false,
    }
}

impl TreeConfig {
    /// The configuration of a host with these threads, where nothing else is asked for.
    pub fn for_host(parallelism: Option<usize>) -> (made: TreeConfig)
        ensures
            made == default_config(parallelism),
    {
        let slots: u64 = epoch_slots();
        let block_buffer_limit: u32 = slots as u32 * 2;
        TreeConfig {
            persistence_threshold: DEFAULT_PERSISTENCE_THRESHOLD,
            memory_block_buffer_target: DEFAULT_MEMORY_BLOCK_BUFFER_TARGET,
            block_buffer_limit,
            max_invalid_header_cache_length: DEFAULT_MAX_INVALID_HEADER_CACHE_LENGTH,
            max_execute_block_batch_size: DEFAULT_MAX_EXECUTE_BLOCK_BATCH_SIZE,
            legacy_state_root: false,
            always_compare_trie_updates: false,
            disable_state_cache: false,
            disable_prewarming: false,
            disable_parallel_sparse_trie: false,
            state_provider_metrics: false,
            cross_block_cache_size: DEFAULT_CROSS_BLOCK_CACHE_SIZE,
            has_enough_parallelism: has_enough_parallelism(parallelism),
            multiproof_chunking_enabled: true,
            multiproof_chunk_size: DEFAULT_MULTIPROOF_TASK_CHUNK_SIZE,
            reserved_cpu_cores: DEFAULT_RESERVED_CPU_CORES,
            precompile_cache_disabled: false,
            state_root_fallback: false,
            always_process_payload_attributes_on_canonical_head: false,
            prewarm_max_concurrency: DEFAULT_PREWARM_MAX_CONCURRENCY,
            allow_unwind_canonical_header: false,
            storage_worker_count: default_storage_worker_count(parallelism),
            account_worker_count: default_account_worker_count(parallelism),
            enable_proof_v2: false,
        }
    }

    /// A configuration from all of its values.
    pub fn new(
        persistence_threshold: u64,
        memory_block_buffer_target: u64,
        block_buffer_limit: u32,
        max_invalid_header_cache_length: u32,
        max_execute_block_batch_size: usize,
        legacy_state_root: bool,
        always_compare_trie_updates: bool,
        disable_state_cache: bool,
        disable_prewarming: bool,
        disable_parallel_sparse_trie: bool,
        state_provider_metrics: bool,
        cross_block_cache_size: u64,
        has_enough_parallelism: bool,
        multiproof_chunking_enabled: bool,
        multiproof_chunk_size: usize,
        reserved_cpu_cores: usize,
        precompile_cache_disabled: bool,
        state_root_fallback: bool,
        always_process_payload_attributes_on_canonical_head: bool,
        prewarm_max_concurrency: usize,
        allow_unwind_canonical_header: bool,
        storage_worker_count: usize,
        account_worker_count: usize,
        enable_proof_v2: bool,
    ) -> (made: TreeConfig)
        ensures
            made.persistence_threshold == persistence_threshold,
            made.memory_block_buffer_target == memory_block_buffer_target,
            made.block_buffer_limit == block_buffer_limit,
            made.max_invalid_header_cache_length == max_invalid_header_cache_length,
            made.max_execute_block_batch_size == max_execute_block_batch_size,
            made.legacy_state_root == legacy_state_root,
            made.always_compare_trie_updates == always_compare_trie_updates,
            made.disable_state_cache == disable_state_cache,
            made.disable_prewarming == disable_prewarming,
            made.disable_parallel_sparse_trie == disable_parallel_sparse_trie,
            made.state_provider_metrics == state_provider_metrics,
            made.cross_block_cache_size == cross_block_cache_size,
            made.has_enough_parallelism == has_enough_parallelism,
            made.multiproof_chunking_enabled == multiproof_chunking_enabled,
            made.multiproof_chunk_size == multiproof_chunk_size,
            made.reserved_cpu_cores == reserved_cpu_cores,
            made.precompile_cache_disabled == precompile_cache_disabled,
            made.state_root_fallback == state_root_fallback,
            made.always_process_payload_attributes_on_canonical_head == always_process_payload_attributes_on_canonical_head,
            made.prewarm_max_concurrency == prewarm_max_concurrency,
            made.allow_unwind_canonical_header == allow_unwind_canonical_header,
            made.storage_worker_count == storage_worker_count,
            made.account_worker_count == account_worker_count,
            made.enable_proof_v2 == enable_proof_v2,
    {
        TreeConfig {
            persistence_threshold,
            memory_block_buffer_target,
            block_buffer_limit,
            max_invalid_header_cache_length,
            max_execute_block_batch_size,
            legacy_state_root,
            always_compare_trie_updates,
            disable_state_cache,
            disable_prewarming,
            disable_parallel_sparse_trie,
            state_provider_metrics,
            cross_block_cache_size,
            has_enough_parallelism,
            multiproof_chunking_enabled,
            multiproof_chunk_size,
            reserved_cpu_cores,
            precompile_cache_disabled,
            state_root_fallback,
            always_process_payload_attributes_on_canonical_head,
            prewarm_max_concurrency,
            allow_unwind_canonical_header,
            storage_worker_count,
            account_worker_count,
            enable_proof_v2,
        }
    }

    /// How far the chain in memory may grow before blocks are written to disk.
    pub fn persistence_threshold(&self) -> (value: u64)
        ensures
            value == self.persistence_threshold,
    {
        self.persistence_threshold
    }

    /// How many of the latest blocks stay in memory for fast access and for reorganisations. It
    /// should not be above the persistence threshold.
    pub fn memory_block_buffer_target(&self) -> (value: u64)
        ensures
            value == self.memory_block_buffer_target,
    {
        self.memory_block_buffer_target
    }

    /// How many blocks wait in the buffer for a parent that is missing.
    pub fn block_buffer_limit(&self) -> (value: u32)
        ensures
            value == self.block_buffer_limit,
    {
        self.block_buffer_limit
    }

    /// How many invalid headers are remembered.
    pub fn max_invalid_header_cache_length(&self) -> (value: u32)
        ensures
            value == self.max_invalid_header_cache_length,
    {
        self.max_invalid_header_cache_length
    }

    /// How many downloaded blocks are executed in a row at most.
    pub fn max_execute_block_batch_size(&self) -> (value: usize)
        ensures
            value == self.max_execute_block_batch_size,
    {
        self.max_execute_block_batch_size
    }

    /// Whether the state root is computed the old way and not by the state root task.
    pub fn legacy_state_root(&self) -> (value: bool)
        ensures
            value == self.legacy_state_root,
    {
        self.legacy_state_root
    }

    /// Whether the trie updates of the state root task are compared with those of the regular
    /// computation.
    pub fn always_compare_trie_updates(&self) -> (value: bool)
        ensures
            value == self.always_compare_trie_updates,
    {
        self.always_compare_trie_updates
    }

    /// Whether the state cache is off.
    pub fn disable_state_cache(&self) -> (value: bool)
        ensures
            value == self.disable_state_cache,
    {
        self.disable_state_cache
    }

    /// Whether parallel prewarming is off.
    pub fn disable_prewarming(&self) -> (value: bool)
        ensures
            value == self.disable_prewarming,
    {
        self.disable_prewarming
    }

    /// Whether the parallel sparse trie is off.
    pub fn disable_parallel_sparse_trie(&self) -> (value: bool)
        ensures
            value == self.disable_parallel_sparse_trie,
    {
        self.disable_parallel_sparse_trie
    }

    /// Whether state providers report metrics.
    pub fn state_provider_metrics(&self) -> (value: bool)
        ensures
            value == self.state_provider_metrics,
    {
        self.state_provider_metrics
    }

    /// The size of the cache across blocks, in bytes.
    pub fn cross_block_cache_size(&self) -> (value: u64)
        ensures
            value == self.cross_block_cache_size,
    {
        self.cross_block_cache_size
    }

    /// Whether the multiproof task splits its targets.
    pub fn multiproof_chunking_enabled(&self) -> (value: bool)
        ensures
            value == self.multiproof_chunking_enabled,
    {
        self.multiproof_chunking_enabled
    }

    /// How many targets the multiproof task takes at a time.
    pub fn multiproof_chunk_size(&self) -> (value: usize)
        ensures
            value == self.multiproof_chunk_size,
    {
        self.multiproof_chunk_size
    }

    /// How many cores are left to other processes.
    pub fn reserved_cpu_cores(&self) -> (value: usize)
        ensures
            value == self.reserved_cpu_cores,
    {
        self.reserved_cpu_cores
    }

    /// Whether the precompile cache is off.
    pub fn precompile_cache_disabled(&self) -> (value: bool)
        ensures
            value == self.precompile_cache_disabled,
    {
        self.precompile_cache_disabled
    }

    /// Whether the state root falls back to the regular computation.
    pub fn state_root_fallback(&self) -> (value: bool)
        ensures
            value == self.state_root_fallback,
    {
        self.state_root_fallback
    }

    /// Whether a payload is built even where the head is already canonical.
    pub fn always_process_payload_attributes_on_canonical_head(&self) -> (value: bool)
        ensures
            value == self.always_process_payload_attributes_on_canonical_head,
    {
        self.always_process_payload_attributes_on_canonical_head
    }

    /// How many prewarming tasks run at once at most.
    pub fn prewarm_max_concurrency(&self) -> (value: usize)
        ensures
            value == self.prewarm_max_concurrency,
    {
        self.prewarm_max_concurrency
    }

    /// Whether a forkchoice update may move the canonical header back to an ancestor.
    pub fn unwind_canonical_header(&self) -> (value: bool)
        ensures
            value == self.allow_unwind_canonical_header,
    {
        self.allow_unwind_canonical_header
    }

    /// How many workers prove storage.
    pub fn storage_worker_count(&self) -> (value: usize)
        ensures
            value == self.storage_worker_count,
    {
        self.storage_worker_count
    }

    /// How many workers prove accounts.
    pub fn account_worker_count(&self) -> (value: usize)
        ensures
            value == self.account_worker_count,
    {
        self.account_worker_count
    }

    /// Whether storage proofs of the second version are on.
    pub fn enable_proof_v2(&self) -> (value: bool)
        ensures
            value == self.enable_proof_v2,
    {
        self.enable_proof_v2
    }

    /// Sets how far the chain in memory may grow before blocks are written to disk.
    pub fn with_persistence_threshold(self, persistence_threshold: u64) -> (made: TreeConfig)
        ensures
            made == (TreeConfig { persistence_threshold, ..self }),
    {
        let mut made = self;
        made.persistence_threshold = persistence_threshold;
        made
    }

    /// Sets how many of the latest blocks stay in memory for fast access and for reorganisations. It
    /// should not be above the persistence threshold.
    pub fn with_memory_block_buffer_target(self, memory_block_buffer_target: u64) -> (made: TreeConfig)
        ensures
            made == (TreeConfig { memory_block_buffer_target, ..self }),
    {
        let mut made = self;
        made.memory_block_buffer_target = memory_block_buffer_target;
        made
    }

    /// Sets how many blocks wait in the buffer for a parent that is missing.
    pub fn with_block_buffer_limit(self, block_buffer_limit: u32) -> (made: TreeConfig)
        ensures
            made == (TreeConfig { block_buffer_limit, ..self }),
    {
        let mut made = self;
        made.block_buffer_limit = block_buffer_limit;
        made
    }

    /// Sets how many invalid headers are remembered.
    pub fn with_max_invalid_header_cache_length(self, max_invalid_header_cache_length: u32) -> (made: TreeConfig)
        ensures
            made == (TreeConfig { max_invalid_header_cache_length, ..self }),
    {
        let mut made = self;
        made.max_invalid_header_cache_length = max_invalid_header_cache_length;
        made
    }

    /// Sets how many downloaded blocks are executed in a row at most.
    pub fn with_max_execute_block_batch_size(self, max_execute_block_batch_size: usize) -> (made: TreeConfig)
        ensures
            made == (TreeConfig { max_execute_block_batch_size, ..self }),
    {
        let mut made = self;
        made.max_execute_block_batch_size = max_execute_block_batch_size;
        made
    }

    /// Sets whether the state root is computed the old way and not by the state root task.
    pub fn with_legacy_state_root(self, legacy_state_root: bool) -> (made: TreeConfig)
        ensures
            made == (TreeConfig { legacy_state_root, ..self }),
    {
        let mut made = self;
        made.legacy_state_root = legacy_state_root;
        made
    }

    /// Sets whether the trie updates of the state root task are compared with those of the regular
    /// computation.
    pub fn with_always_compare_trie_updates(self, always_compare_trie_updates: bool) -> (made: TreeConfig)
        ensures
            made == (TreeConfig { always_compare_trie_updates, ..self }),
    {
        let mut made = self;
        made.always_compare_trie_updates = always_compare_trie_updates;
        made
    }

    /// Sets whether the state cache is off.
    pub fn without_state_cache(self, disable_state_cache: bool) -> (made: TreeConfig)
        ensures
            made == (TreeConfig { disable_state_cache, ..self }),
    {
        let mut made = self;
        made.disable_state_cache = disable_state_cache;
        made
    }

    /// Sets whether parallel prewarming is off.
    pub fn without_prewarming(self, disable_prewarming: bool) -> (made: TreeConfig)
        ensures
            made == (TreeConfig { disable_prewarming, ..self }),
    {
        let mut made = self;
        made.disable_prewarming = disable_prewarming;
        made
    }

    /// Sets whether the parallel sparse trie is off.
    pub fn with_disable_parallel_sparse_trie(self, disable_parallel_sparse_trie: bool) -> (made: TreeConfig)
        ensures
            made == (TreeConfig { disable_parallel_sparse_trie, ..self }),
    {
        let mut made = self;
        made.disable_parallel_sparse_trie = disable_parallel_sparse_trie;
        made
    }

    /// Sets whether state providers report metrics.
    pub fn with_state_provider_metrics(self, state_provider_metrics: bool) -> (made: TreeConfig)
        ensures
            made == (TreeConfig { state_provider_metrics, ..self }),
    {
        let mut made = self;
        made.state_provider_metrics = state_provider_metrics;
        made
    }

    /// Sets the size of the cache across blocks, in bytes.
    pub fn with_cross_block_cache_size(self, cross_block_cache_size: u64) -> (made: TreeConfig)
        ensures
            made == (TreeConfig { cross_block_cache_size, ..self }),
    {
        let mut made = self;
        made.cross_block_cache_size = cross_block_cache_size;
        made
    }

    /// Sets whether the host can run the state root task.
    pub fn with_has_enough_parallelism(self, has_enough_parallelism: bool) -> (made: TreeConfig)
        ensures
            made == (TreeConfig { has_enough_parallelism, ..self }),
    {
        let mut made = self;
        made.has_enough_parallelism = has_enough_parallelism;
        made
    }

    /// Sets whether the multiproof task splits its targets.
    pub fn with_multiproof_chunking_enabled(self, multiproof_chunking_enabled: bool) -> (made: TreeConfig)
        ensures
            made == (TreeConfig { multiproof_chunking_enabled, ..self }),
    {
        let mut made = self;
        made.multiproof_chunking_enabled = multiproof_chunking_enabled;
        made
    }

    /// Sets how many targets the multiproof task takes at a time.
    pub fn with_multiproof_chunk_size(self, multiproof_chunk_size: usize) -> (made: TreeConfig)
        ensures
            made == (TreeConfig { multiproof_chunk_size, ..self }),
    {
        let mut made = self;
        made.multiproof_chunk_size = multiproof_chunk_size;
        made
    }

    /// Sets how many cores are left to other processes.
    pub fn with_reserved_cpu_cores(self, reserved_cpu_cores: usize) -> (made: TreeConfig)
        ensures
            made == (TreeConfig { reserved_cpu_cores, ..self }),
    {
        let mut made = self;
        made.reserved_cpu_cores = reserved_cpu_cores;
        made
    }

    /// Sets whether the precompile cache is off.
    pub fn without_precompile_cache(self, precompile_cache_disabled: bool) -> (made: TreeConfig)
        ensures
            made == (TreeConfig { precompile_cache_disabled, ..self }),
    {
        let mut made = self;
        made.precompile_cache_disabled = precompile_cache_disabled;
        made
    }

    /// Sets whether the state root falls back to the regular computation.
    pub fn with_state_root_fallback(self, state_root_fallback: bool) -> (made: TreeConfig)
        ensures
            made == (TreeConfig { state_root_fallback, ..self }),
    {
        let mut made = self;
        made.state_root_fallback = state_root_fallback;
        made
    }

    /// Sets whether a payload is built even where the head is already canonical.
    pub fn with_always_process_payload_attributes_on_canonical_head(self, always_process_payload_attributes_on_canonical_head: bool) -> (made: TreeConfig)
        ensures
            made == (TreeConfig { always_process_payload_attributes_on_canonical_head, ..self }),
    {
        let mut made = self;
        made.always_process_payload_attributes_on_canonical_head = always_process_payload_attributes_on_canonical_head;
        made
    }

    /// Sets how many prewarming tasks run at once at most.
    pub fn with_prewarm_max_concurrency(self, prewarm_max_concurrency: usize) -> (made: TreeConfig)
        ensures
            made == (TreeConfig { prewarm_max_concurrency, ..self }),
    {
        let mut made = self;
        made.prewarm_max_concurrency = prewarm_max_concurrency;
        made
    }

    /// Sets whether a forkchoice update may move the canonical header back to an ancestor.
    pub fn with_unwind_canonical_header(self, unwind_canonical_header: bool) -> (made: TreeConfig)
        ensures
            made == (TreeConfig { allow_unwind_canonical_header: unwind_canonical_header, ..self }),
    {
        let mut made = self;
        made.allow_unwind_canonical_header = unwind_canonical_header;
        made
    }

    /// Sets how many workers prove storage, but no fewer than the least number.
    pub fn with_storage_worker_count(self, storage_worker_count: usize) -> (made: TreeConfig)
        ensures
            made == (TreeConfig { storage_worker_count: at_least_minimum(storage_worker_count), ..self }),
    {
        let mut made = self;
        made.storage_worker_count = if storage_worker_count > MIN_WORKER_COUNT {
            storage_worker_count
        } else {
            MIN_WORKER_COUNT
        };
        made
    }

    /// Sets how many workers prove accounts, but no fewer than the least number.
    pub fn with_account_worker_count(self, account_worker_count: usize) -> (made: TreeConfig)
        ensures
            made == (TreeConfig { account_worker_count: at_least_minimum(account_worker_count), ..self }),
    {
        let mut made = self;
        made.account_worker_count = if account_worker_count > MIN_WORKER_COUNT {
            account_worker_count
        } else {
            MIN_WORKER_COUNT
        };
        made
    }

    /// Sets whether storage proofs of the second version are on.
    pub fn with_enable_proof_v2(self, enable_proof_v2: bool) -> (made: TreeConfig)
        ensures
            made == (TreeConfig { enable_proof_v2, ..self }),
    {
        let mut made = self;
        made.enable_proof_v2 = enable_proof_v2;
        made
    }

    /// Whether the state root task is used: where the host can run it and the old way was not asked
    /// for.
    pub fn use_state_root_task(&self) -> (used: bool)
        ensures
            used == (self.has_enough_parallelism && !self.legacy_state_root),
    {
        self.has_enough_parallelism && !self.legacy_state_root
    }
}

/// The number of workers that is set where `workers` are asked for.
pub open spec fn at_least_minimum(workers: usize) -> usize {
    if workers > MIN_WORKER_COUNT {
        workers
    } else {
        MIN_WORKER_COUNT
    }
}

/// How many workers a host starts with never exceeds two for each of its threads, nor 32, and reaches
/// one of the two. The state root has a task of its own from five threads on.
pub proof fn lemma_defaults_by_host(parallelism: Option<usize>)
    ensures
        parallelism matches Some(threads) ==> {
            let workers = default_config(parallelism).storage_worker_count;
            &&& workers <= 2 * threads
            &&& workers <= 32
            &&& workers == 2 * threads || workers == 32
            &&& default_config(parallelism).has_enough_parallelism <==> threads >= 5
        },
        parallelism is None ==> default_config(parallelism).storage_worker_count == 8
            && !default_config(parallelism).has_enough_parallelism,
        default_config(parallelism).account_worker_count == default_config(
            parallelism,
        ).storage_worker_count,
{
}

/// A number of workers that is asked for is set, unless it is below 32, which is then.
pub proof fn lemma_least_workers(workers: usize)
    ensures
        at_least_minimum(workers) >= workers,
        at_least_minimum(workers) >= 32,
        at_least_minimum(workers) == workers || at_least_minimum(workers) == 32,
{
}

} // verus!
