use reth::config::{
    join_path, Address, BlocksPerFileConfig, BodiesConfig, Config, EmptyFiles, EraConfig,
    EtlConfig, ExecutionConfig, ExecutionStageThresholds, HashingConfig, HeadersConfig,
    IndexHistoryConfig, MerkleConfig, PruneConfig, PruneMode, PruneModes, PruneStageConfig,
    ReceiptsLogPruneConfig, SenderRecoveryConfig, StageConfig, StaticFileSegment,
    StaticFilesConfig, TransactionLookupConfig, WrongExtension, DEFAULT_BLOCK_INTERVAL,
};
use reth::sorted_map::SortedMap;
use reth::time::Duration;

fn filter(items: &[(u128, PruneMode)]) -> ReceiptsLogPruneConfig {
    let mut map = SortedMap::new();
    for (lo, mode) in items {
        map.push(Address { hi: 1, lo: *lo }, *mode);
    }
    ReceiptsLogPruneConfig(map)
}

fn items_of(filter: &ReceiptsLogPruneConfig) -> Vec<(Address, PruneMode)> {
    (0..filter.0.len()).map(|i| filter.0.item(i)).collect()
}

#[test]
fn test_prune_config_merge() {
    let mut config1 = PruneConfig {
        block_interval: 5,
        segments: PruneModes {
            sender_recovery: Some(PruneMode::Full),
            transaction_lookup: None,
            receipts: Some(PruneMode::Distance(1000)),
            account_history: None,
            storage_history: Some(PruneMode::Before(5000)),
            bodies_history: None,
            receipts_log_filter: filter(&[(11, PruneMode::Full)]),
        },
    };

    let config2 = PruneConfig {
        block_interval: 10,
        segments: PruneModes {
            sender_recovery: Some(PruneMode::Distance(500)),
            transaction_lookup: Some(PruneMode::Full),
            receipts: Some(PruneMode::Full),
            account_history: Some(PruneMode::Distance(2000)),
            storage_history: Some(PruneMode::Distance(3000)),
            bodies_history: None,
            receipts_log_filter: filter(&[
                (12, PruneMode::Distance(1000)),
                (13, PruneMode::Before(2000)),
            ]),
        },
    };

    let original_filter = items_of(&config1.segments.receipts_log_filter);
    config1.merge(config2);

    // What was set stays.
    assert_eq!(config1.block_interval, 10);
    assert_eq!(config1.segments.sender_recovery, Some(PruneMode::Full));
    assert_eq!(config1.segments.transaction_lookup, Some(PruneMode::Full));
    assert_eq!(config1.segments.receipts, Some(PruneMode::Distance(1000)));
    assert_eq!(config1.segments.account_history, Some(PruneMode::Distance(2000)));
    assert_eq!(config1.segments.storage_history, Some(PruneMode::Before(5000)));
    assert_eq!(items_of(&config1.segments.receipts_log_filter), original_filter);
}

#[test]
fn an_empty_filter_is_filled() {
    let mut config = PruneConfig { block_interval: 7, ..PruneConfig::default() };
    let mut other = PruneConfig::default();
    other.segments.receipts_log_filter = filter(&[(12, PruneMode::Full)]);
    config.merge(other);
    assert_eq!(config.block_interval, 7);
    assert_eq!(
        items_of(&config.segments.receipts_log_filter),
        vec![(Address { hi: 1, lo: 12 }, PruneMode::Full)]
    );
}

#[test]
fn merging_defaults_changes_nothing() {
    let mut config = PruneConfig { block_interval: 9, ..PruneConfig::default() };
    config.segments.receipts = Some(PruneMode::Before(3));
    config.merge(PruneConfig::default());
    assert_eq!(config.block_interval, 9);
    assert_eq!(config.segments.receipts, Some(PruneMode::Before(3)));
    assert_eq!(config.segments.bodies_history, None);
}

#[test]
fn merges_can_be_regrouped() {
    let make = |interval: usize, receipts: Option<PruneMode>, history: Option<PruneMode>| {
        let mut config = PruneConfig { block_interval: interval, ..PruneConfig::default() };
        config.segments.receipts = receipts;
        config.segments.account_history = history;
        config
    };
    let a = || make(5, None, Some(PruneMode::Full));
    let b = || make(8, Some(PruneMode::Before(1)), None);
    let c = || make(9, Some(PruneMode::Before(2)), Some(PruneMode::Before(2)));
    let mut left = a();
    left.merge(b());
    left.merge(c());
    let mut inner = b();
    inner.merge(c());
    let mut right = a();
    right.merge(inner);
    for config in [left, right] {
        assert_eq!(config.block_interval, 8);
        assert_eq!(config.segments.receipts, Some(PruneMode::Before(1)));
        assert_eq!(config.segments.account_history, Some(PruneMode::Full));
    }
}

#[test]
fn prune_defaults() {
    let config = PruneConfig::default();
    assert!(config.is_default());
    assert!(!config.has_receipts_pruning());
    assert_eq!(config.block_interval, DEFAULT_BLOCK_INTERVAL);
    let mut config = PruneConfig::default();
    config.segments.receipts = Some(PruneMode::Full);
    assert!(!config.is_default());
    assert!(config.has_receipts_pruning());
    let mut config = PruneConfig::default();
    config.segments.receipts_log_filter = filter(&[(1, PruneMode::Full)]);
    assert!(!config.is_default());
    assert!(config.has_receipts_pruning());
    assert!(!PruneConfig { block_interval: 6, ..PruneConfig::default() }.is_default());
}

#[test]
fn stage_defaults() {
    assert_eq!(HeadersConfig::default().commit_threshold, 10_000);
    assert_eq!(
        BodiesConfig::default().downloader_max_buffered_blocks_size_bytes,
        2 * 1024 * 1024 * 1024
    );
    assert_eq!(SenderRecoveryConfig::default().commit_threshold, 5_000_000);
    assert_eq!(PruneStageConfig::default().commit_threshold, 1_000_000);
    assert_eq!(HashingConfig::default().clean_threshold, 500_000);
    assert_eq!(MerkleConfig::default().rebuild_threshold, 100_000);
    assert_eq!(TransactionLookupConfig::default().chunk_size, 5_000_000);
    assert_eq!(IndexHistoryConfig::default().commit_threshold, 100_000);
    let execution = ExecutionConfig::default();
    assert_eq!(execution.max_cumulative_gas, Some(30_000_000 * 50_000));
    assert_eq!(execution.max_duration, Some(Duration { secs: 600, nanos: 0 }));
    assert_eq!(
        ExecutionStageThresholds::from(execution),
        ExecutionStageThresholds {
            max_blocks: Some(500_000),
            max_changes: Some(5_000_000),
            max_cumulative_gas: Some(1_500_000_000_000),
            max_duration: Some(Duration { secs: 600, nanos: 0 }),
        }
    );
    let stages = StageConfig::default();
    assert_eq!(stages.etl.dir, None);
    assert_eq!(stages.etl.file_size, 500 * 1024 * 1024);
}

#[test]
fn clean_threshold_is_the_highest() {
    let mut stages = StageConfig::default();
    assert_eq!(stages.execution_external_clean_threshold(), 500_000);
    stages.merkle.incremental_threshold = 600_000;
    assert_eq!(stages.execution_external_clean_threshold(), 600_000);
    stages.storage_hashing.clean_threshold = 700_000;
    assert_eq!(stages.execution_external_clean_threshold(), 700_000);
}

#[test]
fn directories_below_the_data_directory() {
    assert_eq!(EtlConfig::from_datadir("/data"), "/data/etl-tmp");
    assert_eq!(EtlConfig::from_datadir("/data/"), "/data/etl-tmp");
    assert_eq!(EtlConfig::from_datadir(""), "etl-tmp");
    assert_eq!(
        EtlConfig::from_datadir("/data"),
        std::path::Path::new("/data").join("etl-tmp").to_str().unwrap()
    );
    let era = EraConfig { path: None, url: Some(String::from("https://era")), folder: None }
        .with_datadir("/data");
    assert_eq!(era.folder.as_deref(), Some("/data/era"));
    assert_eq!(era.url.as_deref(), Some("https://era"));
    assert_eq!(era.path, None);
    assert_eq!(join_path("/", "x"), "/x");
    let etl = EtlConfig::new(Some(String::from("/tmp")), 7);
    assert_eq!(etl.dir.as_deref(), Some("/tmp"));
    assert_eq!(etl.file_size, 7);
    assert_eq!(EtlConfig::default_file_size(), 524_288_000);
}

#[test]
fn empty_static_files_are_refused() {
    let none = BlocksPerFileConfig::default();
    let check = |blocks_per_file| StaticFilesConfig { blocks_per_file }.validate();
    assert_eq!(check(none), Ok(()));
    assert_eq!(check(BlocksPerFileConfig { headers: Some(1), ..none }), Ok(()));
    let cases = vec![
        (
            BlocksPerFileConfig { headers: Some(0), receipts: Some(0), ..none },
            StaticFileSegment::Headers,
            "Headers segment blocks per file must be greater than 0",
        ),
        (
            BlocksPerFileConfig { transactions: Some(0), ..none },
            StaticFileSegment::Transactions,
            "Transactions segment blocks per file must be greater than 0",
        ),
        (
            BlocksPerFileConfig { receipts: Some(0), account_change_sets: Some(0), ..none },
            StaticFileSegment::Receipts,
            "Receipts segment blocks per file must be greater than 0",
        ),
        (
            BlocksPerFileConfig { transaction_senders: Some(0), ..none },
            StaticFileSegment::TransactionSenders,
            "Transaction senders segment blocks per file must be greater than 0",
        ),
        (
            BlocksPerFileConfig { account_change_sets: Some(0), ..none },
            StaticFileSegment::AccountChangeSets,
            "Account changesets segment blocks per file must be greater than 0",
        ),
    ];
    for (config, segment, message) in cases {
        let error = check(config).unwrap_err();
        assert_eq!(error, EmptyFiles { segment });
        assert_eq!(error.message(), message);
    }
}

#[test]
fn blocks_per_file_by_segment() {
    let map = StaticFilesConfig {
        blocks_per_file: BlocksPerFileConfig {
            transactions: Some(5),
            account_change_sets: Some(6),
            ..BlocksPerFileConfig::default()
        },
    }
    .as_blocks_per_file_map();
    assert_eq!(map.get(StaticFileSegment::Headers), None);
    assert_eq!(map.get(StaticFileSegment::Transactions), Some(5));
    assert_eq!(map.get(StaticFileSegment::Receipts), None);
    assert_eq!(map.get(StaticFileSegment::TransactionSenders), None);
    assert_eq!(map.get(StaticFileSegment::AccountChangeSets), Some(6));
}

#[test]
fn prune_config_is_replaced() {
    let mut config = Config {
        stages: StageConfig::default(),
        prune: PruneConfig::default(),
        peers: "peers",
        sessions: "sessions",
        static_files: StaticFilesConfig::default(),
    };
    config.set_prune_config(PruneConfig { block_interval: 3, ..PruneConfig::default() });
    assert_eq!(config.prune.block_interval, 3);
    assert_eq!(config.peers, "peers");
    assert_eq!(config.sessions, "sessions");
}

#[test]
fn configuration_files_end_in_toml() {
    assert_eq!(Config::<(), ()>::check_extension(Some("toml")), Ok(()));
    assert_eq!(Config::<(), ()>::check_extension(Some("json")), Err(WrongExtension));
    assert_eq!(Config::<(), ()>::check_extension(None), Err(WrongExtension));
}

#[test]
fn configuration_defaults() {
    let config = Config::<u8, bool>::default();
    assert_eq!(config.stages.headers.commit_threshold, 10_000);
    assert!(config.prune.is_default());
    assert_eq!(config.peers, 0);
    assert!(!config.sessions);
    assert!(config.static_files.validate().is_ok());
}
