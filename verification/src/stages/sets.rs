use vstd::prelude::*;

use crate::config::{
    larger, ExecutionStageThresholds, PruneMode, PruneModes, StageConfig,
};
use crate::stages::builder::{
    each_once, has_id, ids, lemma_with_stage, lemma_with_stages, with_stage, with_stages,
    EraImportSource, Stage, StageId, StageSet, StageSetBuilder,
};

verus! {

/// The stages that execute blocks.
pub open spec fn execution_stages<'a>(config: &'a StageConfig) -> Seq<Stage<'a>> {
    seq![
        Stage::SenderRecovery(config.sender_recovery),
        Stage::Execution {
            thresholds: ExecutionStageThresholds {
                max_blocks: config.execution.max_blocks,
                max_changes: config.execution.max_changes,
                max_cumulative_gas: config.execution.max_cumulative_gas,
                max_duration: config.execution.max_duration,
            },
            external_clean_threshold: larger(
                larger(config.merkle.incremental_threshold, config.account_hashing.clean_threshold),
                config.storage_hashing.clean_threshold,
            ),
        },
    ]
}

/// The stage that prunes recovered senders, where they are pruned.
pub open spec fn sender_pruning_stage<'a>(
    config: &'a StageConfig,
    mode: Option<PruneMode>,
) -> Option<Stage<'a>> {
    match mode {
        Some(mode) => Some(
            Stage::PruneSenderRecovery { mode, commit_threshold: config.prune.commit_threshold },
        ),
        None => None,
    }
}

/// The stages that hash the state and compute its root.
pub open spec fn hashing_stages<'a>(config: &'a StageConfig) -> Seq<Stage<'a>> {
    seq![
        Stage::MerkleUnwind,
        Stage::AccountHashing { hashing: config.account_hashing, etl: &config.etl },
        Stage::StorageHashing { hashing: config.storage_hashing, etl: &config.etl },
        Stage::MerkleExecute {
            rebuild_threshold: config.merkle.rebuild_threshold,
            incremental_threshold: config.merkle.incremental_threshold,
        },
    ]
}

/// The stages that index transactions and histories.
pub open spec fn history_stages<'a>(config: &'a StageConfig, modes: &'a PruneModes) -> Seq<
    Stage<'a>,
> {
    seq![
        Stage::TransactionLookup {
            lookup: config.transaction_lookup,
            etl: &config.etl,
            mode: modes.transaction_lookup,
        },
        Stage::IndexStorageHistory {
            history: config.index_storage_history,
            etl: &config.etl,
            mode: modes.storage_history,
        },
        Stage::IndexAccountHistory {
            history: config.index_account_history,
            etl: &config.etl,
            mode: modes.account_history,
        },
    ]
}

/// The stages that need no network: execution, the pruning of senders where it was asked for,
/// hashing, indexing, and pruning behind all of these, so that it takes nothing that they need.
pub open spec fn offline_stages<'a>(config: &'a StageConfig, modes: &'a PruneModes) -> Seq<
    Stage<'a>,
> {
    execution_stages(config) + (match sender_pruning_stage(config, modes.sender_recovery) {
        Some(stage) => seq![stage],
        None => seq![],
    }) + hashing_stages(config) + history_stages(config, modes) + seq![
        Stage::Prune { modes, commit_threshold: config.prune.commit_threshold },
    ]
}

/// The stages that need the network: the import of ERA files where there is a source, headers and
/// bodies.
pub open spec fn online_stages<'a>(
    config: &'a StageConfig,
    source: Option<&'a EraImportSource>,
) -> Seq<Stage<'a>> {
    (match source {
        Some(source) => seq![Stage::Era { source, etl: &config.etl }],
        None => seq![],
    }) + seq![Stage::Headers { etl: &config.etl }, Stage::Bodies]
}

/// All stages of a node that syncs fully.
pub open spec fn default_stages<'a>(
    config: &'a StageConfig,
    modes: &'a PruneModes,
    source: Option<&'a EraImportSource>,
) -> Seq<Stage<'a>> {
    online_stages(config, source) + offline_stages(config, modes) + seq![Stage::Finish]
}

/// The stages that need the network.
#[derive(Clone, Copy, Debug)]
pub struct OnlineStages<'a> {
    pub stages_config: &'a StageConfig,
    /// Where ERA files come from. Without it none are imported.
    pub era_import_source: Option<&'a EraImportSource>,
}

impl<'a> OnlineStages<'a> {
    /// The stages that need the network.
    pub fn new(
        stages_config: &'a StageConfig,
        era_import_source: Option<&'a EraImportSource>,
    ) -> (made: OnlineStages<'a>)
        ensures
            made == (OnlineStages { stages_config, era_import_source }),
    {
        OnlineStages { stages_config, era_import_source }
    }

    /// A stage for headers, and then bodies.
    pub fn builder_with_headers(headers: Stage<'a>) -> (builder: StageSetBuilder<'a>)
        ensures
            builder.stages@ == with_stage(seq![headers], Stage::Bodies),
    {
        proof {
            lemma_with_stage(Seq::<Stage<'a>>::empty(), headers);
            assert(Seq::<Stage<'a>>::empty().push(headers) =~= seq![headers]);
        }
        StageSetBuilder::new().add_stage(headers).add_stage(Stage::Bodies)
    }

    /// Headers, and then a stage for bodies.
    pub fn builder_with_bodies(bodies: Stage<'a>, stages_config: &'a StageConfig) -> (builder:
        StageSetBuilder<'a>)
        ensures
            builder.stages@ == with_stage(
                seq![Stage::Headers { etl: &stages_config.etl }],
                bodies,
            ),
    {
        let headers = Stage::Headers { etl: &stages_config.etl };
        proof {
            lemma_with_stage(Seq::<Stage<'a>>::empty(), headers);
            assert(Seq::<Stage<'a>>::empty().push(headers) =~= seq![headers]);
        }
        StageSetBuilder::new().add_stage(headers).add_stage(bodies)
    }
}

impl<'a> StageSet<'a> for OnlineStages<'a> {
    open spec fn stages(self) -> Seq<Stage<'a>> {
        online_stages(self.stages_config, self.era_import_source)
    }

    fn builder(self) -> (builder: StageSetBuilder<'a>) {
        let mut builder = StageSetBuilder::new();
        if let Some(source) = self.era_import_source {
            let era = Stage::Era { source, etl: &self.stages_config.etl };
            proof {
                lemma_with_stage(builder.stages@, era);
            }
            builder = builder.add_stage(era);
        }
        let headers = Stage::Headers { etl: &self.stages_config.etl };
        proof {
            lemma_with_stage(builder.stages@, headers);
            lemma_with_stage(with_stage(builder.stages@, headers), Stage::Bodies);
        }
        builder.add_stage(headers).add_stage(Stage::Bodies)
    }
}

/// The stages that execute blocks which are there.
#[derive(Clone, Copy, Debug)]
#[non_exhaustive]
pub struct ExecutionStages<'a> {
    pub stages_config: &'a StageConfig,
}

impl<'a> ExecutionStages<'a> {
    /// The stages that execute blocks which are there.
    pub fn new(stages_config: &'a StageConfig) -> (made: ExecutionStages<'a>)
        ensures
            made.stages_config == stages_config,
    {
        ExecutionStages { stages_config }
    }
}

impl<'a> StageSet<'a> for ExecutionStages<'a> {
    open spec fn stages(self) -> Seq<Stage<'a>> {
        execution_stages(self.stages_config)
    }

    fn builder(self) -> (builder: StageSetBuilder<'a>) {
        let recovery = Stage::SenderRecovery(self.stages_config.sender_recovery);
        let execution = Stage::Execution {
            thresholds: ExecutionStageThresholds::from(self.stages_config.execution),
            external_clean_threshold: self.stages_config.execution_external_clean_threshold(),
        };
        proof {
            let empty = Seq::<Stage<'a>>::empty();
            lemma_with_stage(empty, recovery);
            lemma_with_stage(with_stage(empty, recovery), execution);
        }
        StageSetBuilder::new().add_stage(recovery).add_stage(execution)
    }
}

/// The stages that hash the state.
#[derive(Clone, Copy, Debug)]
#[non_exhaustive]
pub struct HashingStages<'a> {
    pub stages_config: &'a StageConfig,
}

impl<'a> HashingStages<'a> {
    /// The stages that hash the state.
    pub fn new(stages_config: &'a StageConfig) -> (made: HashingStages<'a>)
        ensures
            made == (HashingStages { stages_config }),
    {
        HashingStages { stages_config }
    }
}

impl<'a> StageSet<'a> for HashingStages<'a> {
    open spec fn stages(self) -> Seq<Stage<'a>> {
        hashing_stages(self.stages_config)
    }

    fn builder(self) -> (builder: StageSetBuilder<'a>) {
        let config = self.stages_config;
        let accounts = Stage::AccountHashing { hashing: config.account_hashing, etl: &config.etl };
        let storage = Stage::StorageHashing { hashing: config.storage_hashing, etl: &config.etl };
        let execute = Stage::MerkleExecute {
            rebuild_threshold: config.merkle.rebuild_threshold,
            incremental_threshold: config.merkle.incremental_threshold,
        };
        proof {
            let one = with_stage(Seq::<Stage<'a>>::empty(), Stage::MerkleUnwind);
            let two = with_stage(one, accounts);
            let three = with_stage(two, storage);
            lemma_with_stage(Seq::<Stage<'a>>::empty(), Stage::MerkleUnwind);
            lemma_with_stage(one, accounts);
            lemma_with_stage(two, storage);
            lemma_with_stage(three, execute);
        }
        StageSetBuilder::new()
            .add_stage(Stage::MerkleUnwind)
            .add_stage(accounts)
            .add_stage(storage)
            .add_stage(execute)
    }
}

/// The stages that index what was.
#[derive(Clone, Copy, Debug)]
#[non_exhaustive]
pub struct HistoryIndexingStages<'a> {
    pub stages_config: &'a StageConfig,
    pub prune_modes: &'a PruneModes,
}

impl<'a> HistoryIndexingStages<'a> {
    /// The stages that index what was.
    pub fn new(stages_config: &'a StageConfig, prune_modes: &'a PruneModes) -> (made:
        HistoryIndexingStages<'a>)
        ensures
            made == (HistoryIndexingStages { stages_config, prune_modes }),
    {
        HistoryIndexingStages { stages_config, prune_modes }
    }
}

impl<'a> StageSet<'a> for HistoryIndexingStages<'a> {
    open spec fn stages(self) -> Seq<Stage<'a>> {
        history_stages(self.stages_config, self.prune_modes)
    }

    fn builder(self) -> (builder: StageSetBuilder<'a>) {
        let config = self.stages_config;
        let lookup = Stage::TransactionLookup {
            lookup: config.transaction_lookup,
            etl: &config.etl,
            mode: self.prune_modes.transaction_lookup,
        };
        let storage = Stage::IndexStorageHistory {
            history: config.index_storage_history,
            etl: &config.etl,
            mode: self.prune_modes.storage_history,
        };
        let accounts = Stage::IndexAccountHistory {
            history: config.index_account_history,
            etl: &config.etl,
            mode: self.prune_modes.account_history,
        };
        proof {
            let one = with_stage(Seq::<Stage<'a>>::empty(), lookup);
            let two = with_stage(one, storage);
            lemma_with_stage(Seq::<Stage<'a>>::empty(), lookup);
            lemma_with_stage(one, storage);
            lemma_with_stage(two, accounts);
        }
        StageSetBuilder::new().add_stage(lookup).add_stage(storage).add_stage(accounts)
    }
}

/// The stages that need no network.
#[derive(Clone, Copy, Debug)]
#[non_exhaustive]
pub struct OfflineStages<'a> {
    pub stages_config: &'a StageConfig,
    pub prune_modes: &'a PruneModes,
}

impl<'a> OfflineStages<'a> {
    /// The stages that need no network.
    pub fn new(stages_config: &'a StageConfig, prune_modes: &'a PruneModes) -> (made:
        OfflineStages<'a>)
        ensures
            made == (OfflineStages { stages_config, prune_modes }),
    {
        OfflineStages { stages_config, prune_modes }
    }
}

/// Two parts without a stage in common, neither with a stage twice, have none twice together.
proof fn lemma_joined<'a>(first: Seq<Stage<'a>>, second: Seq<Stage<'a>>)
    requires
        each_once(first),
        each_once(second),
        forall|i: int|
            0 <= i < second.len() ==> !has_id(first, (#[trigger] second[i]).spec_id()),
    ensures
        with_stages(first, second) == first + second,
        each_once(first + second),
        forall|id: StageId|
            #[trigger] has_id(first + second, id) <==> has_id(first, id) || has_id(second, id),
{
    lemma_with_stages(first, second);
}

/// Which stages occur among those without the network, once each.
proof fn lemma_offline_parts<'a>(config: &'a StageConfig, modes: &'a PruneModes)
    ensures
        ({
            let execution = execution_stages(config);
            let pruned = match sender_pruning_stage(config, modes.sender_recovery) {
                Some(stage) => with_stage(execution, stage),
                None => execution,
            };
            let hashed = with_stages(pruned, hashing_stages(config));
            let indexed = with_stages(hashed, history_stages(config, modes));
            let prune = Stage::Prune { modes, commit_threshold: config.prune.commit_threshold };
            with_stage(indexed, prune) == offline_stages(config, modes)
        }),
        each_once(offline_stages(config, modes)),
        forall|id: StageId| #[trigger]
            has_id(offline_stages(config, modes), id) ==> id != StageId::Era && id
                != StageId::Headers && id != StageId::Bodies && id != StageId::Finish,
{
    let execution = execution_stages(config);
    let pruning = sender_pruning_stage(config, modes.sender_recovery);
    let pruned = match pruning {
        Some(stage) => with_stage(execution, stage),
        None => execution,
    };
    let hashing = hashing_stages(config);
    let history = history_stages(config, modes);
    let prune = Stage::Prune { modes, commit_threshold: config.prune.commit_threshold };
    if let Some(stage) = pruning {
        lemma_with_stage(execution, stage);
        assert(pruned =~= execution + seq![stage]);
    } else {
        assert(pruned =~= execution + seq![]);
    }
    lemma_joined(pruned, hashing);
    let hashed = pruned + hashing;
    lemma_joined(hashed, history);
    let indexed = hashed + history;
    lemma_with_stage(indexed, prune);
    assert(indexed.push(prune) =~= offline_stages(config, modes));
}

impl<'a> StageSet<'a> for OfflineStages<'a> {
    open spec fn stages(self) -> Seq<Stage<'a>> {
        offline_stages(self.stages_config, self.prune_modes)
    }

    fn builder(self) -> (builder: StageSetBuilder<'a>) {
        let config = self.stages_config;
        let modes = self.prune_modes;
        let sender_pruning = match modes.sender_recovery {
            Some(mode) => Some(
                Stage::PruneSenderRecovery { mode, commit_threshold: config.prune.commit_threshold },
            ),
            None => None,
        };
        proof {
            lemma_offline_parts(config, modes);
        }
        ExecutionStages::new(config)
            .builder()
            .add_stage_opt(sender_pruning)
            .add_set(HashingStages::new(config))
            .add_set(HistoryIndexingStages::new(config, modes))
            .add_stage(Stage::Prune { modes, commit_threshold: config.prune.commit_threshold })
    }
}

/// All stages of a node that syncs fully.
#[derive(Clone, Copy, Debug)]
pub struct DefaultStages<'a> {
    pub online: OnlineStages<'a>,
    pub stages_config: &'a StageConfig,
    pub prune_modes: &'a PruneModes,
}

impl<'a> DefaultStages<'a> {
    /// All stages of a node that syncs fully.
    pub fn new(
        stages_config: &'a StageConfig,
        prune_modes: &'a PruneModes,
        era_import_source: Option<&'a EraImportSource>,
    ) -> (made: DefaultStages<'a>)
        ensures
            made.online == (OnlineStages { stages_config, era_import_source }),
            made.stages_config == stages_config,
            made.prune_modes == prune_modes,
            made.stages() == default_stages(stages_config, prune_modes, era_import_source),
    {
        proof {
            lemma_default_order(stages_config, prune_modes, era_import_source);
        }
        DefaultStages {
            online: OnlineStages::new(stages_config, era_import_source),
            stages_config,
            prune_modes,
        }
    }

    /// Puts the stages that need no network, and the last one, behind others.
    pub fn add_offline_stages(
        default_offline: StageSetBuilder<'a>,
        stages_config: &'a StageConfig,
        prune_modes: &'a PruneModes,
    ) -> (builder: StageSetBuilder<'a>)
        ensures
            builder.stages@ == with_stage(
                with_stages(
                    with_stages(Seq::empty(), default_offline.stages@),
                    offline_stages(stages_config, prune_modes),
                ),
                Stage::Finish,
            ),
    {
        StageSetBuilder::new()
            .add_set(default_offline)
            .add_set(OfflineStages::new(stages_config, prune_modes))
            .add_stage(Stage::Finish)
    }
}

impl<'a> StageSet<'a> for DefaultStages<'a> {
    open spec fn stages(self) -> Seq<Stage<'a>> {
        with_stage(
            with_stages(
                with_stages(Seq::empty(), self.online.stages()),
                offline_stages(self.stages_config, self.prune_modes),
            ),
            Stage::Finish,
        )
    }

    fn builder(self) -> (builder: StageSetBuilder<'a>) {
        DefaultStages::add_offline_stages(
            self.online.builder(),
            self.stages_config,
            self.prune_modes,
        )
    }
}

/// The order of the stages of a node that syncs fully. The import of ERA files and the pruning of
/// senders are there only where they were asked for.
pub open spec fn default_order(imports_era: bool, prunes_senders: bool) -> Seq<StageId> {
    (if imports_era {
        seq![StageId::Era]
    } else {
        seq![]
    }) + seq![
        StageId::Headers,
        StageId::Bodies,
        StageId::SenderRecovery,
        StageId::Execution,
    ] + (if prunes_senders {
        seq![StageId::PruneSenderRecovery]
    } else {
        seq![]
    }) + seq![
        StageId::MerkleUnwind,
        StageId::AccountHashing,
        StageId::StorageHashing,
        StageId::MerkleExecute,
        StageId::TransactionLookup,
        StageId::IndexStorageHistory,
        StageId::IndexAccountHistory,
        StageId::Prune,
        StageId::Finish,
    ]
}

/// The ids of joined stages.
proof fn lemma_joined_ids<'a>(first: Seq<Stage<'a>>, second: Seq<Stage<'a>>)
    ensures
        ids(first + second) == ids(first) + ids(second),
{
    assert(ids(first + second) =~= ids(first) + ids(second));
}

/// The ids of the stages that need no network.
proof fn lemma_offline_ids<'a>(config: &'a StageConfig, modes: &'a PruneModes)
    ensures
        ids(offline_stages(config, modes)) == seq![StageId::SenderRecovery, StageId::Execution] + (
        if modes.sender_recovery is Some {
            seq![StageId::PruneSenderRecovery]
        } else {
            seq![]
        }) + seq![
            StageId::MerkleUnwind,
            StageId::AccountHashing,
            StageId::StorageHashing,
            StageId::MerkleExecute,
        ] + seq![
            StageId::TransactionLookup,
            StageId::IndexStorageHistory,
            StageId::IndexAccountHistory,
        ] + seq![StageId::Prune],
{
    let execution = execution_stages(config);
    let pruning: Seq<Stage<'a>> = match sender_pruning_stage(config, modes.sender_recovery) {
        Some(stage) => seq![stage],
        None => seq![],
    };
    let hashing = hashing_stages(config);
    let history = history_stages(config, modes);
    let prune: Seq<Stage<'a>> = seq![
        Stage::Prune { modes, commit_threshold: config.prune.commit_threshold },
    ];
    lemma_joined_ids(execution, pruning);
    lemma_joined_ids(execution + pruning, hashing);
    lemma_joined_ids(execution + pruning + hashing, history);
    lemma_joined_ids(execution + pruning + hashing + history, prune);
    assert(ids(execution) =~= seq![StageId::SenderRecovery, StageId::Execution]);
    assert(ids(pruning) =~= if modes.sender_recovery is Some {
        seq![StageId::PruneSenderRecovery]
    } else {
        seq![]
    });
    assert(ids(hashing) =~= seq![
        StageId::MerkleUnwind,
        StageId::AccountHashing,
        StageId::StorageHashing,
        StageId::MerkleExecute,
    ]);
    assert(ids(history) =~= seq![
        StageId::TransactionLookup,
        StageId::IndexStorageHistory,
        StageId::IndexAccountHistory,
    ]);
    assert(ids(prune) =~= seq![StageId::Prune]);
}

/// The ids of all stages.
proof fn lemma_default_ids<'a>(
    config: &'a StageConfig,
    modes: &'a PruneModes,
    source: Option<&'a EraImportSource>,
)
    ensures
        ids(default_stages(config, modes, source)) == default_order(
            source is Some,
            modes.sender_recovery is Some,
        ),
{
    let online = online_stages(config, source);
    let offline = offline_stages(config, modes);
    let finish: Seq<Stage<'a>> = seq![Stage::Finish];
    lemma_joined_ids(online, offline);
    lemma_joined_ids(online + offline, finish);
    lemma_offline_ids(config, modes);
    assert(ids(finish) =~= seq![StageId::Finish]);
    assert(ids(online) =~= (if source is Some {
        seq![StageId::Era]
    } else {
        seq![]
    }) + seq![StageId::Headers, StageId::Bodies]);
    assert(ids(online) + ids(offline) + ids(finish) =~= default_order(
        source is Some,
        modes.sender_recovery is Some,
    ));
}

/// A node that syncs fully runs its stages in the documented order, each of them once.
pub proof fn lemma_default_order<'a>(
    config: &'a StageConfig,
    modes: &'a PruneModes,
    source: Option<&'a EraImportSource>,
)
    ensures
        with_stage(
            with_stages(
                with_stages(Seq::empty(), online_stages(config, source)),
                offline_stages(config, modes),
            ),
            Stage::Finish,
        ) == default_stages(config, modes, source),
        each_once(default_stages(config, modes, source)),
        ids(default_stages(config, modes, source)) == default_order(
            source is Some,
            modes.sender_recovery is Some,
        ),
{
    let online = online_stages(config, source);
    let offline = offline_stages(config, modes);
    lemma_joined(Seq::<Stage<'a>>::empty(), online);
    assert(Seq::<Stage<'a>>::empty() + online =~= online);
    lemma_offline_parts(config, modes);
    assert forall|i: int| 0 <= i < offline.len() implies !has_id(
        online,
        (#[trigger] offline[i]).spec_id(),
    ) by {
        assert(has_id(offline, offline[i].spec_id()));
    }
    lemma_joined(online, offline);
    lemma_with_stage(online + offline, Stage::Finish);
    let all = default_stages(config, modes, source);
    assert((online + offline).push(Stage::Finish) =~= all);
    lemma_default_ids(config, modes, source);
}

/// Whether a stage is set by what the configuration says under its own name.
pub open spec fn is_set_by<'a>(
    stage: Stage<'a>,
    config: &'a StageConfig,
    modes: &'a PruneModes,
    source: Option<&'a EraImportSource>,
) -> bool {
    match stage {
        Stage::Era { source: from, etl } => source == Some(from) && *etl == config.etl,
        Stage::Headers { etl } => *etl == config.etl,
        Stage::SenderRecovery(recovery) => recovery == config.sender_recovery,
        Stage::Execution { thresholds, external_clean_threshold } => {
            &&& thresholds.max_blocks == config.execution.max_blocks
            &&& thresholds.max_changes == config.execution.max_changes
            &&& thresholds.max_cumulative_gas == config.execution.max_cumulative_gas
            &&& thresholds.max_duration == config.execution.max_duration
            &&& external_clean_threshold >= config.merkle.incremental_threshold
            &&& external_clean_threshold >= config.account_hashing.clean_threshold
            &&& external_clean_threshold >= config.storage_hashing.clean_threshold
            &&& external_clean_threshold == config.merkle.incremental_threshold
                || external_clean_threshold == config.account_hashing.clean_threshold
                || external_clean_threshold == config.storage_hashing.clean_threshold
        },
        Stage::PruneSenderRecovery { mode, commit_threshold } => {
            modes.sender_recovery == Some(mode) && commit_threshold == config.prune.commit_threshold
        },
        Stage::AccountHashing { hashing, etl } => {
            hashing == config.account_hashing && *etl == config.etl
        },
        Stage::StorageHashing { hashing, etl } => {
            hashing == config.storage_hashing && *etl == config.etl
        },
        Stage::MerkleExecute { rebuild_threshold, incremental_threshold } => {
            &&& rebuild_threshold == config.merkle.rebuild_threshold
            &&& incremental_threshold == config.merkle.incremental_threshold
        },
        Stage::TransactionLookup { lookup, etl, mode } => {
            &&& lookup == config.transaction_lookup
            &&& *etl == config.etl
            &&& mode == modes.transaction_lookup
        },
        Stage::IndexStorageHistory { history, etl, mode } => {
            &&& history == config.index_storage_history
            &&& *etl == config.etl
            &&& mode == modes.storage_history
        },
        Stage::IndexAccountHistory { history, etl, mode } => {
            &&& history == config.index_account_history
            &&& *etl == config.etl
            &&& mode == modes.account_history
        },
        Stage::Prune { modes: pruned, commit_threshold } => {
            *pruned == *modes && commit_threshold == config.prune.commit_threshold
        },
        Stage::Bodies | Stage::MerkleUnwind | Stage::Finish => true,
    }
}

/// Whether all of some stages are set by what the configuration says under their own names.
pub open spec fn all_set_by<'a>(
    stages: Seq<Stage<'a>>,
    config: &'a StageConfig,
    modes: &'a PruneModes,
    source: Option<&'a EraImportSource>,
) -> bool {
    forall|i: int|
        0 <= i < stages.len() ==> is_set_by(#[trigger] stages[i], config, modes, source)
}

/// Each stage carries the part of the configuration, and the prune mode, of its own name: in a full
/// sync, and in each of the sets that it is made of.
pub proof fn lemma_stages_carry_their_own_settings<'a>(
    config: &'a StageConfig,
    modes: &'a PruneModes,
    source: Option<&'a EraImportSource>,
)
    ensures
        all_set_by(
            OnlineStages { stages_config: config, era_import_source: source }.stages(),
            config,
            modes,
            source,
        ),
        all_set_by(ExecutionStages { stages_config: config }.stages(), config, modes, source),
        all_set_by(HashingStages { stages_config: config }.stages(), config, modes, source),
        all_set_by(
            HistoryIndexingStages { stages_config: config, prune_modes: modes }.stages(),
            config,
            modes,
            source,
        ),
        all_set_by(
            OfflineStages { stages_config: config, prune_modes: modes }.stages(),
            config,
            modes,
            source,
        ),
        all_set_by(
            DefaultStages {
                online: OnlineStages { stages_config: config, era_import_source: source },
                stages_config: config,
                prune_modes: modes,
            }.stages(),
            config,
            modes,
            source,
        ),
{
    lemma_default_order(config, modes, source);
}

/// Whether a stage is there, and another there behind it.
pub open spec fn runs_before(stages: Seq<Stage>, first: StageId, second: StageId) -> bool {
    exists|i: int, j: int|
        0 <= i < j < stages.len() && (#[trigger] stages[i]).spec_id() == first && (
        #[trigger] stages[j]).spec_id() == second
}

/// Headers come before bodies, bodies before the recovery of senders, and that before execution;
/// the trie is unwound before the state is hashed, which is done after execution, and its root
/// computed after that; indexing follows; and everything is pruned behind that. ERA files are
/// imported before all else where there is a source, and senders pruned behind execution where a
/// mode was given. Nothing follows the last stage, and no stage occurs twice.
pub proof fn lemma_stages_follow_what_they_need<'a>(
    config: &'a StageConfig,
    modes: &'a PruneModes,
    source: Option<&'a EraImportSource>,
)
    ensures
        ({
            let stages = DefaultStages {
                online: OnlineStages { stages_config: config, era_import_source: source },
                stages_config: config,
                prune_modes: modes,
            }.stages();
            &&& runs_before(stages, StageId::Headers, StageId::Bodies)
            &&& runs_before(stages, StageId::Bodies, StageId::SenderRecovery)
            &&& runs_before(stages, StageId::SenderRecovery, StageId::Execution)
            &&& runs_before(stages, StageId::Execution, StageId::MerkleUnwind)
            &&& runs_before(stages, StageId::MerkleUnwind, StageId::AccountHashing)
            &&& runs_before(stages, StageId::AccountHashing, StageId::StorageHashing)
            &&& runs_before(stages, StageId::StorageHashing, StageId::MerkleExecute)
            &&& runs_before(stages, StageId::MerkleExecute, StageId::TransactionLookup)
            &&& runs_before(stages, StageId::TransactionLookup, StageId::IndexStorageHistory)
            &&& runs_before(stages, StageId::IndexStorageHistory, StageId::IndexAccountHistory)
            &&& runs_before(stages, StageId::IndexAccountHistory, StageId::Prune)
            &&& runs_before(stages, StageId::Prune, StageId::Finish)
            &&& stages.last() == Stage::<'a>::Finish
            &&& source is Some ==> stages[0].spec_id() == StageId::Era
            &&& source is None ==> stages[0].spec_id() == StageId::Headers
            &&& modes.sender_recovery is Some ==> runs_before(
                stages,
                StageId::Execution,
                StageId::PruneSenderRecovery,
            ) && runs_before(stages, StageId::PruneSenderRecovery, StageId::MerkleUnwind)
            &&& has_id(stages, StageId::PruneSenderRecovery) ==> modes.sender_recovery is Some
            &&& each_once(stages)
        }),
{
    lemma_default_order(config, modes, source);
    let stages = default_stages(config, modes, source);
    let order = default_order(source is Some, modes.sender_recovery is Some);
    assert(stages.len() == order.len());
    assert forall|i: int| 0 <= i < stages.len() implies (#[trigger] stages[i]).spec_id()
        == order[i] by {
        assert(ids(stages)[i] == order[i]);
    }
    let a: int = if source is Some {
        1
    } else {
        0
    };
    let b: int = if modes.sender_recovery is Some {
        a + 1
    } else {
        a
    };
    assert(stages[a].spec_id() == StageId::Headers);
    assert(stages[a + 1].spec_id() == StageId::Bodies);
    assert(stages[a + 2].spec_id() == StageId::SenderRecovery);
    assert(stages[a + 3].spec_id() == StageId::Execution);
    if modes.sender_recovery is Some {
        assert(stages[a + 4].spec_id() == StageId::PruneSenderRecovery);
    }
    assert(stages[b + 4].spec_id() == StageId::MerkleUnwind);
    assert(stages[b + 5].spec_id() == StageId::AccountHashing);
    assert(stages[b + 6].spec_id() == StageId::StorageHashing);
    assert(stages[b + 7].spec_id() == StageId::MerkleExecute);
    assert(stages[b + 8].spec_id() == StageId::TransactionLookup);
    assert(stages[b + 9].spec_id() == StageId::IndexStorageHistory);
    assert(stages[b + 10].spec_id() == StageId::IndexAccountHistory);
    assert(stages[b + 11].spec_id() == StageId::Prune);
    assert(stages[b + 12].spec_id() == StageId::Finish);
}

} // verus!
