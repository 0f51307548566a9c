use reth::config::{PruneMode, PruneModes, StageConfig};
use reth::stages::builder::{EraImportSource, Stage, StageId, StageSet, StageSetBuilder};
use reth::stages::sets::{
    DefaultStages, ExecutionStages, HashingStages, HistoryIndexingStages, OfflineStages,
    OnlineStages,
};

fn ids(builder: &StageSetBuilder) -> Vec<StageId> {
    builder.stages.iter().map(|stage| stage.id()).collect()
}

#[test]
fn full_sync_runs_the_stages_in_order() {
    let config = StageConfig::default();
    let modes =
        PruneModes { sender_recovery: Some(PruneMode::Full), ..PruneModes::default() };
    let source = EraImportSource::Path(String::from("/era"));
    let all = DefaultStages::new(&config, &modes, Some(&source)).builder();
    assert_eq!(
        ids(&all),
        vec![
            StageId::Era,
            StageId::Headers,
            StageId::Bodies,
            StageId::SenderRecovery,
            StageId::Execution,
            StageId::PruneSenderRecovery,
            StageId::MerkleUnwind,
            StageId::AccountHashing,
            StageId::StorageHashing,
            StageId::MerkleExecute,
            StageId::TransactionLookup,
            StageId::IndexStorageHistory,
            StageId::IndexAccountHistory,
            StageId::Prune,
            StageId::Finish,
        ]
    );
}

#[test]
fn optional_stages_are_left_out() {
    let config = StageConfig::default();
    let modes = PruneModes::default();
    let all = DefaultStages::new(&config, &modes, None).builder();
    let ids = ids(&all);
    assert_eq!(ids.len(), 13);
    assert!(!ids.contains(&StageId::Era));
    assert!(!ids.contains(&StageId::PruneSenderRecovery));
    assert_eq!(ids[0], StageId::Headers);
    assert_eq!(ids[12], StageId::Finish);
}

#[test]
fn stages_get_their_settings() {
    let mut config = StageConfig::default();
    config.prune.commit_threshold = 77;
    config.merkle.incremental_threshold = 900_000;
    let modes = PruneModes {
        sender_recovery: Some(PruneMode::Distance(3)),
        account_history: Some(PruneMode::Before(4)),
        ..PruneModes::default()
    };
    let offline = OfflineStages::new(&config, &modes).builder();
    assert!(matches!(
        offline.stages[1],
        Stage::Execution { external_clean_threshold: 900_000, .. }
    ));
    assert!(matches!(
        offline.stages[2],
        Stage::PruneSenderRecovery { mode: PruneMode::Distance(3), commit_threshold: 77 }
    ));
    assert!(matches!(
        offline.stages[6],
        Stage::MerkleExecute { rebuild_threshold: 100_000, incremental_threshold: 900_000 }
    ));
    assert!(matches!(offline.stages[8], Stage::IndexStorageHistory { mode: None, .. }));
    assert!(matches!(
        offline.stages[9],
        Stage::IndexAccountHistory { mode: Some(PruneMode::Before(4)), .. }
    ));
    assert!(matches!(offline.stages[10], Stage::Prune { commit_threshold: 77, .. }));
    let execution = ExecutionStages::new(&config).builder();
    assert_eq!(ids(&execution), vec![StageId::SenderRecovery, StageId::Execution]);
}

#[test]
fn a_stage_moves_to_the_end() {
    let builder = StageSetBuilder::new()
        .add_stage(Stage::MerkleUnwind)
        .add_stage(Stage::Bodies)
        .add_stage(Stage::MerkleUnwind)
        .add_stage_opt(None)
        .add_stage_opt(Some(Stage::Finish));
    assert_eq!(
        ids(&builder),
        vec![StageId::Bodies, StageId::MerkleUnwind, StageId::Finish]
    );
    let other = StageSetBuilder::new().add_stage(Stage::Bodies);
    assert_eq!(
        ids(&builder.add_set(other)),
        vec![StageId::MerkleUnwind, StageId::Finish, StageId::Bodies]
    );
}

#[test]
fn online_stages_can_be_replaced() {
    let config = StageConfig::default();
    let headers = Stage::Headers { etl: &config.etl };
    assert_eq!(
        ids(&OnlineStages::builder_with_headers(headers)),
        vec![StageId::Headers, StageId::Bodies]
    );
    assert_eq!(
        ids(&OnlineStages::builder_with_bodies(Stage::Bodies, &config)),
        vec![StageId::Headers, StageId::Bodies]
    );
    let modes = PruneModes::default();
    let custom = StageSetBuilder::new().add_stage(Stage::Bodies).add_stage(Stage::Finish);
    let all = DefaultStages::add_offline_stages(custom, &config, &modes);
    let ids = ids(&all);
    assert_eq!(ids[0], StageId::Bodies);
    assert_eq!(ids[1], StageId::SenderRecovery);
    assert_eq!(*ids.last().unwrap(), StageId::Finish);
    assert_eq!(ids.iter().filter(|id| **id == StageId::Finish).count(), 1);
}

#[test]
fn parts_of_the_offline_stages() {
    let config = StageConfig::default();
    let modes = PruneModes::default();
    assert_eq!(
        ids(&HashingStages::new(&config).builder()),
        vec![
            StageId::MerkleUnwind,
            StageId::AccountHashing,
            StageId::StorageHashing,
            StageId::MerkleExecute,
        ]
    );
    assert_eq!(
        ids(&HistoryIndexingStages::new(&config, &modes).builder()),
        vec![
            StageId::TransactionLookup,
            StageId::IndexStorageHistory,
            StageId::IndexAccountHistory,
        ]
    );
}
