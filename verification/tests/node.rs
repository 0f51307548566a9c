use reth::engine::config::{
    default_account_worker_count, default_storage_worker_count, has_enough_parallelism,
    TreeConfig, MIN_WORKER_COUNT,
};
use reth::eth_wire_types::payloads::BlockRangeUpdate;
use reth::node::builder::{
    AnyNode, Components, ComponentsBuilder, FullNode, Node, NodeComponents, RpcServerHandles,
};
use reth::node::ethereum::{
    launch_add_ons, AddOnModule, ConfiguredModules, EthereumAddOns, EthereumConsensusBuilder,
    EthereumDefaultAddOns, EthereumEthApiBuilder, EthereumExecutorBuilder, EthereumNode,
    EthereumPoolBuilder, TxPoolArgs,
};
use reth::node::launch::{
    CanonicalHead, ChainEvent, EngineAction, EngineEvent, EngineExit, EngineLoop,
    EngineNodeLauncher, EngineSettings, Head, SyncState,
};
use reth::node::sequence::{
    DebugSettings, LaunchSequence, LaunchSettings, LaunchStep, StepOutcome,
};
use reth::node::types::{AnyNodeTypes, AnyNodeTypesWithEngine, NodeTypesWithDBAdapter};
use reth::primitives::{B256, U256};

fn settings() -> EngineSettings {
    EngineSettings {
        terminate_after_backfill: false,
        startup_sync_state_idle: false,
        final_paris_total_difficulty: Some(U256::from_u64(58)),
    }
}

fn head(number: u64, paris_active: bool) -> CanonicalHead {
    CanonicalHead {
        number,
        hash: B256 { hi: 1, lo: number as u128 },
        difficulty: U256::from_u64(2),
        timestamp: 10,
        paris_active,
        earliest: Some(3),
    }
}

#[test]
fn nodes_start_syncing() {
    let mut engine = EngineLoop::new(settings());
    assert_eq!(engine.sync_state, SyncState::Syncing);
    let target = B256 { hi: 1, lo: 2 };
    assert_eq!(engine.start(Some(target)), vec![EngineAction::StartBackfillSync(target)]);
    assert_eq!(engine.sync_state, SyncState::Syncing);

    let mut engine = EngineLoop::new(settings());
    assert_eq!(engine.start(None), vec![]);

    let idle = EngineSettings { startup_sync_state_idle: true, ..settings() };
    let mut engine = EngineLoop::new(idle);
    assert_eq!(
        engine.start(None),
        vec![EngineAction::UpdateSyncState(SyncState::Idle)]
    );
    assert_eq!(engine.sync_state, SyncState::Idle);
}

#[test]
fn canonical_headers_are_reported() {
    let mut engine = EngineLoop::new(settings());
    let actions = engine.on_event(EngineEvent::Chain(ChainEvent::Handler(Some(head(9, true)))));
    assert_eq!(
        actions,
        vec![
            EngineAction::UpdateSyncState(SyncState::Idle),
            EngineAction::UpdateStatus(Head {
                number: 9,
                hash: B256 { hi: 1, lo: 9 },
                difficulty: U256::from_u64(2),
                total_difficulty: U256::from_u64(58),
                timestamp: 10,
            }),
            EngineAction::UpdateBlockRange(BlockRangeUpdate {
                earliest: 3,
                latest: 9,
                latest_hash: B256 { hi: 1, lo: 9 },
            }),
            EngineAction::Notify,
        ]
    );
    assert_eq!(engine.sync_state, SyncState::Idle);
    // Before the merge no total difficulty is reported.
    let actions = engine.on_event(EngineEvent::Chain(ChainEvent::Handler(Some(
        CanonicalHead { earliest: None, ..head(9, false) },
    ))));
    assert!(matches!(
        actions[1],
        EngineAction::UpdateStatus(Head { total_difficulty: U256 { hi: 0, lo: 0 }, .. })
    ));
    assert!(matches!(
        actions[2],
        EngineAction::UpdateBlockRange(BlockRangeUpdate { earliest: 0, .. })
    ));
    assert_eq!(
        engine.on_event(EngineEvent::Chain(ChainEvent::Handler(None))),
        vec![EngineAction::Notify]
    );
}

#[test]
fn engine_loops_end() {
    let mut engine = EngineLoop::new(settings());
    assert_eq!(
        engine.on_event(EngineEvent::Chain(ChainEvent::BackfillSyncStarted)),
        vec![EngineAction::UpdateSyncState(SyncState::Syncing)]
    );
    assert_eq!(engine.on_event(EngineEvent::Chain(ChainEvent::BackfillSyncFinished)), vec![]);
    assert_eq!(engine.exit, None);
    assert_eq!(engine.on_event(EngineEvent::Chain(ChainEvent::FatalError)), vec![]);
    assert_eq!(engine.exit, Some(EngineExit::FatalError));

    let once = EngineSettings { terminate_after_backfill: true, ..settings() };
    let mut engine = EngineLoop::new(once);
    assert_eq!(engine.on_event(EngineEvent::Chain(ChainEvent::BackfillSyncFinished)), vec![]);
    assert_eq!(engine.exit, Some(EngineExit::Done));

    let idle = EngineSettings { startup_sync_state_idle: true, ..settings() };
    let mut engine = EngineLoop::new(idle);
    assert_eq!(
        engine.on_event(EngineEvent::Chain(ChainEvent::BackfillSyncFinished)),
        vec![EngineAction::UpdateSyncState(SyncState::Idle)]
    );
    assert_eq!(engine.on_event(EngineEvent::Ended), vec![]);
    assert_eq!(engine.exit, Some(EngineExit::Done));
}

#[test]
fn requests_are_passed_on() {
    let mut engine = EngineLoop::new(settings());
    assert_eq!(
        engine.on_event(EngineEvent::Shutdown { requested: true }),
        vec![EngineAction::Terminate]
    );
    assert_eq!(engine.on_event(EngineEvent::Shutdown { requested: false }), vec![]);
    assert_eq!(
        engine.on_event(EngineEvent::PayloadBuilt { executed: true }),
        vec![EngineAction::InsertExecutedBlock]
    );
    assert_eq!(engine.on_event(EngineEvent::PayloadBuilt { executed: false }), vec![]);
    assert_eq!(engine.exit, None);
}

#[test]
fn launchers_keep_their_parts() {
    let config = TreeConfig::for_host(None);
    let launcher = EngineNodeLauncher::new("executor", "/data", config);
    assert_eq!(launcher.ctx.task_executor, "executor");
    assert_eq!(launcher.ctx.data_dir, "/data");
    assert_eq!(launcher.engine_tree_config, config);
}

#[test]
fn tree_defaults() {
    let config = TreeConfig::for_host(Some(4));
    assert_eq!(config.persistence_threshold(), 2);
    assert_eq!(config.memory_block_buffer_target(), 0);
    assert_eq!(config.block_buffer_limit(), 64);
    assert_eq!(config.max_invalid_header_cache_length(), 256);
    assert_eq!(config.max_execute_block_batch_size(), 4);
    assert_eq!(config.cross_block_cache_size(), 4 * 1024 * 1024 * 1024);
    assert!(config.multiproof_chunking_enabled());
    assert_eq!(config.multiproof_chunk_size(), 60);
    assert_eq!(config.reserved_cpu_cores(), 1);
    assert_eq!(config.prewarm_max_concurrency(), 16);
    assert_eq!(config.storage_worker_count(), 8);
    assert_eq!(config.account_worker_count(), 8);
    assert!(!config.use_state_root_task());
    assert!(!config.legacy_state_root());
    assert!(!config.enable_proof_v2());
    let config = TreeConfig::for_host(Some(64));
    assert_eq!(config.storage_worker_count(), 32);
    assert!(config.use_state_root_task());
    assert!(!config.with_legacy_state_root(true).use_state_root_task());
}

#[test]
fn workers_by_parallelism() {
    assert_eq!(default_storage_worker_count(None), 8);
    assert_eq!(default_storage_worker_count(Some(1)), 2);
    assert_eq!(default_storage_worker_count(Some(15)), 30);
    assert_eq!(default_storage_worker_count(Some(16)), 32);
    assert_eq!(default_account_worker_count(Some(usize::MAX)), 32);
    assert!(!has_enough_parallelism(None));
    assert!(!has_enough_parallelism(Some(4)));
    assert!(has_enough_parallelism(Some(5)));
}

#[test]
fn tree_setters_set_one_value() {
    let config = TreeConfig::for_host(None);
    assert_eq!(config.with_persistence_threshold(9).persistence_threshold(), 9);
    assert_eq!(
        config.with_persistence_threshold(9).with_persistence_threshold(2),
        config
    );
    assert_eq!(config.with_memory_block_buffer_target(9).memory_block_buffer_target(), 9);
    assert_eq!(config.with_block_buffer_limit(9).block_buffer_limit(), 9);
    assert!(config.with_unwind_canonical_header(true).unwind_canonical_header());
    assert!(config.without_state_cache(true).disable_state_cache());
    assert!(config.without_prewarming(true).disable_prewarming());
    assert!(config.without_precompile_cache(true).precompile_cache_disabled());
    assert_eq!(config.with_storage_worker_count(1).storage_worker_count(), MIN_WORKER_COUNT);
    assert_eq!(config.with_storage_worker_count(99).storage_worker_count(), 99);
    assert_eq!(config.with_account_worker_count(0).account_worker_count(), MIN_WORKER_COUNT);
}

#[test]
fn pools_follow_their_arguments() {
    let pool = EthereumNode::components().pool_builder;
    let args = TxPoolArgs {
        disable_blobs_support: false,
        blobpool_max_count: 1,
        blob_cache_size: None,
        max_tx_input_bytes: 131_072,
        max_tx_gas_limit: Some(30),
        minimum_priority_fee: Some(2),
        additional_validation_tasks: 1,
        rpc_tx_fee_cap: 1_000,
    };
    let settings = pool.build_pool(args, 99, Some(6));
    assert_eq!(settings.head_timestamp, 99);
    assert_eq!(settings.max_tx_input_bytes, 131_072);
    assert_eq!(settings.max_tx_gas_limit, Some(30));
    assert_eq!(settings.minimum_priority_fee, Some(2));
    assert_eq!(settings.additional_tasks, 1);
    assert_eq!(settings.tx_fee_cap, 1_000);
    assert!(settings.eip4844);
    assert!(settings.load_kzg_settings);
    assert_eq!(settings.blob_cache_size, 6 * 32 * 2);
    // A chain without blobs is treated like Cancun.
    assert_eq!(pool.build_pool(args, 99, None).blob_cache_size, 3 * 32 * 2);
    // What 32 bits do not hold is cut off.
    assert_eq!(pool.build_pool(args, 99, Some((1 << 26) + 1)).blob_cache_size, 64);
    let off = TxPoolArgs { disable_blobs_support: true, ..args };
    assert!(!pool.build_pool(off, 99, None).eip4844);
    let none = TxPoolArgs { blobpool_max_count: 0, blob_cache_size: Some(7), ..args };
    let settings = pool.build_pool(none, 99, Some(u64::MAX));
    assert!(!settings.eip4844);
    assert!(!settings.load_kzg_settings);
    assert_eq!(settings.blob_cache_size, 7);
}

#[test]
fn configured_modules_are_merged_in_order() {
    let all = ConfiguredModules { flashbots: true, eth: true, testing: true };
    assert_eq!(
        launch_add_ons(all, true),
        vec![
            AddOnModule::Flashbots,
            AddOnModule::Eth,
            AddOnModule::Testing { skip_invalid_transactions: true }
        ]
    );
    let some = ConfiguredModules { flashbots: false, eth: true, testing: false };
    assert_eq!(launch_add_ons(some, false), vec![AddOnModule::Eth]);
}

#[test]
fn add_ons_are_replaced_one_by_one() {
    let add_ons: EthereumAddOns<u8, u16, u32, u64, char, &str> =
        EthereumAddOns::new(1, 2, 3, 4, 'm');
    let add_ons = add_ons
        .with_engine_api("engine")
        .with_payload_validator("validator")
        .with_rpc_middleware("middleware")
        .with_tokio_runtime(Some("runtime"));
    assert_eq!(add_ons.eth_api_builder, 1);
    assert_eq!(add_ons.payload_validator_builder, "validator");
    assert_eq!(add_ons.engine_api_builder, "engine");
    assert_eq!(add_ons.engine_validator_builder, 4);
    assert_eq!(add_ons.rpc_middleware, "middleware");
    assert_eq!(add_ons.tokio_runtime, Some("runtime"));
    let default = EthereumDefaultAddOns::<&str>::default();
    assert_eq!(default.tokio_runtime, None);
}

#[test]
fn nodes_are_put_together() {
    let node = AnyNode::empty().types::<u8>().components_builder(vec![1]).add_ons("add-ons");
    assert_eq!(Node::components_builder(&node), vec![1]);
    assert_eq!(Node::add_ons(&node), "add-ons");
    let builder = EthereumNode::components();
    assert_eq!(
        Node::components_builder(&AnyNode::empty().components_builder(builder)),
        builder
    );
    let builder = ComponentsBuilder::empty().pool(1).payload(2).network(3).executor(4);
    assert_eq!(builder.pool_builder, 1);
    assert_eq!(builder.payload_builder, 2);
    assert_eq!(builder.network_builder, 3);
    assert_eq!(builder.executor_builder, 4);
    let builder = builder.consensus(EthereumNode::components().consensus_builder);
    let _: EthereumConsensusBuilder = builder.consensus_builder;
}

#[test]
fn components_are_found_by_name() {
    let components = Components {
        transaction_pool: 1,
        evm_config: 2,
        consensus: 3,
        network: 4,
        payload_builder_handle: 5,
    };
    assert_eq!(*components.pool(), 1);
    assert_eq!(*components.evm_config(), 2);
    assert_eq!(*components.consensus(), 3);
    assert_eq!(*components.network(), 4);
    assert_eq!(*components.payload_builder_handle(), 5);
    let node = FullNode {
        components,
        provider: (),
        task_executor: (),
        config: (),
        data_dir: (),
        add_ons_handle: RpcServerHandles { rpc: "rpc", auth: "auth" },
    };
    assert_eq!(*node.rpc_server_handle(), "rpc");
    assert_eq!(*node.auth_server_handle(), "auth");
}

#[test]
fn types_are_chosen_one_by_one() {
    let _: AnyNodeTypes<u8, u16, u32, u64> = AnyNodeTypes::<(), (), (), ()>::new()
        .primitives::<u8>()
        .chain_spec::<u16>()
        .storage::<u32>()
        .payload::<u64>();
    let _: AnyNodeTypesWithEngine<u8, char, u16, u32, u64> =
        AnyNodeTypesWithEngine::<(), (), (), (), ()>::new()
            .primitives::<u8>()
            .engine::<char>()
            .chain_spec::<u16>()
            .storage::<u32>()
            .payload::<u64>();
    let _: NodeTypesWithDBAdapter<EthereumNode, u8> = NodeTypesWithDBAdapter::new();
}

#[test]
fn launches_take_their_steps_in_order() {
    let mut tree = TreeConfig::for_host(None);
    tree = tree.with_reserved_cpu_cores(3);
    let debug = DebugSettings {
        skip_fcu: Some(2),
        skip_new_payload: None,
        reorg_frequency: None,
        reorg_depth: None,
        store_messages: false,
    };
    let mut launch = LaunchSequence::new(LaunchSettings { tree, debug });
    let mut steps = Vec::new();
    while let Some(step) = launch.due() {
        steps.push(step);
        let outcome = match step {
            LaunchStep::LaunchExex => StepOutcome::<()>::Exex(true),
            _ => StepOutcome::Done,
        };
        launch.finish(outcome).unwrap();
    }
    assert_eq!(steps.len(), 29);
    assert_eq!(steps[0], LaunchStep::ConfigureGlobals { reserved_cpu_cores: 3 });
    assert_eq!(steps[13], LaunchStep::UpdateSyncState(SyncState::Syncing));
    assert_eq!(steps[15], LaunchStep::BuildPipeline { exex: true });
    assert_eq!(steps[17], LaunchStep::BuildPruner { finished_exex_height: true });
    assert_eq!(steps[20], LaunchStep::WrapEngineMessages(debug));
    assert_eq!(steps[28], LaunchStep::SpawnEthstats);

    let mut launch = LaunchSequence::new(LaunchSettings { tree, debug });
    launch.finish(StepOutcome::<&str>::Done).unwrap();
    assert_eq!(launch.finish(StepOutcome::Failed("no file")), Err("no file"));
    assert_eq!(launch.due(), Some(LaunchStep::LoadTomlConfig));
}

#[test]
fn an_ethereum_node_can_be_made() {
    let node = EthereumNode::default();
    assert_eq!(Node::components_builder(&node), EthereumNode::components());
    let add_ons: EthereumDefaultAddOns<u8> = EthereumDefaultAddOns::default();
    assert_eq!(add_ons.eth_api_builder, EthereumEthApiBuilder::default());
    assert_eq!(EthereumNode::components().pool_builder, EthereumPoolBuilder::default());
    assert_eq!(EthereumNode::components().executor_builder, EthereumExecutorBuilder::default());
}
