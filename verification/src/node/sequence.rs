use vstd::prelude::*;

use crate::engine::config::TreeConfig;
use crate::node::launch::SyncState;

verus! {

/// What of a node's debug settings bears on its launch.
#[derive(Clone, Copy, Debug, PartialEq, Eq, Structural)]
pub struct DebugSettings {
    /// Drop so many forkchoice updates out of the engine's messages.
    pub skip_fcu: Option<usize>,
    /// Drop so many new payloads out of the engine's messages.
    pub skip_new_payload: Option<usize>,
    /// How often a reorganisation is made up.
    pub reorg_frequency: Option<usize>,
    /// How deep a made-up reorganisation goes.
    pub reorg_depth: Option<usize>,
    /// Whether the engine's messages are stored.
    pub store_messages: bool,
}

/// A step of the launch of a node.
#[derive(Clone, Copy, Debug, PartialEq, Eq, Structural)]
pub enum LaunchStep {
    /// Set up the thread pools, without the cores that other processes get.
    ConfigureGlobals {
        reserved_cpu_cores: usize,
    },
    LoadTomlConfig,
    ResolvePeers,
    AttachDatabase,
    AdjustConfigs,
    OpenProviderFactory,
    StartPrometheusServer,
    InitGenesis,
    StartMetricsTask,
    OpenBlockchainDb,
    BuildComponents,
    /// Launch what follows the chain besides the node. Whether there is any is known then.
    LaunchExex,
    FetchNetworkClient,
    UpdateSyncState(SyncState),
    FindMaxBlock,
    /// Build the pipeline, which tells those that follow the chain, if there are any.
    BuildPipeline {
        exex: bool,
    },
    MoveToStaticFiles,
    /// Build the pruner, which waits for those that follow the chain, if there are any.
    BuildPruner {
        finished_exex_height: bool,
    },
    ReadJwtSecret,
    BuildEngineValidator {
        tree: TreeConfig,
    },
    /// Put what the debug settings ask for around the engine's messages.
    WrapEngineMessages(DebugSettings),
    CreateEngineService {
        tree: TreeConfig,
    },
    SpawnEventsTask,
    LaunchAddOns,
    FindInitialTarget,
    SubscribeToPayloads,
    SpawnEngine,
    ReportStarted,
    SpawnEthstats,
}

/// What a node is launched with.
#[derive(Clone, Copy, Debug, PartialEq, Eq, Structural)]
pub struct LaunchSettings {
    pub tree: TreeConfig,
    pub debug: DebugSettings,
}

/// The steps until it is known whether anyone follows the chain besides the node.
pub open spec fn first_steps(settings: LaunchSettings) -> Seq<LaunchStep> {
    seq![
        LaunchStep::ConfigureGlobals { reserved_cpu_cores: settings.tree.reserved_cpu_cores },
        LaunchStep::LoadTomlConfig,
        LaunchStep::ResolvePeers,
        LaunchStep::AttachDatabase,
        LaunchStep::AdjustConfigs,
        LaunchStep::OpenProviderFactory,
        LaunchStep::StartPrometheusServer,
        LaunchStep::InitGenesis,
        LaunchStep::StartMetricsTask,
        LaunchStep::OpenBlockchainDb,
        LaunchStep::BuildComponents,
        LaunchStep::LaunchExex,
    ]
}

/// The steps behind them.
pub open spec fn later_steps(settings: LaunchSettings, exex: bool) -> Seq<LaunchStep> {
    seq![
        LaunchStep::FetchNetworkClient,
        LaunchStep::UpdateSyncState(SyncState::Syncing),
        LaunchStep::FindMaxBlock,
        LaunchStep::BuildPipeline { exex },
        LaunchStep::MoveToStaticFiles,
        LaunchStep::BuildPruner { finished_exex_height: exex },
        LaunchStep::ReadJwtSecret,
        LaunchStep::BuildEngineValidator { tree: settings.tree },
        LaunchStep::WrapEngineMessages(settings.debug),
        LaunchStep::CreateEngineService { tree: settings.tree },
        LaunchStep::SpawnEventsTask,
        LaunchStep::LaunchAddOns,
        LaunchStep::FindInitialTarget,
        LaunchStep::SubscribeToPayloads,
        LaunchStep::SpawnEngine,
        LaunchStep::ReportStarted,
        LaunchStep::SpawnEthstats,
    ]
}

/// All steps of a launch, in their order.
pub open spec fn launch_steps(settings: LaunchSettings, exex: bool) -> Seq<LaunchStep> {
    first_steps(settings) + later_steps(settings, exex)
}

/// What came of a step.
#[derive(Clone, Copy, Debug, PartialEq, Eq, Structural)]
pub enum StepOutcome<E> {
    Done,
    /// What follows the chain was launched, if there was any.
    Exex(bool),
    Failed(E),
}

/// A launch on its way.
#[derive(Clone, Copy, Debug, PartialEq, Eq, Structural)]
pub struct LaunchSequence {
    pub settings: LaunchSettings,
    /// Whether anyone follows the chain besides the node, once it is known.
    pub exex: bool,
    /// How many steps are done.
    pub done: usize,
}

impl LaunchSequence {
    /// Whether the launch has not gone on behind its last step.
    pub open spec fn wf(self) -> bool {
        self.done <= launch_steps(self.settings, self.exex).len()
    }

    /// The step that is due, if any is left.
    pub open spec fn spec_due(self) -> Option<LaunchStep> {
        let steps = launch_steps(self.settings, self.exex);
        if self.done < steps.len() {
            Some(steps[self.done as int])
        } else {
            None
        }
    }

    /// A launch that has not begun.
    pub fn new(settings: LaunchSettings) -> (made: LaunchSequence)
        ensures
            made == (LaunchSequence { settings, exex: false, done: 0 }),
            made.wf(),
    {
        LaunchSequence { settings, exex: false, done: 0 }
    }

    /// The step that is due, if any is left.
    pub fn due(&self) -> (step: Option<LaunchStep>)
        ensures
            step == self.spec_due(),
    {
        let tree = self.settings.tree;
        match self.done {
            0 => Some(
                LaunchStep::ConfigureGlobals { reserved_cpu_cores: tree.reserved_cpu_cores() },
            ),
            1 => Some(LaunchStep::LoadTomlConfig),
            2 => Some(LaunchStep::ResolvePeers),
            3 => Some(LaunchStep::AttachDatabase),
            4 => Some(LaunchStep::AdjustConfigs),
            5 => Some(LaunchStep::OpenProviderFactory),
            6 => Some(LaunchStep::StartPrometheusServer),
            7 => Some(LaunchStep::InitGenesis),
            8 => Some(LaunchStep::StartMetricsTask),
            9 => Some(LaunchStep::OpenBlockchainDb),
            10 => Some(LaunchStep::BuildComponents),
            11 => Some(LaunchStep::LaunchExex),
            12 => Some(LaunchStep::FetchNetworkClient),
            13 => Some(LaunchStep::UpdateSyncState(SyncState::Syncing)),
            14 => Some(LaunchStep::FindMaxBlock),
            15 => Some(LaunchStep::BuildPipeline { exex: self.exex }),
            16 => Some(LaunchStep::MoveToStaticFiles),
            17 => Some(LaunchStep::BuildPruner { finished_exex_height: self.exex }),
            18 => Some(LaunchStep::ReadJwtSecret),
            19 => Some(LaunchStep::BuildEngineValidator { tree }),
            20 => Some(LaunchStep::WrapEngineMessages(self.settings.debug)),
            21 => Some(LaunchStep::CreateEngineService { tree }),
            22 => Some(LaunchStep::SpawnEventsTask),
            23 => Some(LaunchStep::LaunchAddOns),
            24 => Some(LaunchStep::FindInitialTarget),
            25 => Some(LaunchStep::SubscribeToPayloads),
            26 => Some(LaunchStep::SpawnEngine),
            27 => Some(LaunchStep::ReportStarted),
            28 => Some(LaunchStep::SpawnEthstats),
            _ => None,
        }
    }

    /// Takes what came of the step that was due. The first failure ends the launch; a launch
    /// without one goes on with the next step. Whether anyone follows the chain counts where it is
    /// found out.
    pub fn finish<E>(&mut self, outcome: StepOutcome<E>) -> (r: Result<(), E>)
        requires
            old(self).wf(),
            old(self).spec_due() is Some,
        ensures
            final(self).wf(),
            match outcome {
                StepOutcome::Failed(error) => r == Err::<(), E>(error) && *final(self) == *old(
                    self),
                StepOutcome::Done => r is Ok && *final(self) == (LaunchSequence {
                    done: (old(self).done + 1) as usize,
                    ..*old(self)
                }),
                StepOutcome::Exex(exex) => r is Ok && *final(self) == (LaunchSequence {
                    settings: old(self).settings,
                    exex: if old(self).spec_due() == Some(LaunchStep::LaunchExex) {
                        exex
                    } else {
                        old(self).exex
                    },
                    done: (old(self).done + 1) as usize,
                }),
            },
    {
        match outcome {
            StepOutcome::Failed(error) => Err(error),
            StepOutcome::Done => {
                self.done = self.done + 1;
                Ok(())
            },
            StepOutcome::Exex(exex) => {
                if self.done == 11 {
                    self.exex = exex;
                }
                self.done = self.done + 1;
                Ok(())
            },
        }
    }
}

/// Which steps a launch takes on some outcomes, one for each step.
pub open spec fn taken<E>(launch: LaunchSequence, outcomes: Seq<StepOutcome<E>>) -> Seq<LaunchStep>
    decreases outcomes.len(),
{
    match (launch.spec_due(), outcomes.len() == 0) {
        (None, _) => seq![],
        (_, true) => seq![],
        (Some(step), false) => seq![step] + (match outcomes[0] {
            StepOutcome::Failed(_) => seq![],
            StepOutcome::Done => taken(
                LaunchSequence { done: (launch.done + 1) as usize, ..launch },
                outcomes.drop_first(),
            ),
            StepOutcome::Exex(exex) => taken(
                LaunchSequence {
                    settings: launch.settings,
                    exex: if step == LaunchStep::LaunchExex {
                        exex
                    } else {
                        launch.exex
                    },
                    done: (launch.done + 1) as usize,
                },
                outcomes.drop_first(),
            ),
        }),
    }
}

/// Whether the steps from `done` on begin with some.
pub open spec fn follows(
    settings: LaunchSettings,
    exex: bool,
    done: int,
    steps: Seq<LaunchStep>,
) -> bool {
    &&& done + steps.len() <= launch_steps(settings, exex).len()
    &&& forall|i: int|
        0 <= i < steps.len() ==> #[trigger] steps[i] == launch_steps(settings, exex)[done + i]
}

/// A launch takes its steps in their order and leaves none out, whatever comes of them: behind a
/// failure it takes none.
pub proof fn lemma_steps_in_order<E>(launch: LaunchSequence, outcomes: Seq<StepOutcome<E>>)
    requires
        launch.wf(),
        launch.done <= 11 ==> !launch.exex,
    ensures
        exists|exex: bool|
            (launch.done > 11 ==> exex == launch.exex) && #[trigger] follows(
                launch.settings,
                exex,
                launch.done as int,
                taken(launch, outcomes),
            ),
    decreases outcomes.len(),
{
    let all = launch_steps(launch.settings, launch.exex);
    let steps = taken(launch, outcomes);
    if launch.spec_due() is None || outcomes.len() == 0 {
        assert(follows(launch.settings, launch.exex, launch.done as int, steps));
    } else if let StepOutcome::Failed(_) = outcomes[0] {
        assert(steps =~= seq![all[launch.done as int]]);
        assert(follows(launch.settings, launch.exex, launch.done as int, steps));
    } else {
        let step = launch.spec_due()->0;
        let next = match outcomes[0] {
            StepOutcome::Exex(exex) => LaunchSequence {
                settings: launch.settings,
                exex: if step == LaunchStep::LaunchExex {
                    exex
                } else {
                    launch.exex
                },
                done: (launch.done + 1) as usize,
            },
            _ => LaunchSequence { done: (launch.done + 1) as usize, ..launch },
        };
        assert(step == LaunchStep::LaunchExex <==> launch.done == 11);
        lemma_steps_in_order(next, outcomes.drop_first());
        let rest = taken(next, outcomes.drop_first());
        let exex = choose|exex: bool|
            (next.done > 11 ==> exex == next.exex) && #[trigger] follows(
                next.settings,
                exex,
                next.done as int,
                rest,
            );
        let whole = launch_steps(launch.settings, exex);
        assert(steps =~= seq![step] + rest);
        assert(whole[launch.done as int] == step);
        assert forall|i: int| 0 <= i < steps.len() implies #[trigger] steps[i] == whole[launch.done
            + i] by {
            if i > 0 {
                assert(steps[i] == rest[i - 1]);
                assert(rest[i - 1] == whole[next.done + (i - 1)]);
            }
        }
        assert(follows(launch.settings, exex, launch.done as int, steps));
    }
}

/// A step is set by what the node is launched with: thread pools leave the reserved cores alone,
/// the engine's parts get the tree's configuration, its messages the debug settings; the network is
/// told that the node syncs; and the pipeline tells, and the pruner waits for, those that follow the
/// chain exactly where there are any.
pub proof fn lemma_steps_are_set(settings: LaunchSettings, exex: bool)
    ensures
        forall|i: int|
            0 <= i < launch_steps(settings, exex).len() ==> match #[trigger] launch_steps(
                settings,
                exex,
            )[i] {
                LaunchStep::ConfigureGlobals { reserved_cpu_cores } => reserved_cpu_cores
                    == settings.tree.reserved_cpu_cores,
                LaunchStep::UpdateSyncState(state) => state == SyncState::Syncing,
                LaunchStep::BuildPipeline { exex: told } => told == exex,
                LaunchStep::BuildPruner { finished_exex_height } => finished_exex_height == exex,
                LaunchStep::BuildEngineValidator { tree } => tree == settings.tree,
                LaunchStep::WrapEngineMessages(debug) => debug == settings.debug,
                LaunchStep::CreateEngineService { tree } => tree == settings.tree,
                _ => true,
            },
{
}

/// Whether each step stands behind the one whose work it needs.
pub open spec fn are_in_order(steps: Seq<LaunchStep>) -> bool {
    forall|j: int| 0 <= j < steps.len() ==> {
        &&& (#[trigger] steps[j]) is ConfigureGlobals ==> j == 0
        &&& steps[j] is LoadTomlConfig ==> exists|i: int|
            0 <= i < j && (#[trigger] steps[i]) is ConfigureGlobals
        &&& steps[j] is ResolvePeers ==> exists|i: int|
            0 <= i < j && (#[trigger] steps[i]) is LoadTomlConfig
        &&& steps[j] is AttachDatabase ==> exists|i: int|
            0 <= i < j && (#[trigger] steps[i]) is ResolvePeers
        &&& steps[j] is AdjustConfigs ==> exists|i: int|
            0 <= i < j && (#[trigger] steps[i]) is AttachDatabase
        &&& steps[j] is OpenProviderFactory ==> exists|i: int|
            0 <= i < j && (#[trigger] steps[i]) is AdjustConfigs
        &&& steps[j] is StartPrometheusServer ==> exists|i: int|
            0 <= i < j && (#[trigger] steps[i]) is OpenProviderFactory
        &&& steps[j] is InitGenesis ==> exists|i: int|
            0 <= i < j && (#[trigger] steps[i]) is StartPrometheusServer
        &&& steps[j] is StartMetricsTask ==> exists|i: int|
            0 <= i < j && (#[trigger] steps[i]) is InitGenesis
        &&& steps[j] is OpenBlockchainDb ==> exists|i: int|
            0 <= i < j && (#[trigger] steps[i]) is StartMetricsTask
        &&& steps[j] is BuildComponents ==> exists|i: int|
            0 <= i < j && (#[trigger] steps[i]) is OpenBlockchainDb
        &&& steps[j] is LaunchExex ==> exists|i: int|
            0 <= i < j && (#[trigger] steps[i]) is BuildComponents
        &&& steps[j] is FetchNetworkClient ==> exists|i: int|
            0 <= i < j && (#[trigger] steps[i]) is LaunchExex
        &&& steps[j] is UpdateSyncState ==> exists|i: int|
            0 <= i < j && (#[trigger] steps[i]) is FetchNetworkClient
        &&& steps[j] is FindMaxBlock ==> exists|i: int|
            0 <= i < j && (#[trigger] steps[i]) is UpdateSyncState
        &&& steps[j] is BuildPipeline ==> exists|i: int|
            0 <= i < j && (#[trigger] steps[i]) is FindMaxBlock
        &&& steps[j] is MoveToStaticFiles ==> exists|i: int|
            0 <= i < j && (#[trigger] steps[i]) is BuildPipeline
        &&& steps[j] is BuildPruner ==> exists|i: int|
            0 <= i < j && (#[trigger] steps[i]) is MoveToStaticFiles
        &&& steps[j] is ReadJwtSecret ==> exists|i: int|
            0 <= i < j && (#[trigger] steps[i]) is BuildPruner
        &&& steps[j] is BuildEngineValidator ==> exists|i: int|
            0 <= i < j && (#[trigger] steps[i]) is ReadJwtSecret
        &&& steps[j] is WrapEngineMessages ==> exists|i: int|
            0 <= i < j && (#[trigger] steps[i]) is BuildEngineValidator
        &&& steps[j] is CreateEngineService ==> exists|i: int|
            0 <= i < j && (#[trigger] steps[i]) is WrapEngineMessages
        &&& steps[j] is SpawnEventsTask ==> exists|i: int|
            0 <= i < j && (#[trigger] steps[i]) is CreateEngineService
        &&& steps[j] is LaunchAddOns ==> exists|i: int|
            0 <= i < j && (#[trigger] steps[i]) is SpawnEventsTask
        &&& steps[j] is FindInitialTarget ==> exists|i: int|
            0 <= i < j && (#[trigger] steps[i]) is LaunchAddOns
        &&& steps[j] is SubscribeToPayloads ==> exists|i: int|
            0 <= i < j && (#[trigger] steps[i]) is FindInitialTarget
        &&& steps[j] is SpawnEngine ==> exists|i: int|
            0 <= i < j && (#[trigger] steps[i]) is SubscribeToPayloads
        &&& steps[j] is ReportStarted ==> exists|i: int|
            0 <= i < j && (#[trigger] steps[i]) is SpawnEngine
        &&& steps[j] is SpawnEthstats ==> exists|i: int|
            0 <= i < j && (#[trigger] steps[i]) is ReportStarted
    }
}

/// Whether some step is as said.
pub open spec fn has_step(steps: Seq<LaunchStep>, said: spec_fn(LaunchStep) -> bool) -> bool {
    exists|i: int| 0 <= i < steps.len() && said(#[trigger] steps[i])
}

/// Every step is taken once, and each behind the one whose work it needs: the configuration before
/// the peers and the database, the database before what reads it, the components before those that
/// follow the chain, the pipeline before the pruner, the engine before what is reported of it.
pub proof fn lemma_steps_follow_what_they_need(settings: LaunchSettings, exex: bool)
    ensures
        launch_steps(settings, exex).len() == 29,
        has_step(launch_steps(settings, exex), |step: LaunchStep| step is ConfigureGlobals),
        has_step(launch_steps(settings, exex), |step: LaunchStep| step is LoadTomlConfig),
        has_step(launch_steps(settings, exex), |step: LaunchStep| step is ResolvePeers),
        has_step(launch_steps(settings, exex), |step: LaunchStep| step is AttachDatabase),
        has_step(launch_steps(settings, exex), |step: LaunchStep| step is AdjustConfigs),
        has_step(launch_steps(settings, exex), |step: LaunchStep| step is OpenProviderFactory),
        has_step(launch_steps(settings, exex), |step: LaunchStep| step is StartPrometheusServer),
        has_step(launch_steps(settings, exex), |step: LaunchStep| step is InitGenesis),
        has_step(launch_steps(settings, exex), |step: LaunchStep| step is StartMetricsTask),
        has_step(launch_steps(settings, exex), |step: LaunchStep| step is OpenBlockchainDb),
        has_step(launch_steps(settings, exex), |step: LaunchStep| step is BuildComponents),
        has_step(launch_steps(settings, exex), |step: LaunchStep| step is LaunchExex),
        has_step(launch_steps(settings, exex), |step: LaunchStep| step is FetchNetworkClient),
        has_step(launch_steps(settings, exex), |step: LaunchStep| step is UpdateSyncState),
        has_step(launch_steps(settings, exex), |step: LaunchStep| step is FindMaxBlock),
        has_step(launch_steps(settings, exex), |step: LaunchStep| step is BuildPipeline),
        has_step(launch_steps(settings, exex), |step: LaunchStep| step is MoveToStaticFiles),
        has_step(launch_steps(settings, exex), |step: LaunchStep| step is BuildPruner),
        has_step(launch_steps(settings, exex), |step: LaunchStep| step is ReadJwtSecret),
        has_step(launch_steps(settings, exex), |step: LaunchStep| step is BuildEngineValidator),
        has_step(launch_steps(settings, exex), |step: LaunchStep| step is WrapEngineMessages),
        has_step(launch_steps(settings, exex), |step: LaunchStep| step is CreateEngineService),
        has_step(launch_steps(settings, exex), |step: LaunchStep| step is SpawnEventsTask),
        has_step(launch_steps(settings, exex), |step: LaunchStep| step is LaunchAddOns),
        has_step(launch_steps(settings, exex), |step: LaunchStep| step is FindInitialTarget),
        has_step(launch_steps(settings, exex), |step: LaunchStep| step is SubscribeToPayloads),
        has_step(launch_steps(settings, exex), |step: LaunchStep| step is SpawnEngine),
        has_step(launch_steps(settings, exex), |step: LaunchStep| step is ReportStarted),
        has_step(launch_steps(settings, exex), |step: LaunchStep| step is SpawnEthstats),
        are_in_order(launch_steps(settings, exex)),
{
    let steps = launch_steps(settings, exex);
    assert(steps[0] is ConfigureGlobals);
    assert(steps[1] is LoadTomlConfig);
    assert(steps[2] is ResolvePeers);
    assert(steps[3] is AttachDatabase);
    assert(steps[4] is AdjustConfigs);
    assert(steps[5] is OpenProviderFactory);
    assert(steps[6] is StartPrometheusServer);
    assert(steps[7] is InitGenesis);
    assert(steps[8] is StartMetricsTask);
    assert(steps[9] is OpenBlockchainDb);
    assert(steps[10] is BuildComponents);
    assert(steps[11] is LaunchExex);
    assert(steps[12] is FetchNetworkClient);
    assert(steps[13] is UpdateSyncState);
    assert(steps[14] is FindMaxBlock);
    assert(steps[15] is BuildPipeline);
    assert(steps[16] is MoveToStaticFiles);
    assert(steps[17] is BuildPruner);
    assert(steps[18] is ReadJwtSecret);
    assert(steps[19] is BuildEngineValidator);
    assert(steps[20] is WrapEngineMessages);
    assert(steps[21] is CreateEngineService);
    assert(steps[22] is SpawnEventsTask);
    assert(steps[23] is LaunchAddOns);
    assert(steps[24] is FindInitialTarget);
    assert(steps[25] is SubscribeToPayloads);
    assert(steps[26] is SpawnEngine);
    assert(steps[27] is ReportStarted);
    assert(steps[28] is SpawnEthstats);
}

} // verus!
