use vstd::prelude::*;

use crate::engine::config::TreeConfig;
use crate::eth_wire_types::payloads::BlockRangeUpdate;
use crate::primitives::{B256, U256};

verus! {

/// What a node is launched with.
#[derive(Clone, Copy, Debug, PartialEq, Eq, Structural)]
pub struct LaunchContext<Executor, Directory> {
    pub task_executor: Executor,
    pub data_dir: Directory,
}

/// Launches a node that a consensus engine drives.
#[derive(Clone, Copy, Debug, PartialEq, Eq, Structural)]
pub struct EngineNodeLauncher<Executor, Directory> {
    pub ctx: LaunchContext<Executor, Directory>,
    pub engine_tree_config: TreeConfig,
}

impl<Executor, Directory> EngineNodeLauncher<Executor, Directory> {
    /// A launcher over an executor and a data directory.
    pub fn new(task_executor: Executor, data_dir: Directory, engine_tree_config: TreeConfig) -> (made:
        Self)
        ensures
            made == (EngineNodeLauncher {
                ctx: LaunchContext { task_executor, data_dir },
                engine_tree_config,
            }),
    {
        EngineNodeLauncher { ctx: LaunchContext { task_executor, data_dir }, engine_tree_config }
    }
}

/// What a node tells its peers of its own progress.
#[derive(Clone, Copy, Debug, PartialEq, Eq, Structural)]
pub enum SyncState {
    Syncing,
    Idle,
}

/// The tip of the canonical chain as the network reports it to peers.
#[derive(Clone, Copy, Debug, PartialEq, Eq, Structural)]
pub struct Head {
    pub number: u64,
    pub hash: B256,
    pub difficulty: U256,
    pub total_difficulty: U256,
    pub timestamp: u64,
}

/// A header that became canonical, with what the node knows of it.
#[derive(Clone, Copy, Debug, PartialEq, Eq, Structural)]
pub struct CanonicalHead {
    pub number: u64,
    pub hash: B256,
    pub difficulty: U256,
    pub timestamp: u64,
    /// Whether the merge is active at the block's number.
    pub paris_active: bool,
    /// The earliest block that the node still holds, if it can tell.
    pub earliest: Option<u64>,
}

/// What the chain orchestrator reports.
#[derive(Clone, Copy, Debug, PartialEq, Eq, Structural)]
pub enum ChainEvent {
    BackfillSyncStarted,
    BackfillSyncFinished,
    FatalError,
    /// An event of the engine's handler, with the header that it made canonical, if it made one.
    Handler(Option<CanonicalHead>),
}

/// What the engine loop waits for.
#[derive(Clone, Copy, Debug, PartialEq, Eq, Structural)]
pub enum EngineEvent {
    /// The shutdown channel has resolved: with a request, or because nobody can ask any more.
    Shutdown {
        requested: bool,
    },
    /// The payload builder has built a payload, and may have executed its block.
    PayloadBuilt {
        executed: bool,
    },
    Chain(ChainEvent),
    /// The orchestrator reports nothing any more.
    Ended,
}

/// What the engine loop asks of the node around it.
#[derive(Clone, Copy, Debug, PartialEq, Eq, Structural)]
pub enum EngineAction {
    UpdateSyncState(SyncState),
    StartBackfillSync(B256),
    /// Pass a termination request on to the engine's handler.
    Terminate,
    /// Hand the block that was just executed to the engine's handler.
    InsertExecutedBlock,
    UpdateStatus(Head),
    UpdateBlockRange(BlockRangeUpdate),
    /// Pass the handler's event on to its listeners.
    Notify,
}

/// How the engine loop ended.
#[derive(Clone, Copy, Debug, PartialEq, Eq, Structural)]
pub enum EngineExit {
    Done,
    /// The engine met an error that it cannot recover from.
    FatalError,
}

/// What the engine loop is told once.
#[derive(Clone, Copy, Debug, PartialEq, Eq, Structural)]
pub struct EngineSettings {
    /// Whether the node stops as soon as the first backfill is done.
    pub terminate_after_backfill: bool,
    /// Whether the node counts as synced before the first canonical header.
    pub startup_sync_state_idle: bool,
    /// The total difficulty that the chain ended its proof of work with, if it has ended it.
    pub final_paris_total_difficulty: Option<U256>,
}

/// The loop that drives the consensus engine of a node, without the work around it.
#[derive(Clone, Copy, Debug, PartialEq, Eq, Structural)]
pub struct EngineLoop {
    pub settings: EngineSettings,
    /// What the network was told last.
    pub sync_state: SyncState,
    pub exit: Option<EngineExit>,
}

/// The total difficulty reported with a head: the chain's final one once the merge is active at
/// the head, and nothing before.
pub open spec fn reported_difficulty(settings: EngineSettings, head: CanonicalHead) -> U256 {
    match settings.final_paris_total_difficulty {
        Some(total) if head.paris_active => total,
        _ => U256 { hi: 0, lo: 0 },
    }
}

/// The status that a canonical header is reported with.
pub open spec fn reported_head(settings: EngineSettings, head: CanonicalHead) -> Head {
    Head {
        number: head.number,
        hash: head.hash,
        difficulty: head.difficulty,
        total_difficulty: reported_difficulty(settings, head),
        timestamp: head.timestamp,
    }
}

/// The range of blocks that the node offers once a header is canonical.
pub open spec fn offered_range(head: CanonicalHead) -> BlockRangeUpdate {
    BlockRangeUpdate {
        earliest: match head.earliest {
            Some(earliest) => earliest,
            None => 0,
        },
        latest: head.number,
        latest_hash: head.hash,
    }
}

/// What the loop does first.
pub open spec fn starts_with(settings: EngineSettings, initial_target: Option<B256>) -> Seq<
    EngineAction,
> {
    match initial_target {
        Some(target) => seq![EngineAction::StartBackfillSync(target)],
        None => if settings.startup_sync_state_idle {
            seq![EngineAction::UpdateSyncState(SyncState::Idle)]
        } else {
            seq![]
        },
    }
}

/// What an event makes the loop do.
pub open spec fn reaction(settings: EngineSettings, event: EngineEvent) -> Seq<EngineAction> {
    match event {
        EngineEvent::Shutdown { requested } => if requested {
            seq![EngineAction::Terminate]
        } else {
            seq![]
        },
        EngineEvent::PayloadBuilt { executed } => if executed {
            seq![EngineAction::InsertExecutedBlock]
        } else {
            seq![]
        },
        EngineEvent::Chain(ChainEvent::BackfillSyncStarted) => seq![
            EngineAction::UpdateSyncState(SyncState::Syncing),
        ],
        EngineEvent::Chain(ChainEvent::BackfillSyncFinished) => {
            if !settings.terminate_after_backfill && settings.startup_sync_state_idle {
                seq![EngineAction::UpdateSyncState(SyncState::Idle)]
            } else {
                seq![]
            }
        },
        EngineEvent::Chain(ChainEvent::FatalError) => seq![],
        EngineEvent::Chain(ChainEvent::Handler(Some(head))) => seq![
            EngineAction::UpdateSyncState(SyncState::Idle),
            EngineAction::UpdateStatus(reported_head(settings, head)),
            EngineAction::UpdateBlockRange(offered_range(head)),
            EngineAction::Notify,
        ],
        EngineEvent::Chain(ChainEvent::Handler(None)) => seq![EngineAction::Notify],
        EngineEvent::Ended => seq![],
    }
}

/// Whether and how an event ends the loop.
pub open spec fn ends(settings: EngineSettings, event: EngineEvent) -> Option<EngineExit> {
    match event {
        EngineEvent::Chain(ChainEvent::BackfillSyncFinished) => {
            if settings.terminate_after_backfill {
                Some(EngineExit::Done)
            } else {
                None
            }
        },
        EngineEvent::Chain(ChainEvent::FatalError) => Some(EngineExit::FatalError),
        EngineEvent::Ended => Some(EngineExit::Done),
        _ => None,
    }
}

/// What the network holds after some actions, if it held `before` at first.
pub open spec fn told(before: SyncState, actions: Seq<EngineAction>) -> SyncState
    decreases actions.len(),
{
    if actions.len() == 0 {
        before
    } else {
        match actions.last() {
            EngineAction::UpdateSyncState(state) => state,
            _ => told(before, actions.drop_last()),
        }
    }
}

/// What the network holds after an event, if it held `before` at first.
pub open spec fn told_by(before: SyncState, settings: EngineSettings, event: EngineEvent) -> SyncState {
    match event {
        EngineEvent::Chain(ChainEvent::BackfillSyncStarted) => SyncState::Syncing,
        EngineEvent::Chain(ChainEvent::BackfillSyncFinished) => {
            if !settings.terminate_after_backfill && settings.startup_sync_state_idle {
                SyncState::Idle
            } else {
                before
            }
        },
        EngineEvent::Chain(ChainEvent::Handler(Some(_))) => SyncState::Idle,
        _ => before,
    }
}

impl EngineLoop {
    /// The loop before it starts. While the node was launched, the network was told that it syncs.
    pub fn new(settings: EngineSettings) -> (made: EngineLoop)
        ensures
            made == (EngineLoop { settings, sync_state: SyncState::Syncing, exit: None }),
    {
        EngineLoop { settings, sync_state: SyncState::Syncing, exit: None }
    }

    /// Starts the loop: with a backfill where there is a block to fill up to, and otherwise as
    /// synced where the settings say so.
    pub fn start(&mut self, initial_target: Option<B256>) -> (actions: Vec<EngineAction>)
        ensures
            actions@ == (match initial_target {
                Some(target) => seq![EngineAction::StartBackfillSync(target)],
                None => if old(self).settings.startup_sync_state_idle {
                    seq![EngineAction::UpdateSyncState(SyncState::Idle)]
                } else {
                    seq![]
                },
            }),
            actions@ == starts_with(old(self).settings, initial_target),
            *final(self) == (EngineLoop {
                settings: old(self).settings,
                sync_state: told(old(self).sync_state, actions@),
                exit: old(self).exit,
            }),
    {
        proof {
            reveal_with_fuel(told, 2);
        }
        let mut actions: Vec<EngineAction> = Vec::new();
        match initial_target {
            Some(target) => {
                actions.push(EngineAction::StartBackfillSync(target));
            },
            None => {
                if self.settings.startup_sync_state_idle {
                    self.sync_state = SyncState::Idle;
                    actions.push(EngineAction::UpdateSyncState(SyncState::Idle));
                }
            },
        }
        actions
    }

    /// The actions that a new canonical header asks for.
    fn on_canonical_head(settings: EngineSettings, head: CanonicalHead) -> (actions: Vec<EngineAction>)
        ensures
            actions@ == reaction(settings, EngineEvent::Chain(ChainEvent::Handler(Some(head)))),
    {
        let mut total_difficulty = U256 { hi: 0, lo: 0 };
        if let Some(total) = settings.final_paris_total_difficulty {
            if head.paris_active {
                total_difficulty = total;
            }
        }
        let earliest: u64 = match head.earliest {
            Some(earliest) => earliest,
            None => 0,
        };
        let mut actions: Vec<EngineAction> = Vec::new();
        actions.push(EngineAction::UpdateSyncState(SyncState::Idle));
        actions.push(
            EngineAction::UpdateStatus(
                Head {
                    number: head.number,
                    hash: head.hash,
                    difficulty: head.difficulty,
                    total_difficulty,
                    timestamp: head.timestamp,
                },
            ),
        );
        actions.push(
            EngineAction::UpdateBlockRange(
                BlockRangeUpdate { earliest, latest: head.number, latest_hash: head.hash },
            ),
        );
        actions.push(EngineAction::Notify);
        actions
    }

    /// Takes one event and says what is to be done about it.
    pub fn on_event(&mut self, event: EngineEvent) -> (actions: Vec<EngineAction>)
        requires
            old(self).exit is None,
        ensures
            actions@ == reaction(old(self).settings, event),
            *final(self) == (EngineLoop {
                settings: old(self).settings,
                sync_state: told_by(old(self).sync_state, old(self).settings, event),
                exit: ends(old(self).settings, event),
            }),
    {
        let mut actions: Vec<EngineAction> = Vec::new();
        match event {
            EngineEvent::Shutdown { requested } => {
                if requested {
                    actions.push(EngineAction::Terminate);
                }
            },
            EngineEvent::PayloadBuilt { executed } => {
                if executed {
                    actions.push(EngineAction::InsertExecutedBlock);
                }
            },
            EngineEvent::Chain(ChainEvent::BackfillSyncFinished) => {
                if self.settings.terminate_after_backfill {
                    self.exit = Some(EngineExit::Done);
                } else if self.settings.startup_sync_state_idle {
                    self.sync_state = SyncState::Idle;
                    actions.push(EngineAction::UpdateSyncState(SyncState::Idle));
                }
            },
            EngineEvent::Chain(ChainEvent::BackfillSyncStarted) => {
                self.sync_state = SyncState::Syncing;
                actions.push(EngineAction::UpdateSyncState(SyncState::Syncing));
            },
            EngineEvent::Chain(ChainEvent::FatalError) => {
                self.exit = Some(EngineExit::FatalError);
            },
            EngineEvent::Chain(ChainEvent::Handler(canonical)) => {
                match canonical {
                    Some(head) => {
                        self.sync_state = SyncState::Idle;
                        actions = EngineLoop::on_canonical_head(self.settings, head);
                    },
                    None => {
                        actions.push(EngineAction::Notify);
                    },
                }
            },
            EngineEvent::Ended => {
                self.exit = Some(EngineExit::Done);
            },
        }
        actions
    }
}

/// What the loop remembers of the sync state is what the network was told last.
pub proof fn lemma_told(before: SyncState, settings: EngineSettings, event: EngineEvent)
    ensures
        told(before, reaction(settings, event)) == told_by(before, settings, event),
{
    reveal_with_fuel(told, 5);
    let actions = reaction(settings, event);
    if let EngineEvent::Chain(ChainEvent::Handler(Some(head))) = event {
        let three = actions.drop_last();
        let two = three.drop_last();
        let one = two.drop_last();
        assert(actions.last() == EngineAction::Notify);
        assert(three.last() == EngineAction::UpdateBlockRange(offered_range(head)));
        assert(two.last() == EngineAction::UpdateStatus(reported_head(settings, head)));
        assert(one.last() == EngineAction::UpdateSyncState(SyncState::Idle));
    }
}

/// How a loop ends that takes these events in turn, or that it is still running.
pub open spec fn outcome(settings: EngineSettings, events: Seq<EngineEvent>) -> Option<EngineExit>
    decreases events.len(),
{
    if events.len() == 0 {
        None
    } else {
        match outcome(settings, events.drop_last()) {
            Some(exit) => Some(exit),
            None => ends(settings, events.last()),
        }
    }
}

/// A loop ends exactly when one of its events ends it, and the first such event says how: so a
/// fatal error is reported unless the loop was already over when it came.
pub proof fn lemma_first_end_counts(settings: EngineSettings, events: Seq<EngineEvent>)
    ensures
        outcome(settings, events) is None <==> forall|i: int|
            0 <= i < events.len() ==> ends(settings, #[trigger] events[i]) is None,
        forall|i: int|
            #![trigger events[i]]
            0 <= i < events.len() && ends(settings, events[i]) is Some && (forall|j: int|
                0 <= j < i ==> ends(settings, #[trigger] events[j]) is None) ==> outcome(
                settings,
                events,
            ) == ends(settings, events[i]),
    decreases events.len(),
{
    if events.len() > 0 {
        let rest = events.drop_last();
        lemma_first_end_counts(settings, rest);
        assert(forall|i: int| 0 <= i < rest.len() ==> rest[i] == #[trigger] events[i]);
        assert(events.last() == events[events.len() - 1]);
        assert forall|i: int|
            #![trigger events[i]]
            0 <= i < events.len() && ends(settings, events[i]) is Some && (forall|j: int|
                0 <= j < i ==> ends(settings, #[trigger] events[j]) is None) implies outcome(
            settings,
            events,
        ) == ends(settings, events[i]) by {
            if i < rest.len() {
                assert(rest[i] == events[i]);
                assert(forall|j: int|
                    0 <= j < i ==> ends(settings, #[trigger] rest[j]) is None);
                assert(outcome(settings, rest) == ends(settings, rest[i]));
            } else {
                assert(forall|j: int|
                    0 <= j < rest.len() ==> ends(settings, #[trigger] rest[j]) is None);
            }
        }
        if forall|i: int| 0 <= i < events.len() ==> ends(settings, #[trigger] events[i]) is None {
            assert(forall|i: int|
                0 <= i < rest.len() ==> ends(settings, #[trigger] rest[i]) is None);
        }
        if outcome(settings, events) is None {
            assert forall|i: int| 0 <= i < events.len() implies ends(
                settings,
                #[trigger] events[i],
            ) is None by {
                if i < rest.len() {
                    assert(rest[i] == events[i]);
                }
            }
        }
    }
}

/// Each action is taken for its own event and for no other: the network is told of a sync that
/// starts, and that it is over with every canonical header, or with a backfill where the settings
/// say so; executed payloads are inserted; a requested end is passed on; listeners hear of whatever
/// the handler says.
pub proof fn lemma_actions_have_their_events(settings: EngineSettings, event: EngineEvent)
    ensures
        ({
            let actions = reaction(settings, event);
            &&& actions.contains(EngineAction::UpdateSyncState(SyncState::Syncing)) <==> event
                == EngineEvent::Chain(ChainEvent::BackfillSyncStarted)
            &&& actions.contains(EngineAction::UpdateSyncState(SyncState::Idle)) <==> (
            event matches EngineEvent::Chain(ChainEvent::Handler(Some(_)))) || event
                == EngineEvent::Chain(ChainEvent::BackfillSyncFinished)
                && settings.startup_sync_state_idle && !settings.terminate_after_backfill
            &&& actions.contains(EngineAction::Terminate) <==> event == EngineEvent::Shutdown {
                requested: true,
            }
            &&& actions.contains(EngineAction::InsertExecutedBlock) <==> event
                == EngineEvent::PayloadBuilt { executed: true }
            &&& actions.contains(EngineAction::Notify) <==> (event matches EngineEvent::Chain(
                ChainEvent::Handler(_),
            ))
            &&& forall|target: B256|
                !#[trigger] actions.contains(EngineAction::StartBackfillSync(target))
            &&& forall|i: int, j: int|
                0 <= i < j < actions.len() ==> #[trigger] actions[i] != #[trigger] actions[j]
                    && actions[i] != EngineAction::Notify
        }),
{
    let actions = reaction(settings, event);
    if actions.len() > 0 {
        assert(actions.contains(actions[0]));
        assert(actions.contains(actions[actions.len() - 1]));
    }
}

/// A status and a range of blocks are told exactly with a canonical header, and say of it its
/// number, hash, difficulty and time, and the blocks up to it from the earliest that is held. The
/// total difficulty is there only behind the merge.
pub proof fn lemma_status_follows_the_head(settings: EngineSettings, event: EngineEvent)
    ensures
        forall|status: Head| #[trigger]
            reaction(settings, event).contains(EngineAction::UpdateStatus(status)) ==> {
                &&& event matches EngineEvent::Chain(ChainEvent::Handler(Some(head)))
                &&& status.number == head.number
                &&& status.hash == head.hash
                &&& status.difficulty == head.difficulty
                &&& status.timestamp == head.timestamp
                &&& !head.paris_active ==> status.total_difficulty == U256 { hi: 0, lo: 0 }
                &&& settings.final_paris_total_difficulty matches Some(t) ==> head.paris_active
                    ==> status.total_difficulty == t
                &&& settings.final_paris_total_difficulty is None ==> status.total_difficulty
                    == U256 { hi: 0, lo: 0 }
            },
        forall|range: BlockRangeUpdate| #[trigger]
            reaction(settings, event).contains(EngineAction::UpdateBlockRange(range)) ==> {
                &&& event matches EngineEvent::Chain(ChainEvent::Handler(Some(head)))
                &&& range.latest == head.number
                &&& range.latest_hash == head.hash
                &&& head.earliest matches Some(earliest) ==> range.earliest == earliest
                &&& head.earliest is None ==> range.earliest == 0
            },
        event matches EngineEvent::Chain(ChainEvent::Handler(Some(_))) ==> {
            &&& exists|status: Head| #[trigger]
                reaction(settings, event).contains(EngineAction::UpdateStatus(status))
            &&& exists|range: BlockRangeUpdate| #[trigger]
                reaction(settings, event).contains(EngineAction::UpdateBlockRange(range))
        },
{
    if let EngineEvent::Chain(ChainEvent::Handler(Some(head))) = event {
        let actions = reaction(settings, event);
        assert(actions.contains(actions[1]));
        assert(actions.contains(actions[2]));
    }
}

/// The loop ends in failure exactly on a fatal error, and well exactly where nothing more comes or
/// where it was to end with the backfill.
pub proof fn lemma_loop_ends_when(settings: EngineSettings, event: EngineEvent)
    ensures
        ends(settings, event) == Some(EngineExit::FatalError) <==> event == EngineEvent::Chain(
            ChainEvent::FatalError,
        ),
        ends(settings, event) == Some(EngineExit::Done) <==> event == EngineEvent::Ended || event
            == EngineEvent::Chain(ChainEvent::BackfillSyncFinished)
            && settings.terminate_after_backfill,
        ends(settings, event) is Some ==> reaction(settings, event).len() == 0,
{
}

/// A loop starts with a backfill exactly where there is a block to fill up to, and up to that block;
/// it says that the node is synced only where there is none, and only where the settings say so.
pub proof fn lemma_starts_with(settings: EngineSettings, initial_target: Option<B256>)
    ensures
        ({
            let actions = starts_with(settings, initial_target);
            &&& forall|target: B256| #[trigger]
                actions.contains(EngineAction::StartBackfillSync(target)) <==> initial_target
                    == Some(target)
            &&& actions.contains(EngineAction::UpdateSyncState(SyncState::Idle))
                <==> initial_target is None && settings.startup_sync_state_idle
            &&& actions.len() <= 1
        }),
{
    let actions = starts_with(settings, initial_target);
    if actions.len() > 0 {
        assert(actions.contains(actions[0]));
    }
}

} // verus!
