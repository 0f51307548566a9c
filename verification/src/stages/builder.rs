use vstd::prelude::*;

use crate::config::{
    EtlConfig, ExecutionStageThresholds, HashingConfig, IndexHistoryConfig, PruneMode, PruneModes,
    SenderRecoveryConfig, TransactionLookupConfig,
};

verus! {

/// Which stage of the pipeline a stage is.
#[derive(Clone, Copy, Debug, PartialEq, Eq, Structural)]
pub enum StageId {
    Era,
    Headers,
    Bodies,
    SenderRecovery,
    Execution,
    PruneSenderRecovery,
    MerkleUnwind,
    AccountHashing,
    StorageHashing,
    MerkleExecute,
    TransactionLookup,
    IndexStorageHistory,
    IndexAccountHistory,
    Prune,
    Finish,
}

/// Where ERA files come from.
#[derive(Debug)]
pub enum EraImportSource {
    /// A directory on this machine.
    Path(String),
    /// A host, and the directory that downloaded files are kept in.
    Url(String, String),
}

/// A stage of the pipeline, with what it is set to.
#[derive(Clone, Copy, Debug)]
pub enum Stage<'a> {
    Era {
        source: &'a EraImportSource,
        etl: &'a EtlConfig,
    },
    Headers {
        etl: &'a EtlConfig,
    },
    Bodies,
    SenderRecovery(SenderRecoveryConfig),
    Execution {
        thresholds: ExecutionStageThresholds,
        external_clean_threshold: u64,
    },
    PruneSenderRecovery {
        mode: PruneMode,
        commit_threshold: usize,
    },
    MerkleUnwind,
    AccountHashing {
        hashing: HashingConfig,
        etl: &'a EtlConfig,
    },
    StorageHashing {
        hashing: HashingConfig,
        etl: &'a EtlConfig,
    },
    MerkleExecute {
        rebuild_threshold: u64,
        incremental_threshold: u64,
    },
    TransactionLookup {
        lookup: TransactionLookupConfig,
        etl: &'a EtlConfig,
        mode: Option<PruneMode>,
    },
    IndexStorageHistory {
        history: IndexHistoryConfig,
        etl: &'a EtlConfig,
        mode: Option<PruneMode>,
    },
    IndexAccountHistory {
        history: IndexHistoryConfig,
        etl: &'a EtlConfig,
        mode: Option<PruneMode>,
    },
    Prune {
        modes: &'a PruneModes,
        commit_threshold: usize,
    },
    Finish,
}

impl<'a> Stage<'a> {
    /// Which stage this is.
    pub open spec fn spec_id(self) -> StageId {
        match self {
            Stage::Era { .. } => StageId::Era,
            Stage::Headers { .. } => StageId::Headers,
            Stage::Bodies => StageId::Bodies,
            Stage::SenderRecovery(_) => StageId::SenderRecovery,
            Stage::Execution { .. } => StageId::Execution,
            Stage::PruneSenderRecovery { .. } => StageId::PruneSenderRecovery,
            Stage::MerkleUnwind => StageId::MerkleUnwind,
            Stage::AccountHashing { .. } => StageId::AccountHashing,
            Stage::StorageHashing { .. } => StageId::StorageHashing,
            Stage::MerkleExecute { .. } => StageId::MerkleExecute,
            Stage::TransactionLookup { .. } => StageId::TransactionLookup,
            Stage::IndexStorageHistory { .. } => StageId::IndexStorageHistory,
            Stage::IndexAccountHistory { .. } => StageId::IndexAccountHistory,
            Stage::Prune { .. } => StageId::Prune,
            Stage::Finish => StageId::Finish,
        }
    }

    /// Which stage this is.
    pub fn id(&self) -> (id: StageId)
        ensures
            id == self.spec_id(),
    {
        match self {
            Stage::Era { .. } => StageId::Era,
            Stage::Headers { .. } => StageId::Headers,
            Stage::Bodies => StageId::Bodies,
            Stage::SenderRecovery(_) => StageId::SenderRecovery,
            Stage::Execution { .. } => StageId::Execution,
            Stage::PruneSenderRecovery { .. } => StageId::PruneSenderRecovery,
            Stage::MerkleUnwind => StageId::MerkleUnwind,
            Stage::AccountHashing { .. } => StageId::AccountHashing,
            Stage::StorageHashing { .. } => StageId::StorageHashing,
            Stage::MerkleExecute { .. } => StageId::MerkleExecute,
            Stage::TransactionLookup { .. } => StageId::TransactionLookup,
            Stage::IndexStorageHistory { .. } => StageId::IndexStorageHistory,
            Stage::IndexAccountHistory { .. } => StageId::IndexAccountHistory,
            Stage::Prune { .. } => StageId::Prune,
            Stage::Finish => StageId::Finish,
        }
    }
}

/// The ids of some stages.
pub open spec fn ids(stages: Seq<Stage>) -> Seq<StageId> {
    stages.map_values(|stage: Stage| stage.spec_id())
}

/// Stages without the one of an id.
pub open spec fn without<'a>(stages: Seq<Stage<'a>>, id: StageId) -> Seq<Stage<'a>> {
    stages.filter(|stage: Stage| stage.spec_id() != id)
}

/// Stages with another one at their end, which leaves its earlier place.
pub open spec fn with_stage<'a>(stages: Seq<Stage<'a>>, stage: Stage<'a>) -> Seq<Stage<'a>> {
    without(stages, stage.spec_id()).push(stage)
}

/// Stages with others at their end, one after the other.
pub open spec fn with_stages<'a>(stages: Seq<Stage<'a>>, others: Seq<Stage<'a>>) -> Seq<Stage<'a>>
    decreases others.len(),
{
    if others.len() == 0 {
        stages
    } else {
        with_stage(with_stages(stages, others.drop_last()), others.last())
    }
}

/// Whether no stage occurs twice.
pub open spec fn each_once(stages: Seq<Stage>) -> bool {
    forall|i: int, j: int|
        0 <= i < j < stages.len() ==> (#[trigger] stages[i]).spec_id() != (
        #[trigger] stages[j]).spec_id()
}

/// Whether a stage is among some.
pub open spec fn has_id(stages: Seq<Stage>, id: StageId) -> bool {
    exists|i: int| 0 <= i < stages.len() && (#[trigger] stages[i]).spec_id() == id
}

/// What is left without an id are the other stages, in their order.
proof fn lemma_without<'a>(stages: Seq<Stage<'a>>, id: StageId)
    ensures
        !has_id(without(stages, id), id),
        each_once(stages) ==> each_once(without(stages, id)),
        !has_id(stages, id) ==> without(stages, id) == stages,
        forall|other: StageId|
            other != id ==> (#[trigger] has_id(without(stages, id), other) <==> has_id(
                stages,
                other,
            )),
    decreases stages.len(),
{
    reveal(Seq::filter);
    let rest = without(stages, id);
    if stages.len() > 0 {
        let front = stages.drop_last();
        let last = stages.last();
        lemma_without(front, id);
        let kept = without(front, id);
        assert(rest == if last.spec_id() != id {
            kept.push(last)
        } else {
            kept
        });
        assert(stages[stages.len() - 1] == last);
        assert forall|other: StageId| other != id implies (#[trigger] has_id(rest, other)
            <==> has_id(stages, other)) by {
            assert(has_id(kept, other) <==> has_id(front, other));
            if has_id(rest, other) {
                let i = choose|i: int|
                    0 <= i < rest.len() && (#[trigger] rest[i]).spec_id() == other;
                if i < kept.len() {
                    assert(kept[i].spec_id() == other);
                    assert(has_id(front, other));
                    let j = choose|j: int|
                        0 <= j < front.len() && (#[trigger] front[j]).spec_id() == other;
                    assert(stages[j].spec_id() == other);
                }
            }
            if has_id(stages, other) {
                let i = choose|i: int|
                    0 <= i < stages.len() && (#[trigger] stages[i]).spec_id() == other;
                if i < front.len() {
                    assert(front[i].spec_id() == other);
                    assert(has_id(kept, other));
                    let j = choose|j: int|
                        0 <= j < kept.len() && (#[trigger] kept[j]).spec_id() == other;
                    assert(rest[j].spec_id() == other);
                } else {
                    assert(rest[rest.len() - 1].spec_id() == other);
                }
            }
        }
        if has_id(rest, id) {
            let i = choose|i: int| 0 <= i < rest.len() && (#[trigger] rest[i]).spec_id() == id;
            assert(kept[i].spec_id() == id);
        }
        if each_once(stages) {
            assert forall|i: int, j: int| 0 <= i < j < front.len() implies (
            #[trigger] front[i]).spec_id() != (#[trigger] front[j]).spec_id() by {
                assert(stages[i].spec_id() != stages[j].spec_id());
            }
            if last.spec_id() != id {
                assert(!has_id(front, last.spec_id())) by {
                    if has_id(front, last.spec_id()) {
                        let i = choose|i: int|
                            0 <= i < front.len() && (#[trigger] front[i]).spec_id()
                                == last.spec_id();
                        assert(stages[i].spec_id() != stages[stages.len() - 1].spec_id());
                    }
                }
                assert(!has_id(kept, last.spec_id()));
                assert forall|i: int, j: int| 0 <= i < j < rest.len() implies (
                #[trigger] rest[i]).spec_id() != (#[trigger] rest[j]).spec_id() by {
                    assert(kept[i].spec_id() == rest[i].spec_id());
                    if j < kept.len() {
                        assert(kept[i].spec_id() != kept[j].spec_id());
                    }
                }
            }
        }
        if !has_id(stages, id) {
            if has_id(front, id) {
                let i = choose|i: int|
                    0 <= i < front.len() && (#[trigger] front[i]).spec_id() == id;
                assert(stages[i].spec_id() == id);
            }
            assert(rest =~= stages);
        }
    }
}

/// A stage that is new goes to the end, and no stage occurs twice after it.
pub proof fn lemma_with_stage<'a>(stages: Seq<Stage<'a>>, stage: Stage<'a>)
    ensures
        each_once(stages) ==> each_once(with_stage(stages, stage)),
        !has_id(stages, stage.spec_id()) ==> with_stage(stages, stage) == stages.push(stage),
        with_stage(stages, stage).last() == stage,
        forall|id: StageId|
            #[trigger] has_id(with_stage(stages, stage), id) <==> id == stage.spec_id() || has_id(
                stages,
                id,
            ),
{
    let kept = without(stages, stage.spec_id());
    let all = with_stage(stages, stage);
    lemma_without(stages, stage.spec_id());
    if each_once(stages) {
        assert forall|i: int, j: int| 0 <= i < j < all.len() implies (#[trigger] all[i]).spec_id()
            != (#[trigger] all[j]).spec_id() by {
            assert(kept[i].spec_id() == all[i].spec_id());
            if j < kept.len() {
                assert(kept[i].spec_id() != kept[j].spec_id());
            }
        }
    }
    assert forall|id: StageId|
        #[trigger] has_id(all, id) <==> id == stage.spec_id() || has_id(stages, id) by {
        if id == stage.spec_id() {
            assert(all[all.len() - 1].spec_id() == id);
        } else {
            assert(has_id(kept, id) <==> has_id(stages, id));
            if has_id(all, id) {
                let i = choose|i: int| 0 <= i < all.len() && (#[trigger] all[i]).spec_id() == id;
                assert(kept[i].spec_id() == id);
            }
            if has_id(kept, id) {
                let i = choose|i: int| 0 <= i < kept.len() && (#[trigger] kept[i]).spec_id() == id;
                assert(all[i].spec_id() == id);
            }
        }
    }
}

/// Stages that are all new go to the end in their order.
pub proof fn lemma_with_stages<'a>(stages: Seq<Stage<'a>>, others: Seq<Stage<'a>>)
    ensures
        each_once(stages) ==> each_once(with_stages(stages, others)),
        each_once(others) && (forall|i: int|
            0 <= i < others.len() ==> !has_id(stages, (#[trigger] others[i]).spec_id()))
            ==> with_stages(stages, others) == stages + others,
        forall|id: StageId|
            #[trigger] has_id(with_stages(stages, others), id) <==> has_id(stages, id) || has_id(
                others,
                id,
            ),
    decreases others.len(),
{
    if others.len() == 0 {
        assert(stages + others =~= stages);
    } else {
        let front = others.drop_last();
        let last = others.last();
        lemma_with_stages(stages, front);
        let before = with_stages(stages, front);
        lemma_with_stage(before, last);
        assert(others[others.len() - 1] == last);
        if each_once(others) && (forall|i: int|
            0 <= i < others.len() ==> !has_id(stages, (#[trigger] others[i]).spec_id())) {
            assert forall|i: int, j: int| 0 <= i < j < front.len() implies (
            #[trigger] front[i]).spec_id() != (#[trigger] front[j]).spec_id() by {
                assert(others[i].spec_id() != others[j].spec_id());
            }
            assert forall|i: int| 0 <= i < front.len() implies !has_id(
                stages,
                (#[trigger] front[i]).spec_id(),
            ) by {
                assert(!has_id(stages, others[i].spec_id()));
            }
            if has_id(front, last.spec_id()) {
                let i = choose|i: int|
                    0 <= i < front.len() && (#[trigger] front[i]).spec_id() == last.spec_id();
                assert(others[i].spec_id() != others[others.len() - 1].spec_id());
            }
            assert(!has_id(before, last.spec_id()));
            assert((stages + front).push(last) =~= stages + others);
        }
        assert forall|id: StageId|
            #[trigger] has_id(with_stages(stages, others), id) <==> has_id(stages, id) || has_id(
                others,
                id,
            ) by {
            assert(has_id(before, id) <==> has_id(stages, id) || has_id(front, id));
            if has_id(others, id) {
                let i = choose|i: int|
                    0 <= i < others.len() && (#[trigger] others[i]).spec_id() == id;
                if i < front.len() {
                    assert(front[i].spec_id() == id);
                }
            }
            if has_id(front, id) {
                let i = choose|i: int|
                    0 <= i < front.len() && (#[trigger] front[i]).spec_id() == id;
                assert(others[i].spec_id() == id);
            }
        }
    }
}

/// Puts the stages of a pipeline together.
#[derive(Debug)]
pub struct StageSetBuilder<'a> {
    pub stages: Vec<Stage<'a>>,
}

/// A set of stages of the pipeline.
pub trait StageSet<'a>: Sized {
    /// The stages of the set, in their order.
    spec fn stages(self) -> Seq<Stage<'a>>;

    /// The stages of the set, in their order.
    fn builder(self) -> (builder: StageSetBuilder<'a>)
        ensures
            builder.stages@ == self.stages(),
    ;
}

impl<'a> StageSet<'a> for StageSetBuilder<'a> {
    open spec fn stages(self) -> Seq<Stage<'a>> {
        self.stages@
    }

    fn builder(self) -> (builder: StageSetBuilder<'a>) {
        self
    }
}

impl<'a> StageSetBuilder<'a> {
    /// No stages.
    pub fn new() -> (made: StageSetBuilder<'a>)
        ensures
            made.stages@ == Seq::<Stage<'a>>::empty(),
    {
        StageSetBuilder { stages: Vec::new() }
    }

    /// Puts a stage at the end. If it is already there, it leaves its place.
    pub fn add_stage(self, stage: Stage<'a>) -> (made: StageSetBuilder<'a>)
        ensures
            made.stages@ == with_stage(self.stages@, stage),
    {
        let mut kept: Vec<Stage<'a>> = Vec::new();
        let id = stage.id();
        let ghost other = |stage: Stage| stage.spec_id() != id;
        let mut i: usize = 0;
        while i < self.stages.len()
            invariant
                0 <= i <= self.stages@.len(),
                other == (|stage: Stage| stage.spec_id() != id),
                kept@ == self.stages@.take(i as int).filter(other),
            decreases self.stages@.len() - i,
        {
            let next = self.stages[i];
            proof {
                reveal(Seq::filter);
                assert(self.stages@.take(i + 1).drop_last() =~= self.stages@.take(i as int));
            }
            if next.id() != id {
                kept.push(next);
            }
            i += 1;
        }
        proof {
            assert(self.stages@.take(self.stages@.len() as int) =~= self.stages@);
        }
        kept.push(stage);
        StageSetBuilder { stages: kept }
    }

    /// Puts a stage at the end, if there is one.
    pub fn add_stage_opt(self, stage: Option<Stage<'a>>) -> (made: StageSetBuilder<'a>)
        ensures
            made.stages@ == (match stage {
                Some(stage) => with_stage(self.stages@, stage),
                None => self.stages@,
            }),
    {
        match stage {
            Some(stage) => self.add_stage(stage),
            None => self,
        }
    }

    /// Puts the stages of a set at the end, one after the other.
    pub fn add_set<S: StageSet<'a>>(self, set: S) -> (made: StageSetBuilder<'a>)
        ensures
            made.stages@ == with_stages(self.stages@, set.stages()),
    {
        let ghost before = self.stages@;
        let others = set.builder();
        let mut made = self;
        let mut i: usize = 0;
        proof {
            assert(others.stages@.take(0) =~= Seq::<Stage<'a>>::empty());
        }
        while i < others.stages.len()
            invariant
                0 <= i <= others.stages@.len(),
                made.stages@ == with_stages(before, others.stages@.take(i as int)),
            decreases others.stages@.len() - i,
        {
            proof {
                assert(others.stages@.take(i + 1).drop_last() =~= others.stages@.take(i as int));
            }
            made = made.add_stage(others.stages[i]);
            i += 1;
        }
        proof {
            assert(others.stages@.take(others.stages@.len() as int) =~= others.stages@);
        }
        made
    }
}

/// Each stage has the id of its own name.
pub proof fn lemma_stage_ids(stage: Stage)
    ensures
        stage is Era <==> stage.spec_id() == StageId::Era,
        stage is Headers <==> stage.spec_id() == StageId::Headers,
        stage is Bodies <==> stage.spec_id() == StageId::Bodies,
        stage is SenderRecovery <==> stage.spec_id() == StageId::SenderRecovery,
        stage is Execution <==> stage.spec_id() == StageId::Execution,
        stage is PruneSenderRecovery <==> stage.spec_id() == StageId::PruneSenderRecovery,
        stage is MerkleUnwind <==> stage.spec_id() == StageId::MerkleUnwind,
        stage is AccountHashing <==> stage.spec_id() == StageId::AccountHashing,
        stage is StorageHashing <==> stage.spec_id() == StageId::StorageHashing,
        stage is MerkleExecute <==> stage.spec_id() == StageId::MerkleExecute,
        stage is TransactionLookup <==> stage.spec_id() == StageId::TransactionLookup,
        stage is IndexStorageHistory <==> stage.spec_id() == StageId::IndexStorageHistory,
        stage is IndexAccountHistory <==> stage.spec_id() == StageId::IndexAccountHistory,
        stage is Prune <==> stage.spec_id() == StageId::Prune,
        stage is Finish <==> stage.spec_id() == StageId::Finish,
{
}

/// A stage that is added again leaves its place for the end, and the others keep theirs.
pub proof fn lemma_moves_to_the_end<'a>(
    before: Seq<Stage<'a>>,
    old_stage: Stage<'a>,
    behind: Seq<Stage<'a>>,
    stage: Stage<'a>,
)
    requires
        old_stage.spec_id() == stage.spec_id(),
        !has_id(before, stage.spec_id()),
        !has_id(behind, stage.spec_id()),
    ensures
        with_stage(before.push(old_stage) + behind, stage) == (before + behind).push(stage),
{
    let id = stage.spec_id();
    let pred = |stage: Stage| stage.spec_id() != id;
    lemma_without(before, id);
    lemma_without(behind, id);
    Seq::filter_distributes_over_add(before.push(old_stage), behind, pred);
    before.lemma_filter_push(old_stage, pred);
}

} // verus!
