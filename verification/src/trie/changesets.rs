use vstd::prelude::*;
use crate::primitives::B256;
use crate::keyed::{
    distinct, lemma_count, lemma_front, lemma_items, lemma_keys, lemma_push, lemma_update, map_by,
};
use crate::sorted_map::{
    lemma_map_items, lemma_map_keys, rank_less, rising, to_map, Nibbles, SortKey, SortedMap,
};
use crate::trie::updates::{
    as_inner, inner_map, no_changes, over, BranchNodeCompact,
    HashedPostStateSorted, Inner, StateModel, TrieModel, TrieUpdatesSorted,
};

verus! {

/// Why changesets are not to be had.
#[derive(Debug)]
pub enum ProviderError<E> {
    /// A block that the database does not reach. It has the blocks from `first` to `last`.
    InsufficientChangesets { requested: u64, first: u64, last: u64 },
    /// A block number without a block.
    BlockHashNotFound(u64),
    /// The database itself.
    Database(E),
    /// What went wrong while changesets were computed or looked up.
    Other(Box<ProviderError<E>>),
}

/// A database at a point in time. What it is asked twice, it answers twice the same.
pub trait ChangesetProvider {
    /// What the database itself may fail with.
    type Error;

    /// The last block that every stage has finished.
    spec fn tip(&self) -> Result<Option<u64>, Self::Error>;

    /// The hash of the block with a number.
    spec fn hash_of(&self, number: u64) -> Result<Option<B256>, Self::Error>;

    /// What takes the state of accounts back over the blocks from `first` to `last`, or to the
    /// tip.
    spec fn reverts(&self, first: u64, last: Option<u64>) -> Result<StateModel, Self::Error>;

    /// The trie nodes that come out where `state` lies over the accounts in the database and
    /// `nodes` over the nodes in it, and what `changed` names has changed.
    spec fn overlaid(
        &self,
        nodes: TrieModel,
        state: StateModel,
        changed: StateModel,
    ) -> Result<TrieModel, Self::Error>;

    /// The nodes that `updates` change as they are before, where `nodes` lie over those in the
    /// database.
    spec fn replaced(&self, nodes: TrieModel, updates: TrieModel) -> Result<TrieModel, Self::Error>;

    /// The node of the account trie at a path.
    spec fn account_node_at(&self, path: Nibbles) -> Result<Option<BranchNodeCompact>, Self::Error>;

    /// The node of the storage trie of an account at a path.
    spec fn storage_node_at(&self, address: B256, path: Nibbles) -> Result<
        Option<BranchNodeCompact>,
        Self::Error,
    >;

    /// The last block that every stage has finished.
    fn finish_checkpoint(&self) -> (r: Result<Option<u64>, Self::Error>)
        ensures
            r == self.tip(),
    ;

    /// The hash of the block with a number.
    fn block_hash(&self, number: u64) -> (r: Result<Option<B256>, Self::Error>)
        ensures
            r == self.hash_of(number),
    ;

    /// What takes the state of accounts back over a range of blocks.
    fn state_reverts(&self, first: u64, last: Option<u64>) -> (r: Result<
        HashedPostStateSorted,
        Self::Error,
    >)
        ensures
            match self.reverts(first, last) {
                Ok(m) => r is Ok && r->Ok_0.wf() && r->Ok_0.model() == m,
                Err(e) => r is Err && r->Err_0 == e,
            },
    ;

    /// The trie nodes that come out of an overlay.
    fn overlay_updates(
        &self,
        nodes: &TrieUpdatesSorted,
        state: &HashedPostStateSorted,
        changed: &HashedPostStateSorted,
    ) -> (r: Result<TrieUpdatesSorted, Self::Error>)
        requires
            nodes.wf(),
            state.wf(),
            changed.wf(),
        ensures
            match self.overlaid(nodes.model(), state.model(), changed.model()) {
                Ok(m) => r is Ok && r->Ok_0.wf() && r->Ok_0.model() == m,
                Err(e) => r is Err && r->Err_0 == e,
            },
    ;

    /// The nodes that updates change as they are before.
    fn trie_changesets(&self, nodes: &TrieUpdatesSorted, updates: &TrieUpdatesSorted) -> (r: Result<
        TrieUpdatesSorted,
        Self::Error,
    >)
        requires
            nodes.wf(),
            updates.wf(),
        ensures
            match self.replaced(nodes.model(), updates.model()) {
                Ok(m) => r is Ok && r->Ok_0.wf() && r->Ok_0.model() == m,
                Err(e) => r is Err && r->Err_0 == e,
            },
    ;

    /// The node of the account trie at a path.
    fn account_node(&self, path: Nibbles) -> (r: Result<Option<BranchNodeCompact>, Self::Error>)
        ensures
            r == self.account_node_at(path),
    ;

    /// The node of the storage trie of an account at a path.
    fn storage_node(&self, address: B256, path: Nibbles) -> (r: Result<
        Option<BranchNodeCompact>,
        Self::Error,
    >)
        ensures
            r == self.storage_node_at(address, path),
    ;
}

/// The failure for a block behind the tip.
pub open spec fn beyond_tip<E>(requested: u64, tip: Option<u64>) -> ProviderError<E> {
    ProviderError::InsufficientChangesets {
        requested,
        first: 0,
        last: match tip {
            Some(n) => n,
            None => 0,
        },
    }
}

/// A failure of the database while trie nodes are computed from it.
pub open spec fn computing<E>(e: E) -> ProviderError<E> {
    ProviderError::Other(Box::new(ProviderError::Database(e)))
}

/// The failure for a block number without a block.
pub open spec fn no_hash<E>(number: u64) -> ProviderError<E> {
    ProviderError::Other(Box::new(ProviderError::BlockHashNotFound(number)))
}

/// Whether a block has a number behind it, or is not reached.
pub open spec fn has_successor<P: ChangesetProvider>(p: &P, number: u64) -> bool {
    number < u64::MAX || p.tip() != Ok::<Option<u64>, P::Error>(Some(u64::MAX))
}

/// The changesets of a block: the trie nodes that it changed, as they were before it. The state
/// after the block before it lies over the database: everything from this block on taken back.
/// From the nodes of that state, and the state after this block, the nodes that this block
/// changes are found, and from them what they were.
pub open spec fn block_changesets<P: ChangesetProvider>(p: &P, number: u64) -> Result<
    TrieModel,
    ProviderError<P::Error>,
> {
    match p.tip() {
        Err(e) => Err(ProviderError::Database(e)),
        Ok(tip) => if tip is None || number > tip->Some_0 {
            Err(beyond_tip(number, tip))
        } else {
            match p.reverts(number, Some(number)) {
                Err(e) => Err(ProviderError::Database(e)),
                Ok(own) => match p.reverts((number + 1) as u64, None) {
                    Err(e) => Err(ProviderError::Database(e)),
                    Ok(after) => {
                        let before = over(after, own);
                        match p.overlaid(no_changes(), before, before) {
                            Err(e) => Err(computing(e)),
                            Ok(nodes_before) => match p.overlaid(nodes_before, after, own) {
                                Err(e) => Err(computing(e)),
                                Ok(updates) => match p.replaced(nodes_before, updates) {
                                    Err(e) => Err(computing(e)),
                                    Ok(changesets) => Ok(changesets),
                                },
                            },
                        }
                    },
                },
            }
        },
    }
}

/// Computes the changesets of a block from the database.
pub fn compute_block_trie_changesets<P: ChangesetProvider>(
    provider: &P,
    block_number: u64,
) -> (r: Result<TrieUpdatesSorted, ProviderError<P::Error>>)
    requires
        has_successor(provider, block_number),
    ensures
        match block_changesets(provider, block_number) {
            Ok(m) => r is Ok && r->Ok_0.wf() && r->Ok_0.model() == m,
            Err(e) => r is Err && r->Err_0 == e,
        },
{
    match provider.finish_checkpoint() {
        Err(e) => {
            return Err(ProviderError::Database(e));
        },
        Ok(None) => {
            return Err(
                ProviderError::InsufficientChangesets {
                    requested: block_number,
                    first: 0,
                    last: 0,
                },
            );
        },
        Ok(Some(tip)) => {
            if block_number > tip {
                return Err(
                    ProviderError::InsufficientChangesets {
                        requested: block_number,
                        first: 0,
                        last: tip,
                    },
                );
            }
        },
    }
    let individual_state_revert = match provider.state_reverts(block_number, Some(block_number)) {
        Ok(s) => s,
        Err(e) => {
            return Err(ProviderError::Database(e));
        },
    };
    let cumulative_state_revert = match provider.state_reverts(block_number + 1, None) {
        Ok(s) => s,
        Err(e) => {
            return Err(ProviderError::Database(e));
        },
    };
    let mut cumulative_state_revert_prev = cumulative_state_revert.copy();
    cumulative_state_revert_prev.extend_ref_and_sort(&individual_state_revert);
    let no_nodes: TrieUpdatesSorted = TrieUpdatesSorted::new();
    let cumulative_trie_updates_prev = match provider.overlay_updates(
        &no_nodes,
        &cumulative_state_revert_prev,
        &cumulative_state_revert_prev,
    ) {
        Ok(u) => u,
        Err(e) => {
            return Err(ProviderError::Other(Box::new(ProviderError::Database(e))));
        },
    };
    let trie_updates = match provider.overlay_updates(
        &cumulative_trie_updates_prev,
        &cumulative_state_revert,
        &individual_state_revert,
    ) {
        Ok(u) => u,
        Err(e) => {
            return Err(ProviderError::Other(Box::new(ProviderError::Database(e))));
        },
    };
    match provider.trie_changesets(&cumulative_trie_updates_prev, &trie_updates) {
        Ok(changesets) => Ok(changesets),
        Err(e) => Err(ProviderError::Other(Box::new(ProviderError::Database(e)))),
    }
}

/// Changesets in the cache, with the number of their block.
#[derive(Debug)]
struct CacheEntry {
    number: u64,
    changesets: TrieUpdatesSorted,
}

impl CacheEntry {
    /// What the entry says.
    spec fn model(self) -> (u64, TrieModel) {
        (self.number, self.changesets.model())
    }
}

/// What is cached: by the hash of a block its number and its changesets.
pub type CacheModel = Map<B256, (u64, TrieModel)>;

/// An entry, seen as what it says.
spec fn as_entry() -> spec_fn(CacheEntry) -> (u64, TrieModel) {
    |entry: CacheEntry| entry.model()
}

/// The map from hashes to what is cached.
spec fn entry_map(items: Seq<(B256, CacheEntry)>) -> CacheModel {
    map_by(items, as_entry())
}

/// Whether each hash stands once, with changesets in order.
spec fn entries_wf(items: Seq<(B256, CacheEntry)>) -> bool {
    &&& forall|i: int| 0 <= i < items.len() ==> (#[trigger] items[i]).1.changesets.wf()
    &&& distinct(items)
}

/// What is left of what is cached when blocks below a number are dropped.
pub open spec fn kept_from(m: CacheModel, number: u64) -> CacheModel {
    Map::new(|h: B256| m.contains_key(h) && m[h].0 >= number, |h: B256| m[h])
}

/// What a cache gives for a block, and what it holds then: what it has, else what is computed,
/// which it then holds too.
pub open spec fn looked_up<P: ChangesetProvider>(
    cache: CacheModel,
    p: &P,
    hash: B256,
    number: u64,
) -> (CacheModel, Result<TrieModel, ProviderError<P::Error>>) {
    if cache.contains_key(hash) {
        (cache, Ok(cache[hash].1))
    } else {
        match block_changesets(p, number) {
            Err(e) => (cache, Err(ProviderError::Other(Box::new(e)))),
            Ok(m) => (cache.insert(hash, (number, m)), Ok(m)),
        }
    }
}

/// Whether the changesets of a block are cached, or can be computed.
pub open spec fn can_look_up<P: ChangesetProvider>(
    cache: CacheModel,
    p: &P,
    hash: B256,
    number: u64,
) -> bool {
    cache.contains_key(hash) || has_successor(p, number)
}

/// Whether the changesets of the last of some blocks are cached, or can be computed, where it has
/// a hash. Those of the others can.
pub open spec fn can_take_down<P: ChangesetProvider>(
    cache: CacheModel,
    p: &P,
    first: u64,
    last: u64,
) -> bool {
    first <= last ==> match p.hash_of(last) {
        Ok(Some(hash)) => can_look_up(cache, p, hash, last),
        _ => true,
    }
}

/// What taking the changesets of the blocks from `number` down to `first` over those taken so far
/// gives, and what the cache holds then.
pub open spec fn taken_down_to<P: ChangesetProvider>(
    cache: CacheModel,
    p: &P,
    first: int,
    number: int,
    so_far: TrieModel,
) -> (CacheModel, Result<TrieModel, ProviderError<P::Error>>)
    decreases number - first + 1,
{
    if number < first {
        (cache, Ok(so_far))
    } else {
        match p.hash_of(number as u64) {
            Err(e) => (cache, Err(ProviderError::Database(e))),
            Ok(None) => (cache, Err(no_hash(number as u64))),
            Ok(Some(hash)) => {
                let (next, r) = looked_up(cache, p, hash, number as u64);
                match r {
                    Err(e) => (next, Err(e)),
                    Ok(m) => taken_down_to(next, p, first, number - 1, over(so_far, m)),
                }
            },
        }
    }
}

/// What takes the trie back over the blocks from `first` to `last`, and what the cache holds then.
pub open spec fn range_reverts<P: ChangesetProvider>(
    cache: CacheModel,
    p: &P,
    first: u64,
    last: u64,
) -> (CacheModel, Result<TrieModel, ProviderError<P::Error>>) {
    match p.tip() {
        Err(e) => (cache, Err(ProviderError::Database(e))),
        Ok(None) => (cache, Err(beyond_tip(first, None))),
        Ok(Some(tip)) => if last > tip {
            (cache, Err(beyond_tip(last, Some(tip))))
        } else {
            taken_down_to(cache, p, first as int, last as int, no_changes())
        },
    }
}

/// A cache of the changesets of blocks, by their hashes. Nothing leaves it unless it is told to.
#[derive(Debug)]
pub struct ChangesetCache {
    entries: Vec<(B256, CacheEntry)>,
}

impl View for ChangesetCache {
    type V = CacheModel;

    closed spec fn view(&self) -> CacheModel {
        entry_map(self.entries@)
    }
}

impl Default for ChangesetCache {
    fn default() -> (r: ChangesetCache)
        ensures
            r.wf(),
            r@ == Map::<B256, (u64, TrieModel)>::empty(),
    {
        ChangesetCache::new()
    }
}

impl ChangesetCache {
    /// Whether each hash stands once, with changesets in order.
    pub closed spec fn wf(self) -> bool {
        entries_wf(self.entries@)
    }

    /// An empty cache.
    pub fn new() -> (r: ChangesetCache)
        ensures
            r.wf(),
            r@ == Map::<B256, (u64, TrieModel)>::empty(),
    {
        ChangesetCache { entries: Vec::new() }
    }

    /// How many blocks have their changesets here.
    pub fn len(&self) -> (n: usize)
        requires
            self.wf(),
        ensures
            self@.dom().finite(),
            n == self@.len(),
    {
        proof {
            lemma_count(self.entries@, as_entry());
        }
        self.entries.len()
    }

    /// The place of a hash.
    fn find(&self, block_hash: &B256) -> (r: Option<usize>)
        requires
            self.wf(),
        ensures
            match r {
                Some(i) => {
                    &&& i < self.entries.len()
                    &&& self.entries@[i as int].0 == *block_hash
                    &&& self@.contains_key(*block_hash)
                    &&& self@[*block_hash] == self.entries@[i as int].1.model()
                    &&& self.entries@[i as int].1.changesets.wf()
                },
                None => !self@.contains_key(*block_hash),
            },
    {
        let mut i: usize = 0;
        while i < self.entries.len()
            invariant
                i <= self.entries.len(),
                self.wf(),
                forall|k: int| 0 <= k < i ==> (#[trigger] self.entries@[k]).0 != *block_hash,
            decreases self.entries.len() - i,
        {
            if self.entries[i].0 == *block_hash {
                proof {
                    lemma_items(self.entries@, as_entry(), i as int);
                    assert(self.entries@[i as int].1.changesets.wf());
                }
                return Some(i);
            }
            i += 1;
        }
        proof {
            lemma_keys(self.entries@, as_entry(), *block_hash);
        }
        None
    }

    /// The changesets of a block, if they are here.
    pub fn get(&self, block_hash: &B256) -> (r: Option<&TrieUpdatesSorted>)
        requires
            self.wf(),
        ensures
            match r {
                Some(c) => self@.contains_key(*block_hash) && c.wf() && c.model()
                    == self@[*block_hash].1,
                None => !self@.contains_key(*block_hash),
            },
    {
        match self.find(block_hash) {
            Some(i) => Some(&self.entries[i].1.changesets),
            None => None,
        }
    }

    /// Keeps the changesets of a block, in the place of any that are here already.
    pub fn insert(&mut self, block_hash: B256, block_number: u64, changesets: TrieUpdatesSorted)
        requires
            old(self).wf(),
            changesets.wf(),
        ensures
            final(self).wf(),
            final(self)@ == old(self)@.insert(block_hash, (block_number, changesets.model())),
    {
        let entry = CacheEntry { number: block_number, changesets };
        let ghost before = self.entries@;
        match self.find(&block_hash) {
            Some(i) => {
                proof {
                    lemma_update(before, as_entry(), i as int, (block_hash, entry));
                }
                self.entries.set(i, (block_hash, entry));
            },
            None => {
                self.entries.push((block_hash, entry));
                proof {
                    lemma_push(before, as_entry(), (block_hash, entry));
                }
            },
        }
    }

    /// Drops the changesets of all blocks with a number below this one. Those of the others stay.
    pub fn evict(&mut self, up_to_block: u64)
        requires
            old(self).wf(),
        ensures
            final(self).wf(),
            final(self)@ == kept_from(old(self)@, up_to_block),
    {
        let ghost all = self@;
        let mut kept: Vec<(B256, CacheEntry)> = Vec::new();
        proof {
            assert(entry_map(kept@).union_prefer_right(kept_from(all, up_to_block)) =~= kept_from(
                all,
                up_to_block,
            ));
        }
        while self.entries.len() > 0
            invariant
                entries_wf(self.entries@),
                entries_wf(kept@),
                entry_map(kept@).union_prefer_right(
                    kept_from(entry_map(self.entries@), up_to_block),
                ) == kept_from(all, up_to_block),
                forall|h: B256| #[trigger]
                    entry_map(kept@).contains_key(h) ==> !entry_map(self.entries@).contains_key(h),
            decreases self.entries.len(),
        {
            let ghost before = self.entries@;
            let ghost held = kept@;
            proof {
                lemma_front(before, as_entry());
                lemma_items(before, as_entry(), before.len() - 1);
            }
            let entry = self.entries.pop().unwrap();
            proof {
                assert(self.entries@ =~= before.drop_last());
            }
            if entry.1.number >= up_to_block {
                kept.push(entry);
                proof {
                    lemma_push(held, as_entry(), entry);
                    assert(entry_map(kept@).union_prefer_right(
                        kept_from(entry_map(self.entries@), up_to_block),
                    ) =~= entry_map(held).union_prefer_right(
                        kept_from(entry_map(before), up_to_block),
                    ));
                }
            } else {
                proof {
                    assert(kept_from(entry_map(self.entries@), up_to_block) =~= kept_from(
                        entry_map(before),
                        up_to_block,
                    ));
                }
            }
        }
        proof {
            assert(entry_map(kept@).union_prefer_right(
                kept_from(entry_map(self.entries@), up_to_block),
            ) =~= entry_map(kept@));
        }
        self.entries = kept;
    }

    /// The changesets of a block: from the cache, else computed, which are then kept.
    pub fn get_or_compute<P: ChangesetProvider>(
        &mut self,
        block_hash: B256,
        block_number: u64,
        provider: &P,
    ) -> (r: Result<&TrieUpdatesSorted, ProviderError<P::Error>>)
        requires
            old(self).wf(),
            can_look_up(old(self)@, provider, block_hash, block_number),
        ensures
            final(self).wf(),
            final(self)@ == looked_up(old(self)@, provider, block_hash, block_number).0,
            match looked_up(old(self)@, provider, block_hash, block_number).1 {
                Ok(m) => r is Ok && r->Ok_0.wf() && r->Ok_0.model() == m,
                Err(e) => r is Err && r->Err_0 == e,
            },
    {
        if self.find(&block_hash).is_none() {
            match compute_block_trie_changesets(provider, block_number) {
                Ok(changesets) => {
                    self.insert(block_hash, block_number, changesets);
                },
                Err(e) => {
                    return Err(ProviderError::Other(Box::new(e)));
                },
            }
        }
        Ok(self.get(&block_hash).unwrap())
    }

    /// What takes the trie back over the blocks from `first` to `last`. The changesets are laid
    /// over one another from the newest to the oldest, so that the oldest count.
    pub fn get_or_compute_range<P: ChangesetProvider>(
        &mut self,
        provider: &P,
        first: u64,
        last: u64,
    ) -> (r: Result<TrieUpdatesSorted, ProviderError<P::Error>>)
        requires
            old(self).wf(),
            can_take_down(old(self)@, provider, first, last),
        ensures
            final(self).wf(),
            final(self)@ == range_reverts(old(self)@, provider, first, last).0,
            match range_reverts(old(self)@, provider, first, last).1 {
                Ok(m) => r is Ok && r->Ok_0.wf() && r->Ok_0.model() == m,
                Err(e) => r is Err && r->Err_0 == e,
            },
    {
        let tip = match provider.finish_checkpoint() {
            Err(e) => {
                return Err(ProviderError::Database(e));
            },
            Ok(None) => {
                return Err(
                    ProviderError::InsufficientChangesets { requested: first, first: 0, last: 0 },
                );
            },
            Ok(Some(tip)) => tip,
        };
        if last > tip {
            return Err(
                ProviderError::InsufficientChangesets { requested: last, first: 0, last: tip },
            );
        }
        let mut accumulated: TrieUpdatesSorted = TrieUpdatesSorted::new();
        let ghost whole = range_reverts(self@, provider, first, last);
        if first > last {
            return Ok(accumulated);
        }
        let mut number: u64 = last;
        loop
            invariant_except_break
                number == last ==> self@ == old(self)@,
                self.wf(),
                accumulated.wf(),
                whole == taken_down_to(
                    self@,
                    provider,
                    first as int,
                    number as int,
                    accumulated.model(),
                ),
            invariant
                first <= number <= last <= tip,
                can_take_down(old(self)@, provider, first, last),
                whole == range_reverts(old(self)@, provider, first, last),
            ensures
                self.wf(),
                accumulated.wf(),
                whole == (self@, Ok::<TrieModel, ProviderError<P::Error>>(accumulated.model())),
            decreases number,
        {
            let hash = match provider.block_hash(number) {
                Err(e) => {
                    return Err(ProviderError::Database(e));
                },
                Ok(None) => {
                    return Err(
                        ProviderError::Other(Box::new(ProviderError::BlockHashNotFound(number))),
                    );
                },
                Ok(Some(hash)) => hash,
            };
            match self.get_or_compute(hash, number, provider) {
                Err(e) => {
                    return Err(e);
                },
                Ok(changesets) => {
                    accumulated.extend_ref_and_sort(changesets);
                },
            }
            if number == first {
                proof {
                    reveal_with_fuel(taken_down_to, 2);
                }
                break;
            }
            number -= 1;
        }
        Ok(accumulated)
    }
}

/// The node of the account trie at a path, where `nodes` lie over those in the database.
pub open spec fn account_node_over<P: ChangesetProvider>(p: &P, nodes: TrieModel, path: Nibbles) -> Result<
    Option<BranchNodeCompact>,
    P::Error,
> {
    if nodes.accounts.contains_key(path) {
        Ok(nodes.accounts[path])
    } else {
        p.account_node_at(path)
    }
}

/// The node of the storage trie of an account at a path, where `nodes` lie over those in the
/// database. Of a trie that was deleted nothing is left in the database.
pub open spec fn storage_node_over<P: ChangesetProvider>(
    p: &P,
    nodes: TrieModel,
    address: B256,
    path: Nibbles,
) -> Result<Option<BranchNodeCompact>, P::Error> {
    if nodes.inner.contains_key(address) && nodes.inner[address].entries.contains_key(path) {
        Ok(nodes.inner[address].entries[path])
    } else if nodes.inner.contains_key(address) && nodes.inner[address].is_deleted {
        Ok(None)
    } else {
        p.storage_node_at(address, path)
    }
}

/// Whether the nodes in `found` are at the paths of `asked`, as they are where `nodes` lie over
/// those in the database.
pub open spec fn are_account_nodes<P: ChangesetProvider>(
    p: &P,
    nodes: TrieModel,
    asked: Map<Nibbles, Option<BranchNodeCompact>>,
    found: Map<Nibbles, Option<BranchNodeCompact>>,
) -> bool {
    &&& found.dom() == asked.dom()
    &&& forall|path: Nibbles| #[trigger]
        found.contains_key(path) ==> account_node_over(p, nodes, path) == Ok::<
            Option<BranchNodeCompact>,
            P::Error,
        >(found[path])
}

/// Whether the nodes in `found` are those of the storage trie of an account at the paths of
/// `asked`, as they are where `nodes` lie over those in the database.
pub open spec fn are_storage_nodes<P: ChangesetProvider>(
    p: &P,
    nodes: TrieModel,
    address: B256,
    asked: Map<Nibbles, Option<BranchNodeCompact>>,
    found: Map<Nibbles, Option<BranchNodeCompact>>,
) -> bool {
    &&& found.dom() == asked.dom()
    &&& forall|path: Nibbles| #[trigger]
        found.contains_key(path) ==> storage_node_over(p, nodes, address, path) == Ok::<
            Option<BranchNodeCompact>,
            P::Error,
        >(found[path])
}

/// Whether `found` holds the nodes at all paths of `asked`, as they are where `nodes` lie over
/// those in the database.
pub open spec fn are_nodes<P: ChangesetProvider>(
    p: &P,
    nodes: TrieModel,
    asked: TrieModel,
    found: TrieModel,
) -> bool {
    &&& are_account_nodes(p, nodes, asked.accounts, found.accounts)
    &&& found.inner.dom() == asked.inner.dom()
    &&& forall|a: B256| #[trigger]
        found.inner.contains_key(a) ==> {
            &&& found.inner[a].is_deleted == asked.inner[a].is_deleted
            &&& are_storage_nodes(p, nodes, a, asked.inner[a].entries, found.inner[a].entries)
        }
}

/// Whether the first of some paths, in their order, at which the lookup of a node fails fails with
/// `e`.
pub open spec fn first_fails<E>(
    asked: Map<Nibbles, Option<BranchNodeCompact>>,
    lookup: spec_fn(Nibbles) -> Result<Option<BranchNodeCompact>, E>,
    e: E,
) -> bool {
    exists|path: Nibbles| #[trigger]
        asked.contains_key(path) && lookup(path) == Err::<Option<BranchNodeCompact>, E>(e) && (
        forall|before: Nibbles| #[trigger]
            asked.contains_key(before) && rank_less(before.rank(), path.rank()) ==> lookup(
                before,
            ) is Ok)
}

/// Whether looking up the nodes at the paths of `asked` fails with `e`. The account trie is asked
/// first, and each trie in the order of the paths. Which storage trie comes first is left open.
pub open spec fn lookup_fails<P: ChangesetProvider>(
    p: &P,
    nodes: TrieModel,
    asked: TrieModel,
    e: P::Error,
) -> bool {
    ||| first_fails(asked.accounts, |path: Nibbles| account_node_over(p, nodes, path), e)
    ||| {
        &&& forall|path: Nibbles| #[trigger]
            asked.accounts.contains_key(path) ==> account_node_over(p, nodes, path) is Ok
        &&& exists|a: B256| #[trigger]
            asked.inner.contains_key(a) && first_fails(
                asked.inner[a].entries,
                |path: Nibbles| storage_node_over(p, nodes, a, path),
                e,
            )
    }
}

/// Where the lookups at the items before one are done, and that at the item fails, it is the first
/// that does.
proof fn lemma_first_fails<E>(
    items: Seq<(Nibbles, Option<BranchNodeCompact>)>,
    i: int,
    found: Map<Nibbles, Option<BranchNodeCompact>>,
    lookup: spec_fn(Nibbles) -> Result<Option<BranchNodeCompact>, E>,
    e: E,
)
    requires
        rising(items),
        0 <= i < items.len(),
        found.dom() == to_map(items.take(i)).dom(),
        forall|path: Nibbles| #[trigger] found.contains_key(path) ==> lookup(path) is Ok,
        lookup(items[i].0) == Err::<Option<BranchNodeCompact>, E>(e),
    ensures
        first_fails(to_map(items), lookup, e),
{
    lemma_map_items(items, i);
    let path = items[i].0;
    assert forall|before: Nibbles| #[trigger]
        to_map(items).contains_key(before) && rank_less(before.rank(), path.rank()) implies lookup(
        before,
    ) is Ok by {
        lemma_map_keys(items, before);
        let n = choose|n: int| 0 <= n < items.len() && (#[trigger] items[n]).0 == before;
        if n > i {
            assert(rank_less(items[i].0.rank(), items[n].0.rank()));
        }
        assert(items.take(i)[n].0 == before);
        lemma_map_keys(items.take(i), before);
        assert(found.contains_key(before));
    }
}

/// The nodes of the account trie at the paths of `asked`.
fn account_nodes<P: ChangesetProvider>(
    provider: &P,
    nodes: &TrieUpdatesSorted,
    asked: &SortedMap<Nibbles, Option<BranchNodeCompact>>,
) -> (r: Result<SortedMap<Nibbles, Option<BranchNodeCompact>>, P::Error>)
    requires
        nodes.wf(),
        asked.wf(),
    ensures
        match r {
            Ok(found) => found.wf() && are_account_nodes(provider, nodes.model(), asked@, found@),
            Err(e) => first_fails(
                asked@,
                |path: Nibbles| account_node_over(provider, nodes.model(), path),
                e,
            ),
        },
{
    let ghost items = asked.listed();
    proof {
        asked.lemma_listed();
    }
    let mut found: SortedMap<Nibbles, Option<BranchNodeCompact>> = SortedMap::new();
    let mut i: usize = 0;
    proof {
        assert(found@.dom() =~= to_map(items.take(0)).dom());
    }
    while i < asked.len()
        invariant
            i <= items.len(),
            items == asked.listed(),
            asked@ == to_map(items),
            rising(items),
            asked.wf(),
            nodes.wf(),
            found.wf(),
            found.listed().len() == i,
            forall|n: int| 0 <= n < i ==> (#[trigger] found.listed()[n]).0 == items[n].0,
            are_account_nodes(provider, nodes.model(), to_map(items.take(i as int)), found@),
        decreases items.len() - i,
    {
        let (path, _) = asked.item(i);
        proof {
            assert(items.take(i + 1).drop_last() =~= items.take(i as int));
            lemma_map_items(items, i as int);
            assert forall|n: int| 0 <= n < found.listed().len() implies
                rank_less(
                (#[trigger] found.listed()[n]).0.rank(),
                path.rank(),
            ) by {
                assert(rank_less(
                    items[n].0.rank(),
                    items[i as int].0.rank(),
                ));
            }
        }
        let node = match nodes.accounts.get(path) {
            Some(node) => node,
            None => match provider.account_node(path) {
                Ok(node) => node,
                Err(e) => {
                    proof {
                        lemma_first_fails(
                            items,
                            i as int,
                            found@,
                            |path: Nibbles| account_node_over(provider, nodes.model(), path),
                            e,
                        );
                    }
                    return Err(e);
                },
            },
        };
        found.push(path, node);
        proof {
            assert(found@.dom() =~= to_map(items.take(i + 1)).dom());
        }
        i += 1;
    }
    proof {
        assert(items.take(i as int) =~= items);
    }
    Ok(found)
}

/// The nodes of the storage trie of an account at the paths of `asked`.
fn storage_nodes<P: ChangesetProvider>(
    provider: &P,
    nodes: &TrieUpdatesSorted,
    address: B256,
    asked: &SortedMap<Nibbles, Option<BranchNodeCompact>>,
) -> (r: Result<SortedMap<Nibbles, Option<BranchNodeCompact>>, P::Error>)
    requires
        nodes.wf(),
        asked.wf(),
    ensures
        match r {
            Ok(found) => found.wf() && are_storage_nodes(
                provider,
                nodes.model(),
                address,
                asked@,
                found@,
            ),
            Err(e) => first_fails(
                asked@,
                |path: Nibbles| storage_node_over(provider, nodes.model(), address, path),
                e,
            ),
        },
{
    let ghost items = asked.listed();
    proof {
        asked.lemma_listed();
    }
    let place = nodes.find_inner(address);
    let mut found: SortedMap<Nibbles, Option<BranchNodeCompact>> = SortedMap::new();
    let mut i: usize = 0;
    proof {
        assert(found@.dom() =~= to_map(items.take(0)).dom());
    }
    while i < asked.len()
        invariant
            i <= items.len(),
            items == asked.listed(),
            asked@ == to_map(items),
            rising(items),
            asked.wf(),
            nodes.wf(),
            place is Some <==> nodes.model().inner.contains_key(address),
            place matches Some(n) ==> n < nodes.inner.len() && nodes.model().inner[address]
                == nodes.inner@[n as int].1.model(),
            found.wf(),
            found.listed().len() == i,
            forall|n: int| 0 <= n < i ==> (#[trigger] found.listed()[n]).0 == items[n].0,
            are_storage_nodes(
                provider,
                nodes.model(),
                address,
                to_map(items.take(i as int)),
                found@,
            ),
        decreases items.len() - i,
    {
        let (path, _) = asked.item(i);
        proof {
            assert(items.take(i + 1).drop_last() =~= items.take(i as int));
            lemma_map_items(items, i as int);
            assert forall|n: int| 0 <= n < found.listed().len() implies
                rank_less(
                (#[trigger] found.listed()[n]).0.rank(),
                path.rank(),
            ) by {
                assert(rank_less(
                    items[n].0.rank(),
                    items[i as int].0.rank(),
                ));
            }
        }
        let overlaid: Option<Option<BranchNodeCompact>> = match place {
            Some(n) => {
                proof {
                    assert(nodes.inner@[n as int].1.wf());
                }
                match nodes.inner[n].1.entries.get(path) {
                    Some(node) => Some(node),
                    None => if nodes.inner[n].1.is_deleted {
                        Some(None)
                    } else {
                        None
                    },
                }
            },
            None => None,
        };
        let node = match overlaid {
            Some(node) => node,
            None => match provider.storage_node(address, path) {
                Ok(node) => node,
                Err(e) => {
                    proof {
                        lemma_first_fails(
                            items,
                            i as int,
                            found@,
                            |path: Nibbles|
                                storage_node_over(provider, nodes.model(), address, path),
                            e,
                        );
                    }
                    return Err(e);
                },
            },
        };
        found.push(path, node);
        proof {
            assert(found@.dom() =~= to_map(items.take(i + 1)).dom());
        }
        i += 1;
    }
    proof {
        assert(items.take(i as int) =~= items);
    }
    Ok(found)
}

/// The nodes at all paths of `asked`, where `nodes` lie over those in the database.
pub fn current_nodes<P: ChangesetProvider>(
    provider: &P,
    nodes: &TrieUpdatesSorted,
    asked: &TrieUpdatesSorted,
) -> (r: Result<TrieUpdatesSorted, P::Error>)
    requires
        nodes.wf(),
        asked.wf(),
    ensures
        match r {
            Ok(found) => found.wf() && are_nodes(
                provider,
                nodes.model(),
                asked.model(),
                found.model(),
            ),
            Err(e) => lookup_fails(provider, nodes.model(), asked.model(), e),
        },
{
    let accounts = match account_nodes(provider, nodes, &asked.accounts) {
        Ok(found) => found,
        Err(e) => {
            return Err(e);
        },
    };
    let mut found: TrieUpdatesSorted = TrieUpdatesSorted::new();
    found.accounts = accounts;
    let ghost items = asked.inner@;
    let mut n: usize = 0;
    proof {
        assert(found.model().inner.dom() =~= inner_map(items.take(0)).dom());
    }
    while n < asked.inner.len()
        invariant
            n <= items.len(),
            items == asked.inner@,
            nodes.wf(),
            asked.wf(),
            found.wf(),
            found.accounts@ == accounts@,
            are_account_nodes(provider, nodes.model(), asked.model().accounts, accounts@),
            found.model().inner.dom() == inner_map(items.take(n as int)).dom(),
            forall|a: B256| #[trigger]
                found.model().inner.contains_key(a) ==> {
                    &&& asked.model().inner.contains_key(a)
                    &&& found.model().inner[a].is_deleted == asked.model().inner[a].is_deleted
                    &&& are_storage_nodes(
                        provider,
                        nodes.model(),
                        a,
                        asked.model().inner[a].entries,
                        found.model().inner[a].entries,
                    )
                },
        decreases items.len() - n,
    {
        let address = asked.inner[n].0;
        proof {
            assert(items.take(n + 1).drop_last() =~= items.take(n as int));
            assert(items[n as int].1.wf());
            lemma_items(items, as_inner(), n as int);
            lemma_keys(items.take(n as int), as_inner(), address);
            if inner_map(items.take(n as int)).contains_key(address) {
                let k = choose|k: int|
                    0 <= k < n && (#[trigger] items.take(n as int)[k]).0 == address;
                assert(items[k].0 != items[n as int].0);
            }
        }
        let entries = match storage_nodes(provider, nodes, address, &asked.inner[n].1.entries) {
            Ok(entries) => entries,
            Err(e) => {
                proof {
                    assert forall|path: Nibbles| #[trigger]
                        asked.model().accounts.contains_key(path) implies account_node_over(
                        provider,
                        nodes.model(),
                        path,
                    ) is Ok by {
                        assert(accounts@.contains_key(path));
                    }
                    assert(asked.model().inner.contains_key(address));
                }
                return Err(e);
            },
        };
        let value = Inner { is_deleted: asked.inner[n].1.is_deleted, entries };
        found.push_inner(address, value);
        proof {
            assert(found.model().inner.dom() =~= inner_map(items.take(n + 1)).dom());
        }
        n += 1;
    }
    proof {
        assert(items.take(n as int) =~= items);
    }
    Ok(found)
}

/// The changesets of a block and what takes the trie back to the state after it, and what the
/// cache holds then.
pub open spec fn block_and_later<P: ChangesetProvider>(
    cache: CacheModel,
    p: &P,
    number: u64,
) -> (CacheModel, Result<(TrieModel, TrieModel), ProviderError<P::Error>>) {
    match p.tip() {
        Err(e) => (cache, Err(ProviderError::Database(e))),
        Ok(tip) => if tip is None || number > tip->Some_0 {
            (cache, Err(beyond_tip(number, tip)))
        } else {
            match p.hash_of(number) {
                Err(e) => (cache, Err(ProviderError::Database(e))),
                Ok(None) => (cache, Err(no_hash(number))),
                Ok(Some(hash)) => {
                    let (next, own) = looked_up(cache, p, hash, number);
                    match own {
                        Err(e) => (next, Err(e)),
                        Ok(changesets) => {
                            let (end, later) = range_reverts(
                                next,
                                p,
                                (number + 1) as u64,
                                tip->Some_0,
                            );
                            match later {
                                Err(e) => (end, Err(e)),
                                Ok(reverts) => (end, Ok((changesets, reverts))),
                            }
                        },
                    }
                },
            }
        },
    }
}

/// Computes the trie nodes that a block changed, as they are after it.
pub fn compute_block_trie_updates<P: ChangesetProvider>(
    cache: &mut ChangesetCache,
    provider: &P,
    block_number: u64,
) -> (r: Result<TrieUpdatesSorted, ProviderError<P::Error>>)
    requires
        old(cache).wf(),
        provider.tip() == Ok::<Option<u64>, P::Error>(Some(u64::MAX)) ==> match provider.hash_of(
            u64::MAX,
        ) {
            Ok(Some(hash)) => block_number < u64::MAX && old(cache)@.contains_key(hash),
            _ => true,
        },
    ensures
        final(cache).wf(),
        final(cache)@ == block_and_later(old(cache)@, provider, block_number).0,
        match block_and_later(old(cache)@, provider, block_number).1 {
            Err(e) => r is Err && r->Err_0 == e,
            Ok((changesets, reverts)) => match r {
                Ok(updates) => updates.wf() && are_nodes(
                    provider,
                    reverts,
                    changesets,
                    updates.model(),
                ),
                Err(e) => e is Database && lookup_fails(
                    provider,
                    reverts,
                    changesets,
                    e->Database_0,
                ),
            },
        },
{
    let tip = match provider.finish_checkpoint() {
        Err(e) => {
            return Err(ProviderError::Database(e));
        },
        Ok(None) => {
            return Err(
                ProviderError::InsufficientChangesets { requested: block_number, first: 0, last: 0 },
            );
        },
        Ok(Some(tip)) => tip,
    };
    if block_number > tip {
        return Err(
            ProviderError::InsufficientChangesets { requested: block_number, first: 0, last: tip },
        );
    }
    let block_hash = match provider.block_hash(block_number) {
        Err(e) => {
            return Err(ProviderError::Database(e));
        },
        Ok(None) => {
            return Err(
                ProviderError::Other(Box::new(ProviderError::BlockHashNotFound(block_number))),
            );
        },
        Ok(Some(hash)) => hash,
    };
    let changesets = match cache.get_or_compute(block_hash, block_number, provider) {
        Ok(changesets) => changesets.copy(),
        Err(e) => {
            return Err(e);
        },
    };
    let reverts = match cache.get_or_compute_range(provider, block_number + 1, tip) {
        Ok(reverts) => reverts,
        Err(e) => {
            return Err(e);
        },
    };
    match current_nodes(provider, &reverts, &changesets) {
        Ok(updates) => Ok(updates),
        Err(e) => Err(ProviderError::Database(e)),
    }
}

/// Changesets laid over one another, the first at the bottom.
pub open spec fn stacked(changesets: Seq<TrieModel>) -> TrieModel
    decreases changesets.len(),
{
    if changesets.len() == 0 {
        no_changes()
    } else {
        over(stacked(changesets.drop_last()), changesets.last())
    }
}

/// Of changesets laid over one another, the last one that has a node of the account trie at a path
/// counts there. So where they go from the newest block to the oldest, the oldest counts.
pub proof fn lemma_last_counts(changesets: Seq<TrieModel>, path: Nibbles, i: int)
    requires
        0 <= i < changesets.len(),
        changesets[i].accounts.contains_key(path),
        forall|j: int|
            i < j < changesets.len() ==> !(#[trigger] changesets[j]).accounts.contains_key(path),
    ensures
        stacked(changesets).accounts.contains_key(path),
        stacked(changesets).accounts[path] == changesets[i].accounts[path],
    decreases changesets.len(),
{
    let last = changesets.len() - 1;
    if i < last {
        let front = changesets.drop_last();
        assert forall|j: int| i < j < front.len() implies !(
        #[trigger] front[j]).accounts.contains_key(path) by {
            assert(!changesets[j].accounts.contains_key(path));
        }
        lemma_last_counts(front, path, i);
        assert(!changesets[last].accounts.contains_key(path));
    }
}

/// Of changesets laid over one another, the last one that has a node of a storage trie at a path
/// counts there, unless a later one has the whole trie deleted.
pub proof fn lemma_last_storage_counts(
    changesets: Seq<TrieModel>,
    address: B256,
    path: Nibbles,
    i: int,
)
    requires
        0 <= i < changesets.len(),
        changesets[i].inner.contains_key(address),
        changesets[i].inner[address].entries.contains_key(path),
        forall|j: int|
            i < j < changesets.len() && (#[trigger] changesets[j]).inner.contains_key(address)
                ==> !changesets[j].inner[address].is_deleted
                && !changesets[j].inner[address].entries.contains_key(path),
    ensures
        stacked(changesets).inner.contains_key(address),
        stacked(changesets).inner[address].entries.contains_key(path),
        stacked(changesets).inner[address].entries[path]
            == changesets[i].inner[address].entries[path],
    decreases changesets.len(),
{
    let last = changesets.len() - 1;
    if i < last {
        let front = changesets.drop_last();
        assert forall|j: int|
            i < j < front.len() && (#[trigger] front[j]).inner.contains_key(
                address,
            ) implies !front[j].inner[address].is_deleted
            && !front[j].inner[address].entries.contains_key(path) by {
            assert(changesets[j].inner.contains_key(address));
        }
        lemma_last_storage_counts(front, address, path, i);
        assert(changesets[last] == changesets.last());
    }
}

/// The reverts of a range of blocks that are all cached are their changesets laid over one
/// another from the newest to the oldest, and the cache stays as it is.
pub proof fn lemma_cached_range<P: ChangesetProvider>(
    cache: CacheModel,
    p: &P,
    first: int,
    number: int,
    newer: Seq<TrieModel>,
    hashes: spec_fn(int) -> B256,
)
    requires
        0 <= first <= number + 1,
        number <= u64::MAX,
        forall|n: int|
            first <= n <= number ==> p.hash_of(#[trigger] (n as u64)) == Ok::<
                Option<B256>,
                P::Error,
            >(Some(hashes(n))) && cache.contains_key(hashes(n)),
    ensures
        taken_down_to(cache, p, first, number, stacked(newer)) == (
            cache,
            Ok::<TrieModel, ProviderError<P::Error>>(
                stacked(
                    newer + Seq::new(
                        (number - first + 1) as nat,
                        |k: int| cache[hashes(number - k)].1,
                    ),
                ),
            ),
        ),
    decreases number - first + 1,
{
    let older = Seq::new((number - first + 1) as nat, |k: int| cache[hashes(number - k)].1);
    if number < first {
        assert(newer + older =~= newer);
    } else {
        assert(p.hash_of(number as u64) == Ok::<Option<B256>, P::Error>(Some(hashes(number))));
        let next = newer.push(cache[hashes(number)].1);
        assert(next.drop_last() =~= newer);
        let rest = Seq::new((number - first) as nat, |k: int| cache[hashes(number - 1 - k)].1);
        assert(newer + older =~= next + rest);
        lemma_cached_range(cache, p, first, number - 1, next, hashes);
        assert(Seq::new((number - 1 - first + 1) as nat, |k: int| cache[hashes(number - 1 - k)].1)
            =~= rest);
    }
}

/// What was put in comes out, until the blocks below a number above its own are dropped.
pub proof fn lemma_kept_until_evicted(
    cache: CacheModel,
    hash: B256,
    number: u64,
    changesets: TrieModel,
    up_to: u64,
)
    ensures
        cache.insert(hash, (number, changesets))[hash] == (number, changesets),
        kept_from(cache.insert(hash, (number, changesets)), up_to).contains_key(hash) <==> number
            >= up_to,
        forall|h: B256| #[trigger]
            kept_from(cache, up_to).contains_key(h) ==> kept_from(cache, up_to)[h] == cache[h],
{
}

} // verus!
