use vstd::prelude::*;
use crate::primitives::{B256, U256};
use crate::sorted_map::Nibbles;
use crate::trie::changesets::{
    are_nodes, block_and_later, block_changesets, looked_up, range_reverts, taken_down_to,
    CacheModel, ChangesetProvider, ProviderError,
};
use crate::trie::updates::{
    no_changes, over, Account, BranchNodeCompact, LayeredModel, StateModel, TrieModel,
};

verus! {

/// All that there is, at every key: accounts or nodes, and what belongs to accounts.
#[verifier::ext_equal]
#[verifier::reject_recursive_types(K)]
pub ghost struct Whole<K, A, S> {
    pub accounts: spec_fn(K) -> A,
    pub inner: spec_fn(B256, K) -> S,
}

/// The accounts and the storage of a chain at some block.
pub type WholeState = Whole<B256, Option<Account>, U256>;

/// The nodes of the tries of a chain at some block.
pub type WholeTrie = Whole<Nibbles, Option<BranchNodeCompact>, Option<BranchNodeCompact>>;

/// All that there is once changes are laid over it. What belonged to an account that was deleted
/// is `gone`.
pub open spec fn laid<K, A, S>(
    changes: LayeredModel<K, A, S>,
    base: Whole<K, A, S>,
    gone: S,
) -> Whole<K, A, S> {
    Whole {
        accounts: |k: K|
            if changes.accounts.contains_key(k) {
                changes.accounts[k]
            } else {
                (base.accounts)(k)
            },
        inner: |a: B256, k: K|
            if changes.inner.contains_key(a) && changes.inner[a].entries.contains_key(k) {
                changes.inner[a].entries[k]
            } else if changes.inner.contains_key(a) && changes.inner[a].is_deleted {
                gone
            } else {
                (base.inner)(a, k)
            },
    }
}

/// The trie once changes of nodes are laid over it.
pub open spec fn laid_nodes(changes: TrieModel, base: WholeTrie) -> WholeTrie {
    laid(changes, base, None)
}

/// The state once changes of it are laid over it.
pub open spec fn laid_state(changes: StateModel, base: WholeState) -> WholeState {
    laid(changes, base, U256 { hi: 0, lo: 0 })
}

/// Changes laid over changes do to everything what the lower do, and then the upper.
pub proof fn lemma_over_is_one_after_the_other<K, A, S>(
    lower: LayeredModel<K, A, S>,
    upper: LayeredModel<K, A, S>,
    base: Whole<K, A, S>,
    gone: S,
)
    ensures
        laid(over(lower, upper), base, gone) == laid(upper, laid(lower, base, gone), gone),
        laid(no_changes(), base, gone) == base,
{
    let both = laid(over(lower, upper), base, gone);
    let steps = laid(upper, laid(lower, base, gone), gone);
    assert(both.accounts =~= steps.accounts);
    assert(both.inner =~= steps.inner);
    assert(both =~= steps);
    let none = laid(no_changes(), base, gone);
    assert(none.accounts =~= base.accounts);
    assert(none.inner =~= base.inner);
    assert(none =~= base);
}

/// Whether two states differ at most where changes name something.
pub open spec fn differ_within(a: WholeState, b: WholeState, changes: StateModel) -> bool {
    &&& forall|k: B256|
        !changes.accounts.contains_key(k) ==> #[trigger] (a.accounts)(k) == (b.accounts)(k)
    &&& forall|address: B256, k: B256|
        !(changes.inner.contains_key(address) && (changes.inner[address].is_deleted
            || changes.inner[address].entries.contains_key(k))) ==> #[trigger] (a.inner)(address, k)
            == (b.inner)(address, k)
}

/// What a chain was: its state after each block, and the trie of a state.
pub ghost struct History {
    pub states: spec_fn(int) -> WholeState,
    pub trie_of: spec_fn(WholeState) -> WholeTrie,
    pub tip: u64,
}

impl History {
    /// The state after a block.
    pub open spec fn state(self, number: int) -> WholeState {
        (self.states)(number)
    }

    /// The trie after a block.
    pub open spec fn trie(self, number: int) -> WholeTrie {
        (self.trie_of)((self.states)(number))
    }
}

/// Whether a database at the tip of a chain says what is so: it has the nodes of the last trie, its
/// reverts take a state back, the nodes that it computes are those of the trie of a state, and the
/// old nodes that it looks up are those of the trie that it was told of.
pub open spec fn tells<P: ChangesetProvider>(p: &P, h: History) -> bool {
    &&& p.tip() == Ok::<Option<u64>, P::Error>(Some(h.tip))
    &&& forall|path: Nibbles| #[trigger]
        p.account_node_at(path) matches Ok(node) ==> node == (h.trie(h.tip as int).accounts)(path)
    &&& forall|a: B256, path: Nibbles| #[trigger]
        p.storage_node_at(a, path) matches Ok(node) ==> node == (h.trie(h.tip as int).inner)(a, path)
    &&& forall|first: u64, last: u64| #[trigger]
        p.reverts(first, Some(last)) matches Ok(m) ==> first <= last <= h.tip ==> laid_state(
            m,
            h.state(last as int),
        ) == h.state(first - 1)
    &&& forall|first: u64| #[trigger]
        p.reverts(first, None) matches Ok(m) ==> first <= h.tip + 1 ==> laid_state(
            m,
            h.state(h.tip as int),
        ) == h.state(first - 1)
    &&& forall|nodes: TrieModel, state: StateModel, changed: StateModel, from: WholeState|
        #![trigger p.overlaid(nodes, state, changed), (h.trie_of)(from)]
        p.overlaid(nodes, state, changed) matches Ok(updates) ==> laid_nodes(
            nodes,
            h.trie(h.tip as int),
        ) == (h.trie_of)(from) && differ_within(
            from,
            laid_state(state, h.state(h.tip as int)),
            changed,
        ) ==> laid_nodes(updates, (h.trie_of)(from)) == (h.trie_of)(
            laid_state(state, h.state(h.tip as int)),
        )
    &&& forall|nodes: TrieModel, updates: TrieModel| #[trigger]
        p.replaced(nodes, updates) matches Ok(old) ==> holds_old_nodes(
            laid_nodes(nodes, h.trie(h.tip as int)),
            updates,
            old,
        )
}

/// Whether `old` has the nodes that `updates` change as they are in `trie`, all of them and no
/// others that would count.
pub open spec fn holds_old_nodes(trie: WholeTrie, updates: TrieModel, old: TrieModel) -> bool {
    let new = laid_nodes(updates, trie);
    &&& forall|path: Nibbles|
        (#[trigger] old.accounts.contains_key(path) ==> old.accounts[path] == (trie.accounts)(path))
            && (!old.accounts.contains_key(path) ==> (new.accounts)(path) == (trie.accounts)(path))
    &&& forall|a: B256, path: Nibbles|
        #![trigger (trie.inner)(a, path)]
        if old.inner.contains_key(a) && old.inner[a].entries.contains_key(path) {
            old.inner[a].entries[path] == (trie.inner)(a, path)
        } else if old.inner.contains_key(a) && old.inner[a].is_deleted {
            (trie.inner)(a, path) is None
        } else {
            (new.inner)(a, path) == (trie.inner)(a, path)
        }
}

/// The changesets of a block hold the trie nodes that it changed as they were before it: each node
/// in them is that of the trie after the block before, and laid over the trie after the block they
/// give the trie after the block before.
pub proof fn lemma_changesets_take_a_block_back<P: ChangesetProvider>(p: &P, h: History, number: u64)
    requires
        tells(p, h),
        number <= h.tip,
        number < u64::MAX,
        block_changesets(p, number) is Ok,
    ensures
        ({
            let changesets = block_changesets(p, number)->Ok_0;
            let before = h.trie(number - 1);
            &&& forall|path: Nibbles| #[trigger]
                changesets.accounts.contains_key(path) ==> changesets.accounts[path]
                    == (before.accounts)(path)
            &&& forall|a: B256, path: Nibbles|
                changesets.inner.contains_key(a) && #[trigger] changesets.inner[a].entries.contains_key(
                    path,
                ) ==> changesets.inner[a].entries[path] == (before.inner)(a, path)
            &&& laid_nodes(changesets, h.trie(number as int)) == before
        }),
{
    let tip = h.tip as int;
    let own = p.reverts(number, Some(number))->Ok_0;
    let after = p.reverts((number + 1) as u64, None)->Ok_0;
    let before = over(after, own);
    let zero = U256 { hi: 0, lo: 0 };
    assert(laid_state(own, h.state(number as int)) == h.state(number - 1));
    assert(laid_state(after, h.state(tip)) == h.state(number as int));
    lemma_over_is_one_after_the_other(after, own, h.state(tip), zero);
    assert(laid_state(before, h.state(tip)) == h.state(number - 1));
    // The nodes of the trie before the block.
    let nodes = p.overlaid(no_changes(), before, before)->Ok_0;
    lemma_over_is_one_after_the_other(
        no_changes::<Nibbles, Option<BranchNodeCompact>, Option<BranchNodeCompact>>(),
        no_changes(),
        h.trie(tip),
        None,
    );
    assert(laid_nodes(no_changes(), h.trie(tip)) == (h.trie_of)(h.state(tip)));
    assert(differ_within(h.state(tip), laid_state(before, h.state(tip)), before));
    assert(laid_nodes(nodes, h.trie(tip)) == h.trie(number - 1));
    // The nodes that the block changes.
    let updates = p.overlaid(nodes, after, own)->Ok_0;
    assert(differ_within(h.state(number - 1), h.state(number as int), own)) by {
        let back = laid_state(own, h.state(number as int));
        assert forall|k: B256| !own.accounts.contains_key(k) implies #[trigger] (h.state(
            number - 1,
        ).accounts)(k) == (h.state(number as int).accounts)(k) by {
            assert((back.accounts)(k) == (h.state(number as int).accounts)(k));
        }
        assert forall|a: B256, k: B256|
            !(own.inner.contains_key(a) && (own.inner[a].is_deleted
                || own.inner[a].entries.contains_key(k))) implies #[trigger] (h.state(
            number - 1,
        ).inner)(a, k) == (h.state(number as int).inner)(a, k) by {
            assert((back.inner)(a, k) == (h.state(number as int).inner)(a, k));
        }
    }
    assert(laid_nodes(updates, (h.trie_of)(h.state(number - 1))) == h.trie(number as int));
    let old = p.replaced(nodes, updates)->Ok_0;
    let trie = h.trie(number - 1);
    let new = h.trie(number as int);
    assert(holds_old_nodes(trie, updates, old));
    assert(old == block_changesets(p, number)->Ok_0);
    assert forall|a: B256, path: Nibbles|
        old.inner.contains_key(a) && #[trigger] old.inner[a].entries.contains_key(
            path,
        ) implies old.inner[a].entries[path] == (trie.inner)(a, path) by {}
    let back = laid_nodes(old, new);
    assert forall|path: Nibbles| #[trigger] (back.accounts)(path) == (trie.accounts)(path) by {
        assert(old.accounts.contains_key(path) || !old.accounts.contains_key(path));
    }
    assert forall|a: B256, path: Nibbles| #[trigger] (back.inner)(a, path) == (trie.inner)(a, path) by {
    }
    assert(back.accounts =~= trie.accounts);
    assert(back.inner =~= trie.inner);
    assert(back =~= trie);
}

/// Whether a database answers whatever computing changesets asks of it.
pub open spec fn answers<P: ChangesetProvider>(p: &P) -> bool {
    &&& forall|first: u64, last: Option<u64>| (#[trigger] p.reverts(first, last)) is Ok
    &&& forall|nodes: TrieModel, state: StateModel, changed: StateModel|
        (#[trigger] p.overlaid(nodes, state, changed)) is Ok
    &&& forall|nodes: TrieModel, updates: TrieModel| (#[trigger] p.replaced(nodes, updates)) is Ok
}

/// A block up to the tip has changesets where the database answers, and a block behind it has none.
pub proof fn lemma_blocks_up_to_the_tip_have_changesets<P: ChangesetProvider>(p: &P, number: u64)
    ensures
        p.tip() matches Ok(Some(tip)) ==> {
            &&& number <= tip && answers(p) ==> block_changesets(p, number) is Ok
            &&& number > tip ==> block_changesets(p, number) == Err::<
                TrieModel,
                ProviderError<P::Error>,
            >(ProviderError::InsufficientChangesets { requested: number, first: 0, last: tip })
        },
        p.tip() == Ok::<Option<u64>, P::Error>(None) ==> block_changesets(p, number) == Err::<
            TrieModel,
            ProviderError<P::Error>,
        >(ProviderError::InsufficientChangesets { requested: number, first: 0, last: 0 }),
        p.tip() matches Err(e) ==> block_changesets(p, number) == Err::<
            TrieModel,
            ProviderError<P::Error>,
        >(ProviderError::Database(e)),
{
}

/// Whether some changesets are those of a block: those in the cache, or those computed where there
/// are none.
pub open spec fn are_of_block<P: ChangesetProvider>(
    cache: CacheModel,
    p: &P,
    hash: B256,
    number: u64,
    changesets: TrieModel,
) -> bool {
    if cache.contains_key(hash) {
        cache[hash].1 == changesets
    } else {
        block_changesets(p, number) == Ok::<TrieModel, ProviderError<P::Error>>(changesets)
    }
}

/// Whether the blocks from `first` to `last` have these hashes, all different, and these changesets,
/// cached or computed.
pub open spec fn are_of_range<P: ChangesetProvider>(
    cache: CacheModel,
    p: &P,
    first: int,
    last: int,
    hashes: spec_fn(int) -> B256,
    sets: spec_fn(int) -> TrieModel,
) -> bool {
    &&& 0 <= first
    &&& last <= u64::MAX
    &&& forall|n: int|
        first <= n <= last ==> p.hash_of(n as u64) == Ok::<Option<B256>, P::Error>(
            Some(#[trigger] hashes(n)),
        ) && are_of_block(cache, p, hashes(n), n as u64, sets(n))
    &&& forall|n: int, m: int|
        first <= n < m <= last ==> #[trigger] hashes(n) != #[trigger] hashes(m)
}

/// A trie taken back block by block, from the newest to the oldest.
pub open spec fn taken_back(
    sets: spec_fn(int) -> TrieModel,
    first: int,
    last: int,
    trie: WholeTrie,
) -> WholeTrie
    decreases last - first + 1,
{
    if first > last {
        trie
    } else {
        laid_nodes(sets(first), taken_back(sets, first + 1, last, trie))
    }
}

/// Changesets laid over others, from the newest to the oldest.
spec fn folded(
    sets: spec_fn(int) -> TrieModel,
    first: int,
    last: int,
    so_far: TrieModel,
) -> TrieModel
    decreases last - first + 1,
{
    if first > last {
        so_far
    } else {
        folded(sets, first, last - 1, over(so_far, sets(last)))
    }
}

/// Taking a trie back over blocks begins with the newest.
proof fn lemma_taken_back_last(
    sets: spec_fn(int) -> TrieModel,
    first: int,
    last: int,
    trie: WholeTrie,
)
    requires
        first <= last,
    ensures
        taken_back(sets, first, last, trie) == taken_back(
            sets,
            first,
            last - 1,
            laid_nodes(sets(last), trie),
        ),
    decreases last - first,
{
    if first < last {
        lemma_taken_back_last(sets, first + 1, last, trie);
    } else {
        assert(taken_back(sets, first + 1, last, trie) == trie);
        assert(taken_back(sets, first, last - 1, laid_nodes(sets(last), trie)) == laid_nodes(
            sets(last),
            trie,
        ));
    }
}

/// Changesets laid over one another take a trie back as they do block by block.
proof fn lemma_folded(
    sets: spec_fn(int) -> TrieModel,
    first: int,
    last: int,
    so_far: TrieModel,
    trie: WholeTrie,
)
    ensures
        laid_nodes(folded(sets, first, last, so_far), trie) == taken_back(
            sets,
            first,
            last,
            laid_nodes(so_far, trie),
        ),
    decreases last - first + 1,
{
    if first <= last {
        lemma_folded(sets, first, last - 1, over(so_far, sets(last)), trie);
        lemma_over_is_one_after_the_other(so_far, sets(last), trie, None);
        lemma_taken_back_last(sets, first, last, laid_nodes(so_far, trie));
    }
}

/// Where no block has a node at a path, what was there before counts.
proof fn lemma_folded_without(
    sets: spec_fn(int) -> TrieModel,
    first: int,
    last: int,
    so_far: TrieModel,
    path: Nibbles,
)
    requires
        forall|m: int| first <= m <= last ==> !(#[trigger] sets(m)).accounts.contains_key(path),
    ensures
        ({
            let all = folded(sets, first, last, so_far);
            &&& all.accounts.contains_key(path) == so_far.accounts.contains_key(path)
            &&& so_far.accounts.contains_key(path) ==> all.accounts[path] == so_far.accounts[path]
        }),
    decreases last - first + 1,
{
    if first <= last {
        assert(!sets(last).accounts.contains_key(path));
        lemma_folded_without(sets, first, last - 1, over(so_far, sets(last)), path);
    }
}

/// Of the blocks that have a node at a path the oldest counts.
proof fn lemma_folded_oldest(
    sets: spec_fn(int) -> TrieModel,
    first: int,
    last: int,
    so_far: TrieModel,
    path: Nibbles,
    n: int,
)
    requires
        first <= n <= last,
        sets(n).accounts.contains_key(path),
        forall|m: int| first <= m < n ==> !(#[trigger] sets(m)).accounts.contains_key(path),
    ensures
        ({
            let all = folded(sets, first, last, so_far);
            &&& all.accounts.contains_key(path)
            &&& all.accounts[path] == sets(n).accounts[path]
        }),
    decreases last - first + 1,
{
    if n < last {
        lemma_folded_oldest(sets, first, last - 1, over(so_far, sets(last)), path, n);
    } else {
        lemma_folded_without(sets, first, last - 1, over(so_far, sets(last)), path);
    }
}

/// What the blocks of a range come to, and what is cached then.
proof fn lemma_taken_down<P: ChangesetProvider>(
    cache: CacheModel,
    p: &P,
    first: int,
    last: int,
    so_far: TrieModel,
    hashes: spec_fn(int) -> B256,
    sets: spec_fn(int) -> TrieModel,
)
    requires
        are_of_range(cache, p, first, last, hashes, sets),
    ensures
        ({
            let (end, r) = taken_down_to(cache, p, first, last, so_far);
            &&& r == Ok::<TrieModel, ProviderError<P::Error>>(folded(sets, first, last, so_far))
            &&& forall|h: B256| #[trigger]
                end.contains_key(h) <==> cache.contains_key(h) || exists|n: int|
                    first <= n <= last && #[trigger] hashes(n) == h
            &&& forall|h: B256| #[trigger] cache.contains_key(h) ==> end[h] == cache[h]
            &&& forall|n: int|
                first <= n <= last && !cache.contains_key(#[trigger] hashes(n)) ==> end[hashes(n)]
                    == (n as u64, sets(n))
        }),
    decreases last - first + 1,
{
    if first <= last {
        let hash = hashes(last);
        assert(p.hash_of(last as u64) == Ok::<Option<B256>, P::Error>(Some(hash)));
        let next = looked_up(cache, p, hash, last as u64).0;
        assert forall|n: int| first <= n <= last - 1 implies p.hash_of(n as u64) == Ok::<
            Option<B256>,
            P::Error,
        >(Some(#[trigger] hashes(n))) && are_of_block(next, p, hashes(n), n as u64, sets(n)) by {
            assert(are_of_block(cache, p, hashes(n), n as u64, sets(n)));
            assert(hashes(n) != hash);
        }
        lemma_taken_down(next, p, first, last - 1, over(so_far, sets(last)), hashes, sets);
        let end = taken_down_to(cache, p, first, last, so_far).0;
        assert(end == taken_down_to(next, p, first, last - 1, over(so_far, sets(last))).0);
        assert(next.contains_key(hash));
        assert forall|h: B256| #[trigger]
            end.contains_key(h) implies cache.contains_key(h) || exists|n: int|
            first <= n <= last && #[trigger] hashes(n) == h by {
            if !next.contains_key(h) {
                let n = choose|n: int| first <= n <= last - 1 && #[trigger] hashes(n) == h;
                assert(hashes(n) == h);
            } else if !cache.contains_key(h) {
                assert(hashes(last) == h);
            }
        }
        assert forall|n: int| first <= n <= last implies end.contains_key(#[trigger] hashes(n)) by {
            if n == last {
                assert(next.contains_key(hashes(n)));
            }
        }
        assert forall|h: B256| #[trigger] cache.contains_key(h) implies end[h] == cache[h] by {
            assert(next.contains_key(h));
        }
        assert forall|n: int|
            first <= n <= last && !cache.contains_key(#[trigger] hashes(n)) implies end[hashes(n)]
            == (n as u64, sets(n)) by {
            if n == last {
                assert(next.contains_key(hashes(n)));
            } else {
                assert(hashes(n) != hash);
                assert(!next.contains_key(hashes(n)));
            }
        }
    }
}

/// The reverts of a range take any trie back as its blocks do, one after the other from the newest
/// to the oldest, whether their changesets were cached or computed. So where several blocks have a
/// node at a path the oldest counts. What was computed is cached then, and nothing else changes.
pub proof fn lemma_ranges_take_blocks_back<P: ChangesetProvider>(
    cache: CacheModel,
    p: &P,
    first: u64,
    last: u64,
    hashes: spec_fn(int) -> B256,
    sets: spec_fn(int) -> TrieModel,
)
    requires
        p.tip() matches Ok(Some(tip)) && last <= tip,
        are_of_range(cache, p, first as int, last as int, hashes, sets),
    ensures
        range_reverts(cache, p, first, last).1 is Ok,
        ({
            let (end, r) = range_reverts(cache, p, first, last);
            let reverts = r->Ok_0;
            &&& forall|trie: WholeTrie| #[trigger]
                laid_nodes(reverts, trie) == taken_back(sets, first as int, last as int, trie)
            &&& forall|path: Nibbles, n: int|
                #![trigger sets(n).accounts.contains_key(path)]
                first <= n <= last && sets(n).accounts.contains_key(path) && (forall|m: int|
                    first <= m < n ==> !(#[trigger] sets(m)).accounts.contains_key(path)) ==> {
                    &&& reverts.accounts.contains_key(path)
                    &&& reverts.accounts[path] == sets(n).accounts[path]
                }
            &&& forall|path: Nibbles| #[trigger]
                reverts.accounts.contains_key(path) ==> exists|n: int|
                    first <= n <= last && (#[trigger] sets(n)).accounts.contains_key(path)
            &&& forall|h: B256| #[trigger]
                end.contains_key(h) <==> cache.contains_key(h) || exists|n: int|
                    first <= n <= last && #[trigger] hashes(n) == h
            &&& forall|h: B256| #[trigger] cache.contains_key(h) ==> end[h] == cache[h]
            &&& forall|n: int|
                first <= n <= last && !cache.contains_key(#[trigger] hashes(n)) ==> end[hashes(n)]
                    == (n as u64, sets(n))
        }),
{
    let nothing: TrieModel = no_changes();
    lemma_taken_down(cache, p, first as int, last as int, nothing, hashes, sets);
    let reverts = range_reverts(cache, p, first, last).1->Ok_0;
    assert forall|trie: WholeTrie| #[trigger] laid_nodes(reverts, trie) == taken_back(
        sets,
        first as int,
        last as int,
        trie,
    ) by {
        lemma_folded(sets, first as int, last as int, nothing, trie);
        lemma_over_is_one_after_the_other(nothing, nothing, trie, None);
    }
    assert forall|path: Nibbles, n: int|
        #![trigger sets(n).accounts.contains_key(path)]
        first <= n <= last && sets(n).accounts.contains_key(path) && (forall|m: int|
            first <= m < n ==> !(#[trigger] sets(m)).accounts.contains_key(
                path,
            )) implies reverts.accounts.contains_key(path) && reverts.accounts[path] == sets(
        n,
    ).accounts[path] by {
        lemma_folded_oldest(sets, first as int, last as int, nothing, path, n);
    }
    assert forall|path: Nibbles| #[trigger] reverts.accounts.contains_key(path) implies exists|n: int|
        first <= n <= last && (#[trigger] sets(n)).accounts.contains_key(path) by {
        if forall|n: int| first <= n <= last ==> !(#[trigger] sets(n)).accounts.contains_key(path) {
            lemma_folded_without(sets, first as int, last as int, nothing, path);
        }
    }
}

/// The reverts of a range do not depend on which of its blocks were cached.
pub proof fn lemma_ranges_do_not_depend_on_the_cache<P: ChangesetProvider>(
    one: CacheModel,
    other: CacheModel,
    p: &P,
    first: u64,
    last: u64,
    hashes: spec_fn(int) -> B256,
    sets: spec_fn(int) -> TrieModel,
)
    requires
        p.tip() matches Ok(Some(tip)) && last <= tip,
        are_of_range(one, p, first as int, last as int, hashes, sets),
        are_of_range(other, p, first as int, last as int, hashes, sets),
    ensures
        range_reverts(one, p, first, last).1 == range_reverts(other, p, first, last).1,
{
    lemma_taken_down(one, p, first as int, last as int, no_changes(), hashes, sets);
    lemma_taken_down(other, p, first as int, last as int, no_changes(), hashes, sets);
}

/// Blocks that each take the trie of a chain back take it back together.
proof fn lemma_chain_back(
    h: History,
    sets: spec_fn(int) -> TrieModel,
    first: int,
    last: int,
)
    requires
        first <= last + 1,
        forall|n: int|
            first <= n <= last ==> laid_nodes(#[trigger] sets(n), h.trie(n)) == h.trie(n - 1),
    ensures
        taken_back(sets, first, last, h.trie(last)) == h.trie(first - 1),
    decreases last - first + 1,
{
    if first <= last {
        lemma_chain_back(h, sets, first + 1, last);
        assert(laid_nodes(sets(first), h.trie(first)) == h.trie(first - 1));
    }
}

/// Whether what is cached of the blocks from `first` to `last` takes the trie of the chain back over
/// each of them.
pub open spec fn is_true_cache(
    cache: CacheModel,
    h: History,
    first: int,
    last: int,
    hashes: spec_fn(int) -> B256,
) -> bool {
    forall|n: int|
        first <= n <= last && cache.contains_key(#[trigger] hashes(n)) ==> laid_nodes(
            cache[hashes(n)].1,
            h.trie(n),
        ) == h.trie(n - 1)
}

/// The changesets of each block, cached or computed, take the trie of the chain back over it.
proof fn lemma_sets_are_true<P: ChangesetProvider>(
    cache: CacheModel,
    p: &P,
    h: History,
    first: int,
    last: int,
    hashes: spec_fn(int) -> B256,
    sets: spec_fn(int) -> TrieModel,
)
    requires
        tells(p, h),
        last <= h.tip,
        last < u64::MAX || last < first,
        are_of_range(cache, p, first, last, hashes, sets),
        is_true_cache(cache, h, first, last, hashes),
    ensures
        forall|n: int|
            first <= n <= last ==> laid_nodes(#[trigger] sets(n), h.trie(n)) == h.trie(n - 1),
{
    assert forall|n: int| first <= n <= last implies laid_nodes(#[trigger] sets(n), h.trie(n))
        == h.trie(n - 1) by {
        assert(are_of_block(cache, p, hashes(n), n as u64, sets(n)));
        if !cache.contains_key(hashes(n)) {
            lemma_changesets_take_a_block_back(p, h, n as u64);
        }
    }
}

/// The reverts of a range take the trie after its last block back to the trie before its first.
pub proof fn lemma_ranges_take_the_chain_back<P: ChangesetProvider>(
    cache: CacheModel,
    p: &P,
    h: History,
    first: u64,
    last: u64,
    hashes: spec_fn(int) -> B256,
    sets: spec_fn(int) -> TrieModel,
)
    requires
        tells(p, h),
        first <= last + 1,
        last <= h.tip,
        last < u64::MAX || last < first,
        are_of_range(cache, p, first as int, last as int, hashes, sets),
        is_true_cache(cache, h, first as int, last as int, hashes),
    ensures
        range_reverts(cache, p, first, last).1 is Ok,
        laid_nodes(range_reverts(cache, p, first, last).1->Ok_0, h.trie(last as int)) == h.trie(
            first - 1,
        ),
{
    lemma_ranges_take_blocks_back(cache, p, first, last, hashes, sets);
    lemma_sets_are_true(cache, p, h, first as int, last as int, hashes, sets);
    lemma_chain_back(h, sets, first as int, last as int);
}

/// A range that ends behind the tip is refused, and one that has no blocks changes nothing.
pub proof fn lemma_ranges_behind_the_tip_are_refused<P: ChangesetProvider>(
    cache: CacheModel,
    p: &P,
    first: u64,
    last: u64,
)
    ensures
        range_reverts(cache, p, first, last).1 is Err && (p.tip() matches Ok(Some(tip)) && last > tip
            || !(p.tip() matches Ok(Some(_)))) ==> range_reverts(cache, p, first, last).0 == cache,
        p.tip() matches Ok(Some(tip)) && last > tip ==> range_reverts(cache, p, first, last).1
            == Err::<TrieModel, ProviderError<P::Error>>(
            ProviderError::InsufficientChangesets {
                requested: last,
                first: 0,
                last: p.tip()->Ok_0->Some_0,
            },
        ),
        p.tip() == Ok::<Option<u64>, P::Error>(None) ==> range_reverts(cache, p, first, last).1
            == Err::<TrieModel, ProviderError<P::Error>>(
            ProviderError::InsufficientChangesets { requested: first, first: 0, last: 0 },
        ),
        p.tip() matches Ok(Some(tip)) && last <= tip && first > last ==> range_reverts(
            cache,
            p,
            first,
            last,
        ) == (cache, Ok::<TrieModel, ProviderError<P::Error>>(no_changes())),
{
}

/// What is computed of a block is the nodes that it changed as they are after it.
pub proof fn lemma_updates_are_the_nodes_after_the_block<P: ChangesetProvider>(
    cache: CacheModel,
    p: &P,
    h: History,
    number: u64,
    hashes: spec_fn(int) -> B256,
    sets: spec_fn(int) -> TrieModel,
    updates: TrieModel,
)
    requires
        tells(p, h),
        number <= h.tip < u64::MAX,
        are_of_range(cache, p, number as int, h.tip as int, hashes, sets),
        is_true_cache(cache, h, number as int, h.tip as int, hashes),
        block_and_later(cache, p, number).1 matches Ok((changesets, reverts)) ==> are_nodes(
            p,
            reverts,
            changesets,
            updates,
        ),
    ensures
        block_and_later(cache, p, number).1 is Ok,
        updates.accounts.dom() == sets(number as int).accounts.dom(),
        updates.inner.dom() == sets(number as int).inner.dom(),
        forall|path: Nibbles| #[trigger]
            updates.accounts.contains_key(path) ==> updates.accounts[path] == (h.trie(
                number as int,
            ).accounts)(path),
        forall|a: B256| #[trigger]
            updates.inner.contains_key(a) ==> updates.inner[a].entries.dom() == sets(
                number as int,
            ).inner[a].entries.dom(),
        forall|a: B256, path: Nibbles|
            updates.inner.contains_key(a) && #[trigger] updates.inner[a].entries.contains_key(path)
                ==> updates.inner[a].entries[path] == (h.trie(number as int).inner)(a, path),
{
    let n = number as int;
    let tip = h.tip as int;
    let hash = hashes(n);
    assert(are_of_block(cache, p, hash, number, sets(n)));
    let next = looked_up(cache, p, hash, number).0;
    assert(are_of_range(next, p, n + 1, tip, hashes, sets)) by {
        assert forall|m: int| n + 1 <= m <= tip implies p.hash_of(m as u64) == Ok::<
            Option<B256>,
            P::Error,
        >(Some(#[trigger] hashes(m))) && are_of_block(next, p, hashes(m), m as u64, sets(m)) by {
            assert(are_of_block(cache, p, hashes(m), m as u64, sets(m)));
            assert(hash != hashes(m));
        }
    }
    assert(is_true_cache(next, h, n + 1, tip, hashes)) by {
        assert forall|m: int|
            n + 1 <= m <= tip && next.contains_key(#[trigger] hashes(m)) implies laid_nodes(
            next[hashes(m)].1,
            h.trie(m),
        ) == h.trie(m - 1) by {
            assert(hash != hashes(m));
            assert(cache.contains_key(hashes(m)));
        }
    }
    lemma_ranges_take_the_chain_back(next, p, h, (number + 1) as u64, h.tip, hashes, sets);
    let (changesets, reverts) = block_and_later(cache, p, number).1->Ok_0;
    let now = laid_nodes(reverts, h.trie(tip));
    assert(now == h.trie(n));
    assert(changesets == sets(n));
    assert forall|path: Nibbles| #[trigger] updates.accounts.contains_key(path) implies updates.accounts[path]
        == (h.trie(n).accounts)(path) by {
        assert((now.accounts)(path) == updates.accounts[path]);
    }
    assert forall|a: B256, path: Nibbles|
        updates.inner.contains_key(a) && #[trigger] updates.inner[a].entries.contains_key(
            path,
        ) implies updates.inner[a].entries[path] == (h.trie(n).inner)(a, path) by {
        assert((now.inner)(a, path) == updates.inner[a].entries[path]);
    }
}

/// What is cached of a block is given out as it is; what is not is computed, given out and cached
/// under the block's hash and number. So a second lookup gives what the first gave, and changes
/// nothing. What cannot be computed is not cached, and the failure says why.
pub proof fn lemma_lookups_repeat<P: ChangesetProvider>(
    cache: CacheModel,
    p: &P,
    hash: B256,
    number: u64,
)
    ensures
        ({
            let (next, r) = looked_up(cache, p, hash, number);
            &&& r is Ok <==> cache.contains_key(hash) || block_changesets(p, number) is Ok
            &&& r is Ok ==> next.contains_key(hash) && next[hash].1 == r->Ok_0
            &&& r is Ok ==> looked_up(next, p, hash, number) == (next, r)
            &&& r is Ok && !cache.contains_key(hash) ==> next[hash].0 == number
                && block_changesets(p, number) == Ok::<TrieModel, ProviderError<P::Error>>(
                r->Ok_0,
            )
            &&& forall|h: B256| #[trigger]
                next.contains_key(h) && h != hash ==> cache.contains_key(h) && next[h] == cache[h]
            &&& forall|h: B256| #[trigger]
                cache.contains_key(h) ==> next.contains_key(h) && next[h] == cache[h]
            &&& r matches Err(e) ==> next == cache && (e matches ProviderError::Other(inner)
                && block_changesets(p, number) == Err::<TrieModel, ProviderError<P::Error>>(*inner))
        }),
{
}

/// Taking changesets down to a block that has no hash, or whose hash cannot be read, fails for it.
proof fn lemma_taken_down_fails<P: ChangesetProvider>(
    cache: CacheModel,
    p: &P,
    first: int,
    last: int,
    so_far: TrieModel,
    hashes: spec_fn(int) -> B256,
    sets: spec_fn(int) -> TrieModel,
    n: int,
)
    requires
        0 <= first <= n <= last <= u64::MAX,
        are_of_range(cache, p, n + 1, last, hashes, sets),
    ensures
        p.hash_of(n as u64) == Ok::<Option<B256>, P::Error>(None) ==> taken_down_to(
            cache,
            p,
            first,
            last,
            so_far,
        ).1 == Err::<TrieModel, ProviderError<P::Error>>(
            ProviderError::Other(Box::new(ProviderError::BlockHashNotFound(n as u64))),
        ),
        p.hash_of(n as u64) matches Err(e) ==> taken_down_to(cache, p, first, last, so_far).1
            == Err::<TrieModel, ProviderError<P::Error>>(ProviderError::Database(e)),
    decreases last - n,
{
    if n < last {
        let hash = hashes(last);
        assert(p.hash_of(last as u64) == Ok::<Option<B256>, P::Error>(Some(hash)));
        let next = looked_up(cache, p, hash, last as u64).0;
        assert forall|m: int| n + 1 <= m <= last - 1 implies p.hash_of(m as u64) == Ok::<
            Option<B256>,
            P::Error,
        >(Some(#[trigger] hashes(m))) && are_of_block(next, p, hashes(m), m as u64, sets(m)) by {
            assert(are_of_block(cache, p, hashes(m), m as u64, sets(m)));
            assert(hashes(m) != hash);
        }
        lemma_taken_down_fails(
            next,
            p,
            first,
            last - 1,
            over(so_far, sets(last)),
            hashes,
            sets,
            n,
        );
    }
}

/// Where a block of a range has no hash the range fails and names the newest such block; and where
/// its hash cannot be read it fails for that.
pub proof fn lemma_missing_blocks_are_named<P: ChangesetProvider>(
    cache: CacheModel,
    p: &P,
    first: u64,
    last: u64,
    hashes: spec_fn(int) -> B256,
    sets: spec_fn(int) -> TrieModel,
    n: u64,
)
    requires
        p.tip() matches Ok(Some(tip)) && last <= tip,
        first <= n <= last,
        are_of_range(cache, p, n + 1, last as int, hashes, sets),
    ensures
        p.hash_of(n) == Ok::<Option<B256>, P::Error>(None) ==> range_reverts(
            cache,
            p,
            first,
            last,
        ).1 == Err::<TrieModel, ProviderError<P::Error>>(
            ProviderError::Other(Box::new(ProviderError::BlockHashNotFound(n))),
        ),
        p.hash_of(n) matches Err(e) ==> range_reverts(cache, p, first, last).1 == Err::<
            TrieModel,
            ProviderError<P::Error>,
        >(ProviderError::Database(e)),
{
    lemma_taken_down_fails(
        cache,
        p,
        first as int,
        last as int,
        no_changes(),
        hashes,
        sets,
        n as int,
    );
}

} // verus!
