use reth::primitives::{B256, U256};
use reth::sorted_map::{Nibbles, SortedMap};
use reth::trie::changesets::{
    compute_block_trie_changesets, compute_block_trie_updates, ChangesetCache, ChangesetProvider,
    ProviderError,
};
use reth::trie::updates::{
    BranchNodeCompact, HashedPostStateSorted, Inner, StateModel, TrieModel, TrieUpdatesSorted,
};

fn create_test_changesets() -> TrieUpdatesSorted {
    TrieUpdatesSorted::new()
}

fn hash(n: u64) -> B256 {
    B256 { hi: 0xabcdef, lo: n as u128 }
}

fn path(nibble: u128) -> Nibbles {
    Nibbles { bits: B256 { hi: nibble << 124, lo: 0 }, len: 1 }
}

fn node(mask: u16) -> BranchNodeCompact {
    BranchNodeCompact {
        state_mask: mask,
        tree_mask: 0,
        hash_mask: 0,
        hashes: [B256::zero(); 16],
        root_hash: None,
    }
}

fn with_nodes(nodes: &[(u128, Option<u16>)]) -> TrieUpdatesSorted {
    let mut updates = TrieUpdatesSorted::new();
    for (nibble, mask) in nodes {
        updates.accounts.push(path(*nibble), mask.map(node));
    }
    updates
}

fn nodes_of(updates: &TrieUpdatesSorted) -> Vec<(Nibbles, Option<u16>)> {
    (0..updates.accounts.len())
        .map(|i| {
            let (path, node) = updates.accounts.item(i);
            (path, node.map(|node| node.state_mask))
        })
        .collect()
}

#[test]
fn test_insert_and_retrieve_single_entry() {
    let mut cache = ChangesetCache::new();
    let hash = hash(1);
    let changesets = create_test_changesets();

    cache.insert(hash, 100, changesets);

    let retrieved = cache.get(&hash);
    assert!(retrieved.is_some());
    assert_eq!(cache.len(), 1);
}

#[test]
fn test_insert_multiple_entries() {
    let mut cache = ChangesetCache::new();

    let mut hashes = Vec::new();
    for i in 0..10 {
        let hash = hash(i);
        cache.insert(hash, 100 + i, create_test_changesets());
        hashes.push(hash);
    }

    assert_eq!(cache.len(), 10);
    for hash in &hashes {
        assert!(cache.get(hash).is_some());
    }
}

#[test]
fn test_eviction_when_explicitly_called() {
    let mut cache = ChangesetCache::new();

    // Blocks 0 to 14.
    let mut hashes = Vec::new();
    for i in 0..15 {
        let hash = hash(i);
        cache.insert(hash, i, create_test_changesets());
        hashes.push((i, hash));
    }

    // Nothing leaves by itself.
    assert_eq!(cache.len(), 15);

    cache.evict(4);

    assert_eq!(cache.len(), 11);

    for i in 0..4 {
        assert!(cache.get(&hashes[i as usize].1).is_none(), "Block {} should be evicted", i);
    }

    for i in 4..15 {
        assert!(cache.get(&hashes[i as usize].1).is_some(), "Block {} should be present", i);
    }
}

#[test]
fn test_eviction_with_persistence_watermark() {
    let mut cache = ChangesetCache::new();

    // Blocks 100 to 165.
    let mut hashes = std::collections::HashMap::new();
    for i in 100..=165 {
        let hash = hash(i);
        cache.insert(hash, i, create_test_changesets());
        hashes.insert(i, hash);
    }

    assert_eq!(cache.len(), 66);

    // Block 164 is written down, and the last 64 blocks are kept.
    cache.evict(100);
    assert_eq!(cache.len(), 66);

    // Block 165 is written down.
    cache.evict(101);
    assert_eq!(cache.len(), 65);
    assert!(cache.get(&hashes[&100]).is_none());
    assert!(cache.get(&hashes[&101]).is_some());
}

#[test]
fn test_out_of_order_inserts_with_explicit_eviction() {
    let mut cache = ChangesetCache::new();

    let hash_10 = hash(10);
    cache.insert(hash_10, 10, create_test_changesets());

    let hash_5 = hash(5);
    cache.insert(hash_5, 5, create_test_changesets());

    let hash_15 = hash(15);
    cache.insert(hash_15, 15, create_test_changesets());

    let hash_3 = hash(3);
    cache.insert(hash_3, 3, create_test_changesets());

    assert_eq!(cache.len(), 4);

    cache.evict(5);

    assert!(cache.get(&hash_3).is_none(), "Block 3 should be evicted");
    assert!(cache.get(&hash_5).is_some(), "Block 5 should be present");
    assert!(cache.get(&hash_10).is_some(), "Block 10 should be present");
    assert!(cache.get(&hash_15).is_some(), "Block 15 should be present");
}

#[test]
fn test_multiple_blocks_same_number() {
    let mut cache = ChangesetCache::new();

    let hash_1a = hash(1);
    let hash_1b = hash(2);
    cache.insert(hash_1a, 100, create_test_changesets());
    cache.insert(hash_1b, 100, create_test_changesets());

    assert!(cache.get(&hash_1a).is_some());
    assert!(cache.get(&hash_1b).is_some());
    assert_eq!(cache.len(), 2);
}

#[test]
fn test_eviction_removes_all_side_chains() {
    let mut cache = ChangesetCache::new();

    let hash_10a = hash(1);
    let hash_10b = hash(2);
    let hash_10c = hash(3);
    cache.insert(hash_10a, 10, create_test_changesets());
    cache.insert(hash_10b, 10, create_test_changesets());
    cache.insert(hash_10c, 10, create_test_changesets());

    let hash_20 = hash(4);
    cache.insert(hash_20, 20, create_test_changesets());

    assert_eq!(cache.len(), 4);

    cache.evict(15);

    assert_eq!(cache.len(), 1);
    assert!(cache.get(&hash_10a).is_none());
    assert!(cache.get(&hash_10b).is_none());
    assert!(cache.get(&hash_10c).is_none());
    assert!(cache.get(&hash_20).is_some());
}

#[test]
fn a_later_number_outlives_an_earlier_one() {
    let mut cache = ChangesetCache::default();
    cache.insert(hash(1), 3, create_test_changesets());
    cache.insert(hash(1), 9, create_test_changesets());
    cache.evict(5);
    assert!(cache.get(&hash(1)).is_some());
    assert_eq!(cache.len(), 1);
}

/// A database whose blocks each change the node at the path of their number.
struct Blocks {
    tip: Option<u64>,
    broken: bool,
}

impl ChangesetProvider for Blocks {
    type Error = &'static str;

    // The answers as contracts name them. Nothing runs these.
    fn tip(&self) -> Result<Option<u64>, &'static str> {
        unreachable!()
    }

    fn hash_of(&self, _number: u64) -> Result<Option<B256>, &'static str> {
        unreachable!()
    }

    fn reverts(&self, _first: u64, _last: Option<u64>) -> Result<StateModel, &'static str> {
        unreachable!()
    }

    fn overlaid(
        &self,
        _nodes: TrieModel,
        _state: StateModel,
        _changed: StateModel,
    ) -> Result<TrieModel, &'static str> {
        unreachable!()
    }

    fn replaced(
        &self,
        _nodes: TrieModel,
        _updates: TrieModel,
    ) -> Result<TrieModel, &'static str> {
        unreachable!()
    }

    fn account_node_at(&self, _path: Nibbles) -> Result<Option<BranchNodeCompact>, &'static str> {
        unreachable!()
    }

    fn storage_node_at(
        &self,
        _address: B256,
        _path: Nibbles,
    ) -> Result<Option<BranchNodeCompact>, &'static str> {
        unreachable!()
    }

    fn finish_checkpoint(&self) -> Result<Option<u64>, &'static str> {
        if self.broken {
            Err("broken")
        } else {
            Ok(self.tip)
        }
    }

    fn block_hash(&self, number: u64) -> Result<Option<B256>, &'static str> {
        Ok(if number == 7 { None } else { Some(hash(number)) })
    }

    fn state_reverts(
        &self,
        first: u64,
        _last: Option<u64>,
    ) -> Result<HashedPostStateSorted, &'static str> {
        let mut state = HashedPostStateSorted::new();
        state.accounts.push(hash(first), None);
        Ok(state)
    }

    fn overlay_updates(
        &self,
        _nodes: &TrieUpdatesSorted,
        _state: &HashedPostStateSorted,
        changed: &HashedPostStateSorted,
    ) -> Result<TrieUpdatesSorted, &'static str> {
        let number = changed.accounts.item(0).0.lo;
        if number == 13 {
            return Err("no overlay");
        }
        Ok(with_nodes(&[(number, Some(number as u16))]))
    }

    fn trie_changesets(
        &self,
        _nodes: &TrieUpdatesSorted,
        updates: &TrieUpdatesSorted,
    ) -> Result<TrieUpdatesSorted, &'static str> {
        if updates.accounts.item(0).0 == path(14) {
            return Err("no changesets");
        }
        Ok(updates.copy())
    }

    fn account_node(&self, path: Nibbles) -> Result<Option<BranchNodeCompact>, &'static str> {
        match path.bits.hi >> 124 {
            11 => return Err("eleven"),
            12 => return Err("twelve"),
            _ => {}
        }
        Ok(Some(node((path.bits.hi >> 124) as u16 + 100)))
    }

    fn storage_node(
        &self,
        _address: B256,
        _path: Nibbles,
    ) -> Result<Option<BranchNodeCompact>, &'static str> {
        Ok(None)
    }
}

#[test]
fn changesets_stop_at_the_tip() {
    let blocks = Blocks { tip: Some(4), broken: false };
    let changesets = compute_block_trie_changesets(&blocks, 3).unwrap();
    assert_eq!(nodes_of(&changesets), vec![(path(3), Some(3))]);
    assert!(matches!(
        compute_block_trie_changesets(&blocks, 5),
        Err(ProviderError::InsufficientChangesets { requested: 5, first: 0, last: 4 })
    ));
    assert!(matches!(
        compute_block_trie_changesets(&Blocks { tip: None, broken: false }, 5),
        Err(ProviderError::InsufficientChangesets { requested: 5, first: 0, last: 0 })
    ));
    assert!(matches!(
        compute_block_trie_changesets(&Blocks { tip: None, broken: true }, 5),
        Err(ProviderError::Database("broken"))
    ));
}

#[test]
fn failed_computations_are_told_apart() {
    let blocks = Blocks { tip: Some(20), broken: false };
    for (number, failure) in [(13, "no overlay"), (14, "no changesets")] {
        match compute_block_trie_changesets(&blocks, number) {
            Err(ProviderError::Other(inner)) => {
                assert!(matches!(*inner, ProviderError::Database(e) if e == failure))
            }
            other => panic!("unexpected: {other:?}"),
        }
    }
    match compute_block_trie_updates(&mut ChangesetCache::new(), &blocks, 7) {
        Err(ProviderError::Other(inner)) => {
            assert!(matches!(*inner, ProviderError::BlockHashNotFound(7)))
        }
        other => panic!("unexpected: {other:?}"),
    }
}

#[test]
fn computed_changesets_are_kept() {
    let blocks = Blocks { tip: Some(9), broken: false };
    let mut cache = ChangesetCache::new();
    let found = cache.get_or_compute(hash(2), 2, &blocks).unwrap();
    assert_eq!(nodes_of(found), vec![(path(2), Some(2))]);
    assert_eq!(cache.len(), 1);
    // What is cached counts, whatever the database says.
    let broken = Blocks { tip: Some(9), broken: true };
    assert!(cache.get_or_compute(hash(2), 2, &broken).is_ok());
    match cache.get_or_compute(hash(3), 3, &broken) {
        Err(ProviderError::Other(inner)) => {
            assert!(matches!(*inner, ProviderError::Database("broken")))
        }
        other => panic!("unexpected: {other:?}"),
    }
}

#[test]
fn ranges_take_the_oldest_value() {
    let blocks = Blocks { tip: Some(9), broken: false };
    let mut cache = ChangesetCache::new();
    // Two blocks change the same node.
    cache.insert(hash(1), 1, with_nodes(&[(8, Some(80)), (9, None)]));
    cache.insert(hash(2), 2, with_nodes(&[(8, Some(81))]));
    let range = cache.get_or_compute_range(&blocks, 1, 3).unwrap();
    assert_eq!(
        nodes_of(&range),
        vec![(path(3), Some(3)), (path(8), Some(80)), (path(9), None)]
    );
    assert_eq!(cache.len(), 3);
    let empty = cache.get_or_compute_range(&blocks, 3, 2).unwrap();
    assert_eq!(nodes_of(&empty), vec![]);
    assert!(matches!(
        cache.get_or_compute_range(&blocks, 6, 8),
        Err(ProviderError::Other(inner)) if matches!(*inner, ProviderError::BlockHashNotFound(7))
    ));
    assert!(matches!(
        cache.get_or_compute_range(&blocks, 6, 10),
        Err(ProviderError::InsufficientChangesets { requested: 10, first: 0, last: 9 })
    ));
}

#[test]
fn the_first_failing_path_counts() {
    let blocks = Blocks { tip: Some(5), broken: false };
    let mut cache = ChangesetCache::new();
    cache.insert(hash(5), 5, with_nodes(&[(1, None), (11, None), (12, None)]));
    assert!(matches!(
        compute_block_trie_updates(&mut cache, &blocks, 5),
        Err(ProviderError::Database("eleven"))
    ));
}

#[test]
fn the_last_block_is_found_where_it_is_cached() {
    let blocks = Blocks { tip: Some(u64::MAX), broken: false };
    let mut cache = ChangesetCache::new();
    let last = hash(u64::MAX);
    cache.insert(last, u64::MAX, with_nodes(&[(4, Some(4))]));
    let found = cache.get_or_compute(last, u64::MAX, &blocks).unwrap();
    assert_eq!(nodes_of(found), vec![(path(4), Some(4))]);
    let range = cache.get_or_compute_range(&blocks, u64::MAX, u64::MAX).unwrap();
    assert_eq!(nodes_of(&range), vec![(path(4), Some(4))]);
}

#[test]
fn updates_are_the_nodes_as_they_are_then() {
    let blocks = Blocks { tip: Some(5), broken: false };
    let mut cache = ChangesetCache::new();
    // Block 4 changes two nodes; block 5 changes one of them again.
    cache.insert(hash(4), 4, with_nodes(&[(1, Some(10)), (2, Some(20))]));
    cache.insert(hash(5), 5, with_nodes(&[(1, Some(11))]));
    let updates = compute_block_trie_updates(&mut cache, &blocks, 4).unwrap();
    // The first is what block 5 found, the second what the database has.
    assert_eq!(nodes_of(&updates), vec![(path(1), Some(11)), (path(2), Some(102))]);
}

#[test]
fn storage_changes_are_laid_over_others() {
    let mut mine = TrieUpdatesSorted::new();
    let mut entries = SortedMap::new();
    entries.push(path(1), Some(node(1)));
    mine.push_inner(hash(1), Inner { is_deleted: false, entries });
    let mut other = TrieUpdatesSorted::new();
    let mut entries = SortedMap::new();
    entries.push(path(1), None);
    entries.push(path(2), Some(node(2)));
    other.push_inner(hash(1), Inner { is_deleted: false, entries });
    mine.extend_ref_and_sort(&other);
    let at = mine.find_inner(hash(1)).unwrap();
    let inner = &mine.inner[at].1;
    assert_eq!(inner.entries.len(), 2);
    assert_eq!(inner.entries.get(path(1)), Some(None));
    assert_eq!(inner.entries.get(path(2)), Some(Some(node(2))));
    assert_eq!(mine.find_inner(hash(2)), None);
}

#[test]
fn a_deleted_storage_trie_leaves_nothing_below_it() {
    let mut mine = TrieUpdatesSorted::new();
    let mut entries = SortedMap::new();
    entries.push(path(1), Some(node(1)));
    mine.push_inner(hash(1), Inner { is_deleted: false, entries });
    let mut other = TrieUpdatesSorted::new();
    let mut entries = SortedMap::new();
    entries.push(path(2), Some(node(2)));
    other.push_inner(hash(1), Inner { is_deleted: true, entries });
    mine.extend_ref_and_sort(&other);
    let at = mine.find_inner(hash(1)).unwrap();
    let inner = &mine.inner[at].1;
    assert!(inner.is_deleted);
    assert_eq!(inner.entries.len(), 1);
    assert_eq!(inner.entries.get(path(1)), None);
    assert_eq!(inner.entries.get(path(2)), Some(Some(node(2))));
}

#[test]
fn bits_of_a_number() {
    assert_eq!(U256::from_u64(0).bit_len(), 0);
    assert_eq!(U256::from_u64(5).bit_len(), 3);
    assert_eq!(U256::from_u64(u64::MAX).bit_len(), 64);
}
