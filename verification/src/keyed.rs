use vstd::prelude::*;

verus! {

/// The map of items with keys, their values seen through `f`. Of items with the same key the last
/// counts.
pub open spec fn map_by<K, V, M>(items: Seq<(K, V)>, f: spec_fn(V) -> M) -> Map<K, M>
    decreases items.len(),
{
    if items.len() == 0 {
        Map::empty()
    } else {
        map_by(items.drop_last(), f).insert(items.last().0, f(items.last().1))
    }
}

/// Whether each key stands once.
pub open spec fn distinct<K, V>(items: Seq<(K, V)>) -> bool {
    forall|i: int, j: int|
        0 <= i < j < items.len() ==> (#[trigger] items[i]).0 != (#[trigger] items[j]).0
}

/// The keys of the map are those of the items.
pub proof fn lemma_keys<K, V, M>(items: Seq<(K, V)>, f: spec_fn(V) -> M, k: K)
    ensures
        map_by(items, f).contains_key(k) <==> exists|i: int|
            0 <= i < items.len() && (#[trigger] items[i]).0 == k,
    decreases items.len(),
{
    if items.len() > 0 {
        let front = items.drop_last();
        let last = items.len() - 1;
        lemma_keys(front, f, k);
        if map_by(items, f).contains_key(k) && items[last].0 != k {
            let i = choose|i: int| 0 <= i < front.len() && (#[trigger] front[i]).0 == k;
            assert(items[i].0 == k);
        }
        if exists|i: int| 0 <= i < items.len() && (#[trigger] items[i]).0 == k {
            let i = choose|i: int| 0 <= i < items.len() && (#[trigger] items[i]).0 == k;
            if i < last {
                assert(front[i].0 == k);
            }
        }
    }
}

/// Where each key stands once, so it does in front of the last item, and the last key is not there.
pub proof fn lemma_front<K, V, M>(items: Seq<(K, V)>, f: spec_fn(V) -> M)
    requires
        distinct(items),
        items.len() > 0,
    ensures
        distinct(items.drop_last()),
        !map_by(items.drop_last(), f).contains_key(items.last().0),
{
    let front = items.drop_last();
    let last = items.len() - 1;
    assert forall|a: int, b: int| 0 <= a < b < front.len() implies (#[trigger] front[a]).0 != (
    #[trigger] front[b]).0 by {
        assert(items[a].0 != items[b].0);
    }
    lemma_keys(front, f, items[last].0);
    if map_by(front, f).contains_key(items[last].0) {
        let i = choose|i: int| 0 <= i < front.len() && (#[trigger] front[i]).0 == items[last].0;
        assert(items[i].0 != items[last].0);
    }
}

/// Each item stands in the map.
pub proof fn lemma_items<K, V, M>(items: Seq<(K, V)>, f: spec_fn(V) -> M, i: int)
    requires
        distinct(items),
        0 <= i < items.len(),
    ensures
        map_by(items, f).contains_key(items[i].0),
        map_by(items, f)[items[i].0] == f(items[i].1),
    decreases items.len(),
{
    let last = items.len() - 1;
    if i < last {
        lemma_front(items, f);
        lemma_items(items.drop_last(), f, i);
        assert(items[i].0 != items[last].0);
    }
}

/// One more item with another key puts it into the map.
pub proof fn lemma_push<K, V, M>(items: Seq<(K, V)>, f: spec_fn(V) -> M, item: (K, V))
    requires
        distinct(items),
        !map_by(items, f).contains_key(item.0),
    ensures
        distinct(items.push(item)),
        map_by(items.push(item), f) == map_by(items, f).insert(item.0, f(item.1)),
{
    let new = items.push(item);
    lemma_keys(items, f, item.0);
    assert(new.drop_last() =~= items);
    assert forall|a: int, b: int| 0 <= a < b < new.len() implies (#[trigger] new[a]).0 != (
    #[trigger] new[b]).0 by {
        assert(items[a].0 == new[a].0);
    }
}

/// Another item in the place of one of the same key changes the map at that key.
pub proof fn lemma_update<K, V, M>(
    items: Seq<(K, V)>,
    f: spec_fn(V) -> M,
    i: int,
    item: (K, V),
)
    requires
        distinct(items),
        0 <= i < items.len(),
        item.0 == items[i].0,
    ensures
        distinct(items.update(i, item)),
        map_by(items.update(i, item), f) == map_by(items, f).insert(item.0, f(item.1)),
    decreases items.len(),
{
    let new = items.update(i, item);
    let front = items.drop_last();
    let last = items.len() - 1;
    lemma_front(items, f);
    assert forall|a: int, b: int| 0 <= a < b < new.len() implies (#[trigger] new[a]).0 != (
    #[trigger] new[b]).0 by {
        assert(items[a].0 != items[b].0);
    }
    if i < last {
        lemma_update(front, f, i, item);
        assert(new.drop_last() =~= front.update(i, item));
        assert(items[i].0 != items[last].0);
        assert(map_by(new, f) =~= map_by(items, f).insert(item.0, f(item.1)));
    } else {
        assert(new.drop_last() =~= front);
        assert(map_by(new, f) =~= map_by(items, f).insert(item.0, f(item.1)));
    }
}

/// Items whose keys are all different make a map of as many.
pub proof fn lemma_count<K, V, M>(items: Seq<(K, V)>, f: spec_fn(V) -> M)
    requires
        distinct(items),
    ensures
        map_by(items, f).dom().finite(),
        map_by(items, f).len() == items.len(),
    decreases items.len(),
{
    if items.len() > 0 {
        lemma_front(items, f);
        lemma_count(items.drop_last(), f);
    }
}

} // verus!
