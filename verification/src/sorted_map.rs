use vstd::prelude::*;
use crate::keyed::{lemma_items, lemma_keys, map_by};
use crate::primitives::{fixed_bytes, lemma_be_value_concat, lemma_fixed_bytes, B256};
use crate::rlp::{be_value, pow256};

verus! {

/// The place of a key in the order of keys: compared part by part.
#[derive(Clone, Copy, Debug, PartialEq, Eq, Structural)]
pub struct Rank {
    pub hi: u128,
    pub lo: u128,
    pub len: u8,
}

/// Whether a place comes before another.
pub open spec fn rank_less(a: Rank, b: Rank) -> bool {
    a.hi < b.hi || (a.hi == b.hi && (a.lo < b.lo || (a.lo == b.lo && a.len < b.len)))
}

/// Whether a place comes before another.
fn rank_before(a: Rank, b: Rank) -> (r: bool)
    ensures
        r == rank_less(a, b),
{
    a.hi < b.hi || (a.hi == b.hi && (a.lo < b.lo || (a.lo == b.lo && a.len < b.len)))
}

/// A key, ordered by its place.
pub trait SortKey: Copy + Sized {
    /// The place of the key.
    spec fn rank(self) -> Rank;

    /// The place of the key.
    fn to_rank(&self) -> (r: Rank)
        ensures
            r == self.rank(),
    ;

    /// Keys at the same place are equal.
    proof fn rank_injective(a: Self, b: Self)
        requires
            a.rank() == b.rank(),
        ensures
            a == b,
    ;
}

impl SortKey for B256 {
    open spec fn rank(self) -> Rank {
        Rank { hi: self.hi, lo: self.lo, len: 0 }
    }

    fn to_rank(&self) -> (r: Rank) {
        Rank { hi: self.hi, lo: self.lo, len: 0 }
    }

    proof fn rank_injective(a: B256, b: B256) {
    }
}

/// A path in a trie: up to 64 nibbles, the first in the highest four bits of `bits`, the rest of
/// which is zero. Paths are ordered nibble by nibble, a prefix first.
#[derive(Clone, Copy, Debug, PartialEq, Eq, Structural, Hash)]
pub struct Nibbles {
    pub bits: B256,
    pub len: u8,
}

impl SortKey for Nibbles {
    open spec fn rank(self) -> Rank {
        Rank { hi: self.bits.hi, lo: self.bits.lo, len: self.len }
    }

    fn to_rank(&self) -> (r: Rank) {
        Rank { hi: self.bits.hi, lo: self.bits.lo, len: self.len }
    }

    proof fn rank_injective(a: Nibbles, b: Nibbles) {
    }
}

/// Whether the keys of items rise.
pub open spec fn rising<K: SortKey, V>(items: Seq<(K, V)>) -> bool {
    forall|i: int, j: int|
        0 <= i < j < items.len() ==> rank_less(
            (#[trigger] items[i]).0.rank(),
            (#[trigger] items[j]).0.rank(),
        )
}

/// A value as it is.
pub open spec fn as_it_is<V>() -> spec_fn(V) -> V {
    |v: V| v
}

/// The map of items, where a later one with the same key counts.
pub open spec fn to_map<K, V>(items: Seq<(K, V)>) -> Map<K, V> {
    map_by(items, as_it_is())
}

/// The keys of the map are those of the items.
pub proof fn lemma_map_keys<K, V>(items: Seq<(K, V)>, k: K)
    ensures
        to_map(items).contains_key(k) <==> exists|i: int|
            0 <= i < items.len() && (#[trigger] items[i]).0 == k,
{
    lemma_keys(items, as_it_is(), k);
}

/// Each item stands in the map where the keys rise.
pub proof fn lemma_map_items<K: SortKey, V>(items: Seq<(K, V)>, i: int)
    requires
        rising(items),
        0 <= i < items.len(),
    ensures
        to_map(items).contains_key(items[i].0),
        to_map(items)[items[i].0] == items[i].1,
{
    assert forall|a: int, b: int| 0 <= a < b < items.len() implies (#[trigger] items[a]).0 != (
    #[trigger] items[b]).0 by {
        assert(rank_less(items[a].0.rank(), items[b].0.rank()));
    }
    lemma_items(items, as_it_is(), i);
}

/// A map kept as items with rising keys.
#[derive(Debug)]
pub struct SortedMap<K, V> {
    items: Vec<(K, V)>,
}

impl<K: SortKey, V: Copy> View for SortedMap<K, V> {
    type V = Map<K, V>;

    closed spec fn view(&self) -> Map<K, V> {
        to_map(self.items@)
    }
}

impl<K: SortKey, V: Copy> SortedMap<K, V> {
    /// Whether the keys rise.
    pub closed spec fn wf(self) -> bool {
        rising(self.items@)
    }

    /// The items, the keys rising.
    pub closed spec fn listed(self) -> Seq<(K, V)> {
        self.items@
    }

    /// The map of the items.
    pub proof fn lemma_listed(self)
        ensures
            self@ == to_map(self.listed()),
            self.wf() == rising(self.listed()),
    {
    }

    /// An empty map.
    pub fn new() -> (r: SortedMap<K, V>)
        ensures
            r.wf(),
            r@ == Map::<K, V>::empty(),
            r.listed() == Seq::<(K, V)>::empty(),
    {
        SortedMap { items: Vec::new() }
    }

    /// How many items there are.
    pub fn len(&self) -> (n: usize)
        ensures
            n == self.listed().len(),
    {
        self.items.len()
    }

    /// The item at a place.
    pub fn item(&self, i: usize) -> (r: (K, V))
        requires
            i < self.listed().len(),
        ensures
            r == self.listed()[i as int],
    {
        self.items[i]
    }

    /// The value of a key.
    pub fn get(&self, key: K) -> (r: Option<V>)
        requires
            self.wf(),
        ensures
            r == (if self@.contains_key(key) {
                Some(self@[key])
            } else {
                None
            }),
    {
        let mut i: usize = 0;
        while i < self.items.len()
            invariant
                i <= self.items.len(),
                self.wf(),
                forall|j: int| 0 <= j < i ==> (#[trigger] self.items@[j]).0 != key,
            decreases self.items.len() - i,
        {
            if self.items[i].0.to_rank() == key.to_rank() {
                proof {
                    K::rank_injective(self.items@[i as int].0, key);
                    lemma_map_items(self.items@, i as int);
                }
                return Some(self.items[i].1);
            }
            i += 1;
        }
        proof {
            lemma_map_keys(self.items@, key);
        }
        None
    }

    /// Appends an item whose key comes after all others.
    pub fn push(&mut self, key: K, value: V)
        requires
            old(self).wf(),
            forall|i: int|
                0 <= i < old(self).listed().len() ==> rank_less(
                    (#[trigger] old(self).listed()[i]).0.rank(),
                    key.rank(),
                ),
        ensures
            final(self).wf(),
            final(self).listed() == old(self).listed().push((key, value)),
            final(self)@ == old(self)@.insert(key, value),
    {
        let ghost before = self.items@;
        self.items.push((key, value));
        proof {
            assert(self.items@.drop_last() =~= before);
            assert forall|i: int, j: int| 0 <= i < j < self.items@.len() implies rank_less(
                (#[trigger] self.items@[i]).0.rank(),
                (#[trigger] self.items@[j]).0.rank(),
            ) by {
                if j < before.len() {
                    assert(rank_less(before[i].0.rank(), before[j].0.rank()));
                } else {
                    assert(rank_less(old(self).listed()[i].0.rank(), key.rank()));
                }
            }
        }
    }

    /// A copy.
    pub fn copy(&self) -> (r: SortedMap<K, V>)
        ensures
            r.wf() == self.wf(),
            r.listed() == self.listed(),
            r@ == self@,
    {
        let mut items: Vec<(K, V)> = Vec::new();
        let mut i: usize = 0;
        while i < self.items.len()
            invariant
                i <= self.items.len(),
                items@ == self.items@.take(i as int),
            decreases self.items.len() - i,
        {
            items.push(self.items[i]);
            proof {
                assert(items@ =~= self.items@.take(i + 1));
            }
            i += 1;
        }
        proof {
            assert(self.items@.take(i as int) =~= self.items@);
        }
        SortedMap { items }
    }

    /// Takes the items of another map over, which count where both have a key.
    pub fn extend_ref(&mut self, other: &SortedMap<K, V>)
        requires
            old(self).wf(),
            other.wf(),
        ensures
            final(self).wf(),
            final(self)@ == old(self)@.union_prefer_right(other@),
    {
        let ghost a = self.items@;
        let ghost b = other.items@;
        let mut merged: SortedMap<K, V> = SortedMap::new();
        let mut i: usize = 0;
        let mut j: usize = 0;
        proof {
            assert(to_map(a.take(0)).union_prefer_right(to_map(b.take(0))) =~= Map::<K, V>::empty());
        }
        while i < self.items.len() || j < other.items.len()
            invariant
                i <= a.len(),
                j <= b.len(),
                a == self.items@,
                b == other.items@,
                rising(a),
                rising(b),
                merged.wf(),
                merged@ == to_map(a.take(i as int)).union_prefer_right(to_map(b.take(j as int))),
                forall|n: int, k: int|
                    0 <= n < merged.listed().len() && i <= k < a.len() ==> rank_less(
                        (#[trigger] merged.listed()[n]).0.rank(),
                        (#[trigger] a[k]).0.rank(),
                    ),
                forall|n: int, k: int|
                    0 <= n < merged.listed().len() && j <= k < b.len() ==> rank_less(
                        (#[trigger] merged.listed()[n]).0.rank(),
                        (#[trigger] b[k]).0.rank(),
                    ),
                forall|n: int, k: int|
                    0 <= n < j && i <= k < a.len() ==> rank_less(
                        (#[trigger] b[n]).0.rank(),
                        (#[trigger] a[k]).0.rank(),
                    ),
            decreases (a.len() - i) + (b.len() - j),
        {
            let take_left: bool;
            let take_right: bool;
            if i == self.items.len() {
                take_left = false;
                take_right = true;
            } else if j == other.items.len() {
                take_left = true;
                take_right = false;
            } else {
                let x = self.items[i].0.to_rank();
                let y = other.items[j].0.to_rank();
                if rank_before(x, y) {
                    take_left = true;
                    take_right = false;
                } else if rank_before(y, x) {
                    take_left = false;
                    take_right = true;
                } else {
                    take_left = true;
                    take_right = true;
                }
            }
            let ghost left = to_map(a.take(i as int));
            let ghost right = to_map(b.take(j as int));
            proof {
                if take_left {
                    assert(a.take(i + 1).drop_last() =~= a.take(i as int));
                }
                if take_right {
                    assert(b.take(j + 1).drop_last() =~= b.take(j as int));
                }
            }
            if take_right {
                let (key, value) = other.items[j];
                merged.push(key, value);
                proof {
                    if take_left {
                        K::rank_injective(a[i as int].0, key);
                        assert(merged@ =~= left.insert(a[i as int].0, a[i as int].1)
                            .union_prefer_right(right.insert(key, value)));
                    } else {
                        assert(merged@ =~= left.union_prefer_right(right.insert(key, value)));
                    }
                }
                j += 1;
                if take_left {
                    i += 1;
                }
            } else {
                let (key, value) = self.items[i];
                merged.push(key, value);
                proof {
                    lemma_map_keys(b.take(j as int), key);
                    assert(!right.contains_key(key)) by {
                        if right.contains_key(key) {
                            let n = choose|n: int|
                                0 <= n < j && (#[trigger] b.take(j as int)[n]).0 == key;
                            assert(rank_less(b[n].0.rank(), a[i as int].0.rank()));
                        }
                    }
                    assert(merged@ =~= left.insert(key, value).union_prefer_right(right));
                }
                i += 1;
            }
        }
        proof {
            assert(a.take(i as int) =~= a);
            assert(b.take(j as int) =~= b);
        }
        self.items = merged.items;
    }
}

/// Hashes are in the order of the numbers that their bytes stand for, and paths in that of their
/// bits, the shorter of two with the same bits first.
pub proof fn lemma_order_of_keys(a: B256, b: B256, x: Nibbles, y: Nibbles)
    ensures
        rank_less(a.rank(), b.rank()) <==> be_value(a.bytes()) < be_value(b.bytes()),
        x.bits != y.bits ==> (rank_less(x.rank(), y.rank()) <==> be_value(x.bits.bytes())
            < be_value(y.bits.bytes())),
        x.bits == y.bits ==> (rank_less(x.rank(), y.rank()) <==> x.len < y.len),
{
    lemma_hash_value(a);
    lemma_hash_value(b);
    lemma_hash_value(x.bits);
    lemma_hash_value(y.bits);
}

/// The number that the bytes of a hash stand for.
proof fn lemma_hash_value(h: B256)
    ensures
        be_value(h.bytes()) == h.hi * 0x1_0000_0000_0000_0000_0000_0000_0000_0000 + h.lo,
{
    reveal_with_fuel(pow256, 17);
    lemma_fixed_bytes(h.hi as nat, 16);
    lemma_fixed_bytes(h.lo as nat, 16);
    lemma_be_value_concat(fixed_bytes(h.hi as nat, 16), fixed_bytes(h.lo as nat, 16));
}

} // verus!
