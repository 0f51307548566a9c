use vstd::prelude::*;
use crate::keyed::{distinct, lemma_items, lemma_keys, lemma_push, lemma_update, map_by};
use crate::primitives::{B256, U256};
use crate::sorted_map::{Nibbles, SortKey, SortedMap};

verus! {

/// A branch node of a trie as the database keeps it: the masks of its children, and the hashes
/// of those that the hash mask has, as many as it has, the rest being zero.
#[derive(Clone, Copy, Debug, PartialEq, Eq)]
pub struct BranchNodeCompact {
    pub state_mask: u16,
    pub tree_mask: u16,
    pub hash_mask: u16,
    pub hashes: [B256; 16],
    pub root_hash: Option<B256>,
}

/// An account.
#[derive(Clone, Copy, Debug, PartialEq, Eq, Structural)]
pub struct Account {
    pub nonce: u64,
    pub balance: U256,
    pub bytecode_hash: Option<B256>,
}

/// What belongs to one account: entries, and whether all that was there before is gone.
#[derive(Debug)]
pub struct Inner<K, S> {
    pub is_deleted: bool,
    pub entries: SortedMap<K, S>,
}

/// What belongs to one account.
#[verifier::ext_equal]
#[verifier::reject_recursive_types(K)]
pub ghost struct InnerModel<K, S> {
    pub is_deleted: bool,
    pub entries: Map<K, S>,
}

impl<K: SortKey, S: Copy> Inner<K, S> {
    /// Whether the keys rise.
    pub open spec fn wf(self) -> bool {
        self.entries.wf()
    }

    /// What is in it.
    pub open spec fn model(self) -> InnerModel<K, S> {
        InnerModel { is_deleted: self.is_deleted, entries: self.entries@ }
    }

    /// A copy.
    pub fn copy(&self) -> (r: Inner<K, S>)
        ensures
            r.wf() == self.wf(),
            r.model() == self.model(),
    {
        Inner { is_deleted: self.is_deleted, entries: self.entries.copy() }
    }

    /// Lays another one over this one. Where the other is deleted, nothing of this one is kept.
    pub fn extend_ref(&mut self, other: &Inner<K, S>)
        requires
            old(self).wf(),
            other.wf(),
        ensures
            final(self).wf(),
            final(self).model() == inner_over(old(self).model(), other.model()),
    {
        if other.is_deleted {
            *self = other.copy();
        } else {
            self.entries.extend_ref(&other.entries);
        }
    }
}

/// What lies over what: the upper counts where both have a key, and alone where it was deleted.
pub open spec fn inner_over<K, S>(lower: InnerModel<K, S>, upper: InnerModel<K, S>) -> InnerModel<
    K,
    S,
> {
    if upper.is_deleted {
        upper
    } else {
        InnerModel {
            is_deleted: lower.is_deleted,
            entries: lower.entries.union_prefer_right(upper.entries),
        }
    }
}

/// Changes of accounts, and of what belongs to them by the hashes of their addresses.
#[derive(Debug)]
pub struct Layered<K, A, S> {
    pub accounts: SortedMap<K, A>,
    pub inner: Vec<(B256, Inner<K, S>)>,
}

/// Nodes of the account trie and of the storage tries. No node at a path means that it is gone.
pub type TrieUpdatesSorted = Layered<
    Nibbles,
    Option<BranchNodeCompact>,
    Option<BranchNodeCompact>,
>;

/// Accounts and their storage, by hashes. No account means that it is gone.
pub type HashedPostStateSorted = Layered<B256, Option<Account>, U256>;

/// Changes of accounts, and of what belongs to them.
#[verifier::ext_equal]
#[verifier::reject_recursive_types(K)]
pub ghost struct LayeredModel<K, A, S> {
    pub accounts: Map<K, A>,
    pub inner: Map<B256, InnerModel<K, S>>,
}

/// What nodes there are.
pub type TrieModel = LayeredModel<Nibbles, Option<BranchNodeCompact>, Option<BranchNodeCompact>>;

/// What accounts and storage there are.
pub type StateModel = LayeredModel<B256, Option<Account>, U256>;

/// Changes laid over others.
pub open spec fn over<K, A, S>(
    lower: LayeredModel<K, A, S>,
    upper: LayeredModel<K, A, S>,
) -> LayeredModel<K, A, S> {
    LayeredModel {
        accounts: lower.accounts.union_prefer_right(upper.accounts),
        inner: Map::new(
            |a: B256| lower.inner.contains_key(a) || upper.inner.contains_key(a),
            |a: B256|
                if !upper.inner.contains_key(a) {
                    lower.inner[a]
                } else if !lower.inner.contains_key(a) {
                    upper.inner[a]
                } else {
                    inner_over(lower.inner[a], upper.inner[a])
                },
        ),
    }
}

/// No changes.
pub open spec fn no_changes<K, A, S>() -> LayeredModel<K, A, S> {
    LayeredModel { accounts: Map::empty(), inner: Map::empty() }
}

/// What belongs to one account, seen as its model.
pub open spec fn as_inner<K: SortKey, S: Copy>() -> spec_fn(Inner<K, S>) -> InnerModel<K, S> {
    |inner: Inner<K, S>| inner.model()
}

/// The map from addresses to what belongs to them.
pub open spec fn inner_map<K: SortKey, S: Copy>(items: Seq<(B256, Inner<K, S>)>) -> Map<
    B256,
    InnerModel<K, S>,
> {
    map_by(items, as_inner())
}

/// Whether each address stands once, with what belongs to it in order.
pub open spec fn inner_wf<K: SortKey, S: Copy>(items: Seq<(B256, Inner<K, S>)>) -> bool {
    &&& forall|i: int| 0 <= i < items.len() ==> (#[trigger] items[i]).1.wf()
    &&& distinct(items)
}

impl<K: SortKey, A: Copy, S: Copy> Layered<K, A, S> {
    /// Whether keys rise and each address stands once.
    pub open spec fn wf(self) -> bool {
        self.accounts.wf() && inner_wf(self.inner@)
    }

    /// What is in it.
    pub open spec fn model(self) -> LayeredModel<K, A, S> {
        LayeredModel { accounts: self.accounts@, inner: inner_map(self.inner@) }
    }

    /// No changes.
    pub fn new() -> (r: Layered<K, A, S>)
        ensures
            r.wf(),
            r.model() == no_changes::<K, A, S>(),
    {
        Layered { accounts: SortedMap::new(), inner: Vec::new() }
    }

    /// A copy.
    pub fn copy(&self) -> (r: Layered<K, A, S>)
        requires
            self.wf(),
        ensures
            r.wf(),
            r.model() == self.model(),
    {
        let mut inner: Vec<(B256, Inner<K, S>)> = Vec::new();
        let mut i: usize = 0;
        while i < self.inner.len()
            invariant
                i <= self.inner.len(),
                self.wf(),
                inner.len() == i,
                forall|k: int|
                    0 <= k < i ==> (#[trigger] inner@[k]).0 == self.inner@[k].0
                        && inner@[k].1.wf() && inner@[k].1.model() == self.inner@[k].1.model(),
                inner_map(inner@) == inner_map(self.inner@.take(i as int)),
            decreases self.inner.len() - i,
        {
            let ghost before = inner@;
            inner.push((self.inner[i].0, self.inner[i].1.copy()));
            proof {
                assert(inner@.drop_last() =~= before);
                assert(self.inner@.take(i + 1).drop_last() =~= self.inner@.take(i as int));
            }
            i += 1;
        }
        proof {
            assert(self.inner@.take(i as int) =~= self.inner@);
            assert forall|a: int, b: int| 0 <= a < b < inner@.len() implies (#[trigger] inner@[a]).0
                != (#[trigger] inner@[b]).0 by {
                assert(self.inner@[a].0 != self.inner@[b].0);
            }
        }
        Layered { accounts: self.accounts.copy(), inner }
    }

    /// The place of what belongs to an address.
    pub fn find_inner(&self, address: B256) -> (r: Option<usize>)
        ensures
            match r {
                Some(i) => i < self.inner.len() && self.inner@[i as int].0 == address,
                None => forall|i: int|
                    0 <= i < self.inner.len() ==> (#[trigger] self.inner@[i]).0 != address,
            },
            r is Some <==> self.model().inner.contains_key(address),
            self.wf() && r is Some ==> self.model().inner[address]
                == self.inner@[r->Some_0 as int].1.model(),
    {
        let mut i: usize = 0;
        while i < self.inner.len()
            invariant
                i <= self.inner.len(),
                forall|k: int| 0 <= k < i ==> (#[trigger] self.inner@[k]).0 != address,
            decreases self.inner.len() - i,
        {
            if self.inner[i].0 == address {
                proof {
                    lemma_keys(self.inner@, as_inner(), address);
                    if self.wf() {
                        lemma_items(self.inner@, as_inner(), i as int);
                    }
                }
                return Some(i);
            }
            i += 1;
        }
        proof {
            lemma_keys(self.inner@, as_inner(), address);
        }
        None
    }

    /// Adds what belongs to an address that has nothing yet.
    pub fn push_inner(&mut self, address: B256, value: Inner<K, S>)
        requires
            old(self).wf(),
            !old(self).model().inner.contains_key(address),
            value.wf(),
        ensures
            final(self).wf(),
            final(self).accounts == old(self).accounts,
            final(self).inner@ == old(self).inner@.push((address, value)),
            final(self).model() == (LayeredModel {
                accounts: old(self).model().accounts,
                inner: old(self).model().inner.insert(address, value.model()),
            }),
    {
        let ghost before = self.inner@;
        self.inner.push((address, value));
        proof {
            lemma_push(before, as_inner(), (address, value));
        }
    }

    /// Lays changes over these.
    pub fn extend_ref_and_sort(&mut self, other: &Layered<K, A, S>)
        requires
            old(self).wf(),
            other.wf(),
        ensures
            final(self).wf(),
            final(self).model() == over(old(self).model(), other.model()),
    {
        let ghost lower = self.model();
        self.accounts.extend_ref(&other.accounts);
        let ghost accounts = self.accounts@;
        let mut n: usize = 0;
        proof {
            let taken = LayeredModel {
                accounts: other.accounts@,
                inner: inner_map(other.inner@.take(0)),
            };
            assert(self.model() =~= over(lower, taken));
        }
        while n < other.inner.len()
            invariant
                n <= other.inner.len(),
                self.wf(),
                other.wf(),
                self.model() == over(
                    lower,
                    LayeredModel {
                        accounts: other.accounts@,
                        inner: inner_map(other.inner@.take(n as int)),
                    },
                ),
            decreases other.inner.len() - n,
        {
            let address = other.inner[n].0;
            let ghost item = other.inner@[n as int];
            let ghost before = self.model();
            let ghost taken = inner_map(other.inner@.take(n as int));
            proof {
                assert(item.1.wf());
                assert(other.inner@.take(n + 1).drop_last() =~= other.inner@.take(n as int));
                lemma_keys(other.inner@.take(n as int), as_inner(), address);
                assert(!taken.contains_key(address)) by {
                    if taken.contains_key(address) {
                        let k = choose|k: int|
                            0 <= k < n && (#[trigger] other.inner@.take(n as int)[k]).0 == address;
                        assert(other.inner@[k].0 != other.inner@[n as int].0);
                    }
                }
            }
            match self.find_inner(address) {
                Some(i) => {
                    let mut merged = self.inner[i].1.copy();
                    proof {
                        assert(self.inner@[i as int].1.wf());
                    }
                    merged.extend_ref(&other.inner[n].1);
                    proof {
                        lemma_update(self.inner@, as_inner(), i as int, (address, merged));
                    }
                    self.inner.set(i, (address, merged));
                },
                None => {
                    self.push_inner(address, other.inner[n].1.copy());
                },
            }
            n += 1;
            proof {
                let next = LayeredModel {
                    accounts: other.accounts@,
                    inner: inner_map(other.inner@.take(n as int)),
                };
                assert(next.inner == taken.insert(address, item.1.model()));
                assert(self.model().inner =~= over(lower, next).inner);
                assert(self.model().accounts == over(lower, next).accounts);
            }
        }
        proof {
            assert(other.inner@.take(n as int) =~= other.inner@);
        }
    }
}

} // verus!
