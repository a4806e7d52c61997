//! The table of cached entries, one for each query that has a value.

use vstd::prelude::*;
use rustc_hash::FxHashMap;
use crate::key::{key_space, DatabaseKeyIndex};
use crate::memo::{view_of, Memo, MemoView};
use crate::revision::Revision;
use crate::value::QueryValue;

verus! {

/// The hasher of `rustc_hash`, which the table hashes its keys with. Nothing is said
/// of what is inside.
#[verifier::external_type_specification]
#[verifier::external_body]
pub struct ExFxHasher(rustc_hash::FxHasher);

/// The builder that makes a hasher by `Default`, as `rustc_hash::FxHashMap` has it.
/// Nothing is said of what is inside.
#[verifier::external_type_specification]
#[verifier::external_body]
#[verifier::reject_recursive_types(H)]
pub struct ExBuildHasherDefault<H>(core::hash::BuildHasherDefault<H>);

/// Looks `code` up in `slots`, by `HashMap::get` with the hasher of `rustc_hash`.
///
/// `FxHasher` starts from a fixed state and hashes a `u64` by a fixed formula, so the
/// map finds an entry exactly when one was inserted under the same number and not
/// removed since.
#[verifier::external_body]
fn slots_get<V>(slots: &FxHashMap<u64, Memo<V>>, code: u64) -> (found: Option<&Memo<V>>)
    ensures
        found == (if slots@.contains_key(code) {
            Some(&slots@[code])
        } else {
            None
        }),
{
    slots.get(&code)
}

/// Puts `memo` under `code` in `slots`, by `HashMap::insert` with the hasher of
/// `rustc_hash`: afterwards `code` maps to `memo`, and every other number maps to
/// what it mapped to before.
#[verifier::external_body]
fn slots_insert<V>(slots: &mut FxHashMap<u64, Memo<V>>, code: u64, memo: Memo<V>)
    ensures
        final(slots)@ == old(slots)@.insert(code, memo),
{
    slots.insert(code, memo);
}

/// Takes the entry under `code` out of `slots`, by `HashMap::remove` with the hasher of
/// `rustc_hash`: the entry that was there is returned, and every other number maps to
/// what it mapped to before.
#[verifier::external_body]
fn slots_remove<V>(slots: &mut FxHashMap<u64, Memo<V>>, code: u64) -> (taken: Option<Memo<V>>)
    ensures
        final(slots)@ == old(slots)@.remove(code),
        taken == (if old(slots)@.contains_key(code) {
            Some(old(slots)@[code])
        } else {
            None
        }),
{
    slots.remove(&code)
}

/// The cached entries of all queries.
pub struct QueryStore<V> {
    slots: FxHashMap<u64, Memo<V>>,
}

impl<V> View for QueryStore<V> {
    type V = Map<DatabaseKeyIndex, MemoView<V>>;

    closed spec fn view(&self) -> Map<DatabaseKeyIndex, MemoView<V>> {
        Map::new(
            |key: DatabaseKeyIndex| self.slots@.contains_key(key.code() as u64),
            |key: DatabaseKeyIndex| self.slots@[key.code() as u64]@,
        )
    }
}

impl<V: QueryValue> QueryStore<V> {
    /// A table without entries.
    pub fn new() -> (store: QueryStore<V>)
        ensures
            store@ == Map::<DatabaseKeyIndex, MemoView<V>>::empty(),
    {
        let store = QueryStore { slots: FxHashMap::default() };
        assert(store@ =~= Map::<DatabaseKeyIndex, MemoView<V>>::empty());
        store
    }

    /// The entry of `key`, if it has one.
    pub fn get(&self, key: DatabaseKeyIndex) -> (found: Option<&Memo<V>>)
        ensures
            view_of(found) == (if self@.contains_key(key) {
                Some(self@[key])
            } else {
                None
            }),
    {
        proof {
            key.lemma_code_bijective();
        }
        slots_get(&self.slots, key.to_code())
    }

    /// Whether `key` has an entry.
    pub fn contains(&self, key: DatabaseKeyIndex) -> (found: bool)
        ensures
            found == self@.contains_key(key),
    {
        self.get(key).is_some()
    }

    /// Makes `memo` the entry of `key`.
    pub fn insert(&mut self, key: DatabaseKeyIndex, memo: Memo<V>)
        ensures
            final(self)@ == old(self)@.insert(key, memo@),
    {
        proof {
            key.lemma_code_bijective();
        }
        slots_insert(&mut self.slots, key.to_code(), memo);
        proof {
            assert forall|other: DatabaseKeyIndex| other.code() == key.code() implies other
                == key by {
                other.lemma_code_injective(key);
            }
            assert forall|other: DatabaseKeyIndex| 0 <= #[trigger] other.code() < key_space() by {
                other.lemma_code_bijective();
            }
            assert(self@ =~= old(self)@.insert(key, memo@));
        }
    }

    /// Removes the entry of `key` and returns it.
    pub fn remove(&mut self, key: DatabaseKeyIndex) -> (taken: Option<Memo<V>>)
        ensures
            final(self)@ == old(self)@.remove(key),
            match taken {
                Some(memo) => old(self)@.contains_key(key) && memo@ == old(self)@[key],
                None => !old(self)@.contains_key(key),
            },
    {
        proof {
            key.lemma_code_bijective();
        }
        let taken = slots_remove(&mut self.slots, key.to_code());
        proof {
            assert forall|other: DatabaseKeyIndex| other.code() == key.code() implies other
                == key by {
                other.lemma_code_injective(key);
            }
            assert forall|other: DatabaseKeyIndex| 0 <= #[trigger] other.code() < key_space() by {
                other.lemma_code_bijective();
            }
            assert(self@ =~= old(self)@.remove(key));
        }
        taken
    }

    /// Confirms the entry of `key` at `current` and leaves the rest of it as it is.
    /// Without an entry nothing happens.
    pub fn mark_verified(&mut self, key: DatabaseKeyIndex, current: Revision)
        ensures
            old(self)@.contains_key(key) ==> final(self)@ == old(self)@.insert(
                key,
                old(self)@[key].verified(current),
            ),
            !old(self)@.contains_key(key) ==> final(self)@ == old(self)@,
    {
        match self.remove(key) {
            Some(memo) => {
                let mut memo = memo;
                memo.verified_at = current;
                self.insert(key, memo);
                assert(self@ =~= old(self)@.insert(key, old(self)@[key].verified(current)));
            },
            None => {
                assert(self@ =~= old(self)@);
            },
        }
    }
}

} // verus!
