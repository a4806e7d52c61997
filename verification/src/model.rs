//! The storage as mathematics: what it holds, what the operations of the engine make of
//! it, and what holds of it while queries are fetched.

use vstd::prelude::*;
use crate::active_query::{
    cycle_from, record_accumulated, record_child, record_read, record_untracked_read,
    stack_grows_to, stack_keys, ActiveQueryView,
};
use crate::dependencies::{lemma_extend_unique, lemma_push_unique, reversed};
use crate::ingredient::{flavor_of, recovery_of, CycleRecoveryStrategy, Ingredient, StorageFlavor};
use crate::key::DatabaseKeyIndex;
use crate::memo::MemoView;
use crate::revision::Revision;
use crate::runtime::{HandleView, RuntimeView};
use crate::QueryError;

verus! {

/// The storage as mathematics.
pub struct StorageView<V> {
    /// The declarations of the queries, by index.
    pub global_storage: Seq<Ingredient<V>>,
    /// The cached entries.
    pub query_store: Map<DatabaseKeyIndex, MemoView<V>>,
    /// The revision, the stack of active queries, and the holds.
    pub runtime: RuntimeView<V>,
}

/// What the entries reachable from the queries of `work` have accumulated.
///
/// The entries are visited depth first: the last query of `work` comes first, and
/// what it has read is visited, in the order in which it was read, before the rest of
/// `work`. A query counts once: those of `visited` are passed over, as are those
/// without an entry. `fuel` bounds the number of steps.
pub open spec fn collect<V>(
    store: Map<DatabaseKeyIndex, MemoView<V>>,
    work: Seq<DatabaseKeyIndex>,
    visited: Seq<DatabaseKeyIndex>,
    fuel: nat,
) -> Seq<V>
    decreases fuel,
{
    if fuel == 0 || work.len() == 0 {
        Seq::empty()
    } else {
        let key = work.last();
        let rest = work.drop_last();
        if visited.contains(key) || !store.contains_key(key) {
            collect(store, rest, visited, (fuel - 1) as nat)
        } else {
            store[key].accumulated + collect(
                store,
                rest + reversed(store[key].dependencies),
                visited.push(key),
                (fuel - 1) as nat,
            )
        }
    }
}

impl<V> StorageView<V> {
    /// The storage of a new database.
    pub open spec fn start() -> StorageView<V> {
        StorageView {
            global_storage: Seq::empty(),
            query_store: Map::empty(),
            runtime: RuntimeView::start(),
        }
    }

    /// The revision at which the database stands.
    pub open spec fn revision(self) -> Revision {
        self.runtime.revision
    }

    /// The runtime is well formed, and so is every entry at the current revision.
    pub open spec fn wf(self) -> bool {
        &&& self.runtime.wf()
        &&& forall|key: DatabaseKeyIndex| #[trigger]
            self.query_store.contains_key(key) ==> self.query_store[key].wf(self.revision())
    }

    /// How the results of `key` are kept.
    pub open spec fn flavor(self, key: DatabaseKeyIndex) -> StorageFlavor {
        flavor_of(self.global_storage, key.ingredient_index)
    }

    /// What `key` does in a cycle.
    pub open spec fn recovery(self, key: DatabaseKeyIndex) -> CycleRecoveryStrategy<V> {
        recovery_of(self.global_storage, key.ingredient_index)
    }

    /// Whether the results of `key` are cached and confirmed through what was read.
    pub open spec fn is_cached(self, key: DatabaseKeyIndex) -> bool {
        self.flavor(key) is Memoized || self.flavor(key) is Volatile
    }

    /// The entry of `key`, if it has one.
    pub open spec fn memo(self, key: DatabaseKeyIndex) -> Option<MemoView<V>> {
        if self.query_store.contains_key(key) {
            Some(self.query_store[key])
        } else {
            None
        }
    }

    /// The value of the entry of `key`, if it has one.
    pub open spec fn value(self, key: DatabaseKeyIndex) -> Option<V> {
        if self.query_store.contains_key(key) {
            Some(self.query_store[key].value)
        } else {
            None
        }
    }

    /// Whether `key` has an entry that was confirmed at the current revision.
    pub open spec fn is_fresh(self, key: DatabaseKeyIndex) -> bool {
        self.query_store.contains_key(key) && self.query_store[key].is_fresh(self.revision())
    }

    /// Whether it is settled that the value of `key` is what it was at `revision`: an
    /// input has not been set since; a cached query is confirmed at the current revision
    /// and has not changed since `revision`. Of a transparent query, which has no entry,
    /// nothing is ever settled.
    pub open spec fn unchanged_since(self, key: DatabaseKeyIndex, revision: Revision) -> bool {
        match self.flavor(key) {
            StorageFlavor::Transparent => false,
            StorageFlavor::Input => self.query_store.contains_key(key)
                && !self.query_store[key].changed_after(revision),
            _ => self.is_fresh(key) && !self.query_store[key].changed_after(revision),
        }
    }

    /// Whether every query of `keys` is settled to be what it was at `revision`.
    pub open spec fn all_unchanged_since(self, keys: Seq<DatabaseKeyIndex>, revision: Revision)
        -> bool {
        forall|i: int| 0 <= i < keys.len() ==> self.unchanged_since(#[trigger] keys[i], revision)
    }

    /// Whether the entry of `key` can be confirmed without running `key`: it has read
    /// nothing untracked, it has read something, and all that it has read is settled
    /// to be what it was when the entry was last confirmed.
    pub open spec fn can_confirm(self, key: DatabaseKeyIndex) -> bool {
        &&& self.query_store.contains_key(key)
        &&& self.query_store[key].can_validate()
        &&& self.all_unchanged_since(
            self.query_store[key].dependencies,
            self.query_store[key].verified_at,
        )
    }

    /// Whether a fetch of `key` confirms its entry without running any query: the
    /// results of `key` are cached, its entry is stale, `key` is not executing, and the
    /// entry can be confirmed as the storage stands.
    pub open spec fn confirms(self, key: DatabaseKeyIndex) -> bool {
        &&& self.is_cached(key)
        &&& !self.is_fresh(key)
        &&& !self.runtime.is_active(key)
        &&& self.can_confirm(key)
    }

    /// Whether calling `key` now closes a cycle: `key` is executing, and it has no
    /// entry that could answer in its place.
    pub open spec fn closes_cycle(self, key: DatabaseKeyIndex) -> bool {
        &&& self.runtime.is_active(key)
        &&& self.flavor(key) is Transparent || (self.is_cached(key) && !self.is_fresh(key))
    }

    /// Whether a fetch of `key` has no function to run: `key` is an input that has a
    /// value, or a cached query whose entry is fresh or can be confirmed, be it after
    /// entries that it has read were confirmed, to the depth of `fuel`.
    pub open spec fn runs_nothing_for(self, key: DatabaseKeyIndex, fuel: nat) -> bool {
        ||| self.flavor(key) is Input && self.query_store.contains_key(key)
        ||| self.is_cached(key) && self.is_fresh(key)
        ||| self.confirmed(key, fuel) is Some
    }

    /// Whether nothing is to run for `key` in this revision: `key` is an input, or a
    /// cached query whose entry is fresh.
    pub open spec fn rests(self, key: DatabaseKeyIndex) -> bool {
        self.flavor(key) is Input || (self.is_cached(key) && self.is_fresh(key))
    }

    /// Whether the entry of `key` is out of reach for now: `key` is executing. (An input
    /// never executes.)
    pub open spec fn protects(self, key: DatabaseKeyIndex) -> bool {
        self.runtime.is_active(key) && !(self.flavor(key) is Input)
    }

    /// Whether `key` is the innermost active query and has not read anything yet.
    pub open spec fn starts(self, key: DatabaseKeyIndex) -> bool {
        &&& self.runtime.stack.len() > 0
        &&& self.runtime.stack.last() == ActiveQueryView::<V>::start(key)
    }

    /// Whether the function of `key` may run now. It has to be the innermost active
    /// query, with nothing read yet. A transparent query then always runs. A cached
    /// query runs only if it has no entry confirmed at the current revision and its
    /// entry, if any, cannot be confirmed without running it. An input never runs.
    pub open spec fn may_execute(self, key: DatabaseKeyIndex) -> bool {
        &&& self.starts(key)
        &&& match self.flavor(key) {
            StorageFlavor::Input => false,
            StorageFlavor::Transparent => true,
            _ => !self.is_fresh(key) && !self.can_confirm(key),
        }
    }

    /// The value that `key` takes in place of the failure `error`: its declared
    /// fallback, if `error` reports a cycle that `key` is part of.
    pub open spec fn fallback(self, key: DatabaseKeyIndex, error: QueryError) -> Option<V> {
        match error {
            QueryError::Cycle(report) => if report@.contains(key) {
                match self.recovery(key) {
                    CycleRecoveryStrategy::Fallback(value) => Some(value),
                    CycleRecoveryStrategy::Panic => None,
                }
            } else {
                None
            },
            _ => None,
        }
    }

    /// What is kept of the execution of `key`, which is on top of the stack, when its
    /// function returned `result`: the value, and whether it counts as untracked. A
    /// value that was returned is kept, untracked where the frame says so or the query
    /// is volatile. Of a failure the fallback is kept, untracked, if there is one.
    pub open spec fn outcome(self, key: DatabaseKeyIndex, result: Result<V, QueryError>) -> Option<
        (V, bool),
    > {
        match result {
            Ok(value) => Some(
                (value, self.runtime.stack.last().untracked || self.flavor(key) is Volatile),
            ),
            Err(error) => match self.fallback(key, error) {
                Some(value) => Some((value, true)),
                None => None,
            },
        }
    }

    /// The revision at which the value of a query changed last, where its former
    /// entry was `previous` and its value at the current revision is `value`.
    pub open spec fn changed_at(previous: Option<MemoView<V>>, value: V, current: Revision)
        -> Revision {
        MemoView::executed(previous, value, Seq::empty(), false, Seq::empty(), current).changed_at
    }

    /// What `root` and all that it has read, directly or through others, have
    /// accumulated: the values of each entry once, the entries depth first in the order
    /// in which they were read.
    pub open spec fn accumulated(self, root: DatabaseKeyIndex) -> Seq<V> {
        collect(self.query_store, seq![root], Seq::empty(), u64::MAX as nat)
    }

    /// The storage with another runtime.
    pub open spec fn with_runtime(self, runtime: RuntimeView<V>) -> StorageView<V> {
        StorageView { runtime, ..self }
    }

    /// The storage with another handle at work.
    pub open spec fn with_handle(self, handle: HandleView<V>) -> StorageView<V> {
        self.with_runtime(self.runtime.with_handle(handle))
    }

    /// The storage after the function of `key` was started.
    pub open spec fn began(self, key: DatabaseKeyIndex) -> StorageView<V> {
        self.with_runtime(self.runtime.began(key))
    }

    /// The storage with another stack.
    pub open spec fn with_stack(self, stack: Seq<ActiveQueryView<V>>) -> StorageView<V> {
        StorageView { runtime: RuntimeView { stack, ..self.runtime }, ..self }
    }

    /// The storage with `memo` as the entry of `key`.
    pub open spec fn with_memo(self, key: DatabaseKeyIndex, memo: MemoView<V>) -> StorageView<V> {
        StorageView { query_store: self.query_store.insert(key, memo), ..self }
    }

    /// The storage after the innermost active query, if there is one, has read `key`.
    pub open spec fn with_read(self, key: DatabaseKeyIndex) -> StorageView<V> {
        self.with_stack(record_read(self.runtime.stack, key))
    }

    /// The storage without the innermost active query.
    pub open spec fn popped(self) -> StorageView<V> {
        self.with_stack(self.runtime.stack.drop_last())
    }

    /// The storage with `key` as the new innermost active query.
    pub open spec fn pushed(self, key: DatabaseKeyIndex) -> StorageView<V> {
        self.with_stack(self.runtime.stack.push(ActiveQueryView::start(key)))
    }

    /// What the storage becomes when the stale entry of the cached query `key` is
    /// confirmed without running any function, if that can be done.
    ///
    /// It can be done for an entry that has read something and nothing untracked, of
    /// a query that is not executing, if everything that the entry has read is found
    /// unchanged since the entry was last confirmed: see [`StorageView::settled`].
    /// Then the entry is confirmed at the current revision, as are the entries that
    /// were confirmed on the way. `fuel` bounds the depth to which entries are followed.
    pub open spec fn confirmed(self, key: DatabaseKeyIndex, fuel: nat) -> Option<StorageView<V>>
        decreases fuel, 0nat, 0nat,
    {
        if fuel == 0 || !self.is_cached(key) || !self.query_store.contains_key(key)
            || self.is_fresh(key) || self.runtime.is_active(key)
            || !self.query_store[key].can_validate() {
            None
        } else {
            let memo = self.query_store[key];
            match self.pushed(key).settled(
                memo.dependencies,
                memo.verified_at,
                (fuel - 1) as nat,
            ) {
                Some(after) => Some(
                    after.popped().with_memo(key, memo.verified(self.revision())),
                ),
                None => None,
            }
        }
    }

    /// What the storage becomes when `key` is found unchanged since `revision` without
    /// running any function, if that can be done: an input has to have a value that
    /// has not changed since; a cached query has to have an entry that has not
    /// changed since and that is fresh or can be confirmed.
    pub open spec fn settled_one(self, key: DatabaseKeyIndex, revision: Revision, fuel: nat)
        -> Option<StorageView<V>>
        decreases fuel, 0nat, 1nat,
    {
        match self.flavor(key) {
            StorageFlavor::Transparent => None,
            StorageFlavor::Input => if self.unchanged_since(key, revision) {
                Some(self)
            } else {
                None
            },
            _ => if self.is_fresh(key) {
                if self.unchanged_since(key, revision) {
                    Some(self)
                } else {
                    None
                }
            } else {
                match self.confirmed(key, fuel) {
                    Some(after) => if after.unchanged_since(key, revision) {
                        Some(after)
                    } else {
                        None
                    },
                    None => None,
                }
            },
        }
    }

    /// What the storage becomes when the queries of `keys` are found unchanged since
    /// `revision`, one after the other, without running any function, if that can be
    /// done.
    pub open spec fn settled(self, keys: Seq<DatabaseKeyIndex>, revision: Revision, fuel: nat)
        -> Option<StorageView<V>>
        decreases fuel, 1nat, keys.len(),
    {
        if keys.len() == 0 {
            Some(self)
        } else {
            match self.settled_one(keys.first(), revision, fuel) {
                Some(next) => next.settled(keys.drop_first(), revision, fuel),
                None => None,
            }
        }
    }

    /// The storage after a request to set the input `key` to `value`. While snapshots
    /// are alive only the request is remembered. Otherwise the revision advances and
    /// the entry of `key` is replaced.
    pub open spec fn after_set(self, key: DatabaseKeyIndex, value: V) -> StorageView<V> {
        let runtime = self.runtime.after_write_request();
        if self.runtime.readers > 0 {
            StorageView { runtime, ..self }
        } else {
            StorageView {
                runtime,
                query_store: self.query_store.insert(
                    key,
                    MemoView::set(value, runtime.revision),
                ),
                ..self
            }
        }
    }

    /// The storage after a request to take the value of the input `key` away.
    pub open spec fn after_remove(self, key: DatabaseKeyIndex) -> StorageView<V> {
        let runtime = self.runtime.after_write_request();
        if self.runtime.readers > 0 {
            StorageView { runtime, ..self }
        } else {
            StorageView { runtime, query_store: self.query_store.remove(key), ..self }
        }
    }

    /// The storage after the execution of `key`, which is on top of the stack, has
    /// ended with `result`: see [`crate::Storage::finish`].
    pub open spec fn finished(self, key: DatabaseKeyIndex, result: Result<V, QueryError>)
        -> StorageView<V> {
        let frame = self.runtime.stack.last();
        match self.outcome(key, result) {
            None => self.popped(),
            Some((value, untracked)) => if self.flavor(key) is Transparent {
                self.popped().with_stack(
                    record_child(
                        self.popped().runtime.stack,
                        ActiveQueryView { untracked, ..frame },
                    ),
                )
            } else {
                self.popped().with_memo(
                    key,
                    MemoView::executed(
                        self.memo(key),
                        value,
                        frame.dependencies,
                        untracked,
                        frame.accumulated,
                        self.revision(),
                    ),
                )
            },
        }
    }

    /// `later` is what this storage may have become while queries were fetched:
    /// the declarations, the revision and the holds are the same; functions may have
    /// been run, but of no input and of no cached query whose entry was fresh; the stack has the
    /// same frames but for what the innermost active query has read and accumulated
    /// since; every entry is still there and has at most become fresh; an input has the
    /// value that it had; and the entries of the active queries are untouched.
    pub open spec fn evolves_to(self, later: StorageView<V>) -> bool {
        &&& later.global_storage == self.global_storage
        &&& self.runtime.goes_on_to(later.runtime)
        &&& forall|i: int|
            self.runtime.executed.len() <= i < later.runtime.executed.len() ==> !self.rests(
                #[trigger] later.runtime.executed[i],
            )
        &&& stack_grows_to(self.runtime.stack, later.runtime.stack)
        &&& forall|key: DatabaseKeyIndex| #[trigger]
            self.query_store.contains_key(key) ==> later.query_store.contains_key(key)
                && self.query_store[key].advances_to(later.query_store[key], self.revision())
        &&& forall|key: DatabaseKeyIndex| #[trigger]
            self.query_store.contains_key(key) && self.flavor(key) is Input
                ==> later.query_store[key].value == self.query_store[key].value
                && later.query_store[key].changed_at == self.query_store[key].changed_at
        &&& forall|key: DatabaseKeyIndex|
            self.protects(key) ==> (#[trigger] later.query_store.contains_key(key)
                <==> self.query_store.contains_key(key))
        &&& forall|key: DatabaseKeyIndex|
            self.protects(key) && #[trigger] self.query_store.contains_key(key)
                ==> later.query_store[key] == self.query_store[key]
    }

    /// Whether `later` is what running `key` has made of this storage, with `kept` as
    /// the outcome: `key` started as the innermost active query, maybe after what it
    /// had read was looked at; its function was recorded as run and ran; and its
    /// execution ended as [`StorageView::finished`] tells, with what the function
    /// returned.
    pub open spec fn ran(self, key: DatabaseKeyIndex, kept: Result<V, QueryError>, later: Self)
        -> bool {
        exists|started: Self, returned: Self, inner: Result<V, QueryError>|
            #![trigger started.began(key).evolves_to(returned), returned.finished(key, inner)]
            {
                &&& self.pushed(key).evolves_to(started)
                &&& started.may_execute(key)
                &&& started.began(key).evolves_to(returned)
                &&& later == returned.finished(key, inner)
                &&& match returned.outcome(key, inner) {
                    Some((value, _)) => kept == Ok::<V, QueryError>(value),
                    None => kept is Err && kept == inner,
                }
            }
    }

    /// Whether `later` is this storage after the entry of `key` was confirmed in place,
    /// with `kept` as the outcome: the entry is what it was but that it is fresh, all
    /// that it had read is settled to be unchanged, and its value is the outcome.
    pub open spec fn reconfirmed(
        self,
        key: DatabaseKeyIndex,
        kept: Result<V, QueryError>,
        later: Self,
    ) -> bool {
        &&& self.query_store.contains_key(key)
        &&& kept == Ok::<V, QueryError>(self.query_store[key].value)
        &&& later.query_store.contains_key(key)
        &&& later.query_store[key] == self.query_store[key].verified(self.revision())
        &&& later.can_confirm_again(key, self.query_store[key])
    }

    /// What bringing the stale entry of the cached query `key` up to date does: `kept`
    /// is the value that the entry holds afterwards, or the failure, and `later` is
    /// the storage that is left.
    ///
    /// - The storage stays well formed, has evolved, and has the stack that it had.
    /// - A query that is executing is reported as a cycle, with nothing changed.
    /// - Otherwise the entry was confirmed in place, or the query ran.
    /// - Where the entry can be confirmed without running any function, that is done.
    /// - After success the entry is fresh and holds the value; the value changed at the
    ///   current revision if it differs from the value of the former entry or there
    ///   was none, and otherwise when that one had changed. A failure leaves the entry.
    pub open spec fn refreshed(
        self,
        key: DatabaseKeyIndex,
        kept: Result<V, QueryError>,
        later: Self,
    ) -> bool {
        &&& later.wf()
        &&& self.evolves_to(later)
        &&& later.runtime.stack == self.runtime.stack
        &&& if self.runtime.is_active(key) {
            later == self && (kept matches Err(QueryError::Cycle(report)) && report@ == cycle_from(
                self.runtime.stack,
                key,
            ))
        } else {
            self.reconfirmed(key, kept, later) || self.ran(key, kept, later)
        }
        &&& forall|fuel: nat| #[trigger]
            self.confirmed(key, fuel) matches Some(confirmed) ==> later == confirmed && kept
                == Ok::<V, QueryError>(self.query_store[key].value)
        &&& match kept {
            Ok(value) => {
                &&& later.is_fresh(key)
                &&& later.query_store[key].value == value
                &&& later.query_store[key].changed_at == StorageView::changed_at(
                    self.memo(key),
                    value,
                    self.revision(),
                )
            },
            Err(_) => later.memo(key) == self.memo(key),
        }
    }

    /// What asking whether `key` may have changed since `revision` does: `changed` is
    /// the answer and `later` is the storage that is left.
    ///
    /// - The storage stays well formed, has evolved, and has the stack that it had.
    /// - The answer is no exactly if `key` is settled to be unchanged in `later`.
    /// - An input, a transparent query and a cached query with a fresh entry leave the
    ///   storage as it was.
    /// - A cached query with a stale entry, or none, is brought up to date as
    ///   [`StorageView::refreshed`] tells.
    /// - Whenever the entry of a cached query is fresh afterwards, its value changed at
    ///   the current revision if it differs from the value of the former entry or
    ///   there was none, and otherwise when that one had changed.
    pub open spec fn asked(
        self,
        key: DatabaseKeyIndex,
        revision: Revision,
        changed: bool,
        later: Self,
    ) -> bool {
        &&& later.wf()
        &&& self.evolves_to(later)
        &&& later.runtime.stack == self.runtime.stack
        &&& changed == !later.unchanged_since(key, revision)
        &&& self.flavor(key) is Input || self.flavor(key) is Transparent || self.is_fresh(key)
            ==> later == self
        &&& self.is_cached(key) && !self.is_fresh(key) ==> exists|kept: Result<V, QueryError>|
            #[trigger] self.refreshed(key, kept, later)
        &&& forall|fuel: nat| #[trigger]
            self.settled_one(key, revision, fuel) matches Some(settled) ==> later == settled
                && !changed
        &&& self.is_cached(key) && later.is_fresh(key) ==> later.query_store[key].changed_at
            == StorageView::changed_at(
            self.memo(key),
            later.query_store[key].value,
            self.revision(),
        )
    }

    /// What a fetch of `key` does: `result` is what it returns and `later` is the
    /// storage that it leaves.
    ///
    /// - The storage stays well formed and has evolved.
    /// - An input that has a value returns it; its entry is confirmed at the current
    ///   revision and the read is charged to the caller. An input without a value is
    ///   reported as missing, and nothing changes.
    /// - A cached query whose entry is fresh returns the value of the entry; only the
    ///   read is charged to the caller.
    /// - A query that is called while it executes is reported as a cycle, which lists
    ///   the queries from that one up to the caller; nothing changes.
    /// - A cached query whose entry is stale but can be confirmed, be it after entries
    ///   that it has read were confirmed in the same way, returns the value of the
    ///   entry and leaves the storage that [`StorageView::confirmed`] tells, with the
    ///   read charged to the caller. No query runs.
    /// - Whenever a cached query returns a value, that value is the value of its entry,
    ///   which is fresh; the value changed at the current revision if it differs from
    ///   the value of the former entry or there was none, and otherwise when that one
    ///   had changed; and the read is charged to the caller.
    /// - A cached query whose entry is stale, or that has none, is brought up to date
    ///   as [`StorageView::refreshed`] tells: the entry is confirmed in place, or the
    ///   function of the query runs and what it returns is kept.
    /// - A transparent query that is not executing runs, as [`StorageView::ran`] tells.
    /// - A failure leaves the stack as it was, and the entry of a cached query too.
    pub open spec fn fetched(
        self,
        key: DatabaseKeyIndex,
        result: Result<V, QueryError>,
        later: StorageView<V>,
    ) -> bool {
        &&& later.wf()
        &&& self.evolves_to(later)
        &&& self.flavor(key) is Input ==> match self.memo(key) {
            Some(memo) => result == Ok::<V, QueryError>(memo.value) && later == self.with_memo(
                key,
                memo.verified(self.revision()),
            ).with_read(key),
            None => result matches Err(QueryError::MissingInput(missing)) && missing == key
                && later == self,
        }
        &&& self.is_cached(key) && self.is_fresh(key) ==> result == Ok::<V, QueryError>(
            self.query_store[key].value,
        ) && later == self.with_read(key)
        &&& self.closes_cycle(key) ==> later == self && (
        result matches Err(QueryError::Cycle(report)) && report@ == cycle_from(
            self.runtime.stack,
            key,
        ))
        &&& forall|fuel: nat| #[trigger]
            self.confirmed(key, fuel) matches Some(confirmed) ==> result == Ok::<V, QueryError>(
                self.query_store[key].value,
            ) && later == confirmed.with_read(key)
        &&& self.is_cached(key) ==> match result {
            Ok(value) => {
                &&& later.is_fresh(key)
                &&& later.query_store[key].value == value
                &&& later.query_store[key].changed_at == StorageView::changed_at(
                    self.memo(key),
                    value,
                    self.revision(),
                )
                &&& later.runtime.stack == record_read(self.runtime.stack, key)
            },
            Err(_) => later.memo(key) == self.memo(key),
        }
        &&& self.is_cached(key) && !self.is_fresh(key) ==> self.refreshed(
            key,
            result,
            later.with_stack(self.runtime.stack),
        )
        &&& self.flavor(key) is Transparent && !self.runtime.is_active(key) ==> self.ran(
            key,
            result,
            later,
        )
        &&& result is Err ==> later.runtime.stack == self.runtime.stack
    }
}

impl<V> StorageView<V> {
    /// An entry that was confirmed at the current revision is not older than what it
    /// read: whatever it read that has an entry changed no later than the entry was
    /// confirmed.
    pub proof fn law_dependency_not_newer(self, key: DatabaseKeyIndex, i: int)
        requires
            self.wf(),
            self.is_fresh(key),
            0 <= i < self.query_store[key].dependencies.len(),
            self.query_store.contains_key(self.query_store[key].dependencies[i]),
        ensures
            !self.query_store[self.query_store[key].dependencies[i]].changed_after(
                self.query_store[key].verified_at,
            ),
    {
        let read = self.query_store[key].dependencies[i];
        assert(self.query_store[read].wf(self.revision()));
    }

    /// Growing is preserved along a chain of stacks.
    pub proof fn lemma_stack_grows_transitive(
        first: Seq<ActiveQueryView<V>>,
        second: Seq<ActiveQueryView<V>>,
        third: Seq<ActiveQueryView<V>>,
    )
        requires
            stack_grows_to(first, second),
            stack_grows_to(second, third),
        ensures
            stack_grows_to(first, third),
            stack_keys(first) == stack_keys(second),
    {
        assert(stack_keys(first) =~= stack_keys(second)) by {
            assert forall|i: int| 0 <= i < first.len() implies stack_keys(first)[i] == stack_keys(
                second,
            )[i] by {
                if i < first.len() - 1 {
                    assert(second[i] == first[i]);
                }
            }
        }
        assert forall|i: int| 0 <= i < first.len() - 1 implies third[i] == first[i] by {
            assert(second[i] == first[i]);
        }
    }

    /// What a storage evolves to evolves further.
    pub proof fn lemma_evolves_transitive(self, second: StorageView<V>, third: StorageView<V>)
        requires
            self.evolves_to(second),
            second.evolves_to(third),
        ensures
            self.evolves_to(third),
    {
        Self::lemma_stack_grows_transitive(
            self.runtime.stack,
            second.runtime.stack,
            third.runtime.stack,
        );
        assert forall|key: DatabaseKeyIndex| #[trigger]
            self.query_store.contains_key(key) implies third.query_store.contains_key(key)
            && self.query_store[key].advances_to(third.query_store[key], self.revision()) by {
            assert(second.query_store.contains_key(key));
        }
        assert forall|key: DatabaseKeyIndex| #[trigger]
            self.query_store.contains_key(key) && self.flavor(key) is Input implies {
            &&& third.query_store[key].value == self.query_store[key].value
            &&& third.query_store[key].changed_at == self.query_store[key].changed_at
        } by {
            assert(second.query_store.contains_key(key));
        }
        assert forall|key: DatabaseKeyIndex| self.protects(key) implies (
        #[trigger] third.query_store.contains_key(key) <==> self.query_store.contains_key(key)) by {
            assert(second.protects(key));
            assert(second.query_store.contains_key(key) <==> self.query_store.contains_key(key));
        }
        assert forall|key: DatabaseKeyIndex|
            self.protects(key) && #[trigger] self.query_store.contains_key(
                key,
            ) implies third.query_store[key] == self.query_store[key] by {
            assert(second.protects(key));
            assert(second.query_store.contains_key(key));
        }
        assert forall|i: int|
            self.runtime.executed.len() <= i < third.runtime.executed.len() implies !self.rests(
            #[trigger] third.runtime.executed[i],
        ) by {
            let key = third.runtime.executed[i];
            if i < second.runtime.executed.len() {
                assert(second.runtime.executed[i] == key);
            } else if self.rests(key) {
                assert(second.query_store.contains_key(key));
                assert(second.rests(key));
            }
        }
    }

    /// A storage stays well formed when its revision does not go back and every
    /// entry is one that it had, or is well formed now.
    pub proof fn lemma_entries_kept(self, later: StorageView<V>)
        requires
            self.wf(),
            later.runtime.wf(),
            self.revision().generation <= later.revision().generation,
            forall|key: DatabaseKeyIndex| #[trigger]
                later.query_store.contains_key(key) ==> {
                    ||| self.query_store.contains_key(key) && later.query_store[key]
                        == self.query_store[key]
                    ||| later.query_store[key].wf(later.revision())
                },
        ensures
            later.wf(),
    {
        assert forall|key: DatabaseKeyIndex| #[trigger]
            later.query_store.contains_key(key) implies later.query_store[key].wf(
            later.revision(),
        ) by {
            if self.query_store.contains_key(key) {
                assert(self.query_store[key].wf(self.revision()));
            }
        }
    }

    /// A storage evolves to itself.
    pub proof fn lemma_evolves_reflexive(self)
        ensures
            self.evolves_to(self),
    {
    }

    /// Whether a query is settled is a matter of the entries, the declarations and the
    /// revision alone.
    pub proof fn lemma_unchanged_anywhere(
        self,
        other: StorageView<V>,
        key: DatabaseKeyIndex,
        revision: Revision,
    )
        requires
            self.unchanged_since(key, revision),
            other.query_store == self.query_store,
            other.global_storage == self.global_storage,
            other.revision() == self.revision(),
        ensures
            other.unchanged_since(key, revision),
    {
    }

    /// What is settled stays settled while the storage evolves.
    pub proof fn lemma_unchanged_stable(
        self,
        later: StorageView<V>,
        key: DatabaseKeyIndex,
        revision: Revision,
    )
        requires
            self.evolves_to(later),
            self.unchanged_since(key, revision),
        ensures
            later.unchanged_since(key, revision),
    {
        assert(self.query_store.contains_key(key));
    }

    /// What the innermost active query records lets the storage evolve and keeps it well
    /// formed: a read, an untracked read, an accumulated value, or all that a query
    /// which it called has recorded.
    pub proof fn lemma_recorded(self, stack: Seq<ActiveQueryView<V>>)
        requires
            self.wf(),
            ({
                let before = self.runtime.stack;
                ||| exists|key: DatabaseKeyIndex| stack == record_read(before, key)
                ||| stack == record_untracked_read(before)
                ||| exists|value: V| stack == record_accumulated(before, value)
                ||| exists|child: ActiveQueryView<V>| child.wf() && stack == record_child(before, child)
            }),
        ensures
            self.evolves_to(self.with_stack(stack)),
            self.with_stack(stack).wf(),
    {
        let before = self.runtime.stack;
        if before.len() > 0 {
            assert(before.last().wf());
            if exists|key: DatabaseKeyIndex| stack == record_read(before, key) {
                let key = choose|key: DatabaseKeyIndex| stack == record_read(before, key);
                lemma_push_unique(before.last().dependencies, key);
            }
            if exists|child: ActiveQueryView<V>| child.wf() && stack == record_child(before, child) {
                let child = choose|child: ActiveQueryView<V>|
                    child.wf() && stack == record_child(before, child);
                lemma_extend_unique(before.last().dependencies, child.dependencies);
            }
            assert(stack_keys(stack) =~= stack_keys(before));
            assert forall|i: int| 0 <= i < stack.len() implies (#[trigger] stack[i]).wf() by {
                if i < before.len() - 1 {
                    assert(before[i].wf());
                }
            }
        }
    }

    /// What holds of a storage with a frame on top of its stack while it evolves, holds
    /// of the storage below that frame.
    pub proof fn lemma_popped_evolves(self, later: StorageView<V>)
        requires
            self.runtime.wf(),
            self.runtime.stack.len() > 0,
            self.evolves_to(later),
        ensures
            self.popped().evolves_to(later.popped()),
            later.popped().runtime.stack == self.popped().runtime.stack,
    {
        let before = self.runtime.stack;
        let after = later.runtime.stack;
        assert(after.drop_last() =~= before.drop_last());
        assert forall|key: DatabaseKeyIndex| self.popped().protects(key) implies self.protects(
            key,
        ) by {
            let keys = stack_keys(before.drop_last());
            let i = choose|i: int| 0 <= i < keys.len() && keys[i] == key;
            assert(stack_keys(before)[i] == key);
        }
    }

    /// The query on top of a well-formed stack is not on the stack a second time.
    pub proof fn lemma_not_below_top(self, key: DatabaseKeyIndex)
        requires
            self.runtime.wf(),
            self.runtime.stack.len() > 0,
            self.runtime.stack.last().database_key == key,
        ensures
            !self.popped().runtime.is_active(key),
            self.runtime.is_active(key),
    {
        let stack = self.runtime.stack;
        let keys = stack_keys(stack);
        assert(keys[stack.len() - 1] == key);
        let below = stack_keys(stack.drop_last());
        if below.contains(key) {
            let i = choose|i: int| 0 <= i < below.len() && below[i] == key;
            assert(keys[i] == key);
        }
    }

    /// A query that is not executing can start: the storage stays well formed, and
    /// below the new frame it is what it was.
    pub proof fn lemma_pushed(self, key: DatabaseKeyIndex)
        requires
            self.wf(),
            !self.runtime.is_active(key),
        ensures
            self.pushed(key).wf(),
            self.pushed(key).popped() == self,
            self.pushed(key).runtime.is_active(key),
    {
        let before = self.runtime.stack;
        let after = self.pushed(key).runtime.stack;
        assert(after.drop_last() =~= before);
        let keys = stack_keys(after);
        assert(keys[before.len() as int] == key);
        assert forall|i: int, j: int|
            0 <= i < keys.len() && 0 <= j < keys.len() && i != j implies keys[i] != keys[j] by {
            if i < before.len() && j < before.len() {
                assert(stack_keys(before)[i] != stack_keys(before)[j]);
            } else if i < before.len() {
                assert(stack_keys(before)[i] == keys[i]);
            } else {
                assert(stack_keys(before)[j] == keys[j]);
            }
        }
        assert forall|i: int| 0 <= i < after.len() implies (#[trigger] after[i]).wf() by {
            if i < before.len() {
                assert(before[i].wf());
            }
        }
        assert(self.pushed(key).query_store == self.query_store);
    }

    /// Confirming the stale entry of a query that is not executing lets the storage
    /// evolve and keeps it well formed.
    pub proof fn lemma_with_confirmed(self, key: DatabaseKeyIndex)
        requires
            self.wf(),
            self.query_store.contains_key(key),
            !self.runtime.is_active(key),
        ensures
            self.evolves_to(
                self.with_memo(key, self.query_store[key].verified(self.revision())),
            ),
            self.with_memo(key, self.query_store[key].verified(self.revision())).wf(),
    {
        let memo = self.query_store[key];
        let later = self.with_memo(key, memo.verified(self.revision()));
        assert(memo.wf(self.revision()));
        assert forall|other: DatabaseKeyIndex| #[trigger]
            later.query_store.contains_key(other) implies later.query_store[other].wf(
            later.revision(),
        ) by {
            if other != key {
                assert(self.query_store[other].wf(self.revision()));
            }
        }
    }

    /// Confirming entries without running any function lets the storage evolve: what
    /// [`StorageView::confirmed`] tells is a well-formed storage with the same stack,
    /// in which the entry of `key` is fresh and is otherwise what it was.
    pub proof fn lemma_confirmed_evolves(self, key: DatabaseKeyIndex, fuel: nat)
        requires
            self.wf(),
            self.confirmed(key, fuel) is Some,
        ensures
            self.evolves_to(self.confirmed(key, fuel)->Some_0),
            self.confirmed(key, fuel)->Some_0.wf(),
            self.confirmed(key, fuel)->Some_0.runtime == self.runtime,
            self.confirmed(key, fuel)->Some_0.query_store.contains_key(key),
            self.confirmed(key, fuel)->Some_0.query_store[key] == self.query_store[key].verified(
                self.revision(),
            ),
            self.confirmed(key, fuel)->Some_0.can_confirm_again(key, self.query_store[key]),
        decreases fuel, 0nat, 0nat,
    {
        let memo = self.query_store[key];
        let pushed = self.pushed(key);
        self.lemma_pushed(key);
        pushed.lemma_settled_evolves(memo.dependencies, memo.verified_at, (fuel - 1) as nat);
        let after = pushed.settled(memo.dependencies, memo.verified_at, (fuel - 1) as nat)->Some_0;
        pushed.lemma_popped_evolves(after);
        assert(pushed.protects(key));
        assert(after.query_store[key] == memo);
        let below = after.popped();
        assert(below.runtime == self.runtime);
        assert(below.wf()) by {
            assert(below.query_store == after.query_store);
        }
        below.lemma_with_confirmed(key);
        self.lemma_evolves_transitive(below, below.with_memo(key, memo.verified(self.revision())));
    }

    /// Whether the entry `memo`, which `key` had before it was confirmed, could be
    /// confirmed as the storage stands now: everything that it had read is settled to
    /// be what it was when `memo` was last confirmed.
    pub open spec fn can_confirm_again(self, key: DatabaseKeyIndex, memo: MemoView<V>) -> bool {
        memo.can_validate() && self.all_unchanged_since(memo.dependencies, memo.verified_at)
    }

    /// Finding a query unchanged without running any function lets the storage evolve:
    /// what [`StorageView::settled_one`] tells is a well-formed storage with the same
    /// stack, in which the query is settled.
    pub proof fn lemma_settled_one_evolves(
        self,
        key: DatabaseKeyIndex,
        revision: Revision,
        fuel: nat,
    )
        requires
            self.wf(),
            self.settled_one(key, revision, fuel) is Some,
        ensures
            self.evolves_to(self.settled_one(key, revision, fuel)->Some_0),
            self.settled_one(key, revision, fuel)->Some_0.wf(),
            self.settled_one(key, revision, fuel)->Some_0.runtime == self.runtime,
            self.settled_one(key, revision, fuel)->Some_0.unchanged_since(key, revision),
        decreases fuel, 0nat, 1nat,
    {
        if self.is_cached(key) && !self.is_fresh(key) {
            self.lemma_confirmed_evolves(key, fuel);
        }
    }

    /// Finding queries unchanged one after the other without running any function lets
    /// the storage evolve: what [`StorageView::settled`] tells is a well-formed storage
    /// with the same stack, in which all of them are settled.
    pub proof fn lemma_settled_evolves(
        self,
        keys: Seq<DatabaseKeyIndex>,
        revision: Revision,
        fuel: nat,
    )
        requires
            self.wf(),
            self.settled(keys, revision, fuel) is Some,
        ensures
            self.evolves_to(self.settled(keys, revision, fuel)->Some_0),
            self.settled(keys, revision, fuel)->Some_0.wf(),
            self.settled(keys, revision, fuel)->Some_0.runtime == self.runtime,
            self.settled(keys, revision, fuel)->Some_0.all_unchanged_since(keys, revision),
        decreases fuel, 1nat, keys.len(),
    {
        if keys.len() > 0 {
            self.lemma_settled_one_evolves(keys.first(), revision, fuel);
            let next = self.settled_one(keys.first(), revision, fuel)->Some_0;
            next.lemma_settled_evolves(keys.drop_first(), revision, fuel);
            let last = next.settled(keys.drop_first(), revision, fuel)->Some_0;
            self.lemma_evolves_transitive(next, last);
            next.lemma_unchanged_stable(last, keys.first(), revision);
            assert forall|i: int| 0 <= i < keys.len() implies last.unchanged_since(
                #[trigger] keys[i],
                revision,
            ) by {
                if i > 0 {
                    assert(keys.drop_first()[i - 1] == keys[i]);
                }
            }
        }
    }

    /// Queries that are settled as the storage stands are found unchanged without a
    /// change to the storage.
    pub proof fn lemma_settled_at_once(
        self,
        keys: Seq<DatabaseKeyIndex>,
        revision: Revision,
        fuel: nat,
    )
        requires
            self.all_unchanged_since(keys, revision),
        ensures
            self.settled(keys, revision, fuel) == Some(self),
        decreases keys.len(),
    {
        if keys.len() > 0 {
            assert(self.unchanged_since(keys[0], revision));
            assert(self.settled_one(keys.first(), revision, fuel) == Some(self));
            assert forall|i: int| 0 <= i < keys.drop_first().len() implies self.unchanged_since(
                #[trigger] keys.drop_first()[i],
                revision,
            ) by {
                assert(keys.drop_first()[i] == keys[i + 1]);
            }
            self.lemma_settled_at_once(keys.drop_first(), revision, fuel);
        }
    }

    /// An entry that can be confirmed as the storage stands is confirmed without a
    /// change to any other entry.
    pub proof fn lemma_confirms_at_once(self, key: DatabaseKeyIndex)
        requires
            self.wf(),
            self.confirms(key),
        ensures
            self.confirmed(key, 1) == Some(
                self.with_memo(key, self.query_store[key].verified(self.revision())),
            ),
    {
        let memo = self.query_store[key];
        let pushed = self.pushed(key);
        self.lemma_pushed(key);
        assert forall|i: int| 0 <= i < memo.dependencies.len() implies pushed.unchanged_since(
            #[trigger] memo.dependencies[i],
            memo.verified_at,
        ) by {
            assert(self.unchanged_since(memo.dependencies[i], memo.verified_at));
        }
        pushed.lemma_settled_at_once(memo.dependencies, memo.verified_at, 0);
    }
}

} // verus!
