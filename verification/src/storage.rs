//! The storage of a database: the declarations of its queries, their cached entries,
//! and the runtime. The engine that fetches, validates and executes queries works on
//! it.

use vstd::prelude::*;
use crate::active_query::{
    append_values, cycle_from, record_accumulated, record_child, record_read,
    record_untracked_read, stack_keys, ActiveQueryView,
};
use crate::dependencies::{add_reversed, contains, copy_keys};
use crate::ingredient::{CycleRecoveryStrategy, GlobalStorage, Ingredient, StorageFlavor};
use crate::key::{DatabaseKeyIndex, IngredientIndex};
use crate::memo::Memo;
use crate::model::{collect, StorageView};
use crate::query_store::QueryStore;
use crate::revision::Revision;
use crate::runtime::{Runtime, RuntimeView, Snapshot};
use crate::value::QueryValue;
use crate::{
    found_right, kept_sound, lemma_found_right_finishing, lemma_found_right_kept,
    lemma_found_right_since, lemma_kept_sound_at_input, lemma_kept_sound_beside,
    lemma_kept_sound_confirming, lemma_kept_sound_finishing, lemma_kept_sound_heard,
    lemma_kept_sound_transitive, Event, QueryContext, QueryContextStorageTypes, QueryError,
};

verus! {

/// Everything that the engine keeps for one database.
pub struct Storage<DB: QueryContextStorageTypes> {
    global_storage: GlobalStorage<DB::Value>,
    query_store: QueryStore<DB::Value>,
    runtime: Runtime<DB::Value>,
}

/// What became of a request to write.
#[derive(Clone, Debug, PartialEq, Eq)]
pub enum WriteOutcome<V> {
    /// The write was made. This is the value that the input had before, if it had one.
    Committed(Option<V>),
    /// Snapshots are alive: the write has to wait until they are released, and nothing
    /// was changed but that the request is remembered.
    Blocked,
}

impl<DB: QueryContextStorageTypes> View for Storage<DB> {
    type V = StorageView<DB::Value>;

    closed spec fn view(&self) -> StorageView<DB::Value> {
        StorageView {
            global_storage: self.global_storage@,
            query_store: self.query_store@,
            runtime: self.runtime@,
        }
    }
}

impl<DB: QueryContextStorageTypes> Default for Storage<DB> {
    /// The storage of a new database.
    fn default() -> (storage: Storage<DB>)
        ensures
            storage@ == StorageView::<DB::Value>::start(),
            storage@.wf(),
    {
        Storage::new()
    }
}

impl<DB: QueryContextStorageTypes> Storage<DB> {
    /// The storage of a new database: nothing declared, nothing cached, the first
    /// revision.
    pub fn new() -> (storage: Storage<DB>)
        ensures
            storage@ == StorageView::<DB::Value>::start(),
            storage@.wf(),
    {
        Storage {
            global_storage: GlobalStorage::new(),
            query_store: QueryStore::new(),
            runtime: Runtime::new(),
        }
    }

    /// Declares a query and returns its index: the number of queries declared before
    /// it. Returns `None`, and declares nothing, when the indices are used up.
    ///
    /// Queries are declared before they are fetched, not while one of them executes.
    pub fn declare(
        &mut self,
        flavor: StorageFlavor,
        recovery: CycleRecoveryStrategy<DB::Value>,
    ) -> (index: Option<IngredientIndex>)
        requires
            old(self)@.wf(),
            !old(self)@.runtime.query_in_progress(),
        ensures
            final(self)@.wf(),
            old(self)@.global_storage.len() <= u32::MAX ==> index == Some(
                IngredientIndex { index: old(self)@.global_storage.len() as u32 },
            ) && final(self)@ == (StorageView {
                global_storage: old(self)@.global_storage.push(Ingredient { flavor, recovery }),
                ..old(self)@
            }),
            old(self)@.global_storage.len() > u32::MAX ==> index.is_none() && final(self)@ == old(
                self,
            )@,
    {
        self.global_storage.declare(flavor, recovery)
    }

    /// The revision at which the database stands.
    pub fn current_revision(&self) -> (revision: Revision)
        ensures
            revision == self@.revision(),
    {
        self.runtime.current_revision()
    }

    /// Whether a writer waits for this revision to end.
    pub fn is_current_revision_canceled(&self) -> (canceled: bool)
        ensures
            canceled == self@.runtime.pending_write,
    {
        self.runtime.is_current_revision_canceled()
    }

    /// Advances the revision without setting an input: whatever cannot be tracked may
    /// have changed. While snapshots are alive the request has to wait, and `None` is
    /// returned.
    pub fn next_revision(&mut self) -> (revision: Option<Revision>)
        requires
            old(self)@.wf(),
            old(self)@.runtime.may_write(),
        ensures
            final(self)@.wf(),
            final(self)@ == old(self)@.with_runtime(old(self)@.runtime.after_write_request()),
            revision == (if old(self)@.runtime.readers > 0 {
                None
            } else {
                Some(final(self)@.revision())
            }),
    {
        let revision = self.runtime.request_write();
        proof {
            old(self)@.lemma_entries_kept(self@);
        }
        revision
    }

    /// Sets the input `key` to `value` in a new revision and returns the value that it
    /// had. While snapshots are alive the request has to wait: nothing is set.
    ///
    /// The value counts as changed at the new revision, whatever it was before: what
    /// has read the input will run again.
    pub fn set(&mut self, key: DatabaseKeyIndex, value: DB::Value) -> (outcome: WriteOutcome<
        DB::Value,
    >)
        requires
            old(self)@.wf(),
            old(self)@.runtime.may_write(),
            old(self)@.flavor(key) is Input,
        ensures
            final(self)@.wf(),
            final(self)@ == old(self)@.after_set(key, value),
            outcome == (if old(self)@.runtime.readers > 0 {
                WriteOutcome::<DB::Value>::Blocked
            } else {
                WriteOutcome::Committed(old(self)@.value(key))
            }),
    {
        match self.runtime.request_write() {
            None => WriteOutcome::Blocked,
            Some(current) => {
                let previous = match self.query_store.get(key) {
                    Some(memo) => Some(memo.value.duplicate()),
                    None => None,
                };
                let memo = Memo::executed(None, value, Vec::new(), false, Vec::new(), current);
                self.query_store.insert(key, memo);
                proof {
                    if old(self)@.query_store.contains_key(key) {
                        assert(old(self)@.query_store[key].wf(old(self)@.revision()));
                    }
                    old(self)@.lemma_entries_kept(self@);
                }
                WriteOutcome::Committed(previous)
            },
        }
    }

    /// Takes the value of the input `key` away in a new revision and returns it. While
    /// snapshots are alive the request has to wait: nothing is removed.
    pub fn remove(&mut self, key: DatabaseKeyIndex) -> (outcome: WriteOutcome<DB::Value>)
        requires
            old(self)@.wf(),
            old(self)@.runtime.may_write(),
            old(self)@.flavor(key) is Input,
        ensures
            final(self)@.wf(),
            final(self)@ == old(self)@.after_remove(key),
            outcome == (if old(self)@.runtime.readers > 0 {
                WriteOutcome::<DB::Value>::Blocked
            } else {
                WriteOutcome::Committed(old(self)@.value(key))
            }),
    {
        match self.runtime.request_write() {
            None => WriteOutcome::Blocked,
            Some(_) => {
                let previous = match self.query_store.remove(key) {
                    Some(memo) => Some(memo.value.duplicate()),
                    None => None,
                };
                proof {
                    if old(self)@.query_store.contains_key(key) {
                        assert(old(self)@.query_store[key].wf(old(self)@.revision()));
                    }
                    old(self)@.lemma_entries_kept(self@);
                }
                WriteOutcome::Committed(previous)
            },
        }
    }

    /// Takes a snapshot: a handle of its own on this storage, with no active query,
    /// that never writes. The storage counts it as a reader, and grants no write, until
    /// it is released.
    pub fn snapshot(&mut self) -> (snapshot: Snapshot<DB::Value>)
        requires
            old(self)@.wf(),
            !old(self)@.runtime.query_in_progress(),
            old(self)@.runtime.readers < usize::MAX,
        ensures
            final(self)@.wf(),
            final(self)@ == old(self)@.with_runtime(old(self)@.runtime.after_snapshot()),
            snapshot@ == RuntimeView::<DB::Value>::snapshot(),
    {
        let snapshot = self.runtime.snapshot();
        proof {
            assert(self@.query_store == old(self)@.query_store);
        }
        snapshot
    }

    /// Ends the life of a snapshot.
    pub fn release_snapshot(&mut self, snapshot: Snapshot<DB::Value>)
        requires
            old(self)@.runtime.readers > 0,
            snapshot@.read_only,
            snapshot@.stack.len() == 0,
        ensures
            final(self)@ == old(self)@.with_runtime(old(self)@.runtime.after_release()),
            old(self)@.wf() ==> final(self)@.wf(),
    {
        self.runtime.release_snapshot(snapshot);
        proof {
            assert(self@.query_store == old(self)@.query_store);
            assert(self@.runtime.stack == old(self)@.runtime.stack);
        }
    }

    /// What `root` and all that it has read, directly or through others, have
    /// accumulated, as the entries stand. Fetch `root` first to have them up to date.
    pub fn accumulated(&self, root: DatabaseKeyIndex) -> (values: Vec<DB::Value>)
        ensures
            values@ == self@.accumulated(root),
    {
        let mut values: Vec<DB::Value> = Vec::new();
        let mut work: Vec<DatabaseKeyIndex> = Vec::new();
        work.push(root);
        let mut visited: Vec<DatabaseKeyIndex> = Vec::new();
        let mut fuel: u64 = u64::MAX;
        assert(work@ =~= seq![root]);
        assert(values@ + collect(self@.query_store, work@, visited@, fuel as nat)
            =~= self@.accumulated(root));
        while fuel > 0 && work.len() > 0
            invariant
                values@ + collect(self@.query_store, work@, visited@, fuel as nat)
                    == self@.accumulated(root),
            decreases fuel,
        {
            let ghost store = self@.query_store;
            let ghost before = (values@, work@, visited@, fuel);
            fuel = fuel - 1;
            let key = work.pop().unwrap();
            assert(work@ == before.1.drop_last());
            if !contains(&visited, key) {
                match self.query_store.get(key) {
                    Some(memo) => {
                        append_values(&mut values, &memo.accumulated);
                        visited.push(key);
                        add_reversed(&mut work, &memo.dependencies);
                        assert(values@ + collect(store, work@, visited@, fuel as nat) =~= before.0
                            + collect(store, before.1, before.2, before.3 as nat));
                    },
                    None => {},
                }
            }
        }
        values
    }

    /// Gives access to the runtime.
    pub fn salsa_runtime(&self) -> (runtime: &Runtime<DB::Value>)
        ensures
            runtime@ == self@.runtime,
    {
        &self.runtime
    }

    /// Gives access to the runtime for changes. Whatever is done to the runtime is done
    /// to the storage.
    pub fn salsa_runtime_mut(&mut self) -> (runtime: &mut Runtime<DB::Value>)
        ensures
            runtime@ == old(self)@.runtime,
            final(self)@ == (StorageView { runtime: final(runtime)@, ..old(self)@ }),
    {
        &mut self.runtime
    }

    /// Gives access to the declarations of the queries.
    pub fn global_storage(&self) -> (global: &GlobalStorage<DB::Value>)
        ensures
            global@ == self@.global_storage,
    {
        &self.global_storage
    }

    /// Gives access to the cached entries.
    pub fn query_store(&self) -> (store: &QueryStore<DB::Value>)
        ensures
            store@ == self@.query_store,
    {
        &self.query_store
    }
}

impl<DB: QueryContext> Storage<DB> {
    /// Reads the input `key`: its value is returned, its entry is confirmed at the
    /// current revision, and the read is charged to the innermost active query.
    /// Without a value, nothing changes and the input is reported as missing.
    fn fetch_input(&mut self, key: DatabaseKeyIndex) -> (result: Result<DB::Value, QueryError>)
        requires
            old(self)@.wf(),
            old(self)@.flavor(key) is Input,
        ensures
            final(self)@.wf(),
            old(self)@.evolves_to(final(self)@),
            match old(self)@.memo(key) {
                Some(memo) => result == Ok::<DB::Value, QueryError>(memo.value) && final(self)@
                    == old(self)@.with_memo(key, memo.verified(old(self)@.revision())).with_read(
                    key,
                ),
                None => result matches Err(QueryError::MissingInput(missing)) && missing == key
                    && final(self)@ == old(self)@,
            },
    {
        let current = self.runtime.current_revision();
        let value = match self.query_store.get(key) {
            Some(memo) => memo.value.duplicate(),
            None => {
                return Err(QueryError::MissingInput(key));
            },
        };
        self.query_store.mark_verified(key, current);
        proof {
            let memo = old(self)@.query_store[key];
            let stamped = old(self)@.with_memo(key, memo.verified(current));
            assert(self@ == stamped);
            assert(old(self)@.evolves_to(stamped));
            assert(stamped.wf());
            stamped.lemma_recorded(record_read(stamped.runtime.stack, key));
            old(self)@.lemma_evolves_transitive(stamped, stamped.with_read(key));
        }
        self.runtime.report_query_read(key);
        Ok(value)
    }

    /// The value that `key` takes in place of the failure `error`: its declared
    /// fallback, if `error` reports a cycle that `key` is part of.
    fn fallback(&self, key: DatabaseKeyIndex, error: &QueryError) -> (value: Option<DB::Value>)
        ensures
            value == self@.fallback(key, *error),
    {
        match error {
            QueryError::Cycle(report) => {
                if report.involves(key) {
                    match self.global_storage.recovery(key.ingredient_index()) {
                        CycleRecoveryStrategy::Fallback(value) => Some(value),
                        CycleRecoveryStrategy::Panic => None,
                    }
                } else {
                    None
                }
            },
            _ => None,
        }
    }

    /// Ends the execution of `key`, which is on top of the stack, by confirming its
    /// entry at the current revision.
    fn confirm(&mut self, key: DatabaseKeyIndex)
        requires
            old(self)@.wf(),
            old(self)@.runtime.stack.len() > 0,
            old(self)@.runtime.stack.last().database_key == key,
            old(self)@.query_store.contains_key(key),
        ensures
            final(self)@.wf(),
            final(self)@ == old(self)@.with_memo(
                key,
                old(self)@.query_store[key].verified(old(self)@.revision()),
            ).popped(),
            old(self)@.popped().evolves_to(final(self)@),
    {
        let current = self.runtime.current_revision();
        self.query_store.mark_verified(key, current);
        let _ = self.runtime.pop_query();
        proof {
            old(self)@.lemma_not_below_top(key);
        }
    }

    /// Ends the execution of `key`, which is on top of the stack, with `result` as what
    /// its function returned.
    ///
    /// A value is kept: for a cached query it becomes the entry of `key`, together with
    /// what the frame of `key` recorded; for a transparent query what the frame recorded
    /// is charged to the caller. A failure is handed on and nothing is kept, unless it
    /// reports a cycle that `key` is part of and `key` has a fallback: then the fallback
    /// is kept as a value that cannot be confirmed.
    pub fn finish(&mut self, key: DatabaseKeyIndex, result: Result<DB::Value, QueryError>) -> (kept:
        Result<DB::Value, QueryError>)
        requires
            old(self)@.wf(),
            old(self)@.runtime.stack.len() > 0,
            old(self)@.runtime.stack.last().database_key == key,
        ensures
            final(self)@.wf(),
            final(self)@ == old(self)@.finished(key, result),
            match old(self)@.outcome(key, result) {
                Some((value, _)) => kept == Ok::<DB::Value, QueryError>(value),
                None => kept is Err && kept == result,
            },
    {
        let current = self.runtime.current_revision();
        let flavor = self.global_storage.flavor(key.ingredient_index());
        let frame = self.runtime.pop_query();
        proof {
            assert(self@ == old(self)@.popped());
            assert(self@.query_store == old(self)@.query_store);
            assert(self@.wf());
        }
        let (value, untracked) = match result {
            Ok(value) => (
                value,
                frame.untracked || match flavor {
                    StorageFlavor::Volatile => true,
                    _ => false,
                },
            ),
            Err(error) => match self.fallback(key, &error) {
                Some(value) => (value, true),
                None => {
                    return Err(error);
                },
            },
        };
        match flavor {
            StorageFlavor::Transparent => {
                let mut frame = frame;
                frame.untracked = untracked;
                proof {
                    assert(frame@.wf());
                    old(self)@.popped().lemma_recorded(
                        record_child(old(self)@.popped().runtime.stack, frame@),
                    );
                }
                self.runtime.report_child(&frame);
            },
            _ => {
                let memo = Memo::executed(
                    self.query_store.get(key),
                    value.duplicate(),
                    frame.dependencies,
                    untracked,
                    frame.accumulated,
                    current,
                );
                self.query_store.insert(key, memo);
                proof {
                    if old(self)@.query_store.contains_key(key) {
                        assert(old(self)@.query_store[key].wf(old(self)@.revision()));
                    }
                    old(self)@.lemma_entries_kept(self@);
                }
            },
        }
        Ok(value)
    }

    /// Runs the cached query `key`, which is on top of the stack, and ends its
    /// execution. Returns the value that was kept, or the failure.
    fn run(&mut self, db: &mut DB, key: DatabaseKeyIndex) -> (kept: Result<DB::Value, QueryError>)
        requires
            old(self)@.wf(),
            old(self)@.may_execute(key),
            old(self)@.is_cached(key),
        ensures
            final(self)@.wf(),
            final(self)@.runtime.stack == old(self)@.popped().runtime.stack,
            old(self)@.popped().evolves_to(final(self)@),
            exists|returned: StorageView<DB::Value>, inner: Result<DB::Value, QueryError>|
                #![trigger old(self)@.began(key).evolves_to(returned), returned.finished(key, inner)]
                {
                    &&& old(self)@.began(key).evolves_to(returned)
                    &&& final(self)@ == returned.finished(key, inner)
                    &&& match returned.outcome(key, inner) {
                        Some((value, _)) => kept == Ok::<DB::Value, QueryError>(value),
                        None => kept is Err && kept == inner,
                    }
                },
            match kept {
                Ok(value) => {
                    &&& final(self)@.is_fresh(key)
                    &&& final(self)@.query_store[key].value == value
                    &&& final(self)@.query_store[key].changed_at == StorageView::changed_at(
                        old(self)@.memo(key),
                        value,
                        old(self)@.revision(),
                    )
                },
                Err(_) => final(self)@.memo(key) == old(self)@.memo(key),
            },
            kept_sound(*old(db), old(self)@, *final(db), final(self)@),
    {
        self.runtime.record_execution(key);
        let ghost began = self@;
        proof {
            assert(began == old(self)@.began(key));
            assert(began.query_store == old(self)@.query_store);
            assert(old(self)@.evolves_to(began));
            lemma_kept_sound_beside(*old(db), old(self)@, began);
        }
        db.salsa_event(Event::WillExecute(key));
        let ghost told = *db;
        let result = db.execute(self, key);
        let ghost returned = self@;
        let ghost inner = result;
        let ghost ended = *db;
        proof {
            old(self)@.lemma_evolves_transitive(began, returned);
            old(self)@.lemma_not_below_top(key);
            old(self)@.lemma_popped_evolves(returned);
            assert(old(self)@.protects(key));
            assert(returned.memo(key) == old(self)@.memo(key));
        }
        let kept = self.finish(key, result);
        proof {
            assert(returned.popped().evolves_to(self@));
            old(self)@.popped().lemma_evolves_transitive(returned.popped(), self@);
            assert(old(self)@.began(key).evolves_to(returned));
            assert(self@ == returned.finished(key, inner));
            lemma_kept_sound_finishing(told, began, ended, returned, key, inner);
            lemma_kept_sound_heard(*old(db), told, began);
            lemma_kept_sound_transitive(*old(db), began, told, began, ended, self@);
            lemma_kept_sound_transitive(*old(db), old(self)@, *old(db), began, ended, self@);
        }
        if kept.is_ok() {
            db.salsa_event(Event::DidExecute(key));
        }
        proof {
            lemma_kept_sound_heard(ended, *db, self@);
            lemma_kept_sound_transitive(*old(db), old(self)@, ended, self@, *db, self@);
        }
        kept
    }

    /// Asks every query of `dependencies` whether it has changed since `verified_at`,
    /// in order, until one has. Returns whether none has.
    fn validate(
        &mut self,
        db: &mut DB,
        dependencies: &Vec<DatabaseKeyIndex>,
        verified_at: Revision,
    ) -> (unchanged: bool)
        requires
            old(self)@.wf(),
        ensures
            final(self)@.wf(),
            old(self)@.evolves_to(final(self)@),
            final(self)@.runtime.stack == old(self)@.runtime.stack,
            unchanged == (forall|i: int|
                0 <= i < dependencies@.len() ==> final(self)@.unchanged_since(
                    #[trigger] dependencies@[i],
                    verified_at,
                )),
            forall|fuel: nat| #[trigger]
                old(self)@.settled(dependencies@, verified_at, fuel) matches Some(later)
                    ==> final(self)@ == later && unchanged,
            kept_sound(*old(db), old(self)@, *final(db), final(self)@),
        decreases usize::MAX - old(self)@.runtime.stack.len(), 2int,
    {
        // The depth of the stack is a `usize`, which bounds how deep the calls can nest.
        let depth = self.runtime.depth();
        let mut i: usize = 0;
        assert(dependencies@.subrange(0, dependencies@.len() as int) =~= dependencies@);
        proof {
            lemma_kept_sound_beside(*old(db), old(self)@, old(self)@);
        }
        while i < dependencies.len()
            invariant
                i <= dependencies@.len(),
                self@.wf(),
                old(self)@.evolves_to(self@),
                kept_sound(*old(db), old(self)@, *db, self@),
                self@.runtime.stack == old(self)@.runtime.stack,
                depth == self@.runtime.stack.len(),
                forall|j: int|
                    0 <= j < i ==> self@.unchanged_since(#[trigger] dependencies@[j], verified_at),
                forall|fuel: nat| #[trigger]
                    old(self)@.settled(dependencies@, verified_at, fuel) matches Some(later)
                        ==> self@.settled(
                        dependencies@.subrange(i as int, dependencies@.len() as int),
                        verified_at,
                        fuel,
                    ) == Some(later),
            decreases dependencies@.len() - i,
        {
            let ghost before = self@;
            let ghost asking = *db;
            let ghost rest = dependencies@.subrange(i as int, dependencies@.len() as int);
            let changed = self.maybe_changed_after(db, dependencies[i], verified_at);
            proof {
                lemma_kept_sound_transitive(*old(db), old(self)@, asking, before, *db, self@);
                assert(rest.first() == dependencies@[i as int]);
                assert(rest.drop_first() =~= dependencies@.subrange(
                    i + 1,
                    dependencies@.len() as int,
                ));
                assert forall|fuel: nat| #[trigger]
                    old(self)@.settled(dependencies@, verified_at, fuel) is Some implies !changed
                    && self@.settled(
                    dependencies@.subrange(i + 1, dependencies@.len() as int),
                    verified_at,
                    fuel,
                ) == old(self)@.settled(dependencies@, verified_at, fuel) by {
                    assert(before.settled(rest, verified_at, fuel) is Some);
                    assert(before.settled_one(dependencies@[i as int], verified_at, fuel) is Some);
                }
                old(self)@.lemma_evolves_transitive(before, self@);
                assert forall|j: int| 0 <= j < i implies self@.unchanged_since(
                    #[trigger] dependencies@[j],
                    verified_at,
                ) by {
                    before.lemma_unchanged_stable(self@, dependencies@[j], verified_at);
                }
            }
            if changed {
                return false;
            }
            i += 1;
        }
        assert(dependencies@.subrange(i as int, dependencies@.len() as int).len() == 0);
        true
    }

    /// Brings the entry of the cached query `key` up to date: confirms it through what
    /// it has read where that is possible, and runs `key` where it is not. Returns the
    /// value of the entry, or the failure.
    fn refresh(&mut self, db: &mut DB, key: DatabaseKeyIndex) -> (kept: Result<
        DB::Value,
        QueryError,
    >)
        requires
            old(self)@.wf(),
            old(self)@.is_cached(key),
            !old(self)@.is_fresh(key),
        ensures
            old(self)@.refreshed(key, kept, final(self)@),
            kept_sound(*old(db), old(self)@, *final(db), final(self)@),
        decreases usize::MAX - old(self)@.runtime.stack.len(), 0int,
    {
        match self.runtime.push_query(key) {
            Err(report) => {
                proof {
                    lemma_kept_sound_beside(*old(db), old(self)@, self@);
                }
                return Err(QueryError::Cycle(report));
            },
            Ok(()) => {},
        }
        // The stack is one frame deeper now, and its depth is a `usize`.
        let depth = self.runtime.depth();
        let ghost pushed = self@;
        proof {
            lemma_kept_sound_beside(*old(db), old(self)@, pushed);
            assert(depth == old(self)@.runtime.stack.len() + 1);
            assert(pushed == old(self)@.pushed(key));
            old(self)@.lemma_pushed(key);
            assert(pushed.protects(key)) by {
                assert(stack_keys(pushed.runtime.stack)[pushed.runtime.stack.len() - 1] == key);
            }
        }
        let recorded = match self.query_store.get(key) {
            Some(memo) => if memo.can_validate() {
                Some((copy_keys(&memo.dependencies), memo.verified_at, memo.value.duplicate()))
            } else {
                None
            },
            None => None,
        };
        let confirmed = match recorded {
            Some((dependencies, verified_at, value)) => if self.validate(
                db,
                &dependencies,
                verified_at,
            ) {
                Some(value)
            } else {
                None
            },
            None => None,
        };
        let ghost validated = self@;
        let ghost looked = *db;
        proof {
            if recorded is None {
                lemma_kept_sound_beside(*old(db), pushed, validated);
            }
            lemma_kept_sound_transitive(*old(db), old(self)@, *old(db), pushed, looked, validated);
            assert(validated.memo(key) == pushed.memo(key));
            pushed.lemma_popped_evolves(validated);
            assert(validated.popped().runtime.stack == old(self)@.runtime.stack);
            assert forall|fuel: nat| #[trigger]
                old(self)@.confirmed(key, fuel) is Some implies confirmed is Some && Some(
                validated.popped().with_memo(
                    key,
                    validated.query_store[key].verified(validated.revision()),
                ),
            ) == old(self)@.confirmed(key, fuel) by {
                let memo = old(self)@.query_store[key];
                assert(pushed.query_store[key] == memo);
                assert(pushed.settled(memo.dependencies, memo.verified_at, (fuel - 1) as nat)
                    == Some(validated));
            }
        }
        match confirmed {
            Some(value) => {
                self.confirm(key);
                proof {
                    old(self)@.lemma_evolves_transitive(validated.popped(), self@);
                    assert(self@ == validated.popped().with_memo(
                        key,
                        validated.query_store[key].verified(validated.revision()),
                    ));
                    let memo = old(self)@.query_store[key];
                    assert forall|i: int|
                        0 <= i < memo.dependencies.len() implies self@.unchanged_since(
                        #[trigger] memo.dependencies[i],
                        memo.verified_at,
                    ) by {
                        assert(validated.unchanged_since(memo.dependencies[i], memo.verified_at));
                        validated.popped().lemma_with_confirmed(key);
                        validated.lemma_unchanged_anywhere(
                            validated.popped(),
                            memo.dependencies[i],
                            memo.verified_at,
                        );
                        validated.popped().lemma_unchanged_stable(
                            self@,
                            memo.dependencies[i],
                            memo.verified_at,
                        );
                    }
                    assert(old(self)@.reconfirmed(key, Ok(value), self@));
                    let stamped = validated.with_memo(
                        key,
                        validated.query_store[key].verified(validated.revision()),
                    );
                    assert(validated.can_confirm(key));
                    lemma_kept_sound_confirming(looked, validated, key);
                    lemma_kept_sound_beside(looked, stamped, self@);
                    lemma_kept_sound_transitive(looked, validated, looked, stamped, looked, self@);
                    lemma_kept_sound_transitive(
                        *old(db),
                        old(self)@,
                        looked,
                        validated,
                        looked,
                        self@,
                    );
                }
                db.salsa_event(Event::DidValidateMemoizedValue(key));
                proof {
                    lemma_kept_sound_heard(looked, *db, self@);
                    lemma_kept_sound_transitive(*old(db), old(self)@, looked, self@, *db, self@);
                }
                Ok(value)
            },
            None => {
                let kept = self.run(db, key);
                proof {
                    lemma_kept_sound_transitive(
                        *old(db),
                        old(self)@,
                        looked,
                        validated,
                        *db,
                        self@,
                    );
                    old(self)@.lemma_evolves_transitive(validated.popped(), self@);
                    let (returned, inner) = choose|
                        returned: StorageView<DB::Value>,
                        inner: Result<DB::Value, QueryError>,
                    |
                        #![trigger validated.began(key).evolves_to(returned), returned.finished(key, inner)]
                        {
                            &&& validated.began(key).evolves_to(returned)
                            &&& self@ == returned.finished(key, inner)
                            &&& match returned.outcome(key, inner) {
                                Some((value, _)) => kept == Ok::<DB::Value, QueryError>(value),
                                None => kept is Err && kept == inner,
                            }
                        };
                    assert(validated.began(key).evolves_to(returned));
                    assert(self@ == returned.finished(key, inner));
                    assert(old(self)@.ran(key, kept, self@));
                }
                kept
            },
        }
    }

    /// Whether the value of `key` may differ from what it was at `revision`.
    ///
    /// For an input this is a look at its entry. A cached query is brought up to date
    /// first, which runs it if need be, and is then compared. A transparent query has
    /// no entry to compare: it may always have changed.
    pub fn maybe_changed_after(
        &mut self,
        db: &mut DB,
        key: DatabaseKeyIndex,
        revision: Revision,
    ) -> (changed: bool)
        requires
            old(self)@.wf(),
        ensures
            old(self)@.asked(key, revision, changed, final(self)@),
            kept_sound(*old(db), old(self)@, *final(db), final(self)@),
        decreases usize::MAX - old(self)@.runtime.stack.len(), 1int,
    {
        let current = self.runtime.current_revision();
        proof {
            lemma_kept_sound_beside(*old(db), old(self)@, old(self)@);
        }
        match self.global_storage.flavor(key.ingredient_index()) {
            StorageFlavor::Transparent => true,
            StorageFlavor::Input => match self.query_store.get(key) {
                Some(memo) => memo.changed_after(revision),
                None => true,
            },
            StorageFlavor::Memoized | StorageFlavor::Volatile => {
                let fresh = match self.query_store.get(key) {
                    Some(memo) => memo.is_fresh(current),
                    None => false,
                };
                if !fresh {
                    let kept = self.refresh(db, key);
                    proof {
                        assert(old(self)@.refreshed(key, kept, self@));
                        assert forall|fuel: nat| #[trigger]
                            old(self)@.settled_one(key, revision, fuel) is Some implies Some(self@)
                            == old(self)@.settled_one(key, revision, fuel) by {
                            assert(old(self)@.confirmed(key, fuel) is Some);
                        }
                    }
                }
                match self.query_store.get(key) {
                    Some(memo) => !memo.is_fresh(current) || memo.changed_after(revision),
                    None => true,
                }
            },
        }
    }

    /// Runs the transparent query `key` and charges what it has read to its caller.
    fn fetch_transparent(&mut self, db: &mut DB, key: DatabaseKeyIndex) -> (result: Result<
        DB::Value,
        QueryError,
    >)
        requires
            old(self)@.wf(),
            old(self)@.flavor(key) is Transparent,
        ensures
            final(self)@.wf(),
            old(self)@.evolves_to(final(self)@),
            result is Err ==> final(self)@.runtime.stack == old(self)@.runtime.stack,
            old(self)@.runtime.is_active(key) ==> final(self)@ == old(self)@ && (
            result matches Err(QueryError::Cycle(report)) && report@ == cycle_from(
                old(self)@.runtime.stack,
                key,
            )),
            !old(self)@.runtime.is_active(key) ==> old(self)@.ran(key, result, final(self)@),
            kept_sound(*old(db), old(self)@, *final(db), final(self)@),
            found_right(*old(db), old(self)@, key, result),
    {
        match self.runtime.push_query(key) {
            Err(report) => {
                proof {
                    lemma_kept_sound_beside(*old(db), old(self)@, self@);
                }
                return Err(QueryError::Cycle(report));
            },
            Ok(()) => {},
        }
        let ghost pushed = self@;
        proof {
            assert(pushed.popped() == old(self)@) by {
                assert(pushed.runtime.stack.drop_last() =~= old(self)@.runtime.stack);
            }
            assert(pushed.query_store == old(self)@.query_store);
            assert(pushed.wf());
            assert(pushed.starts(key));
            assert(pushed == old(self)@.pushed(key));
            pushed.lemma_evolves_reflexive();
        }
        self.runtime.record_execution(key);
        let ghost began = self@;
        proof {
            assert(began == pushed.began(key));
            assert(began.query_store == pushed.query_store);
            assert(pushed.evolves_to(began));
            lemma_kept_sound_beside(*old(db), old(self)@, began);
        }
        db.salsa_event(Event::WillExecute(key));
        let ghost told = *db;
        let result = db.execute(self, key);
        let ghost returned = self@;
        let ghost inner = result;
        let ghost ended = *db;
        proof {
            pushed.lemma_evolves_transitive(began, returned);
            pushed.lemma_popped_evolves(returned);
            if let Some((_, untracked)) = returned.outcome(key, result) {
                let frame = ActiveQueryView { untracked, ..returned.runtime.stack.last() };
                assert(returned.runtime.stack.last().wf());
                assert(frame.wf());
                returned.popped().lemma_recorded(
                    record_child(returned.popped().runtime.stack, frame),
                );
                old(self)@.lemma_evolves_transitive(
                    returned.popped(),
                    returned.finished(key, result),
                );
            }
        }
        let kept = self.finish(key, result);
        proof {
            assert(pushed.began(key).evolves_to(returned));
            assert(self@ == returned.finished(key, inner));
            assert(old(self)@.ran(key, kept, self@));
            lemma_kept_sound_finishing(told, began, ended, returned, key, inner);
            lemma_kept_sound_heard(*old(db), told, began);
            lemma_found_right_finishing(told, began, ended, returned, key, inner, kept);
            lemma_kept_sound_transitive(*old(db), old(self)@, *old(db), began, told, began);
            lemma_found_right_since(*old(db), old(self)@, told, began, key, kept);
            lemma_kept_sound_transitive(*old(db), began, told, began, ended, self@);
            lemma_kept_sound_transitive(*old(db), old(self)@, *old(db), began, ended, self@);
        }
        if kept.is_ok() {
            db.salsa_event(Event::DidExecute(key));
        }
        proof {
            lemma_kept_sound_heard(ended, *db, self@);
            lemma_kept_sound_transitive(*old(db), old(self)@, ended, self@, *db, self@);
        }
        kept
    }

    /// Returns the value of `key` at the current revision.
    ///
    /// - An input has the value that it was set to.
    /// - A cached query whose entry was confirmed at the current revision has the value
    ///   of that entry. Otherwise its entry is confirmed through what it has read, or
    ///   the query runs and its entry is replaced.
    /// - A transparent query runs.
    ///
    /// On success the read is charged to the innermost active query. A query that is
    /// called while it executes is reported as a cycle, with nothing changed.
    pub fn fetch(&mut self, db: &mut DB, key: DatabaseKeyIndex) -> (result: Result<
        DB::Value,
        QueryError,
    >)
        requires
            old(self)@.wf(),
        ensures
            old(self)@.fetched(key, result, final(self)@),
            kept_sound(*old(db), old(self)@, *final(db), final(self)@),
            found_right(*old(db), old(self)@, key, result),
    {
        let current = self.runtime.current_revision();
        proof {
            lemma_kept_sound_beside(*old(db), old(self)@, old(self)@);
        }
        match self.global_storage.flavor(key.ingredient_index()) {
            StorageFlavor::Input => {
                let result = self.fetch_input(key);
                proof {
                    if old(self)@.query_store.contains_key(key) {
                        let stamped = old(self)@.with_memo(
                            key,
                            old(self)@.query_store[key].verified(old(self)@.revision()),
                        );
                        lemma_kept_sound_at_input(*old(db), old(self)@, key);
                        lemma_kept_sound_beside(*old(db), stamped, self@);
                        lemma_kept_sound_transitive(
                            *old(db),
                            old(self)@,
                            *old(db),
                            stamped,
                            *old(db),
                            self@,
                        );
                        lemma_found_right_kept(
                            *old(db),
                            old(self)@,
                            *old(db),
                            self@,
                            key,
                            old(self)@.query_store[key].value,
                        );
                    }
                }
                result
            },
            StorageFlavor::Transparent => self.fetch_transparent(db, key),
            StorageFlavor::Memoized | StorageFlavor::Volatile => {
                let fresh = match self.query_store.get(key) {
                    Some(memo) => memo.is_fresh(current),
                    None => false,
                };
                let value = if fresh {
                    match self.query_store.get(key) {
                        Some(memo) => memo.value.duplicate(),
                        None => vstd::pervasive::unreached(),
                    }
                } else {
                    match self.refresh(db, key) {
                        Ok(value) => value,
                        Err(error) => {
                            proof {
                                assert(self@.with_stack(old(self)@.runtime.stack) == self@);
                            }
                            return Err(error);
                        },
                    }
                };
                let ghost refreshed = self@;
                proof {
                    lemma_kept_sound_beside(*db, refreshed, refreshed.with_read(key));
                    lemma_kept_sound_transitive(
                        *old(db),
                        old(self)@,
                        *db,
                        refreshed,
                        *db,
                        refreshed.with_read(key),
                    );
                    lemma_found_right_kept(*old(db), old(self)@, *db, refreshed, key, value);
                    refreshed.lemma_recorded(record_read(refreshed.runtime.stack, key));
                    old(self)@.lemma_evolves_transitive(refreshed, refreshed.with_read(key));
                    assert(refreshed.with_read(key).with_stack(old(self)@.runtime.stack)
                        == refreshed);
                }
                self.runtime.report_query_read(key);
                Ok(value)
            },
        }
    }

    /// Returns the value of `key` at the current revision, fetched through `snapshot`:
    /// what [`Storage::fetch`] does with the snapshot at work in place of the handle
    /// that is at work otherwise. The entries that are made and confirmed are those of
    /// this storage, for every handle to see.
    ///
    /// A handle is put to work between queries only, not by a function that is
    /// running: so while one handle computes a query no other handle is at work, and
    /// none can meet a query that is being computed elsewhere.
    pub fn fetch_through(
        &mut self,
        snapshot: &mut Snapshot<DB::Value>,
        db: &mut DB,
        key: DatabaseKeyIndex,
    ) -> (result: Result<DB::Value, QueryError>)
        requires
            old(self)@.wf(),
            !old(self)@.runtime.query_in_progress(),
            old(self)@.with_handle(old(snapshot)@).wf(),
        ensures
            final(self)@.wf(),
            old(self)@.with_handle(old(snapshot)@).fetched(
                key,
                result,
                final(self)@.with_handle(final(snapshot)@),
            ),
            final(self)@.runtime.handle() == old(self)@.runtime.handle(),
            kept_sound(*old(db), old(self)@, *final(db), final(self)@),
            found_right(*old(db), old(self)@, key, result),
    {
        self.runtime.exchange(snapshot);
        let ghost working = self@;
        let result = self.fetch(db, key);
        let ghost fetched = self@;
        self.runtime.exchange(snapshot);
        proof {
            assert(working == old(self)@.with_handle(old(snapshot)@));
            assert(self@.with_handle(snapshot@) == fetched);
            lemma_kept_sound_beside(*old(db), old(self)@, working);
            lemma_found_right_since(*old(db), old(self)@, *old(db), working, key, result);
            lemma_kept_sound_beside(*db, fetched, self@);
            lemma_kept_sound_transitive(*old(db), old(self)@, *old(db), working, *db, fetched);
            lemma_kept_sound_transitive(*old(db), old(self)@, *db, fetched, *db, self@);
        }
        result
    }

    /// Records that the innermost active query has accumulated `value`. Outside any
    /// query this does nothing.
    pub fn accumulate(&mut self, value: DB::Value)
        requires
            old(self)@.wf(),
        ensures
            final(self)@.wf(),
            old(self)@.evolves_to(final(self)@),
            final(self)@ == old(self)@.with_stack(
                record_accumulated(old(self)@.runtime.stack, value),
            ),
    {
        proof {
            old(self)@.lemma_recorded(record_accumulated(old(self)@.runtime.stack, value));
        }
        self.runtime.report_accumulated(value);
    }

    /// Records that the innermost active query has read something that the engine does
    /// not track: its entry will not be confirmed without running it again.
    pub fn report_untracked_read(&mut self)
        requires
            old(self)@.wf(),
        ensures
            final(self)@.wf(),
            old(self)@.evolves_to(final(self)@),
            final(self)@ == old(self)@.with_stack(
                record_untracked_read(old(self)@.runtime.stack),
            ),
    {
        proof {
            old(self)@.lemma_recorded(record_untracked_read(old(self)@.runtime.stack));
        }
        self.runtime.report_untracked_read();
    }
}

impl DatabaseKeyIndex {
    /// What this query does when it turns out to be part of a cycle.
    pub fn cycle_recovery_strategy<DB: QueryContextStorageTypes>(
        self,
        db: &Storage<DB>,
    ) -> (strategy: CycleRecoveryStrategy<DB::Value>)
        ensures
            strategy == db@.recovery(self),
    {
        db.global_storage.recovery(self.ingredient_index)
    }

    /// What this query accumulated when it last ran, if it has an entry.
    pub fn accumulated<DB: QueryContextStorageTypes>(self, db: &Storage<DB>) -> (bucket: Option<
        &Vec<DB::Value>,
    >)
        ensures
            match bucket {
                Some(values) => db@.query_store.contains_key(self) && values@
                    == db@.query_store[self].accumulated,
                None => !db@.query_store.contains_key(self),
            },
    {
        match db.query_store.get(self) {
            Some(memo) => Some(&memo.accumulated),
            None => None,
        }
    }

    /// Takes the entry of this query away, which `executor` made when it ran before and
    /// has not made again.
    pub fn remove_stale_output<DB: QueryContextStorageTypes>(
        &self,
        storage: &mut Storage<DB>,
        executor: DatabaseKeyIndex,
    )
        requires
            old(storage)@.wf(),
        ensures
            final(storage)@.wf(),
            final(storage)@ == (StorageView {
                query_store: old(storage)@.query_store.remove(*self),
                ..old(storage)@
            }),
    {
        let _ = storage.query_store.remove(*self);
        proof {
            old(storage)@.lemma_entries_kept(storage@);
        }
    }

    /// Confirms the entry of this query at the current revision, because the entry of
    /// `database_key_index`, which made it, was confirmed. Without an entry nothing
    /// happens.
    pub fn mark_validated_output<DB: QueryContextStorageTypes>(
        &self,
        storage: &mut Storage<DB>,
        database_key_index: DatabaseKeyIndex,
    )
        requires
            old(storage)@.wf(),
        ensures
            final(storage)@.wf(),
            old(storage)@.query_store.contains_key(*self) ==> final(storage)@ == old(
                storage,
            )@.with_memo(
                *self,
                old(storage)@.query_store[*self].verified(old(storage)@.revision()),
            ),
            !old(storage)@.query_store.contains_key(*self) ==> final(storage)@ == old(storage)@,
    {
        let current = storage.runtime.current_revision();
        storage.query_store.mark_verified(*self, current);
        proof {
            if old(storage)@.query_store.contains_key(*self) {
                assert(old(storage)@.query_store[*self].wf(old(storage)@.revision()));
            }
            old(storage)@.lemma_entries_kept(storage@);
        }
    }

    /// Whether the value of this query may differ from what it was at
    /// `last_verified_at`: see [`Storage::maybe_changed_after`].
    pub fn maybe_changed_after<DB: QueryContext>(
        &self,
        db: &mut DB,
        storage: &mut Storage<DB>,
        last_verified_at: Revision,
    ) -> (changed: bool)
        requires
            old(storage)@.wf(),
        ensures
            old(storage)@.asked(*self, last_verified_at, changed, final(storage)@),
            kept_sound(*old(db), old(storage)@, *final(db), final(storage)@),
    {
        storage.maybe_changed_after(db, *self, last_verified_at)
    }
}

} // verus!
