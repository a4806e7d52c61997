//! An incremental computation engine.
//!
//! Queries are pure functions identified by a [`DatabaseKeyIndex`]. Their results are
//! memoized together with the queries they read and are re-executed on demand only
//! when something they transitively read has changed value since they last ran.
//!
//! A database is a [`Storage`] beside a [`QueryContext`]. The storage holds the
//! declarations of the queries, their cached entries and the [`Runtime`]: the revision
//! counter and the stack of active queries. The context holds the functions of the
//! queries. [`Storage::fetch`] returns the value of a query; [`Storage::set`] sets an
//! input, which begins a new revision.
//!
//! Every operation takes the storage by `&mut`: one thread works on it at a time. A
//! snapshot is a handle on the same storage, with a stack of active queries of its
//! own: [`Storage::snapshot`] hands one out, [`Storage::fetch_through`] fetches through
//! it, and what one handle has computed every other handle finds. While a snapshot is
//! alive no input is set; a request to set one is remembered in the runtime, where
//! every handle sees it as a cancellation. A host that runs threads keeps the storage
//! behind a lock, takes its decisions from here and does only the waiting itself.
//!
//! What the operations do is stated over [`model::StorageView`], the storage as
//! mathematics. [`laws`] holds what follows for several operations together, and
//! [`soundness`] why the cached values are the right ones: of a database whose
//! functions compute a semantics, every fetch returns what the query is worth.

use vstd::prelude::*;

pub mod active_query;
pub mod dependencies;
pub mod ingredient;
pub mod key;
pub mod laws;
pub mod memo;
pub mod model;
pub mod query_store;
pub mod revision;
pub mod runtime;
pub mod soundness;
pub mod storage;
pub mod value;

pub use ingredient::{CycleRecoveryStrategy, StorageFlavor};
pub use key::{DatabaseKeyIndex, Id, IngredientIndex};
pub use revision::Revision;
pub use runtime::Runtime;
pub use storage::{Storage, WriteOutcome};
pub use value::QueryValue;

use model::StorageView;
use soundness::Semantics;

verus! {

/// The report of a dependency cycle: a query was called while it was executing.
#[derive(Clone, Debug, PartialEq, Eq)]
pub struct CycleDetected {
    /// The queries of the cycle, from the one that was called again up to the one that
    /// called it, in the order in which they called each other.
    pub cycle: Vec<DatabaseKeyIndex>,
}

impl View for CycleDetected {
    type V = Seq<DatabaseKeyIndex>;

    open spec fn view(&self) -> Seq<DatabaseKeyIndex> {
        self.cycle@
    }
}

impl CycleDetected {
    /// Whether `key` is one of the queries of the cycle.
    pub fn involves(&self, key: DatabaseKeyIndex) -> (found: bool)
        ensures
            found == self@.contains(key),
    {
        dependencies::contains(&self.cycle, key)
    }

    /// The queries of the cycle.
    pub fn participants(&self) -> (keys: &Vec<DatabaseKeyIndex>)
        ensures
            keys@ == self@,
    {
        &self.cycle
    }
}

/// What a database has to name: the type of the values of its queries, and the type by
/// which it tells its queries apart.
pub trait QueryContextStorageTypes: Sized {
    /// The value of a query. A database whose queries return values of several types
    /// makes this their sum.
    type Value: QueryValue;

    /// A query with its key, as the database names it.
    type QueryDescriptor: QueryDescriptor<Self>;
}

/// A query with its key, in whatever form a database names it. The engine stores it as
/// a [`DatabaseKeyIndex`].
pub trait QueryDescriptor<QC>: Sized {
    /// The database key that this descriptor stands for.
    spec fn key(&self) -> DatabaseKeyIndex;

    fn database_key(&self) -> (key: DatabaseKeyIndex)
        ensures
            key == self.key(),
    ;
}

impl<QC> QueryDescriptor<QC> for DatabaseKeyIndex {
    open spec fn key(&self) -> DatabaseKeyIndex {
        *self
    }

    fn database_key(&self) -> (key: DatabaseKeyIndex) {
        *self
    }
}

/// What the engine tells the database about, as it happens.
#[derive(Clone, Copy, PartialEq, Eq, Structural, Debug)]
pub enum Event {
    /// The function of this query is about to run.
    WillExecute(DatabaseKeyIndex),
    /// The function of this query has run and what it returned was kept.
    DidExecute(DatabaseKeyIndex),
    /// The entry of this query was confirmed without running its function.
    DidValidateMemoizedValue(DatabaseKeyIndex),
}

/// A database: it knows the functions of its queries.
///
/// The engine calls [`QueryContext::execute`] when the value of a query has to be
/// computed. The function of the query reads other queries through the storage that it
/// is handed, with [`Storage::fetch`].
pub trait QueryContext: QueryContextStorageTypes {
    /// Runs the function of `key` and returns what it computes.
    ///
    /// The engine calls this only where [`model::StorageView::may_execute`] holds:
    /// `key` is the innermost active query and has no entry that would do.
    ///
    /// The engine relies on the function to leave the storage as the operations that
    /// a query is meant to use leave it, which is what
    /// [`model::StorageView::evolves_to`] says. [`Storage::fetch`],
    /// [`QueryTable::of`], [`Storage::maybe_changed_after`], [`Storage::accumulate`]
    /// and [`Storage::report_untracked_read`] each ensure it, and it carries over from
    /// step to step. Nothing holds a function to this: it is what the engine takes on
    /// trust.
    ///
    /// Of a database that computes a semantics, see [`QueryContext::computes`], the
    /// engine relies on more: the function leaves a sound storage sound, and it
    /// returns and reads what the semantics says, as [`model::StorageView::told`]
    /// tells. From this the engine proves that every fetch keeps the storage sound and
    /// returns what the query is worth: [`kept_sound`], [`found_right`].
    fn execute(&mut self, storage: &mut Storage<Self>, key: DatabaseKeyIndex) -> (result: Result<
        Self::Value,
        QueryError,
    >)
        requires
            old(storage)@.wf(),
            old(storage)@.may_execute(key),
        ensures
            final(storage)@.wf(),
            old(storage)@.evolves_to(final(storage)@),
            forall|
                semantics: Semantics<Self::Value>,
                sources: Map<int, Map<DatabaseKeyIndex, Self::Value>>,
            | #[trigger]
                old(self).computes(semantics, sources) ==> final(self).computes(semantics, sources)
                    && (old(storage)@.respected_by(semantics) ==> old(storage)@.told(
                    final(storage)@,
                    semantics,
                    sources,
                    key,
                    result,
                )),
    ;

    /// Hears of what the engine does. A database that does not care leaves this as it
    /// is.
    fn salsa_event(&mut self, event: Event)
        ensures
            forall|
                semantics: Semantics<Self::Value>,
                sources: Map<int, Map<DatabaseKeyIndex, Self::Value>>,
            | #[trigger]
                old(self).computes(semantics, sources) ==> final(self).computes(semantics, sources),
    {
    }

    /// Whether the functions of this database compute `semantics` while the sources
    /// are `sources`, revision by revision: every function returns what the semantics
    /// says and reads what it says, through the storage that it is handed. Nothing
    /// holds a database to this, so a database claims it on its own account; as it
    /// stands, none is claimed to.
    open spec fn computes(
        &self,
        semantics: Semantics<Self::Value>,
        sources: Map<int, Map<DatabaseKeyIndex, Self::Value>>,
    ) -> bool {
        false
    }
}

/// Whether soundness was kept while the database `db` with the storage `storage`
/// became `later_db` with `later`: for every semantics that the database computes, it
/// computes it still, and `later` is sound wherever `storage` was.
pub open spec fn kept_sound<DB: QueryContext>(
    db: DB,
    storage: StorageView<DB::Value>,
    later_db: DB,
    later: StorageView<DB::Value>,
) -> bool {
    forall|semantics: Semantics<DB::Value>, sources: Map<int, Map<DatabaseKeyIndex, DB::Value>>|
     #[trigger]
        db.computes(semantics, sources) ==> later_db.computes(semantics, sources) && (
        storage.respected_by(semantics) ==> storage.keeps_sound(later, semantics, sources))
}

/// Whether `result`, if it is a value, is what `key` is worth for the sources as they
/// are: for every semantics that the database `db` computes, if the storage is sound
/// at all.
pub open spec fn found_right<DB: QueryContext>(
    db: DB,
    storage: StorageView<DB::Value>,
    key: DatabaseKeyIndex,
    result: Result<DB::Value, QueryError>,
) -> bool {
    forall|semantics: Semantics<DB::Value>, sources: Map<int, Map<DatabaseKeyIndex, DB::Value>>|
     #[trigger]
        db.computes(semantics, sources) && storage.respected_by(semantics) ==> match result {
            Ok(value) => storage.finds_right(semantics, sources, key, value),
            Err(_) => true,
        }
}

/// What is kept of a function of a database that computes a semantics is what its
/// query is worth.
pub proof fn lemma_found_right_finishing<DB: QueryContext>(
    db: DB,
    storage: StorageView<DB::Value>,
    later_db: DB,
    returned: StorageView<DB::Value>,
    key: DatabaseKeyIndex,
    result: Result<DB::Value, QueryError>,
    kept: Result<DB::Value, QueryError>,
)
    requires
        forall|
            semantics: Semantics<DB::Value>,
            sources: Map<int, Map<DatabaseKeyIndex, DB::Value>>,
        | #[trigger]
            db.computes(semantics, sources) ==> later_db.computes(semantics, sources) && (
            storage.respected_by(semantics) ==> storage.told(
                returned,
                semantics,
                sources,
                key,
                result,
            )),
        returned.global_storage == storage.global_storage,
        returned.revision() == storage.revision(),
        match returned.outcome(key, result) {
            Some((value, _)) => kept == Ok::<DB::Value, QueryError>(value),
            None => kept is Err,
        },
    ensures
        found_right(db, storage, key, kept),
{
    assert forall|
        semantics: Semantics<DB::Value>,
        sources: Map<int, Map<DatabaseKeyIndex, DB::Value>>,
    | #[trigger] db.computes(semantics, sources) && storage.respected_by(
        semantics,
    ) implies match kept {
        Ok(value) => storage.finds_right(semantics, sources, key, value),
        Err(_) => true,
    } by {
        if let Some((value, untracked)) = returned.outcome(key, result) {
            storage.lemma_told_is_right(
                returned,
                semantics,
                sources,
                key,
                result,
                value,
                untracked,
            );
        }
    }
}

/// The value of an entry that is fresh after soundness was kept is what its query is
/// worth.
pub proof fn lemma_found_right_kept<DB: QueryContext>(
    db: DB,
    storage: StorageView<DB::Value>,
    later_db: DB,
    later: StorageView<DB::Value>,
    key: DatabaseKeyIndex,
    value: DB::Value,
)
    requires
        kept_sound(db, storage, later_db, later),
        later.global_storage == storage.global_storage,
        later.revision() == storage.revision(),
        later.wf(),
        storage.flavor(key) is Input || storage.is_cached(key),
        later.is_fresh(key),
        later.query_store[key].value == value,
    ensures
        found_right(db, storage, key, Ok(value)),
{
    assert forall|
        semantics: Semantics<DB::Value>,
        sources: Map<int, Map<DatabaseKeyIndex, DB::Value>>,
    | #[trigger] db.computes(semantics, sources) && storage.respected_by(
        semantics,
    ) implies storage.finds_right(semantics, sources, key, value) by {
        storage.lemma_fetched_is_right(later, semantics, sources, key, value);
    }
}

/// What is right in a storage is right in a storage that it came from with soundness
/// kept, in the same revision.
pub proof fn lemma_found_right_since<DB: QueryContext>(
    db: DB,
    storage: StorageView<DB::Value>,
    later_db: DB,
    later: StorageView<DB::Value>,
    key: DatabaseKeyIndex,
    result: Result<DB::Value, QueryError>,
)
    requires
        found_right(later_db, later, key, result),
        kept_sound(db, storage, later_db, later),
        later.global_storage == storage.global_storage,
        later.revision() == storage.revision(),
    ensures
        found_right(db, storage, key, result),
{
    assert forall|
        semantics: Semantics<DB::Value>,
        sources: Map<int, Map<DatabaseKeyIndex, DB::Value>>,
    | #[trigger] db.computes(semantics, sources) && storage.respected_by(
        semantics,
    ) implies match result {
        Ok(value) => storage.finds_right(semantics, sources, key, value),
        Err(_) => true,
    } by {
        assert(later_db.computes(semantics, sources));
        storage.lemma_respected_elsewhere(semantics, later);
        if let Ok(value) = result {
            assert(later.finds_right(semantics, sources, key, value));
            if exists|seen: Map<DatabaseKeyIndex, Set<int>>| #[trigger]
                storage.sound(semantics, soundness::History { sources, seen }) {
                let seen = choose|seen: Map<DatabaseKeyIndex, Set<int>>| #[trigger]
                    storage.sound(semantics, soundness::History { sources, seen });
                assert(storage.keeps_sound(later, semantics, sources));
                let then = choose|then: Map<DatabaseKeyIndex, Set<int>>| #[trigger]
                    later.sound(semantics, soundness::History { sources, seen: then });
                assert(later.sound(semantics, soundness::History { sources, seen: then }));
            }
        }
    }
}

/// Soundness is kept from step to step.
pub proof fn lemma_kept_sound_transitive<DB: QueryContext>(
    db: DB,
    storage: StorageView<DB::Value>,
    second_db: DB,
    second: StorageView<DB::Value>,
    third_db: DB,
    third: StorageView<DB::Value>,
)
    requires
        kept_sound(db, storage, second_db, second),
        kept_sound(second_db, second, third_db, third),
        second.global_storage == storage.global_storage,
    ensures
        kept_sound(db, storage, third_db, third),
{
    assert forall|
        semantics: Semantics<DB::Value>,
        sources: Map<int, Map<DatabaseKeyIndex, DB::Value>>,
    | #[trigger] db.computes(semantics, sources) implies third_db.computes(semantics, sources) && (
    storage.respected_by(semantics) ==> storage.keeps_sound(third, semantics, sources)) by {
        assert(second_db.computes(semantics, sources));
        if storage.respected_by(semantics) {
            storage.lemma_respected_elsewhere(semantics, second);
            storage.lemma_keeps_sound_transitive(second, third, semantics, sources);
        }
    }
}

/// What does not touch the entries, the declarations or the revision keeps soundness.
pub proof fn lemma_kept_sound_beside<DB: QueryContext>(
    db: DB,
    storage: StorageView<DB::Value>,
    later: StorageView<DB::Value>,
)
    requires
        later.global_storage == storage.global_storage,
        later.query_store == storage.query_store,
        later.revision() == storage.revision(),
    ensures
        kept_sound(db, storage, db, later),
{
    assert forall|
        semantics: Semantics<DB::Value>,
        sources: Map<int, Map<DatabaseKeyIndex, DB::Value>>,
    | #[trigger] db.computes(semantics, sources) implies storage.keeps_sound(
        later,
        semantics,
        sources,
    ) by {
        storage.lemma_keeps_sound_beside(later, semantics, sources);
    }
}

/// What the database hears of changes nothing in the storage.
pub proof fn lemma_kept_sound_heard<DB: QueryContext>(
    db: DB,
    later_db: DB,
    storage: StorageView<DB::Value>,
)
    requires
        forall|
            semantics: Semantics<DB::Value>,
            sources: Map<int, Map<DatabaseKeyIndex, DB::Value>>,
        | #[trigger]
            db.computes(semantics, sources) ==> later_db.computes(semantics, sources),
    ensures
        kept_sound(db, storage, later_db, storage),
{
    assert forall|
        semantics: Semantics<DB::Value>,
        sources: Map<int, Map<DatabaseKeyIndex, DB::Value>>,
    | #[trigger] db.computes(semantics, sources) implies storage.keeps_sound(
        storage,
        semantics,
        sources,
    ) by {
        storage.lemma_keeps_sound_beside(storage, semantics, sources);
    }
}

/// Reading an input keeps soundness.
pub proof fn lemma_kept_sound_at_input<DB: QueryContext>(
    db: DB,
    storage: StorageView<DB::Value>,
    key: DatabaseKeyIndex,
)
    requires
        storage.flavor(key) is Input,
        storage.query_store.contains_key(key),
    ensures
        kept_sound(
            db,
            storage,
            db,
            storage.with_memo(key, storage.query_store[key].verified(storage.revision())),
        ),
{
    assert forall|
        semantics: Semantics<DB::Value>,
        sources: Map<int, Map<DatabaseKeyIndex, DB::Value>>,
    | #[trigger] db.computes(semantics, sources) implies storage.keeps_sound(
        storage.with_memo(key, storage.query_store[key].verified(storage.revision())),
        semantics,
        sources,
    ) by {
        storage.lemma_keeps_sound_at_input(semantics, sources, key);
    }
}

/// Confirming an entry that can be confirmed keeps soundness.
pub proof fn lemma_kept_sound_confirming<DB: QueryContext>(
    db: DB,
    storage: StorageView<DB::Value>,
    key: DatabaseKeyIndex,
)
    requires
        storage.wf(),
        storage.is_cached(key),
        storage.can_confirm(key),
    ensures
        kept_sound(
            db,
            storage,
            db,
            storage.with_memo(key, storage.query_store[key].verified(storage.revision())),
        ),
{
    assert forall|
        semantics: Semantics<DB::Value>,
        sources: Map<int, Map<DatabaseKeyIndex, DB::Value>>,
    | #[trigger] db.computes(semantics, sources) && storage.respected_by(
        semantics,
    ) implies storage.keeps_sound(
        storage.with_memo(key, storage.query_store[key].verified(storage.revision())),
        semantics,
        sources,
    ) by {
        storage.lemma_keeps_sound_confirming(semantics, sources, key);
    }
}

/// Ending the execution of a function of a database that computes a semantics keeps
/// soundness.
pub proof fn lemma_kept_sound_finishing<DB: QueryContext>(
    db: DB,
    storage: StorageView<DB::Value>,
    later_db: DB,
    returned: StorageView<DB::Value>,
    key: DatabaseKeyIndex,
    result: Result<DB::Value, QueryError>,
)
    requires
        forall|
            semantics: Semantics<DB::Value>,
            sources: Map<int, Map<DatabaseKeyIndex, DB::Value>>,
        | #[trigger]
            db.computes(semantics, sources) ==> later_db.computes(semantics, sources) && (
            storage.respected_by(semantics) ==> storage.told(
                returned,
                semantics,
                sources,
                key,
                result,
            )),
        !(returned.flavor(key) is Input),
        returned.runtime.stack.len() > 0,
        returned.runtime.stack.last().database_key == key,
    ensures
        kept_sound(db, storage, later_db, returned.finished(key, result)),
{
    assert forall|
        semantics: Semantics<DB::Value>,
        sources: Map<int, Map<DatabaseKeyIndex, DB::Value>>,
    | #[trigger] db.computes(semantics, sources) && storage.respected_by(
        semantics,
    ) implies storage.keeps_sound(returned.finished(key, result), semantics, sources) by {
        storage.lemma_keeps_sound_finishing(returned, semantics, sources, key, result);
    }
}

/// What a storage offers to the handles of the queries: to fetch the value of a query
/// by its descriptor.
pub trait QueryStorageOps<QC: QueryContext> {
    /// What the storage holds.
    spec fn model(&self) -> model::StorageView<QC::Value>;

    /// Returns the value of the query that `descriptor` names: what [`Storage::fetch`]
    /// does for its database key.
    fn try_fetch(&mut self, query: &mut QC, descriptor: &QC::QueryDescriptor) -> (result: Result<
        QC::Value,
        QueryError,
    >)
        requires
            old(self).model().wf(),
        ensures
            old(self).model().fetched(descriptor.key(), result, final(self).model()),
            kept_sound(*old(query), old(self).model(), *final(query), final(self).model()),
            found_right(*old(query), old(self).model(), descriptor.key(), result),
    ;
}

impl<QC: QueryContext> QueryStorageOps<QC> for Storage<QC> {
    open spec fn model(&self) -> model::StorageView<QC::Value> {
        self@
    }

    fn try_fetch(&mut self, query: &mut QC, descriptor: &QC::QueryDescriptor) -> (result: Result<
        QC::Value,
        QueryError,
    >) {
        self.fetch(query, descriptor.database_key())
    }
}

/// The declaration of one query of a database: the type of its keys, where its results
/// are stored, and how a key is wrapped into the descriptor that the database names the
/// query by.
pub trait Query<QC: QueryContext>: Sized {
    /// The argument of the query.
    type Key;

    /// The storage that holds the results of the query.
    type Storage: QueryStorageOps<QC>;

    /// The descriptor of this query for `key`.
    spec fn descriptor_of(key: Self::Key) -> QC::QueryDescriptor;

    fn descriptor(key: &Self::Key) -> (descriptor: QC::QueryDescriptor)
        ensures
            descriptor == Self::descriptor_of(*key),
    ;
}

/// The handle by which the query `Q` of a database is called: `table.of(key)`.
pub struct QueryTable<'me, QC: QueryContext, Q: Query<QC>> {
    /// The database.
    pub query: &'me mut QC,
    /// The storage that holds the results of `Q`.
    pub storage: &'me mut Q::Storage,
}

impl<'me, QC: QueryContext, Q: Query<QC>> QueryTable<'me, QC, Q> {
    /// A handle on the query `Q` of the database `query`, whose results are in `storage`.
    pub fn new(query: &'me mut QC, storage: &'me mut Q::Storage) -> (table: Self)
        ensures
            *table.query == *old(query),
            *table.storage == *old(storage),
            *final(table.query) == *final(query),
            *final(table.storage) == *final(storage),
    {
        QueryTable { query, storage }
    }

    /// The descriptor of `Q` for `key`.
    pub fn descriptor(&self, key: &Q::Key) -> (descriptor: QC::QueryDescriptor)
        ensures
            descriptor == Q::descriptor_of(*key),
    {
        Q::descriptor(key)
    }

    /// Returns the value of the query for `key`: what [`Storage::fetch`] does for the
    /// database key of its descriptor.
    pub fn of(self, key: Q::Key) -> (result: Result<QC::Value, QueryError>)
        requires
            old(self.storage).model().wf(),
        ensures
            old(self.storage).model().fetched(
                Q::descriptor_of(key).key(),
                result,
                final(self.storage).model(),
            ),
            kept_sound(
                *old(self.query),
                old(self.storage).model(),
                *final(self.query),
                final(self.storage).model(),
            ),
            found_right(
                *old(self.query),
                old(self.storage).model(),
                Q::descriptor_of(key).key(),
                result,
            ),
    {
        let descriptor = Q::descriptor(&key);
        self.storage.try_fetch(self.query, &descriptor)
    }
}

/// Why a query has no value.
#[derive(Clone, Debug, PartialEq, Eq)]
pub enum QueryError {
    /// The query is part of a dependency cycle.
    Cycle(CycleDetected),
    /// The query is an input that has no value.
    MissingInput(DatabaseKeyIndex),
    /// The function of the query gave up.
    Failed(DatabaseKeyIndex),
}

} // verus!
