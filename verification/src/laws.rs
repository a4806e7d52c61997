//! What holds of the engine across several operations.

use vstd::prelude::*;
use crate::key::DatabaseKeyIndex;
use crate::model::StorageView;
use crate::runtime::HandleView;
use crate::soundness::{History, Semantics};
use crate::{found_right, kept_sound, QueryContext, QueryError};

verus! {

/// What a fetch returns is what the query is worth for the sources as they are.
///
/// Let the storage be sound after a fetch of an input or of a cached query that
/// returned a value. Then that value is what the input is set to, or what the query is
/// worth for the present values of the sources: what the semantics says or, for a
/// query that reads something untracked, what its function returned in this revision.
pub proof fn law_fetch_returns_the_value<V>(
    before: StorageView<V>,
    key: DatabaseKeyIndex,
    value: V,
    after: StorageView<V>,
    semantics: Semantics<V>,
    history: History<V>,
)
    requires
        before.wf(),
        !(before.flavor(key) is Transparent),
        before.fetched(key, Ok(value), after),
        after.sound(semantics, history),
    ensures
        after.worth(semantics, history.sources[after.revision().index()], key) == Some(value),
{
    if before.flavor(key) is Input {
        assert(before.query_store.contains_key(key));
        assert(after.query_store.contains_key(key));
        assert(after.sound_input(history, key));
        assert(after.query_store[key].wf(after.revision()));
        assert(after.query_store[key].value == value);
    } else {
        after.lemma_fresh_is_right(semantics, history, key);
    }
}

/// A fetch that runs no function keeps the storage sound and returns the right value.
///
/// In a sound storage, fetch an input that has a value, or a cached query whose entry
/// is fresh or can be confirmed, be it after entries that it has read were confirmed.
/// The fetch returns what the query is worth for the sources as they are, it runs no
/// function, and it leaves the storage sound: with the same history, to which the
/// confirmations are added.
pub proof fn law_fetch_without_running_is_sound<V>(
    before: StorageView<V>,
    key: DatabaseKeyIndex,
    fuel: nat,
    result: Result<V, QueryError>,
    after: StorageView<V>,
    semantics: Semantics<V>,
    history: History<V>,
)
    requires
        before.wf(),
        before.respected_by(semantics),
        before.sound(semantics, history),
        before.fetched(key, result, after),
        before.runs_nothing_for(key, fuel),
    ensures
        result is Ok,
        Some(result->Ok_0) == before.worth(
            semantics,
            history.sources[before.revision().index()],
            key,
        ),
        after.runtime.executed == before.runtime.executed,
        after.sound(
            semantics,
            if before.confirmed(key, fuel) is Some {
                before.confirmed_history(history, key, fuel)
            } else {
                history
            },
        ),
{
    let current = before.revision();
    if before.flavor(key) is Input {
        let stamped = before.with_memo(key, before.query_store[key].verified(current));
        before.lemma_read_input_is_sound(semantics, history, key);
        stamped.lemma_frames_are_immaterial(semantics, history, after);
        assert(before.sound_input(history, key));
        assert(before.query_store[key].wf(current));
    } else if before.is_fresh(key) {
        before.lemma_frames_are_immaterial(semantics, history, after);
        before.lemma_fresh_is_right(semantics, history, key);
    } else {
        let confirmed = before.confirmed(key, fuel)->Some_0;
        before.lemma_confirmed_evolves(key, fuel);
        before.lemma_confirmed_is_sound(semantics, history, key, fuel);
        confirmed.lemma_frames_are_immaterial(
            semantics,
            before.confirmed_history(history, key, fuel),
            after,
        );
    }
}

/// A fetch that runs the function of the query keeps the storage sound and returns the
/// right value, if the function did what the semantics says.
///
/// Fetch a cached query that is not executing and that has no entry, or one that
/// cannot be confirmed, so that its function runs. Let the function have done what the
/// semantics says, in whatever storage it may have returned: see
/// [`StorageView::did_as_told`]. Then the storage is sound after the fetch, with the
/// query seen at the current revision if something was kept; and a value that the
/// fetch returns is what the query is worth for the sources as they are.
pub proof fn law_fetch_that_runs_is_sound<V>(
    before: StorageView<V>,
    key: DatabaseKeyIndex,
    result: Result<V, QueryError>,
    after: StorageView<V>,
    semantics: Semantics<V>,
    history: History<V>,
)
    requires
        before.wf(),
        before.is_cached(key),
        !before.runtime.is_active(key),
        !before.is_fresh(key),
        before.query_store.contains_key(key) ==> !before.query_store[key].can_validate(),
        before.fetched(key, result, after),
        forall|returned: StorageView<V>, inner: Result<V, QueryError>|
            before.pushed(key).evolves_to(returned) && #[trigger] returned.finished(key, inner)
                == after.with_stack(before.runtime.stack) ==> returned.did_as_told(
                semantics,
                history,
                key,
                inner,
            ),
    ensures
        after.sound(
            semantics,
            if result is Ok {
                history.with_seen(key, before.revision().index())
            } else {
                history
            },
        ),
        result matches Ok(value) ==> after.worth(
            semantics,
            history.sources[before.revision().index()],
            key,
        ) == Some(value),
{
    let ended = after.with_stack(before.runtime.stack);
    assert(before.refreshed(key, result, ended));
    assert(!before.reconfirmed(key, result, ended));
    assert(before.ran(key, result, ended));
    let (started, returned, inner) = choose|
        started: StorageView<V>,
        returned: StorageView<V>,
        inner: Result<V, QueryError>,
    |
        #![trigger started.began(key).evolves_to(returned), returned.finished(key, inner)]
        {
            &&& before.pushed(key).evolves_to(started)
            &&& started.may_execute(key)
            &&& started.began(key).evolves_to(returned)
            &&& ended == returned.finished(key, inner)
            &&& match returned.outcome(key, inner) {
                Some((value, _)) => result == Ok::<V, QueryError>(value),
                None => result is Err && result == inner,
            }
        };
    assert(started.evolves_to(started.began(key)));
    before.pushed(key).lemma_evolves_transitive(started, started.began(key));
    before.pushed(key).lemma_evolves_transitive(started.began(key), returned);
    assert(returned.did_as_told(semantics, history, key, inner));
    assert(returned.runtime.stack.last().database_key == key);
    match returned.outcome(key, inner) {
        Some((value, untracked)) => {
            returned.lemma_execute_is_sound(semantics, history, key, inner, value, untracked);
            let seen = history.with_seen(key, before.revision().index());
            ended.lemma_frames_are_immaterial(semantics, seen, after);
            after.lemma_fresh_is_right(semantics, seen, key);
        },
        None => {
            returned.lemma_frames_are_immaterial(semantics, history, ended);
            ended.lemma_frames_are_immaterial(semantics, history, after);
        },
    }
}

/// The same inputs give the same values, whatever was set and fetched before.
///
/// Take two databases that compute the same semantics, or one database at two
/// moments, with sound storages in which the sources have the same values now: the
/// inputs, and what the functions read of which the engine knows nothing. The two may
/// have come there by different ways: other inputs may have been set and other queries
/// fetched. In each, fetch the same query, by [`crate::Storage::fetch`] or another
/// function that ensures [`found_right`]. If both fetches return a value, it is the same
/// value: one may have run functions where the other found entries to confirm.
pub proof fn law_same_inputs_same_value<DB: QueryContext>(
    semantics: Semantics<DB::Value>,
    key: DatabaseKeyIndex,
    one_db: DB,
    one: StorageView<DB::Value>,
    one_history: History<DB::Value>,
    one_value: DB::Value,
    other_db: DB,
    other: StorageView<DB::Value>,
    other_history: History<DB::Value>,
    other_value: DB::Value,
)
    requires
        one_db.computes(semantics, one_history.sources),
        other_db.computes(semantics, other_history.sources),
        one.respected_by(semantics),
        other.respected_by(semantics),
        one.sound(semantics, one_history),
        other.sound(semantics, other_history),
        other.flavor(key) == one.flavor(key),
        one_history.sources[one.revision().index()] == other_history.sources[
            other.revision().index()
        ],
        found_right(one_db, one, key, Ok(one_value)),
        found_right(other_db, other, key, Ok(other_value)),
    ensures
        one_value == other_value,
{
    law_fetch_is_right(semantics, key, one_db, one, one_history, one_value);
    law_fetch_is_right(semantics, key, other_db, other, other_history, other_value);
}

/// A fetch on a database that computes a semantics returns what the query is worth.
///
/// Take a database that computes a semantics and a sound storage, and fetch a query by
/// [`crate::Storage::fetch`] or another function that ensures [`found_right`]. A value
/// that the fetch returns is what the query is worth for the sources as they are,
/// whatever had to run for it.
pub proof fn law_fetch_is_right<DB: QueryContext>(
    semantics: Semantics<DB::Value>,
    key: DatabaseKeyIndex,
    db: DB,
    before: StorageView<DB::Value>,
    history: History<DB::Value>,
    value: DB::Value,
)
    requires
        db.computes(semantics, history.sources),
        before.respected_by(semantics),
        before.sound(semantics, history),
        found_right(db, before, key, Ok(value)),
    ensures
        before.worth(semantics, history.sources[before.revision().index()], key) == Some(value),
{
    assert(history == History { sources: history.sources, seen: history.seen });
    assert(before.finds_right(semantics, history.sources, key, value));
    assert(before.sound(semantics, History { sources: history.sources, seen: history.seen }));
}

/// A fetch on a database that computes a semantics leaves a sound storage sound.
///
/// Take a database that computes a semantics and a sound storage, and fetch a query by
/// [`crate::Storage::fetch`] or another function that ensures [`kept_sound`]. Whatever
/// the fetch returns, the storage is sound afterwards, for the same sources: so the
/// next fetch finds what this law asks for.
pub proof fn law_fetch_keeps_sound<DB: QueryContext>(
    semantics: Semantics<DB::Value>,
    db: DB,
    before: StorageView<DB::Value>,
    history: History<DB::Value>,
    db_after: DB,
    after: StorageView<DB::Value>,
)
    requires
        db.computes(semantics, history.sources),
        before.respected_by(semantics),
        before.sound(semantics, history),
        kept_sound(db, before, db_after, after),
    ensures
        db_after.computes(semantics, history.sources),
        exists|seen: Map<DatabaseKeyIndex, Set<int>>| #[trigger]
            after.sound(semantics, History { sources: history.sources, seen }),
{
    assert(history == History { sources: history.sources, seen: history.seen });
    assert(before.keeps_sound(after, semantics, history.sources));
    assert(before.sound(semantics, History { sources: history.sources, seen: history.seen }));
}

/// The same inputs give the same values where nothing has to run, whatever the
/// functions of the database do.
///
/// Take two sound storages, of one database at two moments or of two databases with
/// the same queries, in which the sources have the same values. In each, fetch the
/// same query, an input that has a value or a cached query whose entry is fresh or can
/// be confirmed: the two storages may have come there by different ways, and one may
/// confirm where the other finds the entry fresh. Both fetches return a value, and the
/// same one.
pub proof fn law_same_inputs_same_value_at_rest<V>(
    semantics: Semantics<V>,
    key: DatabaseKeyIndex,
    one: StorageView<V>,
    one_fuel: nat,
    one_result: Result<V, QueryError>,
    one_after: StorageView<V>,
    one_history: History<V>,
    other: StorageView<V>,
    other_fuel: nat,
    other_result: Result<V, QueryError>,
    other_after: StorageView<V>,
    other_history: History<V>,
)
    requires
        one.wf(),
        other.wf(),
        one.respected_by(semantics),
        other.respected_by(semantics),
        one.sound(semantics, one_history),
        other.sound(semantics, other_history),
        one.global_storage == other.global_storage,
        one_history.sources[one.revision().index()] == other_history.sources[
            other.revision().index()
        ],
        one.runs_nothing_for(key, one_fuel),
        other.runs_nothing_for(key, other_fuel),
        one.fetched(key, one_result, one_after),
        other.fetched(key, other_result, other_after),
    ensures
        one_result is Ok,
        one_result == other_result,
{
    law_fetch_without_running_is_sound(
        one,
        key,
        one_fuel,
        one_result,
        one_after,
        semantics,
        one_history,
    );
    law_fetch_without_running_is_sound(
        other,
        key,
        other_fuel,
        other_result,
        other_after,
        semantics,
        other_history,
    );
}

/// Within one revision a query has one value.
///
/// Once a fetch of an input or of a cached query has returned a value, every later
/// fetch of it in the same revision, whatever was fetched in between, returns the same
/// value and changes no entry: no function runs for it.
pub proof fn law_one_value_per_revision<V>(
    first: StorageView<V>,
    key: DatabaseKeyIndex,
    value: V,
    second: StorageView<V>,
    third: StorageView<V>,
    result: Result<V, QueryError>,
    fourth: StorageView<V>,
)
    requires
        first.wf(),
        !(first.flavor(key) is Transparent),
        first.fetched(key, Ok(value), second),
        second.evolves_to(third),
        third.fetched(key, result, fourth),
    ensures
        result == Ok::<V, QueryError>(value),
        fourth.query_store == third.query_store,
        fourth == third.with_read(key),
{
    assert(second.query_store.contains_key(key));
    assert(third.query_store.contains_key(key));
    if first.flavor(key) is Input {
        assert(second.is_fresh(key));
        let memo = third.query_store[key];
        assert(memo.verified(third.revision()) == memo);
        assert(third.query_store.insert(key, memo) =~= third.query_store);
    } else {
        assert(third.is_fresh(key));
    }
}

/// No function runs twice in one revision.
///
/// Once a fetch of an input or of a cached query has returned a value, the function
/// of that query may not run again while the revision lasts, and whatever is fetched
/// from then on, the record of the functions that were run does not grow by that
/// query. (An input has no function that could ever run.)
pub proof fn law_runs_once_per_revision<V>(
    first: StorageView<V>,
    key: DatabaseKeyIndex,
    value: V,
    second: StorageView<V>,
    third: StorageView<V>,
)
    requires
        first.wf(),
        !(first.flavor(key) is Transparent),
        first.fetched(key, Ok(value), second),
        second.evolves_to(third),
    ensures
        !third.may_execute(key),
        forall|i: int|
            second.runtime.executed.len() <= i < third.runtime.executed.len()
                ==> #[trigger] third.runtime.executed[i] != key,
{
    if first.is_cached(key) {
        assert(second.query_store.contains_key(key));
        assert(third.is_fresh(key));
    }
    assert(second.rests(key));
}

/// A stale entry is confirmed in place, or the function of the query runs.
///
/// Fetch a cached query that has a stale entry, and let the fetch return a value.
/// Then all that the entry had read is settled to be unchanged since the entry was
/// last confirmed, or the function of the query is on the record of the functions
/// that were run during the fetch.
pub proof fn law_confirmed_or_run<V>(
    before: StorageView<V>,
    key: DatabaseKeyIndex,
    value: V,
    after: StorageView<V>,
)
    requires
        before.wf(),
        before.is_cached(key),
        before.query_store.contains_key(key),
        !before.is_fresh(key),
        before.fetched(key, Ok(value), after),
    ensures
        before.runtime.executed.is_prefix_of(after.runtime.executed),
        after.can_confirm_again(key, before.query_store[key]) || after.runtime.executed.subrange(
            before.runtime.executed.len() as int,
            after.runtime.executed.len() as int,
        ).contains(key),
{
    let ended = after.with_stack(before.runtime.stack);
    let kept = Ok::<V, QueryError>(value);
    assert(before.refreshed(key, kept, ended));
    if before.reconfirmed(key, kept, ended) {
        assert(ended.can_confirm_again(key, before.query_store[key]));
        assert(after.can_confirm_again(key, before.query_store[key]));
    } else {
        assert(before.ran(key, kept, ended));
        let (started, returned, inner) = choose|
            started: StorageView<V>,
            returned: StorageView<V>,
            inner: Result<V, QueryError>,
        |
            #![trigger started.began(key).evolves_to(returned), returned.finished(key, inner)]
            {
                &&& before.pushed(key).evolves_to(started)
                &&& started.may_execute(key)
                &&& started.began(key).evolves_to(returned)
                &&& ended == returned.finished(key, inner)
                &&& match returned.outcome(key, inner) {
                    Some((value, _)) => kept == Ok::<V, QueryError>(value),
                    None => kept is Err && kept == inner,
                }
            };
        let at = started.runtime.executed.len() as int;
        assert(started.began(key).runtime.executed[at] == key);
        assert(after.runtime.executed == returned.runtime.executed);
        assert(after.runtime.executed[at] == key);
        let run = after.runtime.executed.subrange(
            before.runtime.executed.len() as int,
            after.runtime.executed.len() as int,
        );
        assert(run[at - before.runtime.executed.len()] == key);
    }
}

/// An entry that cannot be confirmed makes the function of its query run.
///
/// Fetch a cached query that has a stale entry which has read something untracked, as
/// every entry of a volatile query has, or nothing at all, or an input that was set
/// after the entry was last confirmed, or a query whose value is found to have changed
/// since. If the fetch returns a value, the function of the query is on the record of
/// the functions that were run during the fetch.
pub proof fn law_stale_entry_runs<V>(
    before: StorageView<V>,
    key: DatabaseKeyIndex,
    value: V,
    after: StorageView<V>,
)
    requires
        before.wf(),
        before.is_cached(key),
        before.query_store.contains_key(key),
        !before.is_fresh(key),
        ({
            let entry = before.query_store[key];
            ||| !entry.can_validate()
            ||| exists|i: int|
                0 <= i < entry.dependencies.len() && before.flavor(
                    #[trigger] entry.dependencies[i],
                ) is Input && before.query_store.contains_key(entry.dependencies[i])
                    && before.query_store[entry.dependencies[i]].changed_after(
                    entry.verified_at,
                )
            ||| exists|i: int|
                0 <= i < entry.dependencies.len() && after.query_store.contains_key(
                    #[trigger] entry.dependencies[i],
                ) && after.query_store[entry.dependencies[i]].changed_after(entry.verified_at)
        }),
        before.fetched(key, Ok(value), after),
    ensures
        after.runtime.executed.subrange(
            before.runtime.executed.len() as int,
            after.runtime.executed.len() as int,
        ).contains(key),
{
    law_confirmed_or_run(before, key, value, after);
    let entry = before.query_store[key];
    if entry.can_validate() {
        if exists|i: int|
            0 <= i < entry.dependencies.len() && after.query_store.contains_key(
                #[trigger] entry.dependencies[i],
            ) && after.query_store[entry.dependencies[i]].changed_after(entry.verified_at) {
            let i = choose|i: int|
                0 <= i < entry.dependencies.len() && after.query_store.contains_key(
                    #[trigger] entry.dependencies[i],
                ) && after.query_store[entry.dependencies[i]].changed_after(entry.verified_at);
            assert(!after.unchanged_since(entry.dependencies[i], entry.verified_at));
        } else {
            let i = choose|i: int|
                0 <= i < entry.dependencies.len() && before.flavor(
                    #[trigger] entry.dependencies[i],
                ) is Input && before.query_store.contains_key(entry.dependencies[i])
                    && before.query_store[entry.dependencies[i]].changed_after(
                    entry.verified_at,
                );
            assert(!after.unchanged_since(entry.dependencies[i], entry.verified_at));
        }
    }
}

/// What one handle has computed, another handle finds.
///
/// Let a fetch of an input or of a cached query through one handle have returned a
/// value. Whatever was fetched since, a fetch of the same query in the same revision
/// through any other handle returns the same value, and the record of the functions
/// that were run does not grow: the function of a query runs once for all handles.
pub proof fn law_handles_share_the_entries<V>(
    first: StorageView<V>,
    key: DatabaseKeyIndex,
    value: V,
    second: StorageView<V>,
    third: StorageView<V>,
    handle: HandleView<V>,
    result: Result<V, QueryError>,
    fourth: StorageView<V>,
)
    requires
        first.wf(),
        !(first.flavor(key) is Transparent),
        first.fetched(key, Ok(value), second),
        second.evolves_to(third),
        third.with_handle(handle).fetched(key, result, fourth),
    ensures
        result == Ok::<V, QueryError>(value),
        fourth.query_store == third.query_store,
        fourth.runtime.executed == third.runtime.executed,
{
    let other = third.with_handle(handle);
    assert(second.query_store.contains_key(key));
    assert(third.query_store.contains_key(key));
    assert(other.query_store == third.query_store);
    if first.flavor(key) is Input {
        assert(second.is_fresh(key));
        let memo = other.query_store[key];
        assert(memo.verified(other.revision()) == memo);
        assert(other.query_store.insert(key, memo) =~= other.query_store);
    } else {
        assert(third.is_fresh(key));
        assert(other.is_fresh(key));
    }
}

/// A query that ran again and returned what it had returned before does not make its
/// readers run.
///
/// Let `dependency` have had an entry, and let a fetch of it, in a later revision,
/// return the value of that entry. Let `reader` have a stale entry that read
/// `dependency` when `dependency` had its present value already, and let everything
/// else that `reader` read be settled to be unchanged. Then a fetch of `reader` returns
/// the value of its entry and only confirms the entry: no function runs.
pub proof fn law_backdating<V>(
    before: StorageView<V>,
    dependency: DatabaseKeyIndex,
    after: StorageView<V>,
    reader: DatabaseKeyIndex,
    result: Result<V, QueryError>,
    later: StorageView<V>,
)
    requires
        before.wf(),
        before.is_cached(dependency),
        before.query_store.contains_key(dependency),
        before.fetched(dependency, Ok(before.query_store[dependency].value), after),
        after.is_cached(reader),
        after.query_store.contains_key(reader),
        !after.is_fresh(reader),
        !after.runtime.is_active(reader),
        after.query_store[reader].can_validate(),
        !before.query_store[dependency].changed_after(after.query_store[reader].verified_at),
        forall|i: int|
            0 <= i < after.query_store[reader].dependencies.len() ==> {
                ||| #[trigger] after.query_store[reader].dependencies[i] == dependency
                ||| after.unchanged_since(
                    after.query_store[reader].dependencies[i],
                    after.query_store[reader].verified_at,
                )
            },
        after.fetched(reader, result, later),
    ensures
        after.query_store[dependency].changed_at == before.query_store[dependency].changed_at,
        after.confirms(reader),
        !after.may_execute(reader),
        result == Ok::<V, QueryError>(after.query_store[reader].value),
        later == after.with_memo(
            reader,
            after.query_store[reader].verified(after.revision()),
        ).with_read(reader),
{
    let entry = after.query_store[reader];
    assert(after.unchanged_since(dependency, entry.verified_at));
    assert forall|i: int| 0 <= i < entry.dependencies.len() implies after.unchanged_since(
        #[trigger] entry.dependencies[i],
        entry.verified_at,
    ) by {
        if entry.dependencies[i] != dependency {
            assert(after.unchanged_since(entry.dependencies[i], entry.verified_at));
        }
    }
    after.lemma_confirms_at_once(reader);
    assert(after.confirmed(reader, 1) is Some);
}

/// While a snapshot is alive no input is set, and once it is released the input is set
/// and read.
///
/// Take a storage from which no snapshot is alive. After a snapshot was taken, a
/// request to set an input changes no entry and no revision: it is only remembered,
/// which readers see as cancellation. After the snapshot was released, the same
/// request advances the revision by one and sets the input, and whoever fetches the
/// input then gets the new value.
pub proof fn law_snapshot_isolation<V>(
    storage: StorageView<V>,
    key: DatabaseKeyIndex,
    value: V,
    result: Result<V, QueryError>,
    later: StorageView<V>,
)
    requires
        storage.wf(),
        storage.runtime.may_write(),
        storage.runtime.readers == 0,
        storage.flavor(key) is Input,
        storage.with_runtime(storage.runtime.after_snapshot()).after_set(key, value).with_runtime(
            storage.with_runtime(storage.runtime.after_snapshot()).after_set(
                key,
                value,
            ).runtime.after_release(),
        ).after_set(key, value).fetched(key, result, later),
    ensures
        ({
            let held = storage.with_runtime(storage.runtime.after_snapshot());
            let blocked = held.after_set(key, value);
            let released = blocked.with_runtime(blocked.runtime.after_release());
            let written = released.after_set(key, value);
            &&& blocked.query_store == storage.query_store
            &&& blocked.revision() == storage.revision()
            &&& blocked.runtime.pending_write
            &&& written.revision().generation == storage.revision().generation + 1
            &&& written.value(key) == Some(value)
            &&& !written.runtime.pending_write
            &&& result == Ok::<V, QueryError>(value)
        }),
{
}

} // verus!
