//! Why the values that the engine keeps are the right ones.
//!
//! The values of the queries come from *sources*: the inputs, and whatever the
//! functions of the queries read that the engine does not track, such as a clock. A
//! query whose function reads something untracked is a source itself: what it returns
//! is given, like the value of an input. Every other query is a function of the
//! sources: [`Semantics::value`] says what it returns for given values of the sources
//! and [`Semantics::reads`] which queries it reads to find that out, such that the
//! value depends on nothing but what is read.
//!
//! A storage is *sound* if every entry is as the semantics says; in particular a fresh
//! entry then holds what its query is worth for the sources as they are now. A
//! storage without entries is sound ([`StorageView::lemma_empty_is_sound`]), and the
//! steps of the engine keep it sound: a new revision
//! ([`StorageView::lemma_write_is_sound`]), the read of an input
//! ([`StorageView::lemma_read_input_is_sound`]), the confirmation of entries without
//! running a function ([`StorageView::lemma_confirmed_is_sound`]), the end of an
//! execution, if the function returned and read what the semantics says
//! ([`StorageView::did_as_told`], [`StorageView::lemma_execute_is_sound`]), and
//! whatever changes the stack alone ([`StorageView::lemma_frames_are_immaterial`]).
//! That a function does what the semantics says is nothing the engine can know. A
//! database says of itself which semantics it computes
//! ([`crate::QueryContext::computes`]), and of such a database every fetch keeps the
//! storage sound ([`StorageView::keeps_sound`], [`crate::kept_sound`]).

use vstd::prelude::*;
use crate::key::DatabaseKeyIndex;
use crate::memo::MemoView;
use crate::model::StorageView;
use crate::revision::Revision;
use crate::QueryError;

verus! {

/// What the queries mean: their values and what they read, as functions of the values
/// of the sources.
#[verifier::reject_recursive_types(V)]
pub struct Semantics<V> {
    /// The value of a query for given values of the sources.
    pub value: spec_fn(Map<DatabaseKeyIndex, V>, DatabaseKeyIndex) -> V,
    /// The queries that a query reads for given values of the sources, each once, in
    /// the order of the first read.
    pub reads: spec_fn(Map<DatabaseKeyIndex, V>, DatabaseKeyIndex) -> Seq<DatabaseKeyIndex>,
}

/// What happened to a database.
pub struct History<V> {
    /// The values of the sources at every revision so far: of every input that had a
    /// value, and of every query whose function read something untracked then, or
    /// would have if it had run.
    pub sources: Map<int, Map<DatabaseKeyIndex, V>>,
    /// For every query the revisions at which its entry was confirmed.
    pub seen: Map<DatabaseKeyIndex, Set<int>>,
}

impl<V> History<V> {
    /// The revisions at which the entry of `key` was confirmed.
    pub open spec fn seen_at(self, key: DatabaseKeyIndex) -> Set<int> {
        if self.seen.contains_key(key) {
            self.seen[key]
        } else {
            Set::empty()
        }
    }

    /// The history after the entry of `key` was confirmed at `revision`.
    pub open spec fn with_seen(self, key: DatabaseKeyIndex, revision: int) -> History<V> {
        History { seen: self.seen.insert(key, self.seen_at(key).insert(revision)), ..self }
    }

    /// The history after the revision `revision` began with the sources at `sources`.
    pub open spec fn with_sources(self, revision: int, sources: Map<DatabaseKeyIndex, V>)
        -> History<V> {
        History { sources: self.sources.insert(revision, sources), ..self }
    }
}

impl<V> StorageView<V> {
    /// What `key` is worth for the sources at `sources`: the value of a source; nothing
    /// for an input that has no value; and otherwise what the semantics says.
    pub open spec fn worth(
        self,
        semantics: Semantics<V>,
        sources: Map<DatabaseKeyIndex, V>,
        key: DatabaseKeyIndex,
    ) -> Option<V> {
        if sources.contains_key(key) {
            Some(sources[key])
        } else if self.flavor(key) is Input {
            None
        } else {
            Some((semantics.value)(sources, key))
        }
    }

    /// The inputs among the sources at `sources`, with their values.
    pub open spec fn inputs_of(self, sources: Map<DatabaseKeyIndex, V>) -> Map<
        DatabaseKeyIndex,
        V,
    > {
        sources.restrict(Set::new(|key: DatabaseKeyIndex| self.flavor(key) is Input))
    }

    /// Whether the queries of `keys` are worth the same for the sources at `first` as
    /// for those at `second`.
    pub open spec fn agree(
        self,
        semantics: Semantics<V>,
        first: Map<DatabaseKeyIndex, V>,
        second: Map<DatabaseKeyIndex, V>,
        keys: Seq<DatabaseKeyIndex>,
    ) -> bool {
        forall|i: int|
            0 <= i < keys.len() ==> self.worth(semantics, first, #[trigger] keys[i]) == self.worth(
                semantics,
                second,
                keys[i],
            )
    }

    /// Whether the semantics depends on nothing but what is read: where the queries
    /// that a query reads for some sources are worth the same for other sources, the
    /// query has the same value for both and reads the same; and a query that is no
    /// input is a source for both or for neither.
    pub open spec fn respected_by(self, semantics: Semantics<V>) -> bool {
        forall|
            first: Map<DatabaseKeyIndex, V>,
            second: Map<DatabaseKeyIndex, V>,
            key: DatabaseKeyIndex,
        |
            #![trigger (semantics.value)(first, key), (semantics.value)(second, key)]
            self.agree(semantics, first, second, (semantics.reads)(first, key)) ==> {
                &&& (semantics.value)(second, key) == (semantics.value)(first, key)
                &&& (semantics.reads)(second, key) == (semantics.reads)(first, key)
                &&& !(self.flavor(key) is Input) ==> (second.contains_key(key)
                    <==> first.contains_key(key))
            }
    }

    /// Whether the semantics is respected is a matter of the declarations alone.
    pub proof fn lemma_respected_elsewhere(self, semantics: Semantics<V>, other: StorageView<V>)
        requires
            self.respected_by(semantics),
            other.global_storage == self.global_storage,
        ensures
            other.respected_by(semantics),
    {
        assert forall|
            first: Map<DatabaseKeyIndex, V>,
            second: Map<DatabaseKeyIndex, V>,
            key: DatabaseKeyIndex,
        |
            #![trigger (semantics.value)(first, key), (semantics.value)(second, key)]
            other.agree(semantics, first, second, (semantics.reads)(first, key)) implies {
            &&& (semantics.value)(second, key) == (semantics.value)(first, key)
            &&& (semantics.reads)(second, key) == (semantics.reads)(first, key)
            &&& !(other.flavor(key) is Input) ==> (second.contains_key(key)
                <==> first.contains_key(key))
        } by {
            let reads = (semantics.reads)(first, key);
            assert forall|i: int| 0 <= i < reads.len() implies self.worth(
                semantics,
                first,
                #[trigger] reads[i],
            ) == self.worth(semantics, second, reads[i]) by {
                assert(other.worth(semantics, first, reads[i]) == other.worth(
                    semantics,
                    second,
                    reads[i],
                ));
            }
            assert(self.agree(semantics, first, second, reads));
            assert((semantics.value)(second, key) == (semantics.value)(first, key));
            assert((semantics.reads)(second, key) == (semantics.reads)(first, key));
        }
    }

    /// Whether the entry of the input `key` is sound: the input has an entry exactly if
    /// it has a value now, and then it has had the value of the entry at every revision
    /// since the entry changed.
    pub open spec fn sound_input(self, history: History<V>, key: DatabaseKeyIndex) -> bool {
        let current = self.revision().index();
        &&& self.query_store.contains_key(key) <==> history.sources[current].contains_key(key)
        &&& self.query_store.contains_key(key) ==> forall|r: int|
            self.query_store[key].changed_at.index() <= r <= current ==> (
            #[trigger] history.sources[r]).contains_key(key) && history.sources[r][key]
                == self.query_store[key].value
    }

    /// Whether the entry of the cached query `key` is sound: at every revision at which
    /// it was confirmed since its value changed, the query was worth the value of the
    /// entry; it records an untracked read exactly if the query was a source when it
    /// last ran; and if it was not, the entry lists what the query read when the entry
    /// was last confirmed, all of which was confirmed then too.
    pub open spec fn sound_entry(
        self,
        semantics: Semantics<V>,
        history: History<V>,
        key: DatabaseKeyIndex,
    ) -> bool {
        let entry = self.query_store[key];
        let seen = history.seen_at(key);
        let then = history.sources[entry.verified_at.index()];
        &&& seen.contains(entry.verified_at.index())
        &&& forall|r: int| #[trigger]
            seen.contains(r) ==> r <= self.revision().index() && (entry.changed_at.index() <= r
                ==> self.worth(semantics, history.sources[r], key) == Some(entry.value))
        &&& entry.untracked <==> then.contains_key(key)
        &&& !entry.untracked ==> entry.dependencies == (semantics.reads)(then, key)
        &&& !entry.untracked ==> forall|i: int|
            0 <= i < entry.dependencies.len() ==> self.sound_read(
                history,
                #[trigger] entry.dependencies[i],
                entry.verified_at.index(),
            )
    }

    /// Whether `key` could be read at `revision`: it is an input that had a value then,
    /// or a cached query whose entry was confirmed then.
    pub open spec fn sound_read(self, history: History<V>, key: DatabaseKeyIndex, revision: int)
        -> bool {
        if self.flavor(key) is Input {
            history.sources[revision].contains_key(key)
        } else {
            self.is_cached(key) && self.query_store.contains_key(key) && history.seen_at(
                key,
            ).contains(revision)
        }
    }

    /// Whether the storage is sound: the history tells the sources of every revision so
    /// far, every entry of an input and of a cached query is sound, and a cached query
    /// without an entry was never confirmed.
    pub open spec fn sound(self, semantics: Semantics<V>, history: History<V>) -> bool {
        &&& forall|r: int| 1 <= r <= self.revision().index() ==> history.sources.contains_key(r)
        &&& forall|key: DatabaseKeyIndex|
            self.flavor(key) is Input ==> #[trigger] self.sound_input(history, key)
        &&& forall|key: DatabaseKeyIndex|
            self.is_cached(key) && #[trigger] self.query_store.contains_key(key)
                ==> self.sound_entry(semantics, history, key)
        &&& forall|key: DatabaseKeyIndex|
            self.is_cached(key) && !(#[trigger] self.query_store.contains_key(key))
                ==> history.seen_at(key) == Set::<int>::empty()
    }

    /// A storage without entries is sound, as a new one is when its queries have just
    /// been declared: with a history in which nothing was confirmed yet and no input
    /// has a value now.
    pub proof fn lemma_empty_is_sound(self, semantics: Semantics<V>, history: History<V>)
        requires
            self.query_store == Map::<DatabaseKeyIndex, MemoView<V>>::empty(),
            history.seen == Map::<DatabaseKeyIndex, Set<int>>::empty(),
            forall|r: int| 1 <= r <= self.revision().index() ==> history.sources.contains_key(r),
            forall|key: DatabaseKeyIndex|
                self.flavor(key) is Input ==> !history.sources[self.revision().index()].contains_key(
                    key,
                ),
        ensures
            self.sound(semantics, history),
    {
    }

    /// In a sound storage a fresh entry of a cached query holds what the query is worth
    /// for the sources as they are now.
    pub proof fn lemma_fresh_is_right(
        self,
        semantics: Semantics<V>,
        history: History<V>,
        key: DatabaseKeyIndex,
    )
        requires
            self.wf(),
            self.sound(semantics, history),
            self.is_cached(key),
            self.is_fresh(key),
        ensures
            self.worth(semantics, history.sources[self.revision().index()], key) == Some(
                self.query_store[key].value,
            ),
    {
        assert(self.sound_entry(semantics, history, key));
        let entry = self.query_store[key];
        assert(entry.wf(self.revision()));
        assert(history.seen_at(key).contains(entry.verified_at.index()));
    }

    /// In a sound storage, what is settled to be unchanged since a revision at which it
    /// could be read is worth now what it was worth then.
    pub proof fn lemma_unchanged_is_right(
        self,
        semantics: Semantics<V>,
        history: History<V>,
        key: DatabaseKeyIndex,
        revision: Revision,
    )
        requires
            self.wf(),
            self.sound(semantics, history),
            self.unchanged_since(key, revision),
            self.sound_read(history, key, revision.index()),
            revision.index() <= self.revision().index(),
        ensures
            self.worth(semantics, history.sources[revision.index()], key) == self.worth(
                semantics,
                history.sources[self.revision().index()],
                key,
            ),
            self.sound_read(history, key, self.revision().index()),
    {
        let current = self.revision().index();
        let entry = self.query_store[key];
        assert(entry.wf(self.revision()));
        if self.flavor(key) is Input {
            assert(self.sound_input(history, key));
            assert(history.sources[revision.index()].contains_key(key));
            assert(history.sources[current].contains_key(key));
        } else {
            assert(self.sound_entry(semantics, history, key));
            assert(history.seen_at(key).contains(revision.index()));
            assert(history.seen_at(key).contains(current));
        }
    }

    /// Confirming an entry keeps the storage sound.
    ///
    /// Where the entry of a cached query can be confirmed, the query is worth for the
    /// sources as they are now the value that the entry holds, and reads what the entry
    /// lists.
    pub proof fn lemma_confirm_is_sound(
        self,
        semantics: Semantics<V>,
        history: History<V>,
        key: DatabaseKeyIndex,
    )
        requires
            self.wf(),
            self.respected_by(semantics),
            self.sound(semantics, history),
            self.is_cached(key),
            self.can_confirm(key),
        ensures
            self.worth(semantics, history.sources[self.revision().index()], key) == Some(
                self.query_store[key].value,
            ),
            self.with_memo(key, self.query_store[key].verified(self.revision())).sound(
                semantics,
                history.with_seen(key, self.revision().index()),
            ),
    {
        let current = self.revision().index();
        let entry = self.query_store[key];
        let then = history.sources[entry.verified_at.index()];
        let now = history.sources[current];
        let later = self.with_memo(key, entry.verified(self.revision()));
        let after = history.with_seen(key, current);
        assert(entry.wf(self.revision()));
        assert(self.sound_entry(semantics, history, key));
        assert(history.seen_at(key).contains(entry.verified_at.index()));
        assert forall|i: int| 0 <= i < entry.dependencies.len() implies self.worth(
            semantics,
            then,
            #[trigger] entry.dependencies[i],
        ) == self.worth(semantics, now, entry.dependencies[i]) && self.sound_read(
            history,
            entry.dependencies[i],
            current,
        ) by {
            assert(self.unchanged_since(entry.dependencies[i], entry.verified_at));
            self.lemma_unchanged_is_right(
                semantics,
                history,
                entry.dependencies[i],
                entry.verified_at,
            );
        }
        assert(self.agree(semantics, then, now, (semantics.reads)(then, key)));
        assert((semantics.value)(now, key) == (semantics.value)(then, key));
        assert((semantics.reads)(now, key) == entry.dependencies);
        assert(!now.contains_key(key));
        assert(self.worth(semantics, then, key) == Some(entry.value));
        assert forall|other: DatabaseKeyIndex|
            later.flavor(other) is Input implies #[trigger] later.sound_input(after, other) by {
            assert(self.sound_input(history, other));
        }
        assert forall|other: DatabaseKeyIndex|
            later.is_cached(other) && #[trigger] later.query_store.contains_key(
                other,
            ) implies later.sound_entry(semantics, after, other) by {
            if other == key {
                let confirmed = later.query_store[key];
                assert(after.seen_at(key) == history.seen_at(key).insert(current));
                assert forall|i: int|
                    0 <= i < confirmed.dependencies.len() implies later.sound_read(
                    after,
                    #[trigger] confirmed.dependencies[i],
                    current,
                ) by {
                    let read = entry.dependencies[i];
                    assert(self.sound_read(history, read, current));
                    if read == key {
                        assert(after.seen_at(key).contains(current));
                    } else {
                        assert(after.seen_at(read) == history.seen_at(read));
                    }
                }
            } else {
                assert(self.sound_entry(semantics, history, other));
                assert(after.seen_at(other) == history.seen_at(other));
                let kept = self.query_store[other];
                if !kept.untracked {
                    assert forall|i: int|
                        0 <= i < kept.dependencies.len() implies later.sound_read(
                        after,
                        #[trigger] kept.dependencies[i],
                        kept.verified_at.index(),
                    ) by {
                        let read = kept.dependencies[i];
                        assert(self.sound_read(history, read, kept.verified_at.index()));
                        if read == key {
                            assert(after.seen_at(key).contains(kept.verified_at.index()));
                        } else {
                            assert(after.seen_at(read) == history.seen_at(read));
                        }
                    }
                }
            }
        }
    }

    /// What does not touch the entries, the declarations or the revision keeps the
    /// storage sound.
    pub proof fn lemma_frames_are_immaterial(
        self,
        semantics: Semantics<V>,
        history: History<V>,
        later: StorageView<V>,
    )
        requires
            self.sound(semantics, history),
            later.global_storage == self.global_storage,
            later.query_store == self.query_store,
            later.revision() == self.revision(),
        ensures
            later.sound(semantics, history),
    {
        assert forall|key: DatabaseKeyIndex|
            later.flavor(key) is Input implies #[trigger] later.sound_input(history, key) by {
            assert(self.sound_input(history, key));
        }
        assert forall|key: DatabaseKeyIndex|
            later.is_cached(key) && #[trigger] later.query_store.contains_key(
                key,
            ) implies later.sound_entry(semantics, history, key) by {
            assert(self.sound_entry(semantics, history, key));
            let entry = self.query_store[key];
            if !entry.untracked {
                assert forall|i: int|
                    0 <= i < entry.dependencies.len() implies later.sound_read(
                    history,
                    #[trigger] entry.dependencies[i],
                    entry.verified_at.index(),
                ) by {
                    assert(self.sound_read(
                        history,
                        entry.dependencies[i],
                        entry.verified_at.index(),
                    ));
                }
            }
        }
    }

    /// Reading an input keeps the storage sound.
    pub proof fn lemma_read_input_is_sound(
        self,
        semantics: Semantics<V>,
        history: History<V>,
        key: DatabaseKeyIndex,
    )
        requires
            self.sound(semantics, history),
            self.flavor(key) is Input,
            self.query_store.contains_key(key),
        ensures
            self.with_memo(key, self.query_store[key].verified(self.revision())).sound(
                semantics,
                history,
            ),
    {
        let later = self.with_memo(key, self.query_store[key].verified(self.revision()));
        assert forall|other: DatabaseKeyIndex|
            later.flavor(other) is Input implies #[trigger] later.sound_input(history, other) by {
            assert(self.sound_input(history, other));
        }
        assert forall|other: DatabaseKeyIndex|
            later.is_cached(other) && #[trigger] later.query_store.contains_key(
                other,
            ) implies later.sound_entry(semantics, history, other) by {
            assert(self.sound_entry(semantics, history, other));
            let entry = self.query_store[other];
            if !entry.untracked {
                assert forall|i: int|
                    0 <= i < entry.dependencies.len() implies later.sound_read(
                    history,
                    #[trigger] entry.dependencies[i],
                    entry.verified_at.index(),
                ) by {
                    assert(self.sound_read(
                        history,
                        entry.dependencies[i],
                        entry.verified_at.index(),
                    ));
                }
            }
        }
        assert forall|other: DatabaseKeyIndex|
            later.is_cached(other) && !(#[trigger] later.query_store.contains_key(
                other,
            )) implies history.seen_at(other) == Set::<int>::empty() by {
            assert(!self.query_store.contains_key(other));
        }
    }

    /// Whether the function of the cached query `key`, which is on top of the stack
    /// and has returned `result`, did what the semantics says, in a storage that is
    /// well formed and sound. If something is kept of the execution, the query is a
    /// source now exactly if what is kept counts as untracked, and the value is what
    /// the query is worth for the sources as they are now. If it is no source, the
    /// frame lists what the query reads for them, all of which could be read.
    pub open spec fn did_as_told(
        self,
        semantics: Semantics<V>,
        history: History<V>,
        key: DatabaseKeyIndex,
        result: Result<V, QueryError>,
    ) -> bool {
        let sources = history.sources[self.revision().index()];
        let frame = self.runtime.stack.last();
        &&& self.wf()
        &&& self.sound(semantics, history)
        &&& match self.outcome(key, result) {
            Some((value, untracked)) => {
                &&& untracked <==> sources.contains_key(key)
                &&& self.worth(semantics, sources, key) == Some(value)
                &&& !untracked ==> frame.dependencies == (semantics.reads)(sources, key)
                &&& !untracked ==> forall|i: int|
                    0 <= i < frame.dependencies.len() ==> self.sound_read(
                        history,
                        #[trigger] frame.dependencies[i],
                        self.revision().index(),
                    )
            },
            None => true,
        }
    }

    /// Keeping what a function returned keeps the storage sound, if the function did
    /// what the semantics says.
    ///
    /// Let the cached query `key` be on top of the stack, and let `value` with `untracked`
    /// be what is kept of its execution. Let the query be a source now exactly if
    /// `untracked` says so, and let `value` be what the query is worth for the sources
    /// as they are now. If it is no source, let the frame list what the query reads
    /// for them, all of which could be read. Then the storage is sound after the
    /// execution has ended.
    pub proof fn lemma_execute_is_sound(
        self,
        semantics: Semantics<V>,
        history: History<V>,
        key: DatabaseKeyIndex,
        result: Result<V, QueryError>,
        value: V,
        untracked: bool,
    )
        requires
            self.wf(),
            self.sound(semantics, history),
            self.is_cached(key),
            self.runtime.stack.len() > 0,
            self.runtime.stack.last().database_key == key,
            self.outcome(key, result) == Some((value, untracked)),
            untracked <==> history.sources[self.revision().index()].contains_key(key),
            self.worth(semantics, history.sources[self.revision().index()], key) == Some(value),
            !untracked ==> self.runtime.stack.last().dependencies == (semantics.reads)(
                history.sources[self.revision().index()],
                key,
            ),
            !untracked ==> forall|i: int|
                0 <= i < self.runtime.stack.last().dependencies.len() ==> self.sound_read(
                    history,
                    #[trigger] self.runtime.stack.last().dependencies[i],
                    self.revision().index(),
                ),
        ensures
            self.finished(key, result).sound(
                semantics,
                history.with_seen(key, self.revision().index()),
            ),
    {
        let current = self.revision().index();
        let frame = self.runtime.stack.last();
        let later = self.finished(key, result);
        let after = history.with_seen(key, current);
        let kept = later.query_store[key];
        assert(after.seen_at(key) == history.seen_at(key).insert(current));
        assert forall|other: DatabaseKeyIndex|
            later.flavor(other) is Input implies #[trigger] later.sound_input(after, other) by {
            assert(self.sound_input(history, other));
        }
        assert forall|other: DatabaseKeyIndex|
            later.is_cached(other) && !(#[trigger] later.query_store.contains_key(
                other,
            )) implies after.seen_at(other) == Set::<int>::empty() by {
            assert(!self.query_store.contains_key(other));
            assert(other != key);
        }
        assert forall|other: DatabaseKeyIndex|
            later.is_cached(other) && #[trigger] later.query_store.contains_key(
                other,
            ) implies later.sound_entry(semantics, after, other) by {
            if other == key {
                if self.query_store.contains_key(key) {
                    assert(self.sound_entry(semantics, history, key));
                    assert(self.query_store[key].wf(self.revision()));
                } else {
                    assert(history.seen_at(key) == Set::<int>::empty());
                }
                assert forall|r: int| #[trigger] after.seen_at(key).contains(r) implies r
                    <= current && (kept.changed_at.index() <= r ==> later.worth(
                    semantics,
                    after.sources[r],
                    key,
                ) == Some(kept.value)) by {
                    if r != current {
                        assert(history.seen_at(key).contains(r));
                    }
                }
                if !untracked {
                    assert forall|i: int|
                        0 <= i < kept.dependencies.len() implies later.sound_read(
                        after,
                        #[trigger] kept.dependencies[i],
                        current,
                    ) by {
                        let read = frame.dependencies[i];
                        assert(self.sound_read(history, read, current));
                        if read != key {
                            assert(after.seen_at(read) == history.seen_at(read));
                        }
                    }
                }
            } else {
                assert(self.sound_entry(semantics, history, other));
                assert(after.seen_at(other) == history.seen_at(other));
                let entry = self.query_store[other];
                if !entry.untracked {
                    assert forall|i: int|
                        0 <= i < entry.dependencies.len() implies later.sound_read(
                        after,
                        #[trigger] entry.dependencies[i],
                        entry.verified_at.index(),
                    ) by {
                        let read = entry.dependencies[i];
                        assert(self.sound_read(history, read, entry.verified_at.index()));
                        if read == key {
                            assert(after.seen_at(key).contains(entry.verified_at.index()));
                        } else {
                            assert(after.seen_at(read) == history.seen_at(read));
                        }
                    }
                }
            }
        }
    }

    /// A new revision keeps the storage sound: with the inputs as they were, with an
    /// input set, or with an input taken away, whatever the other sources are worth in
    /// the new revision.
    pub proof fn lemma_write_is_sound(
        self,
        semantics: Semantics<V>,
        history: History<V>,
        later: StorageView<V>,
        sources: Map<DatabaseKeyIndex, V>,
    )
        requires
            self.wf(),
            self.sound(semantics, history),
            self.runtime.may_write(),
            self.runtime.readers == 0,
            ({
                let now = self.inputs_of(history.sources[self.revision().index()]);
                let next = self.inputs_of(sources);
                ||| later == self.with_runtime(self.runtime.after_write_request()) && next == now
                ||| exists|key: DatabaseKeyIndex, value: V|
                    self.flavor(key) is Input && later == self.after_set(key, value) && next
                        == now.insert(key, value)
                ||| exists|key: DatabaseKeyIndex|
                    self.flavor(key) is Input && later == self.after_remove(key) && next
                        == now.remove(key)
            }),
        ensures
            later.revision().index() == self.revision().index() + 1,
            later.sound(semantics, history.with_sources(later.revision().index(), sources)),
    {
        let current = self.revision().index();
        let now = self.inputs_of(history.sources[current]);
        let next = self.inputs_of(sources);
        let after = history.with_sources(current + 1, sources);
        assert(later.revision().index() == current + 1);
        assert(later.global_storage == self.global_storage);
        assert forall|key: DatabaseKeyIndex|
            later.flavor(key) is Input implies #[trigger] later.sound_input(after, key) by {
            assert(self.sound_input(history, key));
            assert(now.contains_key(key) <==> history.sources[current].contains_key(key));
            assert(next.contains_key(key) <==> sources.contains_key(key));
            if later.query_store.contains_key(key) {
                let entry = later.query_store[key];
                if self.query_store.contains_key(key) {
                    assert(self.query_store[key].wf(self.revision()));
                    assert(now[key] == history.sources[current][key]);
                }
                assert(next[key] == sources[key]);
                assert forall|r: int| entry.changed_at.index() <= r <= current + 1 implies (
                #[trigger] after.sources[r]).contains_key(key) && after.sources[r][key]
                    == entry.value by {
                    if r <= current {
                        assert(history.sources[r].contains_key(key));
                    }
                }
            }
        }
        assert forall|key: DatabaseKeyIndex|
            later.is_cached(key) && !(#[trigger] later.query_store.contains_key(
                key,
            )) implies after.seen_at(key) == Set::<int>::empty() by {
            assert(!self.query_store.contains_key(key));
        }
        assert forall|key: DatabaseKeyIndex|
            later.is_cached(key) && #[trigger] later.query_store.contains_key(
                key,
            ) implies later.sound_entry(semantics, after, key) by {
            assert(self.query_store.contains_key(key));
            assert(later.query_store[key] == self.query_store[key]);
            assert(self.sound_entry(semantics, history, key));
            let entry = self.query_store[key];
            assert(entry.wf(self.revision()));
            if !entry.untracked {
                assert forall|i: int|
                    0 <= i < entry.dependencies.len() implies later.sound_read(
                    after,
                    #[trigger] entry.dependencies[i],
                    entry.verified_at.index(),
                ) by {
                    let read = entry.dependencies[i];
                    assert(self.sound_read(history, read, entry.verified_at.index()));
                    if !(self.flavor(read) is Input) {
                        assert(later.query_store.contains_key(read));
                    }
                }
            }
        }
    }

    /// The history after the entry of `key` was confirmed as
    /// [`StorageView::confirmed`] tells: the confirmations on the way are added, and
    /// then the one of `key`.
    pub open spec fn confirmed_history(self, history: History<V>, key: DatabaseKeyIndex, fuel: nat)
        -> History<V>
        decreases fuel, 0nat, 0nat,
    {
        if fuel == 0 {
            history
        } else {
            let memo = self.query_store[key];
            self.pushed(key).settled_history(
                history,
                memo.dependencies,
                memo.verified_at,
                (fuel - 1) as nat,
            ).with_seen(key, self.revision().index())
        }
    }

    /// The history after `key` was found unchanged as [`StorageView::settled_one`]
    /// tells.
    pub open spec fn settled_one_history(
        self,
        history: History<V>,
        key: DatabaseKeyIndex,
        fuel: nat,
    ) -> History<V>
        decreases fuel, 0nat, 1nat,
    {
        if self.is_cached(key) && !self.is_fresh(key) {
            self.confirmed_history(history, key, fuel)
        } else {
            history
        }
    }

    /// The history after the queries of `keys` were found unchanged as
    /// [`StorageView::settled`] tells.
    pub open spec fn settled_history(
        self,
        history: History<V>,
        keys: Seq<DatabaseKeyIndex>,
        revision: Revision,
        fuel: nat,
    ) -> History<V>
        decreases fuel, 1nat, keys.len(),
    {
        if keys.len() == 0 {
            history
        } else {
            match self.settled_one(keys.first(), revision, fuel) {
                Some(next) => next.settled_history(
                    self.settled_one_history(history, keys.first(), fuel),
                    keys.drop_first(),
                    revision,
                    fuel,
                ),
                None => history,
            }
        }
    }

    /// Confirming entries without running any function keeps the storage sound.
    pub proof fn lemma_confirmed_is_sound(
        self,
        semantics: Semantics<V>,
        history: History<V>,
        key: DatabaseKeyIndex,
        fuel: nat,
    )
        requires
            self.wf(),
            self.respected_by(semantics),
            self.sound(semantics, history),
            self.confirmed(key, fuel) is Some,
        ensures
            self.confirmed(key, fuel)->Some_0.sound(
                semantics,
                self.confirmed_history(history, key, fuel),
            ),
            self.worth(semantics, history.sources[self.revision().index()], key) == Some(
                self.query_store[key].value,
            ),
        decreases fuel, 0nat, 0nat,
    {
        let memo = self.query_store[key];
        let pushed = self.pushed(key);
        let deeper = (fuel - 1) as nat;
        self.lemma_pushed(key);
        self.lemma_frames_are_immaterial(semantics, history, pushed);
        self.lemma_respected_elsewhere(semantics, pushed);
        pushed.lemma_settled_is_sound(
            semantics,
            history,
            memo.dependencies,
            memo.verified_at,
            deeper,
        );
        pushed.lemma_settled_evolves(memo.dependencies, memo.verified_at, deeper);
        let after = pushed.settled(memo.dependencies, memo.verified_at, deeper)->Some_0;
        let seen = pushed.settled_history(history, memo.dependencies, memo.verified_at, deeper);
        let below = after.popped();
        after.lemma_frames_are_immaterial(semantics, seen, below);
        assert(pushed.protects(key));
        assert(after.query_store[key] == memo);
        assert(below.wf()) by {
            assert(below.query_store == after.query_store);
        }
        assert(below.can_confirm(key)) by {
            assert forall|i: int| 0 <= i < memo.dependencies.len() implies below.unchanged_since(
                #[trigger] memo.dependencies[i],
                memo.verified_at,
            ) by {
                assert(after.unchanged_since(memo.dependencies[i], memo.verified_at));
            }
        }
        self.lemma_respected_elsewhere(semantics, below);
        below.lemma_confirm_is_sound(semantics, seen, key);
    }

    /// Finding a query unchanged without running any function keeps the storage sound.
    pub proof fn lemma_settled_one_is_sound(
        self,
        semantics: Semantics<V>,
        history: History<V>,
        key: DatabaseKeyIndex,
        revision: Revision,
        fuel: nat,
    )
        requires
            self.wf(),
            self.respected_by(semantics),
            self.sound(semantics, history),
            self.settled_one(key, revision, fuel) is Some,
        ensures
            self.settled_one(key, revision, fuel)->Some_0.sound(
                semantics,
                self.settled_one_history(history, key, fuel),
            ),
            self.settled_one_history(history, key, fuel).sources == history.sources,
        decreases fuel, 0nat, 1nat,
    {
        if self.is_cached(key) && !self.is_fresh(key) {
            self.lemma_confirmed_is_sound(semantics, history, key, fuel);
            self.lemma_confirmed_history_inputs(history, key, fuel);
        }
    }

    /// Finding queries unchanged one after the other without running any function
    /// keeps the storage sound.
    pub proof fn lemma_settled_is_sound(
        self,
        semantics: Semantics<V>,
        history: History<V>,
        keys: Seq<DatabaseKeyIndex>,
        revision: Revision,
        fuel: nat,
    )
        requires
            self.wf(),
            self.respected_by(semantics),
            self.sound(semantics, history),
            self.settled(keys, revision, fuel) is Some,
        ensures
            self.settled(keys, revision, fuel)->Some_0.sound(
                semantics,
                self.settled_history(history, keys, revision, fuel),
            ),
            self.settled_history(history, keys, revision, fuel).sources == history.sources,
        decreases fuel, 1nat, keys.len(),
    {
        if keys.len() > 0 {
            self.lemma_settled_one_is_sound(semantics, history, keys.first(), revision, fuel);
            self.lemma_settled_one_evolves(keys.first(), revision, fuel);
            let next = self.settled_one(keys.first(), revision, fuel)->Some_0;
            self.lemma_respected_elsewhere(semantics, next);
            next.lemma_settled_is_sound(
                semantics,
                self.settled_one_history(history, keys.first(), fuel),
                keys.drop_first(),
                revision,
                fuel,
            );
        }
    }

    /// Confirming entries tells nothing new about the sources.
    pub proof fn lemma_confirmed_history_inputs(
        self,
        history: History<V>,
        key: DatabaseKeyIndex,
        fuel: nat,
    )
        ensures
            self.confirmed_history(history, key, fuel).sources == history.sources,
        decreases fuel, 0nat, 0nat,
    {
        if fuel > 0 {
            let memo = self.query_store[key];
            self.pushed(key).lemma_settled_history_inputs(
                history,
                memo.dependencies,
                memo.verified_at,
                (fuel - 1) as nat,
            );
        }
    }

    /// Finding queries unchanged tells nothing new about the sources.
    pub proof fn lemma_settled_history_inputs(
        self,
        history: History<V>,
        keys: Seq<DatabaseKeyIndex>,
        revision: Revision,
        fuel: nat,
    )
        ensures
            self.settled_history(history, keys, revision, fuel).sources == history.sources,
        decreases fuel, 1nat, keys.len(),
    {
        if keys.len() > 0 {
            match self.settled_one(keys.first(), revision, fuel) {
                Some(next) => {
                    if self.is_cached(keys.first()) && !self.is_fresh(keys.first()) {
                        self.lemma_confirmed_history_inputs(history, keys.first(), fuel);
                    }
                    next.lemma_settled_history_inputs(
                        self.settled_one_history(history, keys.first(), fuel),
                        keys.drop_first(),
                        revision,
                        fuel,
                    );
                },
                None => {},
            }
        }
    }
}

impl<V> StorageView<V> {
    /// Whether `later` is sound wherever this storage is: for whatever was confirmed
    /// so far such that this storage is sound, `later` is sound for what was confirmed
    /// by then, the sources being what they are.
    pub open spec fn keeps_sound(
        self,
        later: StorageView<V>,
        semantics: Semantics<V>,
        sources: Map<int, Map<DatabaseKeyIndex, V>>,
    ) -> bool {
        forall|seen: Map<DatabaseKeyIndex, Set<int>>| #[trigger]
            self.sound(semantics, History { sources, seen }) ==> exists|
                then: Map<DatabaseKeyIndex, Set<int>>,
            | #[trigger] later.sound(semantics, History { sources, seen: then })
    }

    /// Whether the function of `key`, which is on top of the stack and has returned
    /// `result`, has left the storage well formed and sound and did what the semantics
    /// says: as [`StorageView::did_as_told`] tells if the results of `key` are cached,
    /// and else in that the value that is kept is what `key` is worth.
    pub open spec fn as_told(
        self,
        semantics: Semantics<V>,
        history: History<V>,
        key: DatabaseKeyIndex,
        result: Result<V, QueryError>,
    ) -> bool {
        if self.is_cached(key) {
            self.did_as_told(semantics, history, key, result)
        } else {
            &&& self.wf()
            &&& self.sound(semantics, history)
            &&& match self.outcome(key, result) {
                Some((value, _)) => self.worth(
                    semantics,
                    history.sources[self.revision().index()],
                    key,
                ) == Some(value),
                None => true,
            }
        }
    }

    /// Whether `value` is what `key` is worth for the sources as they are, if this
    /// storage is sound at all.
    pub open spec fn finds_right(
        self,
        semantics: Semantics<V>,
        sources: Map<int, Map<DatabaseKeyIndex, V>>,
        key: DatabaseKeyIndex,
        value: V,
    ) -> bool {
        (exists|seen: Map<DatabaseKeyIndex, Set<int>>| #[trigger]
            self.sound(semantics, History { sources, seen })) ==> self.worth(
            semantics,
            sources[self.revision().index()],
            key,
        ) == Some(value)
    }

    /// What is kept of a function that did as it was told is what its query is worth.
    pub proof fn lemma_told_is_right(
        self,
        returned: StorageView<V>,
        semantics: Semantics<V>,
        sources: Map<int, Map<DatabaseKeyIndex, V>>,
        key: DatabaseKeyIndex,
        result: Result<V, QueryError>,
        value: V,
        untracked: bool,
    )
        requires
            self.told(returned, semantics, sources, key, result),
            returned.global_storage == self.global_storage,
            returned.revision() == self.revision(),
            returned.outcome(key, result) == Some((value, untracked)),
        ensures
            self.finds_right(semantics, sources, key, value),
    {
        if exists|seen: Map<DatabaseKeyIndex, Set<int>>| #[trigger]
            self.sound(semantics, History { sources, seen }) {
            let seen = choose|seen: Map<DatabaseKeyIndex, Set<int>>| #[trigger]
                self.sound(semantics, History { sources, seen });
            let then = choose|then: Map<DatabaseKeyIndex, Set<int>>| #[trigger]
                returned.as_told(semantics, History { sources, seen: then }, key, result);
            assert(returned.as_told(semantics, History { sources, seen: then }, key, result));
            assert(returned.worth(semantics, sources[self.revision().index()], key) == Some(
                value,
            ));
        }
    }

    /// What a fetch returns in a storage that stays sound is what the query is worth.
    pub proof fn lemma_fetched_is_right(
        self,
        later: StorageView<V>,
        semantics: Semantics<V>,
        sources: Map<int, Map<DatabaseKeyIndex, V>>,
        key: DatabaseKeyIndex,
        value: V,
    )
        requires
            self.keeps_sound(later, semantics, sources),
            later.global_storage == self.global_storage,
            later.revision() == self.revision(),
            later.wf(),
            self.flavor(key) is Input || self.is_cached(key),
            later.is_fresh(key),
            later.query_store[key].value == value,
        ensures
            self.finds_right(semantics, sources, key, value),
    {
        if exists|seen: Map<DatabaseKeyIndex, Set<int>>| #[trigger]
            self.sound(semantics, History { sources, seen }) {
            let seen = choose|seen: Map<DatabaseKeyIndex, Set<int>>| #[trigger]
                self.sound(semantics, History { sources, seen });
            let then = choose|then: Map<DatabaseKeyIndex, Set<int>>| #[trigger]
                later.sound(semantics, History { sources, seen: then });
            let history = History { sources, seen: then };
            if self.flavor(key) is Input {
                assert(later.sound_input(history, key));
                assert(later.query_store[key].wf(later.revision()));
            } else {
                later.lemma_fresh_is_right(semantics, history, key);
            }
        }
    }

    /// Whether the function of `key` did as it was told when it took this storage to
    /// `returned`: wherever this storage is sound, `returned` is as
    /// [`StorageView::as_told`] says for what was confirmed by then.
    pub open spec fn told(
        self,
        returned: StorageView<V>,
        semantics: Semantics<V>,
        sources: Map<int, Map<DatabaseKeyIndex, V>>,
        key: DatabaseKeyIndex,
        result: Result<V, QueryError>,
    ) -> bool {
        forall|seen: Map<DatabaseKeyIndex, Set<int>>| #[trigger]
            self.sound(semantics, History { sources, seen }) ==> exists|
                then: Map<DatabaseKeyIndex, Set<int>>,
            | #[trigger]
                returned.as_told(semantics, History { sources, seen: then }, key, result)
    }

    /// Soundness is kept from step to step.
    pub proof fn lemma_keeps_sound_transitive(
        self,
        second: StorageView<V>,
        third: StorageView<V>,
        semantics: Semantics<V>,
        sources: Map<int, Map<DatabaseKeyIndex, V>>,
    )
        requires
            self.keeps_sound(second, semantics, sources),
            second.keeps_sound(third, semantics, sources),
        ensures
            self.keeps_sound(third, semantics, sources),
    {
        assert forall|seen: Map<DatabaseKeyIndex, Set<int>>| #[trigger]
            self.sound(semantics, History { sources, seen }) implies exists|
            then: Map<DatabaseKeyIndex, Set<int>>,
        | #[trigger] third.sound(semantics, History { sources, seen: then }) by {
            let between = choose|then: Map<DatabaseKeyIndex, Set<int>>| #[trigger]
                second.sound(semantics, History { sources, seen: then });
            assert(second.sound(semantics, History { sources, seen: between }));
        }
    }

    /// What does not touch the entries, the declarations or the revision keeps the
    /// storage sound.
    pub proof fn lemma_keeps_sound_beside(
        self,
        later: StorageView<V>,
        semantics: Semantics<V>,
        sources: Map<int, Map<DatabaseKeyIndex, V>>,
    )
        requires
            later.global_storage == self.global_storage,
            later.query_store == self.query_store,
            later.revision() == self.revision(),
        ensures
            self.keeps_sound(later, semantics, sources),
    {
        assert forall|seen: Map<DatabaseKeyIndex, Set<int>>| #[trigger]
            self.sound(semantics, History { sources, seen }) implies exists|
            then: Map<DatabaseKeyIndex, Set<int>>,
        | #[trigger] later.sound(semantics, History { sources, seen: then }) by {
            self.lemma_frames_are_immaterial(semantics, History { sources, seen }, later);
        }
    }

    /// Reading an input keeps the storage sound.
    pub proof fn lemma_keeps_sound_at_input(
        self,
        semantics: Semantics<V>,
        sources: Map<int, Map<DatabaseKeyIndex, V>>,
        key: DatabaseKeyIndex,
    )
        requires
            self.flavor(key) is Input,
            self.query_store.contains_key(key),
        ensures
            self.keeps_sound(
                self.with_memo(key, self.query_store[key].verified(self.revision())),
                semantics,
                sources,
            ),
    {
        let later = self.with_memo(key, self.query_store[key].verified(self.revision()));
        assert forall|seen: Map<DatabaseKeyIndex, Set<int>>| #[trigger]
            self.sound(semantics, History { sources, seen }) implies exists|
            then: Map<DatabaseKeyIndex, Set<int>>,
        | #[trigger] later.sound(semantics, History { sources, seen: then }) by {
            self.lemma_read_input_is_sound(semantics, History { sources, seen }, key);
        }
    }

    /// Confirming an entry that can be confirmed keeps the storage sound.
    pub proof fn lemma_keeps_sound_confirming(
        self,
        semantics: Semantics<V>,
        sources: Map<int, Map<DatabaseKeyIndex, V>>,
        key: DatabaseKeyIndex,
    )
        requires
            self.wf(),
            self.respected_by(semantics),
            self.is_cached(key),
            self.can_confirm(key),
        ensures
            self.keeps_sound(
                self.with_memo(key, self.query_store[key].verified(self.revision())),
                semantics,
                sources,
            ),
    {
        let later = self.with_memo(key, self.query_store[key].verified(self.revision()));
        assert forall|seen: Map<DatabaseKeyIndex, Set<int>>| #[trigger]
            self.sound(semantics, History { sources, seen }) implies exists|
            then: Map<DatabaseKeyIndex, Set<int>>,
        | #[trigger] later.sound(semantics, History { sources, seen: then }) by {
            let history = History { sources, seen };
            self.lemma_confirm_is_sound(semantics, history, key);
            let after = history.with_seen(key, self.revision().index());
            assert(after == History { sources, seen: after.seen });
            assert(later.sound(semantics, History { sources, seen: after.seen }));
        }
    }

    /// Ending the execution of a function that did as it was told keeps the storage
    /// sound.
    pub proof fn lemma_keeps_sound_finishing(
        self,
        returned: StorageView<V>,
        semantics: Semantics<V>,
        sources: Map<int, Map<DatabaseKeyIndex, V>>,
        key: DatabaseKeyIndex,
        result: Result<V, QueryError>,
    )
        requires
            self.told(returned, semantics, sources, key, result),
            !(returned.flavor(key) is Input),
            returned.runtime.stack.len() > 0,
            returned.runtime.stack.last().database_key == key,
        ensures
            self.keeps_sound(returned.finished(key, result), semantics, sources),
    {
        let later = returned.finished(key, result);
        assert forall|seen: Map<DatabaseKeyIndex, Set<int>>| #[trigger]
            self.sound(semantics, History { sources, seen }) implies exists|
            then: Map<DatabaseKeyIndex, Set<int>>,
        | #[trigger] later.sound(semantics, History { sources, seen: then }) by {
            let at = choose|then: Map<DatabaseKeyIndex, Set<int>>| #[trigger]
                returned.as_told(semantics, History { sources, seen: then }, key, result);
            let history = History { sources, seen: at };
            assert(returned.as_told(semantics, history, key, result));
            if returned.is_cached(key) {
                match returned.outcome(key, result) {
                    Some((value, untracked)) => {
                        returned.lemma_execute_is_sound(
                            semantics,
                            history,
                            key,
                            result,
                            value,
                            untracked,
                        );
                        let after = history.with_seen(key, returned.revision().index());
                        assert(after == History { sources, seen: after.seen });
                        assert(later.sound(semantics, History { sources, seen: after.seen }));
                    },
                    None => {
                        returned.lemma_frames_are_immaterial(semantics, history, later);
                    },
                }
            } else {
                returned.lemma_frames_are_immaterial(semantics, history, later);
            }
        }
    }
}

} // verus!
