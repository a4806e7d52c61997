//! The entry that the storage keeps for a query: its value, the revisions at which the
//! value last changed and was last confirmed, and the record of what it was computed
//! from.

use vstd::prelude::*;
use crate::key::DatabaseKeyIndex;
use crate::revision::Revision;
use crate::value::QueryValue;

verus! {

/// The cached result of a query.
#[derive(Clone, Debug, PartialEq, Eq)]
pub struct Memo<V> {
    /// What the query returned when it last ran.
    pub value: V,
    /// The revision at which `value` last changed.
    pub changed_at: Revision,
    /// The revision at which `value` was last confirmed.
    pub verified_at: Revision,
    /// The queries that were read to compute `value`, each once, in the order of the
    /// first read. Empty for an input.
    pub dependencies: Vec<DatabaseKeyIndex>,
    /// Whether something untracked was read to compute `value`.
    pub untracked: bool,
    /// What the query accumulated while it computed `value`, in order.
    pub accumulated: Vec<V>,
}

/// An entry as mathematics.
pub struct MemoView<V> {
    pub value: V,
    pub changed_at: Revision,
    pub verified_at: Revision,
    pub dependencies: Seq<DatabaseKeyIndex>,
    pub untracked: bool,
    pub accumulated: Seq<V>,
}

impl<V> View for Memo<V> {
    type V = MemoView<V>;

    open spec fn view(&self) -> MemoView<V> {
        MemoView {
            value: self.value,
            changed_at: self.changed_at,
            verified_at: self.verified_at,
            dependencies: self.dependencies@,
            untracked: self.untracked,
            accumulated: self.accumulated@,
        }
    }
}

impl<V> MemoView<V> {
    /// An entry is well formed in a database that stands at `current` when its value
    /// changed no later than it was confirmed, it was confirmed no later than
    /// `current`, and no query is listed twice among its dependencies.
    pub open spec fn wf(self, current: Revision) -> bool {
        &&& 1 <= self.changed_at.generation
        &&& self.changed_at.generation <= self.verified_at.generation
        &&& self.verified_at.generation <= current.generation
        &&& self.dependencies.no_duplicates()
    }

    /// Whether the entry was confirmed at `current`: then its value is the value of the
    /// query.
    pub open spec fn is_fresh(self, current: Revision) -> bool {
        self.verified_at == current
    }

    /// Whether the value changed after `revision`.
    pub open spec fn changed_after(self, revision: Revision) -> bool {
        self.changed_at.generation > revision.generation
    }

    /// Whether the entry can be confirmed by looking at its dependencies alone: it
    /// read nothing untracked, and it read something.
    pub open spec fn can_validate(self) -> bool {
        !self.untracked && self.dependencies.len() > 0
    }

    /// The entry after it was confirmed at `current` without running the query.
    pub open spec fn verified(self, current: Revision) -> MemoView<V> {
        MemoView { verified_at: current, ..self }
    }

    /// The entry after the query ran at `current` and returned `value`.
    ///
    /// Where the query returned what it had returned before, the revision at which
    /// the value changed stays as it was, so that what reads this query need not run
    /// again. The record of what was read and accumulated is always the new one.
    pub open spec fn executed(
        previous: Option<MemoView<V>>,
        value: V,
        dependencies: Seq<DatabaseKeyIndex>,
        untracked: bool,
        accumulated: Seq<V>,
        current: Revision,
    ) -> MemoView<V> {
        MemoView {
            value,
            changed_at: match previous {
                Some(before) => if before.value == value {
                    before.changed_at
                } else {
                    current
                },
                None => current,
            },
            verified_at: current,
            dependencies,
            untracked,
            accumulated,
        }
    }

    /// The entry of an input after it was set to `value` at `current`: the value counts
    /// as changed at `current`, whatever it was before.
    pub open spec fn set(value: V, current: Revision) -> MemoView<V> {
        Self::executed(None, value, Seq::empty(), false, Seq::empty(), current)
    }

    /// `later` is what this entry may have become while the database stood at
    /// `current`: nothing happened to it, or it was stale and is now fresh, and then
    /// either its value is the same and changed when it had changed before, or its
    /// value changed at `current`.
    pub open spec fn advances_to(self, later: MemoView<V>, current: Revision) -> bool {
        ||| later == self
        ||| {
            &&& !self.is_fresh(current)
            &&& later.is_fresh(current)
            &&& {
                ||| later.changed_at == current
                ||| later.changed_at == self.changed_at && later.value == self.value
            }
        }
    }
}

impl<V: QueryValue> Memo<V> {
    /// Whether the entry was confirmed at `current`.
    pub fn is_fresh(&self, current: Revision) -> (fresh: bool)
        ensures
            fresh == self@.is_fresh(current),
    {
        self.verified_at == current
    }

    /// Whether the value changed after `revision`.
    pub fn changed_after(&self, revision: Revision) -> (changed: bool)
        ensures
            changed == self@.changed_after(revision),
    {
        self.changed_at.is_after(revision)
    }

    /// Whether the entry can be confirmed by looking at its dependencies alone.
    pub fn can_validate(&self) -> (possible: bool)
        ensures
            possible == self@.can_validate(),
    {
        !self.untracked && self.dependencies.len() > 0
    }

    /// The entry for a query that ran at `current` and returned `value`, in place of
    /// the entry `previous`, if there was one.
    pub fn executed(
        previous: Option<&Memo<V>>,
        value: V,
        dependencies: Vec<DatabaseKeyIndex>,
        untracked: bool,
        accumulated: Vec<V>,
        current: Revision,
    ) -> (memo: Memo<V>)
        ensures
            memo@ == MemoView::executed(
                view_of(previous),
                value,
                dependencies@,
                untracked,
                accumulated@,
                current,
            ),
    {
        let changed_at = match previous {
            Some(before) => if before.value.same(&value) {
                before.changed_at
            } else {
                current
            },
            None => current,
        };
        Memo { value, changed_at, verified_at: current, dependencies, untracked, accumulated }
    }
}

/// What an entry that may be missing holds.
pub open spec fn view_of<V>(memo: Option<&Memo<V>>) -> Option<MemoView<V>> {
    match memo {
        Some(memo) => Some(memo@),
        None => None,
    }
}

} // verus!
