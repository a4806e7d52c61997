//! The frames of the stack of active queries. A frame records which query is
//! executing, which queries it has read so far, whether it has read anything that the
//! engine cannot track, and what it has accumulated.

use vstd::prelude::*;
use crate::dependencies::{add_all_unique, add_unique, extend_unique, push_unique};
use crate::key::DatabaseKeyIndex;
use crate::value::QueryValue;

verus! {

/// A query that is being executed.
#[derive(Clone, Debug, PartialEq, Eq)]
pub struct ActiveQuery<V> {
    /// The query.
    pub database_key: DatabaseKeyIndex,
    /// The queries read so far, each once, in the order of the first read.
    pub dependencies: Vec<DatabaseKeyIndex>,
    /// Whether something was read that the engine does not track.
    pub untracked: bool,
    /// The values accumulated so far, in the order in which they were accumulated.
    pub accumulated: Vec<V>,
}

/// What a frame holds, as mathematics.
pub struct ActiveQueryView<V> {
    pub database_key: DatabaseKeyIndex,
    pub dependencies: Seq<DatabaseKeyIndex>,
    pub untracked: bool,
    pub accumulated: Seq<V>,
}

impl<V> View for ActiveQuery<V> {
    type V = ActiveQueryView<V>;

    open spec fn view(&self) -> ActiveQueryView<V> {
        ActiveQueryView {
            database_key: self.database_key,
            dependencies: self.dependencies@,
            untracked: self.untracked,
            accumulated: self.accumulated@,
        }
    }
}

impl<V> ActiveQueryView<V> {
    /// The frame of a query that has just started.
    pub open spec fn start(key: DatabaseKeyIndex) -> ActiveQueryView<V> {
        ActiveQueryView {
            database_key: key,
            dependencies: Seq::empty(),
            untracked: false,
            accumulated: Seq::empty(),
        }
    }

    /// No query is listed twice among the dependencies.
    pub open spec fn wf(self) -> bool {
        self.dependencies.no_duplicates()
    }

    /// The frame after its query has read `key`.
    pub open spec fn with_read(self, key: DatabaseKeyIndex) -> ActiveQueryView<V> {
        ActiveQueryView { dependencies: push_unique(self.dependencies, key), ..self }
    }

    /// The frame after its query has read something untracked.
    pub open spec fn with_untracked_read(self) -> ActiveQueryView<V> {
        ActiveQueryView { untracked: true, ..self }
    }

    /// The frame after its query has accumulated `value`.
    pub open spec fn with_accumulated(self, value: V) -> ActiveQueryView<V> {
        ActiveQueryView { accumulated: self.accumulated.push(value), ..self }
    }

    /// The frame after all that `child` has read and accumulated was charged to it.
    pub open spec fn absorb(self, child: ActiveQueryView<V>) -> ActiveQueryView<V> {
        ActiveQueryView {
            dependencies: extend_unique(self.dependencies, child.dependencies),
            untracked: self.untracked || child.untracked,
            accumulated: self.accumulated + child.accumulated,
            ..self
        }
    }

    /// `later` is this frame after its query has gone on: the same query, what was
    /// read and accumulated before still comes first, and an untracked read is not
    /// forgotten.
    pub open spec fn grows_to(self, later: ActiveQueryView<V>) -> bool {
        &&& later.database_key == self.database_key
        &&& self.dependencies.is_prefix_of(later.dependencies)
        &&& self.untracked ==> later.untracked
        &&& self.accumulated.is_prefix_of(later.accumulated)
    }
}

impl<V: QueryValue> ActiveQuery<V> {
    /// A frame for a query that starts now.
    pub fn new(key: DatabaseKeyIndex) -> (frame: ActiveQuery<V>)
        ensures
            frame@ == ActiveQueryView::<V>::start(key),
    {
        ActiveQuery {
            database_key: key,
            dependencies: Vec::new(),
            untracked: false,
            accumulated: Vec::new(),
        }
    }

    /// Records that the query has accumulated `value`.
    pub fn add_accumulated(&mut self, value: V)
        ensures
            final(self)@ == old(self)@.with_accumulated(value),
    {
        self.accumulated.push(value);
    }

    /// Records that the query has read `key`.
    pub fn add_read(&mut self, key: DatabaseKeyIndex)
        ensures
            final(self)@ == old(self)@.with_read(key),
    {
        add_unique(&mut self.dependencies, key);
    }

    /// Records that the query has read something untracked.
    pub fn add_untracked_read(&mut self)
        ensures
            final(self)@ == old(self)@.with_untracked_read(),
    {
        self.untracked = true;
    }

    /// Charges all that `child` has read and accumulated to this frame.
    pub fn absorb(&mut self, child: &ActiveQuery<V>)
        ensures
            final(self)@ == old(self)@.absorb(child@),
    {
        add_all_unique(&mut self.dependencies, &child.dependencies);
        if child.untracked {
            self.untracked = true;
        }
        append_values(&mut self.accumulated, &child.accumulated);
    }
}

/// Adds duplicates of the values of `more` at the end of `values`, in order.
pub fn append_values<V: QueryValue>(values: &mut Vec<V>, more: &Vec<V>)
    ensures
        final(values)@ == old(values)@ + more@,
{
    let mut i: usize = 0;
    while i < more.len()
        invariant
            i <= more@.len(),
            values@ == old(values)@ + more@.take(i as int),
        decreases more@.len() - i,
    {
        values.push(more[i].duplicate());
        assert(more@.take(i + 1) == more@.take(i as int).push(more@[i as int]));
        i += 1;
    }
    assert(more@.take(i as int) == more@);
}

/// The stack after the query on top has accumulated `value`; an empty stack stays
/// empty.
pub open spec fn record_accumulated<V>(stack: Seq<ActiveQueryView<V>>, value: V) -> Seq<
    ActiveQueryView<V>,
> {
    if stack.len() == 0 {
        stack
    } else {
        stack.update(stack.len() - 1, stack.last().with_accumulated(value))
    }
}

/// The queries of a stack of frames, bottom first.
pub open spec fn stack_keys<V>(stack: Seq<ActiveQueryView<V>>) -> Seq<DatabaseKeyIndex> {
    stack.map_values(|frame: ActiveQueryView<V>| frame.database_key)
}

/// A stack is well formed when no query is on it twice and every frame is well formed.
pub open spec fn stack_wf<V>(stack: Seq<ActiveQueryView<V>>) -> bool {
    &&& stack_keys(stack).no_duplicates()
    &&& forall|i: int| 0 <= i < stack.len() ==> (#[trigger] stack[i]).wf()
}

/// The cycle that calling `key` would close: the queries from `key` up to the top of
/// the stack, in stack order.
pub open spec fn cycle_from<V>(stack: Seq<ActiveQueryView<V>>, key: DatabaseKeyIndex) -> Seq<
    DatabaseKeyIndex,
> {
    let keys = stack_keys(stack);
    keys.subrange(keys.index_of(key), keys.len() as int)
}

/// The cycle that a call of a query on the stack closes is the simple cycle on the
/// stack: it starts with the query that is called again, it ends with the query on top
/// of the stack, which makes the call, it holds every query between the two in stack
/// order and no other, and it holds no query twice.
pub proof fn law_cycle_is_simple<V>(stack: Seq<ActiveQueryView<V>>, key: DatabaseKeyIndex)
    requires
        stack_wf(stack),
        stack_keys(stack).contains(key),
    ensures
        cycle_from(stack, key).len() > 0,
        cycle_from(stack, key).first() == key,
        cycle_from(stack, key).last() == stack.last().database_key,
        cycle_from(stack, key).no_duplicates(),
        cycle_from(stack, key).is_suffix_of(stack_keys(stack)),
        forall|i: int|
            0 <= i < stack.len() ==> (cycle_from(stack, key).contains(
                #[trigger] stack_keys(stack)[i],
            ) <==> stack_keys(stack).index_of(key) <= i),
{
    let keys = stack_keys(stack);
    let from = keys.index_of(key);
    let cycle = cycle_from(stack, key);
    assert(0 <= from < keys.len() && keys[from] == key);
    assert(cycle.first() == keys[from]);
    assert(cycle.last() == keys[keys.len() - 1]);
    assert forall|i: int, j: int|
        0 <= i < cycle.len() && 0 <= j < cycle.len() && i != j implies cycle[i] != cycle[j] by {
        assert(keys[from + i] != keys[from + j]);
    }
    assert(cycle =~= keys.subrange(keys.len() - cycle.len(), keys.len() as int));
    assert forall|i: int| 0 <= i < stack.len() implies (cycle.contains(#[trigger] keys[i]) <==> from
        <= i) by {
        if from <= i {
            assert(cycle[i - from] == keys[i]);
        }
        if cycle.contains(keys[i]) {
            let j = choose|j: int| 0 <= j < cycle.len() && cycle[j] == keys[i];
            assert(keys[from + j] == keys[i]);
            if from + j != i {
                assert(keys[from + j] != keys[i]);
            }
        }
    }
}

/// The stack after the query on top has read `key`; an empty stack stays empty.
pub open spec fn record_read<V>(stack: Seq<ActiveQueryView<V>>, key: DatabaseKeyIndex) -> Seq<
    ActiveQueryView<V>,
> {
    if stack.len() == 0 {
        stack
    } else {
        stack.update(stack.len() - 1, stack.last().with_read(key))
    }
}

/// The stack after the query on top has read something untracked.
pub open spec fn record_untracked_read<V>(stack: Seq<ActiveQueryView<V>>) -> Seq<
    ActiveQueryView<V>,
> {
    if stack.len() == 0 {
        stack
    } else {
        stack.update(stack.len() - 1, stack.last().with_untracked_read())
    }
}

/// The stack after all that `child` has read was charged to the query on top.
pub open spec fn record_child<V>(stack: Seq<ActiveQueryView<V>>, child: ActiveQueryView<V>) -> Seq<
    ActiveQueryView<V>,
> {
    if stack.len() == 0 {
        stack
    } else {
        stack.update(stack.len() - 1, stack.last().absorb(child))
    }
}

/// `later` is `stack` after the query on top has gone on: the frames below the top
/// are the same and the top frame has only grown.
pub open spec fn stack_grows_to<V>(
    stack: Seq<ActiveQueryView<V>>,
    later: Seq<ActiveQueryView<V>>,
) -> bool {
    &&& later.len() == stack.len()
    &&& forall|i: int| 0 <= i < stack.len() - 1 ==> later[i] == stack[i]
    &&& stack.len() > 0 ==> stack.last().grows_to(later.last())
}

} // verus!
