//! The runtime: the revision counter, the holds that coordinate readers with a writer,
//! and the stack of active queries of the handle that is at work. A snapshot is a
//! handle of its own: it brings its own stack when it is put to work.

use vstd::prelude::*;
use crate::active_query::{
    cycle_from, record_accumulated, record_child, record_read, record_untracked_read, stack_keys,
    stack_wf, ActiveQuery, ActiveQueryView,
};
use crate::key::DatabaseKeyIndex;
use crate::revision::Revision;
use crate::value::QueryValue;
use crate::CycleDetected;

verus! {

/// The state of a database apart from what is declared and cached. All handles on the
/// database share it; the stack and the right to write are those of the handle that is
/// at work.
pub struct Runtime<V> {
    /// The revision at which the database stands.
    revision: Revision,
    /// The queries that are executing, the outermost first.
    stack: Vec<ActiveQuery<V>>,
    /// How many snapshots are alive.
    readers: usize,
    /// Whether a writer waits for the readers to go away.
    pending_write: bool,
    /// Whether the handle at work is a snapshot, which never writes.
    read_only: bool,
    /// The queries whose functions were run, in the order in which they were started.
    executed: Ghost<Seq<DatabaseKeyIndex>>,
}

/// The runtime as mathematics.
pub struct RuntimeView<V> {
    pub revision: Revision,
    pub stack: Seq<ActiveQueryView<V>>,
    pub readers: nat,
    pub pending_write: bool,
    pub read_only: bool,
    /// The queries whose functions were run, in the order in which they were started.
    pub executed: Seq<DatabaseKeyIndex>,
}

/// A snapshot: a handle on a database that reads and never writes. While it is alive
/// no input is set. It keeps its own stack of active queries.
pub struct Snapshot<V> {
    stack: Vec<ActiveQuery<V>>,
    read_only: bool,
}

/// What a handle brings to the runtime, as mathematics.
pub struct HandleView<V> {
    pub stack: Seq<ActiveQueryView<V>>,
    pub read_only: bool,
}

impl<V> View for Snapshot<V> {
    type V = HandleView<V>;

    closed spec fn view(&self) -> HandleView<V> {
        HandleView {
            stack: self.stack@.map_values(|frame: ActiveQuery<V>| frame@),
            read_only: self.read_only,
        }
    }
}

impl<V> Snapshot<V> {
    /// Whether a query of this snapshot is executing.
    pub fn query_in_progress(&self) -> (active: bool)
        ensures
            active == (self@.stack.len() > 0),
    {
        self.stack.len() > 0
    }
}

impl<V> RuntimeView<V> {
    /// The runtime of a new database.
    pub open spec fn start() -> RuntimeView<V> {
        RuntimeView {
            revision: Revision { generation: 1 },
            stack: Seq::empty(),
            readers: 0,
            pending_write: false,
            read_only: false,
            executed: Seq::empty(),
        }
    }

    /// The revision is not zero, and the stack is well formed.
    pub open spec fn wf(self) -> bool {
        &&& self.revision.wf()
        &&& stack_wf(self.stack)
    }

    /// Whether a query is executing.
    pub open spec fn query_in_progress(self) -> bool {
        self.stack.len() > 0
    }

    /// Whether `key` is executing.
    pub open spec fn is_active(self, key: DatabaseKeyIndex) -> bool {
        stack_keys(self.stack).contains(key)
    }

    /// Whether this handle may advance the revision now: it is no snapshot, no query
    /// is executing, and a further revision fits in a `u64`.
    pub open spec fn may_write(self) -> bool {
        &&& !self.read_only
        &&& self.stack.len() == 0
        &&& self.revision.generation < u64::MAX
    }

    /// The runtime after a request to write. While snapshots are alive the request
    /// waits and is remembered; otherwise the revision advances.
    pub open spec fn after_write_request(self) -> RuntimeView<V> {
        if self.readers > 0 {
            RuntimeView { pending_write: true, ..self }
        } else {
            RuntimeView {
                revision: Revision { generation: (self.revision.generation + 1) as u64 },
                pending_write: false,
                ..self
            }
        }
    }

    /// The runtime after a snapshot was taken: one more reader.
    pub open spec fn after_snapshot(self) -> RuntimeView<V> {
        RuntimeView { readers: self.readers + 1, ..self }
    }

    /// The runtime after a snapshot was released: one reader less.
    pub open spec fn after_release(self) -> RuntimeView<V> {
        RuntimeView { readers: (self.readers - 1) as nat, ..self }
    }

    /// What a new snapshot brings: an empty stack, and no right to write.
    pub open spec fn snapshot() -> HandleView<V> {
        HandleView { stack: Seq::empty(), read_only: true }
    }

    /// What the handle at work has brought.
    pub open spec fn handle(self) -> HandleView<V> {
        HandleView { stack: self.stack, read_only: self.read_only }
    }

    /// The runtime with another handle at work.
    pub open spec fn with_handle(self, handle: HandleView<V>) -> RuntimeView<V> {
        RuntimeView { stack: handle.stack, read_only: handle.read_only, ..self }
    }

    /// The runtime after the function of `key` was started.
    pub open spec fn began(self, key: DatabaseKeyIndex) -> RuntimeView<V> {
        RuntimeView { executed: self.executed.push(key), ..self }
    }

    /// `later` is this runtime but for its stack and for the functions that were run
    /// since.
    pub open spec fn goes_on_to(self, later: RuntimeView<V>) -> bool {
        &&& later == (RuntimeView { stack: later.stack, executed: later.executed, ..self })
        &&& self.executed.is_prefix_of(later.executed)
    }
}

impl<V> View for Runtime<V> {
    type V = RuntimeView<V>;

    closed spec fn view(&self) -> RuntimeView<V> {
        RuntimeView {
            revision: self.revision,
            stack: self.stack@.map_values(|frame: ActiveQuery<V>| frame@),
            readers: self.readers as nat,
            pending_write: self.pending_write,
            read_only: self.read_only,
            executed: self.executed@,
        }
    }
}

impl<V: QueryValue> Runtime<V> {
    /// The runtime of a new database: the first revision, no active query, no snapshot.
    pub fn new() -> (runtime: Runtime<V>)
        ensures
            runtime@ == RuntimeView::<V>::start(),
            runtime@.wf(),
    {
        let runtime = Runtime {
            revision: Revision::start(),
            stack: Vec::new(),
            readers: 0,
            pending_write: false,
            read_only: false,
            executed: Ghost(Seq::empty()),
        };
        assert(runtime@.stack =~= Seq::empty());
        assert(stack_keys(runtime@.stack) =~= Seq::empty());
        runtime
    }

    /// The revision at which the database stands.
    pub fn current_revision(&self) -> (revision: Revision)
        ensures
            revision == self@.revision,
    {
        self.revision
    }

    /// Whether a query is executing.
    pub fn query_in_progress(&self) -> (active: bool)
        ensures
            active == self@.query_in_progress(),
    {
        self.stack.len() > 0
    }

    /// How many queries are executing.
    pub fn depth(&self) -> (depth: usize)
        ensures
            depth == self@.stack.len(),
    {
        self.stack.len()
    }

    /// The query that is executing: the innermost one.
    pub fn active_query(&self) -> (key: Option<DatabaseKeyIndex>)
        ensures
            key == (if self@.stack.len() == 0 {
                None
            } else {
                Some(self@.stack.last().database_key)
            }),
    {
        let depth = self.stack.len();
        if depth == 0 {
            None
        } else {
            Some(self.stack[depth - 1].database_key)
        }
    }

    /// Whether the handle at work is a snapshot.
    pub fn is_snapshot(&self) -> (read_only: bool)
        ensures
            read_only == self@.read_only,
    {
        self.read_only
    }

    /// How many snapshots are alive.
    pub fn live_snapshots(&self) -> (readers: usize)
        ensures
            readers == self@.readers,
    {
        self.readers
    }

    /// Whether a writer waits for this revision to end. A query that runs for long
    /// should ask now and then, and return early when the answer is yes.
    pub fn is_current_revision_canceled(&self) -> (canceled: bool)
        ensures
            canceled == self@.pending_write,
    {
        self.pending_write
    }

    /// Where `key` stands on the stack, if it is executing.
    fn position_on_stack(&self, key: DatabaseKeyIndex) -> (at: Option<usize>)
        requires
            self@.wf(),
        ensures
            match at {
                Some(i) => i < self@.stack.len() && stack_keys(self@.stack)[i as int] == key
                    && stack_keys(self@.stack).index_of(key) == i,
                None => !self@.is_active(key),
            },
    {
        let ghost keys = stack_keys(self@.stack);
        let mut i: usize = 0;
        while i < self.stack.len()
            invariant
                i <= self.stack@.len(),
                keys == stack_keys(self@.stack),
                keys.no_duplicates(),
                forall|j: int| 0 <= j < i ==> keys[j] != key,
            decreases self.stack@.len() - i,
        {
            if self.stack[i].database_key == key {
                proof {
                    assert(keys[i as int] == key);
                    let j = keys.index_of(key);
                    assert(0 <= j < keys.len() && keys[j] == key);
                    if j != i {
                        assert(keys[j] != keys[i as int]);
                    }
                }
                return Some(i);
            }
            i += 1;
        }
        None
    }

    /// The queries on the stack from position `from` up to the top.
    fn keys_from(&self, from: usize) -> (keys: Vec<DatabaseKeyIndex>)
        requires
            from <= self@.stack.len(),
        ensures
            keys@ == stack_keys(self@.stack).subrange(from as int, self@.stack.len() as int),
    {
        let ghost all = stack_keys(self@.stack);
        let mut keys: Vec<DatabaseKeyIndex> = Vec::new();
        let mut i: usize = from;
        while i < self.stack.len()
            invariant
                from <= i <= self.stack@.len(),
                all == stack_keys(self@.stack),
                keys@ == all.subrange(from as int, i as int),
            decreases self.stack@.len() - i,
        {
            keys.push(self.stack[i].database_key);
            assert(all.subrange(from as int, i + 1) == all.subrange(from as int, i as int).push(
                all[i as int],
            ));
            i += 1;
        }
        keys
    }

    /// Starts the execution of `key`. If `key` is executing already, nothing changes
    /// and the cycle is reported: the queries from `key` up to the top of the stack.
    pub fn push_query(&mut self, key: DatabaseKeyIndex) -> (started: Result<(), CycleDetected>)
        requires
            old(self)@.wf(),
        ensures
            final(self)@.wf(),
            match started {
                Ok(()) => {
                    &&& !old(self)@.is_active(key)
                    &&& final(self)@ == (RuntimeView {
                        stack: old(self)@.stack.push(ActiveQueryView::<V>::start(key)),
                        ..old(self)@
                    })
                },
                Err(report) => {
                    &&& old(self)@.is_active(key)
                    &&& final(self)@ == old(self)@
                    &&& report@ == cycle_from(old(self)@.stack, key)
                },
            },
    {
        match self.position_on_stack(key) {
            Some(at) => Err(CycleDetected { cycle: self.keys_from(at) }),
            None => {
                let ghost before = self@.stack;
                self.stack.push(ActiveQuery::new(key));
                proof {
                    let after = self@.stack;
                    assert(after =~= before.push(ActiveQueryView::<V>::start(key)));
                    let keys = stack_keys(after);
                    assert forall|i: int, j: int|
                        0 <= i < keys.len() && 0 <= j < keys.len() && i != j implies keys[i]
                        != keys[j] by {
                        if i < before.len() && j < before.len() {
                            assert(stack_keys(before)[i] != stack_keys(before)[j]);
                        } else if i < before.len() {
                            assert(stack_keys(before)[i] == keys[i]);
                        } else {
                            assert(stack_keys(before)[j] == keys[j]);
                        }
                    }
                }
                Ok(())
            },
        }
    }

    /// Ends the execution of the innermost query and hands out its frame.
    pub fn pop_query(&mut self) -> (frame: ActiveQuery<V>)
        requires
            old(self)@.wf(),
            old(self)@.stack.len() > 0,
        ensures
            final(self)@.wf(),
            final(self)@ == (RuntimeView { stack: old(self)@.stack.drop_last(), ..old(self)@ }),
            frame@ == old(self)@.stack.last(),
            frame@.wf(),
    {
        let ghost before = self@.stack;
        let frame = self.stack.pop().unwrap();
        proof {
            let after = self@.stack;
            assert(after =~= before.drop_last());
            assert(frame@ == before[before.len() - 1]);
            let keys = stack_keys(after);
            assert forall|i: int, j: int|
                0 <= i < keys.len() && 0 <= j < keys.len() && i != j implies keys[i] != keys[j] by {
                assert(stack_keys(before)[i] != stack_keys(before)[j]);
            }
            assert forall|i: int| 0 <= i < after.len() implies (#[trigger] after[i]).wf() by {
                assert(before[i].wf());
            }
        }
        frame
    }

    /// Records that the executing query has read `key`. Outside any query this does
    /// nothing.
    pub fn report_query_read(&mut self, key: DatabaseKeyIndex)
        requires
            old(self)@.wf(),
        ensures
            final(self)@.wf(),
            final(self)@ == (RuntimeView {
                stack: record_read(old(self)@.stack, key),
                ..old(self)@
            }),
    {
        let depth = self.stack.len();
        if depth > 0 {
            let ghost before = self@.stack;
            let mut frame = self.stack.pop().unwrap();
            assert(frame@ == before[depth - 1]);
            frame.add_read(key);
            self.stack.push(frame);
            proof {
                crate::dependencies::lemma_push_unique(before.last().dependencies, key);
                Self::lemma_top_replaced(before, self@.stack, before.last().with_read(key));
            }
        }
    }

    /// Records that the executing query has read something that the engine does not
    /// track. Outside any query this does nothing.
    pub fn report_untracked_read(&mut self)
        requires
            old(self)@.wf(),
        ensures
            final(self)@.wf(),
            final(self)@ == (RuntimeView {
                stack: record_untracked_read(old(self)@.stack),
                ..old(self)@
            }),
    {
        let depth = self.stack.len();
        if depth > 0 {
            let ghost before = self@.stack;
            let mut frame = self.stack.pop().unwrap();
            assert(frame@ == before[depth - 1]);
            frame.add_untracked_read();
            self.stack.push(frame);
            proof {
                Self::lemma_top_replaced(before, self@.stack, before.last().with_untracked_read());
            }
        }
    }

    /// Records that the executing query has accumulated `value`. Outside any query this
    /// does nothing.
    pub fn report_accumulated(&mut self, value: V)
        requires
            old(self)@.wf(),
        ensures
            final(self)@.wf(),
            final(self)@ == (RuntimeView {
                stack: record_accumulated(old(self)@.stack, value),
                ..old(self)@
            }),
    {
        let depth = self.stack.len();
        if depth > 0 {
            let ghost before = self@.stack;
            let mut frame = self.stack.pop().unwrap();
            assert(frame@ == before[depth - 1]);
            frame.add_accumulated(value);
            self.stack.push(frame);
            proof {
                Self::lemma_top_replaced(
                    before,
                    self@.stack,
                    before.last().with_accumulated(value),
                );
            }
        }
    }

    /// Charges all that `child` has read and accumulated to the executing query.
    /// Outside any query this does nothing.
    pub fn report_child(&mut self, child: &ActiveQuery<V>)
        requires
            old(self)@.wf(),
            child@.wf(),
        ensures
            final(self)@.wf(),
            final(self)@ == (RuntimeView {
                stack: record_child(old(self)@.stack, child@),
                ..old(self)@
            }),
    {
        let depth = self.stack.len();
        if depth > 0 {
            let ghost before = self@.stack;
            let mut frame = self.stack.pop().unwrap();
            assert(frame@ == before[depth - 1]);
            frame.absorb(child);
            self.stack.push(frame);
            proof {
                crate::dependencies::lemma_extend_unique(
                    before.last().dependencies,
                    child@.dependencies,
                );
                Self::lemma_top_replaced(before, self@.stack, before.last().absorb(child@));
            }
        }
    }

    /// Replacing the top frame by one for the same query with a well-formed list of
    /// dependencies keeps the stack well formed.
    proof fn lemma_top_replaced(
        before: Seq<ActiveQueryView<V>>,
        after: Seq<ActiveQueryView<V>>,
        top: ActiveQueryView<V>,
    )
        requires
            stack_wf(before),
            before.len() > 0,
            top.database_key == before.last().database_key,
            top.wf(),
            after =~= before.drop_last().push(top),
        ensures
            after == before.update(before.len() - 1, top),
            stack_wf(after),
    {
        assert(after =~= before.update(before.len() - 1, top));
        assert(stack_keys(after) =~= stack_keys(before));
        assert forall|i: int| 0 <= i < after.len() implies (#[trigger] after[i]).wf() by {
            if i < before.len() - 1 {
                assert(before[i].wf());
            }
        }
    }

    /// Asks for the next revision. While snapshots taken from this handle are alive the
    /// request has to wait: nothing changes but that it is remembered, which readers
    /// see as cancellation. Otherwise the revision advances and is returned.
    pub fn request_write(&mut self) -> (granted: Option<Revision>)
        requires
            old(self)@.wf(),
            old(self)@.may_write(),
        ensures
            final(self)@.wf(),
            final(self)@ == old(self)@.after_write_request(),
            granted == (if old(self)@.readers > 0 {
                None
            } else {
                Some(final(self)@.revision)
            }),
    {
        if self.readers > 0 {
            self.pending_write = true;
            None
        } else {
            self.revision = self.revision.next();
            self.pending_write = false;
            Some(self.revision)
        }
    }

    /// Records that the function of `key` is started. Only the engine keeps this
    /// record.
    pub(crate) fn record_execution(&mut self, key: DatabaseKeyIndex)
        ensures
            final(self)@ == old(self)@.began(key),
    {
        self.executed = Ghost(self.executed@.push(key));
    }

    /// Takes a snapshot: a handle with an empty stack that never writes. The runtime
    /// counts it as a reader until it is released.
    pub fn snapshot(&mut self) -> (snapshot: Snapshot<V>)
        requires
            old(self)@.wf(),
            !old(self)@.query_in_progress(),
            old(self)@.readers < usize::MAX,
        ensures
            final(self)@ == old(self)@.after_snapshot(),
            final(self)@.wf(),
            snapshot@ == RuntimeView::<V>::snapshot(),
    {
        self.readers = self.readers + 1;
        let snapshot = Snapshot { stack: Vec::new(), read_only: true };
        assert(snapshot@.stack =~= Seq::empty());
        snapshot
    }

    /// Puts `handle` to work and hands out the handle that was at work in its place.
    /// A second call puts everything back.
    pub fn exchange(&mut self, handle: &mut Snapshot<V>)
        ensures
            final(self)@ == old(self)@.with_handle(old(handle)@),
            final(handle)@ == old(self)@.handle(),
    {
        core::mem::swap(&mut self.stack, &mut handle.stack);
        let read_only = self.read_only;
        self.read_only = handle.read_only;
        handle.read_only = read_only;
    }

    /// Ends the life of a snapshot.
    pub fn release_snapshot(&mut self, snapshot: Snapshot<V>)
        requires
            old(self)@.readers > 0,
            snapshot@.read_only,
            snapshot@.stack.len() == 0,
        ensures
            final(self)@ == old(self)@.after_release(),
    {
        self.readers = self.readers - 1;
    }
}

} // verus!
