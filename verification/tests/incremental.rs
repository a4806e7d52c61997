//! Queries that depend on inputs, on each other and on a clock, fetched across revisions.

use salsa::ingredient::{CycleRecoveryStrategy, StorageFlavor};
use salsa::storage::WriteOutcome;
use salsa::{
    DatabaseKeyIndex, Event, Id, IngredientIndex, QueryContext, QueryContextStorageTypes,
    QueryError, Storage,
};

const DEP_MEMOIZED3: u32 = 0;
const DEP_MEMOIZED2: u32 = 1;
const DEP_MEMOIZED1: u32 = 2;
const DEP_VOLATILE1: u32 = 3;
const DEP_DERIVED1: u32 = 4;
const DEP_INPUT1: u32 = 5;
const DEP_INPUT2: u32 = 6;
const MEMOIZED2: u32 = 7;
const MEMOIZED1: u32 = 8;
const VOLATILE: u32 = 9;
const X: u32 = 10;
const HALF: u32 = 11;
const DOUBLE_HALF: u32 = 12;
const CYCLE_A: u32 = 13;
const CYCLE_B: u32 = 14;
const CYCLE_C: u32 = 15;
const CYCLE_INLINE: u32 = 16;
const CYCLE_D: u32 = 17;
const CYCLE_E: u32 = 18;

fn key(ingredient: u32) -> DatabaseKeyIndex {
    DatabaseKeyIndex::new(IngredientIndex::new(ingredient), Id::new(0))
}

/// What the functions of the queries can reach besides the storage.
#[derive(Default)]
struct TestContext {
    log: Vec<String>,
    clock: usize,
    events: Vec<Event>,
}

impl TestContext {
    fn increment(&mut self) -> usize {
        let now = self.clock;
        self.clock += 1;
        now
    }

    fn add(&mut self, line: &str) {
        self.log.push(line.to_string());
    }
}

impl QueryContextStorageTypes for TestContext {
    type Value = usize;
    type QueryDescriptor = DatabaseKeyIndex;
}

impl QueryContext for TestContext {
    fn execute(
        &mut self,
        storage: &mut Storage<Self>,
        key: DatabaseKeyIndex,
    ) -> Result<usize, QueryError> {
        match key.ingredient_index().as_u32() {
            DEP_MEMOIZED3 => {
                self.add("Memoized3 invoked");
                storage.fetch(self, self::key(DEP_VOLATILE1))
            }
            DEP_MEMOIZED2 => {
                self.add("Memoized2 invoked");
                storage.fetch(self, self::key(DEP_MEMOIZED1))
            }
            DEP_MEMOIZED1 => {
                self.add("Memoized1 invoked");
                Ok(storage.fetch(self, self::key(DEP_DERIVED1))? * 2)
            }
            DEP_VOLATILE1 => {
                self.add("Volatile1 invoked");
                Ok(storage.fetch(self, self::key(DEP_INPUT1))? / 2)
            }
            DEP_DERIVED1 => {
                self.add("Derived1 invoked");
                Ok(storage.fetch(self, self::key(DEP_INPUT1))? / 2)
            }
            MEMOIZED2 => {
                self.add("Memoized2 invoked");
                storage.fetch(self, self::key(MEMOIZED1))
            }
            MEMOIZED1 => {
                self.add("Memoized1 invoked");
                let v = storage.fetch(self, self::key(VOLATILE))?;
                Ok(v / 2)
            }
            VOLATILE => {
                self.add("Volatile invoked");
                Ok(self.increment())
            }
            HALF => {
                let x = storage.fetch(self, self::key(X))?;
                self.add("half");
                Ok(x / 2)
            }
            DOUBLE_HALF => {
                let half = storage.fetch(self, self::key(HALF))?;
                self.add("double_half");
                Ok(half * 2)
            }
            CYCLE_A => storage.fetch(self, self::key(CYCLE_B)),
            CYCLE_B => storage.fetch(self, self::key(CYCLE_A)),
            CYCLE_C => storage.fetch(self, self::key(CYCLE_C)),
            CYCLE_INLINE => storage.fetch(self, self::key(CYCLE_INLINE)),
            CYCLE_D => Ok(storage.fetch(self, self::key(CYCLE_E))? + 1),
            CYCLE_E => Ok(storage.fetch(self, self::key(CYCLE_D))? + 1),
            _ => Err(QueryError::Failed(key)),
        }
    }

    fn salsa_event(&mut self, event: Event) {
        self.events.push(event);
    }
}

/// A database: the storage of the engine beside the context of the queries.
struct TestContextImpl {
    storage: Storage<TestContext>,
    context: TestContext,
}

impl Default for TestContextImpl {
    fn default() -> Self {
        let mut storage = Storage::new();
        let declarations = [
            (StorageFlavor::Memoized, CycleRecoveryStrategy::Panic),
            (StorageFlavor::Memoized, CycleRecoveryStrategy::Panic),
            (StorageFlavor::Memoized, CycleRecoveryStrategy::Panic),
            (StorageFlavor::Volatile, CycleRecoveryStrategy::Panic),
            (StorageFlavor::Transparent, CycleRecoveryStrategy::Panic),
            (StorageFlavor::Input, CycleRecoveryStrategy::Panic),
            (StorageFlavor::Input, CycleRecoveryStrategy::Panic),
            (StorageFlavor::Memoized, CycleRecoveryStrategy::Panic),
            (StorageFlavor::Memoized, CycleRecoveryStrategy::Panic),
            (StorageFlavor::Volatile, CycleRecoveryStrategy::Panic),
            (StorageFlavor::Input, CycleRecoveryStrategy::Panic),
            (StorageFlavor::Memoized, CycleRecoveryStrategy::Panic),
            (StorageFlavor::Memoized, CycleRecoveryStrategy::Panic),
            (StorageFlavor::Memoized, CycleRecoveryStrategy::Fallback(42)),
            (StorageFlavor::Memoized, CycleRecoveryStrategy::Panic),
            (StorageFlavor::Memoized, CycleRecoveryStrategy::Panic),
            (StorageFlavor::Transparent, CycleRecoveryStrategy::Fallback(9)),
            (StorageFlavor::Memoized, CycleRecoveryStrategy::Fallback(10)),
            (StorageFlavor::Memoized, CycleRecoveryStrategy::Fallback(20)),
        ];
        for (index, (flavor, recovery)) in declarations.iter().enumerate() {
            let declared = storage.declare(*flavor, recovery.clone());
            assert_eq!(declared, Some(IngredientIndex::new(index as u32)));
        }
        TestContextImpl { storage, context: TestContext::default() }
    }
}

impl TestContextImpl {
    fn try_get(&mut self, ingredient: u32) -> Result<usize, QueryError> {
        self.storage.fetch(&mut self.context, key(ingredient))
    }

    fn get(&mut self, ingredient: u32) -> usize {
        match self.try_get(ingredient) {
            Ok(value) => value,
            Err(_) => panic!("query {} has no value", ingredient),
        }
    }

    fn set(&mut self, ingredient: u32, value: usize) -> Option<usize> {
        assert!(!self.storage.salsa_runtime().query_in_progress());
        assert!(!self.storage.salsa_runtime().is_snapshot());
        assert!(self.storage.current_revision().has_next());
        assert_eq!(
            self.storage.global_storage().flavor(IngredientIndex::new(ingredient)),
            StorageFlavor::Input
        );
        match self.storage.set(key(ingredient), value) {
            WriteOutcome::Committed(previous) => previous,
            WriteOutcome::Blocked => panic!("a snapshot is alive"),
        }
    }

    fn remove(&mut self, ingredient: u32) -> usize {
        assert!(!self.storage.salsa_runtime().query_in_progress());
        assert!(!self.storage.salsa_runtime().is_snapshot());
        assert!(self.storage.current_revision().has_next());
        match self.storage.remove(key(ingredient)) {
            WriteOutcome::Committed(Some(value)) => value,
            WriteOutcome::Committed(None) => panic!("input {} has no value", ingredient),
            WriteOutcome::Blocked => panic!("a snapshot is alive"),
        }
    }

    fn next_revision(&mut self) {
        assert!(!self.storage.salsa_runtime().query_in_progress());
        assert!(!self.storage.salsa_runtime().is_snapshot());
        assert!(self.storage.current_revision().has_next());
        assert!(self.storage.next_revision().is_some());
    }

    fn dep_memoized3(&mut self) -> usize {
        self.get(DEP_MEMOIZED3)
    }

    fn dep_memoized2(&mut self) -> usize {
        self.get(DEP_MEMOIZED2)
    }

    fn set_dep_input1(&mut self, value: usize) {
        self.set(DEP_INPUT1, value);
    }

    fn set_dep_input2(&mut self, value: usize) {
        self.set(DEP_INPUT2, value);
    }

    fn remove_dep_input1(&mut self) -> usize {
        self.remove(DEP_INPUT1)
    }

    fn memoized2(&mut self) -> usize {
        self.get(MEMOIZED2)
    }

    fn volatile(&mut self) -> usize {
        self.get(VOLATILE)
    }

    fn assert_log(&mut self, expected: &[&str]) {
        let log: Vec<String> = std::mem::take(&mut self.context.log);
        let expected: Vec<String> = expected.iter().map(|line| line.to_string()).collect();
        assert_eq!(expected, log);
    }

    fn take_events(&mut self) -> Vec<Event> {
        std::mem::take(&mut self.context.events)
    }
}

#[test]
fn memoized_dep_inputs_revalidate() {
    let db = &mut TestContextImpl::default();

    db.set_dep_input1(0);

    // Initial run starts from Memoized2:
    let v = db.dep_memoized2();
    assert_eq!(v, 0);
    db.assert_log(&["Memoized2 invoked", "Memoized1 invoked", "Derived1 invoked"]);

    // After that, we first try to validate Memoized1 but wind up
    // running Memoized2. Note that we don't try to validate
    // Derived1, so it is invoked by Memoized1.
    db.set_dep_input1(44);
    let v = db.dep_memoized2();
    assert_eq!(v, 44);
    db.assert_log(&["Memoized1 invoked", "Derived1 invoked", "Memoized2 invoked"]);

    // Here validation of Memoized1 succeeds so Memoized2 never runs.
    let value = db.remove_dep_input1() + 1;
    db.set_dep_input1(value);
    let v = db.dep_memoized2();
    assert_eq!(v, 44);
    db.assert_log(&["Memoized1 invoked", "Derived1 invoked"]);

    // Here, a change to input2 doesn't affect us, so nothing runs.
    db.set_dep_input2(45);
    let v = db.dep_memoized2();
    assert_eq!(v, 44);
    db.assert_log(&[]);
}

#[test]
fn revalidate_volatile() {
    let db = &mut TestContextImpl::default();

    db.set_dep_input1(0);

    // Initial run starts from Memoized3:
    let v = db.dep_memoized3();
    assert_eq!(v, 0);
    db.assert_log(&["Memoized3 invoked", "Volatile1 invoked"]);

    // The value is still cached
    let v = db.dep_memoized3();
    assert_eq!(v, 0);
    db.assert_log(&[]);

    // A change will force both the volatile and the memoized query to run again
    db.set_dep_input1(44);

    let v = db.dep_memoized3();
    assert_eq!(v, 22);
    db.assert_log(&["Volatile1 invoked", "Memoized3 invoked"]);
}

#[test]
fn volatile_x2() {
    let mut query = TestContextImpl::default();

    // Invoking volatile twice doesn't execute twice, because volatile
    // queries are memoized by default.
    query.volatile();
    query.volatile();
    query.assert_log(&["Volatile invoked"]);
}

/// Test that:
///
/// - On the first run of R0, we recompute everything.
/// - On the second run of R1, we recompute nothing.
/// - On the first run of R1, we recompute Memoized1 but not Memoized2 (since Memoized1 result
///   did not change).
/// - On the second run of R1, we recompute nothing.
/// - On the first run of R2, we recompute everything (since Memoized1 result *did* change).
#[test]
fn memoized_volatile_revalidate() {
    let mut query = TestContextImpl::default();

    query.memoized2();
    query.assert_log(&["Memoized2 invoked", "Memoized1 invoked", "Volatile invoked"]);

    query.memoized2();
    query.assert_log(&[]);

    // Second generation: volatile will change (to 1) but memoized1
    // will not (still 0, as 1/2 = 0)
    query.next_revision();
    query.memoized2();
    query.assert_log(&["Volatile invoked", "Memoized1 invoked"]);
    query.memoized2();
    query.assert_log(&[]);

    // Third generation: volatile will change (to 2) and memoized1
    // will too (to 1).  Therefore, after validating that Memoized1
    // changed, we now invoke Memoized2.
    query.next_revision();

    query.memoized2();
    query.assert_log(&["Volatile invoked", "Memoized1 invoked", "Memoized2 invoked"]);

    query.memoized2();
    query.assert_log(&[]);
}

#[test]
fn backdating_chain() {
    let mut db = TestContextImpl::default();
    assert_eq!(db.set(X, 0), None);
    assert_eq!(db.get(DOUBLE_HALF), 0);
    db.assert_log(&["half", "double_half"]);

    assert_eq!(db.set(X, 1), Some(0));
    assert_eq!(db.get(DOUBLE_HALF), 0);
    db.assert_log(&["half"]);

    // The value of `half` changed at revision 2 and was confirmed at revision 3.
    let half = db.storage.query_store().get(key(HALF)).unwrap();
    assert_eq!(half.changed_at.as_u64(), 2);
    assert_eq!(half.verified_at.as_u64(), 3);
    let double_half = db.storage.query_store().get(key(DOUBLE_HALF)).unwrap();
    assert_eq!(double_half.changed_at.as_u64(), 2);
    assert_eq!(double_half.verified_at.as_u64(), 3);
    assert_eq!(double_half.dependencies, vec![key(HALF)]);

    assert_eq!(db.set(X, 2), Some(1));
    assert_eq!(db.get(DOUBLE_HALF), 2);
    db.assert_log(&["half", "double_half"]);
}

#[test]
fn volatile_ticks_once_per_revision() {
    let mut db = TestContextImpl::default();
    assert_eq!(db.get(MEMOIZED1), 0);
    assert_eq!(db.get(MEMOIZED1), 0);
    assert_eq!(db.context.clock, 1);
    db.next_revision();
    assert_eq!(db.get(MEMOIZED1), 0);
    assert_eq!(db.context.clock, 2);
    db.next_revision();
    assert_eq!(db.get(MEMOIZED1), 1);
    assert_eq!(db.context.clock, 3);
    let entry = db.storage.query_store().get(key(VOLATILE)).unwrap();
    assert!(entry.untracked);
}

#[test]
fn cycle_with_recovery() {
    let mut db = TestContextImpl::default();
    assert_eq!(db.get(CYCLE_A), 42);
    assert_eq!(db.get(CYCLE_B), 42);
    assert!(!db.storage.salsa_runtime().query_in_progress());
}

#[test]
fn cycle_with_recovery_from_the_other_side() {
    let mut db = TestContextImpl::default();
    assert_eq!(db.get(CYCLE_B), 42);
    assert_eq!(db.get(CYCLE_A), 42);
}

#[test]
fn cycle_without_recovery_is_reported() {
    let mut db = TestContextImpl::default();
    match db.try_get(CYCLE_C) {
        Err(QueryError::Cycle(report)) => {
            assert_eq!(report.cycle, vec![key(CYCLE_C)]);
            assert!(report.involves(key(CYCLE_C)));
            assert!(!report.involves(key(CYCLE_A)));
            assert_eq!(report.participants(), &vec![key(CYCLE_C)]);
        }
        _ => panic!("the cycle was not reported"),
    }
    // Nothing is kept of the execution that failed.
    assert!(!db.storage.query_store().contains(key(CYCLE_C)));
    assert!(!db.storage.salsa_runtime().query_in_progress());
}

#[test]
fn an_input_that_is_set_counts_as_changed() {
    let mut db = TestContextImpl::default();
    db.set(X, 6);
    assert_eq!(db.get(DOUBLE_HALF), 6);
    db.assert_log(&["half", "double_half"]);
    db.take_events();

    // The input is set to the value that it has: it is stamped with the new revision,
    // so what read it runs again, and what read that is confirmed.
    assert_eq!(db.set(X, 6), Some(6));
    assert_eq!(db.storage.current_revision().as_u64(), 3);
    assert_eq!(db.get(DOUBLE_HALF), 6);
    db.assert_log(&["half"]);
    assert_eq!(
        db.take_events(),
        vec![
            Event::WillExecute(key(HALF)),
            Event::DidExecute(key(HALF)),
            Event::DidValidateMemoizedValue(key(DOUBLE_HALF)),
        ]
    );
    let x = db.storage.query_store().get(key(X)).unwrap();
    assert_eq!(x.changed_at.as_u64(), 3);
    assert_eq!(x.verified_at.as_u64(), 3);
    let half = db.storage.query_store().get(key(HALF)).unwrap();
    assert_eq!(half.changed_at.as_u64(), 2);
    assert_eq!(half.verified_at.as_u64(), 3);
}

#[test]
fn validation_without_reexecution() {
    let mut db = TestContextImpl::default();
    db.set(X, 6);
    assert_eq!(db.get(HALF), 3);
    db.assert_log(&["half"]);
    assert_eq!(db.take_events(), vec![Event::WillExecute(key(HALF)), Event::DidExecute(key(HALF))]);

    // Another input is set: the reader of `x` is confirmed and does not run.
    db.set(DEP_INPUT2, 1);
    assert_eq!(db.storage.current_revision().as_u64(), 3);
    assert_eq!(db.get(HALF), 3);
    db.assert_log(&[]);
    assert_eq!(db.take_events(), vec![Event::DidValidateMemoizedValue(key(HALF))]);
    // The input was looked at, not read: its entry is as it was.
    let x = db.storage.query_store().get(key(X)).unwrap();
    assert_eq!(x.changed_at.as_u64(), 2);
    assert_eq!(x.verified_at.as_u64(), 2);
}

#[test]
fn a_query_has_one_value_in_a_revision() {
    let mut db = TestContextImpl::default();
    let first = db.get(VOLATILE);
    db.get(MEMOIZED2);
    let second = db.get(VOLATILE);
    assert_eq!(first, second);
    assert_eq!(db.context.clock, 1);
}

#[test]
fn a_function_runs_once_in_a_revision() {
    let mut db = TestContextImpl::default();
    db.set(X, 8);
    db.get(DOUBLE_HALF);
    db.get(HALF);
    db.get(DOUBLE_HALF);
    let runs: Vec<Event> = db
        .take_events()
        .into_iter()
        .filter(|event| matches!(event, Event::WillExecute(_)))
        .collect();
    assert_eq!(runs, vec![Event::WillExecute(key(DOUBLE_HALF)), Event::WillExecute(key(HALF))]);
}

#[test]
fn a_missing_input_is_reported() {
    let mut db = TestContextImpl::default();
    match db.try_get(X) {
        Err(QueryError::MissingInput(missing)) => assert_eq!(missing, key(X)),
        _ => panic!("the input was not reported as missing"),
    }
    // The query that read it has no value either, and nothing is kept of it.
    match db.try_get(HALF) {
        Err(QueryError::MissingInput(missing)) => assert_eq!(missing, key(X)),
        _ => panic!("the input was not reported as missing"),
    }
    assert!(!db.storage.query_store().contains(key(HALF)));
    assert_eq!(db.storage.salsa_runtime().depth(), 0);
}

#[test]
fn a_function_that_gives_up_is_reported() {
    let mut db = TestContextImpl::default();
    match db.try_get(99) {
        Err(QueryError::Failed(failed)) => assert_eq!(failed, key(99)),
        _ => panic!("the failure was not reported"),
    }
    assert!(!db.storage.query_store().contains(key(99)));
}

#[test]
fn a_removed_input_is_missing() {
    let mut db = TestContextImpl::default();
    db.set(X, 3);
    assert_eq!(db.get(X), 3);
    assert_eq!(db.remove(X), 3);
    assert_eq!(db.storage.current_revision().as_u64(), 3);
    assert!(matches!(db.try_get(X), Err(QueryError::MissingInput(_))));
}

#[test]
fn snapshot_blocks_writes_until_released() {
    let mut db = TestContextImpl::default();
    db.set(X, 10);
    assert_eq!(db.get(HALF), 5);

    let mut snapshot = db.storage.snapshot();
    assert!(!snapshot.query_in_progress());
    assert_eq!(db.storage.salsa_runtime().live_snapshots(), 1);

    // The write has to wait, and readers can see that it does.
    assert_eq!(db.storage.set(key(X), 20), WriteOutcome::Blocked);
    assert!(db.storage.is_current_revision_canceled());
    assert_eq!(db.storage.current_revision().as_u64(), 2);
    assert_eq!(db.get(X), 10);

    // The snapshot reads what is there, and runs nothing for what is fresh.
    let mut reader = TestContext::default();
    assert_eq!(db.storage.fetch_through(&mut snapshot, &mut reader, key(HALF)), Ok(5));
    assert_eq!(reader.log, Vec::<String>::new());
    assert!(!db.storage.salsa_runtime().is_snapshot());

    db.storage.release_snapshot(snapshot);
    assert_eq!(db.storage.salsa_runtime().live_snapshots(), 0);
    assert_eq!(db.storage.set(key(X), 20), WriteOutcome::Committed(Some(10)));
    assert!(!db.storage.is_current_revision_canceled());
    assert_eq!(db.storage.current_revision().as_u64(), 3);
    assert_eq!(db.get(X), 20);
    assert_eq!(db.get(HALF), 10);
}

#[test]
fn next_revision_waits_for_snapshots() {
    let mut db = TestContextImpl::default();
    let snapshot = db.storage.snapshot();
    assert_eq!(db.storage.next_revision(), None);
    assert!(db.storage.is_current_revision_canceled());
    assert_eq!(db.storage.remove(key(X)), WriteOutcome::Blocked);
    db.storage.release_snapshot(snapshot);
    assert_eq!(db.storage.next_revision().map(|revision| revision.as_u64()), Some(2));
    assert!(!db.storage.is_current_revision_canceled());
}

#[test]
fn two_snapshots_fetch_the_same_and_run_the_function_once() {
    let mut db = TestContextImpl::default();
    db.set(X, 14);
    let mut first = db.storage.snapshot();
    let mut second = db.storage.snapshot();
    assert_eq!(db.storage.salsa_runtime().live_snapshots(), 2);

    let mut first_reader = TestContext::default();
    let mut second_reader = TestContext::default();
    let one = db.storage.fetch_through(&mut first, &mut first_reader, key(DOUBLE_HALF));
    let dependencies = db.storage.query_store().get(key(DOUBLE_HALF)).unwrap().dependencies.clone();
    let two = db.storage.fetch_through(&mut second, &mut second_reader, key(DOUBLE_HALF));
    assert_eq!(one, Ok(14));
    assert_eq!(one, two);
    assert_eq!(db.storage.query_store().get(key(DOUBLE_HALF)).unwrap().dependencies, dependencies);
    // The function ran once: what the first snapshot computed the second one found.
    assert_eq!(first_reader.log, vec!["half".to_string(), "double_half".to_string()]);
    assert_eq!(second_reader.log, Vec::<String>::new());
    // And so does the handle from which the snapshots were taken.
    assert_eq!(db.get(DOUBLE_HALF), 14);
    db.assert_log(&[]);

    db.storage.release_snapshot(first);
    db.storage.release_snapshot(second);
    assert_eq!(db.storage.salsa_runtime().live_snapshots(), 0);
}

/// A query that goes on for long asks whether the revision is canceled, and gives up
/// with a sentinel if it is.
struct Patient {
    polls: usize,
}

impl QueryContextStorageTypes for Patient {
    type Value = usize;
    type QueryDescriptor = DatabaseKeyIndex;
}

impl QueryContext for Patient {
    fn execute(
        &mut self,
        storage: &mut Storage<Self>,
        _key: DatabaseKeyIndex,
    ) -> Result<usize, QueryError> {
        self.polls += 1;
        if storage.is_current_revision_canceled() {
            Ok(usize::MAX)
        } else {
            Ok(7)
        }
    }
}

#[test]
fn a_reader_sees_the_cancellation() {
    let mut storage: Storage<Patient> = Storage::new();
    assert!(storage.declare(StorageFlavor::Input, CycleRecoveryStrategy::Panic).is_some());
    assert!(storage.declare(StorageFlavor::Memoized, CycleRecoveryStrategy::Panic).is_some());
    let input = DatabaseKeyIndex::new(IngredientIndex::new(0), Id::new(0));
    let first = DatabaseKeyIndex::new(IngredientIndex::new(1), Id::new(0));
    let second = DatabaseKeyIndex::new(IngredientIndex::new(1), Id::new(1));
    assert_eq!(storage.set(input, 2), WriteOutcome::Committed(None));
    let mut snapshot = storage.snapshot();
    let mut reader = Patient { polls: 0 };

    // No writer waits: the query of the snapshot goes on to its end.
    assert!(!storage.is_current_revision_canceled());
    assert_eq!(storage.fetch_through(&mut snapshot, &mut reader, first), Ok(7));

    // A writer arrives and has to wait. The snapshot sees it through the storage that
    // its queries are handed, and its query gives up.
    assert_eq!(storage.set(input, 4), WriteOutcome::Blocked);
    assert!(storage.is_current_revision_canceled());
    assert_eq!(storage.fetch_through(&mut snapshot, &mut reader, second), Ok(usize::MAX));
    assert_eq!(reader.polls, 2);

    // The reader goes away, and the writer proceeds.
    storage.release_snapshot(snapshot);
    assert_eq!(storage.set(input, 4), WriteOutcome::Committed(Some(2)));
    assert!(!storage.is_current_revision_canceled());
    assert_eq!(storage.fetch(&mut reader, input), Ok(4));
}

#[test]
fn a_snapshot_does_not_write() {
    let mut db = TestContextImpl::default();
    let mut snapshot = db.storage.snapshot();
    // While the snapshot is at work the handle is read only.
    db.storage.salsa_runtime_mut().exchange(&mut snapshot);
    assert!(db.storage.salsa_runtime().is_snapshot());
    db.storage.salsa_runtime_mut().exchange(&mut snapshot);
    assert!(!db.storage.salsa_runtime().is_snapshot());
    db.storage.release_snapshot(snapshot);
}

#[test]
fn stale_outputs_are_removed_and_valid_ones_confirmed() {
    let mut db = TestContextImpl::default();
    db.set(X, 8);
    assert_eq!(db.get(DOUBLE_HALF), 8);
    db.next_revision();
    // The entry of `half` is confirmed on behalf of the query that read it.
    key(HALF).mark_validated_output(&mut db.storage, key(DOUBLE_HALF));
    let half = db.storage.query_store().get(key(HALF)).unwrap();
    assert_eq!(half.verified_at.as_u64(), 3);
    assert_eq!(half.changed_at.as_u64(), 2);
    assert_eq!(half.value, 4);
    key(CYCLE_A).mark_validated_output(&mut db.storage, key(DOUBLE_HALF));
    assert!(!db.storage.query_store().contains(key(CYCLE_A)));

    key(HALF).remove_stale_output(&mut db.storage, key(DOUBLE_HALF));
    assert!(!db.storage.query_store().contains(key(HALF)));
    assert!(db.storage.query_store().contains(key(DOUBLE_HALF)));
    key(HALF).remove_stale_output(&mut db.storage, key(DOUBLE_HALF));
    assert!(!db.storage.query_store().contains(key(HALF)));
}

#[test]
fn untracked_reads_and_accumulated_values_are_recorded_on_the_frame() {
    let mut storage: Storage<TestContext> = Storage::new();
    // Outside any query nothing is recorded.
    storage.report_untracked_read();
    storage.accumulate(7);
    assert_eq!(storage.salsa_runtime().depth(), 0);

    assert!(storage.salsa_runtime_mut().push_query(key(HALF)).is_ok());
    storage.accumulate(7);
    storage.accumulate(8);
    storage.report_untracked_read();
    assert_eq!(storage.salsa_runtime().active_query(), Some(key(HALF)));
    let kept = storage.finish(key(HALF), Ok(5));
    assert_eq!(kept, Ok(5));
    let entry = storage.query_store().get(key(HALF)).unwrap();
    assert_eq!(entry.value, 5);
    assert!(entry.untracked);
    assert_eq!(entry.accumulated, vec![7, 8]);
    assert_eq!(entry.dependencies, Vec::<DatabaseKeyIndex>::new());
    assert_eq!(entry.changed_at.as_u64(), 1);
    assert_eq!(entry.verified_at.as_u64(), 1);
    assert_eq!(key(HALF).accumulated(&storage), Some(&vec![7, 8]));
    assert_eq!(key(X).accumulated(&storage), None);
}

#[test]
fn finish_hands_a_failure_on_and_keeps_nothing() {
    let mut storage: Storage<TestContext> = Storage::new();
    assert!(storage.salsa_runtime_mut().push_query(key(HALF)).is_ok());
    let kept = storage.finish(key(HALF), Err(QueryError::Failed(key(X))));
    assert_eq!(kept, Err(QueryError::Failed(key(X))));
    assert!(!storage.query_store().contains(key(HALF)));
    assert_eq!(storage.salsa_runtime().depth(), 0);
}

#[test]
fn maybe_changed_after_compares_revisions() {
    let mut db = TestContextImpl::default();
    db.set(X, 4);
    let second = db.storage.current_revision();
    assert_eq!(db.get(HALF), 2);
    let first = salsa::Revision::start();

    // The input changed at the second revision.
    assert!(db.storage.maybe_changed_after(&mut db.context, key(X), first));
    assert!(!db.storage.maybe_changed_after(&mut db.context, key(X), second));
    assert!(key(HALF).maybe_changed_after(&mut db.context, &mut db.storage, first));
    assert!(!key(HALF).maybe_changed_after(&mut db.context, &mut db.storage, second));
    // A transparent query may always have changed, and so may a missing input.
    assert!(db.storage.maybe_changed_after(&mut db.context, key(DEP_DERIVED1), second));
    assert!(db.storage.maybe_changed_after(&mut db.context, key(DEP_INPUT1), second));

    // After a change that does not reach the value, the query is brought up to date.
    db.set(X, 5);
    db.assert_log(&["half"]);
    assert!(!db.storage.maybe_changed_after(&mut db.context, key(HALF), second));
    db.assert_log(&["half"]);
    assert_eq!(db.storage.query_store().get(key(HALF)).unwrap().verified_at.as_u64(), 3);
}

#[test]
fn the_recovery_of_a_query_is_what_was_declared() {
    let db = TestContextImpl::default();
    assert!(matches!(
        key(CYCLE_A).cycle_recovery_strategy(&db.storage),
        CycleRecoveryStrategy::Fallback(42)
    ));
    assert!(matches!(
        key(CYCLE_B).cycle_recovery_strategy(&db.storage),
        CycleRecoveryStrategy::Panic
    ));
    // A query that was not declared is memoized, and a cycle is an error for it.
    assert!(matches!(key(77).cycle_recovery_strategy(&db.storage), CycleRecoveryStrategy::Panic));
    assert_eq!(
        db.storage.global_storage().flavor(IngredientIndex::new(77)),
        StorageFlavor::Memoized
    );
    assert_eq!(db.storage.global_storage().len(), 19);
}

#[test]
fn a_transparent_query_recovers_with_its_fallback() {
    let mut db = TestContextImpl::default();
    assert_eq!(db.get(CYCLE_INLINE), 9);
    assert!(!db.storage.query_store().contains(key(CYCLE_INLINE)));
    assert_eq!(db.storage.salsa_runtime().depth(), 0);
}

#[test]
fn the_innermost_query_of_a_cycle_that_has_a_fallback_recovers() {
    let mut db = TestContextImpl::default();
    // `e` is called by `d` and calls `d` again: `e` takes its fallback, and `d` goes on.
    assert_eq!(db.get(CYCLE_D), 21);
    assert_eq!(db.get(CYCLE_E), 20);
    let recovered = db.storage.query_store().get(key(CYCLE_E)).unwrap();
    assert!(recovered.untracked);
    let outer = db.storage.query_store().get(key(CYCLE_D)).unwrap();
    assert!(!outer.untracked);
    assert_eq!(outer.dependencies, vec![key(CYCLE_E)]);

    // In the next revision the cycle is met again, with the same outcome.
    db.next_revision();
    db.take_events();
    assert_eq!(db.get(CYCLE_D), 21);
    assert_eq!(
        db.take_events(),
        vec![
            Event::WillExecute(key(CYCLE_E)),
            Event::DidExecute(key(CYCLE_E)),
            Event::DidValidateMemoizedValue(key(CYCLE_D)),
        ]
    );
}

#[test]
fn finish_keeps_the_fallback_of_a_cycle() {
    let mut db = TestContextImpl::default();
    let storage = &mut db.storage;
    assert!(storage.salsa_runtime_mut().push_query(key(CYCLE_A)).is_ok());
    assert_eq!(storage.salsa_runtime().depth(), 1);
    storage.salsa_runtime_mut().report_query_read(key(X));
    let report = storage.salsa_runtime_mut().push_query(key(CYCLE_A)).unwrap_err();
    assert_eq!(storage.finish(key(CYCLE_A), Err(QueryError::Cycle(report))), Ok(42));
    let entry = storage.query_store().get(key(CYCLE_A)).unwrap();
    assert_eq!(entry.value, 42);
    assert!(entry.untracked);
    assert_eq!(entry.dependencies, vec![key(X)]);

    // A cycle that the query is no part of is no reason to recover.
    assert!(storage.salsa_runtime_mut().push_query(key(CYCLE_A)).is_ok());
    let other = salsa::CycleDetected { cycle: vec![key(CYCLE_B)] };
    let kept = storage.finish(key(CYCLE_A), Err(QueryError::Cycle(other.clone())));
    assert_eq!(kept, Err(QueryError::Cycle(other)));
    assert_eq!(storage.query_store().get(key(CYCLE_A)).unwrap().value, 42);
    assert_eq!(storage.salsa_runtime().depth(), 0);
}

#[test]
fn finish_marks_the_entry_of_a_volatile_query() {
    let mut db = TestContextImpl::default();
    let storage = &mut db.storage;
    assert!(storage.salsa_runtime_mut().push_query(key(VOLATILE)).is_ok());
    assert_eq!(storage.finish(key(VOLATILE), Ok(3)), Ok(3));
    assert!(storage.query_store().get(key(VOLATILE)).unwrap().untracked);

    assert!(storage.salsa_runtime_mut().push_query(key(MEMOIZED1)).is_ok());
    assert_eq!(storage.finish(key(MEMOIZED1), Ok(3)), Ok(3));
    assert!(!storage.query_store().get(key(MEMOIZED1)).unwrap().untracked);
}

#[test]
fn finish_charges_a_transparent_query_to_its_caller() {
    let mut db = TestContextImpl::default();
    let storage = &mut db.storage;
    assert!(storage.salsa_runtime_mut().push_query(key(DEP_MEMOIZED1)).is_ok());
    storage.salsa_runtime_mut().report_query_read(key(DEP_INPUT2));
    assert!(storage.salsa_runtime_mut().push_query(key(DEP_DERIVED1)).is_ok());
    storage.salsa_runtime_mut().report_query_read(key(DEP_INPUT1));
    storage.accumulate(5);
    assert_eq!(storage.finish(key(DEP_DERIVED1), Ok(8)), Ok(8));
    assert!(!storage.query_store().contains(key(DEP_DERIVED1)));
    assert_eq!(storage.salsa_runtime().active_query(), Some(key(DEP_MEMOIZED1)));
    assert_eq!(storage.finish(key(DEP_MEMOIZED1), Ok(16)), Ok(16));
    let entry = storage.query_store().get(key(DEP_MEMOIZED1)).unwrap();
    assert_eq!(entry.dependencies, vec![key(DEP_INPUT2), key(DEP_INPUT1)]);
    assert_eq!(entry.accumulated, vec![5]);
}
