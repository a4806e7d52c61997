//! The parts of the engine, one at a time.

use salsa::active_query::{append_values, ActiveQuery};
use salsa::dependencies::{
    add_all_unique, add_reversed, add_unique, contains, copy_keys, position,
};
use salsa::ingredient::{CycleRecoveryStrategy, GlobalStorage, Ingredient, StorageFlavor};
use salsa::memo::Memo;
use salsa::query_store::QueryStore;
use salsa::{DatabaseKeyIndex, Id, IngredientIndex, QueryValue, Revision, Runtime};

fn key(ingredient: u32, id: u32) -> DatabaseKeyIndex {
    DatabaseKeyIndex::new(IngredientIndex::new(ingredient), Id::new(id))
}

fn revision(generation: u64) -> Revision {
    Revision::from_u64(generation).unwrap()
}

fn memo(value: u32, changed_at: u64, verified_at: u64) -> Memo<u32> {
    Memo {
        value,
        changed_at: revision(changed_at),
        verified_at: revision(verified_at),
        dependencies: vec![key(1, 1)],
        untracked: false,
        accumulated: vec![],
    }
}

#[test]
fn revisions_start_at_one_and_grow() {
    let first = Revision::start();
    assert_eq!(first.as_u64(), 1);
    assert!(first.has_next());
    let second = first.next();
    assert_eq!(second.as_u64(), 2);
    assert!(second.is_after(first));
    assert!(!first.is_after(second));
    assert!(!first.is_after(first));
    assert_eq!(Revision::from_u64(0), None);
    assert_eq!(Revision::from_u64(7), Some(Revision { generation: 7 }));
    let last = revision(u64::MAX);
    assert!(!last.has_next());
    assert_eq!(revision(u64::MAX - 1).next(), last);
}

#[test]
fn a_database_key_is_an_ingredient_and_a_key() {
    let k = key(3, 5);
    assert_eq!(k.ingredient_index(), IngredientIndex::new(3));
    assert_eq!(k.ingredient_index().as_u32(), 3);
    assert_eq!(k.key_index(), Id::new(5));
    assert_eq!(k.key_index().as_u32(), 5);
    assert_eq!(k.to_code(), 3 * 4_294_967_296 + 5);
    assert_eq!(key(0, 0).to_code(), 0);
    assert_eq!(key(u32::MAX, u32::MAX).to_code(), u64::MAX);
    assert_eq!(key(1, 0).to_code(), 4_294_967_296);
    assert_eq!(key(0, u32::MAX).to_code(), 4_294_967_295);
    // Keys are ordered by ingredient first, as their codes are.
    assert!(key(1, 9) < key(2, 0));
    assert!(key(1, 2) < key(1, 3));
    assert!(key(1, 9).to_code() < key(2, 0).to_code());
}

#[test]
fn values_are_compared_by_equality() {
    assert!(5u64.same(&5));
    assert!(!5u64.same(&6));
    assert!(7usize.same(&7));
    assert!(!true.same(&false));
    assert!('a'.same(&'a'));
    assert!((-3i32).same(&-3));
    assert!(!(-3i64).same(&3));
    assert!(1u8.same(&1) && 1u16.same(&1) && 1u32.same(&1) && 1u128.same(&1));
    assert!(1i8.same(&1) && 1i16.same(&1) && 1i128.same(&1) && 1isize.same(&1));
}

#[test]
fn a_duplicate_is_the_same_value() {
    assert_eq!(5u64.duplicate(), 5);
    assert_eq!(7usize.duplicate(), 7);
    assert_eq!((-3i32).duplicate(), -3);
    assert_eq!('a'.duplicate(), 'a');
    assert!(true.duplicate());
    assert_eq!(u128::MAX.duplicate(), u128::MAX);
    assert_eq!(i64::MIN.duplicate(), i64::MIN);
}

#[test]
fn lists_of_keys_hold_each_key_once() {
    let mut keys = vec![key(0, 1), key(0, 2)];
    assert_eq!(position(&keys, key(0, 2)), Some(1));
    assert_eq!(position(&keys, key(0, 3)), None);
    assert!(contains(&keys, key(0, 1)));
    assert!(!contains(&keys, key(1, 1)));

    add_unique(&mut keys, key(0, 1));
    assert_eq!(keys, vec![key(0, 1), key(0, 2)]);
    add_unique(&mut keys, key(0, 3));
    assert_eq!(keys, vec![key(0, 1), key(0, 2), key(0, 3)]);

    add_all_unique(&mut keys, &vec![key(0, 4), key(0, 2), key(0, 4), key(0, 5)]);
    assert_eq!(keys, vec![key(0, 1), key(0, 2), key(0, 3), key(0, 4), key(0, 5)]);

    let copy = copy_keys(&keys);
    assert_eq!(copy, keys);

    let mut work = vec![key(9, 9)];
    add_reversed(&mut work, &vec![key(0, 1), key(0, 2), key(0, 3)]);
    assert_eq!(work, vec![key(9, 9), key(0, 3), key(0, 2), key(0, 1)]);

    let mut values = vec![1, 2];
    append_values(&mut values, &vec![3, 3, 4]);
    assert_eq!(values, vec![1, 2, 3, 3, 4]);
}

#[test]
fn a_frame_records_reads_once_and_in_order() {
    let mut frame: ActiveQuery<u32> = ActiveQuery::new(key(0, 0));
    assert_eq!(frame.database_key, key(0, 0));
    assert!(frame.dependencies.is_empty());
    assert!(!frame.untracked);
    assert!(frame.accumulated.is_empty());

    frame.add_read(key(1, 0));
    frame.add_read(key(2, 0));
    frame.add_read(key(1, 0));
    assert_eq!(frame.dependencies, vec![key(1, 0), key(2, 0)]);
    frame.add_accumulated(10);
    frame.add_accumulated(10);
    assert_eq!(frame.accumulated, vec![10, 10]);

    let mut child: ActiveQuery<u32> = ActiveQuery::new(key(3, 0));
    child.add_read(key(2, 0));
    child.add_read(key(4, 0));
    child.add_untracked_read();
    child.add_accumulated(11);
    frame.absorb(&child);
    assert_eq!(frame.database_key, key(0, 0));
    assert_eq!(frame.dependencies, vec![key(1, 0), key(2, 0), key(4, 0)]);
    assert!(frame.untracked);
    assert_eq!(frame.accumulated, vec![10, 10, 11]);
}

#[test]
fn an_entry_that_keeps_its_value_keeps_its_revision_of_change() {
    let before = memo(8, 2, 3);
    assert!(before.is_fresh(revision(3)));
    assert!(!before.is_fresh(revision(4)));
    assert!(before.changed_after(revision(1)));
    assert!(!before.changed_after(revision(2)));
    assert!(before.can_validate());

    let same = Memo::executed(Some(&before), 8, vec![key(2, 2)], false, vec![5], revision(5));
    assert_eq!(same.value, 8);
    assert_eq!(same.changed_at, revision(2));
    assert_eq!(same.verified_at, revision(5));
    assert_eq!(same.dependencies, vec![key(2, 2)]);
    assert_eq!(same.accumulated, vec![5]);
    assert!(!same.untracked);

    let other = Memo::executed(Some(&before), 9, vec![], true, vec![], revision(5));
    assert_eq!(other.value, 9);
    assert_eq!(other.changed_at, revision(5));
    assert_eq!(other.verified_at, revision(5));
    assert!(other.untracked);
    assert!(!other.can_validate());

    let new = Memo::executed(None, 8, vec![], false, vec![], revision(5));
    assert_eq!(new.changed_at, revision(5));
    assert!(!new.can_validate());
}

#[test]
fn the_runtime_keeps_the_stack_of_active_queries() {
    let mut runtime: Runtime<u32> = Runtime::new();
    assert_eq!(runtime.current_revision(), Revision::start());
    assert!(!runtime.query_in_progress());
    assert_eq!(runtime.depth(), 0);
    assert_eq!(runtime.active_query(), None);
    assert!(!runtime.is_snapshot());
    assert_eq!(runtime.live_snapshots(), 0);
    assert!(!runtime.is_current_revision_canceled());

    // Outside any query nothing is recorded.
    runtime.report_query_read(key(1, 1));
    runtime.report_untracked_read();
    runtime.report_accumulated(4);
    assert_eq!(runtime.depth(), 0);

    assert_eq!(runtime.push_query(key(0, 0)), Ok(()));
    assert_eq!(runtime.push_query(key(0, 1)), Ok(()));
    assert!(runtime.query_in_progress());
    assert_eq!(runtime.depth(), 2);
    assert_eq!(runtime.active_query(), Some(key(0, 1)));

    runtime.report_query_read(key(1, 1));
    runtime.report_query_read(key(1, 2));
    runtime.report_query_read(key(1, 1));
    runtime.report_accumulated(4);
    let mut child: ActiveQuery<u32> = ActiveQuery::new(key(5, 5));
    child.add_read(key(1, 3));
    child.add_accumulated(6);
    runtime.report_child(&child);
    let inner = runtime.pop_query();
    assert_eq!(inner.database_key, key(0, 1));
    assert_eq!(inner.dependencies, vec![key(1, 1), key(1, 2), key(1, 3)]);
    assert!(!inner.untracked);
    assert_eq!(inner.accumulated, vec![4, 6]);

    runtime.report_untracked_read();
    let outer = runtime.pop_query();
    assert_eq!(outer.database_key, key(0, 0));
    assert!(outer.dependencies.is_empty());
    assert!(outer.untracked);
    assert_eq!(runtime.depth(), 0);
}

#[test]
fn a_cycle_is_reported_from_the_repeated_query_to_the_top() {
    let mut runtime: Runtime<u32> = Runtime::new();
    for id in 0..5 {
        assert_eq!(runtime.push_query(key(0, id)), Ok(()));
    }
    let report = runtime.push_query(key(0, 2)).unwrap_err();
    assert_eq!(report.cycle, vec![key(0, 2), key(0, 3), key(0, 4)]);
    // Nothing was pushed.
    assert_eq!(runtime.depth(), 5);
    assert_eq!(runtime.active_query(), Some(key(0, 4)));

    let whole = runtime.push_query(key(0, 0)).unwrap_err();
    assert_eq!(whole.cycle, (0..5).map(|id| key(0, id)).collect::<Vec<_>>());
    let top = runtime.push_query(key(0, 4)).unwrap_err();
    assert_eq!(top.cycle, vec![key(0, 4)]);
    // The same key of another query is no cycle.
    assert_eq!(runtime.push_query(key(1, 2)), Ok(()));
}

#[test]
fn writes_wait_for_the_readers() {
    let mut runtime: Runtime<u32> = Runtime::new();
    assert_eq!(runtime.request_write(), Some(revision(2)));
    assert_eq!(runtime.current_revision(), revision(2));

    let mut snapshot = runtime.snapshot();
    assert!(!snapshot.query_in_progress());
    let other = runtime.snapshot();
    assert_eq!(runtime.live_snapshots(), 2);

    assert_eq!(runtime.request_write(), None);
    assert!(runtime.is_current_revision_canceled());
    assert_eq!(runtime.current_revision(), revision(2));

    // A snapshot at work brings its own stack and may not write.
    assert_eq!(runtime.push_query(key(0, 0)), Ok(()));
    runtime.exchange(&mut snapshot);
    assert!(runtime.is_snapshot());
    assert_eq!(runtime.depth(), 0);
    assert!(snapshot.query_in_progress());
    assert!(runtime.is_current_revision_canceled());
    runtime.exchange(&mut snapshot);
    assert!(!runtime.is_snapshot());
    assert_eq!(runtime.active_query(), Some(key(0, 0)));
    runtime.pop_query();

    runtime.release_snapshot(snapshot);
    assert_eq!(runtime.request_write(), None);
    runtime.release_snapshot(other);
    assert_eq!(runtime.live_snapshots(), 0);
    assert_eq!(runtime.request_write(), Some(revision(3)));
    assert!(!runtime.is_current_revision_canceled());
}

#[test]
fn queries_are_declared_in_order() {
    let mut global: GlobalStorage<u32> = GlobalStorage::new();
    assert_eq!(global.len(), 0);
    assert_eq!(global.flavor(IngredientIndex::new(0)), StorageFlavor::Memoized);
    assert_eq!(global.recovery(IngredientIndex::new(0)), CycleRecoveryStrategy::Panic);

    assert_eq!(
        global.declare(StorageFlavor::Input, CycleRecoveryStrategy::Panic),
        Some(IngredientIndex::new(0))
    );
    assert_eq!(
        global.declare(StorageFlavor::Transparent, CycleRecoveryStrategy::Fallback(3)),
        Some(IngredientIndex::new(1))
    );
    assert_eq!(
        global.declare(StorageFlavor::Volatile, CycleRecoveryStrategy::Panic),
        Some(IngredientIndex::new(2))
    );
    assert_eq!(global.len(), 3);
    assert_eq!(global.flavor(IngredientIndex::new(0)), StorageFlavor::Input);
    assert_eq!(global.flavor(IngredientIndex::new(1)), StorageFlavor::Transparent);
    assert_eq!(global.recovery(IngredientIndex::new(1)), CycleRecoveryStrategy::Fallback(3));
    assert_eq!(global.flavor(IngredientIndex::new(2)), StorageFlavor::Volatile);
    assert_eq!(global.flavor(IngredientIndex::new(3)), StorageFlavor::Memoized);

    let declared =
        Ingredient { flavor: StorageFlavor::Input, recovery: CycleRecoveryStrategy::<u32>::Panic };
    assert_eq!(declared.flavor, StorageFlavor::Input);
}

#[test]
fn the_table_finds_what_was_put_in() {
    let mut store: QueryStore<u32> = QueryStore::new();
    assert_eq!(store.get(key(1, 2)), None);
    assert!(!store.contains(key(1, 2)));

    store.insert(key(1, 2), memo(10, 1, 1));
    store.insert(key(2, 1), memo(20, 1, 2));
    assert_eq!(store.get(key(1, 2)), Some(&memo(10, 1, 1)));
    assert_eq!(store.get(key(2, 1)), Some(&memo(20, 1, 2)));
    assert_eq!(store.get(key(1, 1)), None);
    assert!(store.contains(key(2, 1)));

    // A second entry for a key takes the place of the first.
    store.insert(key(1, 2), memo(11, 3, 3));
    assert_eq!(store.get(key(1, 2)), Some(&memo(11, 3, 3)));
    assert_eq!(store.get(key(2, 1)), Some(&memo(20, 1, 2)));
}

#[test]
fn the_table_gives_up_what_is_removed() {
    let mut store: QueryStore<u32> = QueryStore::new();
    store.insert(key(1, 2), memo(10, 1, 1));
    store.insert(key(2, 1), memo(20, 1, 2));
    assert_eq!(store.remove(key(1, 2)), Some(memo(10, 1, 1)));
    assert_eq!(store.get(key(1, 2)), None);
    assert_eq!(store.remove(key(1, 2)), None);
    assert_eq!(store.get(key(2, 1)), Some(&memo(20, 1, 2)));
}

#[test]
fn the_table_confirms_an_entry_in_place() {
    let mut store: QueryStore<u32> = QueryStore::new();
    store.insert(key(1, 2), memo(10, 1, 1));
    store.mark_verified(key(1, 2), revision(4));
    assert_eq!(store.get(key(1, 2)), Some(&memo(10, 1, 4)));
    store.mark_verified(key(3, 3), revision(4));
    assert_eq!(store.get(key(3, 3)), None);
}
