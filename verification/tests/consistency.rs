//! Whatever was set and fetched before, a fetch returns what computing from scratch
//! returns, and no function runs twice in a revision.

use salsa::ingredient::{CycleRecoveryStrategy, StorageFlavor};
use salsa::storage::WriteOutcome;
use salsa::{
    DatabaseKeyIndex, Event, Id, IngredientIndex, QueryContext, QueryContextStorageTypes,
    QueryError, Storage,
};

const INPUTS: u32 = 6;
const QUERIES: u32 = 40;

fn input(id: u32) -> DatabaseKeyIndex {
    DatabaseKeyIndex::new(IngredientIndex::new(0), Id::new(id))
}

fn query(id: u32) -> DatabaseKeyIndex {
    DatabaseKeyIndex::new(IngredientIndex::new(1), Id::new(id))
}

/// A small generator of numbers that looks random and is the same on every run.
struct Numbers(u64);

impl Numbers {
    fn next(&mut self, below: u32) -> u32 {
        self.0 = self.0.wrapping_mul(6364136223846793005).wrapping_add(1442695040888963407);
        ((self.0 >> 33) % below as u64) as u32
    }
}

/// What a query reads: an input first, then one of two earlier queries, chosen by
/// whether the input is even.
#[derive(Clone, Copy)]
struct Shape {
    input: u32,
    even: Option<u32>,
    odd: Option<u32>,
    modulus: u64,
}

struct Database {
    shapes: Vec<Shape>,
    runs: Vec<DatabaseKeyIndex>,
}

impl Database {
    fn new(numbers: &mut Numbers) -> Database {
        let mut shapes = Vec::new();
        for id in 0..QUERIES {
            let earlier = |numbers: &mut Numbers| {
                if id == 0 || numbers.next(4) == 0 {
                    None
                } else {
                    Some(numbers.next(id))
                }
            };
            shapes.push(Shape {
                input: numbers.next(INPUTS),
                even: earlier(numbers),
                odd: earlier(numbers),
                modulus: 2 + numbers.next(5) as u64,
            });
        }
        Database { shapes, runs: Vec::new() }
    }

    /// The value of a query for the given values of the inputs, computed directly.
    fn from_scratch(&self, inputs: &[u64], id: u32) -> u64 {
        let shape = self.shapes[id as usize];
        let first = inputs[shape.input as usize];
        let chosen = if first % 2 == 0 { shape.even } else { shape.odd };
        let second = match chosen {
            Some(earlier) => self.from_scratch(inputs, earlier),
            None => 1,
        };
        (first + second) % shape.modulus
    }
}

impl QueryContextStorageTypes for Database {
    type Value = u64;
    type QueryDescriptor = DatabaseKeyIndex;
}

impl QueryContext for Database {
    fn execute(
        &mut self,
        storage: &mut Storage<Self>,
        key: DatabaseKeyIndex,
    ) -> Result<u64, QueryError> {
        let shape = self.shapes[key.key_index().as_u32() as usize];
        let first = storage.fetch(self, input(shape.input))?;
        let chosen = if first % 2 == 0 { shape.even } else { shape.odd };
        let second = match chosen {
            Some(earlier) => storage.fetch(self, query(earlier))?,
            None => 1,
        };
        Ok((first + second) % shape.modulus)
    }

    fn salsa_event(&mut self, event: Event) {
        if let Event::WillExecute(key) = event {
            self.runs.push(key);
        }
    }
}

fn check_entries(storage: &Storage<Database>) {
    let current = storage.current_revision().as_u64();
    for id in 0..QUERIES {
        if let Some(entry) = storage.query_store().get(query(id)) {
            assert!(1 <= entry.changed_at.as_u64());
            assert!(entry.changed_at.as_u64() <= entry.verified_at.as_u64());
            assert!(entry.verified_at.as_u64() <= current);
            let mut seen = entry.dependencies.clone();
            seen.sort_by_key(|key| key.to_code());
            seen.dedup();
            assert_eq!(seen.len(), entry.dependencies.len());
        }
    }
    assert_eq!(storage.salsa_runtime().depth(), 0);
}

#[test]
fn incremental_results_equal_results_from_scratch() {
    let mut numbers = Numbers(2024);
    let mut db = Database::new(&mut numbers);
    let mut storage: Storage<Database> = Storage::new();
    assert!(storage.declare(StorageFlavor::Input, CycleRecoveryStrategy::Panic).is_some());
    assert!(storage.declare(StorageFlavor::Memoized, CycleRecoveryStrategy::Panic).is_some());

    let mut inputs = vec![0u64; INPUTS as usize];
    for id in 0..INPUTS {
        assert_eq!(storage.set(input(id), 0), WriteOutcome::Committed(None));
    }

    for _ in 0..300 {
        // Some inputs are set: to new values, and now and then to the value that they have.
        for _ in 0..numbers.next(3) {
            let id = numbers.next(INPUTS);
            let value = if numbers.next(3) == 0 {
                inputs[id as usize]
            } else {
                numbers.next(10) as u64
            };
            let previous = inputs[id as usize];
            inputs[id as usize] = value;
            assert_eq!(storage.set(input(id), value), WriteOutcome::Committed(Some(previous)));
        }
        db.runs.clear();
        for _ in 0..5 {
            let id = numbers.next(QUERIES);
            let expected = db.from_scratch(&inputs, id);
            assert_eq!(storage.fetch(&mut db, query(id)), Ok(expected));
            // A second fetch returns the same and runs nothing.
            let runs = db.runs.len();
            assert_eq!(storage.fetch(&mut db, query(id)), Ok(expected));
            assert_eq!(db.runs.len(), runs);
        }
        // No function ran twice in this revision.
        let mut runs = db.runs.clone();
        runs.sort_by_key(|key| key.to_code());
        runs.dedup();
        assert_eq!(runs.len(), db.runs.len());
        check_entries(&storage);
    }
}

#[test]
fn nothing_runs_when_nothing_changed() {
    let mut numbers = Numbers(7);
    let mut db = Database::new(&mut numbers);
    let mut storage: Storage<Database> = Storage::new();
    assert!(storage.declare(StorageFlavor::Input, CycleRecoveryStrategy::Panic).is_some());
    assert!(storage.declare(StorageFlavor::Memoized, CycleRecoveryStrategy::Panic).is_some());
    for id in 0..INPUTS {
        storage.set(input(id), id as u64);
    }
    let mut values = Vec::new();
    for id in 0..QUERIES {
        values.push(storage.fetch(&mut db, query(id)));
    }
    assert!(db.runs.len() <= QUERIES as usize);

    // The revision advances, and no input is set.
    assert!(storage.next_revision().is_some());
    assert!(storage.next_revision().is_some());
    db.runs.clear();
    for id in 0..QUERIES {
        assert_eq!(storage.fetch(&mut db, query(id)), values[id as usize]);
    }
    assert_eq!(db.runs, Vec::<DatabaseKeyIndex>::new());
    check_entries(&storage);
}

#[test]
fn a_long_chain_is_fetched_and_confirmed() {
    struct Chain;
    impl QueryContextStorageTypes for Chain {
        type Value = u64;
        type QueryDescriptor = DatabaseKeyIndex;
    }
    impl QueryContext for Chain {
        fn execute(
            &mut self,
            storage: &mut Storage<Self>,
            key: DatabaseKeyIndex,
        ) -> Result<u64, QueryError> {
            let id = key.key_index().as_u32();
            if id == 0 {
                Ok(storage.fetch(self, input(0))? / 2)
            } else {
                Ok(storage.fetch(self, query(id - 1))? + 1)
            }
        }
    }
    let mut db = Chain;
    let mut storage: Storage<Chain> = Storage::new();
    assert!(storage.declare(StorageFlavor::Input, CycleRecoveryStrategy::Panic).is_some());
    storage.set(input(0), 10);
    assert_eq!(storage.fetch(&mut db, query(500)), Ok(505));
    storage.set(input(0), 11);
    assert_eq!(storage.fetch(&mut db, query(500)), Ok(505));
    let top = storage.query_store().get(query(500)).unwrap();
    assert_eq!(top.changed_at.as_u64(), 2);
    assert_eq!(top.verified_at.as_u64(), 3);
    storage.set(input(0), 12);
    assert_eq!(storage.fetch(&mut db, query(500)), Ok(506));
    assert_eq!(storage.query_store().get(query(500)).unwrap().changed_at.as_u64(), 4);
}
