//! The declarations of the queries: how each is stored and what it does when it is
//! caught in a cycle.

use vstd::prelude::*;
use crate::key::IngredientIndex;
use crate::value::QueryValue;

verus! {

/// How the results of a query are kept.
#[derive(Clone, Copy, PartialEq, Eq, Structural, Debug)]
pub enum StorageFlavor {
    /// The values are set from outside and never computed.
    Input,
    /// The value is cached and confirmed through the queries that were read.
    Memoized,
    /// The value is cached for the current revision only: in every new revision the
    /// query runs again.
    Volatile,
    /// Nothing is cached: the query runs on every call, and what it reads is charged
    /// to its caller.
    Transparent,
}

/// What a query does when it turns out to be part of a cycle.
#[derive(Clone, Debug, PartialEq, Eq)]
pub enum CycleRecoveryStrategy<V> {
    /// The cycle is an error, which is handed to the caller.
    Panic,
    /// The query takes this value.
    Fallback(V),
}

/// The declaration of one query.
#[derive(Clone, Debug, PartialEq, Eq)]
pub struct Ingredient<V> {
    pub flavor: StorageFlavor,
    pub recovery: CycleRecoveryStrategy<V>,
}

/// The flavor of the query `index` under the declarations `declared`. A query that was
/// not declared is memoized.
pub open spec fn flavor_of<V>(declared: Seq<Ingredient<V>>, index: IngredientIndex)
    -> StorageFlavor {
    if index.index < declared.len() {
        declared[index.index as int].flavor
    } else {
        StorageFlavor::Memoized
    }
}

/// What the query `index` does in a cycle under the declarations `declared`. For a
/// query that was not declared a cycle is an error.
pub open spec fn recovery_of<V>(declared: Seq<Ingredient<V>>, index: IngredientIndex)
    -> CycleRecoveryStrategy<V> {
    if index.index < declared.len() {
        declared[index.index as int].recovery
    } else {
        CycleRecoveryStrategy::Panic
    }
}

/// The declarations of all queries of a database, in the order of their indices.
pub struct GlobalStorage<V> {
    ingredients: Vec<Ingredient<V>>,
}

impl<V> View for GlobalStorage<V> {
    type V = Seq<Ingredient<V>>;

    closed spec fn view(&self) -> Seq<Ingredient<V>> {
        self.ingredients@
    }
}

impl<V: QueryValue> GlobalStorage<V> {
    /// No declarations.
    pub fn new() -> (global: GlobalStorage<V>)
        ensures
            global@ == Seq::<Ingredient<V>>::empty(),
    {
        GlobalStorage { ingredients: Vec::new() }
    }

    /// How many queries are declared.
    pub fn len(&self) -> (count: usize)
        ensures
            count == self@.len(),
    {
        self.ingredients.len()
    }

    /// Declares a query and returns its index: the number of queries declared before
    /// it. Returns `None`, and declares nothing, when the indices are used up.
    pub fn declare(&mut self, flavor: StorageFlavor, recovery: CycleRecoveryStrategy<V>) -> (index:
        Option<IngredientIndex>)
        ensures
            old(self)@.len() <= u32::MAX ==> index == Some(
                IngredientIndex { index: old(self)@.len() as u32 },
            ) && final(self)@ == old(self)@.push(Ingredient { flavor, recovery }),
            old(self)@.len() > u32::MAX ==> index.is_none() && final(self)@ == old(self)@,
    {
        let count = self.ingredients.len();
        if count > u32::MAX as usize {
            None
        } else {
            self.ingredients.push(Ingredient { flavor, recovery });
            Some(IngredientIndex { index: count as u32 })
        }
    }

    /// How the results of the query `index` are kept.
    pub fn flavor(&self, index: IngredientIndex) -> (flavor: StorageFlavor)
        ensures
            flavor == flavor_of(self@, index),
    {
        if (index.index as usize) < self.ingredients.len() {
            self.ingredients[index.index as usize].flavor
        } else {
            StorageFlavor::Memoized
        }
    }

    /// What the query `index` does in a cycle.
    pub fn recovery(&self, index: IngredientIndex) -> (recovery: CycleRecoveryStrategy<V>)
        ensures
            recovery == recovery_of(self@, index),
    {
        if (index.index as usize) < self.ingredients.len() {
            match &self.ingredients[index.index as usize].recovery {
                CycleRecoveryStrategy::Panic => CycleRecoveryStrategy::Panic,
                CycleRecoveryStrategy::Fallback(value) => CycleRecoveryStrategy::Fallback(
                    value.duplicate(),
                ),
            }
        } else {
            CycleRecoveryStrategy::Panic
        }
    }
}

} // verus!
