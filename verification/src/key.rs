//! How the engine names a query: an ingredient (which query function) and a key (which
//! argument), both plain integers.

use vstd::prelude::*;

verus! {

/// The tag of a query function, fixed when the query is declared.
#[derive(Clone, Copy, PartialEq, Eq, PartialOrd, Ord, Structural, Debug, Hash)]
pub struct IngredientIndex {
    pub index: u32,
}

impl IngredientIndex {
    pub fn new(index: u32) -> (i: IngredientIndex)
        ensures
            i.index == index,
    {
        IngredientIndex { index }
    }

    pub fn as_u32(self) -> (i: u32)
        ensures
            i == self.index,
    {
        self.index
    }
}

/// The key of one instance of a query: the interned argument the query is called with.
#[derive(Clone, Copy, PartialEq, Eq, PartialOrd, Ord, Structural, Debug, Hash)]
pub struct Id {
    pub value: u32,
}

impl Id {
    pub fn new(value: u32) -> (i: Id)
        ensures
            i.value == value,
    {
        Id { value }
    }

    pub fn as_u32(self) -> (i: u32)
        ensures
            i == self.value,
    {
        self.value
    }
}

/// A query together with its key. This is what dependency lists, the stack of active
/// queries and cycle reports are made of.
#[derive(Clone, Copy, PartialEq, Eq, PartialOrd, Ord, Structural, Debug, Hash)]
pub struct DatabaseKeyIndex {
    pub ingredient_index: IngredientIndex,
    pub key_index: Id,
}

/// The number of distinct database keys.
pub open spec fn key_space() -> int {
    0x1_0000_0000_0000_0000
}

impl DatabaseKeyIndex {
    pub fn new(ingredient_index: IngredientIndex, key_index: Id) -> (k: DatabaseKeyIndex)
        ensures
            k.ingredient_index == ingredient_index,
            k.key_index == key_index,
    {
        DatabaseKeyIndex { ingredient_index, key_index }
    }

    pub fn ingredient_index(self) -> (i: IngredientIndex)
        ensures
            i == self.ingredient_index,
    {
        self.ingredient_index
    }

    pub fn key_index(self) -> (i: Id)
        ensures
            i == self.key_index,
    {
        self.key_index
    }

    /// The key as one number: the ingredient in the upper half, the key in the lower.
    pub open spec fn code(self) -> int {
        self.ingredient_index.index * 0x1_0000_0000 + self.key_index.value
    }

    /// The database key that a code stands for.
    pub open spec fn decode(code: int) -> DatabaseKeyIndex {
        DatabaseKeyIndex {
            ingredient_index: IngredientIndex { index: (code / 0x1_0000_0000) as u32 },
            key_index: Id { value: (code % 0x1_0000_0000) as u32 },
        }
    }

    /// Codes and keys correspond one to one.
    pub proof fn lemma_code_bijective(self)
        ensures
            0 <= self.code() < key_space(),
            Self::decode(self.code()) == self,
    {
    }

    /// Two keys with the same code are the same key.
    pub proof fn lemma_code_injective(self, other: DatabaseKeyIndex)
        requires
            self.code() == other.code(),
        ensures
            self == other,
    {
        self.lemma_code_bijective();
        other.lemma_code_bijective();
    }

    /// Computes the code of this key.
    pub fn to_code(self) -> (c: u64)
        ensures
            c == self.code(),
    {
        let upper: u64 = self.ingredient_index.index as u64;
        let lower: u64 = self.key_index.value as u64;
        upper * 0x1_0000_0000 + lower
    }
}

} // verus!
