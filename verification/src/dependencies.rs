//! Lists of database keys without repetition, in the order in which the keys were first
//! added. Dependency records and the stack of active queries are built on them.

use vstd::prelude::*;
use crate::key::DatabaseKeyIndex;

verus! {

/// `keys` with `key` added at the end, unless it is already there.
pub open spec fn push_unique(keys: Seq<DatabaseKeyIndex>, key: DatabaseKeyIndex) -> Seq<
    DatabaseKeyIndex,
> {
    if keys.contains(key) {
        keys
    } else {
        keys.push(key)
    }
}

/// `keys` with every key of `more` added in order, each unless it is already there.
pub open spec fn extend_unique(keys: Seq<DatabaseKeyIndex>, more: Seq<DatabaseKeyIndex>) -> Seq<
    DatabaseKeyIndex,
>
    decreases more.len(),
{
    if more.len() == 0 {
        keys
    } else {
        push_unique(extend_unique(keys, more.drop_last()), more.last())
    }
}

/// Adding a key keeps a list free of repetition, keeps what was there as a prefix, and
/// makes the key a member.
pub proof fn lemma_push_unique(keys: Seq<DatabaseKeyIndex>, key: DatabaseKeyIndex)
    requires
        keys.no_duplicates(),
    ensures
        push_unique(keys, key).no_duplicates(),
        keys.is_prefix_of(push_unique(keys, key)),
        push_unique(keys, key).contains(key),
        forall|other: DatabaseKeyIndex|
            push_unique(keys, key).contains(other) <==> (keys.contains(other) || other == key),
{
    let added = push_unique(keys, key);
    if !keys.contains(key) {
        assert(added[keys.len() as int] == key);
        assert forall|other: DatabaseKeyIndex| added.contains(other) implies (keys.contains(other)
            || other == key) by {
            let i = choose|i: int| 0 <= i < added.len() && added[i] == other;
            if i < keys.len() {
                assert(keys[i] == other);
            }
        }
        assert forall|other: DatabaseKeyIndex| keys.contains(other) implies added.contains(
            other,
        ) by {
            let i = choose|i: int| 0 <= i < keys.len() && keys[i] == other;
            assert(added[i] == other);
        }
    }
}

/// Adding several keys keeps a list free of repetition, keeps what was there as a prefix,
/// and makes exactly the old and the added keys members.
pub proof fn lemma_extend_unique(keys: Seq<DatabaseKeyIndex>, more: Seq<DatabaseKeyIndex>)
    requires
        keys.no_duplicates(),
    ensures
        extend_unique(keys, more).no_duplicates(),
        keys.is_prefix_of(extend_unique(keys, more)),
        forall|other: DatabaseKeyIndex|
            extend_unique(keys, more).contains(other) <==> (keys.contains(other) || more.contains(
                other,
            )),
    decreases more.len(),
{
    if more.len() > 0 {
        let shorter = more.drop_last();
        let before = extend_unique(keys, shorter);
        lemma_extend_unique(keys, shorter);
        lemma_push_unique(before, more.last());
        assert forall|other: DatabaseKeyIndex| more.contains(other) <==> (shorter.contains(other)
            || other == more.last()) by {
            if more.contains(other) {
                let i = choose|i: int| 0 <= i < more.len() && more[i] == other;
                if i < shorter.len() {
                    assert(shorter[i] == other);
                }
            }
            if shorter.contains(other) {
                let i = choose|i: int| 0 <= i < shorter.len() && shorter[i] == other;
                assert(more[i] == other);
            }
            if other == more.last() {
                assert(more[more.len() - 1] == other);
            }
        }
    }
}

/// The position of `key` in `keys`, if it is there.
pub fn position(keys: &Vec<DatabaseKeyIndex>, key: DatabaseKeyIndex) -> (at: Option<usize>)
    ensures
        match at {
            Some(i) => i < keys@.len() && keys@[i as int] == key && forall|j: int|
                0 <= j < i ==> keys@[j] != key,
            None => !keys@.contains(key),
        },
{
    let mut i: usize = 0;
    while i < keys.len()
        invariant
            i <= keys@.len(),
            forall|j: int| 0 <= j < i ==> keys@[j] != key,
        decreases keys@.len() - i,
    {
        if keys[i] == key {
            return Some(i);
        }
        i += 1;
    }
    None
}

/// Whether `key` is in `keys`.
pub fn contains(keys: &Vec<DatabaseKeyIndex>, key: DatabaseKeyIndex) -> (found: bool)
    ensures
        found == keys@.contains(key),
{
    position(keys, key).is_some()
}

/// Adds `key` at the end of `keys` unless it is already there.
pub fn add_unique(keys: &mut Vec<DatabaseKeyIndex>, key: DatabaseKeyIndex)
    ensures
        final(keys)@ == push_unique(old(keys)@, key),
{
    if !contains(keys, key) {
        keys.push(key);
    }
}

/// Adds every key of `more` to `keys`, in order, each unless it is already there.
pub fn add_all_unique(keys: &mut Vec<DatabaseKeyIndex>, more: &Vec<DatabaseKeyIndex>)
    ensures
        final(keys)@ == extend_unique(old(keys)@, more@),
{
    let mut i: usize = 0;
    while i < more.len()
        invariant
            i <= more@.len(),
            keys@ == extend_unique(old(keys)@, more@.take(i as int)),
        decreases more@.len() - i,
    {
        assert(more@.take(i + 1).drop_last() == more@.take(i as int));
        add_unique(keys, more[i]);
        i += 1;
    }
    assert(more@.take(i as int) == more@);
}

/// `keys` in the opposite order.
pub open spec fn reversed(keys: Seq<DatabaseKeyIndex>) -> Seq<DatabaseKeyIndex> {
    Seq::new(keys.len(), |i: int| keys[keys.len() - 1 - i])
}

/// Adds the keys of `more` at the end of `keys`, the last of them first.
pub fn add_reversed(keys: &mut Vec<DatabaseKeyIndex>, more: &Vec<DatabaseKeyIndex>)
    ensures
        final(keys)@ == old(keys)@ + reversed(more@),
{
    let mut i: usize = more.len();
    while i > 0
        invariant
            i <= more@.len(),
            keys@ == old(keys)@ + reversed(more@).take(more@.len() - i),
        decreases i,
    {
        i -= 1;
        keys.push(more[i]);
        assert(reversed(more@).take(more@.len() - i) == reversed(more@).take(
            more@.len() - i - 1,
        ).push(more@[i as int]));
    }
    assert(reversed(more@).take(more@.len() as int) == reversed(more@));
}

/// A copy of `keys`.
pub fn copy_keys(keys: &Vec<DatabaseKeyIndex>) -> (copy: Vec<DatabaseKeyIndex>)
    ensures
        copy@ == keys@,
{
    let mut copy: Vec<DatabaseKeyIndex> = Vec::new();
    let mut i: usize = 0;
    while i < keys.len()
        invariant
            i <= keys@.len(),
            copy@ == keys@.take(i as int),
        decreases keys@.len() - i,
    {
        copy.push(keys[i]);
        assert(keys@.take(i + 1) == keys@.take(i as int).push(keys@[i as int]));
        i += 1;
    }
    assert(keys@.take(i as int) == keys@);
    copy
}

} // verus!
