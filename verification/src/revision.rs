//! The revision counter: the version number of the database.

use vstd::prelude::*;

verus! {

/// A value of the database's version counter.
///
/// Revisions start at one and only ever grow. Zero is never a revision, so that a
/// revision can always be told apart from "never".
#[derive(Clone, Copy, PartialEq, Eq, Structural, Debug, Hash)]
pub struct Revision {
    pub generation: u64,
}

impl Revision {
    /// A revision is well formed when it is not zero.
    pub open spec fn wf(self) -> bool {
        self.generation >= 1
    }

    /// The revision as a mathematical integer.
    pub open spec fn index(self) -> int {
        self.generation as int
    }

    /// The first revision of every database.
    pub fn start() -> (r: Revision)
        ensures
            r.wf(),
            r.generation == 1,
    {
        Revision { generation: 1 }
    }

    /// The revision with the given number, or `None` for zero.
    pub fn from_u64(generation: u64) -> (r: Option<Revision>)
        ensures
            generation == 0 ==> r.is_none(),
            generation != 0 ==> r == Some(Revision { generation }),
    {
        if generation == 0 {
            None
        } else {
            Some(Revision { generation })
        }
    }

    /// The number of this revision.
    pub fn as_u64(self) -> (g: u64)
        ensures
            g == self.generation,
    {
        self.generation
    }

    /// Whether another revision can follow this one in a `u64`.
    pub fn has_next(self) -> (b: bool)
        ensures
            b == (self.generation < u64::MAX),
    {
        self.generation < u64::MAX
    }

    /// The revision that follows this one.
    pub fn next(self) -> (r: Revision)
        requires
            self.generation < u64::MAX,
        ensures
            r.generation == self.generation + 1,
            r.wf(),
    {
        Revision { generation: self.generation + 1 }
    }

    /// Whether this revision is strictly later than `other`.
    pub fn is_after(self, other: Revision) -> (b: bool)
        ensures
            b == (self.generation > other.generation),
    {
        self.generation > other.generation
    }
}

} // verus!
