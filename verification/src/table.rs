//! The runtime table: a mapping from movie title to runtime in minutes,
//! built once from the grid region and read while showings are collected.
//! A title inserted again overwrites its earlier entry (last write wins).

use crate::text::bytes_eq;
use vstd::prelude::*;

verus! {

/// One entry of the runtime table.
pub struct Entry {
    pub title: Vec<u8>,
    pub minutes: u64,
}

/// The minutes recorded for a title: the value of the latest entry whose
/// title matches exactly, if any.
pub open spec fn spec_lookup(entries: Seq<Entry>, title: Seq<u8>) -> Option<u64>
    decreases entries.len(),
{
    if entries.len() == 0 {
        None
    } else if entries.last().title@ == title {
        Some(entries.last().minutes)
    } else {
        spec_lookup(entries.drop_last(), title)
    }
}

/// A mapping from movie title to runtime in minutes.
pub struct RuntimeTable {
    pub entries: Vec<Entry>,
}

impl RuntimeTable {
    /// An empty table, in which no title is known.
    pub fn new() -> (t: RuntimeTable)
        ensures
            t.entries@.len() == 0,
            forall|title: Seq<u8>| spec_lookup(t.entries@, title) is None,
    {
        RuntimeTable { entries: Vec::new() }
    }

    /// Record the runtime of a title, overwriting any earlier record.
    pub fn insert(&mut self, title: Vec<u8>, minutes: u64)
        ensures
            final (self).entries@ == old(self).entries@.push(Entry { title, minutes }),
            spec_lookup(final (self).entries@, title@) == Some(minutes),
            forall|other: Seq<u8>|
                other != title@ ==> spec_lookup(final (self).entries@, other) == spec_lookup(
                    old(self).entries@,
                    other,
                ),
    {
        self.entries.push(Entry { title, minutes });
        proof {
            assert forall|other: Seq<u8>| other != self.entries@.last().title@ implies spec_lookup(
                self.entries@,
                other,
            ) == spec_lookup(self.entries@.drop_last(), other) by {
                assert(self.entries@.drop_last() =~= old(self).entries@);
            }
            assert(self.entries@.drop_last() =~= old(self).entries@);
        }
    }

    /// The runtime recorded for a title, if any.
    pub fn lookup(&self, title: &Vec<u8>) -> (r: Option<u64>)
        ensures
            r == spec_lookup(self.entries@, title@),
    {
        let mut i: usize = self.entries.len();
        proof {
            assert(self.entries@.take(i as int) =~= self.entries@);
        }
        while i > 0
            invariant
                0 <= i <= self.entries@.len(),
                spec_lookup(self.entries@, title@) == spec_lookup(
                    self.entries@.take(i as int),
                    title@,
                ),
            decreases i,
        {
            i = i - 1;
            if bytes_eq(&self.entries[i].title, title) {
                proof {
                    assert(self.entries@.take(i + 1).last() == self.entries@[i as int]);
                }
                return Some(self.entries[i].minutes);
            }
            proof {
                assert(self.entries@.take(i + 1).last() == self.entries@[i as int]);
                assert(self.entries@.take(i + 1).drop_last() =~= self.entries@.take(i as int));
            }
        }
        None
    }
}

} // verus!
