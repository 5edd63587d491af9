//! The durable byte store: an append-only journal of writes keyed by storage
//! path, where the last write to a path wins. Different files proceed
//! independently; concurrent writers to the same path are not coordinated —
//! last-writer-wins is the stated model.

use vstd::prelude::*;

verus! {

/// One durable write: a storage path and the bytes put there.
pub struct StorageEntry {
    pub path: String,
    pub data: Vec<u8>,
}

/// Ghost view of a [`StorageEntry`].
pub ghost struct EntryV {
    pub path: Seq<char>,
    pub data: Seq<u8>,
}

impl View for StorageEntry {
    type V = EntryV;

    open spec fn view(&self) -> EntryV {
        EntryV { path: self.path@, data: self.data@ }
    }
}

/// What a path holds: the bytes of the latest write to it, if any.
pub open spec fn lookup(entries: Seq<EntryV>, path: Seq<char>) -> Option<Seq<u8>>
    decreases entries.len(),
{
    if entries.len() == 0 {
        None
    } else if entries.last().path == path {
        Some(entries.last().data)
    } else {
        lookup(entries.drop_last(), path)
    }
}

/// How one write changes what every path holds: the written path now holds
/// the new bytes, every other path is untouched.
pub proof fn lemma_lookup_push(entries: Seq<EntryV>, e: EntryV, path: Seq<char>)
    ensures
        lookup(entries.push(e), path) == if e.path == path {
            Some(e.data)
        } else {
            lookup(entries, path)
        },
{
    assert(entries.push(e).drop_last() =~= entries);
    assert(entries.push(e).last() == e);
}

/// The byte store.
pub struct Storage {
    pub entries: Vec<StorageEntry>,
}

impl View for Storage {
    type V = Seq<EntryV>;

    open spec fn view(&self) -> Seq<EntryV> {
        self.entries@.map_values(|e: StorageEntry| e@)
    }
}

impl Storage {
    /// An empty store.
    pub fn new() -> (s: Storage)
        ensures
            s@ == Seq::<EntryV>::empty(),
    {
        let s = Storage { entries: Vec::new() };
        proof {
            assert(s@ =~= Seq::<EntryV>::empty());
        }
        s
    }

    /// Durably writes bytes at a path; a later write to the same path
    /// supersedes an earlier one.
    pub fn write(&mut self, path: String, data: Vec<u8>)
        ensures
            final(self)@ == old(self)@.push(EntryV { path: path@, data: data@ }),
            lookup(final(self)@, path@) == Some(data@),
    {
        let ghost e = EntryV { path: path@, data: data@ };
        self.entries.push(StorageEntry { path, data });
        proof {
            assert(self@ =~= old(self)@.push(e));
            assert(self@.last() == e);
        }
    }

    /// Reads the bytes a path holds, or `None` when nothing was ever
    /// written there.
    pub fn read(&self, path: &String) -> (r: Option<Vec<u8>>)
        ensures
            match r {
                Some(data) => lookup(self@, path@) == Some(data@),
                None => lookup(self@, path@) is None,
            },
    {
        let n = self.entries.len();
        let mut i: usize = n;
        proof {
            assert(self@.take(n as int) =~= self@);
        }
        while i > 0
            invariant
                0 <= i <= n,
                n == self.entries.len(),
                lookup(self@, path@) == lookup(self@.take(i as int), path@),
            decreases i,
        {
            let j = i - 1;
            if self.entries[j].path == *path {
                proof {
                    assert(self@.take(i as int).last() == self@[j as int]);
                }
                return Some(self.entries[j].data.clone());
            }
            proof {
                assert(self@.take(i as int).last() == self@[j as int]);
                assert(self@.take(i as int).drop_last() =~= self@.take(j as int));
            }
            i = j;
        }
        proof {
            assert(self@.take(0) =~= Seq::<EntryV>::empty());
        }
        None
    }
}

} // verus!
