//! The texture filename table: a lookup from small integer key to filename.
//!
//! Conceptually a file has exactly ten slots, keyed 0–9.  The table itself
//! admits any keys; on write the entries are walked in ascending key order,
//! only the first ten are emitted, and missing slots are padded with
//! all-zero records.  The table keeps its entries as an association list
//! sorted by strictly ascending key, which makes that ascending walk the
//! plain order of the list.

use vstd::prelude::*;

verus! {

/// The position at which `key` belongs in an entry list sorted by
/// ascending key: the index of the first entry whose key is not below it.
pub open spec fn insert_position(s: Seq<(i32, Vec<u8>)>, key: i32) -> int
    decreases s.len(),
{
    if s.len() == 0 {
        0
    } else if s[0].0 >= key {
        0
    } else {
        1 + insert_position(s.drop_first(), key)
    }
}

/// The filename a sorted entry list associates with `key`, if any.
pub open spec fn spec_get(s: Seq<(i32, Vec<u8>)>, key: i32) -> Option<Seq<u8>> {
    let p = insert_position(s, key);
    if p < s.len() && s[p].0 == key {
        Some(s[p].1@)
    } else {
        None
    }
}

/// The entry list after associating `key` with `name`: an existing entry
/// for the key is replaced, otherwise the pair enters at its sorted
/// position.
pub open spec fn spec_insert(s: Seq<(i32, Vec<u8>)>, key: i32, name: Vec<u8>) -> Seq<
    (i32, Vec<u8>),
> {
    let p = insert_position(s, key);
    if p < s.len() && s[p].0 == key {
        s.update(p, (key, name))
    } else {
        s.insert(p, (key, name))
    }
}

/// Mapping from integer key to texture filename, iterable in ascending key
/// order.  Filenames are raw bytes; the writer clips each to 30 bytes.
#[derive(Clone, Debug)]
pub struct TextureTable {
    pub entries: Vec<(i32, Vec<u8>)>,
}

impl TextureTable {
    /// The table's invariant: entry keys strictly ascend, so each key
    /// occurs at most once and the list order is the key order.
    pub open spec fn wf(&self) -> bool {
        forall|i: int, j: int|
            0 <= i < j < self.entries@.len() ==> self.entries@[i].0 < self.entries@[j].0
    }

    /// The filenames of the entries, in ascending key order.
    pub open spec fn names(&self) -> Seq<Seq<u8>> {
        self.entries@.map_values(|e: (i32, Vec<u8>)| e.1@)
    }

    /// Creates an empty table.
    pub fn new() -> (r: TextureTable)
        ensures
            r.wf(),
            r.entries@.len() == 0,
    {
        TextureTable { entries: Vec::new() }
    }

    /// Number of entries the table holds.
    pub fn len(&self) -> (r: usize)
        ensures
            r == self.entries@.len(),
    {
        self.entries.len()
    }

    /// Looks the filename for `key` up.
    pub fn get(&self, key: i32) -> (r: Option<&Vec<u8>>)
        requires
            self.wf(),
        ensures
            match r {
                Some(name) => spec_get(self.entries@, key) == Some(name@),
                None => spec_get(self.entries@, key) is None,
            },
    {
        let p = self.position_of(key);
        if p < self.entries.len() && self.entries[p].0 == key {
            Some(&self.entries[p].1)
        } else {
            None
        }
    }

    /// Associates `key` with `name`, replacing any existing entry for the
    /// key and keeping the list sorted.
    pub fn insert(&mut self, key: i32, name: Vec<u8>)
        requires
            old(self).wf(),
        ensures
            final(self).wf(),
            final(self).entries@ == spec_insert(old(self).entries@, key, name),
    {
        let p = self.position_of(key);
        if p < self.entries.len() && self.entries[p].0 == key {
            self.entries.remove(p);
            self.entries.insert(p, (key, name));
            proof {
                assert(self.entries@ =~= spec_insert(old(self).entries@, key, name));
            }
        } else {
            self.entries.insert(p, (key, name));
        }
        proof {
            let s = old(self).entries@;
            let pp = insert_position(s, key);
            lemma_insert_position_bounds(s, key);
            assert forall|i: int, j: int|
                0 <= i < j < self.entries@.len() implies self.entries@[i].0
                < self.entries@[j].0 by {
                lemma_insert_position_splits(s, key);
            }
        }
    }

    /// Finds the sorted position of `key`: the index of the first entry
    /// whose key is not below it.
    fn position_of(&self, key: i32) -> (p: usize)
        requires
            self.wf(),
        ensures
            p == insert_position(self.entries@, key),
            p <= self.entries@.len(),
    {
        let n = self.entries.len();
        let mut p: usize = 0;
        while p < n && self.entries[p].0 < key
            invariant
                self.wf(),
                n == self.entries@.len(),
                p <= n,
                forall|m: int| 0 <= m < p ==> self.entries@[m].0 < key,
            decreases n - p,
        {
            p = p + 1;
        }
        proof {
            lemma_insert_position_unique(self.entries@, key, p as int);
        }
        p
    }
}

/// The sorted position is within the list bounds.
pub proof fn lemma_insert_position_bounds(s: Seq<(i32, Vec<u8>)>, key: i32)
    ensures
        0 <= insert_position(s, key) <= s.len(),
    decreases s.len(),
{
    if s.len() > 0 && s[0].0 < key {
        lemma_insert_position_bounds(s.drop_first(), key);
    }
}

/// Every entry before the sorted position has a smaller key; the entry at
/// it, when one exists, does not.
pub proof fn lemma_insert_position_splits(s: Seq<(i32, Vec<u8>)>, key: i32)
    ensures
        forall|m: int| 0 <= m < insert_position(s, key) ==> s[m].0 < key,
        insert_position(s, key) < s.len() ==> s[insert_position(s, key)].0 >= key,
    decreases s.len(),
{
    if s.len() > 0 && s[0].0 < key {
        lemma_insert_position_splits(s.drop_first(), key);
        lemma_insert_position_bounds(s.drop_first(), key);
        let ip = insert_position(s, key);
        assert forall|m: int| 0 <= m < ip implies s[m].0 < key by {
            if m > 0 {
                assert(s.drop_first()[m - 1] == s[m]);
            }
        }
        if ip < s.len() {
            assert(s.drop_first()[ip - 1] == s[ip]);
        }
    }
}

/// A position with smaller keys strictly before it and no smaller key at
/// it is the sorted position.
pub proof fn lemma_insert_position_unique(s: Seq<(i32, Vec<u8>)>, key: i32, p: int)
    requires
        0 <= p <= s.len(),
        forall|m: int| 0 <= m < p ==> s[m].0 < key,
        p < s.len() ==> s[p].0 >= key,
    ensures
        insert_position(s, key) == p,
    decreases s.len(),
{
    if s.len() > 0 && s[0].0 < key {
        lemma_insert_position_unique(s.drop_first(), key, p - 1);
    }
}

} // verus!
