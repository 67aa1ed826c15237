//! A map whose keys are byte strings of one length.

use crate::bytes::same_bytes;
use vstd::prelude::*;

verus! {

/// The map that a list of entries stands for; of two entries under one key the later one counts.
pub open spec fn entries_map<const N: usize, V>(entries: Seq<([u8; N], V)>) -> Map<Seq<u8>, V>
    decreases entries.len(),
{
    if entries.len() == 0 {
        Map::empty()
    } else {
        entries_map(entries.drop_last()).insert(entries.last().0@, entries.last().1)
    }
}

/// A map from keys of `N` bytes.
#[derive(Debug)]
pub struct Table<const N: usize, V> {
    entries: Vec<([u8; N], V)>,
}

impl<const N: usize, V> View for Table<N, V> {
    type V = Map<Seq<u8>, V>;

    closed spec fn view(&self) -> Map<Seq<u8>, V> {
        entries_map(self.entries@)
    }
}

impl<const N: usize, V: Copy> Table<N, V> {
    pub fn new() -> (table: Self)
        ensures
            table@ == Map::<Seq<u8>, V>::empty(),
    {
        Table { entries: Vec::new() }
    }

    /// The value under `key`.
    pub fn get(&self, key: &[u8; N]) -> (value: Option<V>)
        ensures
            value == (if self@.contains_key(key@) {
                Some(self@[key@])
            } else {
                None
            }),
    {
        let mut i: usize = self.entries.len();
        assert(self.entries@.take(i as int) =~= self.entries@);
        while i > 0
            invariant
                i <= self.entries.len(),
                self@.contains_key(key@) == entries_map(self.entries@.take(i as int)).contains_key(
                    key@,
                ),
                self@.contains_key(key@) ==> self@[key@] == entries_map(
                    self.entries@.take(i as int),
                )[key@],
            decreases i,
        {
            assert(self.entries@.take(i as int).drop_last() =~= self.entries@.take(i - 1));
            i -= 1;
            if same_bytes(&self.entries[i].0, key) {
                return Some(self.entries[i].1);
            }
        }
        None
    }

    /// Forgets `key`.
    pub fn remove(&mut self, key: &[u8; N])
        ensures
            final(self)@ == old(self)@.remove(key@),
    {
        let mut kept: Vec<([u8; N], V)> = Vec::new();
        let mut i: usize = 0;
        assert(entries_map(kept@) =~= entries_map(self.entries@.take(0)).remove(key@));
        while i < self.entries.len()
            invariant
                i <= self.entries.len(),
                entries_map(kept@) == entries_map(self.entries@.take(i as int)).remove(key@),
            decreases self.entries.len() - i,
        {
            let ghost before = kept@;
            assert(self.entries@.take(i + 1).drop_last() =~= self.entries@.take(i as int));
            if !same_bytes(&self.entries[i].0, key) {
                kept.push(self.entries[i]);
                assert(kept@.drop_last() =~= before);
            }
            assert(entries_map(kept@) =~= entries_map(self.entries@.take(i + 1)).remove(key@));
            i += 1;
        }
        assert(self.entries@.take(i as int) =~= self.entries@);
        self.entries = kept;
    }

    /// Puts `value` under `key`, whatever was there before.
    pub fn set(&mut self, key: [u8; N], value: V)
        ensures
            final(self)@ == old(self)@.insert(key@, value),
    {
        self.remove(&key);
        let ghost before = self.entries@;
        self.entries.push((key, value));
        assert(self.entries@.drop_last() =~= before);
        assert(self@ =~= old(self)@.insert(key@, value));
    }

    /// Forgets every key.
    pub fn clear(&mut self)
        ensures
            final(self)@ == Map::<Seq<u8>, V>::empty(),
    {
        self.entries.clear();
    }
}

} // verus!
