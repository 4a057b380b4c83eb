//! Counters keyed by byte strings, where an absent key counts as zero.

use crate::bytes::bytes_equal;
use vstd::prelude::*;

verus! {

/// The value that `counters` holds for `key`: zero where the key is absent.
pub open spec fn counter(counters: Map<Seq<u8>, u32>, key: Seq<u8>) -> u32 {
    if counters.dom().contains(key) {
        counters[key]
    } else {
        0
    }
}

/// The sum of all values of a finite map of counters.
pub open spec fn total(counters: Map<Seq<u8>, u32>) -> nat
    decreases counters.dom().len(),
    when counters.dom().finite()
{
    if counters.dom().len() == 0 {
        0
    } else {
        let key = counters.dom().choose();
        counters[key] as nat + total(counters.remove(key))
    }
}

/// The sum of an empty map of counters is zero.
pub proof fn lemma_total_empty()
    ensures
        total(Map::<Seq<u8>, u32>::empty()) == 0,
{
}

/// The sum splits into the value of any one key and the sum of the rest.
pub proof fn lemma_total_remove(counters: Map<Seq<u8>, u32>, key: Seq<u8>)
    requires
        counters.dom().finite(),
        counters.dom().contains(key),
    ensures
        total(counters) == counters[key] + total(counters.remove(key)),
    decreases counters.dom().len(),
{
    let chosen = counters.dom().choose();
    if chosen != key {
        lemma_total_remove(counters.remove(chosen), key);
        lemma_total_remove(counters.remove(key), chosen);
        assert(counters.remove(chosen).remove(key) =~= counters.remove(key).remove(chosen));
    }
}

/// Setting one counter changes the sum by the difference of its values.
pub proof fn lemma_total_insert(counters: Map<Seq<u8>, u32>, key: Seq<u8>, value: u32)
    requires
        counters.dom().finite(),
    ensures
        total(counters.insert(key, value)) == total(counters) - counter(counters, key) + value,
{
    let updated = counters.insert(key, value);
    lemma_total_remove(updated, key);
    if counters.dom().contains(key) {
        lemma_total_remove(counters, key);
        assert(updated.remove(key) =~= counters.remove(key));
    } else {
        assert(updated.remove(key) =~= counters);
    }
}

/// One counter with its key.
struct Entry {
    key: Vec<u8>,
    value: u32,
}

/// The map that a list of entries stands for: a later entry overrides an
/// earlier one with the same key.
spec fn map_of(entries: Seq<Entry>) -> Map<Seq<u8>, u32>
    decreases entries.len(),
{
    if entries.len() == 0 {
        Map::empty()
    } else {
        map_of(entries.drop_last()).insert(entries.last().key@, entries.last().value)
    }
}

/// Overwriting the value of the last entry that holds `key` sets the key's
/// counter.
proof fn lemma_map_of_update(entries: Seq<Entry>, at: int, updated: Entry)
    requires
        0 <= at < entries.len(),
        updated.key@ == entries[at].key@,
        forall|j: int| at < j < entries.len() ==> entries[j].key@ != updated.key@,
    ensures
        map_of(entries.update(at, updated)) == map_of(entries).insert(
            updated.key@,
            updated.value,
        ),
    decreases entries.len(),
{
    let after = entries.update(at, updated);
    if at == entries.len() - 1 {
        assert(after.drop_last() =~= entries.drop_last());
        assert(map_of(after) =~= map_of(entries).insert(updated.key@, updated.value));
    } else {
        lemma_map_of_update(entries.drop_last(), at, updated);
        assert(after.drop_last() =~= entries.drop_last().update(at, updated));
        assert(after.last() == entries.last());
        assert(map_of(after) =~= map_of(entries).insert(updated.key@, updated.value));
    }
}

/// A finite map from byte strings to 32-bit counters.
pub struct Counters {
    entries: Vec<Entry>,
}

impl View for Counters {
    type V = Map<Seq<u8>, u32>;

    closed spec fn view(&self) -> Map<Seq<u8>, u32> {
        map_of(self.entries@)
    }
}

impl Counters {
    /// The map in which every key counts as zero.
    pub fn new() -> (counters: Counters)
        ensures
            counters@ == Map::<Seq<u8>, u32>::empty(),
    {
        Counters { entries: Vec::new() }
    }

    /// The last entry that holds `key`, if there is one.
    fn position(&self, key: &[u8]) -> (at: Option<usize>)
        ensures
            match at {
                Some(i) => {
                    &&& i < self.entries@.len()
                    &&& self.entries@[i as int].key@ == key@
                    &&& forall|j: int| i < j < self.entries@.len() ==> self.entries@[j].key@ != key@
                    &&& self@.dom().contains(key@)
                    &&& self@[key@] == self.entries@[i as int].value
                },
                None => !self@.dom().contains(key@),
            },
    {
        let mut i: usize = self.entries.len();
        assert(self.entries@.take(i as int) =~= self.entries@);
        while i > 0
            invariant
                i <= self.entries@.len(),
                forall|j: int| i <= j < self.entries@.len() ==> self.entries@[j].key@ != key@,
                self@.dom().contains(key@) == map_of(self.entries@.take(i as int)).dom().contains(
                    key@,
                ),
                self@.dom().contains(key@) ==> self@[key@] == map_of(
                    self.entries@.take(i as int),
                )[key@],
            decreases i,
        {
            let ghost prefix = self.entries@.take(i as int);
            assert(prefix.drop_last() =~= self.entries@.take(i - 1));
            assert(prefix.last() == self.entries@[i - 1]);
            i -= 1;
            if bytes_equal(self.entries[i].key.as_slice(), key) {
                return Some(i);
            }
        }
        assert(self.entries@.take(0) =~= Seq::<Entry>::empty());
        None
    }

    /// The counter of `key`: zero where it was never set.
    pub fn get(&self, key: &[u8]) -> (value: u32)
        ensures
            value == counter(self@, key@),
    {
        match self.position(key) {
            Some(i) => self.entries[i].value,
            None => 0,
        }
    }

    /// Sets the counter of `key` and leaves every other counter as it is.
    pub fn set(&mut self, key: &[u8], value: u32)
        ensures
            final(self)@ == old(self)@.insert(key@, value),
    {
        match self.position(key) {
            Some(i) => {
                proof {
                    let updated = Entry { key: self.entries@[i as int].key, value };
                    lemma_map_of_update(self.entries@, i as int, updated);
                }
                self.entries[i].value = value;
                assert(self.entries@ =~= old(self).entries@.update(
                    i as int,
                    Entry { key: old(self).entries@[i as int].key, value },
                ));
            },
            None => {
                let entry = Entry { key: vstd::slice::slice_to_vec(key), value };
                self.entries.push(entry);
                assert(self.entries@.drop_last() =~= old(self).entries@);
            },
        }
    }
}

} // verus!
