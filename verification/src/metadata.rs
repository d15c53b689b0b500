use vstd::prelude::*;

verus! {

use crate::kv::{kv_map, keys_distinct, lemma_kv_map_dom, lemma_kv_map_index, lemma_kv_map_push,
    lemma_kv_map_update, lemma_keys_distinct_push, lemma_keys_distinct_update};
use crate::strutil::str_eq;

/// A string-to-string map with unique keys, kept as a vector of pairs.
/// Services and instances carry one for free-form annotations.
pub struct Metadata {
    entries: Vec<(String, String)>,
}

impl Metadata {
    /// The entries as character sequences, in insertion order.
    pub closed spec fn kv_entries(self) -> Seq<(Seq<char>, Seq<char>)> {
        self.entries@.map_values(|e: (String, String)| (e.0@, e.1@))
    }

    /// No two entries share a key.
    pub open spec fn wf(self) -> bool {
        keys_distinct(self.kv_entries())
    }

    /// An empty map.
    pub fn new() -> (r: Metadata)
        ensures
            r@ == Map::<Seq<char>, Seq<char>>::empty(),
            r.wf(),
    {
        let r = Metadata { entries: Vec::new() };
        proof {
            assert(r.kv_entries() =~= Seq::<(Seq<char>, Seq<char>)>::empty());
        }
        r
    }

    /// How many keys the map holds.
    pub fn len(&self) -> (n: usize)
        requires
            self.wf(),
        ensures
            n == self@.len(),
    {
        proof {
            crate::kv::lemma_kv_map_len(self.kv_entries());
        }
        self.entries.len()
    }

    /// The index of the entry carrying `key`, if any.
    fn find(&self, key: &str) -> (r: Option<usize>)
        ensures
            match r {
                Some(i) => i < self.kv_entries().len() && self.kv_entries()[i as int].0 == key@,
                None => forall|i: int|
                    0 <= i < self.kv_entries().len() ==> (#[trigger] self.kv_entries()[i]).0
                        != key@,
            },
    {
        let mut i: usize = 0;
        while i < self.entries.len()
            invariant
                0 <= i <= self.entries@.len(),
                self.kv_entries().len() == self.entries@.len(),
                forall|j: int|
                    0 <= j < i ==> (#[trigger] self.kv_entries()[j]).0 != key@,
            decreases self.entries@.len() - i,
        {
            if str_eq(self.entries[i].0.as_str(), key) {
                return Some(i);
            }
            i = i + 1;
        }
        None
    }

    /// Inserts or replaces the value at `key`.
    pub fn insert(&mut self, key: String, value: String)
        requires
            old(self).wf(),
        ensures
            final(self).wf(),
            final(self)@ == old(self)@.insert(key@, value@),
    {
        let ghost oldents = self.kv_entries();
        match self.find(key.as_str()) {
            Some(i) => {
                proof {
                    lemma_kv_map_update(oldents, i as int, value@);
                    lemma_keys_distinct_update(oldents, i as int, value@);
                }
                self.entries[i] = (key, value);
                proof {
                    assert(self.kv_entries() =~= oldents.update(
                        i as int,
                        (oldents[i as int].0, value@),
                    ));
                }
            },
            None => {
                proof {
                    lemma_kv_map_push(oldents, key@, value@);
                    lemma_keys_distinct_push(oldents, key@, value@);
                }
                self.entries.push((key, value));
                proof {
                    assert(self.kv_entries() =~= oldents.push((key@, value@)));
                }
            },
        }
    }

    /// The value at `key`, if any.
    pub fn get(&self, key: &str) -> (r: Option<&String>)
        requires
            self.wf(),
        ensures
            match r {
                Some(v) => self@.contains_key(key@) && self@[key@] == v@,
                None => !self@.contains_key(key@),
            },
    {
        proof {
            lemma_kv_map_dom(self.kv_entries(), key@);
        }
        match self.find(key) {
            Some(i) => {
                proof {
                    lemma_kv_map_index(self.kv_entries(), i as int);
                }
                Some(&self.entries[i].1)
            },
            None => None,
        }
    }

    /// The entries as a vector of pairs, for adapters that serialise
    /// the map.
    pub fn pairs(&self) -> (r: &Vec<(String, String)>)
        ensures
            r@.map_values(|e: (String, String)| (e.0@, e.1@)) == self.kv_entries(),
    {
        &self.entries
    }
}

impl View for Metadata {
    type V = Map<Seq<char>, Seq<char>>;

    closed spec fn view(&self) -> Map<Seq<char>, Seq<char>> {
        kv_map(self.kv_entries())
    }
}

impl Clone for Metadata {
    fn clone(&self) -> (r: Self)
        ensures
            r@ == self@,
            r.wf() <==> self.wf(),
            r.kv_entries() == self.kv_entries(),
    {
        let mut entries: Vec<(String, String)> = Vec::new();
        let mut i: usize = 0;
        while i < self.entries.len()
            invariant
                0 <= i <= self.entries@.len(),
                entries@.len() == i,
                forall|j: int|
                    0 <= j < i ==> (#[trigger] entries@[j]).0@ == self.entries@[j].0@
                        && entries@[j].1@ == self.entries@[j].1@,
            decreases self.entries@.len() - i,
        {
            let k = self.entries[i].0.clone();
            let v = self.entries[i].1.clone();
            entries.push((k, v));
            i = i + 1;
        }
        let r = Metadata { entries };
        proof {
            assert(r.kv_entries() =~= self.kv_entries());
        }
        r
    }
}

} // verus!
