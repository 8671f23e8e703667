//! The named counters of a run.

use vstd::prelude::*;
use crate::pairs::{
    distinct_keys,
    lemma_pairs_map_keys,
    lemma_pairs_map_len,
    lemma_pairs_map_push,
    lemma_pairs_map_update,
    lemma_pairs_map_value,
    pairs_map,
};

verus! {

/// The entries of a list of metrics, each name as its characters.
pub open spec fn entries_view(entries: Seq<(String, usize)>) -> Seq<(Seq<char>, usize)> {
    entries.map_values(|entry: (String, usize)| (entry.0@, entry.1))
}

/// Named counters of one run: a mapping from metric name to value, kept as
/// a list of entries in which no name occurs twice.
#[derive(Debug)]
pub struct Metrics {
    entries: Vec<(String, usize)>,
}

impl View for Metrics {
    type V = Map<Seq<char>, usize>;

    closed spec fn view(&self) -> Map<Seq<char>, usize> {
        pairs_map(entries_view(self.entries@))
    }
}

impl Metrics {
    #[verifier::type_invariant]
    spec fn well_formed(self) -> bool {
        distinct_keys(entries_view(self.entries@))
    }

    /// The empty mapping.
    pub fn new() -> (metrics: Metrics)
        ensures
            metrics@ == Map::<Seq<char>, usize>::empty(),
    {
        let metrics = Metrics { entries: Vec::new() };
        proof {
            assert(entries_view(metrics.entries@) =~= Seq::empty());
        }
        metrics
    }

    /// The place of `key` among `entries`, or their number where no entry
    /// carries it.
    fn position(entries: &Vec<(String, usize)>, key: &String) -> (at: usize)
        ensures
            at <= entries@.len(),
            at < entries@.len() ==> entries_view(entries@)[at as int].0 == key@,
            forall|j: int| 0 <= j < at ==> (#[trigger] entries_view(entries@)[j]).0 != key@,
    {
        let n = entries.len();
        let mut at: usize = 0;
        while at < n && entries[at].0 != *key
            invariant
                at <= n,
                n == entries@.len(),
                forall|j: int| 0 <= j < at ==> (#[trigger] entries_view(entries@)[j]).0 != key@,
            decreases n - at,
        {
            at += 1;
        }
        at
    }

    /// The value of `key`, if it has one.
    pub fn get(&self, key: &str) -> (value: Option<usize>)
        ensures
            value == if self@.contains_key(key@) {
                Some(self@[key@])
            } else {
                None
            },
    {
        proof {
            use_type_invariant(self);
        }
        let key = key.to_owned();
        let at = Metrics::position(&self.entries, &key);
        proof {
            lemma_pairs_map_keys(entries_view(self.entries@), key@);
            if at < self.entries@.len() {
                lemma_pairs_map_value(entries_view(self.entries@), at as int);
            }
        }
        if at < self.entries.len() {
            Some(self.entries[at].1)
        } else {
            None
        }
    }

    /// The number of metrics.
    pub fn len(&self) -> (n: usize)
        ensures
            self@.dom().finite(),
            n == self@.len(),
    {
        proof {
            use_type_invariant(self);
            lemma_pairs_map_len(entries_view(self.entries@));
        }
        self.entries.len()
    }

    /// The metrics as a list of name and value, each name once.
    pub fn entries(&self) -> (entries: &Vec<(String, usize)>)
        ensures
            distinct_keys(entries_view(entries@)),
            pairs_map(entries_view(entries@)) == self@,
    {
        proof {
            use_type_invariant(self);
        }
        &self.entries
    }

    /// Sets `key` to `value`, whether or not `key` had a value before.
    pub fn insert(&mut self, key: String, value: usize)
        ensures
            final(self)@ == old(self)@.insert(key@, value),
    {
        proof {
            use_type_invariant(&*self);
        }
        let mut entries: Vec<(String, usize)> = Vec::new();
        std::mem::swap(&mut entries, &mut self.entries);
        let ghost before = entries_view(entries@);
        let at = Metrics::position(&entries, &key);
        if at < entries.len() {
            proof {
                lemma_pairs_map_update(before, at as int, key@, value);
            }
            entries.set(at, (key, value));
            proof {
                assert(entries_view(entries@) =~= before.update(at as int, (key@, value)));
            }
        } else {
            proof {
                lemma_pairs_map_push(before, key@, value);
            }
            entries.push((key, value));
            proof {
                assert(entries_view(entries@) =~= before.push((key@, value)));
            }
        }
        self.entries = entries;
    }
}

} // verus!
