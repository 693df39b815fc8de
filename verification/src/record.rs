//! A record: a finite map from column names to cell values.

use crate::assoc::{
    distinct_keys, has_key, lemma_position_of_entry, lemma_put, lemma_same_map, lookup, position,
    put, same_map, within,
};
use crate::cell::{CellValue, CellView};
use crate::views::lemma_deep_view_push;
use vstd::prelude::*;
use vstd::std_specs::cmp::PartialEqSpecImpl;

verus! {

/// The mathematical value of a record: its entries in the order in which their
/// names were first set, no name twice.
pub type RecordView = Seq<(Seq<char>, CellView)>;

/// A mapping from column names to cell values.
///
/// Two records are equal where they hold the same values under the same
/// names, in whatever order.
#[derive(Debug)]
pub struct Record {
    entries: Vec<(String, CellValue)>,
}

impl View for Record {
    type V = RecordView;

    closed spec fn view(&self) -> RecordView {
        self.entries.deep_view()
    }
}

impl DeepView for Record {
    type V = RecordView;

    #[verifier::inline]
    open spec fn deep_view(&self) -> RecordView {
        self.view()
    }
}

impl Clone for Record {
    fn clone(&self) -> (r: Self)
        ensures
            r@ == self@,
    {
        proof {
            use_type_invariant(self);
        }
        let mut entries: Vec<(String, CellValue)> = Vec::new();
        let mut i: usize = 0;
        while i < self.entries.len()
            invariant
                i <= self.entries.len(),
                entries.deep_view() == self@.take(i as int),
            decreases self.entries.len() - i,
        {
            let entry = &self.entries[i];
            let copy = (entry.0.clone(), entry.1.clone());
            proof {
                lemma_deep_view_push(entries, copy);
                assert(self@.take(i + 1) =~= self@.take(i as int).push(self@[i as int]));
            }
            entries.push(copy);
            i += 1;
        }
        assert(self@.take(i as int) =~= self@);
        Record { entries }
    }
}

impl PartialEq for Record {
    fn eq(&self, other: &Record) -> (r: bool) {
        proof {
            use_type_invariant(self);
            use_type_invariant(other);
            lemma_same_map(self@, other@);
        }
        self.is_within(other) && other.is_within(self)
    }
}

impl PartialEqSpecImpl for Record {
    open spec fn obeys_eq_spec() -> bool {
        true
    }

    open spec fn eq_spec(&self, other: &Record) -> bool {
        same_map(self@, other@)
    }
}

impl Eq for Record {}

impl Record {
    /// What holds of every record: no name occurs twice.
    #[verifier::type_invariant]
    pub open spec fn well_formed(self) -> bool {
        distinct_keys(self@)
    }

    /// The record with no entry.
    pub fn new() -> (r: Self)
        ensures
            r@ == Seq::<(Seq<char>, CellView)>::empty(),
    {
        let r = Self { entries: Vec::new() };
        assert(r.entries.deep_view() =~= Seq::<(Seq<char>, CellView)>::empty());
        r
    }

    /// The number of entries.
    pub fn len(&self) -> (r: usize)
        ensures
            r == self@.len(),
    {
        self.entries.len()
    }

    /// Whether the record has no entry.
    pub fn is_empty(&self) -> (r: bool)
        ensures
            r == (self@.len() == 0),
    {
        self.entries.len() == 0
    }

    /// The entries, in the order of the view.
    pub fn entries(&self) -> (r: &Vec<(String, CellValue)>)
        ensures
            r.deep_view() == self@,
            distinct_keys(self@),
    {
        proof {
            use_type_invariant(self);
        }
        &self.entries
    }

    /// The position of the entry with the given name.
    fn find(&self, key: &String) -> (r: Option<usize>)
        ensures
            distinct_keys(self@),
            match r {
                Some(i) => i < self@.len() && position(self@, key@) == Some(i as int),
                None => !has_key(self@, key@),
            },
    {
        proof {
            use_type_invariant(self);
        }
        let mut i: usize = 0;
        while i < self.entries.len()
            invariant
                i <= self.entries.len(),
                distinct_keys(self@),
                forall|j: int| 0 <= j < i ==> (#[trigger] self@[j]).0 != key@,
            decreases self.entries.len() - i,
        {
            if self.entries[i].0 == *key {
                proof {
                    lemma_position_of_entry(self@, i as int);
                }
                return Some(i);
            }
            i += 1;
        }
        None
    }

    /// Whether every entry of this record is an entry of the other.
    fn is_within(&self, other: &Record) -> (r: bool)
        ensures
            r == within(self@, other@),
    {
        let mut i: usize = 0;
        while i < self.entries.len()
            invariant
                i <= self.entries.len(),
                forall|j: int|
                    0 <= j < i ==> lookup(other@, (#[trigger] self@[j]).0) == Some(self@[j].1),
            decreases self.entries.len() - i,
        {
            let same = match other.get(&self.entries[i].0) {
                Some(value) => value.same_as(&self.entries[i].1),
                None => false,
            };
            if !same {
                assert(lookup(other@, self@[i as int].0) != Some(self@[i as int].1));
                return false;
            }
            i += 1;
        }
        true
    }

    /// Whether the record has a value under the given name.
    pub fn contains_key(&self, key: &String) -> (r: bool)
        ensures
            r == has_key(self@, key@),
    {
        self.find(key).is_some()
    }

    /// The value under the given name.
    pub fn get(&self, key: &String) -> (r: Option<&CellValue>)
        ensures
            r.deep_view() == lookup(self@, key@),
    {
        match self.find(key) {
            Some(i) => Some(&self.entries[i].1),
            None => None,
        }
    }

    /// Sets the name to the value and hands back the value that stood there before.
    pub fn insert(&mut self, key: String, value: CellValue) -> (r: Option<CellValue>)
        ensures
            final(self)@ == put(old(self)@, key@, value@),
            r.deep_view() == lookup(old(self)@, key@),
    {
        let found = self.find(&key);
        proof {
            lemma_put(self@, key@, value@);
        }
        let mut entries: Vec<(String, CellValue)> = Vec::new();
        std::mem::swap(&mut entries, &mut self.entries);
        let r = match found {
            Some(i) => {
                let mut entry = (key, value);
                std::mem::swap(&mut entry, &mut entries[i]);
                Some(entry.1)
            },
            None => {
                entries.push((key, value));
                None
            },
        };
        assert(entries.deep_view() =~= put(old(self)@, key@, value@));
        self.entries = entries;
        r
    }
}

} // verus!
