//! Tables: entries with distinct text keys, kept in the order in which the
//! keys first came.

use vstd::prelude::*;
use crate::assoc::{
    find, has_key, keyed, lemma_first_is, lemma_upsert_unique, lemma_without_unique, lookup,
    unique_keys, upsert, without,
};

verus! {

/// Entries under distinct keys.
#[derive(Debug, PartialEq, Eq)]
pub struct Table<V: View> {
    entries: Vec<(String, V)>,
}

impl<V: View> View for Table<V> {
    type V = Seq<(Seq<char>, V::V)>;

    closed spec fn view(&self) -> Seq<(Seq<char>, V::V)> {
        keyed(self.entries@)
    }
}

impl<V: View> Table<V> {
    #[verifier::type_invariant]
    spec fn distinct(self) -> bool {
        unique_keys(keyed(self.entries@))
    }

    /// A table without entries.
    pub fn new() -> (table: Self)
        ensures
            table@ == Seq::<(Seq<char>, V::V)>::empty(),
    {
        let table = Table { entries: Vec::new() };
        assert(table@ =~= Seq::<(Seq<char>, V::V)>::empty());
        table
    }

    /// The number of entries.
    pub fn len(&self) -> (n: usize)
        ensures
            n == self@.len(),
            unique_keys(self@),
    {
        proof {
            use_type_invariant(self);
        }
        self.entries.len()
    }

    /// The key of entry `i`.
    pub fn key_at(&self, i: usize) -> (key: &String)
        requires
            i < self@.len(),
        ensures
            key@ == self@[i as int].0,
    {
        &self.entries[i].0
    }

    /// The value of entry `i`.
    pub fn value_at(&self, i: usize) -> (value: &V)
        requires
            i < self@.len(),
        ensures
            value@ == self@[i as int].1,
    {
        &self.entries[i].1
    }

    /// The value under `key`.
    pub fn get(&self, key: &str) -> (value: Option<&V>)
        ensures
            unique_keys(self@),
            match value {
                Some(v) => lookup(self@, key@) == Some(v@),
                None => lookup(self@, key@) is None,
            },
    {
        proof {
            use_type_invariant(self);
        }
        match find(&self.entries, key) {
            Some(i) => {
                proof {
                    lemma_first_is(self@, key@, i as int);
                }
                Some(&self.entries[i].1)
            },
            None => None,
        }
    }

    /// Puts `value` under `key`, in the place of what was there.
    pub fn put(&mut self, key: &str, value: V)
        ensures
            final(self)@ == upsert(old(self)@, key@, value@),
            unique_keys(final(self)@),
    {
        proof {
            use_type_invariant(&*self);
            lemma_upsert_unique(self@, key@, value@);
        }
        let ghost before = self@;
        let owned = key.to_owned();
        let mut entries: Vec<(String, V)> = Vec::new();
        assert(unique_keys(keyed(entries@)));
        core::mem::swap(&mut self.entries, &mut entries);
        match find(&entries, key) {
            Some(i) => {
                proof {
                    lemma_first_is(before, key@, i as int);
                }
                entries.set(i, (owned, value));
            },
            None => {
                entries.push((owned, value));
            },
        }
        assert(keyed(entries@) =~= upsert(before, key@, value@));
        self.entries = entries;
        assert(self@ =~= upsert(before, key@, value@));
    }

    /// Takes out the entry under `key`, and says whether there was one.
    pub fn remove(&mut self, key: &str) -> (removed: bool)
        ensures
            removed == has_key(old(self)@, key@),
            final(self)@ == without(old(self)@, key@),
            unique_keys(old(self)@),
            unique_keys(final(self)@),
    {
        proof {
            use_type_invariant(&*self);
            lemma_without_unique(self@, key@);
        }
        let ghost before = self@;
        match find(&self.entries, key) {
            Some(i) => {
                let mut entries: Vec<(String, V)> = Vec::new();
                assert(unique_keys(keyed(entries@)));
                core::mem::swap(&mut self.entries, &mut entries);
                proof {
                    lemma_first_is(before, key@, i as int);
                }
                let _ = entries.remove(i);
                assert(keyed(entries@) =~= without(before, key@));
                self.entries = entries;
                true
            },
            None => false,
        }
    }
}

} // verus!
