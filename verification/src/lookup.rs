//! Finding an entry by its key in a list that holds every key once.

use crate::model::{lemma_first_index, position};
use crate::registry::{CoordinatorEntry, WorkerEntry};
use crate::types::{Proposal, RegisteredWorker, Worker};
use vstd::prelude::*;

verus! {

/// An entry that is stored and found under a key.
pub trait Keyed {
    /// The key as callers hand it in.
    type Key;

    /// The key as contracts speak of it.
    type KeyView;

    /// The key of this entry.
    spec fn key_of(&self) -> Self::KeyView;

    /// What contracts make of a key that a caller hands in.
    spec fn view_of(key: &Self::Key) -> Self::KeyView;

    /// Whether this entry is stored under `key`.
    fn has_key(&self, key: &Self::Key) -> (yes: bool)
        ensures
            yes == (self.key_of() == Self::view_of(key)),
    ;
}

/// The keys of a list of entries, in the order of the entries.
pub open spec fn keys_of<T: Keyed>(list: Seq<T>) -> Seq<T::KeyView> {
    Seq::new(list.len(), |i: int| list[i].key_of())
}

/// The place of the first entry stored under `key`, if there is one.
pub fn find_first<T: Keyed>(list: &Vec<T>, key: &T::Key) -> (found: Option<usize>)
    ensures
        position(found) == keys_of(list@).index_of_first(T::view_of(key)),
        found is Some <==> keys_of(list@).contains(T::view_of(key)),
        found is Some ==> found->Some_0 < list.len(),
{
    let ghost keys = keys_of(list@);
    let ghost needle = T::view_of(key);
    let mut i: usize = 0;
    while i < list.len()
        invariant
            i <= list.len(),
            keys == keys_of(list@),
            needle == T::view_of(key),
            forall|j: int| 0 <= j < i ==> keys[j] != needle,
        decreases list.len() - i,
    {
        if list[i].has_key(key) {
            proof {
                lemma_first_index(keys, needle, i as int);
            }
            return Some(i);
        }
        i += 1;
    }
    proof {
        lemma_first_index(keys, needle, i as int);
    }
    None
}

impl Keyed for String {
    type Key = String;

    type KeyView = Seq<char>;

    open spec fn key_of(&self) -> Seq<char> {
        self@
    }

    open spec fn view_of(key: &String) -> Seq<char> {
        key@
    }

    fn has_key(&self, key: &String) -> (yes: bool) {
        *self == *key
    }
}

impl Keyed for (String, Worker) {
    type Key = String;

    type KeyView = Seq<char>;

    open spec fn key_of(&self) -> Seq<char> {
        self.0@
    }

    open spec fn view_of(key: &String) -> Seq<char> {
        key@
    }

    fn has_key(&self, key: &String) -> (yes: bool) {
        self.0 == *key
    }
}

impl Keyed for (u64, Proposal) {
    type Key = u64;

    type KeyView = u64;

    open spec fn key_of(&self) -> u64 {
        self.0
    }

    open spec fn view_of(key: &u64) -> u64 {
        *key
    }

    fn has_key(&self, key: &u64) -> (yes: bool) {
        self.0 == *key
    }
}

impl Keyed for RegisteredWorker {
    type Key = String;

    type KeyView = Seq<char>;

    open spec fn key_of(&self) -> Seq<char> {
        self.worker_id@
    }

    open spec fn view_of(key: &String) -> Seq<char> {
        key@
    }

    fn has_key(&self, key: &String) -> (yes: bool) {
        self.worker_id == *key
    }
}

impl Keyed for CoordinatorEntry {
    type Key = String;

    type KeyView = Seq<char>;

    open spec fn key_of(&self) -> Seq<char> {
        self.coordinator_id@
    }

    open spec fn view_of(key: &String) -> Seq<char> {
        key@
    }

    fn has_key(&self, key: &String) -> (yes: bool) {
        self.coordinator_id == *key
    }
}

impl Keyed for WorkerEntry {
    type Key = String;

    type KeyView = Seq<char>;

    open spec fn key_of(&self) -> Seq<char> {
        self.worker_id@
    }

    open spec fn view_of(key: &String) -> Seq<char> {
        key@
    }

    fn has_key(&self, key: &String) -> (yes: bool) {
        self.worker_id == *key
    }
}

} // verus!
