//! The namespaces under which the ledger's collections are persisted.

use vstd::prelude::*;

verus! {

/// One namespace per persisted collection. The first seven were used by
/// earlier layouts and are never handed out again, so that a collection of
/// the current layout cannot alias what an earlier one left behind.
#[derive(Clone, Copy, PartialEq, Eq, Structural, Debug)]
pub enum StorageKey {
    _Dep0,
    _Dep1,
    _Dep2,
    _Dep3,
    _Dep4,
    _Dep5,
    _Dep6,
    ApprovedCodehashes,
    CoordinatorByAccountId,
    Proposals,
    RegisteredWorkers,
}

impl StorageKey {
    /// The position of the namespace in the declaration, from 0.
    pub open spec fn ordinal_of(self) -> u8 {
        match self {
            StorageKey::_Dep0 => 0,
            StorageKey::_Dep1 => 1,
            StorageKey::_Dep2 => 2,
            StorageKey::_Dep3 => 3,
            StorageKey::_Dep4 => 4,
            StorageKey::_Dep5 => 5,
            StorageKey::_Dep6 => 6,
            StorageKey::ApprovedCodehashes => 7,
            StorageKey::CoordinatorByAccountId => 8,
            StorageKey::Proposals => 9,
            StorageKey::RegisteredWorkers => 10,
        }
    }

    /// Whether the namespace belongs to an earlier layout.
    pub open spec fn is_retired(self) -> bool {
        self.ordinal_of() < 7
    }

    /// The position of the namespace in the declaration, from 0.
    pub fn ordinal(&self) -> (n: u8)
        ensures
            n == self.ordinal_of(),
    {
        match self {
            StorageKey::_Dep0 => 0,
            StorageKey::_Dep1 => 1,
            StorageKey::_Dep2 => 2,
            StorageKey::_Dep3 => 3,
            StorageKey::_Dep4 => 4,
            StorageKey::_Dep5 => 5,
            StorageKey::_Dep6 => 6,
            StorageKey::ApprovedCodehashes => 7,
            StorageKey::CoordinatorByAccountId => 8,
            StorageKey::Proposals => 9,
            StorageKey::RegisteredWorkers => 10,
        }
    }

    /// The prefix of every storage key in the namespace: one byte, the
    /// ordinal.
    pub fn storage_prefix(&self) -> (prefix: Vec<u8>)
        ensures
            prefix@ == seq![self.ordinal_of()],
    {
        let mut prefix: Vec<u8> = Vec::new();
        prefix.push(self.ordinal());
        assert(prefix@ =~= seq![self.ordinal_of()]);
        prefix
    }

    /// Different namespaces have different prefixes.
    pub proof fn lemma_namespaces_are_disjoint(a: StorageKey, b: StorageKey)
        ensures
            a.ordinal_of() == b.ordinal_of() ==> a == b,
            a.ordinal_of() <= 10,
    {
    }
}

} // verus!
