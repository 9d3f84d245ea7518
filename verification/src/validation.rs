//! Checks that run the invariants: for a ledger or a directory that was
//! put together from stored parts rather than grown by its operations.

use crate::coordinator::CoordinatorContract;
use crate::hasher::hash;
use crate::registry::RegistryContract;
use crate::types::{Proposal, ProposalState};
use vstd::prelude::*;

verus! {

/// Whether no text occurs twice in `list`.
pub fn texts_distinct(list: &Vec<String>) -> (ok: bool)
    ensures
        ok == list.deep_view().no_duplicates(),
{
    let ghost keys = list.deep_view();
    let mut i: usize = 0;
    while i < list.len()
        invariant
            i <= list.len(),
            keys == list.deep_view(),
            forall|a: int, b: int| 0 <= a < b < i ==> keys[a] != keys[b],
        decreases list.len() - i,
    {
        let mut j: usize = 0;
        while j < i
            invariant
                j <= i < list.len(),
                keys == list.deep_view(),
                forall|a: int| 0 <= a < j ==> keys[a] != keys[i as int],
            decreases i - j,
        {
            if list[j] == list[i] {
                assert(keys[j as int] == keys[i as int]);
                return false;
            }
            j += 1;
        }
        i += 1;
    }
    assert forall|a: int, b: int| 0 <= a < keys.len() && 0 <= b < keys.len() && a != b implies keys[a]
        != keys[b] by {
        if a < b {
        } else {
            assert(keys[b] != keys[a]);
        }
    }
    true
}

/// Whether `proposal` is a valid record: no submissions while it is
/// `Created`, no worker twice, a result exactly when it is `Finalized`, and
/// the fingerprint of its configuration.
pub fn proposal_is_valid(proposal: &Proposal) -> (ok: bool)
    ensures
        ok == proposal@.valid(),
{
    if proposal.state == ProposalState::Created && proposal.worker_submissions.len() > 0 {
        return false;
    }
    if proposal.finalized_result.is_some() != (proposal.state == ProposalState::Finalized) {
        return false;
    }
    if hash(proposal.task_config.as_str()) != proposal.config_hash {
        return false;
    }
    let mut ids: Vec<String> = Vec::new();
    let mut i: usize = 0;
    while i < proposal.worker_submissions.len()
        invariant
            i <= proposal.worker_submissions.len(),
            ids.len() == i,
            forall|j: int| 0 <= j < i ==> ids[j]@ == proposal@.worker_submissions[j].worker_id,
        decreases proposal.worker_submissions.len() - i,
    {
        ids.push(proposal.worker_submissions[i].worker_id.clone());
        i += 1;
    }
    let ok = texts_distinct(&ids);
    proof {
        let keys = ids.deep_view();
        let subs = proposal@.worker_submissions;
        assert(keys.len() == subs.len());
        assert forall|j: int| 0 <= j < keys.len() implies keys[j] == (#[trigger] subs[j]).worker_id by {}
        if ok {
            assert forall|a: int, b: int| 0 <= a < b < subs.len() implies (
            #[trigger] subs[a]).worker_id != (#[trigger] subs[b]).worker_id by {
                assert(keys[a] != keys[b]);
            }
        } else {
            let (a, b) = choose|a: int, b: int|
                0 <= a < keys.len() && 0 <= b < keys.len() && a != b && keys[a] == keys[b];
            if a < b {
                assert(subs[a].worker_id == subs[b].worker_id);
            } else {
                assert(subs[b].worker_id == subs[a].worker_id);
            }
        }
    }
    ok
}

impl CoordinatorContract {
    /// Whether the ledger's invariant holds.
    pub fn is_well_formed(&self) -> (ok: bool)
        ensures
            ok == self.wf(),
    {
        if !texts_distinct(&self.approved_codehashes) {
            return false;
        }
        let mut accounts: Vec<String> = Vec::new();
        let mut i: usize = 0;
        while i < self.coordinator_by_account_id.len()
            invariant
                i <= self.coordinator_by_account_id.len(),
                accounts.len() == i,
                forall|j: int| 0 <= j < i ==> accounts[j]@ == self@.coordinator_accounts()[j],
            decreases self.coordinator_by_account_id.len() - i,
        {
            accounts.push(self.coordinator_by_account_id[i].0.clone());
            i += 1;
        }
        assert(accounts.deep_view() =~= self@.coordinator_accounts());
        if !texts_distinct(&accounts) {
            return false;
        }
        let mut workers: Vec<String> = Vec::new();
        let mut i: usize = 0;
        while i < self.registered_workers.len()
            invariant
                i <= self.registered_workers.len(),
                workers.len() == i,
                forall|j: int| 0 <= j < i ==> workers[j]@ == self@.worker_ids()[j],
            decreases self.registered_workers.len() - i,
        {
            workers.push(self.registered_workers[i].worker_id.clone());
            i += 1;
        }
        assert(workers.deep_view() =~= self@.worker_ids());
        if !texts_distinct(&workers) {
            return false;
        }
        if let Some(m) = &self.manifesto {
            if hash(m.text.as_str()) != m.hash {
                return false;
            }
        }
        let ghost stored = self@.proposals;
        let mut i: usize = 0;
        while i < self.proposals.len()
            invariant
                i <= self.proposals.len(),
                stored == self@.proposals,
                forall|a: int, b: int|
                    0 <= a < b < i ==> (#[trigger] stored[a]).0 < (#[trigger] stored[b]).0,
                forall|a: int|
                    0 <= a < i ==> {
                        &&& 1 <= (#[trigger] stored[a]).0 <= self.current_proposal_id
                        &&& stored[a].1.valid()
                    },
            decreases self.proposals.len() - i,
        {
            let id = self.proposals[i].0;
            if id < 1 || id > self.current_proposal_id {
                assert(!(1 <= stored[i as int].0 <= self.current_proposal_id));
                return false;
            }
            if i > 0 && self.proposals[i - 1].0 >= id {
                assert(!(stored[i - 1].0 < stored[i as int].0));
                return false;
            }
            if !proposal_is_valid(&self.proposals[i].1) {
                assert(!stored[i as int].1.valid());
                return false;
            }
            assert forall|a: int, b: int| 0 <= a < b < i + 1 implies (#[trigger] stored[a]).0 < (
            #[trigger] stored[b]).0 by {
                if b == i && a < i - 1 {
                    assert(stored[a].0 < stored[i - 1].0);
                }
            }
            i += 1;
        }
        true
    }
}

impl RegistryContract {
    /// Whether the directory's invariant holds.
    pub fn is_well_formed(&self) -> (ok: bool)
        ensures
            ok == self.wf(),
    {
        let mut names: Vec<String> = Vec::new();
        let mut i: usize = 0;
        while i < self.coordinators.len()
            invariant
                i <= self.coordinators.len(),
                names.len() == i,
                forall|j: int| 0 <= j < i ==> names[j]@ == self@.coordinator_names()[j],
            decreases self.coordinators.len() - i,
        {
            names.push(self.coordinators[i].coordinator_id.clone());
            i += 1;
        }
        assert(names.deep_view() =~= self@.coordinator_names());
        if !texts_distinct(&names) {
            return false;
        }
        let mut ids: Vec<String> = Vec::new();
        let mut i: usize = 0;
        while i < self.workers.len()
            invariant
                i <= self.workers.len(),
                ids.len() == i,
                forall|j: int| 0 <= j < i ==> ids[j]@ == self@.worker_ids()[j],
            decreases self.workers.len() - i,
        {
            ids.push(self.workers[i].worker_id.clone());
            i += 1;
        }
        assert(ids.deep_view() =~= self@.worker_ids());
        texts_distinct(&ids)
    }
}

} // verus!
