//! Read-only queries on the ledger.

use crate::coordinator::CoordinatorContract;
use crate::model::{active_only, cursor, first_items, ids_ascend, listed};
use crate::types::{
    clone_optional_text, clone_submissions, Proposal, ProposalState, RegisteredWorker,
    WorkerSubmission,
};
use vstd::prelude::*;

verus! {

impl CoordinatorContract {
    /// The proposal stored under `proposal_id`, if any.
    pub fn get_proposal(&self, proposal_id: u64) -> (out: Option<Proposal>)
        ensures
            out.deep_view() == self@.proposal(proposal_id),
    {
        match self.find_proposal(proposal_id) {
            Some(i) => Some(self.proposals[i].1.clone()),
            None => None,
        }
    }

    fn collect_page(&self, from: u64, limit: u64, state: Option<ProposalState>) -> (out: Vec<
        (u64, Proposal),
    >)
        ensures
            out.deep_view() == self@.page(from, limit, state),
            self.wf() ==> ids_ascend(out.deep_view()),
    {
        let mut out: Vec<(u64, Proposal)> = Vec::new();
        let mut i: usize = 0;
        let ghost wanted = listed(from, state);
        let ghost stored = self@.proposals;
        proof {
            assert(self@.proposals.take(0) =~= Seq::empty());
            reveal(Seq::filter);
            assert(out.deep_view() =~= Seq::empty());
        }
        while i < self.proposals.len()
            invariant
                i <= self.proposals.len(),
                wanted == listed(from, state),
                out.deep_view() == first_items(
                    self@.proposals.take(i as int).filter(wanted),
                    limit,
                ),
                out.len() <= self@.proposals.take(i as int).filter(wanted).len() <= i,
                stored == self@.proposals,
                self.wf() ==> ids_ascend(out.deep_view()),
                self.wf() ==> forall|a: int, k: int|
                    0 <= a < out.len() && i <= k < stored.len() ==> (
                    #[trigger] out.deep_view()[a]).0 < (#[trigger] stored[k]).0,
            decreases self.proposals.len() - i,
        {
            let ghost seen = self@.proposals.take(i as int);
            let ghost shown = out.deep_view();
            let in_state = match state {
                Some(s) => self.proposals[i].1.state == s,
                None => true,
            };
            let hit = self.proposals[i].0 >= from && in_state;
            let room = (out.len() as u64) < limit;
            if hit && room {
                out.push((self.proposals[i].0, self.proposals[i].1.clone()));
            }
            proof {
                let item = self@.proposals[i as int];
                assert(self@.proposals.take(i + 1) =~= seen.push(item));
                seen.lemma_filter_push(item, wanted);
                assert(wanted(item) == hit);
                if hit && room {
                    assert(out.deep_view() =~= shown.push(item));
                }
                assert(out.deep_view() =~= first_items(seen.push(item).filter(wanted), limit));
                if self.wf() {
                    assert forall|a: int, k: int|
                        0 <= a < out.len() && i + 1 <= k < stored.len() implies (
                    #[trigger] out.deep_view()[a]).0 < (#[trigger] stored[k]).0 by {
                        if a < shown.len() {
                            assert(shown[a].0 < stored[k].0);
                        } else {
                            assert(stored[i as int].0 < stored[k].0);
                        }
                    }
                    assert forall|a: int, b: int| 0 <= a < b < out.len() implies (
                    #[trigger] out.deep_view()[a]).0 < (#[trigger] out.deep_view()[b]).0 by {
                        if b < shown.len() {
                            assert(shown[a].0 < shown[b].0);
                        } else {
                            assert(shown[a].0 < stored[i as int].0);
                        }
                    }
                }
            }
            i += 1;
        }
        assert(self@.proposals.take(i as int) =~= self@.proposals);
        out
    }

    /// The proposals with an id of at least `from_index` (the lowest, if
    /// none is given), in ascending order of id, at most `limit` of them
    /// (all, if none is given).
    pub fn get_all_proposals(&self, from_index: &Option<u64>, limit: &Option<u64>) -> (out: Vec<
        (u64, Proposal),
    >)
        ensures
            out.deep_view() == self@.page(cursor(*from_index), self@.page_size(*limit), None),
            self.wf() ==> ids_ascend(out.deep_view()),
    {
        let from: u64 = match from_index {
            Some(f) => *f,
            None => 0,
        };
        let count: u64 = match limit {
            Some(n) => *n,
            None => self.proposals.len() as u64,
        };
        self.collect_page(from, count, None)
    }

    /// The proposals in `state` with an id of at least `from_index`, in
    /// ascending order of id, at most `limit` of them.
    pub fn get_proposals_by_state(
        &self,
        state: ProposalState,
        from_index: &Option<u64>,
        limit: &Option<u64>,
    ) -> (out: Vec<(u64, Proposal)>)
        ensures
            out.deep_view() == self@.page(
                cursor(*from_index),
                self@.page_size(*limit),
                Some(state),
            ),
            self.wf() ==> ids_ascend(out.deep_view()),
    {
        let from: u64 = match from_index {
            Some(f) => *f,
            None => 0,
        };
        let count: u64 = match limit {
            Some(n) => *n,
            None => self.proposals.len() as u64,
        };
        self.collect_page(from, count, Some(state))
    }

    /// The proposals that still wait for their workers.
    pub fn get_pending_coordinations(&self, from_index: &Option<u64>, limit: &Option<u64>) -> (out:
        Vec<(u64, Proposal)>)
        ensures
            out.deep_view() == self@.page(
                cursor(*from_index),
                self@.page_size(*limit),
                Some(ProposalState::Created),
            ),
            self.wf() ==> ids_ascend(out.deep_view()),
    {
        self.get_proposals_by_state(ProposalState::Created, from_index, limit)
    }

    /// The submissions recorded for a proposal; none for an unknown id.
    pub fn get_worker_submissions(&self, proposal_id: u64) -> (out: Vec<WorkerSubmission>)
        ensures
            out.deep_view() == (match self@.proposal(proposal_id) {
                Some(p) => p.worker_submissions,
                None => Seq::empty(),
            }),
    {
        match self.find_proposal(proposal_id) {
            Some(i) => clone_submissions(&self.proposals[i].1.worker_submissions),
            None => {
                let out: Vec<WorkerSubmission> = Vec::new();
                assert(out.deep_view() =~= Seq::empty());
                out
            },
        }
    }

    /// The result of a proposal, once it is finalized.
    pub fn get_finalized_coordination(&self, proposal_id: u64) -> (out: Option<String>)
        ensures
            out.deep_view() == (match self@.proposal(proposal_id) {
                Some(p) => if p.state == ProposalState::Finalized {
                    p.finalized_result
                } else {
                    None
                },
                None => None,
            }),
    {
        match self.find_proposal(proposal_id) {
            Some(i) => {
                if self.proposals[i].1.state == ProposalState::Finalized {
                    clone_optional_text(&self.proposals[i].1.finalized_result)
                } else {
                    None
                }
            },
            None => None,
        }
    }

    /// The finalized proposals with an id of at least `from_index`, each id
    /// with its result, in ascending order of id, at most `limit` of them.
    pub fn get_all_finalized_coordinations(
        &self,
        from_index: &Option<u64>,
        limit: &Option<u64>,
    ) -> (out: Vec<(u64, String)>)
        requires
            self.wf(),
        ensures
            out.deep_view() == self@.finalized_page(cursor(*from_index), self@.page_size(*limit)),
            ids_ascend(out.deep_view()),
    {
        let page = self.get_proposals_by_state(ProposalState::Finalized, from_index, limit);
        let ghost wanted = listed(cursor(*from_index), Some(ProposalState::Finalized));
        let ghost hits = self@.proposals.filter(wanted);
        proof {
            broadcast use vstd::seq_lib::group_filter_ensures;

            let shown = self@.page(
                cursor(*from_index),
                self@.page_size(*limit),
                Some(ProposalState::Finalized),
            );
            assert(page.deep_view() == shown);
            assert(shown == first_items(hits, self@.page_size(*limit)));
            assert(page.deep_view().len() == page.len());
            assert forall|j: int| 0 <= j < page.len() implies (
            #[trigger] page.deep_view()[j]).1.finalized_result is Some by {
                let e = page.deep_view()[j];
                assert(shown.len() <= hits.len());
                assert(e == hits[j]);
                assert(hits.contains(e));
                assert(wanted(e));
                self@.proposals.lemma_filter_contains_rev(wanted, e);
                let k = choose|k: int| 0 <= k < self@.proposals.len() && self@.proposals[k] == e;
                assert(self@.proposals[k].1.valid());
            }
        }
        let mut out: Vec<(u64, String)> = Vec::new();
        let mut i: usize = 0;
        while i < page.len()
            invariant
                i <= page.len(),
                out.len() == i,
                forall|j: int|
                    0 <= j < page.len() ==> (#[trigger] page.deep_view()[j]).1.finalized_result
                        is Some,
                forall|j: int|
                    0 <= j < i ==> (#[trigger] out.deep_view()[j]) == (
                        page.deep_view()[j].0,
                        page.deep_view()[j].1.finalized_result->Some_0,
                    ),
            decreases page.len() - i,
        {
            assert(page.deep_view()[i as int].1.finalized_result is Some);
            let ghost listed_so_far = out.deep_view();
            match &page[i].1.finalized_result {
                Some(result) => {
                    out.push((page[i].0, result.clone()));
                    assert(out.deep_view() =~= listed_so_far.push((page[i as int].0, result@)));
                },
                None => {},
            }
            i += 1;
        }
        assert(out.deep_view() =~= self@.finalized_page(
            cursor(*from_index),
            self@.page_size(*limit),
        ));
        assert forall|a: int, b: int| 0 <= a < b < out.len() implies (
        #[trigger] out.deep_view()[a]).0 < (#[trigger] out.deep_view()[b]).0 by {
            assert(page.deep_view()[a].0 < page.deep_view()[b].0);
        }
        out
    }

    /// Every registered worker, in the order of registration.
    pub fn get_registered_workers(&self) -> (out: Vec<RegisteredWorker>)
        ensures
            out.deep_view() == self@.workers,
    {
        let mut out: Vec<RegisteredWorker> = Vec::new();
        let mut i: usize = 0;
        while i < self.registered_workers.len()
            invariant
                i <= self.registered_workers.len(),
                out.len() == i,
                forall|j: int| 0 <= j < i ==> out[j]@ == self.registered_workers[j]@,
            decreases self.registered_workers.len() - i,
        {
            out.push(self.registered_workers[i].clone());
            i += 1;
        }
        assert(out.deep_view() =~= self@.workers);
        out
    }

    /// The workers that are active, in the order of registration.
    pub fn get_active_workers(&self) -> (out: Vec<RegisteredWorker>)
        ensures
            out.deep_view() == self@.workers.filter(active_only()),
    {
        let mut out: Vec<RegisteredWorker> = Vec::new();
        let mut i: usize = 0;
        proof {
            assert(self@.workers.take(0) =~= Seq::empty());
            reveal(Seq::filter);
            assert(out.deep_view() =~= Seq::empty());
        }
        while i < self.registered_workers.len()
            invariant
                i <= self.registered_workers.len(),
                out.deep_view() == self@.workers.take(i as int).filter(active_only()),
            decreases self.registered_workers.len() - i,
        {
            let ghost seen = self@.workers.take(i as int);
            let ghost shown = out.deep_view();
            if self.registered_workers[i].active {
                out.push(self.registered_workers[i].clone());
            }
            proof {
                let item = self@.workers[i as int];
                assert(self@.workers.take(i + 1) =~= seen.push(item));
                seen.lemma_filter_push(item, active_only());
                if item.active {
                    assert(out.deep_view() =~= shown.push(item));
                }
            }
            i += 1;
        }
        assert(self@.workers.take(i as int) =~= self@.workers);
        out
    }

    /// Whether `worker_id` is registered and active.
    pub fn is_worker_registered(&self, worker_id: String) -> (active: bool)
        ensures
            active == self@.is_active_worker(worker_id@),
    {
        self.worker_is_active(&worker_id)
    }

    /// The number of active workers, modulo 2^32.
    pub fn get_worker_count(&self) -> (count: u32)
        ensures
            count as int == self@.workers.filter(active_only()).len() % 0x1_0000_0000,
    {
        let mut count: u32 = 0;
        let mut i: usize = 0;
        proof {
            assert(self@.workers.take(0) =~= Seq::empty());
            reveal(Seq::filter);
        }
        while i < self.registered_workers.len()
            invariant
                i <= self.registered_workers.len(),
                count as int == self@.workers.take(i as int).filter(active_only()).len()
                    % 0x1_0000_0000,
            decreases self.registered_workers.len() - i,
        {
            let ghost seen = self@.workers.take(i as int);
            if self.registered_workers[i].active {
                count = if count == u32::MAX {
                    0
                } else {
                    count + 1
                };
            }
            proof {
                let item = self@.workers[i as int];
                assert(self@.workers.take(i + 1) =~= seen.push(item));
                seen.lemma_filter_push(item, active_only());
            }
            i += 1;
        }
        assert(self@.workers.take(i as int) =~= self@.workers);
        count
    }

    /// The owner.
    pub fn get_owner(&self) -> (out: String)
        ensures
            out@ == self@.owner,
    {
        self.owner.clone()
    }

    /// The id that was issued last; 0 before the first.
    pub fn get_current_proposal_id(&self) -> (id: u64)
        ensures
            id == self@.current_proposal_id,
    {
        self.current_proposal_id
    }
}

} // verus!
