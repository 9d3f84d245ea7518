//! The ledger and the lifecycle of its proposals: starting a task,
//! recording the workers' submissions, resuming and settling.
//!
//! The host is kept outside. Each operation takes the caller's account and
//! the block time as plain values and answers with a `Result`; a refused
//! operation leaves the ledger as it was. Suspending and resuming a task is
//! the host's work: `yield_request` and `coordinator_resume` say what to hand
//! to it, `start_coordination` and `return_coordination_result` take what it
//! gave back.

use crate::hasher::hash;
use crate::lookup::{find_first, keys_of};
use crate::model::{byte_len, position, recorded, repeats_earlier, ContractView, MAX_TEXT_BYTES};
use crate::payload::{encode_resume_payload, encode_yield_payload, resume_payload, yield_payload};
use crate::types::{
    delivered, CallbackOutcome, ContractError, Manifesto, PromiseError, Proposal, ProposalState,
    ProposalView, RegisteredWorker, ResumeRequest, Worker, WorkerSubmission, WorkerSubmissionInput,
    WorkerSubmissionInputView,
};
use vstd::prelude::*;

verus! {

/// The ledger of one deployment.
#[derive(Debug)]
pub struct CoordinatorContract {
    pub owner: String,
    pub approved_codehashes: Vec<String>,
    pub coordinator_by_account_id: Vec<(String, Worker)>,
    pub current_proposal_id: u64,
    pub proposals: Vec<(u64, Proposal)>,
    pub manifesto: Option<Manifesto>,
    pub registered_workers: Vec<RegisteredWorker>,
}

impl View for CoordinatorContract {
    type V = ContractView;

    open spec fn view(&self) -> ContractView {
        ContractView {
            owner: self.owner@,
            approved_codehashes: self.approved_codehashes.deep_view(),
            coordinators: self.coordinator_by_account_id.deep_view(),
            current_proposal_id: self.current_proposal_id,
            proposals: self.proposals.deep_view(),
            manifesto: self.manifesto.deep_view(),
            workers: self.registered_workers.deep_view(),
        }
    }
}

/// Whether `worker_id` has a submission in `list`.
fn has_submission_from(list: &Vec<WorkerSubmission>, worker_id: &String) -> (found: bool)
    ensures
        found == exists|i: int|
            0 <= i < list.len() && (#[trigger] list.deep_view()[i]).worker_id == worker_id@,
{
    let mut i: usize = 0;
    while i < list.len()
        invariant
            i <= list.len(),
            forall|j: int| 0 <= j < i ==> (#[trigger] list.deep_view()[j]).worker_id != worker_id@,
        decreases list.len() - i,
    {
        if list[i].worker_id == *worker_id {
            assert(list.deep_view()[i as int].worker_id == worker_id@);
            return true;
        }
        i += 1;
    }
    false
}

/// Whether the worker of `inputs[k]` occurs before position `k`.
fn occurs_before(inputs: &Vec<WorkerSubmissionInput>, k: usize) -> (found: bool)
    requires
        k < inputs.len(),
    ensures
        found == repeats_earlier(inputs.deep_view(), k as int),
{
    let mut j: usize = 0;
    while j < k
        invariant
            j <= k < inputs.len(),
            forall|a: int|
                0 <= a < j ==> (#[trigger] inputs.deep_view()[a]).worker_id
                    != inputs.deep_view()[k as int].worker_id,
        decreases k - j,
    {
        if inputs[j].worker_id == inputs[k].worker_id {
            assert(inputs.deep_view()[j as int].worker_id == inputs.deep_view()[k as int].worker_id);
            return true;
        }
        j += 1;
    }
    false
}

/// The records that `inputs` leave behind at `now`.
fn record_all(inputs: &Vec<WorkerSubmissionInput>, now: u64) -> (out: Vec<WorkerSubmission>)
    ensures
        out.deep_view() == inputs.deep_view().map_values(
            |s: WorkerSubmissionInputView| recorded(s, now),
        ),
{
    let mut out: Vec<WorkerSubmission> = Vec::new();
    let mut i: usize = 0;
    while i < inputs.len()
        invariant
            i <= inputs.len(),
            out.len() == i,
            forall|j: int| 0 <= j < i ==> out[j]@ == recorded(inputs[j]@, now),
        decreases inputs.len() - i,
    {
        out.push(
            WorkerSubmission {
                worker_id: inputs[i].worker_id.clone(),
                result_hash: inputs[i].result_hash.clone(),
                timestamp: now,
            },
        );
        i += 1;
    }
    assert(out.deep_view() =~= inputs.deep_view().map_values(
        |s: WorkerSubmissionInputView| recorded(s, now),
    ));
    out
}

impl CoordinatorContract {
    /// The ledger's invariant holds.
    pub open spec fn wf(&self) -> bool {
        self@.valid()
    }

    /// A fresh ledger owned by `owner`.
    pub fn new(owner: String) -> (out: Self)
        ensures
            out@ == ContractView::empty(owner@, 0),
            out.wf(),
    {
        CoordinatorContract::force_migrate(owner, 0)
    }

    pub(crate) fn find_codehash(&self, codehash: &String) -> (found: Option<usize>)
        ensures
            position(found) == self@.approved_codehashes.index_of_first(codehash@),
            found is Some <==> self@.is_approved(codehash@),
            found is Some ==> found->Some_0 < self.approved_codehashes.len(),
    {
        assert(keys_of(self.approved_codehashes@) =~= self@.approved_codehashes);
        find_first(&self.approved_codehashes, codehash)
    }

    pub(crate) fn find_coordinator(&self, account: &String) -> (found: Option<usize>)
        ensures
            position(found) == self@.coordinator_accounts().index_of_first(account@),
            found is Some ==> found->Some_0 < self.coordinator_by_account_id.len(),
    {
        assert(keys_of(self.coordinator_by_account_id@) =~= self@.coordinator_accounts());
        find_first(&self.coordinator_by_account_id, account)
    }

    pub(crate) fn find_proposal(&self, id: u64) -> (found: Option<usize>)
        ensures
            position(found) == self@.proposal_ids().index_of_first(id),
            found is Some ==> found->Some_0 < self.proposals.len(),
    {
        assert(keys_of(self.proposals@) =~= self@.proposal_ids());
        find_first(&self.proposals, &id)
    }

    pub(crate) fn find_worker(&self, worker_id: &String) -> (found: Option<usize>)
        ensures
            position(found) == self@.worker_ids().index_of_first(worker_id@),
            found is Some ==> found->Some_0 < self.registered_workers.len(),
    {
        assert(keys_of(self.registered_workers@) =~= self@.worker_ids());
        find_first(&self.registered_workers, worker_id)
    }

    pub(crate) fn worker_is_active(&self, worker_id: &String) -> (active: bool)
        ensures
            active == self@.is_active_worker(worker_id@),
    {
        match self.find_worker(worker_id) {
            Some(i) => self.registered_workers[i].active,
            None => false,
        }
    }

    /// Lets only the owner through.
    pub fn require_owner(&self, caller: &String) -> (r: Result<(), ContractError>)
        ensures
            r == (if caller@ == self@.owner {
                Ok::<(), ContractError>(())
            } else {
                Err::<(), ContractError>(ContractError::NotOwner)
            }),
    {
        if *caller == self.owner {
            Ok(())
        } else {
            Err(ContractError::NotOwner)
        }
    }

    /// The check before the privileged calls: lets `caller` through if it
    /// registered as a coordinator and the codehash it registered under is
    /// approved at this moment.
    pub fn require_approved_codehash(&self, caller: &String) -> (r: Result<(), ContractError>)
        ensures
            r == (match self@.admission(caller@) {
                None => Ok::<(), ContractError>(()),
                Some(e) => Err::<(), ContractError>(e),
            }),
    {
        match self.find_coordinator(caller) {
            None => Err(ContractError::NotRegisteredCoordinator),
            Some(i) => {
                match self.find_codehash(&self.coordinator_by_account_id[i].1.codehash) {
                    Some(_) => Ok(()),
                    None => Err(ContractError::CodehashNoLongerApproved),
                }
            },
        }
    }

    /// Whether `caller` may manage workers: the owner, and every coordinator
    /// whose codehash is approved at this moment.
    pub fn may_manage_workers(&self, caller: &String) -> (allowed: bool)
        ensures
            allowed == self@.is_registrar(caller@),
    {
        if *caller == self.owner {
            true
        } else {
            self.require_approved_codehash(caller).is_ok()
        }
    }

    /// Records one submission per worker for a proposal in `Created` and
    /// moves it to `WorkersCompleted`. Either every submission is recorded
    /// or none: an empty list, an unknown or inactive worker, or a worker
    /// that occurs twice, refuses the whole call.
    pub fn record_worker_submissions(
        &mut self,
        caller: String,
        now: u64,
        proposal_id: u64,
        submissions: Vec<WorkerSubmissionInput>,
    ) -> (r: Result<(), ContractError>)
        requires
            old(self).wf(),
        ensures
            final(self).wf(),
            old(self)@.evolves_to(final(self)@),
            match r {
                Ok(()) => {
                    &&& old(self)@.accepts_submissions(
                        caller@,
                        proposal_id,
                        submissions.deep_view(),
                    )
                    &&& final(self)@ == old(self)@.with_submissions(
                        proposal_id,
                        submissions.deep_view(),
                        now,
                    )
                    &&& final(self)@.proposal(proposal_id) == Some(
                        old(self)@.proposal(proposal_id)->Some_0.completed_with(
                            submissions.deep_view(),
                            now,
                        ),
                    )
                    &&& old(self)@.same_proposals_except(final(self)@, proposal_id)
                },
                Err(e) => {
                    &&& old(self)@.refuses_submissions(
                        caller@,
                        proposal_id,
                        submissions.deep_view(),
                        e,
                    )
                    &&& final(self)@ == old(self)@
                },
            },
    {
        let ghost before = self@;
        let ghost inputs = submissions.deep_view();
        if let Err(e) = self.require_approved_codehash(&caller) {
            return Err(e);
        }
        let idx = match self.find_proposal(proposal_id) {
            Some(i) => i,
            None => {
                return Err(ContractError::ProposalNotFound);
            },
        };
        let ghost p = before.proposals[idx as int].1;
        assert(before.proposal(proposal_id) == Some(p));
        if self.proposals[idx].1.state != ProposalState::Created {
            return Err(ContractError::NotInCreatedState);
        }
        if submissions.len() == 0 {
            return Err(ContractError::NoSubmissions);
        }
        let mut k: usize = 0;
        while k < submissions.len()
            invariant
                k <= submissions.len(),
                idx < self.proposals.len(),
                self@ == before,
                inputs == submissions.deep_view(),
                p == before.proposals[idx as int].1,
                before.valid(),
                before.admission(caller@) is None,
                before.proposal(proposal_id) == Some(p),
                p.state == ProposalState::Created,
                forall|j: int| 0 <= j < k ==> #[trigger] before.acceptable(p, inputs, j),
            decreases submissions.len() - k,
        {
            if !self.worker_is_active(&submissions[k].worker_id) {
                assert(!before.acceptable(p, inputs, k as int));
                return Err(ContractError::WorkerNotActive { index: k });
            }
            if has_submission_from(
                &self.proposals[idx].1.worker_submissions,
                &submissions[k].worker_id,
            ) || occurs_before(&submissions, k) {
                assert(!before.acceptable(p, inputs, k as int));
                return Err(ContractError::WorkerAlreadySubmitted { index: k });
            }
            assert(before.acceptable(p, inputs, k as int));
            k += 1;
        }
        let mut added = record_all(&submissions, now);
        let ghost added_view = added.deep_view();
        let ghost stored = self.proposals@;
        let (id, mut proposal) = self.proposals.remove(idx);
        assert(id == proposal_id) by {
            before.proposal_ids().index_of_first_ensures(proposal_id);
        }
        proposal.worker_submissions.append(&mut added);
        proposal.state = ProposalState::WorkersCompleted;
        let ghost q = proposal@;
        self.proposals.insert(idx, (id, proposal));
        proof {
            assert(p.worker_submissions.len() == 0);
            assert(q.worker_submissions =~= p.worker_submissions + added_view);
            assert(q == p.completed_with(inputs, now));
            assert(self.proposals@ =~= stored.update(idx as int, (id, proposal)));
            assert(self@.proposals =~= before.proposals.update(idx as int, (proposal_id, q)));
            assert(self@ == before.with_submissions(proposal_id, inputs, now));
            assert forall|i: int, j: int| 0 <= i < j < q.worker_submissions.len() implies (
            #[trigger] q.worker_submissions[i]).worker_id != (
            #[trigger] q.worker_submissions[j]).worker_id by {
                assert(before.acceptable(p, inputs, j));
                if q.worker_submissions[i].worker_id == q.worker_submissions[j].worker_id {
                    assert(inputs[i].worker_id == inputs[j].worker_id);
                    assert(repeats_earlier(inputs, j));
                }
            }
            assert(q.valid());
            before.lemma_with_proposal(proposal_id, q);
        }
        Ok(())
    }

    /// Sets the manifesto. Only the owner may, and the text has at most
    /// 10,000 bytes.
    pub fn set_manifesto(&mut self, caller: String, manifesto_text: String) -> (r: Result<
        (),
        ContractError,
    >)
        requires
            old(self).wf(),
        ensures
            final(self).wf(),
            old(self)@.evolves_to(final(self)@),
            match r {
                Ok(()) => {
                    &&& caller@ == old(self)@.owner
                    &&& byte_len(manifesto_text@) <= MAX_TEXT_BYTES
                    &&& final(self)@ == old(self)@.with_manifesto(manifesto_text@)
                },
                Err(e) => {
                    &&& final(self)@ == old(self)@
                    &&& caller@ != old(self)@.owner ==> e == ContractError::NotOwner
                    &&& caller@ == old(self)@.owner ==> e == ContractError::ManifestoTooLong
                        && byte_len(manifesto_text@) > MAX_TEXT_BYTES
                },
            },
    {
        if let Err(e) = self.require_owner(&caller) {
            return Err(e);
        }
        if manifesto_text.as_str().as_bytes().len() > MAX_TEXT_BYTES {
            return Err(ContractError::ManifestoTooLong);
        }
        let manifesto_hash = hash(manifesto_text.as_str());
        self.manifesto = Some(Manifesto { text: manifesto_text, hash: manifesto_hash });
        Ok(())
    }

    /// The manifesto, if one is set.
    pub fn get_manifesto(&self) -> (out: Option<Manifesto>)
        ensures
            out.deep_view() == self@.manifesto,
    {
        match &self.manifesto {
            Some(m) => Some(m.clone()),
            None => None,
        }
    }

    /// What the host must suspend the next task with. A task can start once
    /// a manifesto is set, with a configuration of at most 10,000 bytes.
    pub fn yield_request(&self, task_config: &str) -> (r: Result<Vec<u8>, ContractError>)
        ensures
            match r {
                Ok(payload) => {
                    &&& self@.start_refusal(task_config@) is None
                    &&& payload@ == yield_payload(
                        (self@.current_proposal_id + 1) as u64,
                        task_config@,
                    )
                },
                Err(e) => self@.start_refusal(task_config@) == Some(e),
            },
    {
        if self.manifesto.is_none() {
            return Err(ContractError::ManifestoNotSet);
        }
        if task_config.as_bytes().len() > MAX_TEXT_BYTES {
            return Err(ContractError::TaskConfigTooLong);
        }
        if self.current_proposal_id == u64::MAX {
            return Err(ContractError::ProposalIdsExhausted);
        }
        Ok(encode_yield_payload(self.current_proposal_id + 1, task_config))
    }

    /// Starts a task: issues the next id and stores a proposal in `Created`
    /// under it, with the fingerprint of the configuration and the
    /// continuation token `yield_id` that the host gave for it. Returns the
    /// id.
    pub fn start_coordination(
        &mut self,
        caller: String,
        now: u64,
        task_config: String,
        yield_id: [u8; 32],
    ) -> (r: Result<u64, ContractError>)
        requires
            old(self).wf(),
        ensures
            final(self).wf(),
            old(self)@.evolves_to(final(self)@),
            match r {
                Ok(id) => {
                    &&& old(self)@.start_refusal(task_config@) is None
                    &&& id == old(self)@.current_proposal_id + 1
                    &&& old(self)@.proposal(id) is None
                    &&& final(self)@ == old(self)@.with_new_proposal(
                        caller@,
                        now,
                        task_config@,
                        yield_id,
                    )
                    &&& final(self)@.proposal(id) == Some(
                        ProposalView::created(caller@, now, task_config@, yield_id),
                    )
                    &&& old(self)@.same_proposals_except(final(self)@, id)
                },
                Err(e) => {
                    &&& old(self)@.start_refusal(task_config@) == Some(e)
                    &&& final(self)@ == old(self)@
                },
            },
    {
        let ghost before = self@;
        if self.manifesto.is_none() {
            return Err(ContractError::ManifestoNotSet);
        }
        if task_config.as_str().as_bytes().len() > MAX_TEXT_BYTES {
            return Err(ContractError::TaskConfigTooLong);
        }
        if self.current_proposal_id == u64::MAX {
            return Err(ContractError::ProposalIdsExhausted);
        }
        let proposal_id = self.current_proposal_id + 1;
        let config_hash = hash(task_config.as_str());
        let proposal = Proposal {
            yield_id,
            task_config,
            config_hash,
            timestamp: now,
            requester: caller,
            state: ProposalState::Created,
            worker_submissions: Vec::new(),
            finalized_result: None,
        };
        self.current_proposal_id = proposal_id;
        self.proposals.push((proposal_id, proposal));
        proof {
            let next = before.with_new_proposal(caller@, now, task_config@, yield_id);
            assert(proposal@.worker_submissions =~= Seq::empty());
            assert(self@.proposals =~= next.proposals);
            before.lemma_with_new_proposal(caller@, now, task_config@, yield_id);
        }
        Ok(proposal_id)
    }

    /// Decides on a coordinator's report, given the fingerprint
    /// `computed_hash` that the reported result really has: refuses it
    /// unless the caller is admitted, the proposal's workers have completed,
    /// `config_hash` is the fingerprint stored when the task started and
    /// `result_hash` is `computed_hash`. Hands back the continuation token
    /// of the proposal.
    pub fn check_resume(
        &self,
        caller: &String,
        proposal_id: u64,
        config_hash: &String,
        result_hash: &String,
        computed_hash: &String,
    ) -> (r: Result<[u8; 32], ContractError>)
        ensures
            match r {
                Ok(yield_id) => {
                    &&& self@.resume_refusal_for(
                        caller@,
                        proposal_id,
                        config_hash@,
                        result_hash@,
                        computed_hash@,
                    ) is None
                    &&& self@.proposal(proposal_id) is Some
                    &&& yield_id == self@.proposal(proposal_id)->Some_0.yield_id
                },
                Err(e) => self@.resume_refusal_for(
                    caller@,
                    proposal_id,
                    config_hash@,
                    result_hash@,
                    computed_hash@,
                ) == Some(e),
            },
    {
        if let Err(e) = self.require_approved_codehash(caller) {
            return Err(e);
        }
        let idx = match self.find_proposal(proposal_id) {
            Some(i) => i,
            None => {
                return Err(ContractError::ProposalNotFound);
            },
        };
        assert(self@.proposal(proposal_id) == Some(self@.proposals[idx as int].1));
        if self.proposals[idx].1.state != ProposalState::WorkersCompleted {
            return Err(ContractError::NotInWorkersCompletedState);
        }
        if self.proposals[idx].1.config_hash != *config_hash {
            return Err(ContractError::ConfigHashMismatch);
        }
        if *computed_hash != *result_hash {
            return Err(ContractError::ResultHashMismatch);
        }
        Ok(self.proposals[idx].1.yield_id)
    }

    /// Checks a coordinator's report and says what to resume the task with.
    /// The report is refused unless the claimed configuration fingerprint is
    /// the one stored when the task started and the claimed result
    /// fingerprint is that of `aggregated_result`. The ledger stays as it
    /// is: a proposal is settled only when the host delivers the outcome.
    pub fn coordinator_resume(
        &self,
        caller: String,
        proposal_id: u64,
        aggregated_result: String,
        config_hash: String,
        result_hash: String,
    ) -> (r: Result<ResumeRequest, ContractError>)
        ensures
            match r {
                Ok(request) => {
                    &&& self@.resume_refusal(
                        caller@,
                        proposal_id,
                        aggregated_result@,
                        config_hash@,
                        result_hash@,
                    ) is None
                    &&& self@.proposal(proposal_id) is Some
                    &&& request.yield_id == self@.proposal(proposal_id)->Some_0.yield_id
                    &&& request.payload@ == resume_payload(aggregated_result@)
                },
                Err(e) => self@.resume_refusal(
                    caller@,
                    proposal_id,
                    aggregated_result@,
                    config_hash@,
                    result_hash@,
                ) == Some(e),
            },
    {
        let computed_hash = hash(aggregated_result.as_str());
        match self.check_resume(&caller, proposal_id, &config_hash, &result_hash, &computed_hash) {
            Ok(yield_id) => Ok(
                ResumeRequest {
                    yield_id,
                    payload: encode_resume_payload(aggregated_result.as_str()),
                },
            ),
            Err(e) => Err(e),
        }
    }

    /// Takes the outcome that the host delivers for a suspended task. Where
    /// the workers of the proposal have completed, a result finalizes it and
    /// anything else times it out; an outcome for an unknown id, or for a
    /// proposal in any other state, leaves the ledger as it is. A result is
    /// handed back; without one the host is asked to fail the execution.
    pub fn return_coordination_result(
        &mut self,
        proposal_id: u64,
        task_config: String,
        response: Result<String, PromiseError>,
    ) -> (out: CallbackOutcome)
        requires
            old(self).wf(),
        ensures
            final(self).wf(),
            old(self)@.evolves_to(final(self)@),
            final(self)@ == old(self)@.with_outcome(proposal_id, delivered(response)),
            old(self)@.awaits_outcome(proposal_id) ==> final(self)@.proposal(proposal_id) == Some(
                old(self)@.proposal(proposal_id)->Some_0.settled(delivered(response)),
            ),
            !old(self)@.awaits_outcome(proposal_id) ==> final(self)@ == old(self)@,
            old(self)@.same_proposals_except(final(self)@, proposal_id),
            match out {
                CallbackOutcome::Value(v) => delivered(response) == Some(v@),
                CallbackOutcome::FailOnTimeout => delivered(response) is None,
            },
    {
        let ghost before = self@;
        let awaited = match self.find_proposal(proposal_id) {
            Some(idx) => {
                if self.proposals[idx].1.state == ProposalState::WorkersCompleted {
                    Some(idx)
                } else {
                    None
                }
            },
            None => None,
        };
        assert(awaited is Some <==> before.awaits_outcome(proposal_id));
        match response {
            Ok(result) => {
                if let Some(idx) = awaited {
                    let ghost p = before.proposals[idx as int].1;
                    self.proposals[idx].1.state = ProposalState::Finalized;
                    self.proposals[idx].1.finalized_result = Some(result.clone());
                    proof {
                        let q = p.settled(Some(result@));
                        before.proposal_ids().index_of_first_ensures(proposal_id);
                        assert(self@.proposals =~= before.proposals.update(
                            idx as int,
                            (proposal_id, q),
                        ));
                        assert(before.proposals[idx as int].1.valid());
                        before.lemma_with_proposal(proposal_id, q);
                    }
                }
                CallbackOutcome::Value(result)
            },
            Err(_) => {
                if let Some(idx) = awaited {
                    let ghost p = before.proposals[idx as int].1;
                    self.proposals[idx].1.state = ProposalState::TimedOut;
                    self.proposals[idx].1.finalized_result = None;
                    proof {
                        let q = p.settled(None);
                        before.proposal_ids().index_of_first_ensures(proposal_id);
                        assert(self@.proposals =~= before.proposals.update(
                            idx as int,
                            (proposal_id, q),
                        ));
                        assert(before.proposals[idx as int].1.valid());
                        before.lemma_with_proposal(proposal_id, q);
                    }
                }
                CallbackOutcome::FailOnTimeout
            },
        }
    }

    /// The failure that ends the execution in which a timeout was
    /// delivered.
    pub fn fail_on_timeout(&self) -> (r: Result<(), ContractError>)
        ensures
            r == Err::<(), ContractError>(ContractError::TimedOut),
    {
        Err(ContractError::TimedOut)
    }
}

} // verus!
