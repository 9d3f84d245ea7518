//! The ledger as a mathematical value, and what each operation makes of it.

use crate::hasher::fingerprint;
use crate::types::{
    ContractError, ManifestoView, ProposalState, ProposalView, RegisteredWorkerView,
    WorkerSubmissionInputView, WorkerSubmissionView, WorkerView,
};
use vstd::prelude::*;

verus! {

/// The longest manifesto or task configuration, in bytes of UTF-8.
pub const MAX_TEXT_BYTES: usize = 10000;

/// The number of bytes that a text takes in UTF-8.
pub open spec fn byte_len(text: Seq<char>) -> nat {
    vstd::utf8::encode_utf8(text).len()
}

/// The whole state of the ledger.
pub struct ContractView {
    pub owner: Seq<char>,
    /// The approved codehashes, in the order of their approval.
    pub approved_codehashes: Seq<Seq<char>>,
    /// Each coordinator account with what it last registered under.
    pub coordinators: Seq<(Seq<char>, WorkerView)>,
    pub current_proposal_id: u64,
    /// The proposals with their ids, in ascending order of id.
    pub proposals: Seq<(u64, ProposalView)>,
    pub manifesto: Option<ManifestoView>,
    /// The registered workers, in the order of their registration.
    pub workers: Seq<RegisteredWorkerView>,
}

/// An index as the model counts it.
pub open spec fn position(found: Option<usize>) -> Option<int> {
    match found {
        Some(i) => Some(i as int),
        None => None,
    }
}

/// The record that `input` leaves behind when it is accepted at `now`.
pub open spec fn recorded(input: WorkerSubmissionInputView, now: u64) -> WorkerSubmissionView {
    WorkerSubmissionView {
        worker_id: input.worker_id,
        result_hash: input.result_hash,
        timestamp: now,
    }
}

impl ProposalView {
    /// The proposal of a task that `requester` starts at `now` with
    /// `task_config`, suspended behind `yield_id`.
    pub open spec fn created(
        requester: Seq<char>,
        now: u64,
        task_config: Seq<char>,
        yield_id: [u8; 32],
    ) -> ProposalView {
        ProposalView {
            yield_id,
            task_config,
            config_hash: fingerprint(task_config),
            timestamp: now,
            requester,
            state: ProposalState::Created,
            worker_submissions: Seq::empty(),
            finalized_result: None,
        }
    }

    /// The proposal after `inputs` were recorded at `now`: its workers have
    /// completed.
    pub open spec fn completed_with(
        self,
        inputs: Seq<WorkerSubmissionInputView>,
        now: u64,
    ) -> ProposalView {
        ProposalView {
            state: ProposalState::WorkersCompleted,
            worker_submissions: self.worker_submissions + inputs.map_values(
                |s: WorkerSubmissionInputView| recorded(s, now),
            ),
            ..self
        }
    }

    /// The proposal after the host delivered its outcome: finalized with
    /// the result, or timed out without one.
    pub open spec fn settled(self, result: Option<Seq<char>>) -> ProposalView {
        match result {
            Some(r) => ProposalView {
                state: ProposalState::Finalized,
                finalized_result: Some(r),
                ..self
            },
            None => ProposalView { state: ProposalState::TimedOut, finalized_result: None, ..self },
        }
    }
}

/// Whether the worker of `inputs[k]` also occurs earlier in `inputs`.
pub open spec fn repeats_earlier(inputs: Seq<WorkerSubmissionInputView>, k: int) -> bool {
    exists|j: int| 0 <= j < k && (#[trigger] inputs[j]).worker_id == inputs[k].worker_id
}

/// The proposals that a listing looks for: those with an id of at least
/// `from` and, where a state is asked for, in that state.
pub open spec fn listed(from: u64, state: Option<ProposalState>) -> spec_fn(
    (u64, ProposalView),
) -> bool {
    |e: (u64, ProposalView)| e.0 >= from && (state is None || state == Some(e.1.state))
}

/// The workers that are active.
pub open spec fn active_only() -> spec_fn(RegisteredWorkerView) -> bool {
    |w: RegisteredWorkerView| w.active
}

/// The first `limit` items of `items`, or all of them if there are fewer.
pub open spec fn first_items<A>(items: Seq<A>, limit: u64) -> Seq<A> {
    if limit <= items.len() {
        items.take(limit as int)
    } else {
        items
    }
}

/// Whether the ids of a listing ascend, none of them twice.
pub open spec fn ids_ascend<T>(page: Seq<(u64, T)>) -> bool {
    forall|i: int, j: int| 0 <= i < j < page.len() ==> (#[trigger] page[i]).0 < (#[trigger] page[j]).0
}

/// Where a listing starts when no cursor is given: at the lowest id.
pub open spec fn cursor(from_index: Option<u64>) -> u64 {
    match from_index {
        Some(from) => from,
        None => 0,
    }
}

impl ContractView {
    /// How many proposals a listing returns at most: `limit`, or all of
    /// them when no limit is given.
    pub open spec fn page_size(self, limit: Option<u64>) -> u64 {
        match limit {
            Some(n) => n,
            None => self.proposals.len() as u64,
        }
    }

    /// One page of a listing: in ascending order of id, the first `limit`
    /// proposals among those with an id of at least `from` and, where a
    /// state is asked for, in that state.
    pub open spec fn page(self, from: u64, limit: u64, state: Option<ProposalState>) -> Seq<
        (u64, ProposalView),
    > {
        first_items(self.proposals.filter(listed(from, state)), limit)
    }

    /// One page of the finalized proposals, each id with its result.
    pub open spec fn finalized_page(self, from: u64, limit: u64) -> Seq<(u64, Seq<char>)> {
        self.page(from, limit, Some(ProposalState::Finalized)).map_values(
            |e: (u64, ProposalView)| (e.0, e.1.finalized_result->Some_0),
        )
    }

    /// A fresh ledger owned by `owner`, whose last issued id is `last_id`.
    pub open spec fn empty(owner: Seq<char>, last_id: u64) -> ContractView {
        ContractView {
            owner,
            approved_codehashes: Seq::empty(),
            coordinators: Seq::empty(),
            current_proposal_id: last_id,
            proposals: Seq::empty(),
            manifesto: None,
            workers: Seq::empty(),
        }
    }

    /// The accounts that are bound to a codehash, in the order of their first registration.
    pub open spec fn coordinator_accounts(self) -> Seq<Seq<char>> {
        self.coordinators.map_values(|e: (Seq<char>, WorkerView)| e.0)
    }

    /// The ids of the stored proposals, in ascending order.
    pub open spec fn proposal_ids(self) -> Seq<u64> {
        self.proposals.map_values(|e: (u64, ProposalView)| e.0)
    }

    /// The ids of the registered workers, in the order of their registration.
    pub open spec fn worker_ids(self) -> Seq<Seq<char>> {
        self.workers.map_values(|w: RegisteredWorkerView| w.worker_id)
    }

    /// The invariant of the ledger: every key occurs once, proposal ids
    /// ascend and were all issued, and every record is valid.
    pub open spec fn valid(self) -> bool {
        &&& self.approved_codehashes.no_duplicates()
        &&& self.coordinator_accounts().no_duplicates()
        &&& self.worker_ids().no_duplicates()
        &&& forall|i: int, j: int|
            0 <= i < j < self.proposals.len() ==> (#[trigger] self.proposals[i]).0 < (
            #[trigger] self.proposals[j]).0
        &&& forall|i: int|
            0 <= i < self.proposals.len() ==> {
                &&& 1 <= (#[trigger] self.proposals[i]).0 <= self.current_proposal_id
                &&& self.proposals[i].1.valid()
            }
        &&& match self.manifesto {
            Some(m) => m.hash == fingerprint(m.text),
            None => true,
        }
    }

    /// Whether `codehash` is approved at this moment.
    pub open spec fn is_approved(self, codehash: Seq<char>) -> bool {
        self.approved_codehashes.contains(codehash)
    }

    /// What `account` last registered under, if it ever registered.
    pub open spec fn binding(self, account: Seq<char>) -> Option<WorkerView> {
        match self.coordinator_accounts().index_of_first(account) {
            Some(i) => Some(self.coordinators[i].1),
            None => None,
        }
    }

    /// The proposal stored under `id`, if any.
    pub open spec fn proposal(self, id: u64) -> Option<ProposalView> {
        match self.proposal_ids().index_of_first(id) {
            Some(i) => Some(self.proposals[i].1),
            None => None,
        }
    }

    /// The worker registered under `worker_id`, if any.
    pub open spec fn worker(self, worker_id: Seq<char>) -> Option<RegisteredWorkerView> {
        match self.worker_ids().index_of_first(worker_id) {
            Some(i) => Some(self.workers[i]),
            None => None,
        }
    }

    /// Registered and currently active: all that a submission is checked
    /// against.
    pub open spec fn is_active_worker(self, worker_id: Seq<char>) -> bool {
        match self.worker(worker_id) {
            Some(w) => w.active,
            None => false,
        }
    }

    /// The check before the privileged calls: `None` when `caller` registered as
    /// a coordinator under a codehash that is approved now, else the reason.
    pub open spec fn admission(self, caller: Seq<char>) -> Option<ContractError> {
        match self.binding(caller) {
            None => Some(ContractError::NotRegisteredCoordinator),
            Some(w) => if self.is_approved(w.codehash) {
                None
            } else {
                Some(ContractError::CodehashNoLongerApproved)
            },
        }
    }

    /// Whether `caller` may record submissions and resume tasks.
    pub open spec fn may_coordinate(self, caller: Seq<char>) -> bool {
        self.admission(caller) is None
    }

    /// Who may manage workers: the owner, and every coordinator whose
    /// codehash is approved at this moment.
    pub open spec fn is_registrar(self, caller: Seq<char>) -> bool {
        caller == self.owner || self.admission(caller) is None
    }

    // ---- what the operations make of the ledger ----

    /// The ledger in the hands of `owner`.
    pub open spec fn with_owner(self, owner: Seq<char>) -> ContractView {
        ContractView { owner, ..self }
    }

    /// The ledger with `text` as its manifesto, fingerprinted.
    pub open spec fn with_manifesto(self, text: Seq<char>) -> ContractView {
        ContractView {
            manifesto: Some(ManifestoView { text, hash: fingerprint(text) }),
            ..self
        }
    }

    /// The ledger with `codehash` approved; the same ledger if it was already.
    pub open spec fn with_codehash(self, codehash: Seq<char>) -> ContractView {
        if self.is_approved(codehash) {
            self
        } else {
            ContractView { approved_codehashes: self.approved_codehashes.push(codehash), ..self }
        }
    }

    /// The ledger with `codehash` revoked; the same ledger if it was not approved.
    pub open spec fn without_codehash(self, codehash: Seq<char>) -> ContractView {
        match self.approved_codehashes.index_of_first(codehash) {
            Some(i) => ContractView {
                approved_codehashes: self.approved_codehashes.remove(i),
                ..self
            },
            None => self,
        }
    }

    /// The ledger with `account` bound to `worker`, in place of an earlier
    /// binding or after all the others.
    pub open spec fn with_binding(self, account: Seq<char>, worker: WorkerView) -> ContractView {
        match self.coordinator_accounts().index_of_first(account) {
            Some(i) => ContractView {
                coordinators: self.coordinators.update(i, (account, worker)),
                ..self
            },
            None => ContractView { coordinators: self.coordinators.push((account, worker)), ..self },
        }
    }

    /// The ledger with `worker` registered, in place of an earlier entry of
    /// the same id or after all the others.
    pub open spec fn with_worker(self, worker: RegisteredWorkerView) -> ContractView {
        match self.worker_ids().index_of_first(worker.worker_id) {
            Some(i) => ContractView { workers: self.workers.update(i, worker), ..self },
            None => ContractView { workers: self.workers.push(worker), ..self },
        }
    }

    /// The ledger without the worker `worker_id`.
    pub open spec fn without_worker(self, worker_id: Seq<char>) -> ContractView {
        match self.worker_ids().index_of_first(worker_id) {
            Some(i) => ContractView { workers: self.workers.remove(i), ..self },
            None => self,
        }
    }

    /// The ledger with the worker `worker_id` switched on or off.
    pub open spec fn with_worker_active(self, worker_id: Seq<char>, active: bool) -> ContractView {
        match self.worker_ids().index_of_first(worker_id) {
            Some(i) => ContractView {
                workers: self.workers.update(
                    i,
                    RegisteredWorkerView { active, ..self.workers[i] },
                ),
                ..self
            },
            None => self,
        }
    }

    /// The ledger after a task was started: the next id is issued and a
    /// proposal in `Created` is stored under it, after all the others.
    pub open spec fn with_new_proposal(
        self,
        requester: Seq<char>,
        now: u64,
        task_config: Seq<char>,
        yield_id: [u8; 32],
    ) -> ContractView {
        let id = (self.current_proposal_id + 1) as u64;
        ContractView {
            current_proposal_id: id,
            proposals: self.proposals.push(
                (id, ProposalView::created(requester, now, task_config, yield_id)),
            ),
            ..self
        }
    }

    /// The ledger with `proposal` stored under `id` in place of what was
    /// there; the same ledger if nothing was.
    pub open spec fn with_proposal(self, id: u64, proposal: ProposalView) -> ContractView {
        match self.proposal_ids().index_of_first(id) {
            Some(i) => ContractView { proposals: self.proposals.update(i, (id, proposal)), ..self },
            None => self,
        }
    }

    /// The ledger without the proposal `id`.
    pub open spec fn without_proposal(self, id: u64) -> ContractView {
        match self.proposal_ids().index_of_first(id) {
            Some(i) => ContractView { proposals: self.proposals.remove(i), ..self },
            None => self,
        }
    }

    /// The ledger after `inputs` were recorded for proposal `id` at `now`.
    pub open spec fn with_submissions(
        self,
        id: u64,
        inputs: Seq<WorkerSubmissionInputView>,
        now: u64,
    ) -> ContractView {
        match self.proposal(id) {
            Some(p) => self.with_proposal(id, p.completed_with(inputs, now)),
            None => self,
        }
    }

    /// Whether an outcome can settle proposal `id`: it exists and its
    /// workers have completed.
    pub open spec fn awaits_outcome(self, id: u64) -> bool {
        match self.proposal(id) {
            Some(p) => p.state == ProposalState::WorkersCompleted,
            None => false,
        }
    }

    /// The ledger after the host delivered the outcome of proposal `id`:
    /// where the workers of the proposal have completed, a result finalizes
    /// it and anything else times it out. An outcome for an unknown id, or
    /// for a proposal in any other state, changes nothing.
    pub open spec fn with_outcome(self, id: u64, result: Option<Seq<char>>) -> ContractView {
        if self.awaits_outcome(id) {
            self.with_proposal(id, self.proposal(id)->Some_0.settled(result))
        } else {
            self
        }
    }

    // ---- when the operations are refused ----

    /// Why no task can be started with `task_config`, if so.
    pub open spec fn start_refusal(self, task_config: Seq<char>) -> Option<ContractError> {
        if self.manifesto is None {
            Some(ContractError::ManifestoNotSet)
        } else if byte_len(task_config) > MAX_TEXT_BYTES {
            Some(ContractError::TaskConfigTooLong)
        } else if self.current_proposal_id == u64::MAX {
            Some(ContractError::ProposalIdsExhausted)
        } else {
            None
        }
    }

    /// Whether `inputs[k]` can be recorded for `p`: its worker is active,
    /// has nothing on record for `p`, and does not occur earlier in
    /// `inputs`.
    pub open spec fn acceptable(
        self,
        p: ProposalView,
        inputs: Seq<WorkerSubmissionInputView>,
        k: int,
    ) -> bool {
        &&& self.is_active_worker(inputs[k].worker_id)
        &&& !p.has_submitted(inputs[k].worker_id)
        &&& !repeats_earlier(inputs, k)
    }

    /// Whether `e` is the reason for which `inputs` cannot be recorded for
    /// proposal `id` on behalf of `caller`: admission comes first, then the
    /// proposal and its state, then a list without any input, then the first
    /// input that is not acceptable, an inactive worker before a repeated
    /// one.
    pub open spec fn refuses_submissions(
        self,
        caller: Seq<char>,
        id: u64,
        inputs: Seq<WorkerSubmissionInputView>,
        e: ContractError,
    ) -> bool {
        match self.admission(caller) {
            Some(g) => e == g,
            None => match self.proposal(id) {
                None => e == ContractError::ProposalNotFound,
                Some(p) => if p.state != ProposalState::Created {
                    e == ContractError::NotInCreatedState
                } else if inputs.len() == 0 {
                    e == ContractError::NoSubmissions
                } else {
                    exists|k: int|
                        {
                            &&& 0 <= k < inputs.len()
                            &&& forall|j: int| 0 <= j < k ==> #[trigger] self.acceptable(p, inputs, j)
                            &&& !#[trigger] self.acceptable(p, inputs, k)
                            &&& e == if !self.is_active_worker(inputs[k].worker_id) {
                                ContractError::WorkerNotActive { index: k as usize }
                            } else {
                                ContractError::WorkerAlreadySubmitted { index: k as usize }
                            }
                        }
                },
            },
        }
    }

    /// Whether `inputs` can be recorded for proposal `id` on behalf of
    /// `caller`: the caller is admitted, the proposal is in `Created`, there
    /// is at least one input and every input is acceptable.
    pub open spec fn accepts_submissions(
        self,
        caller: Seq<char>,
        id: u64,
        inputs: Seq<WorkerSubmissionInputView>,
    ) -> bool {
        &&& self.admission(caller) is None
        &&& self.proposal(id) is Some
        &&& self.proposal(id)->Some_0.state == ProposalState::Created
        &&& inputs.len() > 0
        &&& forall|k: int|
            0 <= k < inputs.len() ==> #[trigger] self.acceptable(
                self.proposal(id)->Some_0,
                inputs,
                k,
            )
    }

    /// Why proposal `id` cannot be resumed on behalf of `caller` with the
    /// two claimed fingerprints, if so, where `computed_hash` is the
    /// fingerprint that the result really has. The checks come in this
    /// order: admission, the proposal, its state, the fingerprint of the
    /// configuration, the fingerprint of the result.
    pub open spec fn resume_refusal_for(
        self,
        caller: Seq<char>,
        id: u64,
        config_hash: Seq<char>,
        result_hash: Seq<char>,
        computed_hash: Seq<char>,
    ) -> Option<ContractError> {
        match self.admission(caller) {
            Some(g) => Some(g),
            None => match self.proposal(id) {
                None => Some(ContractError::ProposalNotFound),
                Some(p) => if p.state != ProposalState::WorkersCompleted {
                    Some(ContractError::NotInWorkersCompletedState)
                } else if p.config_hash != config_hash {
                    Some(ContractError::ConfigHashMismatch)
                } else if computed_hash != result_hash {
                    Some(ContractError::ResultHashMismatch)
                } else {
                    None
                },
            },
        }
    }

    /// Why proposal `id` cannot be resumed on behalf of `caller` with
    /// `result` and the two claimed fingerprints, if so.
    pub open spec fn resume_refusal(
        self,
        caller: Seq<char>,
        id: u64,
        result: Seq<char>,
        config_hash: Seq<char>,
        result_hash: Seq<char>,
    ) -> Option<ContractError> {
        self.resume_refusal_for(caller, id, config_hash, result_hash, fingerprint(result))
    }

    // ---- how one ledger follows another ----

    /// `next` finds under every proposal id but `id` what `self` finds.
    pub open spec fn same_proposals_except(self, next: ContractView, id: u64) -> bool {
        forall|other: u64| other != id ==> #[trigger] next.proposal(other) == self.proposal(other)
    }

    /// `next` finds under every worker id but `worker_id` what `self` finds.
    pub open spec fn same_workers_except(self, next: ContractView, worker_id: Seq<char>) -> bool {
        forall|other: Seq<char>|
            other != worker_id ==> #[trigger] next.worker(other) == self.worker(other)
    }

    /// `next` binds every account but `account` as `self` does.
    pub open spec fn same_bindings_except(self, next: ContractView, account: Seq<char>) -> bool {
        forall|other: Seq<char>|
            other != account ==> #[trigger] next.binding(other) == self.binding(other)
    }

    /// `next` approves every codehash but `codehash` exactly if `self` does.
    pub open spec fn same_approvals_except(self, next: ContractView, codehash: Seq<char>) -> bool {
        forall|other: Seq<char>|
            other != codehash ==> #[trigger] next.is_approved(other) == self.is_approved(other)
    }

    /// The count of issued ids did not go back, and every proposal of
    /// `self` that `next` still holds either kept its state or made one legal
    /// move, and kept everything that was fixed at its creation.
    pub open spec fn evolves_to(self, next: ContractView) -> bool {
        &&& self.current_proposal_id <= next.current_proposal_id
        &&& forall|id: u64| #[trigger]
            self.proposal(id) is Some && next.proposal(id) is Some ==> {
                let before = self.proposal(id)->Some_0;
                let after = next.proposal(id)->Some_0;
                &&& (before.state == after.state || before.state.steps_to(after.state))
                &&& after.config_hash == before.config_hash
                &&& after.task_config == before.task_config
                &&& after.yield_id == before.yield_id
                &&& after.timestamp == before.timestamp
                &&& after.requester == before.requester
            }
    }
}

/// Where a search from the front stops is where the key first occurs.
pub proof fn lemma_first_index<A>(keys: Seq<A>, needle: A, k: int)
    requires
        0 <= k <= keys.len(),
        forall|j: int| 0 <= j < k ==> keys[j] != needle,
        k < keys.len() ==> keys[k] == needle,
    ensures
        keys.index_of_first(needle) == (if k < keys.len() {
            Some(k)
        } else {
            None::<int>
        }),
        keys.contains(needle) <==> k < keys.len(),
{
    keys.index_of_first_ensures(needle);
    if k < keys.len() {
        assert(keys.contains(needle));
    }
}

/// A new key keeps a sequence free of duplicates.
pub proof fn lemma_push_unique<A>(keys: Seq<A>, extra: A)
    requires
        keys.no_duplicates(),
        !keys.contains(extra),
    ensures
        keys.push(extra).no_duplicates(),
{
    let longer = keys.push(extra);
    assert forall|i: int, j: int| 0 <= i < longer.len() && 0 <= j < longer.len() && i != j implies longer[i]
        != longer[j] by {
        if i < keys.len() && j < keys.len() {
        } else if i < keys.len() {
            assert(keys.contains(keys[i]));
        } else {
            assert(keys.contains(keys[j]));
        }
    }
}

/// A key appended at the end is found there only if it did not occur before.
pub proof fn lemma_push_index<A>(keys: Seq<A>, extra: A, needle: A)
    ensures
        keys.push(extra).index_of_first(needle) == (match keys.index_of_first(needle) {
            Some(i) => Some(i),
            None => if needle == extra {
                Some(keys.len() as int)
            } else {
                None::<int>
            },
        }),
{
    keys.index_of_first_ensures(needle);
    let longer = keys.push(extra);
    match keys.index_of_first(needle) {
        Some(i) => {
            lemma_first_index(longer, needle, i);
        },
        None => {
            assert forall|j: int| 0 <= j < keys.len() implies longer[j] != needle by {
                if keys[j] == needle {
                    assert(keys.contains(needle));
                }
            }
            if needle == extra {
                lemma_first_index(longer, needle, keys.len() as int);
            } else {
                lemma_first_index(longer, needle, longer.len() as int);
            }
        },
    }
}

/// Taking one key out of a sequence without duplicates leaves every other
/// key findable, those behind it one place earlier.
pub proof fn lemma_remove_index<A>(keys: Seq<A>, i: int, needle: A)
    requires
        keys.no_duplicates(),
        0 <= i < keys.len(),
    ensures
        keys.remove(i).no_duplicates(),
        keys.remove(i).index_of_first(needle) == (match keys.index_of_first(needle) {
            Some(j) => if j == i {
                None::<int>
            } else if j < i {
                Some(j)
            } else {
                Some(j - 1)
            },
            None => None::<int>,
        }),
{
    keys.index_of_first_ensures(needle);
    let shorter = keys.remove(i);
    assert forall|a: int| 0 <= a < shorter.len() implies shorter[a] == (if a < i {
        keys[a]
    } else {
        keys[a + 1]
    }) by {}
    match keys.index_of_first(needle) {
        Some(j) => {
            if j == i {
                lemma_first_index(shorter, needle, shorter.len() as int);
            } else if j < i {
                lemma_first_index(shorter, needle, j);
            } else {
                lemma_first_index(shorter, needle, j - 1);
            }
        },
        None => {
            assert forall|a: int| 0 <= a < shorter.len() implies shorter[a] != needle by {
                if shorter[a] == needle {
                    assert(keys.contains(needle));
                }
            }
            lemma_first_index(shorter, needle, shorter.len() as int);
        },
    }
}

impl ContractView {
    /// A task that starts leaves every stored proposal as it was.
    pub proof fn lemma_with_new_proposal(
        self,
        requester: Seq<char>,
        now: u64,
        task_config: Seq<char>,
        yield_id: [u8; 32],
    )
        requires
            self.valid(),
            self.current_proposal_id < u64::MAX,
        ensures
            self.with_new_proposal(requester, now, task_config, yield_id).valid(),
            self.evolves_to(self.with_new_proposal(requester, now, task_config, yield_id)),
            self.proposal((self.current_proposal_id + 1) as u64) is None,
            self.with_new_proposal(requester, now, task_config, yield_id).proposal(
                (self.current_proposal_id + 1) as u64,
            ) == Some(ProposalView::created(requester, now, task_config, yield_id)),
            self.same_proposals_except(
                self.with_new_proposal(requester, now, task_config, yield_id),
                (self.current_proposal_id + 1) as u64,
            ),
    {
        let next = self.with_new_proposal(requester, now, task_config, yield_id);
        let id = (self.current_proposal_id + 1) as u64;
        let ids = self.proposal_ids();
        assert(next.proposal_ids() =~= ids.push(id));
        assert forall|j: int| 0 <= j < ids.len() implies ids[j] != id by {
            assert(self.proposals[j].0 <= self.current_proposal_id);
        }
        lemma_first_index(ids, id, ids.len() as int);
        lemma_push_index(ids, id, id);
        assert forall|other: u64| other != id implies #[trigger] next.proposal(other)
            == self.proposal(other) by {
            lemma_push_index(ids, id, other);
            ids.index_of_first_ensures(other);
        }
        assert forall|a: int, b: int| 0 <= a < b < next.proposals.len() implies (
        #[trigger] next.proposals[a]).0 < (#[trigger] next.proposals[b]).0 by {
            if b < self.proposals.len() {
                assert(self.proposals[a].0 < self.proposals[b].0);
            } else {
                assert(self.proposals[a].0 <= self.current_proposal_id);
            }
        }
        assert forall|a: int| 0 <= a < next.proposals.len() implies {
            &&& 1 <= (#[trigger] next.proposals[a]).0 <= next.current_proposal_id
            &&& next.proposals[a].1.valid()
        } by {
            if a < self.proposals.len() {
                assert(1 <= self.proposals[a].0 <= self.current_proposal_id);
                assert(self.proposals[a].1.valid());
            }
        }
    }

    /// A purge takes one proposal out and leaves the others as they were.
    pub proof fn lemma_without_proposal(self, id: u64)
        requires
            self.valid(),
        ensures
            self.without_proposal(id).valid(),
            self.evolves_to(self.without_proposal(id)),
            self.without_proposal(id).proposal(id) is None,
            self.same_proposals_except(self.without_proposal(id), id),
    {
        let next = self.without_proposal(id);
        let ids = self.proposal_ids();
        self.lemma_ids_unique();
        ids.index_of_first_ensures(id);
        match ids.index_of_first(id) {
            Some(i) => {
                assert(next.proposal_ids() =~= ids.remove(i));
                lemma_remove_index(ids, i, id);
                assert forall|other: u64| other != id implies #[trigger] next.proposal(other)
                    == self.proposal(other) by {
                    lemma_remove_index(ids, i, other);
                    ids.index_of_first_ensures(other);
                }
                assert forall|a: int, b: int| 0 <= a < b < next.proposals.len() implies (
                #[trigger] next.proposals[a]).0 < (#[trigger] next.proposals[b]).0 by {
                    let a0 = if a < i { a } else { a + 1 };
                    let b0 = if b < i { b } else { b + 1 };
                    assert(self.proposals[a0].0 < self.proposals[b0].0);
                }
                assert forall|a: int| 0 <= a < next.proposals.len() implies {
                    &&& 1 <= (#[trigger] next.proposals[a]).0 <= next.current_proposal_id
                    &&& next.proposals[a].1.valid()
                } by {
                    let a0 = if a < i { a } else { a + 1 };
                    assert(1 <= self.proposals[a0].0 <= self.current_proposal_id);
                    assert(self.proposals[a0].1.valid());
                }
            },
            None => {},
        }
    }

    /// Ascending ids never repeat.
    pub proof fn lemma_ids_unique(self)
        requires
            self.valid(),
        ensures
            self.proposal_ids().no_duplicates(),
    {
        assert forall|i: int, j: int|
            0 <= i < self.proposal_ids().len() && 0 <= j < self.proposal_ids().len() && i
                != j implies self.proposal_ids()[i] != self.proposal_ids()[j] by {
            if i < j {
                assert(self.proposals[i].0 < self.proposals[j].0);
            } else {
                assert(self.proposals[j].0 < self.proposals[i].0);
            }
        }
    }

    /// Replacing a stored proposal changes what is found under its id and
    /// nothing else.
    pub proof fn lemma_with_proposal(self, id: u64, p: ProposalView)
        requires
            self.valid(),
            self.proposal(id) is Some,
        ensures
            self.with_proposal(id, p).proposal_ids() == self.proposal_ids(),
            self.with_proposal(id, p).proposal(id) == Some(p),
            self.same_proposals_except(self.with_proposal(id, p), id),
            p.valid() ==> self.with_proposal(id, p).valid(),
    {
        let next = self.with_proposal(id, p);
        let ids = self.proposal_ids();
        ids.index_of_first_ensures(id);
        let i = ids.index_of_first(id)->Some_0;
        assert(next.proposal_ids() =~= ids);
        assert forall|other: u64| other != id implies #[trigger] next.proposal(other)
            == self.proposal(other) by {
            ids.index_of_first_ensures(other);
        }
        if p.valid() {
            assert forall|a: int, b: int| 0 <= a < b < next.proposals.len() implies (
            #[trigger] next.proposals[a]).0 < (#[trigger] next.proposals[b]).0 by {
                assert(self.proposals[a].0 < self.proposals[b].0);
            }
            assert forall|a: int| 0 <= a < next.proposals.len() implies {
                &&& 1 <= (#[trigger] next.proposals[a]).0 <= next.current_proposal_id
                &&& next.proposals[a].1.valid()
            } by {
                assert(1 <= self.proposals[a].0 <= self.current_proposal_id);
                assert(self.proposals[a].1.valid());
            }
        }
    }

    /// Approving a codehash changes the standing of that codehash only.
    pub proof fn lemma_with_codehash(self, codehash: Seq<char>)
        requires
            self.valid(),
        ensures
            self.with_codehash(codehash).valid(),
            self.with_codehash(codehash).is_approved(codehash),
            self.same_approvals_except(self.with_codehash(codehash), codehash),
    {
        let next = self.with_codehash(codehash);
        let list = self.approved_codehashes;
        if !self.is_approved(codehash) {
            lemma_push_unique(list, codehash);
            assert(next.approved_codehashes[list.len() as int] == codehash);
            assert forall|other: Seq<char>| other != codehash implies #[trigger] next.is_approved(
                other,
            ) == self.is_approved(other) by {
                if next.is_approved(other) {
                    let j = choose|j: int|
                        0 <= j < next.approved_codehashes.len() && next.approved_codehashes[j]
                            == other;
                    assert(list[j] == other);
                }
                if self.is_approved(other) {
                    let j = choose|j: int| 0 <= j < list.len() && list[j] == other;
                    assert(next.approved_codehashes[j] == other);
                }
            }
        }
    }

    /// Revoking a codehash changes the standing of that codehash only.
    pub proof fn lemma_without_codehash(self, codehash: Seq<char>)
        requires
            self.valid(),
        ensures
            self.without_codehash(codehash).valid(),
            !self.without_codehash(codehash).is_approved(codehash),
            self.same_approvals_except(self.without_codehash(codehash), codehash),
    {
        let next = self.without_codehash(codehash);
        let list = self.approved_codehashes;
        list.index_of_first_ensures(codehash);
        match list.index_of_first(codehash) {
            Some(i) => {
                lemma_remove_index(list, i, codehash);
                next.approved_codehashes.index_of_first_ensures(codehash);
                assert forall|other: Seq<char>| other != codehash implies #[trigger] next.is_approved(
                    other,
                ) == self.is_approved(other) by {
                    lemma_remove_index(list, i, other);
                    list.index_of_first_ensures(other);
                    next.approved_codehashes.index_of_first_ensures(other);
                }
            },
            None => {},
        }
    }

    /// Binding an account changes what that account is bound to and nothing
    /// else.
    pub proof fn lemma_with_binding(self, account: Seq<char>, worker: WorkerView)
        requires
            self.valid(),
        ensures
            self.with_binding(account, worker).valid(),
            self.with_binding(account, worker).binding(account) == Some(worker),
            self.same_bindings_except(self.with_binding(account, worker), account),
    {
        let next = self.with_binding(account, worker);
        let keys = self.coordinator_accounts();
        keys.index_of_first_ensures(account);
        match keys.index_of_first(account) {
            Some(i) => {
                assert(next.coordinator_accounts() =~= keys);
                assert forall|other: Seq<char>| other != account implies #[trigger] next.binding(
                    other,
                ) == self.binding(other) by {
                    keys.index_of_first_ensures(other);
                }
            },
            None => {
                assert(next.coordinator_accounts() =~= keys.push(account));
                lemma_push_unique(keys, account);
                lemma_push_index(keys, account, account);
                assert forall|other: Seq<char>| other != account implies #[trigger] next.binding(
                    other,
                ) == self.binding(other) by {
                    lemma_push_index(keys, account, other);
                    keys.index_of_first_ensures(other);
                }
            },
        }
    }

    /// Registering a worker changes what is found under its id and nothing
    /// else.
    pub proof fn lemma_with_worker(self, worker: RegisteredWorkerView)
        requires
            self.valid(),
        ensures
            self.with_worker(worker).valid(),
            self.with_worker(worker).worker(worker.worker_id) == Some(worker),
            self.same_workers_except(self.with_worker(worker), worker.worker_id),
    {
        let next = self.with_worker(worker);
        let keys = self.worker_ids();
        let id = worker.worker_id;
        keys.index_of_first_ensures(id);
        match keys.index_of_first(id) {
            Some(i) => {
                assert(next.worker_ids() =~= keys);
                assert forall|other: Seq<char>| other != id implies #[trigger] next.worker(other)
                    == self.worker(other) by {
                    keys.index_of_first_ensures(other);
                }
            },
            None => {
                assert(next.worker_ids() =~= keys.push(id));
                lemma_push_unique(keys, id);
                lemma_push_index(keys, id, id);
                assert forall|other: Seq<char>| other != id implies #[trigger] next.worker(other)
                    == self.worker(other) by {
                    lemma_push_index(keys, id, other);
                    keys.index_of_first_ensures(other);
                }
            },
        }
    }

    /// Removing a worker leaves the others as they were.
    pub proof fn lemma_without_worker(self, worker_id: Seq<char>)
        requires
            self.valid(),
        ensures
            self.without_worker(worker_id).valid(),
            self.without_worker(worker_id).worker(worker_id) is None,
            self.same_workers_except(self.without_worker(worker_id), worker_id),
    {
        let next = self.without_worker(worker_id);
        let keys = self.worker_ids();
        keys.index_of_first_ensures(worker_id);
        match keys.index_of_first(worker_id) {
            Some(i) => {
                assert(next.worker_ids() =~= keys.remove(i));
                lemma_remove_index(keys, i, worker_id);
                assert forall|other: Seq<char>| other != worker_id implies #[trigger] next.worker(
                    other,
                ) == self.worker(other) by {
                    lemma_remove_index(keys, i, other);
                    keys.index_of_first_ensures(other);
                }
            },
            None => {},
        }
    }

    /// Switching a worker on or off changes the flag of that worker and
    /// nothing else.
    pub proof fn lemma_with_worker_active(self, worker_id: Seq<char>, active: bool)
        requires
            self.valid(),
            self.worker(worker_id) is Some,
        ensures
            self.with_worker_active(worker_id, active).valid(),
            self.with_worker_active(worker_id, active).worker(worker_id) == Some(
                RegisteredWorkerView { active, ..self.worker(worker_id)->Some_0 },
            ),
            self.with_worker_active(worker_id, active).is_active_worker(worker_id) == active,
            self.same_workers_except(self.with_worker_active(worker_id, active), worker_id),
    {
        let next = self.with_worker_active(worker_id, active);
        let keys = self.worker_ids();
        keys.index_of_first_ensures(worker_id);
        assert(next.worker_ids() =~= keys);
        assert forall|other: Seq<char>| other != worker_id implies #[trigger] next.worker(other)
            == self.worker(other) by {
            keys.index_of_first_ensures(other);
        }
    }
}

} // verus!
