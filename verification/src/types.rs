//! The records that the ledger keeps, each with the mathematical value that
//! contracts speak of.

use crate::hasher::fingerprint;
use vstd::prelude::*;

verus! {

/// Why an operation was refused. A refused operation changes nothing.
#[derive(Clone, Copy, PartialEq, Eq, Structural, Debug)]
pub enum ContractError {
    /// The caller is not the owner.
    NotOwner,
    /// The manifesto text is longer than 10,000 bytes.
    ManifestoTooLong,
    /// No manifesto has been set yet.
    ManifestoNotSet,
    /// The task configuration is longer than 10,000 bytes.
    TaskConfigTooLong,
    /// Every proposal id has been handed out.
    ProposalIdsExhausted,
    /// The caller never registered as a coordinator.
    NotRegisteredCoordinator,
    /// The codehash that the caller registered under has been revoked.
    CodehashNoLongerApproved,
    /// No proposal has this id.
    ProposalNotFound,
    /// Submissions are recorded only while the proposal is `Created`.
    NotInCreatedState,
    /// The list of submissions is empty.
    NoSubmissions,
    /// The worker of the submission at `index` is unknown or inactive.
    WorkerNotActive { index: usize },
    /// The worker of the submission at `index` has submitted before.
    WorkerAlreadySubmitted { index: usize },
    /// A proposal is resumed only once its workers have completed.
    NotInWorkersCompletedState,
    /// The claimed configuration fingerprint is not the stored one.
    ConfigHashMismatch,
    /// The claimed result fingerprint is not that of the result.
    ResultHashMismatch,
    /// The codehash to register under is not approved.
    CodehashNotApproved,
    /// The caller is neither the owner nor a coordinator whose codehash is
    /// approved.
    NotRegistrar,
    /// No worker has this id.
    WorkerNotFound,
    /// The continuation expired.
    TimedOut,
}

impl ContractError {
    /// The reason in words.
    pub open spec fn message_text(self) -> Seq<char> {
        match self {
            ContractError::NotOwner => "Only owner can call this function"@,
            ContractError::ManifestoTooLong => "Manifesto text needs to be under 10,000 characters"@,
            ContractError::ManifestoNotSet => "Manifesto not set. Owner must set_manifesto first."@,
            ContractError::TaskConfigTooLong => "Task config needs to be under 10,000 characters"@,
            ContractError::ProposalIdsExhausted => "No proposal id is left"@,
            ContractError::NotRegisteredCoordinator => "Only registered coordinator can call this function"@,
            ContractError::CodehashNoLongerApproved => "Coordinator codehash is no longer approved"@,
            ContractError::ProposalNotFound => "No proposal with this ID"@,
            ContractError::NotInCreatedState => "Proposal not in Created state - cannot record submissions"@,
            ContractError::NoSubmissions => "No worker submissions given"@,
            ContractError::WorkerNotActive { .. } => "Worker is not registered or not active"@,
            ContractError::WorkerAlreadySubmitted { .. } => "Worker already submitted for this proposal"@,
            ContractError::NotInWorkersCompletedState => "Proposal not in WorkersCompleted state - record worker submissions first"@,
            ContractError::ConfigHashMismatch => "Config hash mismatch - configuration was tampered with"@,
            ContractError::ResultHashMismatch => "Result hash mismatch - result integrity check failed"@,
            ContractError::CodehashNotApproved => "Codehash not approved. Owner must approve_codehash first."@,
            ContractError::NotRegistrar => "Only owner or approved coordinator can manage workers"@,
            ContractError::WorkerNotFound => "Worker not found"@,
            ContractError::TimedOut => "Coordination request timed out"@,
        }
    }

    /// The reason in words, for the caller to read.
    pub fn message(&self) -> (out: String)
        ensures
            out@ == self.message_text(),
    {
        match self {
            ContractError::NotOwner => "Only owner can call this function".to_owned(),
            ContractError::ManifestoTooLong => "Manifesto text needs to be under 10,000 characters".to_owned(),
            ContractError::ManifestoNotSet => "Manifesto not set. Owner must set_manifesto first.".to_owned(),
            ContractError::TaskConfigTooLong => "Task config needs to be under 10,000 characters".to_owned(),
            ContractError::ProposalIdsExhausted => "No proposal id is left".to_owned(),
            ContractError::NotRegisteredCoordinator => "Only registered coordinator can call this function".to_owned(),
            ContractError::CodehashNoLongerApproved => "Coordinator codehash is no longer approved".to_owned(),
            ContractError::ProposalNotFound => "No proposal with this ID".to_owned(),
            ContractError::NotInCreatedState => "Proposal not in Created state - cannot record submissions".to_owned(),
            ContractError::NoSubmissions => "No worker submissions given".to_owned(),
            ContractError::WorkerNotActive { .. } => "Worker is not registered or not active".to_owned(),
            ContractError::WorkerAlreadySubmitted { .. } => "Worker already submitted for this proposal".to_owned(),
            ContractError::NotInWorkersCompletedState => "Proposal not in WorkersCompleted state - record worker submissions first".to_owned(),
            ContractError::ConfigHashMismatch => "Config hash mismatch - configuration was tampered with".to_owned(),
            ContractError::ResultHashMismatch => "Result hash mismatch - result integrity check failed".to_owned(),
            ContractError::CodehashNotApproved => "Codehash not approved. Owner must approve_codehash first.".to_owned(),
            ContractError::NotRegistrar => "Only owner or approved coordinator can manage workers".to_owned(),
            ContractError::WorkerNotFound => "Worker not found".to_owned(),
            ContractError::TimedOut => "Coordination request timed out".to_owned(),
        }
    }
}

/// Where a proposal stands in its lifecycle.
#[derive(Clone, Copy, PartialEq, Eq, Structural, Debug)]
pub enum ProposalState {
    /// The task is suspended and waits for its workers.
    Created,
    /// Every worker submission has been recorded.
    WorkersCompleted,
    /// The aggregated result has been settled.
    Finalized,
    /// The continuation expired before it was resolved.
    TimedOut,
}

impl ProposalState {
    /// The only moves a proposal ever makes: from `Created` to
    /// `WorkersCompleted`, and from there to `Finalized` or `TimedOut`.
    pub open spec fn steps_to(self, next: ProposalState) -> bool {
        match (self, next) {
            (ProposalState::Created, ProposalState::WorkersCompleted) => true,
            (ProposalState::WorkersCompleted, ProposalState::Finalized) => true,
            (ProposalState::WorkersCompleted, ProposalState::TimedOut) => true,
            _ => false,
        }
    }

    /// `Finalized` and `TimedOut` are final.
    pub open spec fn is_terminal(self) -> bool {
        self == ProposalState::Finalized || self == ProposalState::TimedOut
    }
}

/// The policy text that guides the workers, with its fingerprint.
#[derive(Debug)]
pub struct Manifesto {
    pub text: String,
    pub hash: String,
}

/// A manifesto as contracts speak of it.
pub struct ManifestoView {
    pub text: Seq<char>,
    pub hash: Seq<char>,
}

impl View for Manifesto {
    type V = ManifestoView;

    open spec fn view(&self) -> ManifestoView {
        ManifestoView { text: self.text@, hash: self.hash@ }
    }
}

impl DeepView for Manifesto {
    type V = ManifestoView;

    open spec fn deep_view(&self) -> ManifestoView {
        self@
    }
}

impl Clone for Manifesto {
    fn clone(&self) -> (out: Self)
        ensures
            out@ == self@,
    {
        Manifesto { text: self.text.clone(), hash: self.hash.clone() }
    }
}

/// What a coordinator registered under: the attestation checksum and the
/// codehash of its execution environment.
#[derive(Debug)]
pub struct Worker {
    pub checksum: String,
    pub codehash: String,
}

/// A coordinator's registration as contracts speak of it.
pub struct WorkerView {
    pub checksum: Seq<char>,
    pub codehash: Seq<char>,
}

impl View for Worker {
    type V = WorkerView;

    open spec fn view(&self) -> WorkerView {
        WorkerView { checksum: self.checksum@, codehash: self.codehash@ }
    }
}

impl DeepView for Worker {
    type V = WorkerView;

    open spec fn deep_view(&self) -> WorkerView {
        self@
    }
}

impl Clone for Worker {
    fn clone(&self) -> (out: Self)
        ensures
            out@ == self@,
    {
        Worker { checksum: self.checksum.clone(), codehash: self.codehash.clone() }
    }
}

/// Copies an optional text.
pub fn clone_optional_text(text: &Option<String>) -> (out: Option<String>)
    ensures
        out.deep_view() == text.deep_view(),
{
    match text {
        Some(t) => Some(t.clone()),
        None => None,
    }
}

/// A worker that may take part in a task while it is active.
#[derive(Debug)]
pub struct RegisteredWorker {
    pub worker_id: String,
    pub account_id: Option<String>,
    pub registered_at: u64,
    pub registered_by: String,
    pub active: bool,
}

/// A registered worker as contracts speak of it.
pub struct RegisteredWorkerView {
    pub worker_id: Seq<char>,
    pub account_id: Option<Seq<char>>,
    pub registered_at: u64,
    pub registered_by: Seq<char>,
    pub active: bool,
}

impl View for RegisteredWorker {
    type V = RegisteredWorkerView;

    open spec fn view(&self) -> RegisteredWorkerView {
        RegisteredWorkerView {
            worker_id: self.worker_id@,
            account_id: self.account_id.deep_view(),
            registered_at: self.registered_at,
            registered_by: self.registered_by@,
            active: self.active,
        }
    }
}

impl DeepView for RegisteredWorker {
    type V = RegisteredWorkerView;

    open spec fn deep_view(&self) -> RegisteredWorkerView {
        self@
    }
}

impl Clone for RegisteredWorker {
    fn clone(&self) -> (out: Self)
        ensures
            out@ == self@,
    {
        RegisteredWorker {
            worker_id: self.worker_id.clone(),
            account_id: clone_optional_text(&self.account_id),
            registered_at: self.registered_at,
            registered_by: self.registered_by.clone(),
            active: self.active,
        }
    }
}

/// What a coordinator reports of one worker: who took part, and the
/// fingerprint of what it produced. The content itself never reaches the
/// ledger.
#[derive(Debug)]
pub struct WorkerSubmissionInput {
    pub worker_id: String,
    pub result_hash: String,
}

/// A reported submission as contracts speak of it.
pub struct WorkerSubmissionInputView {
    pub worker_id: Seq<char>,
    pub result_hash: Seq<char>,
}

impl View for WorkerSubmissionInput {
    type V = WorkerSubmissionInputView;

    open spec fn view(&self) -> WorkerSubmissionInputView {
        WorkerSubmissionInputView { worker_id: self.worker_id@, result_hash: self.result_hash@ }
    }
}

impl DeepView for WorkerSubmissionInput {
    type V = WorkerSubmissionInputView;

    open spec fn deep_view(&self) -> WorkerSubmissionInputView {
        self@
    }
}

impl Clone for WorkerSubmissionInput {
    fn clone(&self) -> (out: Self)
        ensures
            out@ == self@,
    {
        WorkerSubmissionInput {
            worker_id: self.worker_id.clone(),
            result_hash: self.result_hash.clone(),
        }
    }
}

/// The recorded fact that a worker took part in a proposal.
#[derive(Debug)]
pub struct WorkerSubmission {
    pub worker_id: String,
    pub result_hash: String,
    pub timestamp: u64,
}

/// A recorded submission as contracts speak of it.
pub struct WorkerSubmissionView {
    pub worker_id: Seq<char>,
    pub result_hash: Seq<char>,
    pub timestamp: u64,
}

impl View for WorkerSubmission {
    type V = WorkerSubmissionView;

    open spec fn view(&self) -> WorkerSubmissionView {
        WorkerSubmissionView {
            worker_id: self.worker_id@,
            result_hash: self.result_hash@,
            timestamp: self.timestamp,
        }
    }
}

impl DeepView for WorkerSubmission {
    type V = WorkerSubmissionView;

    open spec fn deep_view(&self) -> WorkerSubmissionView {
        self@
    }
}

impl Clone for WorkerSubmission {
    fn clone(&self) -> (out: Self)
        ensures
            out@ == self@,
    {
        WorkerSubmission {
            worker_id: self.worker_id.clone(),
            result_hash: self.result_hash.clone(),
            timestamp: self.timestamp,
        }
    }
}

/// Copies a list of submissions.
pub fn clone_submissions(list: &Vec<WorkerSubmission>) -> (out: Vec<WorkerSubmission>)
    ensures
        out.deep_view() == list.deep_view(),
{
    let mut out: Vec<WorkerSubmission> = Vec::new();
    let mut i: usize = 0;
    while i < list.len()
        invariant
            i <= list.len(),
            out.len() == i,
            forall|j: int| 0 <= j < i ==> out[j]@ == list[j]@,
        decreases list.len() - i,
    {
        out.push(list[i].clone());
        i += 1;
    }
    assert(out.deep_view() =~= list.deep_view());
    out
}

/// One coordination task, from the moment it was suspended.
#[derive(Debug)]
pub struct Proposal {
    pub yield_id: [u8; 32],
    pub task_config: String,
    pub config_hash: String,
    pub timestamp: u64,
    pub requester: String,
    pub state: ProposalState,
    pub worker_submissions: Vec<WorkerSubmission>,
    pub finalized_result: Option<String>,
}

/// A proposal as contracts speak of it.
pub struct ProposalView {
    pub yield_id: [u8; 32],
    pub task_config: Seq<char>,
    pub config_hash: Seq<char>,
    pub timestamp: u64,
    pub requester: Seq<char>,
    pub state: ProposalState,
    pub worker_submissions: Seq<WorkerSubmissionView>,
    pub finalized_result: Option<Seq<char>>,
}

impl ProposalView {
    /// No worker occurs twice among the submissions.
    pub open spec fn nullifiers_unique(self) -> bool {
        forall|i: int, j: int|
            0 <= i < j < self.worker_submissions.len() ==> (
            #[trigger] self.worker_submissions[i]).worker_id != (
            #[trigger] self.worker_submissions[j]).worker_id
    }

    /// Whether `worker_id` already has a submission on record.
    pub open spec fn has_submitted(self, worker_id: Seq<char>) -> bool {
        exists|i: int|
            0 <= i < self.worker_submissions.len() && (
            #[trigger] self.worker_submissions[i]).worker_id == worker_id
    }

    /// What holds of every stored proposal: submissions only once the
    /// workers have completed, at most one of them per worker, a result
    /// exactly when finalized, and the fingerprint that the configuration
    /// had when the task started.
    pub open spec fn valid(self) -> bool {
        &&& self.state == ProposalState::Created ==> self.worker_submissions.len() == 0
        &&& self.nullifiers_unique()
        &&& self.finalized_result is Some <==> self.state == ProposalState::Finalized
        &&& self.config_hash == fingerprint(self.task_config)
    }
}

impl View for Proposal {
    type V = ProposalView;

    open spec fn view(&self) -> ProposalView {
        ProposalView {
            yield_id: self.yield_id,
            task_config: self.task_config@,
            config_hash: self.config_hash@,
            timestamp: self.timestamp,
            requester: self.requester@,
            state: self.state,
            worker_submissions: self.worker_submissions.deep_view(),
            finalized_result: self.finalized_result.deep_view(),
        }
    }
}

impl DeepView for Proposal {
    type V = ProposalView;

    open spec fn deep_view(&self) -> ProposalView {
        self@
    }
}

impl Clone for Proposal {
    fn clone(&self) -> (out: Self)
        ensures
            out@ == self@,
    {
        Proposal {
            yield_id: self.yield_id,
            task_config: self.task_config.clone(),
            config_hash: self.config_hash.clone(),
            timestamp: self.timestamp,
            requester: self.requester.clone(),
            state: self.state,
            worker_submissions: clone_submissions(&self.worker_submissions),
            finalized_result: clone_optional_text(&self.finalized_result),
        }
    }
}

/// Why the host delivered no result for a suspended task.
#[derive(Clone, Copy, PartialEq, Eq, Structural, Debug)]
pub enum PromiseError {
    /// The continuation failed or expired.
    Failed,
    /// The result was longer than the host accepts; it had this many bytes.
    TooLong(usize),
}

/// What to hand to the host in order to resume a suspended task.
#[derive(Debug)]
pub struct ResumeRequest {
    /// The continuation token that the proposal was created with.
    pub yield_id: [u8; 32],
    /// The aggregated result, encoded for the host.
    pub payload: Vec<u8>,
}

/// What the finalize callback asks of the host.
#[derive(Debug)]
pub enum CallbackOutcome {
    /// Return this result.
    Value(String),
    /// Fail the enclosing execution: the task timed out.
    FailOnTimeout,
}

/// The result that a response of the host carries, if any.
pub open spec fn delivered(response: Result<String, PromiseError>) -> Option<Seq<char>> {
    match response {
        Ok(result) => Some(result@),
        Err(_) => None,
    }
}

} // verus!
