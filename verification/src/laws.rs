//! What holds of the ledger whatever is asked of it.

use crate::hasher::fingerprint;
use crate::model::{lemma_push_index, lemma_remove_index, ContractView};
use crate::types::ProposalState;
use vstd::prelude::*;

verus! {

/// A proposal that has reached `Finalized` or `TimedOut` stays there, and
/// no proposal ever returns to `Created`, from one ledger to the next.
pub proof fn lemma_lifecycle_has_no_way_back(before: ContractView, after: ContractView, id: u64)
    requires
        before.evolves_to(after),
        before.proposal(id) is Some,
        after.proposal(id) is Some,
    ensures
        before.proposal(id)->Some_0.state.is_terminal() ==> after.proposal(id)->Some_0.state
            == before.proposal(id)->Some_0.state,
        after.proposal(id)->Some_0.state == ProposalState::Created ==> before.proposal(
            id,
        )->Some_0.state == ProposalState::Created,
        after.proposal(id)->Some_0.config_hash == before.proposal(id)->Some_0.config_hash,
{
}

/// An outcome settles a proposal only once its workers have completed: it
/// then makes one legal move, to `Finalized` with a result or to `TimedOut`
/// without one. Delivered for any other proposal, or for none, it changes
/// nothing.
pub proof fn lemma_outcome_follows_the_lifecycle(
    ledger: ContractView,
    id: u64,
    result: Option<Seq<char>>,
)
    requires
        ledger.valid(),
    ensures
        ledger.with_outcome(id, result).valid(),
        ledger.evolves_to(ledger.with_outcome(id, result)),
        !ledger.awaits_outcome(id) ==> ledger.with_outcome(id, result) == ledger,
        ledger.awaits_outcome(id) ==> ledger.with_outcome(id, result).proposal(id) == Some(
            ledger.proposal(id)->Some_0.settled(result),
        ),
{
    if ledger.awaits_outcome(id) {
        let p = ledger.proposal(id)->Some_0;
        ledger.proposal_ids().index_of_first_ensures(id);
        let k = ledger.proposal_ids().index_of_first(id)->Some_0;
        assert(ledger.proposals[k].1.valid());
        ledger.lemma_with_proposal(id, p.settled(result));
    }
}

/// An id that was issued is never issued again: whatever happened since,
/// the next task gets a higher one.
pub proof fn lemma_ids_are_never_reused(before: ContractView, after: ContractView, id: u64)
    requires
        before.valid(),
        before.proposal(id) is Some,
        before.evolves_to(after),
        after.current_proposal_id < u64::MAX,
    ensures
        id < after.current_proposal_id + 1,
{
    before.proposal_ids().index_of_first_ensures(id);
    let k = before.proposal_ids().index_of_first(id)->Some_0;
    assert(before.proposals[k].0 <= before.current_proposal_id);
}

/// In a valid ledger no worker has two submissions on record for the same
/// proposal.
pub proof fn lemma_one_submission_per_worker(ledger: ContractView, id: u64, i: int, j: int)
    requires
        ledger.valid(),
        ledger.proposal(id) is Some,
        0 <= i < j < ledger.proposal(id)->Some_0.worker_submissions.len(),
    ensures
        ledger.proposal(id)->Some_0.worker_submissions[i].worker_id != ledger.proposal(
            id,
        )->Some_0.worker_submissions[j].worker_id,
{
    ledger.proposal_ids().index_of_first_ensures(id);
    let k = ledger.proposal_ids().index_of_first(id)->Some_0;
    assert(ledger.proposals[k].1.valid());
}

/// A report whose configuration fingerprint is not the one that was stored
/// when the task started is refused, whoever sends it and whatever else it
/// holds. In a valid ledger the stored fingerprint is that of the stored
/// configuration.
pub proof fn lemma_resume_needs_the_stored_config_fingerprint(
    ledger: ContractView,
    caller: Seq<char>,
    id: u64,
    result: Seq<char>,
    config_hash: Seq<char>,
    result_hash: Seq<char>,
)
    requires
        ledger.proposal(id) is Some ==> ledger.proposal(id)->Some_0.config_hash != config_hash,
    ensures
        ledger.resume_refusal(caller, id, result, config_hash, result_hash) is Some,
        ledger.valid() && ledger.proposal(id) is Some ==> config_hash != fingerprint(
            ledger.proposal(id)->Some_0.task_config,
        ),
{
    if ledger.valid() && ledger.proposal(id) is Some {
        ledger.proposal_ids().index_of_first_ensures(id);
        let k = ledger.proposal_ids().index_of_first(id)->Some_0;
        assert(ledger.proposals[k].1.valid());
    }
}

/// A report whose result fingerprint is not the fingerprint of its result is
/// refused, whatever the result.
pub proof fn lemma_resume_needs_the_result_fingerprint(
    ledger: ContractView,
    caller: Seq<char>,
    id: u64,
    result: Seq<char>,
    config_hash: Seq<char>,
    result_hash: Seq<char>,
)
    requires
        fingerprint(result) != result_hash,
    ensures
        ledger.resume_refusal(caller, id, result, config_hash, result_hash) is Some,
{
}

/// A report is accepted exactly when the caller is admitted, the
/// proposal exists and its workers have completed, and both fingerprints
/// are the right ones.
pub proof fn lemma_resume_accepted_iff(
    ledger: ContractView,
    caller: Seq<char>,
    id: u64,
    result: Seq<char>,
    config_hash: Seq<char>,
    result_hash: Seq<char>,
)
    ensures
        ledger.resume_refusal(caller, id, result, config_hash, result_hash) is None <==> {
            &&& ledger.may_coordinate(caller)
            &&& ledger.proposal(id) is Some
            &&& ledger.proposal(id)->Some_0.state == ProposalState::WorkersCompleted
            &&& ledger.proposal(id)->Some_0.config_hash == config_hash
            &&& fingerprint(result) == result_hash
        },
{
}

/// Revoking a codehash shuts out every caller bound to it, from the
/// privileged calls and from the management of workers, at once and without
/// touching any binding.
pub proof fn lemma_revocation_disables_bound_callers(
    ledger: ContractView,
    codehash: Seq<char>,
    caller: Seq<char>,
)
    requires
        ledger.valid(),
        ledger.binding(caller) is Some,
        ledger.binding(caller)->Some_0.codehash == codehash,
    ensures
        !ledger.without_codehash(codehash).may_coordinate(caller),
        caller != ledger.owner ==> !ledger.without_codehash(codehash).is_registrar(caller),
        ledger.without_codehash(codehash).coordinators == ledger.coordinators,
        ledger.without_codehash(codehash).binding(caller) == ledger.binding(caller),
{
    let next = ledger.without_codehash(codehash);
    ledger.approved_codehashes.index_of_first_ensures(codehash);
    match ledger.approved_codehashes.index_of_first(codehash) {
        Some(i) => {
            lemma_remove_index(ledger.approved_codehashes, i, codehash);
            next.approved_codehashes.index_of_first_ensures(codehash);
        },
        None => {},
    }
}

/// Approval and revocation of other codehashes leave a caller's standing
/// as it was.
pub proof fn lemma_admission_depends_on_own_codehash(
    ledger: ContractView,
    other: Seq<char>,
    caller: Seq<char>,
)
    requires
        ledger.valid(),
        ledger.binding(caller) is Some,
        ledger.binding(caller)->Some_0.codehash != other,
    ensures
        ledger.without_codehash(other).may_coordinate(caller) == ledger.may_coordinate(caller),
        ledger.with_codehash(other).may_coordinate(caller) == ledger.may_coordinate(caller),
{
    let mine = ledger.binding(caller)->Some_0.codehash;
    ledger.approved_codehashes.index_of_first_ensures(other);
    ledger.approved_codehashes.index_of_first_ensures(mine);
    match ledger.approved_codehashes.index_of_first(other) {
        Some(i) => {
            lemma_remove_index(ledger.approved_codehashes, i, mine);
            ledger.approved_codehashes.remove(i).index_of_first_ensures(mine);
        },
        None => {},
    }
    lemma_push_index(ledger.approved_codehashes, other, mine);
    ledger.approved_codehashes.push(other).index_of_first_ensures(mine);
}

} // verus!
