use near_sdk::test_utils::accounts;
use shade_coordinator::coordinator::CoordinatorContract;
use shade_coordinator::hasher::hash;
use shade_coordinator::types::{
    CallbackOutcome, ContractError, PromiseError, ProposalState, WorkerSubmissionInput,
};

fn account(i: usize) -> String {
    accounts(i).to_string()
}

fn input(worker: &str, result: &str) -> WorkerSubmissionInput {
    WorkerSubmissionInput { worker_id: worker.to_string(), result_hash: result.to_string() }
}

/// A ledger owned by account 0, with a manifesto, an approved codehash and
/// account 1 registered as coordinator under it.
fn ready() -> CoordinatorContract {
    let mut contract = CoordinatorContract::new(account(0));
    contract.set_manifesto(account(0), "We vote for good things.".to_string()).unwrap();
    contract.approve_codehash(account(0), "code-1".to_string()).unwrap();
    contract.register_coordinator(account(1), "sum-1".to_string(), "code-1".to_string()).unwrap();
    contract.register_worker(account(0), 0, "w0".to_string(), None).unwrap();
    contract
}

#[test]
fn test_initialization() {
    let contract = CoordinatorContract::new(account(0));
    assert_eq!(contract.get_owner(), account(0));
    assert_eq!(contract.get_current_proposal_id(), 0);
    assert!(contract.get_manifesto().is_none());
}

#[test]
fn test_set_manifesto() {
    let mut contract = CoordinatorContract::new(account(0));
    contract.set_manifesto(account(0), "We vote for good things.".to_string()).unwrap();
    let manifesto = contract.get_manifesto().unwrap();
    assert_eq!(manifesto.text, "We vote for good things.");
    assert_eq!(manifesto.hash.len(), 64);
}

#[test]
fn test_approve_codehash() {
    let mut contract = CoordinatorContract::new(account(0));
    contract.approve_codehash(account(0), "test_codehash".to_string()).unwrap();
    assert!(contract.is_codehash_approved("test_codehash".to_string()));
}

#[test]
#[should_panic(expected = "Only owner can call this function")]
fn test_non_owner_cannot_approve_codehash() {
    let mut contract = CoordinatorContract::new(account(0));
    if let Err(e) = contract.approve_codehash(account(1), "test_codehash".to_string()) {
        panic!("{}", e.message());
    }
}

#[test]
fn non_owner_approval_changes_nothing() {
    let mut contract = CoordinatorContract::new(account(0));
    let r = contract.approve_codehash(account(1), "test_codehash".to_string());
    assert_eq!(r, Err(ContractError::NotOwner));
    assert!(!contract.is_codehash_approved("test_codehash".to_string()));
}

#[test]
fn manifesto_is_owner_only_and_bounded() {
    let mut contract = CoordinatorContract::new(account(0));
    assert_eq!(
        contract.set_manifesto(account(1), "text".to_string()),
        Err(ContractError::NotOwner)
    );
    assert_eq!(
        contract.set_manifesto(account(0), "x".repeat(10001)),
        Err(ContractError::ManifestoTooLong)
    );
    assert!(contract.get_manifesto().is_none());
    assert_eq!(contract.set_manifesto(account(0), "x".repeat(10000)), Ok(()));
    let manifesto = contract.get_manifesto().unwrap();
    assert_eq!(manifesto.hash, hash(&"x".repeat(10000)));
}

#[test]
fn manifesto_length_counts_bytes() {
    let mut contract = CoordinatorContract::new(account(0));
    // 5,001 two-byte characters are 10,002 bytes.
    assert_eq!(
        contract.set_manifesto(account(0), "é".repeat(5001)),
        Err(ContractError::ManifestoTooLong)
    );
    assert_eq!(contract.set_manifesto(account(0), "é".repeat(5000)), Ok(()));
}

#[test]
fn start_needs_manifesto_and_bounded_config() {
    let mut contract = CoordinatorContract::new(account(0));
    assert_eq!(contract.yield_request("cfg"), Err(ContractError::ManifestoNotSet));
    assert_eq!(
        contract.start_coordination(account(2), 5, "cfg".to_string(), [0u8; 32]),
        Err(ContractError::ManifestoNotSet)
    );
    contract.set_manifesto(account(0), "m".to_string()).unwrap();
    let long = "c".repeat(10001);
    assert_eq!(contract.yield_request(&long), Err(ContractError::TaskConfigTooLong));
    assert_eq!(
        contract.start_coordination(account(2), 5, long, [0u8; 32]),
        Err(ContractError::TaskConfigTooLong)
    );
    assert_eq!(contract.get_current_proposal_id(), 0);
    assert_eq!(
        contract.start_coordination(account(2), 5, "c".repeat(10000), [0u8; 32]),
        Ok(1)
    );
}

#[test]
fn ids_are_issued_in_order_and_never_reused() {
    let mut contract = ready();
    assert_eq!(contract.start_coordination(account(2), 1, "a".to_string(), [1u8; 32]), Ok(1));
    assert_eq!(contract.start_coordination(account(2), 2, "b".to_string(), [2u8; 32]), Ok(2));
    contract.clear_proposal(account(0), 2).unwrap();
    assert_eq!(contract.start_coordination(account(2), 3, "c".to_string(), [3u8; 32]), Ok(3));
    assert!(contract.get_proposal(2).is_none());
    assert_eq!(contract.get_current_proposal_id(), 3);
}

#[test]
fn id_space_can_run_out() {
    let mut contract = CoordinatorContract::force_migrate(account(0), u64::MAX);
    contract.set_manifesto(account(0), "m".to_string()).unwrap();
    assert_eq!(contract.yield_request("cfg"), Err(ContractError::ProposalIdsExhausted));
    assert_eq!(
        contract.start_coordination(account(2), 1, "cfg".to_string(), [0u8; 32]),
        Err(ContractError::ProposalIdsExhausted)
    );
}

#[test]
fn force_migrate_continues_the_count() {
    let mut contract = CoordinatorContract::force_migrate(account(0), 41);
    assert_eq!(contract.get_owner(), account(0));
    assert!(contract.get_manifesto().is_none());
    contract.migrate();
    contract.set_manifesto(account(0), "m".to_string()).unwrap();
    assert_eq!(contract.start_coordination(account(2), 1, "cfg".to_string(), [0u8; 32]), Ok(42));
}

#[test]
fn started_proposal_is_created_with_config_fingerprint() {
    let mut contract = ready();
    let id = contract.start_coordination(account(2), 77, "cfg-A".to_string(), [9u8; 32]).unwrap();
    let p = contract.get_proposal(id).unwrap();
    assert_eq!(p.yield_id, [9u8; 32]);
    assert_eq!(p.task_config, "cfg-A");
    assert_eq!(p.config_hash, hash("cfg-A"));
    assert_eq!(p.timestamp, 77);
    assert_eq!(p.requester, account(2));
    assert_eq!(p.state, ProposalState::Created);
    assert!(p.worker_submissions.is_empty());
    assert!(p.finalized_result.is_none());
}

#[test]
fn full_lifecycle_scenario() {
    let mut contract = ready();
    contract.register_worker(account(0), 10, "w1".to_string(), None).unwrap();

    assert_eq!(
        contract.yield_request("cfg-A").unwrap(),
        b"{\"proposal_id\":1,\"task_config\":\"cfg-A\"}".to_vec()
    );
    let id = contract.start_coordination(account(2), 100, "cfg-A".to_string(), [7u8; 32]).unwrap();
    assert_eq!(id, 1);
    assert_eq!(contract.get_proposal(1).unwrap().config_hash, hash("cfg-A"));

    // A worker that occurs twice refuses the whole call.
    let r = contract.record_worker_submissions(
        account(1),
        110,
        1,
        vec![input("w1", "r1"), input("w1", "r2")],
    );
    assert_eq!(r, Err(ContractError::WorkerAlreadySubmitted { index: 1 }));
    assert_eq!(contract.get_worker_submissions(1).len(), 0);
    assert_eq!(contract.get_proposal(1).unwrap().state, ProposalState::Created);

    let r = contract.record_worker_submissions(account(1), 120, 1, vec![input("w1", "r1")]);
    assert_eq!(r, Ok(()));
    let p = contract.get_proposal(1).unwrap();
    assert_eq!(p.state, ProposalState::WorkersCompleted);
    assert_eq!(p.worker_submissions.len(), 1);
    assert_eq!(p.worker_submissions[0].worker_id, "w1");
    assert_eq!(p.worker_submissions[0].result_hash, "r1");
    assert_eq!(p.worker_submissions[0].timestamp, 120);

    let request = contract
        .coordinator_resume(account(1), 1, "final".to_string(), hash("cfg-A"), hash("final"))
        .unwrap();
    assert_eq!(request.yield_id, [7u8; 32]);
    assert_eq!(request.payload, b"\"final\"".to_vec());
    // Resuming settles nothing by itself.
    assert_eq!(contract.get_proposal(1).unwrap().state, ProposalState::WorkersCompleted);
    assert_eq!(contract.get_finalized_coordination(1), None);

    let out =
        contract.return_coordination_result(1, "cfg-A".to_string(), Ok("final".to_string()));
    assert!(matches!(out, CallbackOutcome::Value(ref v) if v == "final"));
    let p = contract.get_proposal(1).unwrap();
    assert_eq!(p.state, ProposalState::Finalized);
    assert_eq!(p.finalized_result, Some("final".to_string()));
    assert_eq!(contract.get_finalized_coordination(1), Some("final".to_string()));

    let again =
        contract.coordinator_resume(account(1), 1, "final".to_string(), hash("cfg-A"), hash("final"));
    assert_eq!(again.err(), Some(ContractError::NotInWorkersCompletedState));
    let late = contract.record_worker_submissions(account(1), 130, 1, vec![input("w1", "r1")]);
    assert_eq!(late, Err(ContractError::NotInCreatedState));
    assert_eq!(contract.get_worker_submissions(1).len(), 1);
}

#[test]
fn submissions_key_off_the_current_active_flag() {
    let mut contract = ready();
    contract.register_worker(account(1), 10, "w1".to_string(), Some(account(3))).unwrap();
    contract.deactivate_worker(account(0), "w1".to_string()).unwrap();
    assert!(!contract.is_worker_registered("w1".to_string()));
    contract.start_coordination(account(2), 20, "cfg".to_string(), [1u8; 32]).unwrap();
    assert_eq!(
        contract.record_worker_submissions(account(1), 21, 1, vec![input("w1", "r")]),
        Err(ContractError::WorkerNotActive { index: 0 })
    );
    assert_eq!(contract.get_proposal(1).unwrap().state, ProposalState::Created);

    contract.activate_worker(account(0), "w1".to_string()).unwrap();
    assert!(contract.is_worker_registered("w1".to_string()));
    contract.deactivate_worker(account(0), "w1".to_string()).unwrap();
    assert_eq!(
        contract.record_worker_submissions(account(1), 22, 1, vec![input("w1", "r")]),
        Err(ContractError::WorkerNotActive { index: 0 })
    );

    contract.activate_worker(account(0), "w1".to_string()).unwrap();
    assert_eq!(
        contract.record_worker_submissions(account(1), 23, 1, vec![input("w1", "r")]),
        Ok(())
    );
    // What was recorded stays when the worker is deactivated later.
    contract.deactivate_worker(account(0), "w1".to_string()).unwrap();
    assert_eq!(contract.get_worker_submissions(1).len(), 1);
    let workers = contract.get_registered_workers();
    assert_eq!(workers.len(), 2);
    assert_eq!(workers[0].worker_id, "w0");
    assert!(workers[0].active);
    assert_eq!(workers[1].worker_id, "w1");
    assert_eq!(workers[1].registered_at, 10);
    assert_eq!(workers[1].registered_by, account(1));
    assert_eq!(workers[1].account_id, Some(account(3)));
    assert!(!workers[1].active);
}

#[test]
fn first_bad_submission_decides_the_error() {
    let mut contract = ready();
    contract.register_worker(account(0), 1, "w1".to_string(), None).unwrap();
    contract.register_worker(account(0), 1, "w2".to_string(), None).unwrap();
    contract.start_coordination(account(2), 2, "cfg".to_string(), [1u8; 32]).unwrap();
    // An unknown worker that also repeats is reported as not active.
    assert_eq!(
        contract.record_worker_submissions(
            account(1),
            3,
            1,
            vec![input("w1", "a"), input("w2", "b"), input("ghost", "c"), input("w1", "d")],
        ),
        Err(ContractError::WorkerNotActive { index: 2 })
    );
    assert_eq!(
        contract.record_worker_submissions(
            account(1),
            3,
            1,
            vec![input("w1", "a"), input("w2", "b"), input("w2", "c"), input("ghost", "d")],
        ),
        Err(ContractError::WorkerAlreadySubmitted { index: 2 })
    );
    assert_eq!(contract.get_worker_submissions(1).len(), 0);
    assert_eq!(
        contract.record_worker_submissions(
            account(1),
            4,
            1,
            vec![input("w2", "b"), input("w1", "a")],
        ),
        Ok(())
    );
    let subs = contract.get_worker_submissions(1);
    assert_eq!(subs.len(), 2);
    assert_eq!(subs[0].worker_id, "w2");
    assert_eq!(subs[1].worker_id, "w1");
    assert_eq!(subs[1].result_hash, "a");
}

#[test]
fn empty_submission_list_is_refused() {
    let mut contract = ready();
    contract.start_coordination(account(2), 2, "cfg".to_string(), [1u8; 32]).unwrap();
    assert_eq!(
        contract.record_worker_submissions(account(1), 3, 1, vec![]),
        Err(ContractError::NoSubmissions)
    );
    let p = contract.get_proposal(1).unwrap();
    assert_eq!(p.state, ProposalState::Created);
    assert!(p.worker_submissions.is_empty());
    assert_eq!(ContractError::NoSubmissions.message(), "No worker submissions given");
    // The state of the proposal is looked at before the list.
    contract.record_worker_submissions(account(1), 4, 1, vec![input("w0", "r")]).unwrap();
    assert_eq!(
        contract.record_worker_submissions(account(1), 5, 1, vec![]),
        Err(ContractError::NotInCreatedState)
    );
}

#[test]
fn submissions_need_admission_first() {
    let mut contract = ready();
    contract.start_coordination(account(2), 2, "cfg".to_string(), [1u8; 32]).unwrap();
    assert_eq!(
        contract.record_worker_submissions(account(2), 3, 9, vec![]),
        Err(ContractError::NotRegisteredCoordinator)
    );
    assert_eq!(
        contract.record_worker_submissions(account(1), 3, 9, vec![]),
        Err(ContractError::ProposalNotFound)
    );
    contract.remove_codehash(account(0), "code-1".to_string()).unwrap();
    assert_eq!(
        contract.record_worker_submissions(account(1), 3, 1, vec![]),
        Err(ContractError::CodehashNoLongerApproved)
    );
}

#[test]
fn resume_checks_come_in_order() {
    let mut contract = ready();
    contract.register_worker(account(0), 1, "w1".to_string(), None).unwrap();
    contract.start_coordination(account(2), 2, "cfg".to_string(), [1u8; 32]).unwrap();
    let resume = |c: &CoordinatorContract, who: usize, id: u64, res: &str, ch: String, rh: String| {
        c.coordinator_resume(account(who), id, res.to_string(), ch, rh).err()
    };
    assert_eq!(
        resume(&contract, 2, 1, "final", hash("cfg"), hash("final")),
        Some(ContractError::NotRegisteredCoordinator)
    );
    assert_eq!(
        resume(&contract, 1, 5, "final", hash("cfg"), hash("final")),
        Some(ContractError::ProposalNotFound)
    );
    assert_eq!(
        resume(&contract, 1, 1, "final", hash("cfg"), hash("final")),
        Some(ContractError::NotInWorkersCompletedState)
    );
    contract.record_worker_submissions(account(1), 3, 1, vec![input("w1", "r")]).unwrap();
    // The configuration is unchanged, but the claim is wrong.
    assert_eq!(
        resume(&contract, 1, 1, "final", hash("cfg "), hash("final")),
        Some(ContractError::ConfigHashMismatch)
    );
    assert_eq!(
        resume(&contract, 1, 1, "final", "cfg".to_string(), "bad".to_string()),
        Some(ContractError::ConfigHashMismatch)
    );
    assert_eq!(
        resume(&contract, 1, 1, "final", hash("cfg"), hash("Final")),
        Some(ContractError::ResultHashMismatch)
    );
    assert_eq!(
        resume(&contract, 1, 1, "final", hash("cfg"), hash("final").to_uppercase()),
        Some(ContractError::ResultHashMismatch)
    );
    assert_eq!(resume(&contract, 1, 1, "final", hash("cfg"), hash("final")), None);
    assert_eq!(resume(&contract, 1, 1, "", hash("cfg"), hash("")), None);
}

#[test]
fn timeout_marks_the_proposal_and_asks_for_failure() {
    let mut contract = ready();
    contract.start_coordination(account(2), 2, "cfg".to_string(), [1u8; 32]).unwrap();
    contract.record_worker_submissions(account(1), 3, 1, vec![input("w0", "r")]).unwrap();
    let out = contract.return_coordination_result(1, "cfg".to_string(), Err(PromiseError::Failed));
    assert!(matches!(out, CallbackOutcome::FailOnTimeout));
    let p = contract.get_proposal(1).unwrap();
    assert_eq!(p.state, ProposalState::TimedOut);
    assert_eq!(p.finalized_result, None);
    assert_eq!(contract.get_finalized_coordination(1), None);
    assert_eq!(contract.fail_on_timeout(), Err(ContractError::TimedOut));
    assert_eq!(ContractError::TimedOut.message(), "Coordination request timed out");
    assert_eq!(
        contract
            .coordinator_resume(account(1), 1, "r".to_string(), hash("cfg"), hash("r"))
            .err(),
        Some(ContractError::NotInWorkersCompletedState)
    );
}

#[test]
fn outcome_for_unknown_proposal_changes_nothing() {
    let mut contract = ready();
    contract.start_coordination(account(2), 2, "cfg".to_string(), [1u8; 32]).unwrap();
    let out = contract.return_coordination_result(9, "cfg".to_string(), Ok("r".to_string()));
    assert!(matches!(out, CallbackOutcome::Value(ref v) if v == "r"));
    let out =
        contract.return_coordination_result(9, "cfg".to_string(), Err(PromiseError::TooLong(3)));
    assert!(matches!(out, CallbackOutcome::FailOnTimeout));
    assert_eq!(contract.get_all_proposals(&None, &None).len(), 1);
    assert_eq!(contract.get_proposal(1).unwrap().state, ProposalState::Created);
}

#[test]
fn purge_fails_loudly_the_second_time() {
    let mut contract = ready();
    contract.start_coordination(account(2), 2, "cfg".to_string(), [1u8; 32]).unwrap();
    assert_eq!(contract.clear_proposal(account(1), 1), Err(ContractError::NotOwner));
    assert_eq!(contract.clear_proposal(account(0), 1), Ok(()));
    assert!(contract.get_proposal(1).is_none());
    assert_eq!(contract.clear_proposal(account(0), 1), Err(ContractError::ProposalNotFound));
}

#[test]
fn resume_decision_on_given_fingerprints() {
    let mut contract = ready();
    contract.start_coordination(account(2), 2, "cfg".to_string(), [5u8; 32]).unwrap();
    let stored = hash("cfg");
    let check = |c: &CoordinatorContract, who: usize, id: u64, cfg: &str, claim: &str, real: &str| {
        c.check_resume(&account(who), id, &cfg.to_string(), &claim.to_string(), &real.to_string())
    };
    assert_eq!(
        check(&contract, 1, 1, &stored, "aa", "aa"),
        Err(ContractError::NotInWorkersCompletedState)
    );
    contract.record_worker_submissions(account(1), 3, 1, vec![input("w0", "r")]).unwrap();
    assert_eq!(check(&contract, 1, 1, &stored, "aa", "aa"), Ok([5u8; 32]));
    assert_eq!(check(&contract, 1, 1, &stored, "aa", "ab"), Err(ContractError::ResultHashMismatch));
    assert_eq!(check(&contract, 1, 1, "other", "aa", "ab"), Err(ContractError::ConfigHashMismatch));
    assert_eq!(check(&contract, 1, 2, "other", "aa", "ab"), Err(ContractError::ProposalNotFound));
    assert_eq!(
        check(&contract, 0, 2, "other", "aa", "ab"),
        Err(ContractError::NotRegisteredCoordinator)
    );
}

#[test]
fn outcome_settles_only_after_the_workers() {
    let mut contract = ready();
    contract.start_coordination(account(2), 2, "cfg".to_string(), [1u8; 32]).unwrap();

    // While the proposal is `Created`, neither a timeout nor a result moves it.
    let out = contract.return_coordination_result(1, "cfg".to_string(), Err(PromiseError::Failed));
    assert!(matches!(out, CallbackOutcome::FailOnTimeout));
    let p = contract.get_proposal(1).unwrap();
    assert_eq!(p.state, ProposalState::Created);
    assert_eq!(p.finalized_result, None);
    let out = contract.return_coordination_result(1, "cfg".to_string(), Ok("early".to_string()));
    assert!(matches!(out, CallbackOutcome::Value(ref v) if v == "early"));
    let p = contract.get_proposal(1).unwrap();
    assert_eq!(p.state, ProposalState::Created);
    assert_eq!(p.finalized_result, None);
    assert_eq!(contract.get_finalized_coordination(1), None);

    // The proposal can still take its normal course.
    contract.record_worker_submissions(account(1), 3, 1, vec![input("w0", "r")]).unwrap();
    contract.return_coordination_result(1, "cfg".to_string(), Ok("final".to_string()));
    assert_eq!(contract.get_proposal(1).unwrap().state, ProposalState::Finalized);

    // A settled proposal stays as it is.
    let out = contract.return_coordination_result(1, "cfg".to_string(), Err(PromiseError::Failed));
    assert!(matches!(out, CallbackOutcome::FailOnTimeout));
    contract.return_coordination_result(1, "cfg".to_string(), Ok("other".to_string()));
    let p = contract.get_proposal(1).unwrap();
    assert_eq!(p.state, ProposalState::Finalized);
    assert_eq!(p.finalized_result, Some("final".to_string()));
    assert!(contract.is_well_formed());
}

#[test]
fn timed_out_proposal_stays_timed_out() {
    let mut contract = ready();
    contract.start_coordination(account(2), 2, "cfg".to_string(), [1u8; 32]).unwrap();
    contract.record_worker_submissions(account(1), 3, 1, vec![input("w0", "r")]).unwrap();
    contract.return_coordination_result(1, "cfg".to_string(), Err(PromiseError::TooLong(9)));
    contract.return_coordination_result(1, "cfg".to_string(), Ok("late".to_string()));
    let p = contract.get_proposal(1).unwrap();
    assert_eq!(p.state, ProposalState::TimedOut);
    assert_eq!(p.finalized_result, None);
}
