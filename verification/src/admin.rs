//! Administration: the approved codehashes, the coordinators bound to them,
//! the workers, the purge of proposals and the ownership of the ledger.

use crate::coordinator::CoordinatorContract;
use crate::model::ContractView;
use crate::types::{ContractError, RegisteredWorker, RegisteredWorkerView, Worker, WorkerView};
use vstd::prelude::*;

verus! {

impl CoordinatorContract {
    /// A ledger that starts over with `owner` and continues the count of
    /// proposal ids at `current_proposal_id`.
    pub fn force_migrate(owner: String, current_proposal_id: u64) -> (out: Self)
        ensures
            out@ == ContractView::empty(owner@, current_proposal_id),
            out.wf(),
    {
        let out = CoordinatorContract {
            owner,
            approved_codehashes: Vec::new(),
            coordinator_by_account_id: Vec::new(),
            current_proposal_id,
            proposals: Vec::new(),
            manifesto: None,
            registered_workers: Vec::new(),
        };
        assert(out@.approved_codehashes =~= Seq::empty());
        assert(out@.coordinators =~= Seq::empty());
        assert(out@.proposals =~= Seq::empty());
        assert(out@.workers =~= Seq::empty());
        assert(out@.coordinator_accounts() =~= Seq::empty());
        assert(out@.worker_ids() =~= Seq::empty());
        out
    }

    /// Changes nothing: a ledger in the current layout needs no migration.
    pub fn migrate(&mut self)
        ensures
            *final(self) == *old(self),
    {
    }

    /// Approves a codehash. Only the owner may.
    pub fn approve_codehash(&mut self, caller: String, codehash: String) -> (r: Result<
        (),
        ContractError,
    >)
        requires
            old(self).wf(),
        ensures
            final(self).wf(),
            old(self)@.evolves_to(final(self)@),
            match r {
                Ok(()) => {
                    &&& caller@ == old(self)@.owner
                    &&& final(self)@ == old(self)@.with_codehash(codehash@)
                    &&& final(self)@.is_approved(codehash@)
                    &&& old(self)@.same_approvals_except(final(self)@, codehash@)
                },
                Err(e) => {
                    &&& caller@ != old(self)@.owner
                    &&& e == ContractError::NotOwner
                    &&& final(self)@ == old(self)@
                },
            },
    {
        if let Err(e) = self.require_owner(&caller) {
            return Err(e);
        }
        let ghost before = self@;
        if self.find_codehash(&codehash).is_none() {
            self.approved_codehashes.push(codehash);
            assert(self@.approved_codehashes =~= before.approved_codehashes.push(codehash@));
        }
        proof {
            before.lemma_with_codehash(codehash@);
        }
        Ok(())
    }

    /// Revokes a codehash. Only the owner may. Revoking one that is not
    /// approved changes nothing.
    pub fn remove_codehash(&mut self, caller: String, codehash: String) -> (r: Result<
        (),
        ContractError,
    >)
        requires
            old(self).wf(),
        ensures
            final(self).wf(),
            old(self)@.evolves_to(final(self)@),
            match r {
                Ok(()) => {
                    &&& caller@ == old(self)@.owner
                    &&& final(self)@ == old(self)@.without_codehash(codehash@)
                    &&& !final(self)@.is_approved(codehash@)
                    &&& old(self)@.same_approvals_except(final(self)@, codehash@)
                },
                Err(e) => {
                    &&& caller@ != old(self)@.owner
                    &&& e == ContractError::NotOwner
                    &&& final(self)@ == old(self)@
                },
            },
    {
        if let Err(e) = self.require_owner(&caller) {
            return Err(e);
        }
        let ghost before = self@;
        if let Some(i) = self.find_codehash(&codehash) {
            let _ = self.approved_codehashes.remove(i);
            assert(self@.approved_codehashes =~= before.approved_codehashes.remove(i as int));
        }
        proof {
            before.lemma_without_codehash(codehash@);
        }
        Ok(())
    }

    /// Whether `codehash` is approved.
    pub fn is_codehash_approved(&self, codehash: String) -> (approved: bool)
        ensures
            approved == self@.is_approved(codehash@),
    {
        self.find_codehash(&codehash).is_some()
    }

    /// Binds the caller to `codehash`, which must be approved. A caller
    /// that registers again is bound anew.
    pub fn register_coordinator(&mut self, caller: String, checksum: String, codehash: String) -> (r:
        Result<(), ContractError>)
        requires
            old(self).wf(),
        ensures
            final(self).wf(),
            old(self)@.evolves_to(final(self)@),
            match r {
                Ok(()) => {
                    &&& old(self)@.is_approved(codehash@)
                    &&& final(self)@ == old(self)@.with_binding(
                        caller@,
                        WorkerView { checksum: checksum@, codehash: codehash@ },
                    )
                    &&& final(self)@.binding(caller@) == Some(
                        WorkerView { checksum: checksum@, codehash: codehash@ },
                    )
                    &&& old(self)@.same_bindings_except(final(self)@, caller@)
                },
                Err(e) => {
                    &&& !old(self)@.is_approved(codehash@)
                    &&& e == ContractError::CodehashNotApproved
                    &&& final(self)@ == old(self)@
                },
            },
    {
        if self.find_codehash(&codehash).is_none() {
            return Err(ContractError::CodehashNotApproved);
        }
        let ghost before = self@;
        let ghost entry = (caller@, WorkerView { checksum: checksum@, codehash: codehash@ });
        let worker = Worker { checksum, codehash };
        match self.find_coordinator(&caller) {
            Some(i) => {
                self.coordinator_by_account_id[i] = (caller, worker);
                assert(self@.coordinators =~= before.coordinators.update(i as int, entry));
            },
            None => {
                self.coordinator_by_account_id.push((caller, worker));
                assert(self@.coordinators =~= before.coordinators.push(entry));
            },
        }
        proof {
            before.lemma_with_binding(entry.0, entry.1);
        }
        Ok(())
    }

    /// Removes a proposal, whatever its state. Only the owner may, and the
    /// proposal must exist.
    pub fn clear_proposal(&mut self, caller: String, proposal_id: u64) -> (r: Result<
        (),
        ContractError,
    >)
        requires
            old(self).wf(),
        ensures
            final(self).wf(),
            old(self)@.evolves_to(final(self)@),
            match r {
                Ok(()) => {
                    &&& caller@ == old(self)@.owner
                    &&& old(self)@.proposal(proposal_id) is Some
                    &&& final(self)@ == old(self)@.without_proposal(proposal_id)
                    &&& final(self)@.proposal(proposal_id) is None
                    &&& old(self)@.same_proposals_except(final(self)@, proposal_id)
                },
                Err(e) => {
                    &&& final(self)@ == old(self)@
                    &&& caller@ != old(self)@.owner ==> e == ContractError::NotOwner
                    &&& caller@ == old(self)@.owner ==> e == ContractError::ProposalNotFound
                        && old(self)@.proposal(proposal_id) is None
                },
            },
    {
        if let Err(e) = self.require_owner(&caller) {
            return Err(e);
        }
        let ghost before = self@;
        match self.find_proposal(proposal_id) {
            Some(i) => {
                let _ = self.proposals.remove(i);
                proof {
                    assert(self@.proposals =~= before.proposals.remove(i as int));
                    before.lemma_without_proposal(proposal_id);
                }
                Ok(())
            },
            None => Err(ContractError::ProposalNotFound),
        }
    }

    /// Registers a worker as active, or registers it anew. The owner may,
    /// and every coordinator whose codehash is approved at this moment.
    pub fn register_worker(
        &mut self,
        caller: String,
        now: u64,
        worker_id: String,
        account_id: Option<String>,
    ) -> (r: Result<(), ContractError>)
        requires
            old(self).wf(),
        ensures
            final(self).wf(),
            old(self)@.evolves_to(final(self)@),
            match r {
                Ok(()) => {
                    &&& old(self)@.is_registrar(caller@)
                    &&& final(self)@ == old(self)@.with_worker(
                        RegisteredWorkerView {
                            worker_id: worker_id@,
                            account_id: account_id.deep_view(),
                            registered_at: now,
                            registered_by: caller@,
                            active: true,
                        },
                    )
                    &&& final(self)@.is_active_worker(worker_id@)
                    &&& old(self)@.same_workers_except(final(self)@, worker_id@)
                },
                Err(e) => {
                    &&& !old(self)@.is_registrar(caller@)
                    &&& e == ContractError::NotRegistrar
                    &&& final(self)@ == old(self)@
                },
            },
    {
        if !self.may_manage_workers(&caller) {
            return Err(ContractError::NotRegistrar);
        }
        let ghost before = self@;
        let found = self.find_worker(&worker_id);
        let worker = RegisteredWorker {
            worker_id,
            account_id,
            registered_at: now,
            registered_by: caller,
            active: true,
        };
        let ghost entry = worker@;
        match found {
            Some(i) => {
                self.registered_workers[i] = worker;
                assert(self@.workers =~= before.workers.update(i as int, entry));
            },
            None => {
                self.registered_workers.push(worker);
                assert(self@.workers =~= before.workers.push(entry));
            },
        }
        proof {
            before.lemma_with_worker(entry);
        }
        Ok(())
    }

    /// Removes a worker from the registry. Only the owner may, and the
    /// worker must be registered.
    pub fn remove_worker(&mut self, caller: String, worker_id: String) -> (r: Result<
        (),
        ContractError,
    >)
        requires
            old(self).wf(),
        ensures
            final(self).wf(),
            old(self)@.evolves_to(final(self)@),
            match r {
                Ok(()) => {
                    &&& caller@ == old(self)@.owner
                    &&& old(self)@.worker(worker_id@) is Some
                    &&& final(self)@ == old(self)@.without_worker(worker_id@)
                    &&& final(self)@.worker(worker_id@) is None
                    &&& old(self)@.same_workers_except(final(self)@, worker_id@)
                },
                Err(e) => {
                    &&& final(self)@ == old(self)@
                    &&& caller@ != old(self)@.owner ==> e == ContractError::NotOwner
                    &&& caller@ == old(self)@.owner ==> e == ContractError::WorkerNotFound
                        && old(self)@.worker(worker_id@) is None
                },
            },
    {
        if let Err(e) = self.require_owner(&caller) {
            return Err(e);
        }
        let ghost before = self@;
        match self.find_worker(&worker_id) {
            Some(i) => {
                let _ = self.registered_workers.remove(i);
                proof {
                    assert(self@.workers =~= before.workers.remove(i as int));
                    before.lemma_without_worker(worker_id@);
                }
                Ok(())
            },
            None => Err(ContractError::WorkerNotFound),
        }
    }

    fn set_worker_active(&mut self, caller: &String, worker_id: &String, active: bool) -> (r:
        Result<(), ContractError>)
        requires
            old(self).wf(),
        ensures
            final(self).wf(),
            old(self)@.evolves_to(final(self)@),
            match r {
                Ok(()) => {
                    &&& old(self)@.is_registrar(caller@)
                    &&& old(self)@.worker(worker_id@) is Some
                    &&& final(self)@ == old(self)@.with_worker_active(worker_id@, active)
                    &&& final(self)@.is_active_worker(worker_id@) == active
                    &&& old(self)@.same_workers_except(final(self)@, worker_id@)
                },
                Err(e) => {
                    &&& final(self)@ == old(self)@
                    &&& !old(self)@.is_registrar(caller@) ==> e == ContractError::NotRegistrar
                    &&& old(self)@.is_registrar(caller@) ==> e == ContractError::WorkerNotFound
                        && old(self)@.worker(worker_id@) is None
                },
            },
    {
        if !self.may_manage_workers(caller) {
            return Err(ContractError::NotRegistrar);
        }
        let ghost before = self@;
        match self.find_worker(worker_id) {
            Some(i) => {
                self.registered_workers[i].active = active;
                proof {
                    assert(self@.workers =~= before.workers.update(
                        i as int,
                        RegisteredWorkerView { active, ..before.workers[i as int] },
                    ));
                    before.lemma_with_worker_active(worker_id@, active);
                }
                Ok(())
            },
            None => Err(ContractError::WorkerNotFound),
        }
    }

    /// Keeps a worker registered but bars it from taking part. The owner
    /// may, and every coordinator whose codehash is approved at this moment;
    /// the worker must be registered.
    pub fn deactivate_worker(&mut self, caller: String, worker_id: String) -> (r: Result<
        (),
        ContractError,
    >)
        requires
            old(self).wf(),
        ensures
            final(self).wf(),
            old(self)@.evolves_to(final(self)@),
            match r {
                Ok(()) => {
                    &&& old(self)@.is_registrar(caller@)
                    &&& old(self)@.worker(worker_id@) is Some
                    &&& final(self)@ == old(self)@.with_worker_active(worker_id@, false)
                    &&& !final(self)@.is_active_worker(worker_id@)
                    &&& old(self)@.same_workers_except(final(self)@, worker_id@)
                },
                Err(e) => {
                    &&& final(self)@ == old(self)@
                    &&& !old(self)@.is_registrar(caller@) ==> e == ContractError::NotRegistrar
                    &&& old(self)@.is_registrar(caller@) ==> e == ContractError::WorkerNotFound
                        && old(self)@.worker(worker_id@) is None
                },
            },
    {
        self.set_worker_active(&caller, &worker_id, false)
    }

    /// Lets a deactivated worker take part again. The owner may, and every
    /// coordinator whose codehash is approved at this moment; the worker
    /// must be registered.
    pub fn activate_worker(&mut self, caller: String, worker_id: String) -> (r: Result<
        (),
        ContractError,
    >)
        requires
            old(self).wf(),
        ensures
            final(self).wf(),
            old(self)@.evolves_to(final(self)@),
            match r {
                Ok(()) => {
                    &&& old(self)@.is_registrar(caller@)
                    &&& old(self)@.worker(worker_id@) is Some
                    &&& final(self)@ == old(self)@.with_worker_active(worker_id@, true)
                    &&& final(self)@.is_active_worker(worker_id@)
                    &&& old(self)@.same_workers_except(final(self)@, worker_id@)
                },
                Err(e) => {
                    &&& final(self)@ == old(self)@
                    &&& !old(self)@.is_registrar(caller@) ==> e == ContractError::NotRegistrar
                    &&& old(self)@.is_registrar(caller@) ==> e == ContractError::WorkerNotFound
                        && old(self)@.worker(worker_id@) is None
                },
            },
    {
        self.set_worker_active(&caller, &worker_id, true)
    }

    /// Hands the ledger to a new owner. Only the owner may.
    pub fn transfer_ownership(&mut self, caller: String, new_owner: String) -> (r: Result<
        (),
        ContractError,
    >)
        requires
            old(self).wf(),
        ensures
            final(self).wf(),
            old(self)@.evolves_to(final(self)@),
            match r {
                Ok(()) => {
                    &&& caller@ == old(self)@.owner
                    &&& final(self)@ == old(self)@.with_owner(new_owner@)
                },
                Err(e) => {
                    &&& caller@ != old(self)@.owner
                    &&& e == ContractError::NotOwner
                    &&& final(self)@ == old(self)@
                },
            },
    {
        if let Err(e) = self.require_owner(&caller) {
            return Err(e);
        }
        self.owner = new_owner;
        Ok(())
    }
}

} // verus!
