//! A ledger that coordinates multi-party off-chain computations, and the
//! directory of the coordinators and workers that take part.
//!
//! A task is issued as a proposal, suspended behind a continuation token,
//! fed with one submission per participating worker, and settled once an
//! authorised coordinator reports a result whose fingerprints check out.
//! Every operation is a total function of the state and of plain values
//! (caller identity, block time, continuation token, attached deposit), so
//! the host that performs the actual suspension and storage stays outside.
//!
//! - `hasher`: fingerprints of texts.
//! - `payload`: what crosses the suspend/resume boundary.
//! - `types`, `model`: the records and the ledger as mathematical values.
//! - `lookup`: finding an entry by its key.
//! - `coordinator`, `admin`, `queries`: the ledger's operations.
//! - `laws`: what holds of the ledger whatever is asked of it.
//! - `storage`: the namespaces of the persisted collections.
//! - `registry`: the directory.
//! - `validation`: the invariants as run-time checks.

pub mod hasher;
pub mod payload;
pub mod types;
pub mod model;
pub mod lookup;
pub mod coordinator;
pub mod admin;
pub mod queries;
pub mod laws;
pub mod storage;
pub mod registry;
pub mod validation;
