//! Operations: run-time configuration, manual money operations under dual
//! control, and alerting.

pub mod alerts;
pub mod audit;
pub mod catalog;
pub mod chain_reconcile;
pub mod checks;
pub mod config;
pub mod delivery;
pub mod fee_override;
pub mod fences;
pub mod fingerprint;
pub mod proposals;
pub mod reconciler;
pub mod refanout;
pub mod remedial_credit;
pub mod replay_job;
pub mod reversal;
pub mod set_config;
pub mod snapshot;
pub mod staleness;
pub mod unwind_market;
pub mod unwind_writes;
