//! Proactive maintenance: the persisted settings and audit trail, the pure
//! decision of what to do on a tick, the whitelist of what an unattended run
//! may delete, and the bookkeeping of a run.

pub mod config;
pub mod decision;
pub mod policy;
pub mod runner;
