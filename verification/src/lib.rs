//! Rocktick: a multi-tenant job scheduler core.
//!
//! The scheduling and dispatch state machine is modelled over an in-memory
//! image of the relational store; every transition a scheduler, broker or
//! recorder may commit is a verified function on that image.

pub mod api;
pub mod cron;
pub mod dispatch;
pub mod drivers;
pub mod drones;
pub mod ids;
pub mod one_off;
pub mod reaper;
pub mod recorder;
pub mod retention;
pub mod retry;
pub mod signing;
pub mod store;
pub mod tenants;
pub mod workflow;

use vstd::prelude::*;

verus! {

/// Default timeout applied when neither the job nor its tenant sets one.
pub const DEFAULT_TIMEOUT_MS: i64 = 60_000;

/// Timeout assumed by the lease reaper when neither the job nor its tenant
/// sets one.
pub const REAPER_DEFAULT_TIMEOUT_MS: i64 = 120_000;

/// Slack added on top of a lease's timeout before the reaper may recover it.
pub const LEASE_SLACK_SECS: i64 = 90;

/// Effective timeout of a scheduled job: its own, else the tenant's cap,
/// else the default.
pub open spec fn effective_timeout_spec(job_timeout_ms: Option<i64>, tenant_max_timeout: Option<i64>, default_ms: i64) -> i64 {
    match job_timeout_ms {
        Some(t) => t,
        None => match tenant_max_timeout {
            Some(t) => t,
            None => default_ms,
        },
    }
}

/// Effective timeout of a scheduled job: its own, else the tenant's cap,
/// else `default_ms`.
pub fn effective_timeout(job_timeout_ms: Option<i64>, tenant_max_timeout: Option<i64>, default_ms: i64) -> (r: i64)
    ensures
        r == effective_timeout_spec(job_timeout_ms, tenant_max_timeout, default_ms),
{
    match job_timeout_ms {
        Some(t) => t,
        None => match tenant_max_timeout {
            Some(t) => t,
            None => default_ms,
        },
    }
}

} // verus!
