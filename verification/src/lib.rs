//! A verified cluster-inventory core: per-kind Kubernetes resource
//! watchers that keep a compressed, de-duplicated, versioned in-memory
//! snapshot of every object of their kind, and a host-process inventory
//! scanner with regex-based accept/drop/rewrite rules and a stable
//! content digest. The outside world (API client, `/proc`, subprocesses)
//! stays behind thin interfaces; every decision in between is proved.

pub mod codec;
pub mod factory;
pub mod laws;
pub mod model;
pub mod passwd;
pub mod perf;
pub mod rules;
pub mod scanner;
pub mod store;
pub mod trim;
pub mod watcher;
pub mod util;

use vstd::prelude::*;

verus! {

/// Seconds between full lists when the watch stream keeps failing.
pub const LIST_INTERVAL_SECS: u64 = 600;

/// Reserved refresh period; the reconciliation loop does not use it yet.
pub const REFRESH_INTERVAL_SECS: u64 = 3600;

/// Seconds the reconciliation loop sleeps after the watch stream ends.
pub const SLEEP_INTERVAL_SECS: u64 = 5;

/// Decides whether enough time has passed since the last successful full
/// list for the reconciliation loop to perform another one.
pub fn should_relist(elapsed_secs: u64) -> (r: bool)
    ensures
        r == (elapsed_secs >= LIST_INTERVAL_SECS),
{
    elapsed_secs >= LIST_INTERVAL_SECS
}

} // verus!
