//! What the dashboard knows of each provider between refreshes.

use vstd::prelude::*;

verus! {

/// The latest reading of one provider: its result, the error of the last refresh
/// (if it failed), when it was last updated (Unix milliseconds), whether the first
/// refresh is done, whether the result came from the cache, and how long the
/// limiter asked the next lookup to wait (milliseconds).
#[derive(Clone, Debug)]
pub struct ProviderState<T> {
    pub result: Option<T>,
    pub error: Option<String>,
    pub updated_at: Option<i64>,
    pub ready: bool,
    pub stale: bool,
    pub retry_after_millis: Option<u64>,
}

impl<T> ProviderState<T> {
    /// A provider that has reported nothing yet.
    pub fn empty() -> (r: Self)
        ensures
            r.result is None,
            r.error is None,
            r.updated_at is None,
            !r.ready,
            !r.stale,
            r.retry_after_millis is None,
    {
        ProviderState {
            result: None,
            error: None,
            updated_at: None,
            ready: false,
            stale: false,
            retry_after_millis: None,
        }
    }
}

/// A provider is ready to be printed by a one-shot run once its refresh failed, or
/// once it was updated no more than a (whole, truncated) second before the run
/// started: less than two seconds before, to the millisecond.
pub open spec fn ready_for_once(error: bool, updated_at: Option<i64>, started_at: i64) -> bool {
    error || match updated_at {
        Some(u) => u - started_at > -2000,
        None => false,
    }
}

pub fn provider_ready_for_once<T>(provider: &ProviderState<T>, started_at: i64) -> (r: bool)
    ensures
        r == ready_for_once(provider.error is Some, provider.updated_at, started_at),
{
    if provider.error.is_some() {
        return true;
    }
    match provider.updated_at {
        Some(u) => (u as i128) - (started_at as i128) > -2000,
        None => false,
    }
}

} // verus!
