use vstd::prelude::*;

verus! {

/// Which kind of HTTP traffic a client is built for.
#[derive(Debug, Clone, Copy, PartialEq, Eq, Structural)]
pub enum HttpProfile {
    /// Short-lived JSON/API calls: fail fast.
    Api,
    /// Large downloads (ZIPs, manifests): allow long transfers.
    Download,
}

/// The connect timeout of a profile, in milliseconds.
pub fn connect_timeout_ms(profile: HttpProfile) -> (r: u64)
    ensures
        r == 10_000,
{
    match profile {
        HttpProfile::Api => 10_000,
        HttpProfile::Download => 10_000,
    }
}

/// The whole-request timeout of a profile, in milliseconds.
pub fn request_timeout_ms(profile: HttpProfile) -> (r: u64)
    ensures
        profile is Api ==> r == 20_000,
        profile is Download ==> r == 600_000,
{
    match profile {
        HttpProfile::Api => 20_000,
        HttpProfile::Download => 600_000,
    }
}

/// The transient statuses an idempotent request is retried on: request
/// timeout, too many requests, and the server errors.
pub open spec fn spec_retry_status(status: u16) -> bool {
    status == 408 || status == 429 || (500 <= status && status <= 599)
}

/// Whether an idempotent request should be retried on this status.
pub fn should_retry_status(status: u16) -> (r: bool)
    ensures
        r == spec_retry_status(status),
{
    status == 408 || status == 429 || (500 <= status && status <= 599)
}

/// The backoff before retry `attempt`, in milliseconds: 250, then 750, then
/// 1500 for every later attempt.
pub fn backoff_delay_ms(attempt: usize) -> (r: u64)
    ensures
        attempt == 0 ==> r == 250,
        attempt == 1 ==> r == 750,
        attempt >= 2 ==> r == 1500,
{
    if attempt == 0 {
        250
    } else if attempt == 1 {
        750
    } else {
        1500
    }
}

/// Caps a server-sent `Retry-After` value so a hostile header cannot stall
/// the launcher.
pub fn cap_retry_after_secs(secs: u64) -> (r: u64)
    ensures
        r == if secs <= 5 {
            secs as int
        } else {
            5int
        },
{
    if secs <= 5 {
        secs
    } else {
        5
    }
}

} // verus!
