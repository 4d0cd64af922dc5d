use vstd::prelude::*;

verus! {

/// Consecutive failures from which the daemon reports itself unhealthy.
pub const DAEMON_UNHEALTHY_CONSECUTIVE_FAILURES: u64 = 3;

/// How long an unhealthy daemon waits after its last failure before it
/// recovers by itself, in milliseconds.
pub const DAEMON_UNHEALTHY_RECOVERY_MS: u64 = 5_000;

/// What the daemon counts of the requests it served; times are milliseconds
/// of a monotonic clock.
#[derive(Debug, Clone)]
pub struct DaemonHealth {
    pub total_requests: u64,
    pub failed_requests: u64,
    pub rate_limited_requests: u64,
    pub consecutive_failures: u64,
    pub last_error: Option<String>,
    pub last_failure_at_ms: Option<u64>,
}

pub open spec fn sat_inc(x: u64) -> u64 {
    if x == u64::MAX {
        x
    } else {
        (x + 1) as u64
    }
}

/// The message recorded for a request refused by the rate limiter.
pub open spec fn rate_limit_message() -> Seq<char> {
    "daemon rate limit exceeded; retry shortly"@
}

impl DaemonHealth {
    /// The counters nest: rate-limited requests are failed requests, failed
    /// requests are requests, and a run of failures is made of failures.
    pub open spec fn wf(&self) -> bool {
        &&& self.rate_limited_requests <= self.failed_requests
        &&& self.failed_requests <= self.total_requests
        &&& self.consecutive_failures <= self.failed_requests
    }

    /// Whether the daemon reports itself healthy.
    pub open spec fn is_healthy(&self) -> bool {
        self.consecutive_failures < DAEMON_UNHEALTHY_CONSECUTIVE_FAILURES
    }

    /// A daemon that has served nothing yet.
    pub fn new() -> (h: Self)
        ensures
            h.wf(),
            h.is_healthy(),
            h.total_requests == 0 && h.failed_requests == 0 && h.rate_limited_requests == 0,
            h.consecutive_failures == 0,
            h.last_error is None && h.last_failure_at_ms is None,
    {
        DaemonHealth {
            total_requests: 0,
            failed_requests: 0,
            rate_limited_requests: 0,
            consecutive_failures: 0,
            last_error: None,
            last_failure_at_ms: None,
        }
    }
}

/// Counts a served request; a success ends any run of failures.
pub fn record_daemon_success(health: &mut DaemonHealth)
    requires
        old(health).wf(),
    ensures
        final(health).wf(),
        final(health).total_requests == sat_inc(old(health).total_requests),
        final(health).failed_requests == old(health).failed_requests,
        final(health).rate_limited_requests == old(health).rate_limited_requests,
        final(health).consecutive_failures == 0,
        final(health).last_error is None,
        final(health).last_failure_at_ms is None,
{
    health.total_requests = health.total_requests.saturating_add(1);
    health.consecutive_failures = 0;
    health.last_error = None;
    health.last_failure_at_ms = None;
}

/// Counts a failed request, remembering its error and when it failed.
pub fn record_daemon_failure(health: &mut DaemonHealth, error: String, now_ms: u64)
    requires
        old(health).wf(),
    ensures
        final(health).wf(),
        final(health).total_requests == sat_inc(old(health).total_requests),
        final(health).failed_requests == sat_inc(old(health).failed_requests),
        final(health).rate_limited_requests == old(health).rate_limited_requests,
        final(health).consecutive_failures == sat_inc(old(health).consecutive_failures),
        final(health).last_error == Some(error),
        final(health).last_failure_at_ms == Some(now_ms),
{
    health.total_requests = health.total_requests.saturating_add(1);
    health.failed_requests = health.failed_requests.saturating_add(1);
    health.consecutive_failures = health.consecutive_failures.saturating_add(1);
    health.last_error = Some(error);
    health.last_failure_at_ms = Some(now_ms);
}

/// Counts a request refused by the rate limiter as a failure.
pub fn record_daemon_rate_limit(health: &mut DaemonHealth, now_ms: u64)
    requires
        old(health).wf(),
    ensures
        final(health).wf(),
        final(health).total_requests == sat_inc(old(health).total_requests),
        final(health).failed_requests == sat_inc(old(health).failed_requests),
        final(health).rate_limited_requests == sat_inc(old(health).rate_limited_requests),
        final(health).consecutive_failures == sat_inc(old(health).consecutive_failures),
        final(health).last_error is Some && final(health).last_error->0@ == rate_limit_message(),
        final(health).last_failure_at_ms == Some(now_ms),
{
    health.total_requests = health.total_requests.saturating_add(1);
    health.failed_requests = health.failed_requests.saturating_add(1);
    health.rate_limited_requests = health.rate_limited_requests.saturating_add(1);
    health.consecutive_failures = health.consecutive_failures.saturating_add(1);
    health.last_error = Some(String::from_str("daemon rate limit exceeded; retry shortly"));
    health.last_failure_at_ms = Some(now_ms);
}

/// Whether an unhealthy daemon recovers at `now_ms`: its last failure lies
/// at least the recovery delay back.
pub open spec fn recovers(health: DaemonHealth, now_ms: u64) -> bool {
    &&& health.consecutive_failures >= DAEMON_UNHEALTHY_CONSECUTIVE_FAILURES
    &&& health.last_failure_at_ms is Some
    &&& (if now_ms >= health.last_failure_at_ms->0 {
        now_ms - health.last_failure_at_ms->0
    } else {
        0
    }) >= DAEMON_UNHEALTHY_RECOVERY_MS
}

/// Clears the failure run of an unhealthy daemon once its last failure lies
/// the recovery delay back; otherwise changes nothing.
pub fn maybe_auto_recover_daemon_health(health: &mut DaemonHealth, now_ms: u64)
    requires
        old(health).wf(),
    ensures
        final(health).wf(),
        recovers(*old(health), now_ms) ==> *final(health) == (DaemonHealth {
            consecutive_failures: 0,
            last_error: None,
            last_failure_at_ms: None,
            ..*old(health)
        }),
        !recovers(*old(health), now_ms) ==> *final(health) == *old(health),
{
    if health.consecutive_failures < DAEMON_UNHEALTHY_CONSECUTIVE_FAILURES {
        return;
    }
    let last = match health.last_failure_at_ms {
        Some(t) => t,
        None => {
            return;
        },
    };
    if now_ms.saturating_sub(last) >= DAEMON_UNHEALTHY_RECOVERY_MS {
        health.consecutive_failures = 0;
        health.last_error = None;
        health.last_failure_at_ms = None;
    }
}

/// The daemon's health over requests: a success makes it healthy; three
/// failures in a row (refusals by the rate limiter included) make it
/// unhealthy; and once unhealthy it recovers by itself when its last failure
/// lies the recovery delay back.
pub proof fn lemma_daemon_health_transitions(h: DaemonHealth, now_ms: u64)
    requires
        h.wf(),
    ensures
        h.consecutive_failures >= 2 ==> !(DaemonHealth {
            consecutive_failures: sat_inc(h.consecutive_failures),
            ..h
        }).is_healthy(),
        recovers(h, now_ms) ==> (DaemonHealth {
            consecutive_failures: 0,
            last_error: None,
            last_failure_at_ms: None,
            ..h
        }).is_healthy(),
        (DaemonHealth { consecutive_failures: 0, ..h }).is_healthy(),
{
}

} // verus!
