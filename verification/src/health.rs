//! Liveness of the market-data connection, judged from when the last message
//! arrived.
//!
//! The monitor may be shared between threads: arrival times are kept in
//! atomics, written by whichever thread saw the message. A time of zero means
//! that nothing has arrived yet.

use vstd::prelude::*;
use std::sync::atomic::{AtomicU64, Ordering};

verus! {

/// Connection liveness.
#[derive(Debug, Clone, Copy, PartialEq, Eq, Structural)]
pub enum HealthStatus {
    Healthy,
    HeartbeatMissed,
    Stale,
    Dead,
}

/// The status implied by the last message time `last_ms` at time `now_ms`:
/// dead before any message; otherwise judged by the message's age (zero
/// when the clock reads earlier than the message), stale from the
/// staleness timeout on, missed-heartbeat from the heartbeat timeout on.
pub open spec fn health_status(last_ms: u64, now_ms: u64, heartbeat_ms: u64, stale_ms: u64) -> HealthStatus {
    let age: int = if now_ms >= last_ms {
        now_ms - last_ms
    } else {
        0
    };
    if last_ms == 0 {
        HealthStatus::Dead
    } else if age >= stale_ms {
        HealthStatus::Stale
    } else if age >= heartbeat_ms {
        HealthStatus::HeartbeatMissed
    } else {
        HealthStatus::Healthy
    }
}

/// Severity rank of a status that has seen a message.
pub open spec fn severity(s: HealthStatus) -> int {
    match s {
        HealthStatus::Healthy => 0,
        HealthStatus::HeartbeatMissed => 1,
        HealthStatus::Stale => 2,
        HealthStatus::Dead => 3,
    }
}

/// The status implied by the last message time `last_ms` at `now_ms`.
/// The age saturates at zero: a last message stamped after `now_ms` (a
/// clock stepped back) reads as just received, so the status is `Healthy`.
pub fn status_for(last_ms: u64, now_ms: u64, heartbeat_ms: u64, stale_ms: u64) -> (r: HealthStatus)
    ensures
        r == health_status(last_ms, now_ms, heartbeat_ms, stale_ms),
{
    if last_ms == 0 {
        return HealthStatus::Dead;
    }
    let age = now_ms.saturating_sub(last_ms);
    if age >= stale_ms {
        return HealthStatus::Stale;
    }
    if age >= heartbeat_ms {
        return HealthStatus::HeartbeatMissed;
    }
    HealthStatus::Healthy
}

/// With the heartbeat timeout no longer than the staleness timeout, a
/// connection that has seen a message only gets worse as time passes
/// without another: healthy, then missed heartbeat, then stale.
pub proof fn lemma_status_worsens_with_time(last_ms: u64, t1: u64, t2: u64, heartbeat_ms: u64, stale_ms: u64)
    requires
        t1 <= t2,
        heartbeat_ms <= stale_ms,
    ensures
        severity(health_status(last_ms, t1, heartbeat_ms, stale_ms)) <= severity(
            health_status(last_ms, t2, heartbeat_ms, stale_ms),
        ),
{
}

/// When the staleness timeout is no longer than the heartbeat timeout, a
/// missed heartbeat is never reported: the connection goes straight from
/// healthy to stale.
pub proof fn lemma_inverted_timeouts_skip_missed(last_ms: u64, now_ms: u64, heartbeat_ms: u64, stale_ms: u64)
    requires
        stale_ms <= heartbeat_ms,
    ensures
        health_status(last_ms, now_ms, heartbeat_ms, stale_ms) != HealthStatus::HeartbeatMissed,
{
}

/// Liveness monitor of one connection.
#[derive(Debug)]
pub struct HealthMonitor {
    last_message_ts: AtomicU64,
    last_heartbeat_ts: AtomicU64,
    heartbeat_timeout_ms: u64,
    staleness_timeout_ms: u64,
}

impl HealthMonitor {
    pub closed spec fn heartbeat_timeout_spec(&self) -> u64 {
        self.heartbeat_timeout_ms
    }

    pub closed spec fn staleness_timeout_spec(&self) -> u64 {
        self.staleness_timeout_ms
    }

    /// A monitor that has seen nothing yet.
    pub fn new(heartbeat_timeout_ms: u64, staleness_timeout_ms: u64) -> (r: HealthMonitor)
        ensures
            r.heartbeat_timeout_spec() == heartbeat_timeout_ms,
            r.staleness_timeout_spec() == staleness_timeout_ms,
    {
        HealthMonitor {
            last_message_ts: AtomicU64::new(0),
            last_heartbeat_ts: AtomicU64::new(0),
            heartbeat_timeout_ms,
            staleness_timeout_ms,
        }
    }

    /// Records that a message arrived at `current_ts_ms`.
    pub fn record_message(&self, current_ts_ms: u64) {
        self.last_message_ts.store(current_ts_ms, Ordering::Relaxed);
    }

    /// Records that a heartbeat arrived at `current_ts_ms`; a heartbeat is
    /// a message too.
    pub fn record_heartbeat(&self, current_ts_ms: u64) {
        self.last_heartbeat_ts.store(current_ts_ms, Ordering::Relaxed);
        self.last_message_ts.store(current_ts_ms, Ordering::Relaxed);
    }

    /// The status at `current_time_ms`, judged from the last message time
    /// that this thread reads (other threads may be recording meanwhile).
    pub fn check_health(&self, current_time_ms: u64) -> (r: HealthStatus)
        ensures
            exists|last_ms: u64|
                r == health_status(
                    last_ms,
                    current_time_ms,
                    self.heartbeat_timeout_spec(),
                    self.staleness_timeout_spec(),
                ),
    {
        let message_ts = self.last_message_ts.load(Ordering::Relaxed);
        let r = status_for(message_ts, current_time_ms, self.heartbeat_timeout_ms, self.staleness_timeout_ms);
        assert(r == health_status(
            message_ts,
            current_time_ms,
            self.heartbeat_timeout_spec(),
            self.staleness_timeout_spec(),
        ));
        r
    }
}

/// How the status follows from the last message's age at `now_ms`: dead
/// with no message yet; otherwise healthy while the message is younger than
/// the heartbeat timeout and the staleness timeout, stale once it is at
/// least the staleness timeout old, and a missed heartbeat when it is at
/// least the heartbeat timeout old but younger than the staleness timeout.
/// A message stamped later than `now_ms` counts as brand new.
pub proof fn lemma_status_by_age(last_ms: u64, now_ms: u64, heartbeat_ms: u64, stale_ms: u64)
    ensures
        last_ms == 0 <==> health_status(last_ms, now_ms, heartbeat_ms, stale_ms) == HealthStatus::Dead,
        last_ms > 0 && now_ms >= last_ms && now_ms - last_ms >= stale_ms ==> health_status(
            last_ms,
            now_ms,
            heartbeat_ms,
            stale_ms,
        ) == HealthStatus::Stale,
        last_ms > 0 && now_ms >= last_ms && heartbeat_ms <= now_ms - last_ms < stale_ms
            ==> health_status(last_ms, now_ms, heartbeat_ms, stale_ms) == HealthStatus::HeartbeatMissed,
        last_ms > 0 && now_ms >= last_ms && now_ms - last_ms < heartbeat_ms && now_ms - last_ms
            < stale_ms ==> health_status(last_ms, now_ms, heartbeat_ms, stale_ms) == HealthStatus::Healthy,
        last_ms > 0 && now_ms < last_ms ==> health_status(last_ms, now_ms, heartbeat_ms, stale_ms) == (
        if stale_ms == 0 {
            HealthStatus::Stale
        } else if heartbeat_ms == 0 {
            HealthStatus::HeartbeatMissed
        } else {
            HealthStatus::Healthy
        }),
{
}

} // verus!
