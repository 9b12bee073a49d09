//! The server's shared counters: requests, errors, cumulative response
//! time and active connections, plus the start stamp used for uptime.
//! Every mutation is a small exact transition, so the balance of a
//! whole connection's life can be proved once and for all.

use vstd::prelude::*;

verus! {

/// Relies on chrono's `Utc::now` and `DateTime::timestamp`: nothing is
/// promised of the clock's reading.
#[verifier::external_body]
fn now_unix_seconds() -> u64 {
    u64::try_from(chrono::Utc::now().timestamp()).unwrap_or(0)
}

/// Relies on chrono's `Utc::now` and `DateTime::to_rfc3339`: nothing
/// is promised of the clock's reading.
#[verifier::external_body]
pub(crate) fn now_rfc3339_bytes() -> Vec<u8> {
    chrono::Utc::now().to_rfc3339().into_bytes()
}

/// The metrics record. All counters start at zero; `start_unix_seconds`
/// is the wall clock's reading when the record was created, so uptime
/// is measured against the wall clock: a backwards clock step can
/// lower it, and `uptime_given` saturates at zero.
#[derive(Debug, Clone, Copy, PartialEq, Eq, Structural)]
pub struct ServerMetrics {
    pub request_count: u64,
    pub error_count: u64,
    pub total_response_time_ms: u64,
    pub active_connections: u64,
    pub start_unix_seconds: u64,
}

/// The record after a connection begins handling: the active count
/// grows by one, nothing else moves.
pub open spec fn spec_begin(m: ServerMetrics) -> ServerMetrics {
    ServerMetrics { active_connections: (m.active_connections + 1) as u64, ..m }
}

/// The record after a request has been parsed and counted.
pub open spec fn spec_count_request(m: ServerMetrics) -> ServerMetrics {
    ServerMetrics { request_count: (m.request_count + 1) as u64, ..m }
}

/// The record after a connection finishes: its response time is
/// accumulated, the active count drops by one, and the error count
/// grows by one exactly when the cycle failed.
pub open spec fn spec_finish(m: ServerMetrics, elapsed_ms: u64, had_error: bool) -> ServerMetrics {
    ServerMetrics {
        total_response_time_ms: (m.total_response_time_ms + elapsed_ms) as u64,
        active_connections: (m.active_connections - 1) as u64,
        error_count: if had_error {
            (m.error_count + 1) as u64
        } else {
            m.error_count
        },
        ..m
    }
}

impl ServerMetrics {
    /// A fresh record: all counters zero, started now.
    pub fn new() -> (r: ServerMetrics)
        ensures
            r.request_count == 0,
            r.error_count == 0,
            r.total_response_time_ms == 0,
            r.active_connections == 0,
    {
        ServerMetrics {
            request_count: 0,
            error_count: 0,
            total_response_time_ms: 0,
            active_connections: 0,
            start_unix_seconds: now_unix_seconds(),
        }
    }

    /// Seconds elapsed from the start stamp to the given reading,
    /// saturating at zero if the clock went backwards.
    pub fn uptime_given(&self, now_seconds: u64) -> (r: u64)
        ensures
            r == if now_seconds >= self.start_unix_seconds {
                (now_seconds - self.start_unix_seconds) as int
            } else {
                0int
            },
    {
        if now_seconds >= self.start_unix_seconds {
            now_seconds - self.start_unix_seconds
        } else {
            0
        }
    }

    /// Seconds since this record was created, read from the clock.
    pub fn uptime_seconds(&self) -> u64 {
        self.uptime_given(now_unix_seconds())
    }

    /// One connection has begun handling.
    pub fn begin_connection(&mut self)
        requires
            old(self).active_connections < u64::MAX,
        ensures
            *final(self) == spec_begin(*old(self)),
    {
        self.active_connections = self.active_connections + 1;
    }

    /// One request has been parsed and is being handled.
    pub fn count_request(&mut self)
        requires
            old(self).request_count < u64::MAX,
        ensures
            *final(self) == spec_count_request(*old(self)),
    {
        self.request_count = self.request_count + 1;
    }

    /// One connection has finished, after `elapsed_ms`, with or
    /// without an error.
    pub fn finish_connection(&mut self, elapsed_ms: u64, had_error: bool)
        requires
            old(self).active_connections > 0,
            old(self).total_response_time_ms + elapsed_ms <= u64::MAX,
            had_error ==> old(self).error_count < u64::MAX,
        ensures
            *final(self) == spec_finish(*old(self), elapsed_ms, had_error),
    {
        self.total_response_time_ms = self.total_response_time_ms + elapsed_ms;
        self.active_connections = self.active_connections - 1;
        if had_error {
            self.error_count = self.error_count + 1;
        }
    }
}

/// Counter balance over one whole connection: begin, optionally one
/// counted request, then finish. The active count returns exactly to
/// where it was; the request count grows by one exactly when a request
/// was counted; the error count grows by one exactly when the cycle
/// failed; the elapsed time is accumulated.
pub proof fn lemma_connection_balance(
    m: ServerMetrics,
    counted: bool,
    elapsed_ms: u64,
    had_error: bool,
)
    requires
        m.active_connections < u64::MAX,
        m.request_count < u64::MAX,
        m.total_response_time_ms + elapsed_ms <= u64::MAX,
        m.error_count < u64::MAX,
    ensures
        ({
            let mid = if counted {
                spec_count_request(spec_begin(m))
            } else {
                spec_begin(m)
            };
            let after = spec_finish(mid, elapsed_ms, had_error);
            &&& after.active_connections == m.active_connections
            &&& after.request_count == m.request_count + (if counted {
                1int
            } else {
                0int
            })
            &&& after.error_count == m.error_count + (if had_error {
                1int
            } else {
                0int
            })
            &&& after.total_response_time_ms == m.total_response_time_ms + elapsed_ms
            &&& after.start_unix_seconds == m.start_unix_seconds
        }),
{
}

} // verus!
