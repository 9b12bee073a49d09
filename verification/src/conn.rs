//! The connection handler's and server loop's decisions: framing (how
//! many bytes one exchange needs), the metrics bookkeeping of a whole
//! connection, and the accept/drain rules of graceful shutdown. The
//! blocking I/O around these decisions lives outside the library.

use vstd::prelude::*;
use crate::error::ServerError;
use crate::metrics;
use crate::metrics::ServerMetrics;
use crate::request;

verus! {

/// Where the header section starts: right after the request line's
/// LF, or at the end when no LF terminates it.
pub open spec fn spec_head_start(input: Seq<u8>) -> int {
    let ll = request::spec_line_len(input, 0) as int;
    if ll < input.len() {
        ll + 1
    } else {
        ll
    }
}

/// How many bytes one complete exchange occupies in `buf`: the head up
/// to and including the empty line, plus `Content-Length` bytes of
/// body. Nothing is returned while the head is still incomplete, so a
/// caller can keep reading until this settles.
pub fn required_total_len(buf: &[u8]) -> (r: Option<usize>)
    ensures
        ({
            let scan = request::scan_headers(buf@, spec_head_start(buf@), Seq::empty(), 0);
            match r {
                Some(t) => request::head_ends(buf@, spec_head_start(buf@)) && t
                    == scan.body_start + scan.content_length,
                None => !request::head_ends(buf@, spec_head_start(buf@)) || scan.body_start
                    + scan.content_length > usize::MAX,
            }
        }),
{
    let n = buf.len();
    let ll = request::scan_line_end(buf, 0);
    let hstart: usize = if ll < n {
        ll + 1
    } else {
        ll
    };
    let (_hm, cl, bstart, complete) = request::read_headers(buf, hstart);
    if !complete {
        return None;
    }
    bstart.checked_add(cl)
}

/// One connection has begun handling: the active count grows by one.
pub fn connection_begin(m: &mut ServerMetrics)
    requires
        old(m).active_connections < u64::MAX,
    ensures
        *final(m) == metrics::spec_begin(*old(m)),
{
    m.begin_connection();
}

/// Ends one connection as the handler does on every exit path: the
/// elapsed time is accumulated and the active count drops by one; on a
/// failed cycle the error count grows and the error's complete HTTP
/// response comes back, for the best-effort fallback write on a second
/// handle of the connection.
pub fn connection_epilogue(m: &mut ServerMetrics, elapsed_ms: u64, failure: Option<&ServerError>)
    -> (fallback: Option<Vec<u8>>)
    requires
        old(m).active_connections > 0,
        old(m).total_response_time_ms + elapsed_ms <= u64::MAX,
        failure is Some ==> old(m).error_count < u64::MAX,
    ensures
        *final(m) == metrics::spec_finish(*old(m), elapsed_ms, failure is Some),
        match failure {
            Some(e) => fallback matches Some(b) && b@ == e.spec_response(),
            None => fallback is None,
        },
{
    m.finish_connection(elapsed_ms, failure.is_some());
    match failure {
        Some(e) => Some(e.to_response()),
        None => None,
    }
}

/// Once shutdown has been requested, no new connection is accepted.
pub fn should_accept(shutdown_requested: bool) -> (r: bool)
    ensures
        r == !shutdown_requested,
{
    !shutdown_requested
}

/// The drain wait goes on only while connections remain active and
/// the timeout has not elapsed; at the deadline it ends regardless, so
/// shutdown completes within the timeout even if a connection never
/// finishes.
pub fn drain_should_wait(active_connections: u64, elapsed_ms: u64, timeout_ms: u64) -> (r: bool)
    ensures
        r == (active_connections > 0 && elapsed_ms < timeout_ms),
        elapsed_ms >= timeout_ms ==> !r,
        active_connections == 0 ==> !r,
{
    active_connections > 0 && elapsed_ms < timeout_ms
}

} // verus!
