//! Health probe: a bounded polling loop that reports whether something is
//! listening on the server's port before a wall-clock timeout elapses.
//!
//! The host runs the loop off the UI thread: it measures the elapsed time,
//! attempts one TCP connection when asked to, sleeps one interval between
//! attempts, and obeys [`probe_decision`] at every turn. The loop's overall
//! behaviour is captured by [`probe_run`], an idealised run in which attempt
//! `k` happens at elapsed time `k` intervals and attempts take no time.

use vstd::prelude::*;

verus! {

/// Fixed delay between connection attempts, in milliseconds.
pub const POLL_INTERVAL_MS: u64 = 200;

/// Wall-clock budget the startup flow gives the probe, in milliseconds.
pub const STARTUP_PROBE_TIMEOUT_MS: u64 = 15000;

/// What the polling loop must do next.
#[derive(Clone, Copy, PartialEq, Eq, Structural, Debug)]
pub enum ProbeStep {
    /// A connection succeeded: report readiness at once.
    Ready,
    /// The timeout elapsed before any connection succeeded: report failure.
    TimedOut,
    /// Sleep one interval, then attempt again.
    Retry,
}

/// The probe's decision: the timeout is checked first, so a connection
/// result only counts while time remains.
pub open spec fn spec_probe_step(elapsed_ms: int, timeout_ms: int, connected: bool) -> ProbeStep {
    if elapsed_ms >= timeout_ms {
        ProbeStep::TimedOut
    } else if connected {
        ProbeStep::Ready
    } else {
        ProbeStep::Retry
    }
}

/// One turn of the polling loop: `elapsed_ms` is the time since the loop
/// started, `connected` the outcome of the attempt made this turn.
pub fn probe_decision(elapsed_ms: u64, timeout_ms: u64, connected: bool) -> (r: ProbeStep)
    ensures
        r == spec_probe_step(elapsed_ms as int, timeout_ms as int, connected),
{
    if elapsed_ms >= timeout_ms {
        ProbeStep::TimedOut
    } else if connected {
        ProbeStep::Ready
    } else {
        ProbeStep::Retry
    }
}

/// Outcome and final elapsed time of an idealised run that starts at
/// attempt `k`: attempt `k` happens at elapsed time `200 * k` and succeeds
/// exactly when `connects(k)` holds.
pub open spec fn probe_run(connects: spec_fn(int) -> bool, timeout_ms: int, k: int) -> (bool, int)
    decreases (if timeout_ms - 200 * k >= 0 { timeout_ms - 200 * k } else { 0 }),
        when k >= 0
{
    let elapsed = 200 * k;
    if elapsed >= timeout_ms {
        (false, elapsed)
    } else if connects(k) {
        (true, elapsed)
    } else {
        probe_run(connects, timeout_ms, k + 1)
    }
}

/// Each turn of [`probe_run`] is exactly one [`spec_probe_step`] decision:
/// the loop the host runs implements the idealised run.
pub proof fn lemma_probe_run_step(connects: spec_fn(int) -> bool, timeout_ms: int, k: int)
    requires
        k >= 0,
    ensures
        probe_run(connects, timeout_ms, k) == (match spec_probe_step(
            200 * k,
            timeout_ms,
            connects(k),
        ) {
            ProbeStep::TimedOut => (false, 200 * k),
            ProbeStep::Ready => (true, 200 * k),
            ProbeStep::Retry => probe_run(connects, timeout_ms, k + 1),
        }),
{
}

proof fn lemma_probe_times_out_from(connects: spec_fn(int) -> bool, timeout_ms: int, k: int)
    requires
        0 <= k,
        200 * k < timeout_ms + 200,
        forall|j: int| k <= j ==> !(#[trigger] connects(j)),
    ensures
        !probe_run(connects, timeout_ms, k).0,
        probe_run(connects, timeout_ms, k).1 >= timeout_ms,
        probe_run(connects, timeout_ms, k).1 < timeout_ms + 200,
    decreases (if timeout_ms - 200 * k >= 0 { timeout_ms - 200 * k } else { 0 }),
{
    if 200 * k < timeout_ms {
        lemma_probe_times_out_from(connects, timeout_ms, k + 1);
    }
}

/// With a timeout of `timeout_ms` and no listener ever appearing, the run
/// reports failure, after an elapsed time of at least the timeout and less
/// than the timeout plus one poll interval.
pub proof fn lemma_probe_times_out(connects: spec_fn(int) -> bool, timeout_ms: int)
    requires
        timeout_ms >= 0,
        forall|j: int| 0 <= j ==> !(#[trigger] connects(j)),
    ensures
        !probe_run(connects, timeout_ms, 0).0,
        probe_run(connects, timeout_ms, 0).1 >= timeout_ms,
        probe_run(connects, timeout_ms, 0).1 < timeout_ms + 200,
{
    lemma_probe_times_out_from(connects, timeout_ms, 0);
}

proof fn lemma_probe_detects_from(
    connects: spec_fn(int) -> bool,
    timeout_ms: int,
    delay_ms: int,
    k: int,
)
    requires
        0 <= k,
        0 <= delay_ms,
        forall|j: int| 0 <= j ==> (#[trigger] connects(j) <==> 200 * j >= delay_ms),
        exists|j: int| k <= j && #[trigger] connects(j) && 200 * j < timeout_ms,
    ensures
        probe_run(connects, timeout_ms, k).0,
        probe_run(connects, timeout_ms, k).1 >= delay_ms,
    decreases (if timeout_ms - 200 * k >= 0 { timeout_ms - 200 * k } else { 0 }),
{
    let j0 = choose|j: int| k <= j && #[trigger] connects(j) && 200 * j < timeout_ms;
    assert(200 * k <= 200 * j0);
    if !connects(k) {
        assert(200 * k < delay_ms);
        assert(j0 >= k + 1);
        lemma_probe_detects_from(connects, timeout_ms, delay_ms, k + 1);
    }
}

/// With a listener that becomes reachable once `delay_ms` has elapsed, and
/// some attempt falling between that delay and the timeout, the run reports
/// readiness and the observed elapsed time is at least `delay_ms`. (When
/// every attempt in the window misses the interval grid — the listener
/// appears between the last attempt before the timeout and the timeout
/// itself — the run can still time out, so that attempt is required here.)
pub proof fn lemma_probe_detects_listener(
    connects: spec_fn(int) -> bool,
    timeout_ms: int,
    delay_ms: int,
)
    requires
        0 <= delay_ms,
        forall|j: int| 0 <= j ==> (#[trigger] connects(j) <==> 200 * j >= delay_ms),
        exists|j: int| 0 <= j && #[trigger] connects(j) && 200 * j < timeout_ms,
    ensures
        probe_run(connects, timeout_ms, 0).0,
        probe_run(connects, timeout_ms, 0).1 >= delay_ms,
{
    lemma_probe_detects_from(connects, timeout_ms, delay_ms, 0);
}

} // verus!
