use stow_launcher::probe::probe_decision;
use stow_launcher::probe::ProbeStep;
use stow_launcher::probe::POLL_INTERVAL_MS;
use stow_launcher::probe::STARTUP_PROBE_TIMEOUT_MS;

/// Run the polling loop as the host would, against a simulated listener
/// that accepts connections once `up_after` milliseconds have elapsed
/// (`None`: never). Attempts are instantaneous and the sleep is exactly one
/// interval. Returns the outcome and the elapsed time at the final turn.
fn simulate(timeout: u64, up_after: Option<u64>) -> (bool, u64) {
    let mut elapsed: u64 = 0;
    loop {
        let connected = match up_after {
            Some(d) => elapsed >= d,
            None => false,
        };
        match probe_decision(elapsed, timeout, connected) {
            ProbeStep::Ready => return (true, elapsed),
            ProbeStep::TimedOut => return (false, elapsed),
            ProbeStep::Retry => elapsed += POLL_INTERVAL_MS,
        }
    }
}

#[test]
fn no_listener_times_out_just_past_the_budget() {
    let timeout = 1000;
    let (ok, elapsed) = simulate(timeout, None);
    assert!(!ok);
    assert!(elapsed >= timeout);
    assert!(elapsed < timeout + POLL_INTERVAL_MS);
}

#[test]
fn no_listener_times_out_on_unaligned_budget() {
    let timeout = 1100;
    let (ok, elapsed) = simulate(timeout, None);
    assert!(!ok);
    assert!(elapsed >= timeout);
    assert!(elapsed < timeout + POLL_INTERVAL_MS);
}

#[test]
fn listener_up_after_a_delay_is_detected_no_earlier() {
    let (ok, elapsed) = simulate(1000, Some(500));
    assert!(ok);
    assert!(elapsed >= 500);
    assert_eq!(elapsed, 600);
}

#[test]
fn listener_up_immediately_is_detected_at_once() {
    let (ok, elapsed) = simulate(STARTUP_PROBE_TIMEOUT_MS, Some(0));
    assert!(ok);
    assert_eq!(elapsed, 0);
}

#[test]
fn timeout_is_checked_before_the_connection_result() {
    // at the budget's edge a success no longer counts
    assert_eq!(probe_decision(1000, 1000, true), ProbeStep::TimedOut);
    assert_eq!(probe_decision(999, 1000, true), ProbeStep::Ready);
    assert_eq!(probe_decision(999, 1000, false), ProbeStep::Retry);
    assert_eq!(probe_decision(0, 0, true), ProbeStep::TimedOut);
}
