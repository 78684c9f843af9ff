use restart_guard::close_latch::CloseLatch;
use restart_guard::countdown::{countdown_step, CountdownEvent, CountdownState, SHUTDOWN_TIMEOUT_SECS};
use restart_guard::detector::{
    check, detect_restart, detect_restart_now, duration_since_shutdown, heartbeat_age,
    heartbeat_record_now, read_last_updated, Detection, RecordError, THRESHOLD_SECS, UTC_MAX_SECS,
    UTC_MIN_SECS,
};
use restart_guard::record::{encode_heartbeat, parse_decimal};
use restart_guard::teardown::{teardown_plan, TeardownStep};
use restart_guard::watchdog::{shutdown_decision, watchdog_step, WatchdogAction, WatchdogEvent, WatchdogState};

fn run_watchdog(events: &[WatchdogEvent]) -> (WatchdogState, Vec<WatchdogAction>) {
    let mut state = WatchdogState::Running;
    let mut actions = Vec::new();
    for e in events {
        let (next, action) = watchdog_step(state, *e);
        state = next;
        actions.push(action);
    }
    (state, actions)
}

fn run_countdown(events: &[CountdownEvent]) -> (CountdownState, usize) {
    let mut state = CountdownState::Armed;
    let mut sent = 0;
    for e in events {
        let (next, send) = countdown_step(state, *e);
        state = next;
        if send {
            sent += 1;
        }
    }
    (state, sent)
}

#[test]
fn recent_heartbeat_arms_countdown_and_powers_off() {
    let record = encode_heartbeat(0);
    assert_eq!(detect_restart(50, &record), Detection::RecentHeartbeat { age: 50 });
    assert_eq!(SHUTDOWN_TIMEOUT_SECS, 20);
    let (countdown, sent) = run_countdown(&[CountdownEvent::TimedOut]);
    assert_eq!(countdown, CountdownState::Confirmed);
    assert_eq!(sent, 1);
    let (state, actions) = run_watchdog(&[
        WatchdogEvent::TickElapsed,
        WatchdogEvent::ShutdownSignal,
    ]);
    assert_eq!(actions, vec![WatchdogAction::WriteHeartbeat, WatchdogAction::Stop]);
    assert!(shutdown_decision(state));
    assert_eq!(
        teardown_plan(state),
        vec![
            TeardownStep::ReleaseCloseHandler,
            TeardownStep::PowerOff,
            TeardownStep::Exit { success: true },
        ]
    );
}

#[test]
fn old_heartbeat_gives_no_signal() {
    let record = encode_heartbeat(0);
    assert_eq!(detect_restart(150, &record), Detection::NoSignal);
    let mut events = vec![WatchdogEvent::TickElapsed; 500];
    events.push(WatchdogEvent::CleanupSignal);
    let (state, actions) = run_watchdog(&events);
    assert!(actions[..500].iter().all(|a| *a == WatchdogAction::WriteHeartbeat));
    assert_eq!(state, WatchdogState::CleanedUp);
    assert!(!shutdown_decision(state));
}

#[test]
fn corrupt_record_fails_open() {
    for text in [&b""[..], b"abc", b"12x4", b"-", b"+", b"99999999999999999999", b" 12"] {
        assert_eq!(read_last_updated(text), Err(RecordError::Malformed));
        assert_eq!(detect_restart(0, text), Detection::NoSignal);
    }
}

#[test]
fn cleanup_before_countdown_resolves_means_no_power_off() {
    let (state, actions) = run_watchdog(&[
        WatchdogEvent::TickElapsed,
        WatchdogEvent::CleanupSignal,
        WatchdogEvent::ShutdownSignal,
    ]);
    assert_eq!(actions[2], WatchdogAction::Stop);
    assert_eq!(state, WatchdogState::CleanedUp);
    assert!(!shutdown_decision(state));
    let plan = teardown_plan(state);
    assert!(!plan.contains(&TeardownStep::PowerOff));
    assert_eq!(plan, vec![TeardownStep::ReleaseCloseHandler, TeardownStep::Exit { success: true }]);
}

#[test]
fn threshold_is_strict() {
    assert_eq!(THRESHOLD_SECS, 100);
    assert_eq!(check(100, Ok(0)), Detection::NoSignal);
    assert_eq!(check(99, Ok(0)), Detection::RecentHeartbeat { age: 99 });
    assert_eq!(check(0, Ok(100)), Detection::NoSignal);
    assert_eq!(check(0, Ok(99)), Detection::RecentHeartbeat { age: 99 });
    assert_eq!(check(1_000, Ok(1_000)), Detection::RecentHeartbeat { age: 0 });
    assert_eq!(check(5, Err(RecordError::Malformed)), Detection::NoSignal);
    assert_eq!(check(5, Err(RecordError::OutOfRange)), Detection::NoSignal);
}

#[test]
fn age_is_absolute_difference() {
    assert_eq!(heartbeat_age(10, 3), 7);
    assert_eq!(heartbeat_age(3, 10), 7);
    assert_eq!(heartbeat_age(i64::MAX, i64::MIN), u64::MAX);
    assert_eq!(duration_since_shutdown(130, b"100"), Ok(30));
    assert_eq!(duration_since_shutdown(70, b"100"), Ok(30));
    assert_eq!(duration_since_shutdown(70, b"x"), Err(RecordError::Malformed));
}

#[test]
fn record_round_trip() {
    for t in [0i64, 7, 10, 1_700_000_000, -1, -120, i64::MAX, i64::MIN] {
        let record = encode_heartbeat(t);
        assert_eq!(record, t.to_string().into_bytes());
        assert_eq!(parse_decimal(&record), Some(t));
    }
}

#[test]
fn parse_follows_decimal_rules() {
    assert_eq!(parse_decimal(b"+42"), Some(42));
    assert_eq!(parse_decimal(b"-0"), Some(0));
    assert_eq!(parse_decimal(b"007"), Some(7));
    assert_eq!(parse_decimal(b"9223372036854775807"), Some(i64::MAX));
    assert_eq!(parse_decimal(b"9223372036854775808"), None);
    assert_eq!(parse_decimal(b"-9223372036854775808"), Some(i64::MIN));
    assert_eq!(parse_decimal(b"-9223372036854775809"), None);
    assert_eq!(parse_decimal(b"1 "), None);
    assert_eq!(parse_decimal(b"--1"), None);
}

#[test]
fn out_of_range_timestamp_is_rejected() {
    assert_eq!(read_last_updated(b"1700000000"), Ok(1_700_000_000));
    assert_eq!(read_last_updated(b"-5"), Ok(-5));
    assert_eq!(read_last_updated(b"9223372036854775807"), Err(RecordError::OutOfRange));
    assert_eq!(read_last_updated(b"-9223372036854775808"), Err(RecordError::OutOfRange));
    assert_eq!(
        detect_restart(i64::MAX - 10, b"9223372036854775807"),
        Detection::NoSignal
    );
}

#[test]
fn chrono_range_bounds_are_exact() {
    assert_eq!(chrono::DateTime::<chrono::Utc>::MIN_UTC.timestamp(), UTC_MIN_SECS);
    assert_eq!(chrono::DateTime::<chrono::Utc>::MAX_UTC.timestamp(), UTC_MAX_SECS);
    assert_eq!(read_last_updated(b"8210266876799"), Ok(UTC_MAX_SECS));
    assert_eq!(read_last_updated(b"8210266876800"), Err(RecordError::OutOfRange));
    assert_eq!(read_last_updated(b"-8334601228800"), Ok(UTC_MIN_SECS));
    assert_eq!(read_last_updated(b"-8334601228801"), Err(RecordError::OutOfRange));
}

#[test]
fn heartbeat_written_now_reads_back() {
    let (t, record) = heartbeat_record_now();
    assert_eq!(record, encode_heartbeat(t));
    assert_eq!(parse_decimal(&record), Some(t));
    assert_eq!(read_last_updated(&record), Ok(t));
    assert!((UTC_MIN_SECS..=UTC_MAX_SECS).contains(&t));
    let (now, detection) = detect_restart_now(&record);
    assert_eq!(detection, check(now, Ok(t)));
    let (now, detection) = detect_restart_now(b"0");
    assert_eq!(detection, check(now, Ok(0)));
    let (_, detection) = detect_restart_now(b"not a time");
    assert_eq!(detection, Detection::NoSignal);
}

#[test]
fn cancel_before_timeout_sends_nothing() {
    let (state, sent) = run_countdown(&[CountdownEvent::CancelReceived, CountdownEvent::TimedOut]);
    assert_eq!(state, CountdownState::Cancelled);
    assert_eq!(sent, 0);
    let (state, sent) = run_countdown(&[CountdownEvent::CancelLost, CountdownEvent::TimedOut]);
    assert_eq!(state, CountdownState::Cancelled);
    assert_eq!(sent, 0);
    let (state, sent) = run_countdown(&[CountdownEvent::TimedOut, CountdownEvent::CancelReceived]);
    assert_eq!(state, CountdownState::Confirmed);
    assert_eq!(sent, 1);
}

#[test]
fn lost_signal_keeps_loop_running() {
    let (state, actions) = run_watchdog(&[
        WatchdogEvent::SignalLost,
        WatchdogEvent::TickElapsed,
    ]);
    assert_eq!(state, WatchdogState::Running);
    assert_eq!(actions, vec![WatchdogAction::Wait, WatchdogAction::WriteHeartbeat]);
}

#[test]
fn write_failure_stops_loop_and_fails_exit() {
    let (state, actions) = run_watchdog(&[
        WatchdogEvent::TickElapsed,
        WatchdogEvent::HeartbeatWriteFailed,
        WatchdogEvent::ShutdownSignal,
    ]);
    assert_eq!(state, WatchdogState::WriteFailed);
    assert_eq!(actions[1], WatchdogAction::Stop);
    assert!(!shutdown_decision(state));
    assert_eq!(
        teardown_plan(state),
        vec![TeardownStep::ReleaseCloseHandler, TeardownStep::Exit { success: false }]
    );
}

#[test]
fn close_latch_acts_once() {
    let mut latch = CloseLatch::new();
    assert!(!latch.fired());
    assert!(latch.claim());
    assert!(latch.fired());
    assert!(!latch.claim());
    assert!(latch.fired());
}
