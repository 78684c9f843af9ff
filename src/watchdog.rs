use vstd::prelude::*;

verus! {

/// Seconds between two heartbeat writes of the watchdog loop.
pub const TICK_SECS: u64 = 1;

/// Where the watchdog loop stands.
#[derive(Debug, Clone, Copy, PartialEq, Eq, Structural)]
pub enum WatchdogState {
    /// Waiting on the tick and on both signals.
    Running,
    /// Stopped by the `shutdown` signal: the shutdown decision is set.
    ShutdownRequested,
    /// Stopped by the `cleanup` signal.
    CleanedUp,
    /// Stopped because a heartbeat could not be written.
    WriteFailed,
}

/// What ended one wait of the loop, or what the last action reported.
#[derive(Debug, Clone, Copy, PartialEq, Eq, Structural)]
pub enum WatchdogEvent {
    /// The tick interval passed with no signal.
    TickElapsed,
    /// The `shutdown` signal arrived.
    ShutdownSignal,
    /// The `cleanup` signal arrived.
    CleanupSignal,
    /// A signal's sender went away without sending: the signal will never come.
    SignalLost,
    /// The last heartbeat write failed.
    HeartbeatWriteFailed,
}

/// What the loop does next.
#[derive(Debug, Clone, Copy, PartialEq, Eq, Structural)]
pub enum WatchdogAction {
    /// Write the current time into the heartbeat record, then wait again.
    WriteHeartbeat,
    /// Wait again without writing.
    Wait,
    /// Leave the loop.
    Stop,
}

/// An event that ends the loop when it is running.
pub open spec fn is_terminating(e: WatchdogEvent) -> bool {
    match e {
        WatchdogEvent::ShutdownSignal | WatchdogEvent::CleanupSignal | WatchdogEvent::HeartbeatWriteFailed => true,
        _ => false,
    }
}

/// One transition of the loop. A stopped loop ignores every event.
pub open spec fn watchdog_next(s: WatchdogState, e: WatchdogEvent) -> (WatchdogState, WatchdogAction) {
    match s {
        WatchdogState::Running => match e {
            WatchdogEvent::TickElapsed => (WatchdogState::Running, WatchdogAction::WriteHeartbeat),
            WatchdogEvent::ShutdownSignal => (WatchdogState::ShutdownRequested, WatchdogAction::Stop),
            WatchdogEvent::CleanupSignal => (WatchdogState::CleanedUp, WatchdogAction::Stop),
            WatchdogEvent::SignalLost => (WatchdogState::Running, WatchdogAction::Wait),
            WatchdogEvent::HeartbeatWriteFailed => (WatchdogState::WriteFailed, WatchdogAction::Stop),
        },
        _ => (s, WatchdogAction::Stop),
    }
}

/// The state after a run of events from `s`.
pub open spec fn run_state(s: WatchdogState, events: Seq<WatchdogEvent>) -> WatchdogState
    decreases events.len(),
{
    if events.len() == 0 {
        s
    } else {
        watchdog_next(run_state(s, events.drop_last()), events.last()).0
    }
}

/// The action taken on the `i`-th event of a run that starts at `Running`.
pub open spec fn action_at(events: Seq<WatchdogEvent>, i: int) -> WatchdogAction {
    watchdog_next(run_state(WatchdogState::Running, events.take(i)), events[i]).1
}

/// Whether the loop's end records a shutdown decision.
pub open spec fn decision_of(s: WatchdogState) -> bool {
    s == WatchdogState::ShutdownRequested
}

/// The loop's transition on `event`.
pub fn watchdog_step(state: WatchdogState, event: WatchdogEvent) -> (r: (WatchdogState, WatchdogAction))
    ensures
        r == watchdog_next(state, event),
{
    match state {
        WatchdogState::Running => match event {
            WatchdogEvent::TickElapsed => (WatchdogState::Running, WatchdogAction::WriteHeartbeat),
            WatchdogEvent::ShutdownSignal => (WatchdogState::ShutdownRequested, WatchdogAction::Stop),
            WatchdogEvent::CleanupSignal => (WatchdogState::CleanedUp, WatchdogAction::Stop),
            WatchdogEvent::SignalLost => (WatchdogState::Running, WatchdogAction::Wait),
            WatchdogEvent::HeartbeatWriteFailed => (WatchdogState::WriteFailed, WatchdogAction::Stop),
        },
        _ => (state, WatchdogAction::Stop),
    }
}

/// Whether a stopped loop leaves the shutdown decision set.
pub fn shutdown_decision(state: WatchdogState) -> (r: bool)
    ensures
        r == decision_of(state),
{
    match state {
        WatchdogState::ShutdownRequested => true,
        _ => false,
    }
}

proof fn lemma_running_until_signal(events: Seq<WatchdogEvent>, k: int)
    requires
        0 <= k <= events.len(),
        forall|j: int| 0 <= j < k ==> !is_terminating(#[trigger] events[j]),
    ensures
        run_state(WatchdogState::Running, events.take(k)) == WatchdogState::Running,
    decreases k,
{
    if k > 0 {
        lemma_running_until_signal(events, k - 1);
        assert(events.take(k).drop_last() =~= events.take(k - 1));
        assert(events.take(k).last() == events[k - 1]);
    }
}

proof fn lemma_stopped_stays(events: Seq<WatchdogEvent>, i: int, k: int)
    requires
        0 <= i < k <= events.len(),
        run_state(WatchdogState::Running, events.take(i + 1)) != WatchdogState::Running,
    ensures
        run_state(WatchdogState::Running, events.take(k)) == run_state(
            WatchdogState::Running,
            events.take(i + 1),
        ),
    decreases k,
{
    if k > i + 1 {
        lemma_stopped_stays(events, i, k - 1);
        assert(events.take(k).drop_last() =~= events.take(k - 1));
    }
}

/// While no signal has arrived, every elapsed tick writes a heartbeat: no
/// more than one tick interval passes between two heartbeat writes.
pub proof fn lemma_every_tick_writes(events: Seq<WatchdogEvent>, i: int)
    requires
        0 <= i < events.len(),
        forall|j: int| 0 <= j <= i ==> !is_terminating(#[trigger] events[j]),
        events[i] == WatchdogEvent::TickElapsed,
    ensures
        action_at(events, i) == WatchdogAction::WriteHeartbeat,
        run_state(WatchdogState::Running, events.take(i + 1)) == WatchdogState::Running,
{
    lemma_running_until_signal(events, i);
    lemma_running_until_signal(events, i + 1);
}

/// A `cleanup` signal that reaches the loop before `shutdown` (and before any
/// failed write) stops it for good with the shutdown decision unset, whatever
/// comes after.
pub proof fn lemma_cleanup_first_never_decides(events: Seq<WatchdogEvent>, i: int)
    requires
        0 <= i < events.len(),
        forall|j: int| 0 <= j < i ==> !is_terminating(#[trigger] events[j]),
        events[i] == WatchdogEvent::CleanupSignal,
    ensures
        forall|k: int|
            i < k <= events.len() ==> run_state(WatchdogState::Running, #[trigger] events.take(k))
                == WatchdogState::CleanedUp,
        run_state(WatchdogState::Running, events) == WatchdogState::CleanedUp,
        !decision_of(run_state(WatchdogState::Running, events)),
{
    lemma_running_until_signal(events, i);
    assert(events.take(i + 1).drop_last() =~= events.take(i));
    assert forall|k: int| i < k <= events.len() implies run_state(
        WatchdogState::Running,
        #[trigger] events.take(k),
    ) == WatchdogState::CleanedUp by {
        lemma_stopped_stays(events, i, k);
    }
    assert(events.take(events.len() as int) =~= events);
}

/// A `shutdown` signal that reaches the loop first stops it with the shutdown
/// decision set.
pub proof fn lemma_shutdown_first_decides(events: Seq<WatchdogEvent>, i: int)
    requires
        0 <= i < events.len(),
        forall|j: int| 0 <= j < i ==> !is_terminating(#[trigger] events[j]),
        events[i] == WatchdogEvent::ShutdownSignal,
    ensures
        run_state(WatchdogState::Running, events) == WatchdogState::ShutdownRequested,
        decision_of(run_state(WatchdogState::Running, events)),
{
    lemma_running_until_signal(events, i);
    assert(events.take(i + 1).drop_last() =~= events.take(i));
    lemma_stopped_stays(events, i, events.len() as int);
    assert(events.take(events.len() as int) =~= events);
}

} // verus!
