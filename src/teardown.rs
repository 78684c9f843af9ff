use vstd::prelude::*;
use crate::watchdog::{
    decision_of, is_terminating, lemma_cleanup_first_never_decides, lemma_shutdown_first_decides,
    run_state, shutdown_decision, WatchdogEvent, WatchdogState,
};

verus! {

/// One step of the coordinator's teardown, in order.
#[derive(Debug, Clone, Copy, PartialEq, Eq, Structural)]
pub enum TeardownStep {
    /// Signal `release-ack`, so that a waiting close notification may return.
    ReleaseCloseHandler,
    /// Ask the OS to power off.
    PowerOff,
    /// End the process, successfully or not.
    Exit { success: bool },
}

/// The teardown after the loop stopped in `s`: the release always comes
/// first; power-off follows exactly when the shutdown decision is set; the
/// process fails only when a heartbeat write failed.
pub open spec fn teardown_spec(s: WatchdogState) -> Seq<TeardownStep> {
    if decision_of(s) {
        seq![TeardownStep::ReleaseCloseHandler, TeardownStep::PowerOff, TeardownStep::Exit { success: true }]
    } else {
        seq![TeardownStep::ReleaseCloseHandler, TeardownStep::Exit { success: s != WatchdogState::WriteFailed }]
    }
}

/// The teardown steps once the watchdog loop has stopped in `state`.
pub fn teardown_plan(state: WatchdogState) -> (r: Vec<TeardownStep>)
    ensures
        r@ == teardown_spec(state),
{
    let mut steps: Vec<TeardownStep> = Vec::new();
    steps.push(TeardownStep::ReleaseCloseHandler);
    if shutdown_decision(state) {
        steps.push(TeardownStep::PowerOff);
        steps.push(TeardownStep::Exit { success: true });
    } else {
        let failed = match state {
            WatchdogState::WriteFailed => true,
            _ => false,
        };
        steps.push(TeardownStep::Exit { success: !failed });
    }
    proof {
        assert(steps@ =~= teardown_spec(state));
    }
    steps
}

/// Power-off comes exactly once, after the release, when the shutdown
/// decision is set, and never when it is not.
pub proof fn lemma_power_off_once_iff_decided(s: WatchdogState)
    ensures
        teardown_spec(s)[0] == TeardownStep::ReleaseCloseHandler,
        decision_of(s) ==> forall|k: int|
            0 <= k < teardown_spec(s).len() ==> (#[trigger] teardown_spec(s)[k] == TeardownStep::PowerOff
                <==> k == 1),
        !decision_of(s) ==> forall|k: int|
            0 <= k < teardown_spec(s).len() ==> #[trigger] teardown_spec(s)[k] != TeardownStep::PowerOff,
{
}

/// A `shutdown` signal that reaches the watchdog loop first leads to exactly
/// one power-off, after the loop stopped and the close handler was released.
pub proof fn lemma_shutdown_signal_powers_off_once(events: Seq<WatchdogEvent>, i: int)
    requires
        0 <= i < events.len(),
        forall|j: int| 0 <= j < i ==> !is_terminating(#[trigger] events[j]),
        events[i] == WatchdogEvent::ShutdownSignal,
    ensures
        ({
            let steps = teardown_spec(run_state(WatchdogState::Running, events));
            &&& steps[0] == TeardownStep::ReleaseCloseHandler
            &&& forall|k: int| 0 <= k < steps.len() ==> (#[trigger] steps[k] == TeardownStep::PowerOff <==> k == 1)
        }),
{
    lemma_shutdown_first_decides(events, i);
    lemma_power_off_once_iff_decided(run_state(WatchdogState::Running, events));
}

/// A `cleanup` signal that reaches the watchdog loop first leads to no
/// power-off, whatever the countdown does afterwards.
pub proof fn lemma_cleanup_signal_never_powers_off(events: Seq<WatchdogEvent>, i: int)
    requires
        0 <= i < events.len(),
        forall|j: int| 0 <= j < i ==> !is_terminating(#[trigger] events[j]),
        events[i] == WatchdogEvent::CleanupSignal,
    ensures
        teardown_spec(run_state(WatchdogState::Running, events)) == seq![
            TeardownStep::ReleaseCloseHandler,
            TeardownStep::Exit { success: true },
        ],
{
    lemma_cleanup_first_never_decides(events, i);
}

} // verus!
