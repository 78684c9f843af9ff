use vstd::prelude::*;

verus! {

/// Seconds the user has to cancel the shutdown once the countdown is armed.
pub const SHUTDOWN_TIMEOUT_SECS: u64 = 20;

/// Where the shutdown countdown stands.
#[derive(Debug, Clone, Copy, PartialEq, Eq, Structural)]
pub enum CountdownState {
    Armed,
    Cancelled,
    Confirmed,
}

/// What ended the countdown's wait for a cancellation.
#[derive(Debug, Clone, Copy, PartialEq, Eq, Structural)]
pub enum CountdownEvent {
    /// The user dismissed the prompt, which cancels the shutdown.
    CancelReceived,
    /// The timeout passed with no cancellation.
    TimedOut,
    /// The prompt went away without sending a cancellation (it could not be shown).
    CancelLost,
}

/// One transition of the countdown, and whether it sends the `shutdown`
/// signal. Only the first event counts; a resolved countdown ignores the rest.
pub open spec fn countdown_next(s: CountdownState, e: CountdownEvent) -> (CountdownState, bool) {
    match s {
        CountdownState::Armed => match e {
            CountdownEvent::CancelReceived => (CountdownState::Cancelled, false),
            CountdownEvent::TimedOut => (CountdownState::Confirmed, true),
            CountdownEvent::CancelLost => (CountdownState::Cancelled, false),
        },
        _ => (s, false),
    }
}

/// The state after a run of events from `s`.
pub open spec fn countdown_run(s: CountdownState, events: Seq<CountdownEvent>) -> CountdownState
    decreases events.len(),
{
    if events.len() == 0 {
        s
    } else {
        countdown_next(countdown_run(s, events.drop_last()), events.last()).0
    }
}

/// Whether the `i`-th event of a run from `Armed` sends the `shutdown` signal.
pub open spec fn sends_at(events: Seq<CountdownEvent>, i: int) -> bool {
    countdown_next(countdown_run(CountdownState::Armed, events.take(i)), events[i]).1
}

/// The countdown's transition on `event`, and whether to send `shutdown`.
pub fn countdown_step(state: CountdownState, event: CountdownEvent) -> (r: (CountdownState, bool))
    ensures
        r == countdown_next(state, event),
{
    match state {
        CountdownState::Armed => match event {
            CountdownEvent::CancelReceived => (CountdownState::Cancelled, false),
            CountdownEvent::TimedOut => (CountdownState::Confirmed, true),
            CountdownEvent::CancelLost => (CountdownState::Cancelled, false),
        },
        _ => (state, false),
    }
}

proof fn lemma_resolved_after_first(events: Seq<CountdownEvent>, k: int)
    requires
        1 <= k <= events.len(),
    ensures
        countdown_run(CountdownState::Armed, events.take(k)) != CountdownState::Armed,
    decreases k,
{
    assert(events.take(k).drop_last() =~= events.take(k - 1));
    if k > 1 {
        lemma_resolved_after_first(events, k - 1);
    } else {
        assert(events.take(0) =~= Seq::<CountdownEvent>::empty());
    }
}

/// A cancellation that arrives strictly before the timeout means that no
/// `shutdown` signal is ever sent.
pub proof fn lemma_cancel_before_timeout_never_sends(events: Seq<CountdownEvent>, i: int)
    requires
        0 <= i < events.len(),
        events[i] == CountdownEvent::CancelReceived,
        forall|j: int| 0 <= j < i ==> #[trigger] events[j] != CountdownEvent::TimedOut,
    ensures
        forall|k: int| 0 <= k < events.len() ==> !#[trigger] sends_at(events, k),
{
    assert(events.take(0) =~= Seq::<CountdownEvent>::empty());
    assert forall|k: int| 0 <= k < events.len() implies !#[trigger] sends_at(events, k) by {
        if k > 0 {
            lemma_resolved_after_first(events, k);
        }
    }
}

/// The `shutdown` signal is sent exactly when the timeout comes first.
pub proof fn lemma_sends_only_on_first_timeout(events: Seq<CountdownEvent>, k: int)
    requires
        0 <= k < events.len(),
    ensures
        sends_at(events, k) <==> (k == 0 && events[0] == CountdownEvent::TimedOut),
{
    assert(events.take(0) =~= Seq::<CountdownEvent>::empty());
    if k > 0 {
        lemma_resolved_after_first(events, k);
    }
}

} // verus!
