use vstd::prelude::*;
use crate::indexer::{LogMessage, LogMessageView};

verus! {

/// Seconds the subscriber waits after a failed subscribe or a broken stream
/// before it subscribes again. Fixed: no jitter, no exponential growth.
pub const RECONNECT_BACKOFF_SECS: u64 = 5;

/// Where the subscriber stands. There is no terminal phase: the subscriber
/// never ends voluntarily.
#[derive(Clone, Copy, Debug, PartialEq, Eq, Structural)]
pub enum SubscriberPhase {
    /// No live subscription; waiting out the backoff.
    Disconnected,
    /// A subscription attempt is in flight.
    Subscribing,
    /// A live subscription is delivering notifications.
    Streaming,
}

/// What the outside world reports to the subscriber.
pub enum SubscriberEvent {
    /// The backoff wait is over.
    BackoffElapsed,
    /// The subscription attempt succeeded.
    SubscribeSucceeded,
    /// The subscription attempt failed.
    SubscribeFailed,
    /// The live stream delivered a notification.
    NotificationReceived(LogMessage),
    /// The live stream reported an error.
    StreamError,
    /// The live stream ended.
    StreamEnded,
    /// The hand-off queue's receiver is gone: a terminal condition for this
    /// subscription attempt only, not for the subscriber loop.
    QueueClosed,
}

/// Mathematical image of `SubscriberEvent`.
pub enum SubscriberEventView {
    BackoffElapsed,
    SubscribeSucceeded,
    SubscribeFailed,
    NotificationReceived(LogMessageView),
    StreamError,
    StreamEnded,
    QueueClosed,
}

impl View for SubscriberEvent {
    type V = SubscriberEventView;

    open spec fn view(&self) -> SubscriberEventView {
        match self {
            SubscriberEvent::BackoffElapsed => SubscriberEventView::BackoffElapsed,
            SubscriberEvent::SubscribeSucceeded => SubscriberEventView::SubscribeSucceeded,
            SubscriberEvent::SubscribeFailed => SubscriberEventView::SubscribeFailed,
            SubscriberEvent::NotificationReceived(m) => SubscriberEventView::NotificationReceived(
                m@,
            ),
            SubscriberEvent::StreamError => SubscriberEventView::StreamError,
            SubscriberEvent::StreamEnded => SubscriberEventView::StreamEnded,
            SubscriberEvent::QueueClosed => SubscriberEventView::QueueClosed,
        }
    }
}

/// What the subscriber asks the outside world to do next.
pub enum SubscriberAction {
    /// Establish the log subscription for the target program.
    BeginSubscribe,
    /// Sleep for the given number of seconds.
    WaitBackoff(u64),
    /// Put the notification on the hand-off queue.
    Forward(LogMessage),
    /// Nothing; keep waiting for the next event.
    Idle,
}

/// Mathematical image of `SubscriberAction`.
pub enum SubscriberActionView {
    BeginSubscribe,
    WaitBackoff(u64),
    Forward(LogMessageView),
    Idle,
}

impl View for SubscriberAction {
    type V = SubscriberActionView;

    open spec fn view(&self) -> SubscriberActionView {
        match self {
            SubscriberAction::BeginSubscribe => SubscriberActionView::BeginSubscribe,
            SubscriberAction::WaitBackoff(s) => SubscriberActionView::WaitBackoff(*s),
            SubscriberAction::Forward(m) => SubscriberActionView::Forward(m@),
            SubscriberAction::Idle => SubscriberActionView::Idle,
        }
    }
}

/// The subscriber's transition function: `Disconnected → Subscribing →
/// Streaming → Disconnected` on any receive error or stream termination,
/// then a fixed backoff wait and a new subscribe, looping forever. An event
/// that cannot occur in the current phase changes nothing.
pub open spec fn spec_subscriber_step(
    phase: SubscriberPhase,
    event: SubscriberEventView,
) -> (SubscriberPhase, SubscriberActionView) {
    match (phase, event) {
        (SubscriberPhase::Disconnected, SubscriberEventView::BackoffElapsed) => (
            SubscriberPhase::Subscribing,
            SubscriberActionView::BeginSubscribe,
        ),
        (SubscriberPhase::Subscribing, SubscriberEventView::SubscribeSucceeded) => (
            SubscriberPhase::Streaming,
            SubscriberActionView::Idle,
        ),
        (SubscriberPhase::Subscribing, SubscriberEventView::SubscribeFailed) => (
            SubscriberPhase::Disconnected,
            SubscriberActionView::WaitBackoff(RECONNECT_BACKOFF_SECS),
        ),
        (SubscriberPhase::Streaming, SubscriberEventView::NotificationReceived(m)) => (
            SubscriberPhase::Streaming,
            SubscriberActionView::Forward(m),
        ),
        (SubscriberPhase::Streaming, SubscriberEventView::StreamError) => (
            SubscriberPhase::Disconnected,
            SubscriberActionView::WaitBackoff(RECONNECT_BACKOFF_SECS),
        ),
        (SubscriberPhase::Streaming, SubscriberEventView::StreamEnded) => (
            SubscriberPhase::Disconnected,
            SubscriberActionView::WaitBackoff(RECONNECT_BACKOFF_SECS),
        ),
        (SubscriberPhase::Streaming, SubscriberEventView::QueueClosed) => (
            SubscriberPhase::Disconnected,
            SubscriberActionView::WaitBackoff(RECONNECT_BACKOFF_SECS),
        ),
        (p, _) => (p, SubscriberActionView::Idle),
    }
}

/// Advance the subscriber by one event and say what to do next. The driving
/// loop performs the action, hands back the resulting event, and calls this
/// again, forever.
pub fn subscriber_step(phase: SubscriberPhase, event: SubscriberEvent) -> (r: (
    SubscriberPhase,
    SubscriberAction,
))
    ensures
        r.0 == spec_subscriber_step(phase, event@).0,
        r.1@ == spec_subscriber_step(phase, event@).1,
{
    match (phase, event) {
        (SubscriberPhase::Disconnected, SubscriberEvent::BackoffElapsed) => (
            SubscriberPhase::Subscribing,
            SubscriberAction::BeginSubscribe,
        ),
        (SubscriberPhase::Subscribing, SubscriberEvent::SubscribeSucceeded) => (
            SubscriberPhase::Streaming,
            SubscriberAction::Idle,
        ),
        (SubscriberPhase::Subscribing, SubscriberEvent::SubscribeFailed) => (
            SubscriberPhase::Disconnected,
            SubscriberAction::WaitBackoff(RECONNECT_BACKOFF_SECS),
        ),
        (SubscriberPhase::Streaming, SubscriberEvent::NotificationReceived(m)) => (
            SubscriberPhase::Streaming,
            SubscriberAction::Forward(m),
        ),
        (SubscriberPhase::Streaming, SubscriberEvent::StreamError) => (
            SubscriberPhase::Disconnected,
            SubscriberAction::WaitBackoff(RECONNECT_BACKOFF_SECS),
        ),
        (SubscriberPhase::Streaming, SubscriberEvent::StreamEnded) => (
            SubscriberPhase::Disconnected,
            SubscriberAction::WaitBackoff(RECONNECT_BACKOFF_SECS),
        ),
        (SubscriberPhase::Streaming, SubscriberEvent::QueueClosed) => (
            SubscriberPhase::Disconnected,
            SubscriberAction::WaitBackoff(RECONNECT_BACKOFF_SECS),
        ),
        (p, _) => (p, SubscriberAction::Idle),
    }
}

/// The phase after a whole run of events.
pub open spec fn spec_subscriber_run(
    phase: SubscriberPhase,
    events: Seq<SubscriberEventView>,
) -> SubscriberPhase
    decreases events.len(),
{
    if events.len() == 0 {
        phase
    } else {
        spec_subscriber_run(spec_subscriber_step(phase, events[0]).0, events.skip(1))
    }
}

/// An event that reports the end of the current attempt: a failed subscribe,
/// a stream error or termination, or a gone receiver.
pub open spec fn spec_is_failure_event(event: SubscriberEventView) -> bool {
    ||| event is SubscribeFailed
    ||| event is StreamError
    ||| event is StreamEnded
    ||| event is QueueClosed
}

/// Law: every failure is answered with the fixed backoff wait and the
/// disconnected phase — never with a halt — and once the backoff elapses the
/// machine unconditionally subscribes again. Reconnection asks nothing of
/// how often it has failed before: there is no retry limit in the state.
pub proof fn lemma_subscriber_always_recovers(
    phase: SubscriberPhase,
    event: SubscriberEventView,
)
    requires
        spec_is_failure_event(event),
    ensures
        phase is Streaming && (event is StreamError || event is StreamEnded
            || event is QueueClosed) ==> spec_subscriber_step(phase, event) == (
            SubscriberPhase::Disconnected,
            SubscriberActionView::WaitBackoff(RECONNECT_BACKOFF_SECS),
        ),
        phase is Subscribing && event is SubscribeFailed ==> spec_subscriber_step(phase, event)
            == (
            SubscriberPhase::Disconnected,
            SubscriberActionView::WaitBackoff(RECONNECT_BACKOFF_SECS),
        ),
        spec_subscriber_step(
            SubscriberPhase::Disconnected,
            SubscriberEventView::BackoffElapsed,
        ) == (SubscriberPhase::Subscribing, SubscriberActionView::BeginSubscribe),
{
}

/// The events of `n` failed connection rounds: the backoff elapses, the
/// subscribe is attempted, and it fails, over and over.
pub open spec fn spec_failure_rounds(n: nat) -> Seq<SubscriberEventView>
    decreases n,
{
    if n == 0 {
        Seq::empty()
    } else {
        seq![
            SubscriberEventView::BackoffElapsed,
            SubscriberEventView::SubscribeFailed,
        ] + spec_failure_rounds((n - 1) as nat)
    }
}

/// Law: a stream that errors on every connect never exits the subscriber.
/// However many failed rounds have passed, the machine stands disconnected,
/// waiting out the fixed backoff to try again — retries are unconditional
/// and unbounded.
pub proof fn lemma_subscriber_retries_forever(n: nat)
    ensures
        spec_subscriber_run(SubscriberPhase::Disconnected, spec_failure_rounds(n))
            is Disconnected,
    decreases n,
{
    if n > 0 {
        let events = spec_failure_rounds(n);
        let rest = spec_failure_rounds((n - 1) as nat);
        assert(events.len() == 2 + rest.len());
        assert(events[0] is BackoffElapsed);
        assert(events.skip(1)[0] is SubscribeFailed);
        assert(events.skip(1).skip(1) =~= rest);
        let after_backoff = spec_subscriber_step(SubscriberPhase::Disconnected, events[0]).0;
        assert(after_backoff is Subscribing);
        let after_failure = spec_subscriber_step(after_backoff, events.skip(1)[0]).0;
        assert(after_failure is Disconnected);
        assert(spec_subscriber_run(SubscriberPhase::Disconnected, events)
            == spec_subscriber_run(after_backoff, events.skip(1)));
        assert(events.skip(1).len() > 0);
        assert(spec_subscriber_run(after_backoff, events.skip(1)) == spec_subscriber_run(
            after_failure,
            events.skip(1).skip(1),
        ));
        lemma_subscriber_retries_forever((n - 1) as nat);
    }
}

} // verus!
