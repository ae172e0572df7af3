//! The decisions of the event loop: when to run a pass, when to retry, and
//! when to give up. The caller performs each action and reports what came of
//! it as the next event.

use vstd::prelude::*;

verus! {

/// Where the loop stands.
#[derive(Clone, Copy, Debug, PartialEq, Eq, Structural)]
pub enum LoopState {
    /// The pass made at startup is running.
    Starting,
    /// Waiting for the next change notification.
    Listening,
    /// A pass for a notification is running.
    Reconciling,
    /// The one retry of a failed pass is running.
    Retrying,
    /// The loop has ended on a fatal error.
    Stopped,
}

/// What the caller reports.
#[derive(Clone, Copy, Debug, PartialEq, Eq, Structural)]
pub enum LoopEvent {
    PassSucceeded,
    PassFailed,
    /// The compositor announced a configuration change.
    Notification,
    /// The notification stream ended.
    StreamEnded,
    /// The bus connection is gone.
    ConnectionLost,
}

/// What the caller is to do next.
#[derive(Clone, Copy, Debug, PartialEq, Eq, Structural)]
pub enum LoopAction {
    /// Run a reconciliation pass and report its result.
    RunPass,
    /// Warn that the pass failed and run it once more.
    RetryPass,
    /// Wait for the next notification.
    Wait,
    /// End with the last error.
    Fail,
}

/// The events that can come in a state: a pass result only while a pass
/// runs, a notification only while listening (one that arrives during a
/// pass waits in the stream until the loop listens again), and the end of
/// the stream or of the connection at any time.
pub open spec fn event_expected(state: LoopState, event: LoopEvent) -> bool {
    match event {
        LoopEvent::ConnectionLost | LoopEvent::StreamEnded => true,
        LoopEvent::Notification => state == LoopState::Listening,
        LoopEvent::PassSucceeded | LoopEvent::PassFailed => state == LoopState::Starting || state
            == LoopState::Reconciling || state == LoopState::Retrying,
    }
}

/// Whether `event` can come in `state`.
pub fn accepts(state: LoopState, event: LoopEvent) -> (r: bool)
    ensures
        r == event_expected(state, event),
{
    match event {
        LoopEvent::ConnectionLost | LoopEvent::StreamEnded => true,
        LoopEvent::Notification => state == LoopState::Listening,
        LoopEvent::PassSucceeded | LoopEvent::PassFailed => state == LoopState::Starting || state
            == LoopState::Reconciling || state == LoopState::Retrying,
    }
}

/// The transition table of the loop, over the events that can come.
pub open spec fn spec_step(state: LoopState, event: LoopEvent) -> (LoopState, LoopAction) {
    match (state, event) {
        (LoopState::Stopped, _) => (LoopState::Stopped, LoopAction::Fail),
        (_, LoopEvent::ConnectionLost) => (LoopState::Stopped, LoopAction::Fail),
        (_, LoopEvent::StreamEnded) => (LoopState::Stopped, LoopAction::Fail),
        (LoopState::Starting, LoopEvent::PassSucceeded) => (LoopState::Listening, LoopAction::Wait),
        (LoopState::Starting, LoopEvent::PassFailed) => (LoopState::Stopped, LoopAction::Fail),
        (LoopState::Listening, LoopEvent::Notification) => (LoopState::Reconciling, LoopAction::RunPass),
        (LoopState::Reconciling, LoopEvent::PassSucceeded) => (LoopState::Listening, LoopAction::Wait),
        (LoopState::Reconciling, LoopEvent::PassFailed) => (LoopState::Retrying, LoopAction::RetryPass),
        (LoopState::Retrying, LoopEvent::PassSucceeded) => (LoopState::Listening, LoopAction::Wait),
        (LoopState::Retrying, LoopEvent::PassFailed) => (LoopState::Stopped, LoopAction::Fail),
        // The remaining pairs are not expected events.
        (s, _) => (s, LoopAction::Fail),
    }
}

/// The state in which the loop begins, and its first action: the startup pass.
pub fn start() -> (r: (LoopState, LoopAction))
    ensures
        r == (LoopState::Starting, LoopAction::RunPass),
{
    (LoopState::Starting, LoopAction::RunPass)
}

/// Moves the loop on by one event that can come in its state.
pub fn step(state: LoopState, event: LoopEvent) -> (r: (LoopState, LoopAction))
    requires
        event_expected(state, event),
    ensures
        r == spec_step(state, event),
{
    match (state, event) {
        (LoopState::Stopped, _) => (LoopState::Stopped, LoopAction::Fail),
        (_, LoopEvent::ConnectionLost) => (LoopState::Stopped, LoopAction::Fail),
        (_, LoopEvent::StreamEnded) => (LoopState::Stopped, LoopAction::Fail),
        (LoopState::Starting, LoopEvent::PassSucceeded) => (LoopState::Listening, LoopAction::Wait),
        (LoopState::Starting, LoopEvent::PassFailed) => (LoopState::Stopped, LoopAction::Fail),
        (LoopState::Listening, LoopEvent::Notification) => (LoopState::Reconciling, LoopAction::RunPass),
        (LoopState::Reconciling, LoopEvent::PassSucceeded) => (LoopState::Listening, LoopAction::Wait),
        (LoopState::Reconciling, LoopEvent::PassFailed) => (LoopState::Retrying, LoopAction::RetryPass),
        (LoopState::Retrying, LoopEvent::PassSucceeded) => (LoopState::Listening, LoopAction::Wait),
        (LoopState::Retrying, LoopEvent::PassFailed) => (LoopState::Stopped, LoopAction::Fail),
        (s, _) => (s, LoopAction::Fail),
    }
}

/// After a notification, a failed pass is retried exactly once: a success of
/// the retry returns the loop to listening, a second failure ends it.
pub proof fn lemma_retry_once(second: LoopEvent)
    requires
        second == LoopEvent::PassSucceeded || second == LoopEvent::PassFailed,
    ensures
        spec_step(LoopState::Listening, LoopEvent::Notification) == (LoopState::Reconciling, LoopAction::RunPass),
        spec_step(LoopState::Reconciling, LoopEvent::PassFailed) == (LoopState::Retrying, LoopAction::RetryPass),
        second == LoopEvent::PassSucceeded ==> spec_step(LoopState::Retrying, second) == (
            LoopState::Listening,
            LoopAction::Wait,
        ),
        second == LoopEvent::PassFailed ==> spec_step(LoopState::Retrying, second) == (
            LoopState::Stopped,
            LoopAction::Fail,
        ),
{
}

/// A lost connection ends the loop from every state, with no retry.
pub proof fn lemma_connection_loss_is_fatal(state: LoopState)
    ensures
        spec_step(state, LoopEvent::ConnectionLost) == (LoopState::Stopped, LoopAction::Fail),
{
}

} // verus!
