//! The life of a watch session, as decisions: what the session does on each
//! thing that happens to it, from its start to its end.

use crate::error::{ConfigError, ErrorView};
use vstd::prelude::*;

verus! {

/// Where a watch session stands.
#[derive(Debug, Clone, Copy, PartialEq, Eq, Structural)]
pub enum WatchState {
    /// No watch is registered yet.
    Idle,
    /// Events are forwarded as they are observed.
    Watching,
    /// The end was asked for; the worker is on its way out.
    ShuttingDown,
    /// The worker is gone and the channel is closed.
    Stopped,
}

/// What can happen to a watch session.
#[derive(Debug, Clone, PartialEq, Eq)]
pub enum WatchEvent {
    /// The watch on the file was registered.
    Registered,
    /// The watch could not be registered; the text says why.
    SetupFailed(String),
    /// A change, or an observation error, was observed.
    Observed,
    /// The shutdown signal arrived.
    ShutdownSignal,
    /// The sender of the shutdown signal is gone.
    SignalClosed,
    /// The worker has ended.
    WorkerExited,
}

/// What the session does next.
#[derive(Debug, Clone, PartialEq, Eq)]
pub enum WatchAction {
    /// Nothing.
    Nothing,
    /// Hand what was observed to the caller's channel.
    Forward,
    /// End the worker.
    StopWorker,
    /// Close the channel to the caller.
    CloseChannel,
    /// Return the error to the caller that asked for the watch.
    Fail(ConfigError),
}

/// A `WatchEvent` with its text as characters.
pub enum WatchEventView {
    Registered,
    SetupFailed(Seq<char>),
    Observed,
    ShutdownSignal,
    SignalClosed,
    WorkerExited,
}

/// A `WatchAction` with its error as a view.
pub enum WatchActionView {
    Nothing,
    Forward,
    StopWorker,
    CloseChannel,
    Fail(ErrorView),
}

impl View for WatchEvent {
    type V = WatchEventView;

    open spec fn view(&self) -> WatchEventView {
        match *self {
            WatchEvent::Registered => WatchEventView::Registered,
            WatchEvent::SetupFailed(text) => WatchEventView::SetupFailed(text@),
            WatchEvent::Observed => WatchEventView::Observed,
            WatchEvent::ShutdownSignal => WatchEventView::ShutdownSignal,
            WatchEvent::SignalClosed => WatchEventView::SignalClosed,
            WatchEvent::WorkerExited => WatchEventView::WorkerExited,
        }
    }
}

impl View for WatchAction {
    type V = WatchActionView;

    open spec fn view(&self) -> WatchActionView {
        match *self {
            WatchAction::Nothing => WatchActionView::Nothing,
            WatchAction::Forward => WatchActionView::Forward,
            WatchAction::StopWorker => WatchActionView::StopWorker,
            WatchAction::CloseChannel => WatchActionView::CloseChannel,
            WatchAction::Fail(e) => WatchActionView::Fail(e@),
        }
    }
}

/// The state after an event. A session starts to watch once the watch is
/// registered and stops at once if it cannot be; the signal, or the loss of
/// its sender, begins the shutdown; the worker's end completes it. Anything
/// else leaves the state as it is.
pub open spec fn next_state(state: WatchState, event: WatchEventView) -> WatchState {
    match (state, event) {
        (WatchState::Idle, WatchEventView::Registered) => WatchState::Watching,
        (WatchState::Idle, WatchEventView::SetupFailed(_)) => WatchState::Stopped,
        (WatchState::Watching, WatchEventView::ShutdownSignal) => WatchState::ShuttingDown,
        (WatchState::Watching, WatchEventView::SignalClosed) => WatchState::ShuttingDown,
        (WatchState::Watching, WatchEventView::WorkerExited) => WatchState::Stopped,
        (WatchState::ShuttingDown, WatchEventView::WorkerExited) => WatchState::Stopped,
        _ => state,
    }
}

/// What is done on an event. Every event observed while watching is
/// forwarded, one message each; a failed setup is returned as a watch error;
/// the channel is closed when the worker ends.
pub open spec fn action_on(state: WatchState, event: WatchEventView) -> WatchActionView {
    match (state, event) {
        (WatchState::Idle, WatchEventView::SetupFailed(text)) => WatchActionView::Fail(
            ErrorView::FileWatchError(text),
        ),
        (WatchState::Watching, WatchEventView::Observed) => WatchActionView::Forward,
        (WatchState::Watching, WatchEventView::ShutdownSignal) => WatchActionView::StopWorker,
        (WatchState::Watching, WatchEventView::SignalClosed) => WatchActionView::StopWorker,
        (WatchState::Watching, WatchEventView::WorkerExited) => WatchActionView::CloseChannel,
        (WatchState::ShuttingDown, WatchEventView::WorkerExited) => WatchActionView::CloseChannel,
        _ => WatchActionView::Nothing,
    }
}

/// The state after a run of events.
pub open spec fn state_after(state: WatchState, events: Seq<WatchEventView>) -> WatchState
    decreases events.len(),
{
    if events.len() == 0 {
        state
    } else {
        next_state(state_after(state, events.drop_last()), events.last())
    }
}

/// The state in which a new session starts.
pub fn watch_start() -> (r: WatchState)
    ensures
        r == WatchState::Idle,
{
    WatchState::Idle
}

/// One step of a watch session: the next state and what to do.
pub fn watch_step(state: WatchState, event: WatchEvent) -> (r: (WatchState, WatchAction))
    ensures
        r.0 == next_state(state, event@),
        r.1@ == action_on(state, event@),
{
    match (state, event) {
        (WatchState::Idle, WatchEvent::Registered) => (WatchState::Watching, WatchAction::Nothing),
        (WatchState::Idle, WatchEvent::SetupFailed(text)) => (
            WatchState::Stopped,
            WatchAction::Fail(ConfigError::FileWatchError(text)),
        ),
        (WatchState::Watching, WatchEvent::Observed) => (WatchState::Watching, WatchAction::Forward),
        (WatchState::Watching, WatchEvent::ShutdownSignal) => (
            WatchState::ShuttingDown,
            WatchAction::StopWorker,
        ),
        (WatchState::Watching, WatchEvent::SignalClosed) => (
            WatchState::ShuttingDown,
            WatchAction::StopWorker,
        ),
        (WatchState::Watching, WatchEvent::WorkerExited) => (
            WatchState::Stopped,
            WatchAction::CloseChannel,
        ),
        (WatchState::ShuttingDown, WatchEvent::WorkerExited) => (
            WatchState::Stopped,
            WatchAction::CloseChannel,
        ),
        (state, _) => (state, WatchAction::Nothing),
    }
}

/// While a session watches, whatever is observed is forwarded and the
/// session goes on watching.
pub proof fn lemma_watching_forwards(events: Seq<WatchEventView>)
    requires
        forall|i: int| 0 <= i < events.len() ==> events[i] is Observed,
    ensures
        state_after(WatchState::Watching, events) == WatchState::Watching,
        forall|i: int|
            0 <= i < events.len() ==> action_on(
                state_after(WatchState::Watching, events.take(i)),
                #[trigger] events[i],
            ) == WatchActionView::Forward,
    decreases events.len(),
{
    if events.len() > 0 {
        lemma_watching_forwards(events.drop_last());
        assert forall|i: int| 0 <= i < events.len() implies action_on(
            state_after(WatchState::Watching, events.take(i)),
            #[trigger] events[i],
        ) == WatchActionView::Forward by {
            let prefix = events.take(i);
            assert forall|j: int| 0 <= j < prefix.len() implies prefix[j] is Observed by {
                assert(prefix[j] == events[j]);
            }
            if i < events.len() - 1 {
                assert(events.drop_last().take(i) =~= prefix);
                assert(events.drop_last()[i] == events[i]);
            } else {
                assert(prefix =~= events.drop_last());
            }
        }
    }
}

/// Once the shutdown signal has arrived, or its sender is gone, nothing is
/// forwarded any more, whatever happens, and the session never watches
/// again; the worker's end closes the channel and stops the session.
pub proof fn lemma_shutdown_is_final(events: Seq<WatchEventView>, signal: WatchEventView)
    requires
        signal is ShutdownSignal || signal is SignalClosed,
    ensures
        next_state(WatchState::Watching, signal) == WatchState::ShuttingDown,
        ({
            let s = state_after(WatchState::ShuttingDown, events);
            s == WatchState::ShuttingDown || s == WatchState::Stopped
        }),
        forall|e: WatchEventView|
            action_on(state_after(WatchState::ShuttingDown, events), e)
                != WatchActionView::Forward,
        (exists|i: int| 0 <= i < events.len() && events[i] is WorkerExited) ==> state_after(
            WatchState::ShuttingDown,
            events,
        ) == WatchState::Stopped,
        action_on(WatchState::ShuttingDown, WatchEventView::WorkerExited)
            == WatchActionView::CloseChannel,
    decreases events.len(),
{
    if events.len() > 0 {
        lemma_shutdown_is_final(events.drop_last(), signal);
        if exists|i: int| 0 <= i < events.len() && events[i] is WorkerExited {
            let i = choose|i: int| 0 <= i < events.len() && events[i] is WorkerExited;
            if i < events.len() - 1 {
                assert(events.drop_last()[i] is WorkerExited);
            }
        }
    }
}

} // verus!
