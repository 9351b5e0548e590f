use vstd::prelude::*;

verus! {

/// Where one program's log subscription stands.
#[derive(PartialEq, Eq, Structural, Clone, Copy)]
pub enum StreamState {
    Connecting,
    Streaming,
    Disconnected,
}

/// What happened to the subscription.
#[derive(PartialEq, Eq, Structural, Clone, Copy)]
pub enum StreamEvent {
    /// The log stream is open.
    Subscribed,
    /// Opening the stream failed.
    SubscribeFailed,
    /// A notification arrived; `failed` tells whether its transaction recorded an error.
    Notification { failed: bool },
    /// The stream ended.
    StreamEnded,
    /// The backoff delay after a disconnection is over.
    BackoffElapsed,
}

/// What the caller does next.
#[derive(PartialEq, Eq, Structural, Clone, Copy)]
pub enum StreamAction {
    /// Open the log stream.
    Subscribe,
    /// Wait for the next notification.
    Listen,
    /// Hand the notification's log to a fulfillment of its own and keep listening.
    Dispatch,
    /// Drop the notification and keep listening.
    Skip,
    /// Warn, and wait for the backoff delay before reconnecting.
    WaitToReconnect,
    /// Nothing: the event does not apply in this state.
    Ignore,
}

pub open spec fn stream_step(s: StreamState, e: StreamEvent) -> (StreamState, StreamAction) {
    match (s, e) {
        (StreamState::Connecting, StreamEvent::Subscribed) => (StreamState::Streaming, StreamAction::Listen),
        (StreamState::Connecting, StreamEvent::SubscribeFailed) => (
            StreamState::Disconnected,
            StreamAction::WaitToReconnect,
        ),
        (StreamState::Streaming, StreamEvent::Notification { failed }) => if failed {
            (StreamState::Streaming, StreamAction::Skip)
        } else {
            (StreamState::Streaming, StreamAction::Dispatch)
        },
        (StreamState::Streaming, StreamEvent::StreamEnded) => (
            StreamState::Disconnected,
            StreamAction::WaitToReconnect,
        ),
        (StreamState::Disconnected, StreamEvent::BackoffElapsed) => (
            StreamState::Connecting,
            StreamAction::Subscribe,
        ),
        _ => (s, StreamAction::Ignore),
    }
}

/// The subscription's next state and action: a transaction that recorded an error is skipped,
/// any other is dispatched without waiting for it, and a failed or ended stream is reopened
/// after a backoff delay, for as long as the process runs.
pub fn next_stream_step(s: StreamState, e: StreamEvent) -> (r: (StreamState, StreamAction))
    ensures
        r == stream_step(s, e),
{
    match (s, e) {
        (StreamState::Connecting, StreamEvent::Subscribed) => (StreamState::Streaming, StreamAction::Listen),
        (StreamState::Connecting, StreamEvent::SubscribeFailed) => (
            StreamState::Disconnected,
            StreamAction::WaitToReconnect,
        ),
        (StreamState::Streaming, StreamEvent::Notification { failed }) => if failed {
            (StreamState::Streaming, StreamAction::Skip)
        } else {
            (StreamState::Streaming, StreamAction::Dispatch)
        },
        (StreamState::Streaming, StreamEvent::StreamEnded) => (
            StreamState::Disconnected,
            StreamAction::WaitToReconnect,
        ),
        (StreamState::Disconnected, StreamEvent::BackoffElapsed) => (
            StreamState::Connecting,
            StreamAction::Subscribe,
        ),
        _ => (s, StreamAction::Ignore),
    }
}

/// The positions of the transactions that recorded no error, in order.
pub open spec fn backfill_positions(failed: Seq<bool>) -> Seq<usize>
    decreases failed.len(),
{
    if failed.len() == 0 {
        Seq::empty()
    } else if failed.last() {
        backfill_positions(failed.drop_last())
    } else {
        backfill_positions(failed.drop_last()).push((failed.len() - 1) as usize)
    }
}

/// Picks the historical transactions worth replaying: those that recorded no error, in the
/// order the node listed them.
pub fn backfill_candidates(failed: &[bool]) -> (r: Vec<usize>)
    ensures
        r@ == backfill_positions(failed@),
{
    let mut r: Vec<usize> = Vec::new();
    let mut i: usize = 0;
    while i < failed.len()
        invariant
            i <= failed@.len(),
            r@ == backfill_positions(failed@.take(i as int)),
        decreases failed@.len() - i,
    {
        proof {
            assert(failed@.take(i + 1).drop_last() =~= failed@.take(i as int));
        }
        if !failed[i] {
            r.push(i);
        }
        i += 1;
    }
    assert(failed@.take(failed@.len() as int) =~= failed@);
    r
}

} // verus!
