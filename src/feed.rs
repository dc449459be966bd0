use vstd::prelude::*;

use crate::models::WsMessage;

verus! {

/// What a dashboard connection observes next.
#[derive(Debug)]
pub enum FeedEvent {
    /// The client sent a close frame, or its stream ended.
    ClientClosed,
    /// The client sent a keepalive ping with this payload.
    ClientPing(Vec<u8>),
    /// The client sent any other frame.
    ClientOther,
    /// The store published an event.
    Published(WsMessage),
    /// The subscriber fell behind and events were lost, or the channel closed.
    Missed,
    /// A frame could not be sent to the client.
    SendFailed,
}

/// What the connection does in answer.
#[derive(Debug)]
pub enum FeedAction {
    /// End the connection loop.
    Stop,
    /// Answer the client's ping with a pong carrying the same payload.
    Pong(Vec<u8>),
    /// Relay the event to the client as a frame.
    Relay(WsMessage),
    /// Nothing to do; wait for the next event.
    Wait,
}

/// Decides how a dashboard connection answers `event`: it stops on a close
/// or a failed send, answers pings, relays published events, and skips
/// whatever else comes, including a gap in the event stream.
pub fn feed_step(event: FeedEvent) -> (r: FeedAction)
    ensures
        match event {
            FeedEvent::ClientClosed => r is Stop,
            FeedEvent::SendFailed => r is Stop,
            FeedEvent::ClientPing(data) => r matches FeedAction::Pong(d) && d@ == data@,
            FeedEvent::Published(m) => r matches FeedAction::Relay(x) && x == m,
            FeedEvent::ClientOther => r is Wait,
            FeedEvent::Missed => r is Wait,
        },
{
    match event {
        FeedEvent::ClientClosed => FeedAction::Stop,
        FeedEvent::SendFailed => FeedAction::Stop,
        FeedEvent::ClientPing(data) => FeedAction::Pong(data),
        FeedEvent::Published(m) => FeedAction::Relay(m),
        FeedEvent::ClientOther => FeedAction::Wait,
        FeedEvent::Missed => FeedAction::Wait,
    }
}

} // verus!
