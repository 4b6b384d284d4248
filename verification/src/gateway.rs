//! The decisions of the local websocket gateway, which stands in for API
//! Gateway during development: which connections it accepts, what it does
//! with each websocket frame, and how it answers a post to a connection.

use vstd::prelude::*;

verus! {

/// What arrived on a gateway websocket, or how its forwarding went.
pub enum GatewayEvent {
    /// A text frame.
    Text(String),
    /// A close frame.
    Close,
    /// A binary, ping or pong frame.
    Other,
    /// A receive error.
    Failed,
    /// The message handler failed on a forwarded frame.
    HandlerFailed,
}

/// What the gateway does next on a connection.
#[derive(Debug)]
pub enum GatewayStep {
    /// Hand this text to the message route.
    Forward(String),
    /// Wait for the next frame.
    Ignore,
    /// End the connection: drop the peer and run the disconnect route.
    Stop,
}

/// Whether the connect route's answer admits the connection: any status
/// below 400.
pub fn gateway_connect_accepted(status_code: i64) -> (r: bool)
    ensures
        r == (status_code < 400),
{
    status_code < 400
}

/// The gateway's next step for `event`: a text frame is forwarded, other
/// frames are ignored, and a close frame, a receive error or a failed
/// handler ends the connection.
pub fn gateway_step(event: GatewayEvent) -> (r: GatewayStep)
    ensures
        match event {
            GatewayEvent::Text(t) => r == GatewayStep::Forward(t),
            GatewayEvent::Other => r is Ignore,
            _ => r is Stop,
        },
{
    match event {
        GatewayEvent::Text(t) => GatewayStep::Forward(t),
        GatewayEvent::Other => GatewayStep::Ignore,
        GatewayEvent::Close => GatewayStep::Stop,
        GatewayEvent::Failed => GatewayStep::Stop,
        GatewayEvent::HandlerFailed => GatewayStep::Stop,
    }
}

/// The status of a post to a connection: 400 where the body is not UTF-8,
/// 200 where it reached an open peer, and 410 where the peer is unknown or
/// its channel is closed.
pub fn gateway_post_status(body_is_utf8: bool, peer_open: bool) -> (r: u16)
    ensures
        r == (if !body_is_utf8 {
            400u16
        } else if peer_open {
            200u16
        } else {
            410u16
        }),
{
    if !body_is_utf8 {
        400
    } else if peer_open {
        200
    } else {
        410
    }
}

} // verus!
