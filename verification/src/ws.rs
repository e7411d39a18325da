//! The per-connection decisions of the map server's WebSocket: the
//! channel is a one-way push of graph events to the browser.
use vstd::prelude::*;

verus! {

/// Sent when a client fell behind the broadcast channel, so that it
/// re-synchronises.
pub const FULL_RELOAD: &'static str = "{\"type\":\"full_reload\"}";

/// What happened on a connection.
pub enum SocketEvent {
    /// A serialized graph event from the broadcast channel.
    Broadcast(String),
    /// The client missed this many events.
    Lagged(u64),
    /// The broadcast channel closed.
    ChannelClosed,
    /// The client sent a message (ignored: the socket is push-only).
    ClientMessage,
    /// The client disconnected or the socket failed.
    ClientGone,
}

/// What the connection does next.
pub enum SocketAction {
    /// Send this text frame.
    Send(String),
    /// Stop serving the connection.
    Stop,
    /// Keep waiting.
    Ignore,
}

/// Decides the reaction to one event.
pub fn socket_step(event: SocketEvent) -> (a: SocketAction)
    ensures
        match event {
            SocketEvent::Broadcast(s) => a matches SocketAction::Send(t) && t@ == s@,
            SocketEvent::Lagged(_) => a matches SocketAction::Send(t) && t@ == FULL_RELOAD@,
            SocketEvent::ChannelClosed => a is Stop,
            SocketEvent::ClientMessage => a is Ignore,
            SocketEvent::ClientGone => a is Stop,
        },
{
    match event {
        SocketEvent::Broadcast(s) => SocketAction::Send(s),
        SocketEvent::Lagged(_) => SocketAction::Send(String::from_str(FULL_RELOAD)),
        SocketEvent::ChannelClosed => SocketAction::Stop,
        SocketEvent::ClientMessage => SocketAction::Ignore,
        SocketEvent::ClientGone => SocketAction::Stop,
    }
}

} // verus!
