//! The decisions of the live-stream loops that all four clients run: what
//! to do with each event of the WebSocket connection, the Ctrl+C signal and
//! the once-a-second timer. The loop itself, which waits for these events
//! and carries out the actions, is the application's.

use vstd::prelude::*;
use vstd::string::*;

verus! {

broadcast use vstd::string::group_string_axioms;

/// An event of a live stream.
pub enum StreamEvent {
    /// A text message arrived.
    Text,
    /// The server sent a close frame.
    Close,
    /// The connection ended without a close frame.
    End,
    /// Reading from the connection failed with this message.
    Failure(String),
    /// A binary, ping or pong frame arrived.
    Other,
    /// The user pressed Ctrl+C.
    Interrupt,
    /// The once-a-second timer fired at this time (milliseconds since the epoch).
    Tick(u64),
}

/// What the loop does next.
pub enum StreamAction {
    /// Hand the text message to the provider's message handler.
    Handle,
    /// Discard the frame.
    Ignore,
    /// Close the connection and end successfully.
    Shutdown,
    /// End with a "connection lost" error carrying this message.
    Disconnected(String),
    /// Hand out every aggregated minute before this minute.
    Drain(u64),
}

/// The message reported when the server closes the stream.
pub open spec fn closed_by_server() -> Seq<char> {
    "connection closed by server"@
}

/// The next step of a live-stream loop after `event`.
pub fn next_action(event: StreamEvent) -> (res: StreamAction)
    ensures
        match event {
            StreamEvent::Text => res is Handle,
            StreamEvent::Close | StreamEvent::End => res matches StreamAction::Disconnected(m) && m@ == closed_by_server(),
            StreamEvent::Failure(e) => res matches StreamAction::Disconnected(m) && m@ == e@,
            StreamEvent::Other => res is Ignore,
            StreamEvent::Interrupt => res is Shutdown,
            StreamEvent::Tick(now_ms) => res == StreamAction::Drain(now_ms / 60_000),
        },
{
    match event {
        StreamEvent::Text => StreamAction::Handle,
        StreamEvent::Close => StreamAction::Disconnected("connection closed by server".to_string()),
        StreamEvent::End => StreamAction::Disconnected("connection closed by server".to_string()),
        StreamEvent::Failure(e) => StreamAction::Disconnected(e),
        StreamEvent::Other => StreamAction::Ignore,
        StreamEvent::Interrupt => StreamAction::Shutdown,
        StreamEvent::Tick(now_ms) => StreamAction::Drain(now_ms / 60_000),
    }
}

} // verus!
