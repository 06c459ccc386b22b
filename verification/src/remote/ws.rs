use vstd::prelude::*;

use crate::remote::protocol::{is_json_document, json_value_of, parse_json_value};
use crate::remote::server::Telemetry;

verus! {

/// What a websocket session's read loop wakes up for.
#[derive(Copy, Clone, Debug, PartialEq, Eq, Structural)]
pub enum SessionEvent {
    /// The heartbeat interval elapsed.
    Heartbeat,
    /// A complete text message arrived.
    Text,
    /// The peer pinged.
    Ping,
    /// The peer closed the connection.
    Close,
    /// Some other complete message arrived.
    OtherMessage,
    /// The stream failed or ended.
    StreamEnd,
}

/// What the read loop does next.
#[derive(Copy, Clone, Debug, PartialEq, Eq, Structural)]
pub enum SessionAction {
    /// Ping the peer; end the session if that fails.
    SendPing,
    /// Hand the text to the registry.
    HandleText,
    /// Answer the ping; end the session if that fails.
    SendPong,
    /// Close our side and end the session.
    CloseAndEnd,
    /// Keep reading.
    Continue,
    /// End the session.
    End,
}

/// The read loop's reaction to each event.
pub open spec fn spec_session_step(event: SessionEvent) -> SessionAction {
    match event {
        SessionEvent::Heartbeat => SessionAction::SendPing,
        SessionEvent::Text => SessionAction::HandleText,
        SessionEvent::Ping => SessionAction::SendPong,
        SessionEvent::Close => SessionAction::CloseAndEnd,
        SessionEvent::OtherMessage => SessionAction::Continue,
        SessionEvent::StreamEnd => SessionAction::End,
    }
}

/// The read loop's reaction to `event`.
pub fn session_step(event: SessionEvent) -> (res: SessionAction)
    ensures
        res == spec_session_step(event),
{
    match event {
        SessionEvent::Heartbeat => SessionAction::SendPing,
        SessionEvent::Text => SessionAction::HandleText,
        SessionEvent::Ping => SessionAction::SendPong,
        SessionEvent::Close => SessionAction::CloseAndEnd,
        SessionEvent::OtherMessage => SessionAction::Continue,
        SessionEvent::StreamEnd => SessionAction::End,
    }
}

/// A device's text message as telemetry: the value `serde_json` reads from a
/// JSON document is relayed, anything else is dropped.
pub fn device_telemetry(text: &str) -> (res: Option<Telemetry>)
    ensures
        res is Some <==> is_json_document(text@),
        res matches Some(t) ==> json_value_of(text@) == Some(t.data),
{
    match parse_json_value(text) {
        Some(data) => Some(Telemetry { data }),
        None => None,
    }
}

} // verus!
