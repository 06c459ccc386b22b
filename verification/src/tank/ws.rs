use vstd::prelude::*;

use crate::tank::proto::{command_payload, lemma_parse_command_payload, spec_parse, Direction};

verus! {

/// What the websocket client reports.
pub enum WsEvent<'a> {
    /// A text frame arrived.
    Text(&'a [u8]),
    Connected,
    Disconnected,
    Closed,
    /// The client reported an error.
    Failed,
    /// Anything else (binary frames, pings, ...).
    Other,
}

/// What the event is worth a log line for.
#[derive(Copy, Clone, Debug, PartialEq, Eq, Structural)]
pub enum EventNote {
    Nothing,
    Unparsed,
    Connected,
    Disconnected,
    Failed,
}

/// The reaction to one websocket event: the command to hand to the motors, if
/// any, and what to log.
#[derive(Copy, Clone, Debug, PartialEq, Eq, Structural)]
pub struct EventOutcome {
    pub command: Option<Direction>,
    pub note: EventNote,
}

/// The reaction to `event`: a parsed text frame becomes a motor command, and
/// losing the connection stops the tank.
pub open spec fn spec_handle_event(event: WsEvent) -> EventOutcome {
    match event {
        WsEvent::Text(text) => match spec_parse(text@) {
            Some(dir) => EventOutcome { command: Some(dir), note: EventNote::Nothing },
            None => EventOutcome { command: None, note: EventNote::Unparsed },
        },
        WsEvent::Connected => EventOutcome { command: None, note: EventNote::Connected },
        WsEvent::Disconnected | WsEvent::Closed => EventOutcome {
            command: Some(Direction::Stop),
            note: EventNote::Disconnected,
        },
        WsEvent::Failed => EventOutcome { command: None, note: EventNote::Failed },
        WsEvent::Other => EventOutcome { command: None, note: EventNote::Nothing },
    }
}

/// Reacts to one websocket event.
pub fn handle_event(event: &WsEvent) -> (res: EventOutcome)
    ensures
        res == spec_handle_event(*event),
{
    match event {
        WsEvent::Text(text) => match Direction::parse(text) {
            Some(dir) => EventOutcome { command: Some(dir), note: EventNote::Nothing },
            None => EventOutcome { command: None, note: EventNote::Unparsed },
        },
        WsEvent::Connected => EventOutcome { command: None, note: EventNote::Connected },
        WsEvent::Disconnected | WsEvent::Closed => EventOutcome {
            command: Some(Direction::Stop),
            note: EventNote::Disconnected,
        },
        WsEvent::Failed => EventOutcome { command: None, note: EventNote::Failed },
        WsEvent::Other => EventOutcome { command: None, note: EventNote::Nothing },
    }
}

/// Losing the server stops the tank; nothing but a text frame or a lost
/// connection ever moves it.
pub proof fn lemma_disconnect_stops(event: WsEvent)
    ensures
        (event is Disconnected || event is Closed) ==> spec_handle_event(event).command == Some(
            Direction::Stop,
        ),
        spec_handle_event(event).command is Some ==> (event is Text || event is Disconnected
            || event is Closed),
{
}

/// A text frame is handed to the motors as exactly the command the tank's parser
/// reads from its bytes, whatever that command is, and only an unreadable frame
/// is reported as such.
pub proof fn lemma_text_frame_command_is_parsed(text: &[u8])
    ensures
        spec_handle_event(WsEvent::Text(text)).command == spec_parse(text@),
        spec_handle_event(WsEvent::Text(text)).note == if spec_parse(text@) is Some {
            EventNote::Nothing
        } else {
            EventNote::Unparsed
        },
{
}

/// Every command the protocol defines, `{"dir":"<word>"}`, arriving as a text
/// frame makes the motors drive in the direction it names, stop included.
pub proof fn lemma_every_command_reaches_motors(dir: Direction, text: &[u8])
    requires
        text@ == command_payload(dir),
    ensures
        spec_handle_event(WsEvent::Text(text)).command == Some(dir),
{
    lemma_parse_command_payload(dir);
}

} // verus!
