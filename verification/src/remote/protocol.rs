use vstd::prelude::*;

verus! {

/// A direction command as the browser sends it and the device receives it.
#[derive(Copy, Clone, Debug, PartialEq, Eq, Structural)]
pub enum Direction {
    Up,
    Down,
    Left,
    Right,
    Stop,
}

/// The lowercase wire name of a direction.
pub open spec fn direction_name(dir: Direction) -> Seq<char> {
    match dir {
        Direction::Up => seq!['u', 'p'],
        Direction::Down => seq!['d', 'o', 'w', 'n'],
        Direction::Left => seq!['l', 'e', 'f', 't'],
        Direction::Right => seq!['r', 'i', 'g', 'h', 't'],
        Direction::Stop => seq!['s', 't', 'o', 'p'],
    }
}

/// `{"dir":"<name>"}`
pub open spec fn move_command_text(dir: Direction) -> Seq<char> {
    seq!['{', '"', 'd', 'i', 'r', '"', ':', '"'] + direction_name(dir) + seq!['"', '}']
}

impl Direction {
    /// The lowercase wire name of this direction.
    pub fn name(self) -> (res: &'static str)
        ensures
            res@ == direction_name(self),
    {
        match self {
            Direction::Up => {
                let s = "up";
                proof {
                    reveal_strlit("up");
                }
                assert(s@ =~= direction_name(self));
                s
            },
            Direction::Down => {
                let s = "down";
                proof {
                    reveal_strlit("down");
                }
                assert(s@ =~= direction_name(self));
                s
            },
            Direction::Left => {
                let s = "left";
                proof {
                    reveal_strlit("left");
                }
                assert(s@ =~= direction_name(self));
                s
            },
            Direction::Right => {
                let s = "right";
                proof {
                    reveal_strlit("right");
                }
                assert(s@ =~= direction_name(self));
                s
            },
            Direction::Stop => {
                let s = "stop";
                proof {
                    reveal_strlit("stop");
                }
                assert(s@ =~= direction_name(self));
                s
            },
        }
    }
}

/// A drive command from a browser: `{"dir":"..."}`.
#[derive(Copy, Clone, Debug, PartialEq, Eq, Structural)]
pub struct MoveCmd {
    pub dir: Direction,
}

impl MoveCmd {
    /// The JSON text of this command.
    pub fn to_json(&self) -> (res: String)
        ensures
            res@ == move_command_text(self.dir),
    {
        let mut s = String::from_str("{\"dir\":\"");
        s.append(self.dir.name());
        s.append("\"}");
        proof {
            reveal_strlit("{\"dir\":\"");
            reveal_strlit("\"}");
        }
        assert(s@ =~= move_command_text(self.dir));
        s
    }
}

#[verifier::external_type_specification]
#[verifier::external_body]
pub struct ExJsonValue(serde_json::Value);

#[verifier::external_type_specification]
#[verifier::external_body]
pub struct ExJsonError(serde_json::Error);

/// The value `serde_json` reads from `text`, or `None` where `text` is not one
/// complete JSON document.
pub uninterp spec fn json_value_of(text: Seq<char>) -> Option<serde_json::Value>;

/// Whether `text` is one complete JSON document, as `serde_json` reads it.
pub open spec fn is_json_document(text: Seq<char>) -> bool {
    json_value_of(text) is Some
}

/// `serde_json::from_str::<serde_json::Value>`: reads `text` as a JSON value.
/// Its result depends on the text alone (a fixed nesting limit, no state), and
/// is named `json_value_of`.
#[verifier::external_body]
pub(crate) fn parse_json_value(text: &str) -> (res: Option<serde_json::Value>)
    ensures
        res == json_value_of(text@),
{
    serde_json::from_str::<serde_json::Value>(text).ok()
}

/// The compact JSON text that `serde_json` writes for a value.
pub uninterp spec fn json_text_of(value: serde_json::Value) -> Seq<char>;

/// `serde_json::to_string` on a `serde_json::Value`: its compact JSON text,
/// named `json_text_of`. It succeeds: its source fails only where a `Serialize`
/// impl decides to or a map key is not a string, and `Value`'s impl never fails
/// and keys its objects by strings, while the `Vec` it writes into takes every
/// byte.
#[verifier::external_body]
pub(crate) fn json_value_text(value: &serde_json::Value) -> (res: Result<String, serde_json::Error>)
    ensures
        res is Ok,
        res matches Ok(s) ==> s@ == json_text_of(*value),
{
    serde_json::to_string(value)
}

/// An event pushed to every browser.
pub enum UiEvent {
    /// Whether at least one device is connected.
    Device { online: bool },
    /// A telemetry object that a device sent.
    Telemetry { data: serde_json::Value },
}

/// `{"evt":"device","online":<true|false>}`
pub open spec fn device_event_text(online: bool) -> Seq<char> {
    seq!['{', '"', 'e', 'v', 't', '"', ':', '"', 'd', 'e', 'v', 'i', 'c', 'e', '"', ',', '"', 'o', 'n', 'l', 'i', 'n', 'e', '"', ':']
        + if online {
        seq!['t', 'r', 'u', 'e']
    } else {
        seq!['f', 'a', 'l', 's', 'e']
    } + seq!['}']
}

/// `{"evt":"telemetry","data":<data>}` around the JSON text of the data.
pub open spec fn telemetry_event_text(data: Seq<char>) -> Seq<char> {
    seq!['{', '"', 'e', 'v', 't', '"', ':', '"', 't', 'e', 'l', 'e', 'm', 'e', 't', 'r', 'y', '"', ',', '"', 'd', 'a', 't', 'a', '"', ':']
        + data + seq!['}']
}

/// The JSON text of a device-presence event.
pub fn device_event_json(online: bool) -> (res: String)
    ensures
        res@ == device_event_text(online),
{
    let mut s = String::from_str("{\"evt\":\"device\",\"online\":");
    proof {
        reveal_strlit("{\"evt\":\"device\",\"online\":");
        reveal_strlit("true");
        reveal_strlit("false");
        reveal_strlit("}");
    }
    if online {
        s.append("true");
    } else {
        s.append("false");
    }
    s.append("}");
    assert(s@ =~= device_event_text(online));
    s
}

/// The JSON text of a telemetry event around the JSON text of its data.
pub fn telemetry_event_json(data: &str) -> (res: String)
    ensures
        res@ == telemetry_event_text(data@),
{
    let mut s = String::from_str("{\"evt\":\"telemetry\",\"data\":");
    s.append(data);
    s.append("}");
    proof {
        reveal_strlit("{\"evt\":\"telemetry\",\"data\":");
        reveal_strlit("}");
    }
    assert(s@ =~= telemetry_event_text(data@));
    s
}

impl UiEvent {
    /// The JSON text of this event, tagged by `evt`; `None` where the telemetry
    /// data cannot be written as JSON (which `serde_json` never reports for a
    /// `Value`).
    pub fn to_json(&self) -> (res: Option<String>)
        ensures
            match self {
                UiEvent::Device { online } => res matches Some(s) && s@ == device_event_text(*online),
                UiEvent::Telemetry { data } => res matches Some(s) && s@ == telemetry_event_text(
                    json_text_of(*data),
                ),
            },
    {
        match self {
            UiEvent::Device { online } => Some(device_event_json(*online)),
            UiEvent::Telemetry { data } => match json_value_text(data) {
                Ok(text) => Some(telemetry_event_json(text.as_str())),
                Err(_) => None,
            },
        }
    }
}

/// A telemetry event carries the data's text whole: a fixed 26-character head,
/// then every character of the data, then one closing brace; so two events are
/// the same only for the same data.
pub proof fn lemma_telemetry_event_holds_data(d: Seq<char>, e: Seq<char>)
    ensures
        telemetry_event_text(d).len() == d.len() + 27,
        telemetry_event_text(d).subrange(26, 26 + d.len() as int) == d,
        telemetry_event_text(d).subrange(0, 26) == telemetry_event_text(e).subrange(0, 26),
        telemetry_event_text(d).last() == '}',
        telemetry_event_text(d) == telemetry_event_text(e) ==> d == e,
{
    assert(telemetry_event_text(d).subrange(26, 26 + d.len() as int) =~= d);
    assert(telemetry_event_text(e).subrange(26, 26 + e.len() as int) =~= e);
    assert(telemetry_event_text(d).subrange(0, 26) =~= telemetry_event_text(e).subrange(0, 26));
}

} // verus!
