use vstd::prelude::*;
use vstd::utf8::{encode_utf8, is_ascii_chars, is_ascii_chars_encode_utf8};

use crate::remote::protocol::{direction_name, move_command_text, Direction as RemoteDirection};
use crate::remote::server::{broadcast, recipients, ClientId, Delivery};
use crate::tank::proto::{
    ascii, command_payload, direction_word, lemma_parse_command_payload, spec_parse,
    Direction as TankDirection,
};

verus! {

/// The tank's direction that carries the same name as the remote's.
pub open spec fn tank_direction(dir: RemoteDirection) -> TankDirection {
    match dir {
        RemoteDirection::Up => TankDirection::Up,
        RemoteDirection::Down => TankDirection::Down,
        RemoteDirection::Left => TankDirection::Left,
        RemoteDirection::Right => TankDirection::Right,
        RemoteDirection::Stop => TankDirection::Stop,
    }
}

/// The bytes a websocket text frame carries: the UTF-8 encoding of its text.
pub open spec fn frame_bytes(text: Seq<char>) -> Seq<u8> {
    encode_utf8(text)
}

proof fn lemma_move_command_bytes(dir: RemoteDirection)
    ensures
        frame_bytes(move_command_text(dir)) == command_payload(tank_direction(dir)),
{
    let t = move_command_text(dir);
    assert(is_ascii_chars(t));
    is_ascii_chars_encode_utf8(t);
    assert(ascii(direction_name(dir)) =~= direction_word(tank_direction(dir)));
    assert(encode_utf8(t) =~= ascii(t));
    assert(ascii(t) =~= command_payload(tank_direction(dir)));
}

/// A drive command that the server writes for `dir` is read by the tank's
/// parser as the same direction.
pub proof fn lemma_move_command_drives_tank(dir: RemoteDirection)
    ensures
        spec_parse(frame_bytes(move_command_text(dir))) == Some(tank_direction(dir)),
{
    lemma_move_command_bytes(dir);
    lemma_parse_command_payload(tank_direction(dir));
}

/// When the server relays a browser's command, every device gets exactly one
/// frame, and each of those frames makes the tank drive in that direction.
pub proof fn lemma_relayed_move_drives_every_tank(
    devices: Set<ClientId>,
    dir: RemoteDirection,
    ds: Seq<Delivery>,
)
    requires
        broadcast(ds, devices, move_command_text(dir)),
    ensures
        recipients(ds).to_set() == devices,
        recipients(ds).no_duplicates(),
        forall|i: int|
            0 <= i < ds.len() ==> spec_parse(frame_bytes((#[trigger] ds[i]).frame.0@)) == Some(
                tank_direction(dir),
            ),
{
    lemma_move_command_drives_tank(dir);
}

} // verus!
