use vstd::prelude::*;
use vstd::slice::slice_subrange;

use base64::Engine;

verus! {

/// `"`
pub const QUOTE: u8 = 0x22;

/// `:`
pub const COLON: u8 = 0x3a;

/// The five commands the tank understands.
#[derive(Copy, Clone, Debug, PartialEq, Eq, Structural)]
pub enum Direction {
    Up,
    Down,
    Left,
    Right,
    Stop,
}

/// What one track (left or right motor) is told to do.
#[derive(Copy, Clone, Debug, PartialEq, Eq, Structural)]
pub enum Track {
    Forward,
    Reverse,
    Halt,
}

/// The pair of track commands `(left, right)` that realises a direction.
pub open spec fn spec_tracks(dir: Direction) -> (Track, Track) {
    match dir {
        Direction::Up => (Track::Forward, Track::Forward),
        Direction::Down => (Track::Reverse, Track::Reverse),
        Direction::Left => (Track::Reverse, Track::Forward),
        Direction::Right => (Track::Forward, Track::Reverse),
        Direction::Stop => (Track::Halt, Track::Halt),
    }
}

impl Direction {
    /// Track commands `(left, right)` for this direction: a tank turns in place
    /// by running its tracks in opposite senses.
    pub fn tracks(self) -> (res: (Track, Track))
        ensures
            res == spec_tracks(self),
    {
        match self {
            Direction::Up => (Track::Forward, Track::Forward),
            Direction::Down => (Track::Reverse, Track::Reverse),
            Direction::Left => (Track::Reverse, Track::Forward),
            Direction::Right => (Track::Forward, Track::Reverse),
            Direction::Stop => (Track::Halt, Track::Halt),
        }
    }
}

} // verus!

verus! {

/// `needle` occurs in `haystack` starting at index `i`.
pub open spec fn occurs_at(haystack: Seq<u8>, needle: Seq<u8>, i: int) -> bool {
    &&& 0 <= i
    &&& i + needle.len() <= haystack.len()
    &&& haystack.subrange(i, i + needle.len()) == needle
}

/// The first index at or after `i` where `needle` occurs in `haystack`.
pub open spec fn first_occurrence_from(haystack: Seq<u8>, needle: Seq<u8>, i: int) -> Option<int>
    decreases haystack.len() - i,
{
    if i < 0 || i + needle.len() > haystack.len() {
        None
    } else if occurs_at(haystack, needle, i) {
        Some(i)
    } else if i < haystack.len() {
        first_occurrence_from(haystack, needle, i + 1)
    } else {
        None
    }
}

/// The first index where `needle` occurs in `haystack`, if any.
pub open spec fn first_occurrence(haystack: Seq<u8>, needle: Seq<u8>) -> Option<int> {
    first_occurrence_from(haystack, needle, 0)
}

/// `first_occurrence_from` is the least index at or after `i` where the needle
/// occurs, and `None` when it occurs nowhere from `i` on.
pub proof fn lemma_first_occurrence_from_is_least(haystack: Seq<u8>, needle: Seq<u8>, i: int)
    requires
        0 <= i,
    ensures
        match first_occurrence_from(haystack, needle, i) {
            Some(j) => i <= j && occurs_at(haystack, needle, j) && forall|t: int|
                i <= t < j ==> !occurs_at(haystack, needle, t),
            None => forall|t: int| i <= t ==> !occurs_at(haystack, needle, t),
        },
    decreases haystack.len() - i,
{
    if i + needle.len() > haystack.len() {
    } else if occurs_at(haystack, needle, i) {
    } else if i < haystack.len() {
        lemma_first_occurrence_from_is_least(haystack, needle, i + 1);
    } else {
        assert forall|t: int| i <= t implies !occurs_at(haystack, needle, t) by {
            if t > i {
                assert(t + needle.len() > haystack.len());
            }
        }
    }
}

fn occurs_at_exec(haystack: &[u8], needle: &[u8], i: usize) -> (res: bool)
    requires
        i + needle@.len() <= haystack@.len(),
    ensures
        res == occurs_at(haystack@, needle@, i as int),
{
    let mut k: usize = 0;
    while k < needle.len()
        invariant
            k <= needle@.len(),
            i + needle@.len() <= haystack.len(),
            forall|j: int| 0 <= j < k ==> haystack@[i + j] == needle@[j],
        decreases needle@.len() - k,
    {
        if haystack[i + k] != needle[k] {
            assert(haystack@.subrange(i as int, i + needle@.len())[k as int] != needle@[k as int]);
            return false;
        }
        k = k + 1;
    }
    assert(haystack@.subrange(i as int, i + needle@.len()) =~= needle@);
    true
}

/// Index of the first occurrence of `needle` in `haystack`.
pub fn find(haystack: &[u8], needle: &[u8]) -> (res: Option<usize>)
    requires
        needle@.len() > 0,
    ensures
        match res {
            Some(i) => first_occurrence(haystack@, needle@) == Some(i as int),
            None => first_occurrence(haystack@, needle@) is None,
        },
        match res {
            Some(i) => occurs_at(haystack@, needle@, i as int) && forall|t: int|
                0 <= t < i ==> !occurs_at(haystack@, needle@, t),
            None => forall|t: int| !occurs_at(haystack@, needle@, t),
        },
{
    proof {
        lemma_first_occurrence_from_is_least(haystack@, needle@, 0);
    }
    if needle.len() > haystack.len() {
        return None;
    }
    let last = haystack.len() - needle.len();
    let mut i: usize = 0;
    while i <= last
        invariant
            last + needle.len() == haystack.len(),
            i <= last + 1,
            needle@.len() > 0,
            first_occurrence(haystack@, needle@) == first_occurrence_from(haystack@, needle@, i as int),
            forall|t: int| 0 <= t < i ==> !occurs_at(haystack@, needle@, t),
        decreases last + 1 - i,
    {
        if occurs_at_exec(haystack, needle, i) {
            return Some(i);
        }
        i = i + 1;
    }
    None
}


/// The bytes of an ASCII text.
pub open spec fn ascii(text: Seq<char>) -> Seq<u8> {
    text.map_values(|c: char| c as u8)
}

/// The key that introduces a command: `"dir"` with its quotes.
pub open spec fn dir_key() -> Seq<u8> {
    ascii(seq!['"', 'd', 'i', 'r', '"'])
}

/// The wire word of each direction.
pub open spec fn direction_word(dir: Direction) -> Seq<u8> {
    match dir {
        Direction::Up => ascii(seq!['u', 'p']),
        Direction::Down => ascii(seq!['d', 'o', 'w', 'n']),
        Direction::Left => ascii(seq!['l', 'e', 'f', 't']),
        Direction::Right => ascii(seq!['r', 'i', 'g', 'h', 't']),
        Direction::Stop => ascii(seq!['s', 't', 'o', 'p']),
    }
}

/// The direction whose wire word is exactly `word`.
pub open spec fn direction_of_word(word: Seq<u8>) -> Option<Direction> {
    if word == direction_word(Direction::Up) {
        Some(Direction::Up)
    } else if word == direction_word(Direction::Down) {
        Some(Direction::Down)
    } else if word == direction_word(Direction::Left) {
        Some(Direction::Left)
    } else if word == direction_word(Direction::Right) {
        Some(Direction::Right)
    } else if word == direction_word(Direction::Stop) {
        Some(Direction::Stop)
    } else {
        None
    }
}

/// The command carried by a payload: after the first `"dir"` comes the first
/// `:`, after it the first `"`, and the word runs from there to the next `"`.
pub open spec fn spec_parse(payload: Seq<u8>) -> Option<Direction> {
    match first_occurrence(payload, dir_key()) {
        None => None,
        Some(k) => {
            let key_at = k + dir_key().len();
            match first_occurrence(payload.subrange(key_at, payload.len() as int), seq![COLON]) {
                None => None,
                Some(c) => {
                    let colon = c + key_at;
                    match first_occurrence(payload.subrange(colon, payload.len() as int), seq![QUOTE]) {
                        None => None,
                        Some(o) => {
                            let value = payload.subrange(o + colon + 1, payload.len() as int);
                            match first_occurrence(value, seq![QUOTE]) {
                                None => None,
                                Some(end) => direction_of_word(value.subrange(0, end)),
                            }
                        }
                    }
                }
            }
        }
    }
}

fn word_is(value: &[u8], end: usize, word: &[u8]) -> (res: bool)
    requires
        end <= value@.len(),
    ensures
        res == (value@.subrange(0, end as int) == word@),
{
    if end != word.len() {
        return false;
    }
    occurs_at_exec(value, word, 0)
}

impl Direction {
    /// Reads a command such as `{"dir":"left"}` out of a websocket text payload.
    pub fn parse(payload: &[u8]) -> (res: Option<Direction>)
        ensures
            res == spec_parse(payload@),
    {
        let key: [u8; 5] = ['"' as u8, 'd' as u8, 'i' as u8, 'r' as u8, '"' as u8];
        let colon_mark: [u8; 1] = [COLON];
        let quote: [u8; 1] = [QUOTE];
        assert(key@ =~= dir_key());
        assert(colon_mark@ == seq![COLON]);
        assert(quote@ == seq![QUOTE]);
        let k = match find(payload, key.as_slice()) {
            Some(k) => k,
            None => return None,
        };
        assert(k + key@.len() <= payload.len());
        let key_at = k + 5;
        let rest = slice_subrange(payload, key_at, payload.len());
        let c = match find(rest, colon_mark.as_slice()) {
            Some(c) => c,
            None => return None,
        };
        let colon = c + key_at;
        let after = slice_subrange(payload, colon, payload.len());
        let o = match find(after, quote.as_slice()) {
            Some(o) => o,
            None => return None,
        };
        let open = o + colon;
        let value = slice_subrange(payload, open + 1, payload.len());
        let end = match find(value, quote.as_slice()) {
            Some(e) => e,
            None => return None,
        };
        let up: [u8; 2] = ['u' as u8, 'p' as u8];
        let down: [u8; 4] = ['d' as u8, 'o' as u8, 'w' as u8, 'n' as u8];
        let left: [u8; 4] = ['l' as u8, 'e' as u8, 'f' as u8, 't' as u8];
        let right: [u8; 5] = ['r' as u8, 'i' as u8, 'g' as u8, 'h' as u8, 't' as u8];
        let stop: [u8; 4] = ['s' as u8, 't' as u8, 'o' as u8, 'p' as u8];
        assert(up@ =~= direction_word(Direction::Up));
        assert(down@ =~= direction_word(Direction::Down));
        assert(left@ =~= direction_word(Direction::Left));
        assert(right@ =~= direction_word(Direction::Right));
        assert(stop@ =~= direction_word(Direction::Stop));
        if word_is(value, end, up.as_slice()) {
            Some(Direction::Up)
        } else if word_is(value, end, down.as_slice()) {
            Some(Direction::Down)
        } else if word_is(value, end, left.as_slice()) {
            Some(Direction::Left)
        } else if word_is(value, end, right.as_slice()) {
            Some(Direction::Right)
        } else if word_is(value, end, stop.as_slice()) {
            Some(Direction::Stop)
        } else {
            None
        }
    }
}

/// `{"dir":"<word>"}`: the command payload that the remote sends for `dir`.
pub open spec fn command_payload(dir: Direction) -> Seq<u8> {
    ascii(seq!['{', '"', 'd', 'i', 'r', '"', ':', '"']) + direction_word(dir) + ascii(
        seq!['"', '}'],
    )
}

/// If `needle` is absent at every index in `[i, j)` and present at `j`, the first
/// occurrence from `i` is `j`.
pub proof fn lemma_first_occurrence_is(haystack: Seq<u8>, needle: Seq<u8>, i: int, j: int)
    requires
        0 <= i <= j,
        occurs_at(haystack, needle, j),
        forall|t: int| i <= t < j ==> !occurs_at(haystack, needle, t),
    ensures
        first_occurrence_from(haystack, needle, i) == Some(j),
    decreases j - i,
{
    if i < j {
        lemma_first_occurrence_is(haystack, needle, i + 1, j);
    }
}

/// Every command payload of the protocol is read back as the direction it names.
pub proof fn lemma_parse_command_payload(dir: Direction)
    ensures
        spec_parse(command_payload(dir)) == Some(dir),
{
    let p = command_payload(dir);
    let w = direction_word(dir);
    let q = seq![QUOTE];
    assert(!occurs_at(p, dir_key(), 0)) by {
        assert(p.subrange(0, 5)[0] != dir_key()[0]);
    }
    assert(occurs_at(p, dir_key(), 1)) by {
        assert(p.subrange(1, 6) =~= dir_key());
    }
    lemma_first_occurrence_is(p, dir_key(), 0, 1);
    let rest = p.subrange(6, p.len() as int);
    assert(occurs_at(rest, seq![COLON], 0)) by {
        assert(rest.subrange(0, 1) =~= seq![COLON]);
    }
    let after = p.subrange(6, p.len() as int);
    assert(!occurs_at(after, q, 0)) by {
        assert(after.subrange(0, 1)[0] != q[0]);
    }
    assert(occurs_at(after, q, 1)) by {
        assert(after.subrange(1, 2) =~= q);
    }
    lemma_first_occurrence_is(after, q, 0, 1);
    let value = p.subrange(8, p.len() as int);
    assert(value =~= w + ascii(seq!['"', '}']));
    assert forall|t: int| 0 <= t < w.len() implies !occurs_at(value, q, t) by {
        assert(value.subrange(t, t + 1)[0] == w[t]);
    }
    assert(occurs_at(value, q, w.len() as int)) by {
        assert(value.subrange(w.len() as int, w.len() + 1 as int) =~= q);
    }
    lemma_first_occurrence_is(value, q, 0, w.len() as int);
    assert(value.subrange(0, w.len() as int) =~= w);
    assert(direction_word(Direction::Down)[0] != direction_word(Direction::Left)[0]);
    assert(direction_word(Direction::Down)[0] != direction_word(Direction::Stop)[0]);
    assert(direction_word(Direction::Left)[0] != direction_word(Direction::Stop)[0]);
}

/// The decimal digits of `n`, most significant first, without leading zeros.
pub open spec fn decimal(n: nat) -> Seq<u8>
    decreases n,
{
    if n < 10 {
        seq![('0' as u8 + n) as u8]
    } else {
        decimal(n / 10).push(('0' as u8 + n % 10) as u8)
    }
}

/// The number that a string of decimal digits spells.
pub open spec fn digits_value(digits: Seq<u8>) -> nat
    decreases digits.len(),
{
    if digits.len() == 0 {
        0
    } else {
        digits_value(digits.drop_last()) * 10 + (digits.last() - '0' as u8) as nat
    }
}

/// `{"heap":<free_heap>,"uptime_s":<uptime_s>}`
pub open spec fn telemetry_payload(free_heap: u32, uptime_s: u64) -> Seq<u8> {
    ascii(seq!['{', '"', 'h', 'e', 'a', 'p', '"', ':']) + decimal(free_heap as nat) + ascii(
        seq![',', '"', 'u', 'p', 't', 'i', 'm', 'e', '_', 's', '"', ':'],
    ) + decimal(uptime_s as nat) + ascii(seq!['}'])
}

/// Decimal digits read back as the number they were written from: every byte is
/// a digit, the first is not a zero unless the number is, and the value is `n`.
pub proof fn lemma_decimal_reads_back(n: nat)
    ensures
        digits_value(decimal(n)) == n,
        decimal(n).len() >= 1,
        forall|i: int| 0 <= i < decimal(n).len() ==> '0' as u8 <= #[trigger] decimal(n)[i] <= '9' as u8,
        n > 0 ==> decimal(n)[0] != '0' as u8,
    decreases n,
{
    if n >= 10 {
        lemma_decimal_reads_back(n / 10);
        assert(decimal(n).drop_last() =~= decimal(n / 10));
        assert(decimal(n).last() == ('0' as u8 + n % 10) as u8);
        assert((decimal(n).last() - '0' as u8) as nat == n % 10);
        assert(n == (n / 10) * 10 + n % 10);
        assert forall|i: int| 0 <= i < decimal(n).len() implies '0' as u8 <= #[trigger] decimal(
            n,
        )[i] <= '9' as u8 by {
            if i < decimal(n / 10).len() {
                assert(decimal(n)[i] == decimal(n / 10)[i]);
            }
        }
        assert(decimal(n)[0] == decimal(n / 10)[0]);
    } else {
        assert(decimal(n).drop_last() =~= Seq::<u8>::empty());
        assert(digits_value(Seq::<u8>::empty()) == 0);
        assert(decimal(n).last() == ('0' as u8 + n) as u8);
    }
}

fn push_decimal(out: &mut Vec<u8>, n: u64)
    ensures
        final(out)@ == old(out)@ + decimal(n as nat),
    decreases n,
{
    if n >= 10 {
        push_decimal(out, n / 10);
    }
    out.push('0' as u8 + (n % 10) as u8);
    assert(final(out)@ =~= old(out)@ + decimal(n as nat));
}

fn push_bytes(out: &mut Vec<u8>, bytes: &[u8])
    ensures
        final(out)@ == old(out)@ + bytes@,
{
    let ghost start = out@;
    for i in 0..bytes.len()
        invariant
            out@ == start + bytes@.take(i as int),
    {
        out.push(bytes[i]);
        assert(bytes@.take(i + 1) =~= bytes@.take(i as int).push(bytes@[i as int]));
    }
    assert(bytes@.take(bytes@.len() as int) =~= bytes@);
}

/// Writes the periodic telemetry object `{"heap":..,"uptime_s":..}` into `out`,
/// replacing what it held.
pub fn encode_telemetry(free_heap: u32, uptime_s: u64, out: &mut Vec<u8>)
    ensures
        final(out)@ == telemetry_payload(free_heap, uptime_s),
{
    out.clear();
    let heap_key: [u8; 8] = ['{' as u8, '"' as u8, 'h' as u8, 'e' as u8, 'a' as u8, 'p' as u8, '"' as u8, ':' as u8];
    let uptime_key: [u8; 12] = [',' as u8, '"' as u8, 'u' as u8, 'p' as u8, 't' as u8, 'i' as u8, 'm' as u8, 'e' as u8, '_' as u8, 's' as u8, '"' as u8, ':' as u8];
    let close: [u8; 1] = ['}' as u8];
    push_bytes(out, heap_key.as_slice());
    push_decimal(out, free_heap as u64);
    push_bytes(out, uptime_key.as_slice());
    push_decimal(out, uptime_s);
    push_bytes(out, close.as_slice());
    assert(heap_key@ =~= ascii(seq!['{', '"', 'h', 'e', 'a', 'p', '"', ':']));
    assert(uptime_key@ =~= ascii(seq![',', '"', 'u', 'p', 't', 'i', 'm', 'e', '_', 's', '"', ':']));
    assert(close@ =~= ascii(seq!['}']));
    assert(final(out)@ =~= telemetry_payload(free_heap, uptime_s));
}

#[verifier::external_type_specification]
#[verifier::external_body]
pub struct ExEncodeSliceError(base64::EncodeSliceError);

/// The standard, padded base64 text (RFC 4648 alphabet) of `input`, as the
/// `base64` crate's `STANDARD` engine writes it.
pub uninterp spec fn base64_standard(input: Seq<u8>) -> Seq<u8>;

/// The length of the padded base64 text of `n` bytes: four characters for each
/// started group of three bytes.
pub open spec fn base64_len(n: nat) -> nat {
    4 * ((n + 2) / 3)
}

/// `base64::Engine::encode_slice` on the `STANDARD` engine, writing into
/// `out[start..]`. As its source shows, it fails, writing nothing, exactly when the
/// space after `start` is shorter than the padded length of the text; otherwise it
/// writes the text at `start`, leaves every other byte alone and returns the
/// text's length. It panics when that length does not fit in `usize`.
#[verifier::external_body]
fn encode_base64_at(input: &[u8], out: &mut Vec<u8>, start: usize) -> (res: Result<
    usize,
    base64::EncodeSliceError,
>)
    requires
        start <= old(out)@.len(),
        base64_len(input@.len()) <= usize::MAX,
    ensures
        final(out)@.len() == old(out)@.len(),
        res is Ok <==> base64_len(input@.len()) <= old(out)@.len() - start,
        match res {
            Ok(n) => {
                &&& n == base64_len(input@.len())
                &&& final(out)@ == old(out)@.take(start as int) + base64_standard(input@) + old(
                    out,
                )@.skip(start + n)
            },
            Err(_) => final(out)@ == old(out)@,
        },
{
    base64::engine::general_purpose::STANDARD.encode_slice(input, &mut out[start..])
}

/// `{"cam":"<base64 of the jpeg>"}`
pub open spec fn cam_frame_payload(jpeg: Seq<u8>) -> Seq<u8> {
    ascii(seq!['{', '"', 'c', 'a', 'm', '"', ':', '"']) + base64_standard(jpeg) + cam_frame_tail()
}

/// Whether a frame of a `jpeg_len`-byte picture has a length that fits in `usize`.
pub fn cam_frame_fits(jpeg_len: usize) -> (res: bool)
    ensures
        res == (base64_len(jpeg_len as nat) + 10 <= usize::MAX),
{
    let groups = jpeg_len / 3 + if jpeg_len % 3 == 0 {
        0
    } else {
        1
    };
    assert(groups == (jpeg_len + 2) / 3);
    groups <= (usize::MAX - 10) / 4
}

/// Writes one camera frame as `{"cam":"<base64 jpeg>"}` into `out`, replacing
/// what it held.
pub fn encode_cam_frame(jpeg: &[u8], out: &mut Vec<u8>)
    requires
        base64_len(jpeg@.len()) + 10 <= usize::MAX,
    ensures
        final(out)@ == cam_frame_payload(jpeg@),
        final(out)@.len() == base64_len(jpeg@.len()) + 10,
{
    let head: [u8; 8] = ['{' as u8, '"' as u8, 'c' as u8, 'a' as u8, 'm' as u8, '"' as u8, ':' as u8, '"' as u8];
    out.clear();
    push_bytes(out, head.as_slice());
    let groups = jpeg.len() / 3 + if jpeg.len() % 3 == 0 {
        0
    } else {
        1
    };
    assert(groups == (jpeg@.len() + 2) / 3);
    let encoded = groups * 4;
    let tail = out.len() + encoded;
    out.resize(tail, 0);
    let start = tail - encoded;
    let written = encode_base64_at(jpeg, out, start);
    finish_cam_frame(out, start, written);
    assert(head@ =~= ascii(seq!['{', '"', 'c', 'a', 'm', '"', ':', '"']));
    assert(final(out)@ =~= cam_frame_payload(jpeg@));
}

/// `"}`: the bytes that close a camera frame.
pub open spec fn cam_frame_tail() -> Seq<u8> {
    ascii(seq!['"', '}'])
}

/// Ends a camera frame whose base64 text was written at `start`: keeps the
/// bytes before `start` and the `n` written ones (none when encoding failed),
/// drops the rest and appends `"}`.
pub fn finish_cam_frame(
    out: &mut Vec<u8>,
    start: usize,
    written: Result<usize, base64::EncodeSliceError>,
)
    requires
        written matches Ok(n) ==> start + n <= usize::MAX,
    ensures
        ({
            let n: int = match written {
                Ok(n) => n as int,
                Err(_) => 0,
            };
            let keep: int = if start + n <= old(out)@.len() {
                start + n
            } else {
                old(out)@.len() as int
            };
            final(out)@ == old(out)@.take(keep) + cam_frame_tail()
        }),
{
    let tail_bytes: [u8; 2] = ['"' as u8, '}' as u8];
    let n = match written {
        Ok(n) => n,
        Err(_) => 0,
    };
    let ghost before = out@;
    out.truncate(start + n);
    assert(out@ =~= before.take(if start + n <= before.len() {
        start + n
    } else {
        before.len() as int
    }));
    push_bytes(out, tail_bytes.as_slice());
    assert(tail_bytes@ =~= cam_frame_tail());
}

} // verus!
