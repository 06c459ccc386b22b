use esp_cam_tank::tank::proto::{
    encode_cam_frame, encode_telemetry, find, finish_cam_frame, Direction, Track,
};

#[test]
fn parse_reads_every_direction() {
    assert_eq!(Direction::parse(br#"{"dir":"up"}"#), Some(Direction::Up));
    assert_eq!(Direction::parse(br#"{"dir":"down"}"#), Some(Direction::Down));
    assert_eq!(Direction::parse(br#"{"dir":"left"}"#), Some(Direction::Left));
    assert_eq!(Direction::parse(br#"{"dir":"right"}"#), Some(Direction::Right));
    assert_eq!(Direction::parse(br#"{"dir":"stop"}"#), Some(Direction::Stop));
}

#[test]
fn parse_allows_spaces_and_other_fields() {
    assert_eq!(Direction::parse(br#"{ "dir" : "left" }"#), Some(Direction::Left));
    assert_eq!(Direction::parse(br#"{"id":3,"dir":"right","x":1}"#), Some(Direction::Right));
}

#[test]
fn parse_uses_first_dir_key() {
    assert_eq!(Direction::parse(br#"{"dir":"up","dir":"down"}"#), Some(Direction::Up));
}

#[test]
fn parse_rejects_unknown_or_malformed() {
    assert_eq!(Direction::parse(br#"{"dir":"UP"}"#), None);
    assert_eq!(Direction::parse(br#"{"dir":"upward"}"#), None);
    assert_eq!(Direction::parse(br#"{"dir":""}"#), None);
    assert_eq!(Direction::parse(br#"{"dir":"up}"#), None);
    assert_eq!(Direction::parse(br#"{"dir" "up"}"#), None);
    assert_eq!(Direction::parse(br#"{"cmd":"up"}"#), None);
    assert_eq!(Direction::parse(b""), None);
    assert_eq!(Direction::parse(br#""dir""#), None);
}

#[test]
fn find_gives_first_occurrence() {
    assert_eq!(find(b"abcabc", b"ca"), Some(2));
    assert_eq!(find(b"abcabc", b"abc"), Some(0));
    assert_eq!(find(b"abcabc", b"c"), Some(2));
    assert_eq!(find(b"abcabc", b"cb"), None);
    assert_eq!(find(b"ab", b"abc"), None);
    assert_eq!(find(b"", b"a"), None);
    assert_eq!(find(b"aaa", b"aaa"), Some(0));
}

#[test]
fn tracks_of_each_direction() {
    assert_eq!(Direction::Up.tracks(), (Track::Forward, Track::Forward));
    assert_eq!(Direction::Down.tracks(), (Track::Reverse, Track::Reverse));
    assert_eq!(Direction::Left.tracks(), (Track::Reverse, Track::Forward));
    assert_eq!(Direction::Right.tracks(), (Track::Forward, Track::Reverse));
    assert_eq!(Direction::Stop.tracks(), (Track::Halt, Track::Halt));
}

#[test]
fn tracks_only_stop_halts() {
    for dir in [Direction::Up, Direction::Down, Direction::Left, Direction::Right] {
        let (l, r) = dir.tracks();
        assert_ne!(l, Track::Halt);
        assert_ne!(r, Track::Halt);
    }
}

#[test]
fn telemetry_payload_exact() {
    let mut out = Vec::new();
    encode_telemetry(123456, 0, &mut out);
    assert_eq!(out, br#"{"heap":123456,"uptime_s":0}"#.to_vec());
}

#[test]
fn telemetry_payload_extremes_and_replaces() {
    let mut out = b"old content".to_vec();
    encode_telemetry(u32::MAX, u64::MAX, &mut out);
    assert_eq!(
        String::from_utf8(out).unwrap(),
        format!("{{\"heap\":{},\"uptime_s\":{}}}", u32::MAX, u64::MAX)
    );
    let mut out = Vec::new();
    encode_telemetry(0, 10, &mut out);
    assert_eq!(out, br#"{"heap":0,"uptime_s":10}"#.to_vec());
}

#[test]
fn telemetry_numbers_read_back() {
    for n in [0u64, 7, 9, 10, 99, 100, 1000, 65535, 4294967295] {
        let mut out = Vec::new();
        encode_telemetry(0, n, &mut out);
        let text = String::from_utf8(out).unwrap();
        let digits = text.trim_start_matches(r#"{"heap":0,"uptime_s":"#).trim_end_matches('}');
        assert_eq!(digits.parse::<u64>().unwrap(), n);
        assert!(!digits.starts_with('0') || n == 0);
    }
}

#[test]
fn cam_frame_is_base64_json() {
    let mut out = Vec::new();
    encode_cam_frame(b"hello", &mut out);
    assert_eq!(out, br#"{"cam":"aGVsbG8="}"#.to_vec());
    encode_cam_frame(&[0xff, 0xd8, 0xff], &mut out);
    assert_eq!(out, br#"{"cam":"/9j/"}"#.to_vec());
    encode_cam_frame(b"ab", &mut out);
    assert_eq!(out, br#"{"cam":"YWI="}"#.to_vec());
}

#[test]
fn cam_frame_of_empty_jpeg() {
    let mut out = b"stale".to_vec();
    encode_cam_frame(b"", &mut out);
    assert_eq!(out, br#"{"cam":""}"#.to_vec());
}

#[test]
fn cam_frame_length() {
    for n in 0..20usize {
        let jpeg = vec![0x5au8; n];
        let mut out = Vec::new();
        encode_cam_frame(&jpeg, &mut out);
        assert_eq!(out.len(), 4 * n.div_ceil(3) + 10);
    }
}

#[test]
fn finish_keeps_written_text() {
    let mut out = br#"{"cam":"aGk=xyz"#.to_vec();
    finish_cam_frame(&mut out, 8, Ok(4));
    assert_eq!(out, br#"{"cam":"aGk="}"#.to_vec());
}

#[test]
fn finish_after_failed_encoding() {
    let mut out = br#"{"cam":"????"#.to_vec();
    finish_cam_frame(&mut out, 8, Err(base64::EncodeSliceError::OutputSliceTooSmall));
    assert_eq!(out, br#"{"cam":""}"#.to_vec());
}

#[test]
fn finish_with_count_past_the_end() {
    let mut out = b"ab".to_vec();
    finish_cam_frame(&mut out, 1, Ok(10));
    assert_eq!(out, br#"ab"}"#.to_vec());
}
