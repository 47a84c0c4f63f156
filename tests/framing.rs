use ble_link::frame::{decode_frame, encode_frame, ends_with_end_marker, payload_to_text, split_frame, FrameAssembler};
use ble_link::request_id::{fresh_request_id, id_to_text, parse_id};

#[test]
fn id_text_is_eight_lowercase_hex_digits() {
    assert_eq!(id_to_text(0xa1b2c3d4), b"a1b2c3d4".to_vec());
    assert_eq!(id_to_text(0), b"00000000".to_vec());
    assert_eq!(id_to_text(0xffffffff), b"ffffffff".to_vec());
    assert_eq!(id_to_text(0x11111111), b"11111111".to_vec());
}

#[test]
fn parse_id_reads_back_rendered_ids() {
    assert_eq!(parse_id(b"a1b2c3d4"), Some(0xa1b2c3d4));
    assert_eq!(parse_id(b"22222222"), Some(0x22222222));
    for id in [0u32, 1, 0xdeadbeef, 0x0f0f0f0f, u32::MAX] {
        assert_eq!(parse_id(&id_to_text(id)), Some(id));
    }
}

#[test]
fn parse_id_rejects_other_text() {
    assert_eq!(parse_id(b"A1B2C3D4"), None);
    assert_eq!(parse_id(b"a1b2c3d"), None);
    assert_eq!(parse_id(b"a1b2c3d4e"), None);
    assert_eq!(parse_id(b"a1b2c3g4"), None);
    assert_eq!(parse_id(b""), None);
    assert_eq!(parse_id(b"<Parse Error>"), None);
}

#[test]
fn fresh_ids_are_random() {
    let a = fresh_request_id();
    let b = fresh_request_id();
    let c = fresh_request_id();
    assert!(a != b || b != c);
    assert_eq!(parse_id(&id_to_text(a)), Some(a));
}

#[test]
fn encode_frame_writes_id_separator_payload() {
    assert_eq!(encode_frame(0xa1b2c3d4, b"Hello"), b"a1b2c3d4:Hello".to_vec());
    assert_eq!(encode_frame(0x00000001, b""), b"00000001:".to_vec());
    assert_eq!(encode_frame(0x11111111, b"a:b"), b"11111111:a:b".to_vec());
}

#[test]
fn end_marker_detection() {
    assert!(ends_with_end_marker(b"abc#;EOF;#"));
    assert!(ends_with_end_marker(b"#;EOF;#"));
    assert!(!ends_with_end_marker(b";EOF;#"));
    assert!(!ends_with_end_marker(b"#;EOF;#x"));
    assert!(!ends_with_end_marker(b""));
}

#[test]
fn split_frame_splits_on_first_separator_only() {
    let (id, payload) = split_frame(b"a1b2c3d4:x:y:z").unwrap();
    assert_eq!(id, b"a1b2c3d4".to_vec());
    assert_eq!(payload, b"x:y:z".to_vec());
    let (id, payload) = split_frame(b":").unwrap();
    assert_eq!(id, Vec::<u8>::new());
    assert_eq!(payload, Vec::<u8>::new());
    assert!(split_frame(b"no separator").is_none());
}

#[test]
fn payload_text_decodes_utf8_or_reports_parse_error() {
    assert_eq!(payload_to_text("héllo ✓".as_bytes().to_vec()), "héllo ✓");
    assert_eq!(payload_to_text(vec![0xff, 0xfe]), "<Parse Error>");
    assert_eq!(payload_to_text(vec![0xe2, 0x9c]), "<Parse Error>");
    assert_eq!(payload_to_text(Vec::new()), "");
}

#[test]
fn decode_frame_reads_id_and_payload() {
    let f = decode_frame(b"a1b2c3d4:Hello").unwrap();
    assert_eq!(f.id, 0xa1b2c3d4);
    assert_eq!(f.payload, "Hello");
    let f = decode_frame(b"00000002:a:b").unwrap();
    assert_eq!(f.id, 2);
    assert_eq!(f.payload, "a:b");
    let f = decode_frame(&[b'0', b'0', b'0', b'0', b'0', b'0', b'0', b'3', b':', 0xff]).unwrap();
    assert_eq!(f.id, 3);
    assert_eq!(f.payload, "<Parse Error>");
    assert!(decode_frame(b"Hello").is_none());
    assert!(decode_frame(b"ABCDEFGH:Hello").is_none());
    assert!(decode_frame(b"abc:Hello").is_none());
}

#[test]
fn assembler_joins_chunks_until_marker() {
    let mut a = FrameAssembler::new();
    assert!(a.is_idle());
    assert_eq!(a.push_chunk(b"a1b2c3d4:He"), None);
    assert!(!a.is_idle());
    assert_eq!(a.push_chunk(b"llo#;EOF;#"), Some(b"a1b2c3d4:Hello".to_vec()));
    assert!(a.is_idle());
    assert_eq!(a.push_chunk(b"#;EOF;#"), Some(Vec::new()));
    assert_eq!(a.push_chunk(b""), None);
    assert!(a.is_idle());
}

#[test]
fn round_trip_at_every_split() {
    let payload = "Hello: wörld".as_bytes();
    let mut stream = encode_frame(0xcafe0042, payload);
    stream.extend_from_slice(b"#;EOF;#");
    for cut in 0..=stream.len() {
        for cut2 in cut..=stream.len() {
            let mut a = FrameAssembler::new();
            let mut bodies = Vec::new();
            for chunk in [&stream[..cut], &stream[cut..cut2], &stream[cut2..]] {
                if let Some(b) = a.push_chunk(chunk) {
                    bodies.push(b);
                }
            }
            assert_eq!(bodies.len(), 1);
            assert!(a.is_idle());
            let f = decode_frame(&bodies[0]).unwrap();
            assert_eq!(f.id, 0xcafe0042);
            assert_eq!(f.payload, "Hello: wörld");
        }
    }
}

#[test]
fn marker_inside_payload_closes_frame_early() {
    let mut stream = encode_frame(1, b"x#;EOF;#y");
    stream.extend_from_slice(b"#;EOF;#");
    let mut a = FrameAssembler::new();
    let first = a.push_chunk(&stream[..17]).unwrap();
    assert_eq!(first, b"00000001:x".to_vec());
}
