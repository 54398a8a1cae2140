use zenohui::payload::{hex_string, Payload, TRUNCATION_MARKER};

#[test]
fn short_payload_is_kept_whole() {
    let p = Payload::truncated(b"abc".to_vec(), 10);
    assert_eq!(p.bytes, b"abc".to_vec());
    assert_eq!(p.original_size, 3);
    assert!(!p.is_truncated());
}

#[test]
fn payload_at_limit_is_kept_whole() {
    let p = Payload::truncated(b"abc".to_vec(), 3);
    assert_eq!(p.bytes, b"abc".to_vec());
    assert!(!p.is_truncated());
}

#[test]
fn empty_payload() {
    let p = Payload::truncated(Vec::new(), 0);
    assert!(p.bytes.is_empty());
    assert_eq!(p.original_size, 0);
    assert_eq!(p.render(true), "");
}

#[test]
fn long_payload_keeps_prefix() {
    let p = Payload::truncated(b"hello".to_vec(), 3);
    assert_eq!(p.bytes, b"hel".to_vec());
    assert_eq!(p.original_size, 5);
    assert!(p.is_truncated());
}

#[test]
fn truncated_render_has_marker_and_is_not_parsed() {
    let p = Payload::truncated(b"hello".to_vec(), 3);
    assert_eq!(p.render(true), format!("hel{TRUNCATION_MARKER}"));
    let j = Payload::truncated(b"{\"a\": 1}".to_vec(), 4);
    assert_eq!(j.render(true), format!("{{\"a\"{TRUNCATION_MARKER}"));
}

#[test]
fn pretty_json() {
    let p = Payload::unlimited(b"{\"a\":[1,2]}".to_vec());
    assert_eq!(p.render(true), "{\n  \"a\": [\n    1,\n    2\n  ]\n}");
    assert_eq!(p.render(false), "{\"a\":[1,2]}");
}

#[test]
fn pretty_plain_text() {
    let p = Payload::unlimited(b"hello world".to_vec());
    assert_eq!(p.render(true), "hello world");
}

#[test]
fn pretty_binary_is_hex() {
    let p = Payload::unlimited(vec![0xff, 0x00, 0x1a]);
    assert_eq!(p.render(true), "ff001a");
    assert_eq!(p.render(false), "\u{fffd}\u{0}\u{1a}");
}

#[test]
fn hex_of_bytes() {
    assert_eq!(hex_string(&vec![0x01, 0xab, 0x7f]), "01ab7f");
    assert_eq!(hex_string(&Vec::new()), "");
}
