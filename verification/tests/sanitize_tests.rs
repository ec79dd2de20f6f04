use smart_garden_gateway_boot_analyzer::sanitize::sanitize;

#[test]
fn control_bytes_removed_whitespace_kept() {
    let raw: &[u8] = b"\x00\x01\x02\x03\x04\x05\x06\x07\x08a b\tc\nd";
    assert_eq!(sanitize(raw), b"a b\tc\nd".to_vec());
}

#[test]
fn carriage_return_and_form_feed_kept_vertical_tab_dropped() {
    assert_eq!(sanitize(b"a\r\x0cb\x0bc"), b"a\r\x0cbc".to_vec());
}

#[test]
fn non_ascii_bytes_removed() {
    // A multi-byte encoded character disappears entirely.
    assert_eq!(sanitize(b"caf\xc3\xa9 au lait"), b"caf au lait".to_vec());
    assert_eq!(sanitize(b"\xff\xfe\x80"), Vec::<u8>::new());
}

#[test]
fn escape_characters_dropped() {
    assert_eq!(sanitize(b"\x1b[31mred\x1b[0m"), b"[31mred[0m".to_vec());
}

#[test]
fn sanitize_is_idempotent_on_arbitrary_input() {
    let mut blob: Vec<u8> = Vec::new();
    for round in 0..4u16 {
        for b in 0..=255u8 {
            blob.push(b.wrapping_add(round as u8 * 37));
        }
    }
    let once = sanitize(&blob);
    let twice = sanitize(&once);
    assert_eq!(twice, once);
}

#[test]
fn empty_input_sanitizes_to_empty() {
    assert_eq!(sanitize(b""), Vec::<u8>::new());
}
