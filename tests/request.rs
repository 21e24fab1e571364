use esp_idf_svc::request::{header_text, query_text, received};

#[test]
fn query_text_empty_when_length_zero() {
    assert_eq!(query_text(0, b"ignored\0"), "");
    assert_eq!(query_text(0, b""), "");
}

#[test]
fn query_text_takes_reported_length() {
    assert_eq!(query_text(7, b"a=1&b=2\0"), "a=1&b=2");
    assert_eq!(query_text(3, b"a=1&b=2\0"), "a=1");
}

#[test]
fn query_text_replaces_invalid_utf8() {
    assert_eq!(query_text(3, &[b'a', 0xff, b'b', 0]), "a\u{FFFD}b");
}

#[test]
fn header_text_absent_and_present() {
    assert_eq!(header_text(0, b"\0"), None);
    assert_eq!(header_text(9, b"text/html\0"), Some("text/html".to_string()));
    assert_eq!(header_text(2, &[0xc3, 0xa9, 0]), Some("\u{e9}".to_string()));
}

#[test]
fn received_maps_negative_to_error() {
    assert_eq!(received(-1), Err(-1));
    assert_eq!(received(i32::MIN), Err(i32::MIN));
    assert_eq!(received(0), Ok(0));
    assert_eq!(received(512), Ok(512));
}
