use bytes::Bytes;
use mirror_upload::multipart::{quote, Form};

const BOUNDARY: &str = "-sdsaddsfgdghhskjtretyetertertedh?-";

#[test]
fn quote_is_identity_on_plain_names() {
    assert_eq!(quote("data"), "data");
    assert_eq!(quote("file name.txt"), "file name.txt");
    assert_eq!(quote(""), "");
}

#[test]
fn quote_escapes_quote_and_backslash() {
    assert_eq!(quote("a\"b\\c"), "a\\\"b\\\\c");
}

#[test]
fn quote_escapes_carriage_return() {
    assert_eq!(quote("a\rb"), "a\\\rb");
}

#[test]
fn quote_leaves_line_feed_alone() {
    assert_eq!(quote("a\nb"), "a\nb");
}

#[test]
fn content_type_declares_the_boundary() {
    let form = Form::new();
    assert_eq!(
        form.content_type(),
        format!("multipart/form-data; boundary=\"{}\"", BOUNDARY)
    );
}

#[test]
fn empty_form_serializes_to_final_boundary_only() {
    let form = Form::new();
    assert_eq!(form.bytes(), Bytes::from(format!("--{}--", BOUNDARY)));
}

#[test]
fn two_field_form_serializes_exactly() {
    let mut form = Form::new();
    form.text("data", "{...}");
    form.file("file", "a.txt", Bytes::from_static(b"hello"));
    let expected = format!(
        "--{b}\r\nContent-Disposition: form-data; name=\"data\"\r\n\r\n{{...}}\r\n\
         --{b}\r\nContent-Disposition: form-data; name=\"file\"; filename=\"a.txt\"\r\n\r\nhello\r\n\
         --{b}--",
        b = BOUNDARY
    );
    assert_eq!(form.bytes(), Bytes::from(expected));
}

#[test]
fn field_order_is_preserved() {
    let mut ab = Form::new();
    ab.text("a", "1");
    ab.text("b", "2");
    let mut ba = Form::new();
    ba.text("b", "2");
    ba.text("a", "1");
    assert_ne!(ab.bytes(), ba.bytes());
    let body = ab.bytes();
    let body = std::str::from_utf8(body.as_ref()).unwrap();
    let a_at = body.find("name=\"a\"").unwrap();
    let b_at = body.find("name=\"b\"").unwrap();
    assert!(a_at < b_at);
}

#[test]
fn names_are_quoted_in_the_output() {
    let mut form = Form::new();
    form.text("we\"ird", "v");
    let body = form.bytes();
    let body = std::str::from_utf8(body.as_ref()).unwrap();
    assert!(body.contains("name=\"we\\\"ird\""));
}

#[test]
fn file_payload_bytes_pass_through_unmodified() {
    let raw: &[u8] = &[0u8, 159, 146, 150, 13, 10, 34, 92];
    let mut form = Form::new();
    form.file("bin", "x.bin", Bytes::copy_from_slice(raw));
    let body = form.bytes();
    assert!(body.as_ref().windows(raw.len()).any(|w| w == raw));
}

#[test]
fn text_payload_is_utf8_encoded() {
    let mut form = Form::new();
    form.text("t", "é");
    let body = form.bytes();
    let needle: &[u8] = &[0xC3, 0xA9, 0x0D, 0x0A];
    assert!(body
        .as_ref()
        .windows(needle.len())
        .any(|w| w == needle));
}

#[test]
fn serialization_is_deterministic() {
    let mut form = Form::new();
    form.text("data", "{...}");
    form.file("file", "a.txt", Bytes::from_static(b"hello"));
    assert_eq!(form.bytes(), form.bytes());
}
