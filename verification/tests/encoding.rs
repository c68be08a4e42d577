use noveltui::encoding::decode;

#[test]
fn utf8_bytes_are_read_as_they_are() {
    assert_eq!(decode(b""), Some(String::new()));
    assert_eq!(decode(b"Chapter 1\nhello"), Some("Chapter 1\nhello".to_string()));
    let text = "\u{7B2C}1\u{7AE0}\n\u{4F60}\u{597D} \u{1F516}";
    assert_eq!(decode(text.as_bytes()), Some(text.to_string()));
}

#[test]
fn a_byte_order_mark_of_utf8_stays_in_the_text() {
    assert_eq!(decode(b"\xEF\xBB\xBFabc"), Some("\u{FEFF}abc".to_string()));
}

#[test]
fn bytes_of_another_encoding_are_detected() {
    let gbk: &[u8] = &[
        0xB5, 0xDA, 0x31, 0xD5, 0xC2, 0x0A, 0xC4, 0xE3, 0xBA, 0xC3, 0xA3, 0xAC, 0xCA, 0xC0, 0xBD,
        0xE7, 0xA1, 0xA3, 0xD5, 0xE2, 0xCA, 0xC7, 0xD2, 0xBB, 0xB1, 0xBE, 0xD0, 0xA1, 0xCB, 0xB5,
        0xA1, 0xA3,
    ];
    assert!(std::str::from_utf8(gbk).is_err());
    assert_eq!(
        decode(gbk),
        Some(
            "\u{7B2C}1\u{7AE0}\n\u{4F60}\u{597D}\u{FF0C}\u{4E16}\u{754C}\u{3002}\u{8FD9}\u{662F}\u{4E00}\u{672C}\u{5C0F}\u{8BF4}\u{3002}"
                .to_string()
        )
    );
}

#[test]
fn utf16_with_a_byte_order_mark_is_decoded() {
    let utf16: &[u8] = &[0xFF, 0xFE, b'h', 0, b'i', 0];
    assert_eq!(decode(utf16), Some("hi".to_string()));
}
