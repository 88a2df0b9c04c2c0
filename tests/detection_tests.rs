use encscan::detection::{detect_bom, detect_encoding, refine_heuristic};

fn label(b: &[u8]) -> (String, Option<String>) {
    let e = detect_encoding(b);
    (e.encoding, e.bom)
}

#[test]
fn empty_file_has_no_marker() {
    assert_eq!(label(b""), ("empty file".to_string(), None));
}

#[test]
fn two_byte_ff_fe_is_utf16le() {
    assert_eq!(label(&[0xFF, 0xFE]), ("UTF-16LE".to_string(), Some("UTF-16LE".to_string())));
}

#[test]
fn four_byte_ff_fe_zero_zero_is_utf32le() {
    assert_eq!(label(&[0xFF, 0xFE, 0, 0, 0x41]), ("UTF-32LE".to_string(), Some("UTF-32LE".to_string())));
}

#[test]
fn utf32be_and_utf16be_markers() {
    assert_eq!(label(&[0, 0, 0xFE, 0xFF]).0, "UTF-32BE");
    assert_eq!(label(&[0xFE, 0xFF, 0x00, 0x41]).0, "UTF-16BE");
}

#[test]
fn utf8_marker_wins_over_content() {
    assert_eq!(label(&[0xEF, 0xBB, 0xBF, 0xFF, 0x00, 0x80]), ("UTF-8".to_string(), Some("UTF-8".to_string())));
    assert_eq!(label(&[0xEF, 0xBB, 0xBF]), ("UTF-8".to_string(), Some("UTF-8".to_string())));
}

#[test]
fn ascii_text_is_ascii() {
    assert_eq!(label(b"hello world\n"), ("ASCII".to_string(), None));
    assert_eq!(label(b"x"), ("ASCII".to_string(), None));
}

#[test]
fn non_ascii_utf8_is_utf8() {
    assert_eq!(label("h\u{e9}llo \u{65e5}\u{672c}".as_bytes()), ("UTF-8".to_string(), None));
}

#[test]
fn short_input_has_no_marker() {
    assert!(detect_bom(&[0xEF]).is_none());
    assert!(detect_bom(b"ab").is_none());
    let b = detect_bom(&[0xEF, 0xBB, 0xBF, 0x41]).unwrap();
    assert_eq!(b.bom_type, "UTF-8");
    assert_eq!(b.skip_bytes, 3);
    assert_eq!(detect_bom(&[0xFF, 0xFE, 0, 0]).unwrap().skip_bytes, 4);
}

#[test]
fn heuristic_western_aliases_are_told_apart() {
    let win = refine_heuristic(&[0x41, 0x80, 0xE9], &"ISO-8859-1".to_string());
    assert_eq!(win.encoding, "windows-1252");
    assert_eq!(win.bom, None);
    let iso = refine_heuristic(&[0x41, 0xE9], &"windows-1252".to_string());
    assert_eq!(iso.encoding, "ISO-8859-1");
    let other = refine_heuristic(&[0x41, 0xE9], &"Shift_JIS".to_string());
    assert_eq!(other.encoding, "Shift_JIS");
}

#[test]
fn invalid_utf8_goes_to_the_classifier() {
    let e = detect_encoding(&[0x63, 0x61, 0x66, 0xE9, 0x20, 0x74, 0x68, 0xE9]);
    assert_eq!(e.bom, None);
    assert_ne!(e.encoding, "UTF-8");
    assert_ne!(e.encoding, "ASCII");
}

#[test]
fn no_break_space_only_input_is_western_single_byte() {
    assert_eq!(label(&[0x1B, 0xA0]), ("ISO-8859-1".to_string(), None));
    assert_eq!(label(&[0x41, 0xA0, 0x42]), ("ISO-8859-1".to_string(), None));
}
