use encscan::conversion::{convert_to_unix_endings, encode_utf16, convert_to_windows_endings, Codec, ConversionError, EncodingConverter, LineEnding};
use encscan::detection::FileEncoding;
use encscan::output::OutputFormat;

fn chars(s: &str) -> Vec<char> {
    s.chars().collect()
}

fn text(v: &[char]) -> String {
    v.iter().collect()
}

fn enc(name: &str) -> FileEncoding {
    FileEncoding { encoding: name.to_string(), bom: None }
}

#[test]
fn mixed_endings_to_unix_and_windows() {
    let input = chars("a\r\nb\rc\n");
    assert_eq!(text(&convert_to_unix_endings(&input)), "a\nb\nc\n");
    assert_eq!(text(&convert_to_windows_endings(&input)), "a\r\nb\r\nc\r\n");
}

#[test]
fn normalization_is_idempotent() {
    let input = chars("x\r\r\n\ny\rz");
    let once = convert_to_unix_endings(&input);
    assert_eq!(convert_to_unix_endings(&once), once);
    let w = convert_to_windows_endings(&input);
    assert_eq!(convert_to_windows_endings(&w), w);
    assert_eq!(text(&w), "x\r\n\r\n\r\ny\r\nz");
}

#[test]
fn utf8_keep_round_trip_is_identical() {
    let input = "line one\r\nl\u{ed}nea dos\r\u{65e5}\n".as_bytes();
    let out = EncodingConverter::convert(input, &enc("UTF-8"), "UTF-8", LineEnding::Keep).unwrap();
    assert_eq!(out, input.to_vec());
}

#[test]
fn marker_target_gets_marker() {
    let out = EncodingConverter::convert(b"hi\n", &enc("ASCII"), "UTF-8-BOM", LineEnding::Keep).unwrap();
    assert_eq!(out, vec![0xEF, 0xBB, 0xBF, b'h', b'i', b'\n']);
}

#[test]
fn utf16_targets_get_marker_and_code_units() {
    let out = EncodingConverter::convert(b"hi", &enc("UTF-8"), "UTF-16LE", LineEnding::Keep).unwrap();
    assert_eq!(out, vec![0xFF, 0xFE, b'h', 0, b'i', 0]);
    let out = EncodingConverter::convert(b"a", &enc("UTF-8"), "utf-16le", LineEnding::Keep).unwrap();
    assert_eq!(out, vec![0xFF, 0xFE, 0x61, 0x00]);
    let out = EncodingConverter::convert(b"hi", &enc("ASCII"), "UTF-16BE", LineEnding::Keep).unwrap();
    assert_eq!(out, vec![0xFE, 0xFF, 0, b'h', 0, b'i']);
    let out = EncodingConverter::convert(b"x", &enc("UTF-8"), "utf-8-bom", LineEnding::Keep).unwrap();
    assert_eq!(out, vec![0xEF, 0xBB, 0xBF, b'x']);
}

#[test]
fn utf16_code_units_and_surrogates() {
    let t: Vec<char> = "A\u{e9}\u{1F600}".chars().collect();
    assert_eq!(encode_utf16(&t, true), vec![0x41, 0x00, 0xE9, 0x00, 0x3D, 0xD8, 0x00, 0xDE]);
    assert_eq!(encode_utf16(&t, false), vec![0x00, 0x41, 0x00, 0xE9, 0xD8, 0x3D, 0xDE, 0x00]);
    let back = EncodingConverter::convert(&[0xFF, 0xFE, 0x3D, 0xD8, 0x00, 0xDE], &enc("UTF-16LE"), "UTF-8", LineEnding::Keep).unwrap();
    assert_eq!(back, "\u{1F600}".as_bytes().to_vec());
}

#[test]
fn utf8_source_is_decoded_strictly() {
    let r = EncodingConverter::convert(&[0xFF, 0xFE, 0x61, 0x00], &enc("UTF-8"), "UTF-8", LineEnding::Keep);
    assert!(matches!(r, Err(ConversionError::EncodingError(_))));
    let r = EncodingConverter::convert(&[0x61, 0x80], &enc("UTF-8"), "UTF-16LE", LineEnding::Keep);
    assert!(matches!(r, Err(ConversionError::EncodingError(_))));
    let out = EncodingConverter::convert(&[0xEF, 0xBB, 0xBF, b'h', b'i'], &enc("UTF-8"), "UTF-8", LineEnding::Keep).unwrap();
    assert_eq!(out, b"hi".to_vec());
}

#[test]
fn unix_policy_applies_during_conversion() {
    let out = EncodingConverter::convert(b"a\r\nb\rc\n", &enc("UTF-8"), "UTF-8", LineEnding::Unix).unwrap();
    assert_eq!(out, b"a\nb\nc\n".to_vec());
    let out = EncodingConverter::convert(b"a\nb", &enc("UTF-8"), "UTF-8", LineEnding::Windows).unwrap();
    assert_eq!(out, b"a\r\nb".to_vec());
}

#[test]
fn western_single_byte_both_ways() {
    let out = EncodingConverter::convert("caf\u{e9}".as_bytes(), &enc("UTF-8"), "windows-1252", LineEnding::Keep).unwrap();
    assert_eq!(out, vec![b'c', b'a', b'f', 0xE9]);
    let back = EncodingConverter::convert(&[b'c', b'a', b'f', 0xE9], &enc("ISO-8859-1"), "UTF-8", LineEnding::Keep).unwrap();
    assert_eq!(back, "caf\u{e9}".as_bytes().to_vec());
}

#[test]
fn unrepresentable_character_is_an_encoding_error() {
    let input = "\u{65e5}\u{672c}".as_bytes();
    let r = EncodingConverter::convert(input, &enc("UTF-8"), "WINDOWS-1252", LineEnding::Keep);
    assert!(matches!(r, Err(ConversionError::EncodingError(_))));
    assert_eq!(input, "\u{65e5}\u{672c}".as_bytes());
}

#[test]
fn malformed_source_is_an_encoding_error() {
    let r = EncodingConverter::convert(&[0x41, 0xFF, 0x42], &enc("UTF-8"), "UTF-8", LineEnding::Keep);
    assert!(matches!(r, Err(ConversionError::EncodingError(_))));
}

#[test]
fn unknown_names_are_unsupported() {
    match EncodingConverter::convert(b"a", &enc("KOI8-R"), "UTF-8", LineEnding::Keep) {
        Err(ConversionError::UnsupportedEncoding(n)) => assert_eq!(n, "KOI8-R"),
        _ => panic!("expected an unsupported source"),
    }
    match EncodingConverter::convert(b"a", &enc("UTF-8"), "EBCDIC", LineEnding::Keep) {
        Err(ConversionError::UnsupportedEncoding(n)) => assert_eq!(n, "EBCDIC"),
        _ => panic!("expected an unsupported target"),
    }
}

#[test]
fn names_resolve_without_case() {
    assert!(matches!(EncodingConverter::get_encoding("iso-8859-1"), Ok(Codec::Windows1252)));
    assert!(matches!(EncodingConverter::get_encoding("ascii"), Ok(Codec::Utf8)));
    assert!(matches!(EncodingConverter::get_encoding("utf-16be"), Ok(Codec::Utf16Be)));
    assert_eq!(EncodingConverter::get_bom("utf-16be"), vec![0xFE, 0xFF]);
    assert_eq!(EncodingConverter::get_bom("UTF-8"), Vec::<u8>::new());
}

#[test]
fn policy_and_format_names() {
    assert_eq!(LineEnding::from_str("LF"), Some(LineEnding::Unix));
    assert_eq!(LineEnding::from_str("Windows"), Some(LineEnding::Windows));
    assert_eq!(LineEnding::from_str("crlf"), Some(LineEnding::Windows));
    assert_eq!(LineEnding::from_str("KEEP"), Some(LineEnding::Keep));
    assert_eq!(LineEnding::from_str("mac"), None);
    assert_eq!(OutputFormat::from_str("JSON"), Some(OutputFormat::Json));
    assert_eq!(OutputFormat::from_str("csv"), Some(OutputFormat::Csv));
    assert_eq!(OutputFormat::from_str("Text"), Some(OutputFormat::Text));
    assert_eq!(OutputFormat::from_str("xml"), None);
}
