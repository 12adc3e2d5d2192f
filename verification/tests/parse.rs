use emlx::length;
use emlx::split;
use emlx::ParseError;

#[test]
fn test_valid_header1() {
    let number: usize = 1234;
    let remainder = "more!";
    let contents = format!("{}   \u{0a}{}", number, remainder);
    let (a, b) = length(contents.as_bytes()).unwrap();
    assert_eq!(number, a);
    assert_eq!(remainder, std::str::from_utf8(&b).unwrap());
}

#[test]
fn test_valid_header2() {
    let contents = "12\u{0a}";
    let (_, b) = length(contents.as_bytes()).unwrap();
    assert_eq!(&[] as &[u8], b);
}

#[test]
fn test_invalid_header1() {
    let contents = "12";
    assert!(match length(contents.as_bytes()) {
        Err(ParseError::MissingTerminator) => true,
        _ => false,
    });
}

#[test]
fn test_invalid_header2() {
    let contents = "12$48   \u{0a}";
    assert!(match length(contents.as_bytes()) {
        Err(ParseError::InvalidByteCount(_)) => true,
        _ => false,
    });
}

#[test]
fn test_message1() {
    let contents = "8   \u{0a}12345678Example";
    let (c, b) = length(contents.as_bytes()).unwrap();
    let m1 = std::str::from_utf8(&b[0..c]).unwrap();
    let m2 = std::str::from_utf8(&b[c..]).unwrap();
    assert_eq!(m1, "12345678");
    assert_eq!(m2, "Example");
}

#[test]
fn header_without_padding() {
    let (count, rest) = length("12\u{0a}".as_bytes()).unwrap();
    assert_eq!(count, 12);
    assert!(rest.is_empty());
}

#[test]
fn invalid_byte_count_keeps_header_text() {
    match length("12$48   \u{0a}".as_bytes()) {
        Err(ParseError::InvalidByteCount(text)) => assert_eq!(text, "12$48"),
        other => panic!("expected InvalidByteCount, got {:?}", other),
    }
}

#[test]
fn plus_prefixed_header_parses() {
    let (count, rest) = length("+8\u{0a}x".as_bytes()).unwrap();
    assert_eq!(count, 8);
    assert_eq!(rest, "x".as_bytes());
}

#[test]
fn zero_byte_count_rejected() {
    match length("0\u{0a}rest".as_bytes()) {
        Err(ParseError::EmptyByteCount) => {}
        other => panic!("expected EmptyByteCount, got {:?}", other),
    }
    match length("000   \u{0a}rest".as_bytes()) {
        Err(ParseError::EmptyByteCount) => {}
        other => panic!("expected EmptyByteCount, got {:?}", other),
    }
}

#[test]
fn oversized_byte_count_rejected() {
    let contents = "99999999999999999999999\u{0a}rest";
    match length(contents.as_bytes()) {
        Err(ParseError::InvalidByteCount(text)) => {
            assert_eq!(text, "99999999999999999999999");
        }
        other => panic!("expected InvalidByteCount, got {:?}", other),
    }
}

#[test]
fn invalid_unicode_header() {
    let contents: Vec<u8> = vec![0xff, 0x20, 0x0a, 0x78];
    match length(&contents) {
        Err(ParseError::InvalidUnicode(lo, hi)) => {
            assert_eq!(lo, 0);
            assert_eq!(hi, 1);
        }
        other => panic!("expected InvalidUnicode, got {:?}", other),
    }
}

#[test]
fn multibyte_header_is_text_but_not_numeric() {
    match length("\u{e9}12 \u{0a}x".as_bytes()) {
        Err(ParseError::InvalidByteCount(text)) => assert_eq!(text, "\u{e9}12"),
        other => panic!("expected InvalidByteCount, got {:?}", other),
    }
}

#[test]
fn malformed_utf8_headers_rejected() {
    // An overlong two-byte encoding of '/'.
    let overlong: Vec<u8> = vec![0xc0, 0xaf, 0x20, 0x0a, 0x78];
    match length(&overlong) {
        Err(ParseError::InvalidUnicode(0, 2)) => {}
        other => panic!("expected InvalidUnicode, got {:?}", other),
    }
    // A three-byte encoding of a surrogate.
    let surrogate: Vec<u8> = vec![0xed, 0xa0, 0x80, 0x20, 0x0a, 0x78];
    match length(&surrogate) {
        Err(ParseError::InvalidUnicode(0, 3)) => {}
        other => panic!("expected InvalidUnicode, got {:?}", other),
    }
    // A leading byte whose continuation is cut off by the whitespace.
    let truncated: Vec<u8> = vec![0xc3, 0x20, 0x0a, 0x78];
    match length(&truncated) {
        Err(ParseError::InvalidUnicode(0, 1)) => {}
        other => panic!("expected InvalidUnicode, got {:?}", other),
    }
}

#[test]
fn terminator_at_start_is_missing() {
    match length("\u{0a}rest".as_bytes()) {
        Err(ParseError::MissingTerminator) => {}
        other => panic!("expected MissingTerminator, got {:?}", other),
    }
}

#[test]
fn split_needs_room_for_metadata() {
    match split("3\u{0a}abc".as_bytes()) {
        Err(ParseError::UnexpectedEnding(remaining)) => assert_eq!(remaining, 3),
        other => panic!("expected UnexpectedEnding, got {:?}", other),
    }
    match split("5\u{0a}abc".as_bytes()) {
        Err(ParseError::UnexpectedEnding(remaining)) => assert_eq!(remaining, 3),
        other => panic!("expected UnexpectedEnding, got {:?}", other),
    }
}

#[test]
fn split_partitions_exactly() {
    let (message, metadata) = split("4 \u{0a}abcd<dict/>".as_bytes()).unwrap();
    assert_eq!(message, "abcd".as_bytes());
    assert_eq!(metadata, "<dict/>".as_bytes());
}
