use emlx::detect;
use emlx::parse_emlx;
use emlx::Flags;
use emlx::ParseError;

fn container(message: &str, plist: &str) -> Vec<u8> {
    format!("{}\u{0a}{}{}", message.len(), message, plist).into_bytes()
}

fn dict_plist(entries: &str) -> String {
    format!(
        "<?xml version=\"1.0\" encoding=\"UTF-8\"?>\n<plist version=\"1.0\"><dict>{}</dict></plist>",
        entries
    )
}

#[test]
fn end_to_end_well_formed() {
    // Bits 0 and 25 of the flags integer: 1 + (1 << 25).
    let plist = dict_plist(
        "<key>color</key><string>000000</string><key>flags</key><integer>33554433</integer>",
    );
    let message = "From: someone\u{0a}\u{0a}Hello";
    let contents = container(message, &plist);
    let mail = parse_emlx(&contents).unwrap();
    assert_eq!(mail.message, message.as_bytes());
    assert!(mail.flags.is_read);
    assert!(mail.flags.is_not_junk);
    assert!(!mail.flags.is_junk);
    assert_eq!(
        mail.dictionary.get("color").and_then(|v| v.as_string()),
        Some("000000")
    );
}

#[test]
fn flags_entry_decodes_counters() {
    let plist = dict_plist("<key>flags</key><integer>25770024065</integer>");
    let contents = container("body", &plist);
    let mail = parse_emlx(&contents).unwrap();
    assert!(mail.flags.is_read);
    assert_eq!(mail.flags.attachment_count, 16);
    assert_eq!(mail.flags.priority, 512);
}

#[test]
fn missing_flags_entry_defaults() {
    let plist = dict_plist("<key>subject</key><string>hi</string>");
    let contents = container("body", &plist);
    let mail = parse_emlx(&contents).unwrap();
    assert_eq!(mail.flags, Flags::default());
}

#[test]
fn negative_flags_entry_defaults() {
    let plist = dict_plist("<key>flags</key><integer>-1</integer>");
    let contents = container("body", &plist);
    let mail = parse_emlx(&contents).unwrap();
    assert_eq!(mail.flags, Flags::default());
}

#[test]
fn non_dictionary_root_rejected() {
    let plist =
        "<?xml version=\"1.0\" encoding=\"UTF-8\"?>\n<plist version=\"1.0\"><array></array></plist>";
    match detect(plist.as_bytes()) {
        Err(ParseError::InvalidPlistData(reason)) => {
            assert_eq!(reason, "Plist root is not a dictionary");
        }
        other => panic!("expected InvalidPlistData, got {:?}", other),
    }
}

#[test]
fn undecodable_plist_rejected() {
    let contents = container("body", "this is no plist at all");
    match parse_emlx(&contents) {
        Err(ParseError::InvalidPlistData(_)) => {}
        other => panic!("expected InvalidPlistData, got {:?}", other),
    }
}

#[test]
fn broken_containers_error() {
    // Truncated header: no line feed anywhere.
    assert!(parse_emlx("2161".as_bytes()).is_err());
    // Non-numeric header.
    let non_numeric = container("body", &dict_plist(""));
    let mut corrupted = non_numeric.clone();
    corrupted[0] = 0x24;
    assert!(parse_emlx(&corrupted).is_err());
    // Truncated body: the declared count swallows the whole buffer.
    assert!(parse_emlx("100\u{0a}short".as_bytes()).is_err());
}
