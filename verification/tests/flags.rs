use emlx::Flags;

#[test]
fn test_parse1() {
    let value: u64 = 8623489089;
    let flags = Flags::decoding(value);
    assert_eq!(flags.is_read, true);
    assert_eq!(flags.is_draft, true);
    assert_eq!(flags.attachment_count, 0);
}

#[test]
fn test_parse2() {
    let value: u64 = 25770024065;
    let flags = Flags::decoding(value);
    assert_eq!(flags.is_read, true);
    assert_eq!(flags.attachment_count, 16);
    assert_eq!(flags.priority, 512);
}

#[test]
fn decoding_is_idempotent() {
    let value: u64 = 8623489089;
    let first = Flags::decoding(value);
    let second = Flags::decoding(value);
    assert_eq!(first, second);
}

#[test]
fn decoding_single_bits() {
    assert!(Flags::decoding(1).is_read);
    assert!(Flags::decoding(1 << 1).is_deleted);
    assert!(Flags::decoding(1 << 2).is_answered);
    assert!(Flags::decoding(1 << 3).is_encrypted);
    assert!(Flags::decoding(1 << 4).is_flagged);
    assert!(Flags::decoding(1 << 5).is_recent);
    assert!(Flags::decoding(1 << 6).is_draft);
    assert!(Flags::decoding(1 << 7).is_initial);
    assert!(Flags::decoding(1 << 8).is_forwarded);
    assert!(Flags::decoding(1 << 9).is_redirected);
    assert_eq!(Flags::decoding(1 << 10).attachment_count, 16);
    assert_eq!(Flags::decoding(1 << 16).priority, 512);
    assert!(Flags::decoding(1 << 23).is_signed);
    assert!(Flags::decoding(1 << 24).is_junk);
    assert!(Flags::decoding(1 << 25).is_not_junk);
    assert_eq!(Flags::decoding(1 << 26).font_size_delta, 1 << 19);
    assert!(Flags::decoding(1 << 29).has_junk_set);
    assert!(Flags::decoding(1 << 30).has_highlighted_text);
    assert!(Flags::decoding(1 << 31).unused);
}

#[test]
fn default_is_all_clear() {
    let flags = Flags::default();
    assert_eq!(flags, Flags::decoding(0));
    assert!(!flags.is_read);
    assert_eq!(flags.attachment_count, 0);
    assert_eq!(flags.priority, 0);
    assert_eq!(flags.font_size_delta, 0);
}
