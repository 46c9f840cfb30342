use ilegallearn_desktop::text::{characters, decimal_text, ends_with, join, white_space};

#[test]
fn decimal_numbers() {
    assert_eq!(decimal_text(0), "0");
    assert_eq!(decimal_text(10), "10");
    assert_eq!(decimal_text(65535), "65535");
    assert_eq!(decimal_text(u64::MAX), "18446744073709551615");
}

#[test]
fn decimal_text_reads_back() {
    for n in [0u64, 7, 9, 10, 99, 100, 4096, 1_000_000_007] {
        assert_eq!(decimal_text(n).parse::<u64>(), Ok(n));
    }
}

#[test]
fn white_space_agrees_with_unicode() {
    for code in 0..0x110000u32 {
        if let Some(c) = char::from_u32(code) {
            assert_eq!(white_space(c), c.is_whitespace(), "{code:x}");
        }
    }
}

#[test]
fn suffixes() {
    assert!(ends_with("a.pdf", ".pdf"));
    assert!(ends_with(".pdf", ".pdf"));
    assert!(ends_with("anything", ""));
    assert!(!ends_with("pdf", ".pdf"));
    assert!(!ends_with("a.pdf ", ".pdf"));
    assert!(ends_with("\u{e9}\u{20ac}", "\u{20ac}"));
}

#[test]
fn joining_and_splitting() {
    assert_eq!(join("ab", "\u{20ac}"), "ab\u{20ac}");
    assert_eq!(characters("a\u{20ac}b"), vec!['a', '\u{20ac}', 'b']);
}
