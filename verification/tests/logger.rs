use abuelo::logger::{contains_bytes, Logger};

#[test]
fn every_record_is_enabled() {
    assert!(Logger.enabled());
}

#[test]
fn a_record_is_printed_with_its_module() {
    assert_eq!(
        Logger.line(Some("abuelo::routes"), "Authing user rn."),
        Some("[abuelo::routes] - Authing user rn.".to_string())
    );
    assert_eq!(Logger.line(Some(""), ""), Some("[] - ".to_string()));
    assert_eq!(Logger.line(Some("war"), "p"), Some("[war] - p".to_string()));
}

#[test]
fn records_of_warp_and_records_without_a_module_are_dropped() {
    assert_eq!(Logger.line(Some("warp"), "x"), None);
    assert_eq!(Logger.line(Some("warp::server"), "x"), None);
    assert_eq!(Logger.line(Some("my::warp_filters::auth"), "x"), None);
    assert_eq!(Logger.line(Some("swarp"), "x"), None);
    assert_eq!(Logger.line(None, "x"), None);
    // Only the module decides, not the text.
    assert_eq!(Logger.line(Some("app"), "warp"), Some("[app] - warp".to_string()));
    assert_eq!(Logger.line(Some("Warp"), "x"), Some("[Warp] - x".to_string()));
    assert_eq!(Logger.line(Some("wa::rp"), "x"), Some("[wa::rp] - x".to_string()));
}

#[test]
fn searching_bytes() {
    assert!(contains_bytes(b"", b""));
    assert!(contains_bytes(b"", b"abc"));
    assert!(!contains_bytes(b"a", b""));
    assert!(contains_bytes(b"abc", b"abc"));
    assert!(!contains_bytes(b"abcd", b"abc"));
    assert!(contains_bytes(b"ab", b"aab"));
    assert!(contains_bytes(b"aab", b"aaab"));
    assert!(!contains_bytes(b"aba", b"abba"));
    assert!(contains_bytes(b"c", b"abc"));
    assert!(contains_bytes(b"a", b"abc"));
    assert!(!contains_bytes(b"d", b"abc"));
}
