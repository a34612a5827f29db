use ed_forge::notify::{CommandError, Notice};
use ed_forge::text::{chars_of, contains};

#[test]
fn contains_finds_runs_of_characters() {
    assert!(contains("rune assist module", "module"));
    assert!(contains("rune assist module", "rune"));
    assert!(contains("rune assist module", "e a"));
    assert!(contains("rune assist module", "rune assist module"));
    assert!(!contains("rune assist module", "modules"));
    assert!(!contains("rune assist module", "Module"));
    assert!(!contains("rune", "rune assist"));
    assert!(!contains("aab", "abb"));
    assert!(contains("aaab", "aab"));
}

#[test]
fn the_empty_text_stands_in_every_text() {
    assert!(contains("abc", ""));
    assert!(contains("", ""));
    assert!(!contains("", "a"));
}

#[test]
fn contains_works_on_characters_not_bytes() {
    assert!(contains("größe", "öß"));
    assert!(contains("日本語のテキスト", "のテ"));
    assert!(!contains("日本語", "本日"));
    for (haystack, needle) in [("größe", "ß"), ("größe", "oe"), ("ab\u{301}c", "b\u{301}"), ("€uro", "uro")] {
        assert_eq!(contains(haystack, needle), haystack.contains(needle));
    }
}

#[test]
fn chars_of_lists_the_characters() {
    assert_eq!(chars_of("aß€"), vec!['a', 'ß', '€']);
    assert!(chars_of("").is_empty());
}

#[test]
fn notices_have_their_topics() {
    assert_eq!(Notice::CatalogRefreshed.topic(), "catalog-refreshed");
    assert_eq!(Notice::LibraryUpdated.topic(), "library-updated");
}

#[test]
fn errors_have_their_messages() {
    assert_eq!(CommandError::CatalogLockUnavailable.message(), "store catalog lock poisoned");
    assert_eq!(CommandError::LibraryLockUnavailable.message(), "library lock poisoned");
    assert_eq!(CommandError::ConfigLockUnavailable.message(), "runtime config lock poisoned");
    assert_eq!(
        CommandError::NotificationFailure("channel closed".to_string()).message(),
        "event emit failed: channel closed"
    );
}
