use mymusic_daw::text::{chars_of, decimal_string, replace_text, text_contains};

#[test]
fn decimals_have_no_leading_zeros() {
    assert_eq!(decimal_string(0), "0");
    assert_eq!(decimal_string(7), "7");
    assert_eq!(decimal_string(1200), "1200");
    assert_eq!(decimal_string(u64::MAX), "18446744073709551615");
}

#[test]
fn substring_search() {
    assert!(text_contains("has-gui-editor", "gui"));
    assert!(text_contains("abc", ""));
    assert!(text_contains("abc", "abc"));
    assert!(!text_contains("ab", "abc"));
    assert!(!text_contains("state", "stately"));
    assert!(text_contains("élan vital", "n v"));
}

#[test]
fn replacement_goes_left_to_right_without_overlap() {
    assert_eq!(replace_text("aaa", "aa", "b"), "ba");
    assert_eq!(replace_text("x.flac", ".flac", ".wav"), "x.wav");
    assert_eq!(replace_text("no match", "zz", "y"), "no match");
    assert_eq!(replace_text("", "a", "b"), "");
    assert_eq!(chars_of("añb"), vec!['a', 'ñ', 'b']);
}
