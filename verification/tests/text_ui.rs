use kinesis_360_mirror::text::{chars_of, contains_infix, str_eq};
use kinesis_360_mirror::ui_log::{is_control, sanitize_log_message, UI_LOG_MAX_CHARS};

#[test]
fn control_characters_match_std() {
    for code in 0..0x3000u32 {
        if let Some(c) = char::from_u32(code) {
            assert_eq!(is_control(c), c.is_control(), "{code:#x}");
        }
    }
}

#[test]
fn ui_log_strips_escapes() {
    assert_eq!(sanitize_log_message("hello"), "hello");
    assert_eq!(sanitize_log_message("\u{1b}[31mred\u{1b}[0m"), "[31mred[0m");
    assert_eq!(sanitize_log_message("a\nb\tc\r\u{7f}\u{85}d"), "abcd");
    assert_eq!(sanitize_log_message("héllo ☃"), "héllo ☃");
    assert_eq!(sanitize_log_message(""), "");
}

#[test]
fn ui_log_caps_length_after_filtering() {
    let long = "x".repeat(600);
    assert_eq!(sanitize_log_message(&long).chars().count(), UI_LOG_MAX_CHARS);
    let noisy: String = std::iter::repeat("\u{7}y").take(600).collect();
    assert_eq!(sanitize_log_message(&noisy), "y".repeat(500));
    let wide = "é".repeat(501);
    assert_eq!(sanitize_log_message(&wide), "é".repeat(500));
}

#[test]
fn ui_log_is_idempotent() {
    let once = sanitize_log_message("\u{1b}]0;title\u{7}rest\n");
    assert_eq!(sanitize_log_message(&once), once);
}

#[test]
fn text_helpers() {
    assert_eq!(chars_of("aé☃"), vec!['a', 'é', '☃']);
    assert!(contains_infix(&chars_of("/dev/input/event1"), &chars_of("event")));
    assert!(contains_infix(&chars_of("abc"), &chars_of("")));
    assert!(!contains_infix(&chars_of("ev"), &chars_of("event")));
    assert!(str_eq("quit", "quit"));
    assert!(!str_eq("quit", "quiet"));
    assert!(!str_eq("on_top", "on_to"));
}
