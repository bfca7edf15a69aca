use typr::decimal::decimal_string;
use typr::hotkey::is_modifier_token;
use typr::languages::{is_supported_language, transcription_codes};
use typr::paths::join_path;
use typr::text::{is_blank_text, join_strings, trim_text};
use typr::transcribe_groq::{transcription_response_text, transform_request_body};

#[test]
fn trimming_removes_unicode_white_space() {
    assert_eq!(trim_text("\u{a0} hi there\t\n"), "hi there");
    assert_eq!(trim_text("   "), "");
    assert!(is_blank_text(" \u{2003}"));
    assert!(!is_blank_text(" x "));
}

#[test]
fn case_mapping_is_unicode_aware() {
    assert_eq!(transcription_codes(&["ÀÉ".to_string()]), vec!["àé"]);
    assert!(is_modifier_token("cmd"));
    assert!(is_modifier_token("ſhift"));
    assert!(!is_modifier_token("shift!"));
}

#[test]
fn json_strings_are_read_along_the_path() {
    assert_eq!(
        transcription_response_text(200, "200 OK", "{\"text\":\"y\",\"other\":[1]}"),
        Ok("y".to_string())
    );
    assert_eq!(
        transcription_response_text(200, "200 OK", "{\"text\":1}"),
        Err("No 'text' field in Groq response".to_string())
    );
    assert!(transcription_response_text(200, "200 OK", "[").is_err());
}

#[test]
fn json_strings_are_quoted_and_escaped_in_the_request_body() {
    let body = transform_request_body("", "a\"b\\c\n", "");
    assert!(body.contains("\"content\":\"a\\\"b\\\\c\\n\""));
    assert!(body.contains("\"model\":\"\""));
}

#[test]
fn supported_languages_are_lowercase_codes() {
    assert!(is_supported_language("en"));
    assert!(is_supported_language("yue"));
    assert!(!is_supported_language("EN"));
    assert!(!is_supported_language("invalid"));
}

#[test]
fn transcription_codes_trim_lowercase_and_drop_blanks() {
    let codes = transcription_codes(&[" EN ".to_string(), " ".to_string(), "Ur".to_string()]);
    assert_eq!(codes, vec!["en", "ur"]);
}

#[test]
fn strings_join_with_the_separator() {
    let parts = vec!["en".to_string(), "ur".to_string(), "fr".to_string()];
    assert_eq!(join_strings(&parts, ", "), "en, ur, fr");
    assert_eq!(join_strings(&vec![], ", "), "");
}

#[test]
fn paths_join_with_one_separator() {
    assert_eq!(join_path("/a", "b"), "/a/b");
    assert_eq!(join_path("/a/", "b"), "/a/b");
    assert_eq!(join_path("", "b"), "b");
}

#[test]
fn decimal_strings() {
    assert_eq!(decimal_string(0), "0");
    assert_eq!(decimal_string(1700000000123), "1700000000123");
    assert_eq!(decimal_string(u64::MAX), "18446744073709551615");
}

#[test]
fn json_strings_escape_controls_with_short_or_hex_escapes() {
    let body = transform_request_body("m", "a\u{1}b\tc\u{1f}\u{7f}é/", "");
    assert!(body.contains("\"content\":\"a\\u0001b\\tc\\u001f\u{7f}é/\""));
}
