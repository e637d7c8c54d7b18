use webmention_receiver::ids::{mention_id_text, new_mention_id, parse_mention_id};
use webmention_receiver::text::{i64_to_string, str_eq, u64_to_string};
use webmention_receiver::types::MentionId;

#[test]
fn decimal_rendering() {
    assert_eq!(u64_to_string(0), "0");
    assert_eq!(u64_to_string(7), "7");
    assert_eq!(u64_to_string(1234567890), "1234567890");
    assert_eq!(u64_to_string(u64::MAX), "18446744073709551615");
    assert_eq!(i64_to_string(0), "0");
    assert_eq!(i64_to_string(-42), "-42");
    assert_eq!(i64_to_string(i64::MIN), "-9223372036854775808");
    assert_eq!(i64_to_string(i64::MAX), "9223372036854775807");
}

#[test]
fn slice_comparison() {
    assert!(str_eq("example.com", "example.com"));
    assert!(!str_eq("example.com", "example.org"));
    assert!(!str_eq("", "a"));
    assert!(str_eq("", ""));
}

#[test]
fn identifier_text_round_trip() {
    let id = MentionId(0x936da01f9abd4d9d80c702af85c822a8);
    let text = mention_id_text(id);
    assert_eq!(text, "936da01f-9abd-4d9d-80c7-02af85c822a8");
    assert_eq!(parse_mention_id(&text), Some(id));
    assert_eq!(parse_mention_id("not-an-identifier"), None);
}

#[test]
fn drawn_identifiers_parse_back() {
    let id = new_mention_id();
    let text = mention_id_text(id);
    assert_eq!(parse_mention_id(&text), Some(id));
}
