use llm_playground::encode::escape_json_str;
use llm_playground::encode::u32_to_dec;

#[test]
fn decimal_rendering_exact() {
    assert_eq!(u32_to_dec(0), "0");
    assert_eq!(u32_to_dec(7), "7");
    assert_eq!(u32_to_dec(10), "10");
    assert_eq!(u32_to_dec(1024), "1024");
    assert_eq!(u32_to_dec(u32::MAX), "4294967295");
}

#[test]
fn escape_leaves_plain_text_alone() {
    assert_eq!(escape_json_str("hello world"), "hello world");
    assert_eq!(escape_json_str(""), "");
    assert_eq!(escape_json_str("héllo ✓"), "héllo ✓");
}

#[test]
fn escape_quotes_backslashes_and_controls() {
    assert_eq!(escape_json_str("a\"b"), "a\\\"b");
    assert_eq!(escape_json_str("a\\b"), "a\\\\b");
    assert_eq!(escape_json_str("a\nb\tc\rd"), "a\\nb\\tc\\rd");
    assert_eq!(escape_json_str("\u{8}\u{c}"), "\\b\\f");
    assert_eq!(escape_json_str("\u{1}\u{1f}"), "\\u0001\\u001f");
}
