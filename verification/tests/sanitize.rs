use alchemy_llm::utils::{sanitize_for_api, sanitize_surrogates};

#[test]
fn test_normal_string() {
    assert_eq!(sanitize_surrogates("Hello, world!"), "Hello, world!");
}

#[test]
fn test_unicode_string() {
    assert_eq!(sanitize_surrogates("Hello, \u{1F600}!"), "Hello, \u{1F600}!");
}

#[test]
fn test_emoji_string() {
    let emoji = "Test with emojis: \u{1F4BB}\u{1F680}\u{2764}";
    assert_eq!(sanitize_surrogates(emoji), emoji);
}

#[test]
fn test_cjk_characters() {
    let cjk = "Chinese: \u{4E2D}\u{6587}, Japanese: \u{65E5}\u{672C}\u{8A9E}";
    assert_eq!(sanitize_surrogates(cjk), cjk);
}

#[test]
fn test_replacement_character() {
    assert_eq!(sanitize_surrogates("Hello\u{FFFD}World"), "HelloWorld");
}

#[test]
fn test_multiple_replacement_characters() {
    assert_eq!(
        sanitize_surrogates("\u{FFFD}start\u{FFFD}middle\u{FFFD}end\u{FFFD}"),
        "startmiddleend"
    );
}

#[test]
fn test_empty_string() {
    assert_eq!(sanitize_surrogates(""), "");
}

#[test]
fn test_only_replacement_characters() {
    assert_eq!(sanitize_surrogates("\u{FFFD}\u{FFFD}\u{FFFD}"), "");
}

#[test]
fn test_sanitize_for_api() {
    assert_eq!(sanitize_for_api("test\u{FFFD}string"), "teststring");
    assert_eq!(sanitize_for_api("normal text"), "normal text");
}

#[test]
fn test_mixed_content() {
    let input = "Normal text \u{FFFD} with emoji \u{1F600} and CJK \u{4E2D}\u{6587}";
    let expected = "Normal text  with emoji \u{1F600} and CJK \u{4E2D}\u{6587}";
    assert_eq!(sanitize_surrogates(input), expected);
}
