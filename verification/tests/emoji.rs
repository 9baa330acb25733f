use termchat::client::emoji::render_emojis;

#[test]
fn test_single_emoji() {
    assert_eq!(render_emojis("hello :pray:"), "hello \u{1F64F}");
}

#[test]
fn test_multiple_emojis() {
    let result = render_emojis(":heart: :wave:");
    assert!(result.contains('\u{2764}'));
    assert!(result.contains('\u{1F44B}'));
}

#[test]
fn test_no_emoji() {
    assert_eq!(render_emojis("no emoji here"), "no emoji here");
}

#[test]
fn test_unknown_shortcode_keeps_colons() {
    let result = render_emojis(":unknown: hello");
    // Unknown shortcodes keep their colons and text is preserved
    assert!(result.contains("hello"));
}

#[test]
fn test_mixed_content_preserves_mentions() {
    let result = render_emojis("Hey @user :wave: how are you? :pray:");
    assert!(result.contains("@user"));
    assert!(result.contains('\u{1F44B}')); // wave
    assert!(result.contains('\u{1F64F}')); // pray
}

#[test]
fn unknown_shortcode_is_left_exactly() {
    assert_eq!(render_emojis(":unknown: hello"), ":unknown: hello");
}

#[test]
fn shortcode_after_unknown_one_is_found() {
    assert_eq!(render_emojis(":nope:wave:"), ":nope\u{1F44B}");
}

#[test]
fn two_byte_emoji_value() {
    assert_eq!(render_emojis("I :heart: it"), "I \u{2764}\u{FE0F} it");
}

#[test]
fn lone_colons_stay() {
    assert_eq!(render_emojis("a: b :: c:"), "a: b :: c:");
    assert_eq!(render_emojis(""), "");
}

#[test]
fn table_shortcode_between_colon_free_texts() {
    assert_eq!(render_emojis("x:pray:y"), "x\u{1F64F}y");
    assert_eq!(render_emojis("see you :wave: soon"), "see you \u{1F44B} soon");
}
