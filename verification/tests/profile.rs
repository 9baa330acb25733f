use termchat::cli::{join_name, profile_updated_message, server_name_choice, typed_token};
use termchat::client::display::{format_username, highlight_mentions, normalize_newlines};
use termchat::client::theme::ThemeColors;
use termchat::config::{default_theme, Config};
use termchat::encoding::decoded_bytes;

#[test]
fn default_and_fallback_profiles() {
    assert_eq!(default_theme(), "lagos");
    let f = Config::fallback();
    assert_eq!(f.name, "default-user");
    assert_eq!(f.theme, "lagos");
    assert_eq!(f.color, None);
    assert_eq!(f.sidebar_collapsed, None);
}

#[test]
fn new_user_profiles() {
    assert!(Config::for_new_user("   \n").is_none());
    let c = Config::for_new_user("  ann \n").unwrap();
    assert_eq!(c.name, "ann");
    assert_eq!(c.theme, "lagos");
}

#[test]
fn profile_updates() {
    let c = Config::fallback()
        .with_name("bob".to_string())
        .with_theme("mint".to_string())
        .with_color(Some("red".to_string()))
        .with_sidebar_collapsed(true);
    assert_eq!(c.name, "bob");
    assert_eq!(c.theme, "mint");
    assert_eq!(c.color.as_deref(), Some("red"));
    assert_eq!(c.sidebar_collapsed, Some(true));
}

#[test]
fn command_line_choices() {
    assert_eq!(server_name_choice(Some("Hall".to_string()), "ignored"), "Hall");
    assert_eq!(server_name_choice(None, "  Den \n"), "Den");
    assert_eq!(server_name_choice(None, " \n"), "default-server");
    let p = Config::fallback();
    assert_eq!(join_name(None, &p), "default-user");
    assert_eq!(join_name(Some("zed".to_string()), &p), "zed");
    assert_eq!(typed_token(" AB12CD\n"), "AB12CD");
    assert_eq!(profile_updated_message("zed"), " Profile updated! Your username is now 'zed'");
}

#[test]
fn usernames_are_shortened() {
    assert_eq!(format_username("short"), "short");
    assert_eq!(format_username("exactlyten"), "exactlyten");
    assert_eq!(format_username("elevenchars"), "elevenc...");
    assert_eq!(format_username("ÄÖÜäöüßéèêë"), "ÄÖÜäöüß...");
}

#[test]
fn mentions_are_highlighted() {
    let users = vec!["bob".to_string(), "ann".to_string()];
    let colors = ThemeColors::get("lagos");
    let (plain, mentioned) = highlight_mentions("no mentions here", "ann", &users, colors);
    assert_eq!(plain, "no mentions here");
    assert!(!mentioned);
    let (text, mentioned) = highlight_mentions("hey @Ann, and @carl", "ann", &users, colors);
    assert!(mentioned);
    assert!(text.contains("@Ann"));
    assert!(text.ends_with(", and @carl"));
    assert!(text.starts_with("hey "));
    let painted = &text["hey ".len()..text.len() - ", and @carl".len()];
    assert!(painted == "@Ann" || (painted.starts_with("\x1b[1;4;") && painted.ends_with("m@Ann\x1b[0m")));
}

#[test]
fn raw_mode_line_breaks() {
    assert_eq!(normalize_newlines("a\nb\r\nc"), "a\r\nb\r\nc");
    assert_eq!(normalize_newlines("x\r\r\n"), "x\r\r\n");
    assert_eq!(normalize_newlines(""), "");
}

#[test]
fn base64_decoding() {
    assert_eq!(decoded_bytes("aGkh"), Some(b"hi!".to_vec()));
    assert_eq!(decoded_bytes("aGk="), Some(b"hi".to_vec()));
    assert_eq!(decoded_bytes("aGk"), None);
    assert_eq!(decoded_bytes("****"), None);
}
