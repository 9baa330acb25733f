use termchat::client::input::{
    get_visible_prompt_and_cursor, is_fuzzy_match, InputState, KeyCode, KeyEvent,
};
use termchat::client::theme::ThemeColors;

fn press(code: KeyCode) -> KeyEvent {
    KeyEvent { code, control: false, meta: false, shift: false, release: false }
}

fn type_text(s: &mut InputState, text: &str) {
    for c in text.chars() {
        assert_eq!(s.handle_key(press(KeyCode::Char(c))), None);
    }
}

fn line(s: &InputState) -> String {
    s.buffer.iter().collect()
}

#[test]
fn fuzzy_match_in_order() {
    assert!(is_fuzzy_match("lgs", "lagos"));
    assert!(is_fuzzy_match("", "anything"));
    assert!(!is_fuzzy_match("sgl", "lagos"));
    assert!(is_fuzzy_match("LAG", "lagos"));
    assert!(is_fuzzy_match("lagos", "lagos"));
}

#[test]
fn visible_prompt_short_line() {
    let b: Vec<char> = "hello".chars().collect();
    let (v, c) = get_visible_prompt_and_cursor(&b, 5, 80);
    assert_eq!(v, "hello");
    assert_eq!(c, 5);
}

#[test]
fn visible_prompt_scrolls_with_cursor() {
    let b: Vec<char> = "abcdefghijklmnopqrstuvwxyz".chars().collect();
    let (v, c) = get_visible_prompt_and_cursor(&b, 26, 12);
    assert_eq!(v, "tuvwxyz");
    assert_eq!(c, 7);
    let (v, c) = get_visible_prompt_and_cursor(&b, 10, 12);
    assert_eq!(v, "hijklmn");
    assert_eq!(c, 3);
    let (v, c) = get_visible_prompt_and_cursor(&b, 3, 4);
    assert_eq!(v, "");
    assert_eq!(c, 0);
}

#[test]
fn typing_inserts_at_cursor() {
    let mut s = InputState::new("lagos".to_string());
    type_text(&mut s, "hllo");
    s.handle_key(press(KeyCode::Home));
    s.handle_key(press(KeyCode::Right));
    type_text(&mut s, "e");
    assert_eq!(line(&s), "hello");
    assert_eq!(s.cursor_index, 2);
}

#[test]
fn enter_hands_line_on_and_up_recalls_it() {
    let mut s = InputState::new("lagos".to_string());
    type_text(&mut s, "hi there");
    assert_eq!(s.handle_key(press(KeyCode::Enter)), Some("hi there".to_string()));
    assert_eq!(line(&s), "");
    s.handle_key(press(KeyCode::Up));
    assert_eq!(line(&s), "hi there");
    s.handle_key(press(KeyCode::Down));
    assert_eq!(line(&s), "");
}

#[test]
fn blank_line_is_not_handed_on() {
    let mut s = InputState::new("lagos".to_string());
    type_text(&mut s, "   ");
    assert_eq!(s.handle_key(press(KeyCode::Enter)), None);
    assert!(s.history.is_empty());
}

#[test]
fn control_keys_give_commands() {
    let mut s = InputState::new("lagos".to_string());
    let ctrl_c = KeyEvent { code: KeyCode::Char('c'), control: true, meta: false, shift: false, release: false };
    let ctrl_l = KeyEvent { code: KeyCode::Char('l'), control: true, meta: false, shift: false, release: false };
    assert_eq!(s.handle_key(ctrl_c), Some("/exit".to_string()));
    assert_eq!(s.handle_key(ctrl_l), Some("/clear".to_string()));
}

#[test]
fn backspace_and_delete() {
    let mut s = InputState::new("lagos".to_string());
    type_text(&mut s, "abc");
    s.handle_key(press(KeyCode::Backspace));
    assert_eq!(line(&s), "ab");
    s.handle_key(press(KeyCode::Home));
    s.handle_key(press(KeyCode::Delete));
    assert_eq!(line(&s), "b");
}

#[test]
fn tab_completes_commands() {
    let mut s = InputState::new("lagos".to_string());
    type_text(&mut s, "/he");
    s.handle_key(press(KeyCode::Tab));
    assert_eq!(line(&s), "/help");
}

#[test]
fn tab_completes_themes() {
    let mut s = InputState::new("lagos".to_string());
    type_text(&mut s, "/theme ma");
    s.handle_key(press(KeyCode::Tab));
    assert_eq!(line(&s), "/theme matrix");
}

#[test]
fn right_arrow_accepts_command_suggestion() {
    let mut s = InputState::new("lagos".to_string());
    type_text(&mut s, "/inf");
    s.handle_key(press(KeyCode::Right));
    assert_eq!(line(&s), "/info");
}

#[test]
fn theme_colors_by_name_any_case() {
    let a = ThemeColors::get("MATRIX");
    let b = ThemeColors::get("matrix");
    assert_eq!(a.title, b.title);
    assert_eq!(a.accent, b.accent);
    let d = ThemeColors::get("no-such-theme");
    assert_eq!(d.title, (114, 137, 218));
    assert_eq!(d.prompt, (114, 137, 218));
}
