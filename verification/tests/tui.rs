use termchat::client::theme::ThemeColors;
use termchat::client::tui::{
    chat_window, clamp_scroll, client_header_text, cursor_position, format_file_size, format_message_to_lines,
    format_message_lines_at, get_hash_color, input_height, parse_terminal_color_to_ratatui,
    suggestion_suffix, to_tui_color, try_parse_terminal_color, typing_indicator,
    visible_line_range, wrap_line, SpanStyle, StyledLine, StyledSpan, TermColor,
};
use termchat::protocol::{ServerToClient, Timestamp};

fn reference_size(bytes: usize) -> String {
    if bytes >= 1024 * 1024 {
        format!("{:.1} MB", bytes as f64 / (1024.0 * 1024.0))
    } else if bytes >= 1024 {
        format!("{:.1} KB", bytes as f64 / 1024.0)
    } else {
        format!("{} B", bytes)
    }
}

#[test]
fn file_size_exact_values() {
    assert_eq!(format_file_size(0), "0 B");
    assert_eq!(format_file_size(1023), "1023 B");
    assert_eq!(format_file_size(1024), "1.0 KB");
    assert_eq!(format_file_size(1280), "1.2 KB");
    assert_eq!(format_file_size(1792), "1.8 KB");
    assert_eq!(format_file_size(1048576), "1.0 MB");
    assert_eq!(format_file_size(10 * 1024 * 1024), "10.0 MB");
}

#[test]
fn file_size_matches_float_formatting() {
    let mut samples: Vec<usize> = Vec::new();
    for b in 0..5000usize {
        samples.push(b);
    }
    for k in 0..64u32 {
        let p = 1usize.checked_shl(k).unwrap_or(0);
        if p > 0 {
            samples.push(p);
            samples.push(p - 1);
            samples.push(p + 1);
            samples.push(p.wrapping_add(p / 3));
        }
    }
    for m in 1..3000usize {
        samples.push(m * 1024 + 512);
        samples.push(m * 1024 * 1024 + 52429);
        samples.push(m * 1024 * 1024 + 104857);
    }
    samples.push(usize::MAX);
    samples.push(usize::MAX - 1);
    samples.push((1usize << 53) + 1);
    samples.push((1usize << 54) + 3);
    samples.push(123456789012345);
    for b in samples {
        assert_eq!(format_file_size(b), reference_size(b), "bytes = {}", b);
    }
}

fn reference_hash_color(name: &str) -> TermColor {
    let mut hash = 0u32;
    for c in name.chars() {
        hash = hash.wrapping_add(c as u32).wrapping_mul(31);
    }
    let colors = [
        TermColor::Red,
        TermColor::Green,
        TermColor::Yellow,
        TermColor::Blue,
        TermColor::Magenta,
        TermColor::Cyan,
        TermColor::LightRed,
        TermColor::LightGreen,
        TermColor::LightYellow,
        TermColor::LightBlue,
        TermColor::LightMagenta,
        TermColor::LightCyan,
    ];
    colors[(hash as usize) % colors.len()]
}

#[test]
fn hash_colors_are_stable() {
    for name in ["alice", "bob", "Ollama", "", "名前", "a-very-long-user-name"] {
        assert_eq!(get_hash_color(name), reference_hash_color(name));
    }
}

#[test]
fn terminal_color_names_and_hex() {
    assert_eq!(parse_terminal_color_to_ratatui("  Red "), Some(TermColor::Red));
    assert_eq!(parse_terminal_color_to_ratatui("gray"), Some(TermColor::DarkGray));
    assert_eq!(parse_terminal_color_to_ratatui("BrightWhite"), Some(TermColor::White));
    assert_eq!(parse_terminal_color_to_ratatui("#FF8000"), Some(TermColor::Rgb(255, 128, 0)));
    assert_eq!(parse_terminal_color_to_ratatui("0a0B0c"), Some(TermColor::Rgb(10, 11, 12)));
    assert_eq!(parse_terminal_color_to_ratatui("#ff80"), None);
    assert_eq!(parse_terminal_color_to_ratatui("zzzzzz"), None);
    assert_eq!(parse_terminal_color_to_ratatui("purple"), None);
    assert_eq!(try_parse_terminal_color("cyan"), Some(Some(TermColor::Cyan)));
    assert_eq!(to_tui_color((1, 2, 3)), TermColor::Rgb(1, 2, 3));
}

fn plain() -> SpanStyle {
    SpanStyle { fg: None, bold: false, underlined: false, italic: false }
}

fn span(t: &str, style: SpanStyle) -> StyledSpan {
    StyledSpan { text: t.to_string(), style }
}

fn texts(lines: &[StyledLine]) -> Vec<Vec<String>> {
    lines.iter().map(|l| l.spans.iter().map(|s| s.text.clone()).collect()).collect()
}

#[test]
fn wrap_line_breaks_between_words() {
    let line = StyledLine { spans: vec![span("hello world foo", plain())] };
    let out = wrap_line(line, 11);
    assert_eq!(texts(&out), vec![vec!["hello ".to_string()], vec!["world ".to_string(), "foo".to_string()]]);
}

#[test]
fn wrap_line_cuts_long_words() {
    let line = StyledLine { spans: vec![span("hello world foo", plain())] };
    let out = wrap_line(line, 5);
    assert_eq!(
        texts(&out),
        vec![
            vec!["hello".to_string()],
            vec![" ".to_string()],
            vec!["world".to_string()],
            vec![" ".to_string()],
            vec!["foo".to_string()],
        ]
    );
}

#[test]
fn wrap_line_zero_width_and_empty() {
    let line = StyledLine { spans: vec![span("abc def", plain())] };
    assert_eq!(texts(&wrap_line(line, 0)), vec![vec!["abc def".to_string()]]);
    let empty = StyledLine { spans: vec![] };
    assert_eq!(texts(&wrap_line(empty, 10)), vec![Vec::<String>::new()]);
}

#[test]
fn broadcast_lines_with_mention() {
    let msg = ServerToClient::Broadcast {
        sender: "alice".to_string(),
        content: "hi @Bob!\nbye".to_string(),
        timestamp: Timestamp { secs: 0, nanos: 0 },
        sender_color: None,
    };
    let theme = ThemeColors::get("lagos");
    let users = vec!["bob".to_string()];
    let lines = format_message_lines_at(&msg, "12:34", "carol", &users, theme);
    assert_eq!(lines.len(), 2);
    assert_eq!(
        texts(&lines)[0],
        vec!["12:34 ", "alice: ", "hi", " ", "@Bob", "!"]
    );
    let first = &lines[0].spans;
    assert_eq!(first[0].style.fg, Some(TermColor::DarkGray));
    assert_eq!(first[1].style.fg, Some(reference_hash_color("alice")));
    assert!(first[1].style.bold);
    assert_eq!(first[4].style.fg, Some(TermColor::Rgb(236, 110, 93)));
    assert!(first[4].style.bold);
    assert!(!first[4].style.underlined);
    assert_eq!(texts(&lines)[1], vec![" ".repeat(13), "bye".to_string()]);
}

#[test]
fn broadcast_with_named_sender_color() {
    let msg = ServerToClient::Broadcast {
        sender: "Ollama".to_string(),
        content: "answer".to_string(),
        timestamp: Timestamp { secs: 0, nanos: 0 },
        sender_color: Some("cyan".to_string()),
    };
    let lines = format_message_lines_at(&msg, "09:00", "me", &[], ThemeColors::get("mint"));
    assert_eq!(lines[0].spans[1].text, "Ollama: ");
    assert_eq!(lines[0].spans[1].style.fg, Some(TermColor::Cyan));
}

#[test]
fn error_and_alert_lines() {
    let err = ServerToClient::Error { message: "bad\nworse".to_string() };
    let lines = format_message_lines_at(&err, "00:00", "me", &[], ThemeColors::get("lagos"));
    assert_eq!(
        texts(&lines),
        vec![vec!["✖ Error: ".to_string(), "bad".to_string()], vec!["         ".to_string(), "worse".to_string()]]
    );
    let usage = ServerToClient::SystemAlert {
        content: "Usage: /ask <your question>".to_string(),
        timestamp: Timestamp { secs: 0, nanos: 0 },
    };
    let lines = format_message_lines_at(&usage, "10:10", "me", &[], ThemeColors::get("lagos"));
    assert_eq!(
        texts(&lines),
        vec![vec!["10:10 ".to_string(), "⚠ Usage: ".to_string(), "/ask <your question>".to_string()]]
    );
    let done = ServerToClient::SystemAlert {
        content: "Theme changed to 'mint' successfully!".to_string(),
        timestamp: Timestamp { secs: 0, nanos: 0 },
    };
    let lines = format_message_lines_at(&done, "10:10", "me", &[], ThemeColors::get("lagos"));
    assert_eq!(lines[0].spans[1].text, "✔ ");
    assert_eq!(lines[0].spans[2].style.fg, Some(TermColor::Green));
}

#[test]
fn file_available_line() {
    let msg = ServerToClient::FileAvailable {
        id: "AB12CD34".to_string(),
        filename: "notes.txt".to_string(),
        size_bytes: 2048,
        sender: "alice".to_string(),
        timestamp: Timestamp { secs: 0, nanos: 0 },
    };
    let lines = format_message_lines_at(&msg, "08:15", "me", &[], ThemeColors::get("lagos"));
    assert_eq!(
        texts(&lines),
        vec![vec![
            "08:15 ".to_string(),
            "alice: ".to_string(),
            "📎 ".to_string(),
            "notes.txt".to_string(),
            " (2.0 KB) ".to_string(),
            "— type ".to_string(),
            "/download AB12CD34".to_string(),
        ]]
    );
}

#[test]
fn notification_only_for_targets() {
    let msg = ServerToClient::Notification {
        targets: vec!["Carol".to_string()],
        content: "ping".to_string(),
        timestamp: Timestamp { secs: 0, nanos: 0 },
    };
    let theme = ThemeColors::get("lagos");
    assert!(format_message_lines_at(&msg, "01:02", "dave", &[], theme).is_empty());
    let lines = format_message_lines_at(&msg, "01:02", "carol", &[], theme);
    assert_eq!(texts(&lines), vec![vec!["01:02 ".to_string(), "⚡ 📢 ".to_string(), "ping".to_string()]]);
}

#[test]
fn scrolling_window() {
    assert_eq!(clamp_scroll(50, 30, 10), 20);
    assert_eq!(clamp_scroll(5, 30, 10), 5);
    assert_eq!(clamp_scroll(5, 8, 10), 0);
    assert_eq!(visible_line_range(30, 10, 0), (20, 30));
    assert_eq!(visible_line_range(30, 10, 5), (15, 25));
    assert_eq!(visible_line_range(30, 10, 99), (0, 10));
}

#[test]
fn cursor_and_input_height() {
    let b: Vec<char> = "ab\ncd\nef".chars().collect();
    assert_eq!(cursor_position(&b, 0), (0, 0));
    assert_eq!(cursor_position(&b, 4), (1, 1));
    assert_eq!(cursor_position(&b, 8), (2, 2));
    assert_eq!(input_height(&b), 5);
    let many: Vec<char> = "\n\n\n\n\n".chars().collect();
    assert_eq!(input_height(&many), 6);
    assert_eq!(input_height(&[]), 3);
}

#[test]
fn suggestions_after_cursor() {
    let users = vec!["Alice".to_string()];
    let b: Vec<char> = "/the".chars().collect();
    assert_eq!(suggestion_suffix(&b, 4, &users, true), Some("me".chars().collect::<Vec<char>>()));
    let b: Vec<char> = "hi @al".chars().collect();
    assert_eq!(suggestion_suffix(&b, 6, &users, true), Some("ice".chars().collect::<Vec<char>>()));
    let b: Vec<char> = "/theme cy".chars().collect();
    assert_eq!(suggestion_suffix(&b, 9, &users, true), Some("berpunk".chars().collect::<Vec<char>>()));
    assert_eq!(suggestion_suffix(&b, 3, &users, true), Some(Vec::new()));
}

#[test]
fn typing_indicator_texts() {
    let none: Vec<String> = vec![];
    assert_eq!(typing_indicator(&none, "me", 0), None);
    let one = vec!["alice".to_string(), "me".to_string()];
    assert_eq!(typing_indicator(&one, "me", 0), Some("  alice is typing".to_string()));
    assert_eq!(typing_indicator(&one, "me", 320), Some("  alice is typing..".to_string()));
    let two = vec!["alice".to_string(), "bob".to_string()];
    assert_eq!(typing_indicator(&two, "me", 150), Some("  alice, bob are typing.".to_string()));
    let three = vec!["a".to_string(), "b".to_string(), "c".to_string()];
    assert_eq!(typing_indicator(&three, "me", 450), Some("  3 users are typing...".to_string()));
}

#[test]
fn header_text() {
    assert_eq!(
        client_header_text("Lobby", "127.0.0.1:8080", "ann", "mint"),
        "  Server: Lobby (127.0.0.1:8080)  |  User: ann  |  Theme: mint  |  Press '?' for Help"
    );
}

#[test]
fn message_time_is_a_clock_reading() {
    let msg = ServerToClient::SystemAlert {
        content: "hello".to_string(),
        timestamp: Timestamp { secs: 1_700_000_000, nanos: 0 },
    };
    let lines = format_message_to_lines(&msg, "me", &[], ThemeColors::get("lagos"));
    let t: Vec<char> = lines[0].spans[0].text.chars().collect();
    assert_eq!(t.len(), 6);
    assert!(t[0].is_ascii_digit() && t[1].is_ascii_digit());
    assert_eq!(t[2], ':');
    assert!(t[3].is_ascii_digit() && t[4].is_ascii_digit());
    assert_eq!(t[5], ' ');
    assert_eq!(lines[0].spans[2].text, "hello");
}

#[test]
fn sidebar_lists_users_in_order() {
    let users = vec!["zed".to_string(), "Ann".to_string(), "bob".to_string(), "ann".to_string()];
    let entries = termchat::client::tui::sidebar_entries(&users, "bob");
    let labels: Vec<String> = entries.iter().map(|e| e.label.clone()).collect();
    assert_eq!(labels, vec!["Ann", "ann", "bob (me)", "zed"]);
    assert!(entries[2].me);
    assert!(!entries[0].me);
    assert_eq!(entries[3].color, reference_hash_color("zed"));
}

#[test]
fn chat_window_shows_the_newest_wrapped_lines() {
    let lines = vec![
        StyledLine { spans: vec![span("one two", plain())] },
        StyledLine { spans: vec![span("three", plain())] },
        StyledLine { spans: vec![span("four five six", plain())] },
    ];
    // "one two" -> ["one ", "two"]; "three" -> ["three"]; "four five six" -> ["four ", "five ", "six"]
    let (shown, total) = chat_window(lines, 5, 2, 0);
    assert_eq!(total, 6);
    assert_eq!(texts(&shown), vec![vec!["five ".to_string()], vec!["six".to_string()]]);
    let lines = vec![
        StyledLine { spans: vec![span("one two", plain())] },
        StyledLine { spans: vec![span("three", plain())] },
    ];
    let (shown, total) = chat_window(lines, 5, 2, 7);
    assert_eq!(total, 3);
    assert_eq!(texts(&shown), vec![vec!["one ".to_string()], vec!["two".to_string()]]);
}

#[test]
fn wrapped_lines_fit_and_keep_text() {
    let bold = SpanStyle { fg: None, bold: true, underlined: false, italic: false };
    let make = || StyledLine {
        spans: vec![span("a longword ", plain()), span("and more words", bold), span(" x", plain())],
    };
    let whole = "a longword and more words x".to_string();
    for width in [1usize, 3, 4, 7, 30] {
        let out = wrap_line(make(), width);
        let mut joined = String::new();
        for l in &out {
            let t: String = l.spans.iter().map(|s| s.text.clone()).collect();
            assert!(t.chars().count() <= width);
            joined.push_str(&t);
        }
        assert_eq!(joined, whole);
    }
}
