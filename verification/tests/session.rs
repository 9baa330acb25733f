use termchat::client::input::{KeyCode, KeyEvent};
use termchat::client::session::{read_welcome, ClientEffect, ClientState, Connection};
use termchat::protocol::{ClientToServer, ServerToClient, Timestamp};

fn now() -> Timestamp {
    Timestamp { secs: 1_700_000_000, nanos: 0 }
}

fn conn() -> Connection {
    Connection {
        server_name: "Lobby".to_string(),
        addr: "10.0.0.1:8080".to_string(),
        name: "ann".to_string(),
    }
}

fn key(code: KeyCode) -> KeyEvent {
    KeyEvent { code, control: false, meta: false, shift: false, release: false }
}

fn submit(s: &mut ClientState, line: &str) -> Vec<ClientEffect> {
    for c in line.chars() {
        s.on_key(&conn(), key(KeyCode::Char(c)), 0, 10, now());
    }
    s.on_key(&conn(), key(KeyCode::Enter), 0, 10, now())
}

fn alert_text(m: &ServerToClient) -> String {
    match m {
        ServerToClient::SystemAlert { content, .. } => content.clone(),
        ServerToClient::Error { message } => format!("E:{}", message),
        _ => String::from("?"),
    }
}

#[test]
fn typing_notice_precedes_the_line() {
    let mut s = ClientState::new("lagos".to_string());
    let e = s.on_key(&conn(), key(KeyCode::Char('h')), 0, 10, now());
    assert!(matches!(e.as_slice(), [ClientEffect::Send(ClientToServer::Typing { is_typing: false })]));
    let e = s.on_key(&conn(), key(KeyCode::Char('i')), 0, 10, now());
    assert!(matches!(e.as_slice(), [ClientEffect::Send(ClientToServer::Typing { is_typing: true })]));
    let e = s.on_key(&conn(), key(KeyCode::Enter), 0, 10, now());
    assert_eq!(e.len(), 2);
    assert!(matches!(&e[0], ClientEffect::Send(ClientToServer::Typing { is_typing: false })));
    match &e[1] {
        ClientEffect::Send(ClientToServer::ChatMessage { content }) => assert_eq!(content, "hi"),
        _ => panic!("expected a chat message"),
    }
}

#[test]
fn theme_command_changes_and_saves_theme() {
    let mut s = ClientState::new("lagos".to_string());
    let e = submit(&mut s, "/theme  Matrix ");
    assert!(matches!(e.last(), Some(ClientEffect::SaveTheme(t)) if t == "matrix"));
    assert_eq!(s.input.theme_name, "matrix");
    assert_eq!(alert_text(s.input.messages.last().unwrap()), "Theme changed to 'matrix' successfully!");
    let e = submit(&mut s, "/theme neon");
    assert_eq!(e.len(), 1);
    assert_eq!(s.input.theme_name, "matrix");
    assert_eq!(
        alert_text(s.input.messages.last().unwrap()),
        "E:Unknown theme 'neon'. Options: blurple, matrix, cyberpunk, sunset, lagos, mint, lavender"
    );
}

#[test]
fn info_debug_clear_and_exit() {
    let mut s = ClientState::new("lagos".to_string());
    submit(&mut s, "/info");
    assert_eq!(alert_text(&s.input.messages[0]), "Connected to Lobby at 10.0.0.1:8080 as ann");
    submit(&mut s, "/debug");
    assert!(s.input.debug);
    assert_eq!(alert_text(&s.input.messages[1]), "Local client debugging enabled");
    let e = submit(&mut s, "hello");
    assert!(alert_text(s.input.messages.last().unwrap()).starts_with("[DEBUG] Sent: ChatMessage"));
    assert!(matches!(e.last(), Some(ClientEffect::Send(ClientToServer::ChatMessage { .. }))));
    submit(&mut s, "/clear");
    assert!(s.input.messages.is_empty());
    assert_eq!(s.input.scroll_offset, 0);
    assert!(s.input.auto_scroll);
    let e = submit(&mut s, "/exit");
    assert!(matches!(e.last(), Some(ClientEffect::Quit)));
}

#[test]
fn color_and_ask_commands() {
    let mut s = ClientState::new("lagos".to_string());
    let e = submit(&mut s, "/color  #ff8000 ");
    assert!(matches!(&e[1], ClientEffect::SaveColor(Some(c)) if c == "#ff8000"));
    assert!(matches!(&e[2], ClientEffect::Send(ClientToServer::SetColor { color: Some(c) }) if c == "#ff8000"));
    let e = submit(&mut s, "/color");
    assert!(matches!(&e[1], ClientEffect::SaveColor(None)));
    let e = submit(&mut s, "/ask   ");
    assert_eq!(e.len(), 1);
    assert_eq!(alert_text(s.input.messages.last().unwrap()), "Usage: /ask <your question>");
    let e = submit(&mut s, "/ask why?");
    assert!(matches!(&e[1], ClientEffect::Send(ClientToServer::ChatMessage { content }) if content == "/ask why?"));
}

#[test]
fn download_and_open_files() {
    let mut s = ClientState::new("lagos".to_string());
    let e = submit(&mut s, "/download ab12");
    assert!(matches!(&e[1], ClientEffect::Send(ClientToServer::FileRequest { id }) if id == "AB12"));
    let e = submit(&mut s, "/open xy9");
    assert!(matches!(&e[1], ClientEffect::Send(ClientToServer::FileRequest { id }) if id == "XY9"));
    assert_eq!(s.pending_open.as_deref(), Some("XY9"));
    let e = s.download_saved("XY9".to_string(), "a.txt".to_string(), Ok("/tmp/a.txt".to_string()), now());
    assert!(matches!(e.as_slice(), [ClientEffect::OpenFile(p)] if p == "/tmp/a.txt"));
    assert_eq!(s.pending_open, None);
    assert_eq!(alert_text(s.input.messages.last().unwrap()), "Downloaded: a.txt → /tmp/a.txt (opening...)");
    let e = submit(&mut s, "/open xy9");
    assert!(matches!(&e[1], ClientEffect::OpenFile(p) if p == "/tmp/a.txt"));
    let e = s.download_saved("AB12".to_string(), "b.bin".to_string(), Err("disk full".to_string()), now());
    assert!(e.is_empty());
    assert_eq!(alert_text(s.input.messages.last().unwrap()), "E:Failed to save file: disk full");
    let e = submit(&mut s, "/open   ");
    assert_eq!(e.len(), 1);
    assert_eq!(alert_text(s.input.messages.last().unwrap()), "Usage: /download <id> or /open <id>");
}

#[test]
fn uploads() {
    let mut s = ClientState::new("lagos".to_string());
    let e = submit(&mut s, "/send  ./dir/notes.txt ");
    assert!(matches!(&e[1], ClientEffect::ReadFile(p) if p == "./dir/notes.txt"));
    let e = s.upload_read("./dir/notes.txt", Ok(b"hi!".to_vec()), now());
    match e.as_slice() {
        [ClientEffect::Send(ClientToServer::FileUpload { filename, data })] => {
            assert_eq!(filename, "notes.txt");
            assert_eq!(data, "aGkh");
        }
        _ => panic!("expected an upload"),
    }
    assert_eq!(alert_text(s.input.messages.last().unwrap()), "Uploading ./dir/notes.txt...");
    let e = s.upload_read("big.iso", Ok(vec![0u8; 10 * 1024 * 1024 + 1]), now());
    assert!(e.is_empty());
    assert_eq!(alert_text(s.input.messages.last().unwrap()), "E:File too large (10MB > 10MB limit)");
    let e = s.upload_read("x", Err("No such file".to_string()), now());
    assert!(e.is_empty());
    assert_eq!(alert_text(s.input.messages.last().unwrap()), "E:Cannot read 'x': No such file");
    let e = s.upload_read("..", Ok(vec![1, 2]), now());
    assert!(matches!(e.as_slice(), [ClientEffect::Send(ClientToServer::FileUpload { filename, .. })] if filename == "file"));
}

#[test]
fn server_messages() {
    let mut s = ClientState::new("lagos".to_string());
    s.on_server_message(ServerToClient::UsersList { users: vec!["ann".to_string(), "bob".to_string()] }, now(), 0);
    assert_eq!(s.input.online_users, vec!["ann".to_string(), "bob".to_string()]);
    s.on_server_message(ServerToClient::UserTyping { sender: "bob".to_string(), is_typing: true }, now(), 1000);
    assert_eq!(s.input.typing_users.len(), 1);
    s.on_server_message(ServerToClient::UserTyping { sender: "bob".to_string(), is_typing: true }, now(), 2000);
    assert_eq!(s.input.typing_users.len(), 1);
    assert_eq!(s.input.typing_users[0].last_seen_ms, 2000);
    s.expire_typing(5999);
    assert_eq!(s.input.typing_users.len(), 1);
    s.expire_typing(6000);
    assert!(s.input.typing_users.is_empty());
    s.on_server_message(ServerToClient::UserTyping { sender: "bob".to_string(), is_typing: true }, now(), 7000);
    s.on_server_message(ServerToClient::UserTyping { sender: "bob".to_string(), is_typing: false }, now(), 7100);
    assert!(s.input.typing_users.is_empty());
    let e = s.on_server_message(ServerToClient::Pong, now(), 0);
    assert!(e.is_empty());
    assert!(s.input.messages.is_empty());
    let e = s.on_server_message(
        ServerToClient::FileData { id: "ID".to_string(), filename: "f".to_string(), data: "aGkh".to_string() },
        now(),
        0,
    );
    assert!(matches!(e.as_slice(), [ClientEffect::SaveFile { id, filename, data }] if id == "ID" && filename == "f" && data == b"hi!"));
    let e = s.on_server_message(
        ServerToClient::FileData { id: "ID".to_string(), filename: "f".to_string(), data: "***".to_string() },
        now(),
        0,
    );
    assert!(e.is_empty());
    assert_eq!(alert_text(s.input.messages.last().unwrap()), "E:Failed to decode received file data");
    s.on_server_message(ServerToClient::Error { message: "x".to_string() }, now(), 0);
    assert_eq!(s.input.messages.len(), 2);
}

#[test]
fn keys_before_the_editor() {
    let mut s = ClientState::new("lagos".to_string());
    let ctrl = |c: char| KeyEvent { code: KeyCode::Char(c), control: true, meta: false, shift: false, release: false };
    assert!(matches!(s.on_key(&conn(), ctrl('c'), 0, 10, now()).as_slice(), [ClientEffect::Quit]));
    let e = s.on_key(&conn(), key(KeyCode::F(2)), 0, 10, now());
    assert!(matches!(e.as_slice(), [ClientEffect::SaveSidebar(true)]));
    assert!(s.input.sidebar_collapsed);
    s.on_key(&conn(), ctrl('b'), 0, 10, now());
    assert!(!s.input.sidebar_collapsed);
    s.on_key(&conn(), key(KeyCode::PageUp), 100, 20, now());
    assert_eq!(s.input.scroll_offset, 10);
    assert!(!s.input.auto_scroll);
    s.on_key(&conn(), key(KeyCode::PageUp), 100, 20, now());
    s.on_key(&conn(), key(KeyCode::PageUp), 100, 20, now());
    assert_eq!(s.input.scroll_offset, 30);
    let shift_up = KeyEvent { code: KeyCode::Up, control: false, meta: false, shift: true, release: false };
    s.on_key(&conn(), shift_up, 31, 20, now());
    assert_eq!(s.input.scroll_offset, 11);
    s.on_key(&conn(), key(KeyCode::PageDown), 100, 20, now());
    assert_eq!(s.input.scroll_offset, 1);
    assert!(!s.input.auto_scroll);
    s.on_wheel(false, 100, 20);
    assert_eq!(s.input.scroll_offset, 0);
    assert!(s.input.auto_scroll);
    assert!(s.on_key(&conn(), key(KeyCode::Char('?')), 0, 10, now()).is_empty());
    assert!(s.input.show_help);
    assert!(s.on_key(&conn(), key(KeyCode::Char('x')), 0, 10, now()).is_empty());
    assert!(s.input.buffer.is_empty());
    s.on_key(&conn(), key(KeyCode::Esc), 0, 10, now());
    assert!(!s.input.show_help);
    let released = KeyEvent { code: KeyCode::Char('a'), control: false, meta: false, shift: false, release: true };
    assert!(s.on_key(&conn(), released, 0, 10, now()).is_empty());
    assert!(!s.key_would_panic(key(KeyCode::Right)));
}

#[test]
fn scroll_is_kept_in_range() {
    let mut s = ClientState::new("lagos".to_string());
    s.input.scroll_offset = 40;
    s.fit_scroll(30, 10);
    assert_eq!(s.input.scroll_offset, 20);
}

#[test]
fn handshake_reply_outcomes() {
    let welcome = ServerToClient::Welcome { server_name: "Lobby".to_string() };
    assert_eq!(read_welcome(Some(welcome)), Ok("Lobby".to_string()));
    let refused = ServerToClient::Error { message: "Name taken".to_string() };
    assert_eq!(read_welcome(Some(refused)), Err("Connection rejected: Name taken".to_string()));
    assert_eq!(read_welcome(Some(ServerToClient::Pong)), Err("Unexpected response from server".to_string()));
    assert_eq!(read_welcome(None), Err("Connection closed by server during handshake".to_string()));
}
