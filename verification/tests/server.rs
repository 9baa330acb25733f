use termchat::protocol::{debug_server_message, ClientToServer, ServerToClient, Timestamp};
use termchat::server::dashboard::{
    active_users_title, dashboard_chat_line, dashboard_header, dashboard_stats, log_line,
    log_line_color,
};
use termchat::server::ollama::{
    api_base, choose_model, chat_request, completions_url, models_url, system_prompt, AskReply,
};
use termchat::server::state::{ServerState, StoredFile};
use termchat::server::{
    format_uptime, generate_file_id, generate_token, get_hash_color, sanitize_filename, LogLevel,
    ServerEffect,
};
use termchat::client::tui::TermColor;

fn now() -> Timestamp {
    Timestamp { secs: 5, nanos: 7 }
}

fn server() -> ServerState {
    ServerState::new("Lobby".to_string(), "TOKEN1".to_string(), false)
}

fn handshake(name: &str, token: &str, color: Option<&str>) -> ClientToServer {
    ClientToServer::Handshake {
        name: name.to_string(),
        token: token.to_string(),
        color: color.map(|c| c.to_string()),
    }
}

fn chat(text: &str) -> ClientToServer {
    ClientToServer::ChatMessage { content: text.to_string() }
}

fn reference_lcg(seed: u128, inc: u128, n: usize, charset: &str) -> String {
    let chars: Vec<char> = charset.chars().collect();
    let mut s = seed;
    let mut out = String::new();
    for _ in 0..n {
        s = s.wrapping_mul(6364136223846793005).wrapping_add(inc);
        out.push(chars[(s % chars.len() as u128) as usize]);
    }
    out
}

#[test]
fn ids_and_tokens() {
    for seed in [0u128, 1, 42, 1_700_000_000_123_456_789, u128::MAX] {
        assert_eq!(
            generate_file_id(seed),
            reference_lcg(seed, 1442695040888963407, 8, "ABCDEFGHIJKLMNOPQRSTUVWXYZ0123456789")
        );
        assert_eq!(
            generate_token(seed),
            reference_lcg(seed, 1, 6, "abcdefghijklmnopqrstuvwxyz0123456789").to_uppercase()
        );
    }
    assert_eq!(generate_file_id(7).len(), 8);
    assert_eq!(generate_token(7).len(), 6);
}

#[test]
fn uptime_text() {
    assert_eq!(format_uptime(0), "00:00:00");
    assert_eq!(format_uptime(3661), "01:01:01");
    assert_eq!(format_uptime(86399), "23:59:59");
    assert_eq!(format_uptime(360000), "100:00:00");
}

#[test]
fn file_names_are_sanitized() {
    assert_eq!(sanitize_filename("../etc/pa ss?wd.txt"), "passwd.txt");
    assert_eq!(sanitize_filename("my-file_v2.tar.gz"), "my-file_v2.tar.gz");
    assert_eq!(sanitize_filename(".."), "file");
    assert_eq!(sanitize_filename("日本語.txt"), "日本語.txt");
}

#[test]
fn hash_color_matches_client() {
    assert_eq!(get_hash_color("bob"), termchat::client::tui::get_hash_color("bob"));
}

#[test]
fn admission() {
    let mut s = server();
    let (e, who) = s.handshake(handshake("ann", "WRONG", None), now());
    assert_eq!(who, None);
    assert!(matches!(&e[0], ServerEffect::Reply(ServerToClient::Error { message }) if message == "Invalid token provided"));
    assert!(matches!(&e[1], ServerEffect::Close(_)));
    assert!(s.users.is_empty());
    let (e, who) = s.handshake(chat("hi"), now());
    assert_eq!(who, None);
    assert!(matches!(&e[0], ServerEffect::Reply(ServerToClient::Error { message }) if message == "First message must be a Handshake"));
    let (e, who) = s.handshake(handshake("ann", "TOKEN1", Some("red")), now());
    assert_eq!(who.as_deref(), Some("ann"));
    assert_eq!(e.len(), 5);
    assert!(matches!(&e[0], ServerEffect::Log(LogLevel::Info, t) if t == "'ann' successfully authenticated"));
    assert!(matches!(&e[1], ServerEffect::Reply(ServerToClient::Welcome { server_name }) if server_name == "Lobby"));
    assert!(matches!(&e[2], ServerEffect::Broadcast(ServerToClient::SystemAlert { content, .. }) if content == "ann has joined the chat"));
    assert!(matches!(&e[3], ServerEffect::Subscribe));
    assert!(matches!(&e[4], ServerEffect::Broadcast(ServerToClient::UsersList { users }) if users == &vec!["ann".to_string()]));
    assert_eq!(s.color_of("ann").as_deref(), Some("red"));
    s.handshake(handshake("ann", "TOKEN1", None), now());
    assert_eq!(s.users.len(), 1);
    let e = s.leave("ann", now());
    assert!(s.users.is_empty());
    assert!(matches!(&e[1], ServerEffect::Broadcast(ServerToClient::SystemAlert { content, .. }) if content == "ann has left the chat"));
}

#[test]
fn chat_messages_and_history() {
    let mut s = server();
    s.handshake(handshake("ann", "TOKEN1", None), now());
    s.handshake(handshake("bob", "TOKEN1", Some("cyan")), now());
    let e = s.on_client_message("bob", chat("hello all"), now(), 0);
    assert_eq!(s.total_messages, 1);
    assert_eq!(s.history, vec!["bob: hello all".to_string()]);
    assert!(matches!(&e[0], ServerEffect::Log(LogLevel::Info, t) if t == "User 'bob' sent chat message: 'hello all'"));
    match &e[1] {
        ServerEffect::Broadcast(ServerToClient::Broadcast { sender, content, sender_color, .. }) => {
            assert_eq!(sender, "bob");
            assert_eq!(content, "hello all");
            assert_eq!(sender_color.as_deref(), Some("cyan"));
        }
        _ => panic!("expected a broadcast"),
    }
    let e = s.on_client_message("ann", chat("  /users "), now(), 0);
    assert!(matches!(&e[1], ServerEffect::Reply(ServerToClient::SystemAlert { content, .. }) if content == "Online users: ann, bob"));
    assert_eq!(s.total_messages, 1);
    for i in 0..25 {
        s.on_client_message("ann", chat(&format!("m{}", i)), now(), 0);
    }
    assert_eq!(s.history.len(), 20);
    assert_eq!(s.history[0], "ann: m5");
    assert_eq!(s.history[19], "ann: m24");
    assert_eq!(s.total_messages, 26);
}

#[test]
fn ask_command() {
    let mut s = server();
    s.handshake(handshake("ann", "TOKEN1", None), now());
    let e = s.on_client_message("ann", chat("/ask"), now(), 0);
    assert!(matches!(&e[1], ServerEffect::Reply(ServerToClient::SystemAlert { content, .. }) if content == "Usage: /ask <your question>"));
    assert_eq!(s.total_messages, 0);
    let e = s.on_client_message("ann", chat("/ask  what is rust? "), now(), 0);
    assert!(matches!(&e[0], ServerEffect::Log(LogLevel::Info, t) if t == "User 'ann' ran command '/ask' with question: 'what is rust?'"));
    assert!(matches!(&e[2], ServerEffect::Ask { question, asker } if question == "what is rust?" && asker == "ann"));
    assert_eq!(s.history, vec!["ann: /ask  what is rust? ".to_string()]);
    assert_eq!(s.total_messages, 1);
}

#[test]
fn files_round_trip() {
    let mut s = server();
    s.handshake(handshake("ann", "TOKEN1", None), now());
    let e = s.on_client_message(
        "ann",
        ClientToServer::FileUpload { filename: "/x/y z.txt".to_string(), data: "aGkh".to_string() },
        now(),
        99,
    );
    let id = generate_file_id(99);
    assert!(matches!(&e[0], ServerEffect::Log(LogLevel::Info, t) if t == &format!("User 'ann' uploaded 'yz.txt' (3 bytes) → id {}", id)));
    match &e[1] {
        ServerEffect::Broadcast(ServerToClient::FileAvailable { id: i, filename, size_bytes, sender, .. }) => {
            assert_eq!(i, &id);
            assert_eq!(filename, "yz.txt");
            assert_eq!(*size_bytes, 3);
            assert_eq!(sender, "ann");
        }
        _ => panic!("expected a file notice"),
    }
    let e = s.on_client_message("ann", ClientToServer::FileRequest { id: id.clone() }, now(), 0);
    assert!(matches!(&e[1], ServerEffect::Reply(ServerToClient::FileData { filename, data, .. }) if filename == "yz.txt" && data == "aGkh"));
    let e = s.on_client_message("ann", ClientToServer::FileRequest { id: "NOPE".to_string() }, now(), 0);
    assert!(matches!(&e[0], ServerEffect::Log(LogLevel::Warn, _)));
    assert!(matches!(&e[1], ServerEffect::Reply(ServerToClient::Error { message }) if message == "File with ID 'NOPE' not found"));
    let e = s.on_client_message(
        "ann",
        ClientToServer::FileUpload { filename: "bad".to_string(), data: "!!".to_string() },
        now(),
        1,
    );
    assert!(e.is_empty());
    assert_eq!(s.file_count(), 1);
    s.store_file(id.clone(), StoredFile { filename: "new".to_string(), data: vec![1] });
    assert_eq!(s.file_count(), 1);
    assert_eq!(s.find_file(&id).unwrap().filename, "new");
}

#[test]
fn other_client_messages() {
    let mut s = server();
    s.handshake(handshake("ann", "TOKEN1", None), now());
    let e = s.on_client_message("ann", ClientToServer::Ping, now(), 0);
    assert!(matches!(e.as_slice(), [ServerEffect::Reply(ServerToClient::Pong)]));
    let e = s.on_client_message("ann", ClientToServer::Typing { is_typing: true }, now(), 0);
    assert!(matches!(e.as_slice(), [ServerEffect::Broadcast(ServerToClient::UserTyping { sender, is_typing: true })] if sender == "ann"));
    let e = s.on_client_message("ann", ClientToServer::SetColor { color: Some("blue".to_string()) }, now(), 0);
    assert!(matches!(&e[0], ServerEffect::Log(LogLevel::Info, t) if t == "User 'ann' set color to 'blue'"));
    assert_eq!(s.color_of("ann").as_deref(), Some("blue"));
    let e = s.on_client_message("ann", ClientToServer::SetColor { color: None }, now(), 0);
    assert!(matches!(&e[0], ServerEffect::Log(LogLevel::Info, t) if t == "User 'ann' reset their color"));
    assert_eq!(s.color_of("ann"), None);
    let e = s.on_client_message("ann", handshake("x", "y", None), now(), 0);
    assert!(e.is_empty());
    let e = s.forward("ann", ServerToClient::Pong);
    assert!(matches!(e.as_slice(), [ServerEffect::Reply(ServerToClient::Pong)]));
}

#[test]
fn debug_logging() {
    let mut s = ServerState::new("Lobby".to_string(), "T".to_string(), true);
    s.handshake(handshake("ann", "T", None), now());
    let e = s.on_client_message("ann", ClientToServer::Ping, now(), 0);
    assert!(matches!(&e[0], ServerEffect::Log(LogLevel::Debug, t) if t == "Received from 'ann': Ping"));
    let e = s.forward("ann", ServerToClient::Pong);
    assert!(matches!(&e[0], ServerEffect::Log(LogLevel::Debug, t) if t == "Sending to 'ann': Pong"));
}

#[test]
fn assistant() {
    assert_eq!(api_base(None), "http://192.168.1.254:11434/v1");
    assert_eq!(api_base(Some("http://h/v1".to_string())), "http://h/v1");
    assert_eq!(models_url("http://h/v1//"), "http://h/v1/models");
    assert_eq!(completions_url("http://h/v1"), "http://h/v1/chat/completions");
    assert_eq!(choose_model(None), "llama3");
    assert_eq!(choose_model(Some(vec![])), "llama3");
    assert_eq!(choose_model(Some(vec!["qwen".to_string(), "x".to_string()])), "qwen");
    let mut s = server();
    s.handshake(handshake("ann", "TOKEN1", None), now());
    s.handshake(handshake("bob", "TOKEN1", None), now());
    s.on_client_message("ann", chat("hi"), now(), 0);
    s.on_client_message("bob", chat("yo"), now(), 0);
    let expected = "You are a helpful chat assistant named Ollama inside a terminal chatroom.\n\
         Room context:\n\
         - Server Name: Lobby\n\
         - Current Online Users: [ann, bob]\n\
         - User asking you: bob\n\n\
         Recent Chat History (for context):\n\
         ---\n\
         ann: hi\nbob: yo\n\
         ---\n\n\
         Instructions:\n\
         - Keep your response brief, max 200 characters or words.\n\
         - Do not output any <think> tags or internal thinking steps; respond directly and concisely.";
    assert_eq!(system_prompt(&s, "bob"), expected);
    let req = chat_request(&s, "llama3".to_string(), "bob", "why?".to_string());
    assert_eq!(req.messages[0].role, "system");
    assert_eq!(req.messages[0].content, expected);
    assert_eq!(req.messages[1].role, "user");
    assert_eq!(req.messages[1].content, "why?");
    let e = s.on_assistant_reply("bob", "llama3", AskReply::Answered(Some("  Because.\n".to_string())), now());
    assert_eq!(s.history.last().unwrap(), "Ollama: Because.");
    match &e[1] {
        ServerEffect::Broadcast(ServerToClient::Broadcast { sender, content, sender_color, .. }) => {
            assert_eq!(sender, "Ollama");
            assert_eq!(content, "Because.");
            assert_eq!(sender_color.as_deref(), Some("cyan"));
        }
        _ => panic!("expected the answer"),
    }
    assert_eq!(s.total_messages, 2);
    let e = s.on_assistant_reply("bob", "llama3", AskReply::Answered(None), now());
    assert!(matches!(&e[0], ServerEffect::Log(LogLevel::Warn, t) if t == "Ollama query for 'bob' returned empty choices using model 'llama3'"));
    let e = s.on_assistant_reply("bob", "m", AskReply::Unreachable("refused".to_string()), now());
    assert!(matches!(&e[1], ServerEffect::Broadcast(ServerToClient::Broadcast { content, .. }) if content == "Error: Failed to connect to Ollama: refused"));
    let e = s.on_assistant_reply("bob", "m", AskReply::Unparsable, now());
    assert!(matches!(&e[0], ServerEffect::Log(LogLevel::Error, t) if t == "Ollama query for 'bob' failed to parse response using model 'm'"));
}

#[test]
fn dashboard_texts() {
    let mut s = server();
    s.handshake(handshake("ann", "TOKEN1", None), now());
    assert_eq!(
        dashboard_header(&s, "0.0.0.0:8080", "00:01:02"),
        "  TermChat Server Dashboard  |  Host: 0.0.0.0:8080  |  Uptime: 00:01:02  |  Secure Token: TOKEN1"
    );
    s.on_client_message("ann", chat("x"), now(), 0);
    assert_eq!(
        dashboard_stats(&s),
        "  Online Users: 1   |   Files Shared: 0   |   Total Messages Exchanged: 1   |   AI Ollama Debug: DISABLED"
    );
    assert_eq!(active_users_title(3), " Active (3) ");
    assert_eq!(dashboard_chat_line("a\r\nb\nc\r\r\n"), "a b c\r ");
    assert_eq!(log_line_color("[12:00:00] [Error] boom"), TermColor::Red);
    assert_eq!(log_line_color("[12:00:00] [Warn] hmm"), TermColor::Yellow);
    assert_eq!(log_line_color("[12:00:00] [Debug] x"), TermColor::DarkGray);
    assert_eq!(log_line_color("[12:00:00] [Info] ok"), TermColor::Gray);
    assert_eq!(log_line("12:00:00", LogLevel::Warn, "careful"), "[12:00:00] [Warn] careful");
}

#[test]
fn tokens_are_six_uppercase_letters_or_digits() {
    for seed in [0u128, 3, 99, 1_700_000_000_000_000_000, u128::MAX - 5] {
        let t = generate_token(seed);
        assert_eq!(t.chars().count(), 6);
        assert!(t.chars().all(|c| c.is_ascii_uppercase() || c.is_ascii_digit()));
    }
}

#[test]
fn debug_text_shows_times_as_dates() {
    let t = Timestamp { secs: 1_700_000_000, nanos: 0 };
    let alert = ServerToClient::SystemAlert { content: "hi \"you\"".to_string(), timestamp: t };
    assert_eq!(
        debug_server_message(&alert),
        "SystemAlert { content: \"hi \\\"you\\\"\", timestamp: 2023-11-14T22:13:20Z }"
    );
    let b = ServerToClient::Broadcast {
        sender: "alice".to_string(),
        content: "hey".to_string(),
        timestamp: Timestamp { secs: 1_700_000_000, nanos: 5_000_000 },
        sender_color: Some("red".to_string()),
    };
    assert_eq!(
        debug_server_message(&b),
        "Broadcast { sender: \"alice\", content: \"hey\", timestamp: 2023-11-14T22:13:20.005Z, sender_color: Some(\"red\") }"
    );
    let n = ServerToClient::Notification {
        targets: vec!["a".to_string(), "b".to_string()],
        content: "c".to_string(),
        timestamp: t,
    };
    assert_eq!(
        debug_server_message(&n),
        "Notification { targets: [\"a\", \"b\"], content: \"c\", timestamp: 2023-11-14T22:13:20Z }"
    );
    let f = ServerToClient::FileAvailable {
        id: "X1".to_string(),
        filename: "f.txt".to_string(),
        size_bytes: 42,
        sender: "bob".to_string(),
        timestamp: t,
    };
    assert_eq!(
        debug_server_message(&f),
        "FileAvailable { id: \"X1\", filename: \"f.txt\", size_bytes: 42, sender: \"bob\", timestamp: 2023-11-14T22:13:20Z }"
    );
    assert_eq!(debug_server_message(&ServerToClient::Pong), "Pong");
    let empty = ServerToClient::Notification { targets: vec![], content: String::new(), timestamp: t };
    assert_eq!(
        debug_server_message(&empty),
        "Notification { targets: [], content: \"\", timestamp: 2023-11-14T22:13:20Z }"
    );
}
