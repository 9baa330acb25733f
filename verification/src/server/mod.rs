//! What the chat server decides: whom it admits, what each client message does to
//! the shared state, and what goes back to that client, to every client, and into the
//! server's log. The caller owns the sockets and the broadcast channel and carries out
//! the effects that each function returns.
pub mod dashboard;
pub mod ollama;
pub mod state;

use vstd::prelude::*;

use crate::client::tui::{get_hash_color as hash_color_of, hash_color, TermColor};
use crate::encoding::{
    base64_decoding, base64_encoding, decoded_bytes, encodable, encode_base64,
    file_name_or_default, file_name_or_default_of,
};
use crate::keyed::{drop_key, set_key, value_of};
use crate::protocol::{
    client_debug_text, debug_client_message, debug_server_message, opt_seq, server_debug_text,
    ClientMsgView, ClientToServer, ServerMsgView, ServerToClient, Timestamp,
};
use crate::text::{
    alphanumeric, ascii_upper, decimal, is_alphanumeric, join_strings, join_text, owned, push_char,
    push_decimal, push_two_digits, starts_with, str_eq, str_has_prefix, to_upper, trim,
    trimmed, two_digits, uppercase_of,
};
use state::{counted, joined, left, recorded, ServerState, ServerView, StoredFile};

verus! {

broadcast use vstd::string::group_string_axioms;

/// The level of a line in the server's log.
#[derive(Clone, Copy, Debug, PartialEq, Eq, Structural)]
pub enum LogLevel {
    Info,
    Warn,
    Error,
    Debug,
}

/// Something the server asks its caller to do for one connection.
#[derive(Clone, Debug)]
pub enum ServerEffect {
    /// Send a message to this client only.
    Reply(ServerToClient),
    /// Send a message to every connected client.
    Broadcast(ServerToClient),
    /// Start receiving broadcasts on this connection.
    Subscribe,
    /// Write a line to the server's log.
    Log(LogLevel, String),
    /// Ask the assistant `question` on behalf of `asker` (see `ollama`).
    Ask { question: String, asker: String },
    /// Close this connection for the given reason.
    Close(String),
}

/// A server effect as mathematical values.
pub enum ServerEffectView {
    Reply(ServerMsgView),
    Broadcast(ServerMsgView),
    Subscribe,
    Log(LogLevel, Seq<char>),
    Ask(Seq<char>, Seq<char>),
    Close(Seq<char>),
}

impl View for ServerEffect {
    type V = ServerEffectView;

    open spec fn view(&self) -> ServerEffectView {
        match self {
            ServerEffect::Reply(m) => ServerEffectView::Reply(m@),
            ServerEffect::Broadcast(m) => ServerEffectView::Broadcast(m@),
            ServerEffect::Subscribe => ServerEffectView::Subscribe,
            ServerEffect::Log(l, t) => ServerEffectView::Log(*l, t@),
            ServerEffect::Ask { question, asker } => ServerEffectView::Ask(question@, asker@),
            ServerEffect::Close(t) => ServerEffectView::Close(t@),
        }
    }
}

/// The views of a sequence of server effects.
pub open spec fn server_effects_view(v: Seq<ServerEffect>) -> Seq<ServerEffectView> {
    v.map_values(|e: ServerEffect| e@)
}

proof fn lemma_server_effects_concat(a: Seq<ServerEffect>, b: Seq<ServerEffect>)
    ensures
        server_effects_view(a + b) == server_effects_view(a) + server_effects_view(b),
{
    assert(server_effects_view(a + b) =~= server_effects_view(a) + server_effects_view(b));
}

/// A notice from the server, stamped `now`.
pub open spec fn notice(text: Seq<char>, now: Timestamp) -> ServerMsgView {
    ServerMsgView::SystemAlert(text, now)
}

/// An informational log line.
pub open spec fn info(text: Seq<char>) -> ServerEffectView {
    ServerEffectView::Log(LogLevel::Info, text)
}

// ---------------------------------------------------------------------------
// Names, ids and times
// ---------------------------------------------------------------------------

/// The characters that a shared file's name keeps.
pub open spec fn safe_char(c: char) -> bool {
    alphanumeric(c) || c == '.' || c == '-' || c == '_'
}

/// The characters of `s` that a file name keeps, in order.
pub open spec fn sanitized(s: Seq<char>) -> Seq<char>
    decreases s.len(),
{
    if s.len() == 0 {
        s
    } else {
        let r = sanitized(s.drop_last());
        if safe_char(s.last()) {
            r.push(s.last())
        } else {
            r
        }
    }
}

/// The name under which an uploaded file is shared: the last component of the name
/// the client gave (`file` when there is none), keeping only letters, digits, `.`,
/// `-` and `_`.
pub open spec fn shared_name(filename: Seq<char>) -> Seq<char> {
    sanitized(file_name_or_default(filename))
}

/// The name under which an uploaded file is shared (see `shared_name`).
pub fn sanitize_filename(filename: &str) -> (r: String)
    ensures
        r@ == shared_name(filename@),
{
    let base = file_name_or_default_of(filename);
    let cs = crate::text::chars_of(base.as_str());
    let mut r = String::new();
    let n = cs.len();
    for i in 0..n
        invariant
            n == cs@.len(),
            cs@ == base@,
            r@ == sanitized(cs@.take(i as int)),
    {
        assert(cs@.take(i + 1).drop_last() == cs@.take(i as int));
        let c = cs[i];
        if is_alphanumeric(c) || c == '.' || c == '-' || c == '_' {
            push_char(&mut r, c);
        }
    }
    assert(cs@.take(n as int) == cs@);
    r
}

/// The characters of file ids.
pub const FILE_ID_CHARSET: [char; 36] = [
    'A', 'B', 'C', 'D', 'E', 'F', 'G', 'H', 'I', 'J', 'K', 'L', 'M', 'N', 'O', 'P', 'Q', 'R',
    'S', 'T', 'U', 'V', 'W', 'X', 'Y', 'Z', '0', '1', '2', '3', '4', '5', '6', '7', '8', '9',
];

/// The characters of tokens, before they are put in upper case.
pub const TOKEN_CHARSET: [char; 36] = [
    'a', 'b', 'c', 'd', 'e', 'f', 'g', 'h', 'i', 'j', 'k', 'l', 'm', 'n', 'o', 'p', 'q', 'r',
    's', 't', 'u', 'v', 'w', 'x', 'y', 'z', '0', '1', '2', '3', '4', '5', '6', '7', '8', '9',
];

/// The generator's multiplier.
pub const LCG_MULTIPLIER: u128 = 6364136223846793005;

/// The increment of the generator for file ids.
pub const FILE_ID_INCREMENT: u128 = 1442695040888963407;

/// The next state of the linear congruential generator: `seed * LCG_MULTIPLIER + inc`
/// with wrapping 128-bit arithmetic.
pub open spec fn lcg_next(seed: u128, inc: u128) -> u128 {
    vstd::wrapping::u128_specs::wrapping_add(
        vstd::wrapping::u128_specs::wrapping_mul(seed, LCG_MULTIPLIER),
        inc,
    )
}

/// `n` characters of `charset`, each picked by the next state of the generator
/// (modulo the size of the set).
pub open spec fn lcg_chars(seed: u128, inc: u128, n: nat, charset: Seq<char>) -> Seq<char>
    decreases n,
{
    if n == 0 {
        seq![]
    } else {
        let s = lcg_next(seed, inc);
        seq![charset[(s as int) % 36]] + lcg_chars(s, inc, (n - 1) as nat, charset)
    }
}

fn lcg_text(seed: u128, inc: u128, n: usize, charset: &[char; 36]) -> (r: String)
    ensures
        r@ == lcg_chars(seed, inc, n as nat, charset@),
{
    let mut r = String::new();
    let mut s = seed;
    let mut i: usize = 0;
    while i < n
        invariant
            i <= n,
            lcg_chars(seed, inc, n as nat, charset@) == r@ + lcg_chars(
                s,
                inc,
                (n - i) as nat,
                charset@,
            ),
        decreases n - i,
    {
        let ghost before = r@;
        let ghost s0 = s;
        s = s.wrapping_mul(LCG_MULTIPLIER).wrapping_add(inc);
        let k = (s % 36) as usize;
        push_char(&mut r, charset[k]);
        assert(lcg_chars(s0, inc, (n - i) as nat, charset@) == seq![charset@[k as int]]
            + lcg_chars(s, inc, (n - i - 1) as nat, charset@));
        assert(before + (seq![charset@[k as int]] + lcg_chars(s, inc, (n - i - 1) as nat, charset@))
            =~= r@ + lcg_chars(s, inc, (n - i - 1) as nat, charset@));
        i = i + 1;
    }
    assert(lcg_chars(s, inc, 0, charset@) =~= seq![]);
    assert(r@ + seq![] =~= r@);
    r
}

/// The id of a shared file: eight upper-case letters and digits drawn from the
/// generator seeded with `seed` (the server seeds it with the time in nanoseconds).
pub open spec fn file_id_text(seed: u128) -> Seq<char> {
    lcg_chars(seed, FILE_ID_INCREMENT, 8, FILE_ID_CHARSET@)
}

/// A file id for the seed (see `file_id_text`).
pub fn generate_file_id(seed: u128) -> (r: String)
    ensures
        r@ == file_id_text(seed),
{
    lcg_text(seed, FILE_ID_INCREMENT, 8, &FILE_ID_CHARSET)
}

/// The token that clients must present: six letters and digits drawn from the
/// generator seeded with `seed` (increment one), in upper case.
pub open spec fn token_text(seed: u128) -> Seq<char> {
    uppercase_of(lcg_chars(seed, 1, 6, TOKEN_CHARSET@))
}

/// An upper-case ASCII letter or a digit.
pub open spec fn token_char(c: char) -> bool {
    ('A' <= c && c <= 'Z') || ('0' <= c && c <= '9')
}

proof fn lemma_token_charset()
    ensures
        forall|c: char| #[trigger] TOKEN_CHARSET@.contains(c) ==> ('a' <= c && c <= 'z') || (
        '0' <= c && c <= '9'),
{
    assert forall|c: char| #[trigger] TOKEN_CHARSET@.contains(c) implies ('a' <= c && c <= 'z')
        || ('0' <= c && c <= '9') by {
        let k = choose|k: int| 0 <= k < TOKEN_CHARSET@.len() && TOKEN_CHARSET@[k] == c;
        assert(TOKEN_CHARSET@ == seq![
            'a', 'b', 'c', 'd', 'e', 'f', 'g', 'h', 'i', 'j', 'k', 'l', 'm', 'n', 'o', 'p', 'q',
            'r', 's', 't', 'u', 'v', 'w', 'x', 'y', 'z', '0', '1', '2', '3', '4', '5', '6', '7',
            '8', '9',
        ]);
    }
}

/// A token for the seed (see `token_text`): six upper-case letters or digits.
pub fn generate_token(seed: u128) -> (r: String)
    ensures
        r@ == token_text(seed),
        r@.len() == 6,
        forall|i: int| 0 <= i < 6 ==> token_char(#[trigger] r@[i]),
{
    let t = lcg_text(seed, 1, 6, &TOKEN_CHARSET);
    proof {
        lemma_lcg_chars_shape(seed, 1, 6, TOKEN_CHARSET@);
        lemma_token_charset();
        assert forall|i: int| 0 <= i < t@.len() implies (#[trigger] t@[i] as u32) < 0x80 by {
            assert(TOKEN_CHARSET@.contains(t@[i]));
        }
    }
    let r = to_upper(t.as_str());
    proof {
        assert forall|i: int| 0 <= i < 6 implies token_char(#[trigger] r@[i]) by {
            assert(TOKEN_CHARSET@.contains(t@[i]));
            assert(r@[i] == ascii_upper(t@[i]));
        }
    }
    r
}

/// A duration in seconds as `HH:MM:SS` (hours may run past two digits).
pub open spec fn uptime_text(secs: nat) -> Seq<char> {
    two_digits(secs / 3600) + ":"@ + two_digits((secs % 3600) / 60) + ":"@ + two_digits(secs % 60)
}

/// The server's uptime as text (see `uptime_text`).
pub fn format_uptime(secs: u64) -> (r: String)
    ensures
        r@ == uptime_text(secs as nat),
{
    let mut r = String::new();
    push_two_digits(&mut r, secs / 3600);
    r.append(":");
    push_two_digits(&mut r, (secs % 3600) / 60);
    r.append(":");
    push_two_digits(&mut r, secs % 60);
    r
}

/// The color a user is listed in on the dashboard (the same as in the client).
pub fn get_hash_color(name: &str) -> (r: TermColor)
    ensures
        r == hash_color(name@),
{
    hash_color_of(name)
}


// ---------------------------------------------------------------------------
// Joining and leaving
// ---------------------------------------------------------------------------

/// What the first message of a connection does. A handshake with the server's token
/// admits its user: the user is online (with the chosen color, if any), the client is
/// welcomed, everyone hears of the new user (before this client starts receiving
/// broadcasts), and everyone gets the new list of users. Anything else is answered
/// with an error and the connection closes. The third part is the admitted user.
pub open spec fn handshake_step(s: ServerView, m: ClientMsgView, now: Timestamp) -> (
    ServerView,
    Seq<ServerEffectView>,
    Option<Seq<char>>,
) {
    match m {
        ClientMsgView::Handshake(name, token, color) => if token == s.token {
            let s1 = ServerView {
                users: joined(s.users, name),
                colors: match color {
                    Some(c) => set_key(s.colors, name, c),
                    None => s.colors,
                },
                ..s
            };
            (
                s1,
                seq![
                    info("'"@ + name + "' successfully authenticated"@),
                    ServerEffectView::Reply(ServerMsgView::Welcome(s.server_name)),
                    ServerEffectView::Broadcast(notice(name + " has joined the chat"@, now)),
                    ServerEffectView::Subscribe,
                    ServerEffectView::Broadcast(ServerMsgView::UsersList(s1.users)),
                ],
                Some(name),
            )
        } else {
            (
                s,
                seq![
                    ServerEffectView::Reply(ServerMsgView::Error("Invalid token provided"@)),
                    ServerEffectView::Close("Invalid token provided"@),
                ],
                None,
            )
        },
        _ => (
            s,
            seq![
                ServerEffectView::Reply(ServerMsgView::Error("First message must be a Handshake"@)),
                ServerEffectView::Close("First message must be a Handshake"@),
            ],
            None,
        ),
    }
}

/// What the end of a connection does: the user is offline, and everyone hears of it
/// and gets the new list of users.
pub open spec fn leave_step(s: ServerView, u: Seq<char>, now: Timestamp) -> (
    ServerView,
    Seq<ServerEffectView>,
) {
    let s1 = ServerView { users: left(s.users, u), ..s };
    (
        s1,
        seq![
            info("'"@ + u + "' disconnected"@),
            ServerEffectView::Broadcast(notice(u + " has left the chat"@, now)),
            ServerEffectView::Broadcast(ServerMsgView::UsersList(s1.users)),
        ],
    )
}

/// What a broadcast does on one connection: it goes to the client (logged first in
/// debug mode).
pub open spec fn forward_step(s: ServerView, u: Seq<char>, m: ServerMsgView) -> Seq<
    ServerEffectView,
> {
    if s.debug {
        seq![
            ServerEffectView::Log(LogLevel::Debug, "Sending to '"@ + u + "': "@ + server_debug_text(m)),
            ServerEffectView::Reply(m),
        ]
    } else {
        seq![ServerEffectView::Reply(m)]
    }
}

impl ServerState {
    fn users_list(&self) -> (r: ServerToClient)
        ensures
            r@ == ServerMsgView::UsersList(self@.users),
    {
        ServerToClient::UsersList { users: self.online_users() }
    }

    /// Handles the first message of a connection (see `handshake_step`); returns the
    /// effects and the admitted user.
    pub fn handshake(&mut self, msg: ClientToServer, now: Timestamp) -> (r: (
        Vec<ServerEffect>,
        Option<String>,
    ))
        requires
            old(self).wf(),
        ensures
            final(self).wf(),
            final(self)@ == handshake_step(old(self)@, msg@, now).0,
            server_effects_view(r.0@) == handshake_step(old(self)@, msg@, now).1,
            opt_seq(r.1) == handshake_step(old(self)@, msg@, now).2,
    {
        let ghost spec_r = handshake_step(old(self)@, msg@, now);
        match msg {
            ClientToServer::Handshake { name, token, color } => {
                if str_eq(token.as_str(), self.token.as_str()) {
                    self.add_user(name.as_str());
                    match &color {
                        Some(c) => self.set_color(name.as_str(), c.as_str()),
                        None => {},
                    }
                    let mut log = owned("'");
                    log.append(name.as_str());
                    log.append("' successfully authenticated");
                    let mut joined_text = name.clone();
                    joined_text.append(" has joined the chat");
                    let r = vec![
                        ServerEffect::Log(LogLevel::Info, log),
                        ServerEffect::Reply(
                            ServerToClient::Welcome { server_name: self.server_name.clone() },
                        ),
                        ServerEffect::Broadcast(
                            ServerToClient::SystemAlert { content: joined_text, timestamp: now },
                        ),
                        ServerEffect::Subscribe,
                        ServerEffect::Broadcast(self.users_list()),
                    ];
                    assert(self@ =~= spec_r.0);
                    assert(server_effects_view(r@) =~= spec_r.1);
                    (r, Some(name))
                } else {
                    let r = vec![
                        ServerEffect::Reply(
                            ServerToClient::Error { message: owned("Invalid token provided") },
                        ),
                        ServerEffect::Close(owned("Invalid token provided")),
                    ];
                    assert(server_effects_view(r@) =~= spec_r.1);
                    (r, None)
                }
            },
            _ => {
                let r = vec![
                    ServerEffect::Reply(
                        ServerToClient::Error {
                            message: owned("First message must be a Handshake"),
                        },
                    ),
                    ServerEffect::Close(owned("First message must be a Handshake")),
                ];
                assert(server_effects_view(r@) =~= spec_r.1);
                (r, None)
            },
        }
    }

    /// Handles the end of the connection of `user` (see `leave_step`).
    pub fn leave(&mut self, user: &str, now: Timestamp) -> (r: Vec<ServerEffect>)
        requires
            old(self).wf(),
        ensures
            final(self).wf(),
            final(self)@ == leave_step(old(self)@, user@, now).0,
            server_effects_view(r@) == leave_step(old(self)@, user@, now).1,
    {
        self.remove_user(user);
        let mut log = owned("'");
        log.append(user);
        log.append("' disconnected");
        let mut left_text = owned(user);
        left_text.append(" has left the chat");
        let r = vec![
            ServerEffect::Log(LogLevel::Info, log),
            ServerEffect::Broadcast(ServerToClient::SystemAlert { content: left_text, timestamp: now }),
            ServerEffect::Broadcast(self.users_list()),
        ];
        assert(server_effects_view(r@) =~= leave_step(old(self)@, user@, now).1);
        r
    }

    /// Handles a broadcast that reaches the connection of `user` (see `forward_step`).
    pub fn forward(&self, user: &str, msg: ServerToClient) -> (r: Vec<ServerEffect>)
        ensures
            server_effects_view(r@) == forward_step(self@, user@, msg@),
    {
        let r = if self.debug {
            let mut log = owned("Sending to '");
            log.append(user);
            log.append("': ");
            let d = debug_server_message(&msg);
            log.append(d.as_str());
            vec![ServerEffect::Log(LogLevel::Debug, log), ServerEffect::Reply(msg)]
        } else {
            vec![ServerEffect::Reply(msg)]
        };
        assert(server_effects_view(r@) =~= forward_step(self@, user@, msg@));
        r
    }
}


// ---------------------------------------------------------------------------
// Messages from an admitted client
// ---------------------------------------------------------------------------

/// The chat message that everyone gets for `content` from `u` (in the color `u`
/// chose, if any).
pub open spec fn broadcast_of(s: ServerView, u: Seq<char>, content: Seq<char>, now: Timestamp) -> ServerMsgView {
    ServerMsgView::Broadcast(u, content, now, value_of(s.colors, u))
}

/// The state after a chat message from `u`: it is counted and joins the history as
/// `user: content`.
pub open spec fn after_chat(s: ServerView, u: Seq<char>, content: Seq<char>) -> ServerView {
    ServerView {
        total_messages: counted(s.total_messages),
        history: recorded(s.history, u + ": "@ + content),
        ..s
    }
}

/// The question of `/ask <question>` (empty when the message is `/ask` alone).
pub open spec fn server_question(content: Seq<char>) -> Seq<char> {
    if trim(content) == "/ask"@ {
        seq![]
    } else {
        trim(content.skip("/ask "@.len() as int))
    }
}

/// What a chat message does. `/users` is answered with the list of online users;
/// `/ask <question>` goes to everyone and to the assistant (a blank question is
/// answered with the usage); anything else goes to everyone. A message that goes to
/// everyone is counted and joins the history.
pub open spec fn chat_message_step(s: ServerView, u: Seq<char>, content: Seq<char>, now: Timestamp) -> (
    ServerView,
    Seq<ServerEffectView>,
) {
    if trim(content) == "/users"@ {
        (
            s,
            seq![
                info("User '"@ + u + "' ran command '/users'"@),
                ServerEffectView::Reply(
                    notice("Online users: "@ + join_text(s.users, ", "@), now),
                ),
            ],
        )
    } else if starts_with(content, "/ask "@) || trim(content) == "/ask"@ {
        let q = server_question(content);
        if q.len() == 0 {
            (
                s,
                seq![
                    info("User '"@ + u + "' ran command '/ask' with empty question"@),
                    ServerEffectView::Reply(notice("Usage: /ask <your question>"@, now)),
                ],
            )
        } else {
            (
                after_chat(s, u, content),
                seq![
                    info("User '"@ + u + "' ran command '/ask' with question: '"@ + q + "'"@),
                    ServerEffectView::Broadcast(broadcast_of(s, u, content, now)),
                    ServerEffectView::Ask(q, u),
                ],
            )
        }
    } else {
        let b = broadcast_of(s, u, content, now);
        (
            after_chat(s, u, content),
            seq![info("User '"@ + u + "' sent chat message: '"@ + content + "'"@)] + (if s.debug {
                seq![
                    ServerEffectView::Log(
                        LogLevel::Debug,
                        "Broadcasting from '"@ + u + "': "@ + server_debug_text(b),
                    ),
                ]
            } else {
                seq![]
            }) + seq![ServerEffectView::Broadcast(b)],
        )
    }
}

/// The chat message that goes to everyone when `u` sends `content`.
pub open spec fn everyone_gets(s: ServerView, u: Seq<char>, content: Seq<char>, now: Timestamp) -> ServerEffectView {
    ServerEffectView::Broadcast(ServerMsgView::Broadcast(u, content, now, value_of(s.colors, u)))
}

/// A chat message goes to every client exactly when it is counted and recorded: a
/// message that changes the state is sent to everyone as `u`'s line, and a message sent
/// to everyone is counted and joins the history as `u: content`.
pub proof fn lemma_recorded_lines_are_broadcast(
    s: ServerView,
    u: Seq<char>,
    content: Seq<char>,
    now: Timestamp,
)
    ensures
        ({
            let (s2, e) = chat_message_step(s, u, content, now);
            &&& s2 != s ==> e.contains(everyone_gets(s, u, content, now))
            &&& e.contains(everyone_gets(s, u, content, now)) ==> s2.total_messages == counted(
                s.total_messages,
            ) && s2.history == recorded(s.history, u + ": "@ + content)
        }),
{
    let (s2, e) = chat_message_step(s, u, content, now);
    let b = everyone_gets(s, u, content, now);
    if trim(content) == "/users"@ {
        assert(!e.contains(b)) by {
            if e.contains(b) {
                let k = choose|k: int| 0 <= k < e.len() && e[k] == b;
                assert(k == 0 || k == 1);
            }
        }
    } else if starts_with(content, "/ask "@) || trim(content) == "/ask"@ {
        if server_question(content).len() == 0 {
            assert(!e.contains(b)) by {
                if e.contains(b) {
                    let k = choose|k: int| 0 <= k < e.len() && e[k] == b;
                    assert(k == 0 || k == 1);
                }
            }
        } else {
            assert(e[1] == b);
        }
    } else {
        assert(e[e.len() - 1] == b);
    }
}

/// A question to the assistant (`/ask` and a question that is not blank) is a chat
/// line like any other: the whole line goes to every client and joins the history,
/// and the question, trimmed, goes to the assistant.
pub proof fn lemma_ask_is_broadcast(s: ServerView, u: Seq<char>, content: Seq<char>, now: Timestamp, j: int)
    requires
        starts_with(content, "/ask "@),
        5 <= j < content.len(),
        !crate::text::is_whitespace(content[j]),
    ensures
        ({
            let (s2, e) = chat_message_step(s, u, content, now);
            &&& e.contains(everyone_gets(s, u, content, now))
            &&& e.contains(ServerEffectView::Ask(trim(content.skip(5)), u))
            &&& s2.history.len() > 0
            &&& s2.history.last() == u + ": "@ + content
        }),
{
    reveal_strlit("/ask ");
    reveal_strlit("/ask");
    reveal_strlit("/users");
    assert(content.take(5) == "/ask "@);
    assert(content[0] == content.take(5)[0] && content[1] == content.take(5)[1]);
    assert(content[0] == '/' && content[1] == 'a');
    assert(crate::text::trim_start(content) == content);
    crate::text::lemma_trim_end_keeps(content, j);
    let t = trim(content);
    assert(t == content.take(t.len() as int));
    assert(t.len() > 5);
    assert(t[1] == 'a');
    assert(t != "/users"@) by {
        if t == "/users"@ {
            assert("/users"@[1] == 'u');
        }
    }
    assert(t != "/ask"@);
    crate::text::lemma_trim_nonempty(content.skip(5), j - 5);
    let q = server_question(content);
    assert(q == trim(content.skip(5)));
    let (s2, e) = chat_message_step(s, u, content, now);
    assert(e[1] == everyone_gets(s, u, content, now));
    assert(e[2] == ServerEffectView::Ask(q, u));
}

/// What an upload does: valid base64 content is stored under a fresh id (from
/// `seed`) and its sanitized name, and everyone hears of the file; invalid content
/// is ignored.
pub open spec fn upload_step(
    s: ServerView,
    u: Seq<char>,
    filename: Seq<char>,
    data: Seq<char>,
    now: Timestamp,
    seed: u128,
) -> (ServerView, Seq<ServerEffectView>) {
    let safe = shared_name(filename);
    match base64_decoding(data) {
        Some(raw) => {
            let id = file_id_text(seed);
            (
                ServerView { files: set_key(s.files, id, (safe, raw)), ..s },
                seq![
                    info(
                        "User '"@ + u + "' uploaded '"@ + safe + "' ("@ + decimal(raw.len())
                            + " bytes) → id "@ + id,
                    ),
                    ServerEffectView::Broadcast(
                        ServerMsgView::FileAvailable(id, safe, raw.len() as usize, u, now),
                    ),
                ],
            )
        },
        None => (s, seq![]),
    }
}

/// Whether the file under `id`, if there is one, can be sent (its base64 text fits
/// in memory).
pub open spec fn request_sendable(s: ServerView, id: Seq<char>) -> bool {
    match value_of(s.files, id) {
        Some(f) => encodable(f.1.len() as int),
        None => true,
    }
}

/// What a file request does: the file goes back to the client as base64, or the
/// client hears that there is no such file.
pub open spec fn request_step(s: ServerView, u: Seq<char>, id: Seq<char>) -> Seq<ServerEffectView> {
    match value_of(s.files, id) {
        Some(f) => seq![
            info("User '"@ + u + "' downloaded file id "@ + id),
            ServerEffectView::Reply(ServerMsgView::FileData(id, f.0, base64_encoding(f.1))),
        ],
        None => seq![
            ServerEffectView::Log(
                LogLevel::Warn,
                "User '"@ + u + "' requested non-existent file id "@ + id,
            ),
            ServerEffectView::Reply(ServerMsgView::Error("File with ID '"@ + id + "' not found"@)),
        ],
    }
}

/// What a color choice does: the color is set (or reset), and everyone gets the
/// list of users again.
pub open spec fn color_step(s: ServerView, u: Seq<char>, color: Option<Seq<char>>) -> (
    ServerView,
    Seq<ServerEffectView>,
) {
    match color {
        Some(c) => (
            ServerView { colors: set_key(s.colors, u, c), ..s },
            seq![
                info("User '"@ + u + "' set color to '"@ + c + "'"@),
                ServerEffectView::Broadcast(ServerMsgView::UsersList(s.users)),
            ],
        ),
        None => (
            ServerView { colors: drop_key(s.colors, u), ..s },
            seq![
                info("User '"@ + u + "' reset their color"@),
                ServerEffectView::Broadcast(ServerMsgView::UsersList(s.users)),
            ],
        ),
    }
}

/// What a message from the admitted user `u` does (logged first in debug mode).
/// Typing notices go to everyone; a ping is answered with a pong; a second handshake
/// is ignored.
pub open spec fn client_message_step(
    s: ServerView,
    u: Seq<char>,
    m: ClientMsgView,
    now: Timestamp,
    seed: u128,
) -> (ServerView, Seq<ServerEffectView>) {
    let dbg = if s.debug {
        seq![
            ServerEffectView::Log(
                LogLevel::Debug,
                "Received from '"@ + u + "': "@ + client_debug_text(m),
            ),
        ]
    } else {
        seq![]
    };
    let step = match m {
        ClientMsgView::ChatMessage(content) => chat_message_step(s, u, content, now),
        ClientMsgView::Typing(t) => (
            s,
            seq![ServerEffectView::Broadcast(ServerMsgView::UserTyping(u, t))],
        ),
        ClientMsgView::Ping => (s, seq![ServerEffectView::Reply(ServerMsgView::Pong)]),
        ClientMsgView::FileUpload(filename, data) => upload_step(s, u, filename, data, now, seed),
        ClientMsgView::FileRequest(id) => (s, request_step(s, u, id)),
        ClientMsgView::SetColor(c) => color_step(s, u, c),
        ClientMsgView::Handshake(_, _, _) => (s, seq![]),
    };
    (step.0, dbg + step.1)
}

/// Whether a message from a client can be handled: a file it requests can be sent.
pub open spec fn message_sendable(s: ServerView, m: ClientMsgView) -> bool {
    match m {
        ClientMsgView::FileRequest(id) => request_sendable(s, id),
        _ => true,
    }
}

impl ServerState {
    fn chat_broadcast(&self, user: &str, content: String, now: Timestamp) -> (r: ServerToClient)
        ensures
            r@ == broadcast_of(self@, user@, content@, now),
    {
        ServerToClient::Broadcast {
            sender: owned(user),
            content,
            timestamp: now,
            sender_color: self.color_of(user),
        }
    }

    fn note_chat(&mut self, user: &str, content: &str)
        requires
            old(self).wf(),
        ensures
            final(self).wf(),
            final(self)@ == after_chat(old(self)@, user@, content@),
    {
        self.count_message();
        let mut line = owned(user);
        line.append(": ");
        line.append(content);
        self.record_line(line);
        assert(self@ =~= after_chat(old(self)@, user@, content@));
    }

    fn on_chat(&mut self, user: &str, content: String, now: Timestamp) -> (r: Vec<ServerEffect>)
        requires
            old(self).wf(),
        ensures
            final(self).wf(),
            final(self)@ == chat_message_step(old(self)@, user@, content@, now).0,
            server_effects_view(r@) == chat_message_step(old(self)@, user@, content@, now).1,
    {
        let ghost spec_r = chat_message_step(old(self)@, user@, content@, now);
        let t = trimmed(content.as_str());
        let ts = crate::text::string_of(t.as_slice());
        if str_eq(ts.as_str(), "/users") {
            let mut log = owned("User '");
            log.append(user);
            log.append("' ran command '/users'");
            let users = self.online_users();
            let mut text = owned("Online users: ");
            let list = join_strings(users.as_slice(), ", ");
            text.append(list.as_str());
            let r = vec![
                ServerEffect::Log(LogLevel::Info, log),
                ServerEffect::Reply(ServerToClient::SystemAlert { content: text, timestamp: now }),
            ];
            assert(server_effects_view(r@) =~= spec_r.1);
            return r;
        }
        if str_has_prefix(content.as_str(), "/ask ") || str_eq(ts.as_str(), "/ask") {
            let q = if str_eq(ts.as_str(), "/ask") {
                String::new()
            } else {
                let cs = crate::text::chars_of(content.as_str());
                let pv = crate::text::chars_of("/ask ");
                let rest = crate::text::sub_chars(cs.as_slice(), pv.len(), cs.len());
                assert(rest@ == content@.skip("/ask "@.len() as int));
                let qt = crate::text::trim_chars(rest.as_slice());
                crate::text::string_of(qt.as_slice())
            };
            if q.as_str().is_empty() {
                let mut log = owned("User '");
                log.append(user);
                log.append("' ran command '/ask' with empty question");
                let r = vec![
                    ServerEffect::Log(LogLevel::Info, log),
                    ServerEffect::Reply(
                        ServerToClient::SystemAlert {
                            content: owned("Usage: /ask <your question>"),
                            timestamp: now,
                        },
                    ),
                ];
                assert(server_effects_view(r@) =~= spec_r.1);
                return r;
            }
            let mut log = owned("User '");
            log.append(user);
            log.append("' ran command '/ask' with question: '");
            log.append(q.as_str());
            log.append("'");
            let b = self.chat_broadcast(user, content.clone(), now);
            self.note_chat(user, content.as_str());
            let r = vec![
                ServerEffect::Log(LogLevel::Info, log),
                ServerEffect::Broadcast(b),
                ServerEffect::Ask { question: q, asker: owned(user) },
            ];
            assert(server_effects_view(r@) =~= spec_r.1);
            return r;
        }
        let mut log = owned("User '");
        log.append(user);
        log.append("' sent chat message: '");
        log.append(content.as_str());
        log.append("'");
        let b = self.chat_broadcast(user, content.clone(), now);
        let debug = self.debug;
        self.note_chat(user, content.as_str());
        let mut r = vec![ServerEffect::Log(LogLevel::Info, log)];
        if debug {
            let mut d = owned("Broadcasting from '");
            d.append(user);
            d.append("': ");
            let dt = debug_server_message(&b);
            d.append(dt.as_str());
            r.push(ServerEffect::Log(LogLevel::Debug, d));
        }
        r.push(ServerEffect::Broadcast(b));
        assert(server_effects_view(r@) =~= spec_r.1);
        r
    }

    fn on_upload(&mut self, user: &str, filename: &str, data: &str, now: Timestamp, seed: u128) -> (r:
        Vec<ServerEffect>)
        requires
            old(self).wf(),
        ensures
            final(self).wf(),
            final(self)@ == upload_step(old(self)@, user@, filename@, data@, now, seed).0,
            server_effects_view(r@) == upload_step(old(self)@, user@, filename@, data@, now, seed).1,
    {
        let ghost spec_r = upload_step(old(self)@, user@, filename@, data@, now, seed);
        let safe = sanitize_filename(filename);
        match decoded_bytes(data) {
            Some(raw) => {
                let id = generate_file_id(seed);
                let size = raw.len();
                let mut log = owned("User '");
                log.append(user);
                log.append("' uploaded '");
                log.append(safe.as_str());
                log.append("' (");
                push_decimal(&mut log, size as u64);
                log.append(" bytes) → id ");
                log.append(id.as_str());
                let alert = ServerToClient::FileAvailable {
                    id: id.clone(),
                    filename: safe.clone(),
                    size_bytes: size,
                    sender: owned(user),
                    timestamp: now,
                };
                self.store_file(id, StoredFile { filename: safe, data: raw });
                let r = vec![ServerEffect::Log(LogLevel::Info, log), ServerEffect::Broadcast(alert)];
                assert(server_effects_view(r@) =~= spec_r.1);
                assert(self@ =~= spec_r.0);
                r
            },
            None => {
                let r: Vec<ServerEffect> = Vec::new();
                assert(server_effects_view(r@) =~= spec_r.1);
                r
            },
        }
    }

    fn on_request(&self, user: &str, id: String) -> (r: Vec<ServerEffect>)
        requires
            request_sendable(self@, id@),
        ensures
            server_effects_view(r@) == request_step(self@, user@, id@),
    {
        match self.find_file(id.as_str()) {
            Some(f) => {
                let mut log = owned("User '");
                log.append(user);
                log.append("' downloaded file id ");
                log.append(id.as_str());
                let data = encode_base64(f.data.as_slice());
                let r = vec![
                    ServerEffect::Log(LogLevel::Info, log),
                    ServerEffect::Reply(ServerToClient::FileData { id, filename: f.filename, data }),
                ];
                assert(server_effects_view(r@) =~= request_step(self@, user@, id@));
                r
            },
            None => {
                let mut log = owned("User '");
                log.append(user);
                log.append("' requested non-existent file id ");
                log.append(id.as_str());
                let mut text = owned("File with ID '");
                text.append(id.as_str());
                text.append("' not found");
                let r = vec![
                    ServerEffect::Log(LogLevel::Warn, log),
                    ServerEffect::Reply(ServerToClient::Error { message: text }),
                ];
                assert(server_effects_view(r@) =~= request_step(self@, user@, id@));
                r
            },
        }
    }

    fn on_color(&mut self, user: &str, color: Option<String>) -> (r: Vec<ServerEffect>)
        requires
            old(self).wf(),
        ensures
            final(self).wf(),
            final(self)@ == color_step(old(self)@, user@, opt_seq(color)).0,
            server_effects_view(r@) == color_step(old(self)@, user@, opt_seq(color)).1,
    {
        let ghost spec_r = color_step(old(self)@, user@, opt_seq(color));
        let mut log = owned("User '");
        log.append(user);
        match color {
            Some(c) => {
                log.append("' set color to '");
                log.append(c.as_str());
                log.append("'");
                self.set_color(user, c.as_str());
            },
            None => {
                log.append("' reset their color");
                self.clear_color(user);
            },
        }
        let r = vec![ServerEffect::Log(LogLevel::Info, log), ServerEffect::Broadcast(self.users_list())];
        assert(server_effects_view(r@) =~= spec_r.1);
        r
    }

    /// Handles a message from the admitted user `user`, received at `now`; `seed`
    /// seeds the id of an uploaded file (see `client_message_step`).
    pub fn on_client_message(
        &mut self,
        user: &str,
        msg: ClientToServer,
        now: Timestamp,
        seed: u128,
    ) -> (r: Vec<ServerEffect>)
        requires
            old(self).wf(),
            message_sendable(old(self)@, msg@),
        ensures
            final(self).wf(),
            final(self)@ == client_message_step(old(self)@, user@, msg@, now, seed).0,
            server_effects_view(r@) == client_message_step(old(self)@, user@, msg@, now, seed).1,
    {
        let ghost spec_r = client_message_step(old(self)@, user@, msg@, now, seed);
        let mut r: Vec<ServerEffect> = Vec::new();
        if self.debug {
            let mut d = owned("Received from '");
            d.append(user);
            d.append("': ");
            let dt = debug_client_message(&msg);
            d.append(dt.as_str());
            r.push(ServerEffect::Log(LogLevel::Debug, d));
        }
        let ghost first = r@;
        assert(server_effects_view(first) =~= if old(self)@.debug {
            seq![
                ServerEffectView::Log(
                    LogLevel::Debug,
                    "Received from '"@ + user@ + "': "@ + client_debug_text(msg@),
                ),
            ]
        } else {
            seq![]
        });
        let mut more = match msg {
            ClientToServer::ChatMessage { content } => self.on_chat(user, content, now),
            ClientToServer::Typing { is_typing } => {
                let m = vec![
                    ServerEffect::Broadcast(
                        ServerToClient::UserTyping { sender: owned(user), is_typing },
                    ),
                ];
                assert(server_effects_view(m@) =~= seq![
                    ServerEffectView::Broadcast(ServerMsgView::UserTyping(user@, is_typing)),
                ]);
                m
            },
            ClientToServer::Ping => {
                let m = vec![ServerEffect::Reply(ServerToClient::Pong)];
                assert(server_effects_view(m@) =~= seq![ServerEffectView::Reply(ServerMsgView::Pong)]);
                m
            },
            ClientToServer::FileUpload { filename, data } => self.on_upload(
                user,
                filename.as_str(),
                data.as_str(),
                now,
                seed,
            ),
            ClientToServer::FileRequest { id } => self.on_request(user, id),
            ClientToServer::SetColor { color } => self.on_color(user, color),
            ClientToServer::Handshake { .. } => {
                let m: Vec<ServerEffect> = Vec::new();
                assert(server_effects_view(m@) =~= seq![]);
                m
            },
        };
        let ghost more_v = more@;
        r.append(&mut more);
        proof {
            lemma_server_effects_concat(first, more_v);
        }
        r
    }
}


// ---------------------------------------------------------------------------
// Laws
// ---------------------------------------------------------------------------

/// Only the server's token admits a client, and an admitted user is online; a refused
/// client leaves the state as it was.
pub proof fn lemma_admission(s: ServerView, m: ClientMsgView, now: Timestamp)
    ensures
        handshake_step(s, m, now).2 is Some <==> (m matches ClientMsgView::Handshake(
            _,
            token,
            _,
        ) && token == s.token),
        handshake_step(s, m, now).2 matches Some(u) ==> handshake_step(
            s,
            m,
            now,
        ).0.users.contains(u),
        handshake_step(s, m, now).2 is None ==> handshake_step(s, m, now).0 == s,
{
    if let ClientMsgView::Handshake(name, token, _) = m {
        if token == s.token && !s.users.contains(name) {
            assert(s.users.push(name)[s.users.len() as int] == name);
        }
    }
}

/// A user who leaves is no longer online, and joining twice lists a user once.
pub proof fn lemma_join_leave(users: Seq<Seq<char>>, u: Seq<char>)
    requires
        users.no_duplicates(),
    ensures
        joined(joined(users, u), u) == joined(users, u),
        !left(joined(users, u), u).contains(u),
        left(joined(users, u), u).no_duplicates(),
{
    let j = joined(users, u);
    if !users.contains(u) {
        assert(j[users.len() as int] == u);
        assert(j.no_duplicates()) by {
            assert forall|a: int, b: int| 0 <= a < b < j.len() implies j[a] != j[b] by {
                if b == users.len() {
                    assert(users[a] == j[a]);
                }
            }
        }
    }
    state::lemma_left_no_duplicates(j, u);
}

/// A file can be had back as it was shared: after an upload of valid base64 content,
/// a request for the new id answers with the uploaded bytes (as base64) under the
/// shared name.
pub proof fn lemma_upload_then_request(
    s: ServerView,
    u: Seq<char>,
    filename: Seq<char>,
    data: Seq<char>,
    now: Timestamp,
    seed: u128,
    v: Seq<char>,
)
    requires
        base64_decoding(data) is Some,
    ensures
        request_step(upload_step(s, u, filename, data, now, seed).0, v, file_id_text(seed))
            == seq![
            info("User '"@ + v + "' downloaded file id "@ + file_id_text(seed)),
            ServerEffectView::Reply(
                ServerMsgView::FileData(
                    file_id_text(seed),
                    shared_name(filename),
                    base64_encoding(base64_decoding(data)->0),
                ),
            ),
        ],
{
    crate::keyed::lemma_set_key(
        s.files,
        file_id_text(seed),
        (shared_name(filename), base64_decoding(data)->0),
        file_id_text(seed),
    );
}

/// A user's color is used for their messages until they reset it.
pub proof fn lemma_color_choice(s: ServerView, u: Seq<char>, c: Seq<char>, content: Seq<char>, now: Timestamp)
    ensures
        broadcast_of(color_step(s, u, Some(c)).0, u, content, now) == ServerMsgView::Broadcast(
            u,
            content,
            now,
            Some(c),
        ),
        broadcast_of(color_step(s, u, None).0, u, content, now) == ServerMsgView::Broadcast(
            u,
            content,
            now,
            None,
        ),
{
    crate::keyed::lemma_set_key(s.colors, u, c, u);
    crate::keyed::lemma_drop_key_value_of(s.colors, u, u);
}


/// The generator gives `n` characters, each one of the set it draws from.
pub proof fn lemma_lcg_chars_shape(seed: u128, inc: u128, n: nat, charset: Seq<char>)
    requires
        charset.len() == 36,
    ensures
        lcg_chars(seed, inc, n, charset).len() == n,
        forall|i: int|
            0 <= i < n ==> charset.contains(#[trigger] lcg_chars(seed, inc, n, charset)[i]),
    decreases n,
{
    if n > 0 {
        let s = lcg_next(seed, inc);
        lemma_lcg_chars_shape(s, inc, (n - 1) as nat, charset);
        let rest = lcg_chars(s, inc, (n - 1) as nat, charset);
        let k = (s as int) % 36;
        assert(charset[k] == charset[k]);
        assert forall|i: int| 0 <= i < n implies charset.contains(
            #[trigger] lcg_chars(seed, inc, n, charset)[i],
        ) by {
            if i == 0 {
                assert(lcg_chars(seed, inc, n, charset)[0] == charset[k]);
            } else {
                assert(lcg_chars(seed, inc, n, charset)[i] == rest[i - 1]);
            }
        }
    }
}

/// File ids are eight characters of `FILE_ID_CHARSET`, tokens six of `TOKEN_CHARSET`
/// before they are put in upper case.
pub proof fn lemma_id_shapes(seed: u128)
    ensures
        file_id_text(seed).len() == 8,
        forall|i: int| 0 <= i < 8 ==> FILE_ID_CHARSET@.contains(#[trigger] file_id_text(seed)[i]),
        lcg_chars(seed, 1, 6, TOKEN_CHARSET@).len() == 6,
{
    lemma_lcg_chars_shape(seed, FILE_ID_INCREMENT, 8, FILE_ID_CHARSET@);
    lemma_lcg_chars_shape(seed, 1, 6, TOKEN_CHARSET@);
}

} // verus!
