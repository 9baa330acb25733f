//! The messages that the client and the server exchange, one JSON object per line.
use vstd::prelude::*;

verus! {

/// A point in time, as seconds and nanoseconds since the Unix epoch (UTC).
#[derive(Clone, Copy, Debug, PartialEq, Eq, Structural)]
pub struct Timestamp {
    pub secs: i64,
    pub nanos: u32,
}

/// A message from a client to the server.
#[derive(Clone, Debug)]
pub enum ClientToServer {
    Handshake { name: String, token: String, color: Option<String> },
    ChatMessage { content: String },
    Typing { is_typing: bool },
    Ping,
    FileUpload { filename: String, data: String },
    FileRequest { id: String },
    SetColor { color: Option<String> },
}

/// A message from the server to a client.
#[derive(Clone, Debug)]
pub enum ServerToClient {
    Welcome { server_name: String },
    Broadcast {
        sender: String,
        content: String,
        timestamp: Timestamp,
        sender_color: Option<String>,
    },
    Notification { targets: Vec<String>, content: String, timestamp: Timestamp },
    SystemAlert { content: String, timestamp: Timestamp },
    UserTyping { sender: String, is_typing: bool },
    Error { message: String },
    UsersList { users: Vec<String> },
    Pong,
    FileAvailable {
        id: String,
        filename: String,
        size_bytes: usize,
        sender: String,
        timestamp: Timestamp,
    },
    FileData { id: String, filename: String, data: String },
}

/// The text that a message carries: the content of a chat message, notification or
/// alert, the text of an error, and nothing for the other kinds.
pub open spec fn message_text(m: ServerToClient) -> Seq<char> {
    match m {
        ServerToClient::Broadcast { content, .. } => content@,
        ServerToClient::Notification { content, .. } => content@,
        ServerToClient::SystemAlert { content, .. } => content@,
        ServerToClient::Error { message } => message@,
        _ => Seq::empty(),
    }
}

impl ServerToClient {
    /// The text that the message carries (see `message_text`).
    pub fn content(self) -> (r: String)
        ensures
            r@ == message_text(self),
    {
        match self {
            ServerToClient::Broadcast { content, .. } => content,
            ServerToClient::Notification { content, .. } => content,
            ServerToClient::SystemAlert { content, .. } => content,
            ServerToClient::Error { message } => message,
            _ => String::new(),
        }
    }
}

/// An optional string as optional text.
pub open spec fn opt_seq(o: Option<String>) -> Option<Seq<char>> {
    match o {
        Some(s) => Some(s@),
        None => None,
    }
}

/// The texts of a sequence of strings.
pub open spec fn texts(v: Seq<String>) -> Seq<Seq<char>> {
    v.map_values(|s: String| s@)
}

/// A client message as mathematical values.
pub enum ClientMsgView {
    Handshake(Seq<char>, Seq<char>, Option<Seq<char>>),
    ChatMessage(Seq<char>),
    Typing(bool),
    Ping,
    FileUpload(Seq<char>, Seq<char>),
    FileRequest(Seq<char>),
    SetColor(Option<Seq<char>>),
}

impl View for ClientToServer {
    type V = ClientMsgView;

    open spec fn view(&self) -> ClientMsgView {
        match self {
            ClientToServer::Handshake { name, token, color } => ClientMsgView::Handshake(
                name@,
                token@,
                opt_seq(*color),
            ),
            ClientToServer::ChatMessage { content } => ClientMsgView::ChatMessage(content@),
            ClientToServer::Typing { is_typing } => ClientMsgView::Typing(*is_typing),
            ClientToServer::Ping => ClientMsgView::Ping,
            ClientToServer::FileUpload { filename, data } => ClientMsgView::FileUpload(
                filename@,
                data@,
            ),
            ClientToServer::FileRequest { id } => ClientMsgView::FileRequest(id@),
            ClientToServer::SetColor { color } => ClientMsgView::SetColor(opt_seq(*color)),
        }
    }
}

/// A server message as mathematical values.
pub enum ServerMsgView {
    Welcome(Seq<char>),
    Broadcast(Seq<char>, Seq<char>, Timestamp, Option<Seq<char>>),
    Notification(Seq<Seq<char>>, Seq<char>, Timestamp),
    SystemAlert(Seq<char>, Timestamp),
    UserTyping(Seq<char>, bool),
    Error(Seq<char>),
    UsersList(Seq<Seq<char>>),
    Pong,
    FileAvailable(Seq<char>, Seq<char>, usize, Seq<char>, Timestamp),
    FileData(Seq<char>, Seq<char>, Seq<char>),
}

impl View for ServerToClient {
    type V = ServerMsgView;

    open spec fn view(&self) -> ServerMsgView {
        match self {
            ServerToClient::Welcome { server_name } => ServerMsgView::Welcome(server_name@),
            ServerToClient::Broadcast { sender, content, timestamp, sender_color } =>
                ServerMsgView::Broadcast(sender@, content@, *timestamp, opt_seq(*sender_color)),
            ServerToClient::Notification { targets, content, timestamp } =>
                ServerMsgView::Notification(texts(targets@), content@, *timestamp),
            ServerToClient::SystemAlert { content, timestamp } => ServerMsgView::SystemAlert(
                content@,
                *timestamp,
            ),
            ServerToClient::UserTyping { sender, is_typing } => ServerMsgView::UserTyping(
                sender@,
                *is_typing,
            ),
            ServerToClient::Error { message } => ServerMsgView::Error(message@),
            ServerToClient::UsersList { users } => ServerMsgView::UsersList(texts(users@)),
            ServerToClient::Pong => ServerMsgView::Pong,
            ServerToClient::FileAvailable { id, filename, size_bytes, sender, timestamp } =>
                ServerMsgView::FileAvailable(id@, filename@, *size_bytes, sender@, *timestamp),
            ServerToClient::FileData { id, filename, data } => ServerMsgView::FileData(
                id@,
                filename@,
                data@,
            ),
        }
    }
}

/// The views of a sequence of server messages.
pub open spec fn server_msgs_view(v: Seq<ServerToClient>) -> Seq<ServerMsgView> {
    v.map_values(|m: ServerToClient| m@)
}

/// What the derived `Debug` formatting (`{:?}`) writes for a client message.
pub uninterp spec fn client_debug_text(m: ClientMsgView) -> Seq<char>;

/// Formats a client message with `format!("{:?}", ..)`. Claimed: the text is
/// `client_debug_text` of the message, a function of the message alone.
#[verifier::external_body]
pub(crate) fn debug_client_message(m: &ClientToServer) -> (r: String)
    ensures
        r@ == client_debug_text(m@),
{
    format!("{:?}", m)
}

/// What the derived `Debug` formatting (`{:?}`) writes for a server message.
pub uninterp spec fn derived_debug_text(m: ServerMsgView) -> Seq<char>;

/// What `{:?}` writes for a text: the text in double quotes, escaped as `str`'s `Debug`
/// escapes it.
pub uninterp spec fn quoted_text(s: Seq<char>) -> Seq<char>;

/// What `{:?}` writes for chrono's `DateTime<Utc>` at `secs` seconds and `nanos`
/// nanoseconds after the Unix epoch; `None` where chrono cannot represent that instant.
pub uninterp spec fn utc_debug_text(secs: i64, nanos: u32) -> Option<Seq<char>>;

/// Formats a server message with `format!("{:?}", ..)`, the derived `Debug`. Claimed:
/// the text is `derived_debug_text` of the message, a function of the message alone.
#[verifier::external_body]
fn derived_debug_server(m: &ServerToClient) -> (r: String)
    ensures
        r@ == derived_debug_text(m@),
{
    format!("{:?}", m)
}

/// Formats a text with `format!("{:?}", ..)`. Claimed: the result is `quoted_text` of
/// the text, a function of the text alone.
#[verifier::external_body]
fn debug_quoted(s: &str) -> (r: String)
    ensures
        r@ == quoted_text(s@),
{
    format!("{:?}", s)
}

/// Calls chrono's `DateTime::from_timestamp(secs, nanos)` and formats the instant with
/// `format!("{:?}", ..)`. Claimed: the result is `utc_debug_text(secs, nanos)`, a
/// function of the two numbers alone (UTC has no local rules).
#[verifier::external_body]
fn debug_utc(secs: i64, nanos: u32) -> (r: Option<String>)
    ensures
        opt_seq(r) == utc_debug_text(secs, nanos),
{
    match chrono::DateTime::from_timestamp(secs, nanos) {
        Some(t) => Some(format!("{:?}", t)),
        None => None,
    }
}

/// What `{:?}` writes for an optional text.
pub open spec fn debug_opt(o: Option<Seq<char>>) -> Seq<char> {
    match o {
        Some(t) => "Some("@ + quoted_text(t) + ")"@,
        None => "None"@,
    }
}

/// The quoted texts of a list, separated by `", "`.
pub open spec fn debug_items(v: Seq<Seq<char>>) -> Seq<char>
    decreases v.len(),
{
    if v.len() == 0 {
        seq![]
    } else if v.len() == 1 {
        quoted_text(v[0])
    } else {
        debug_items(v.drop_last()) + ", "@ + quoted_text(v.last())
    }
}

/// What `{:?}` writes for a list of texts.
pub open spec fn debug_list(v: Seq<Seq<char>>) -> Seq<char> {
    "["@ + debug_items(v) + "]"@
}

/// The debug text of a server message, as the messages with a time stamp print it:
/// the fields as `Debug` writes them, the time as chrono's date and time. The other
/// kinds, and an instant that chrono cannot represent, print as the derived `Debug`
/// writes them.
pub open spec fn server_debug_text(m: ServerMsgView) -> Seq<char> {
    match m {
        ServerMsgView::Broadcast(sender, content, ts, color) => match utc_debug_text(ts.secs, ts.nanos) {
            Some(t) => "Broadcast { sender: "@ + quoted_text(sender) + ", content: "@ + quoted_text(
                content,
            ) + ", timestamp: "@ + t + ", sender_color: "@ + debug_opt(color) + " }"@,
            None => derived_debug_text(m),
        },
        ServerMsgView::Notification(targets, content, ts) => match utc_debug_text(ts.secs, ts.nanos) {
            Some(t) => "Notification { targets: "@ + debug_list(targets) + ", content: "@
                + quoted_text(content) + ", timestamp: "@ + t + " }"@,
            None => derived_debug_text(m),
        },
        ServerMsgView::SystemAlert(content, ts) => match utc_debug_text(ts.secs, ts.nanos) {
            Some(t) => "SystemAlert { content: "@ + quoted_text(content) + ", timestamp: "@ + t
                + " }"@,
            None => derived_debug_text(m),
        },
        ServerMsgView::FileAvailable(id, filename, size, sender, ts) => match utc_debug_text(
            ts.secs,
            ts.nanos,
        ) {
            Some(t) => "FileAvailable { id: "@ + quoted_text(id) + ", filename: "@ + quoted_text(
                filename,
            ) + ", size_bytes: "@ + crate::text::decimal(size as nat) + ", sender: "@
                + quoted_text(sender) + ", timestamp: "@ + t + " }"@,
            None => derived_debug_text(m),
        },
        _ => derived_debug_text(m),
    }
}

fn append_quoted(r: &mut String, s: &str)
    ensures
        final(r)@ == old(r)@ + quoted_text(s@),
{
    let q = debug_quoted(s);
    r.append(q.as_str());
}

fn append_opt(r: &mut String, o: &Option<String>)
    ensures
        final(r)@ == old(r)@ + debug_opt(opt_seq(*o)),
{
    match o {
        Some(t) => {
            r.append("Some(");
            append_quoted(r, t.as_str());
            r.append(")");
        },
        None => r.append("None"),
    }
}

fn append_list(r: &mut String, v: &Vec<String>)
    ensures
        final(r)@ == old(r)@ + debug_list(texts(v@)),
{
    let ghost start = r@;
    r.append("[");
    let n = v.len();
    for i in 0..n
        invariant
            n == v@.len(),
            r@ == start + "["@ + debug_items(texts(v@).take(i as int)),
    {
        proof {
            let tv = texts(v@);
            assert(tv.take(i + 1).drop_last() =~= tv.take(i as int));
        }
        if i > 0 {
            r.append(", ");
        }
        append_quoted(r, v[i].as_str());
        proof {
            let tv = texts(v@);
            assert(tv.take(i + 1).last() == v@[i as int]@);
            if i == 0 {
                assert(tv.take(1) =~= seq![v@[0]@]);
            }
        }
    }
    assert(texts(v@).take(n as int) =~= texts(v@));
    r.append("]");
}

/// The debug text of a server message (see `server_debug_text`).
pub fn debug_server_message(m: &ServerToClient) -> (r: String)
    ensures
        r@ == server_debug_text(m@),
{
    let ts = match m {
        ServerToClient::Broadcast { timestamp, .. } => Some(*timestamp),
        ServerToClient::Notification { timestamp, .. } => Some(*timestamp),
        ServerToClient::SystemAlert { timestamp, .. } => Some(*timestamp),
        ServerToClient::FileAvailable { timestamp, .. } => Some(*timestamp),
        _ => None,
    };
    let time = match ts {
        Some(t) => debug_utc(t.secs, t.nanos),
        None => None,
    };
    let t = match time {
        Some(t) => t,
        None => {
            return derived_debug_server(m);
        },
    };
    let mut r = String::new();
    match m {
        ServerToClient::Broadcast { sender, content, sender_color, .. } => {
            r.append("Broadcast { sender: ");
            append_quoted(&mut r, sender.as_str());
            r.append(", content: ");
            append_quoted(&mut r, content.as_str());
            r.append(", timestamp: ");
            r.append(t.as_str());
            r.append(", sender_color: ");
            append_opt(&mut r, sender_color);
            r.append(" }");
        },
        ServerToClient::Notification { targets, content, .. } => {
            r.append("Notification { targets: ");
            append_list(&mut r, targets);
            r.append(", content: ");
            append_quoted(&mut r, content.as_str());
            r.append(", timestamp: ");
            r.append(t.as_str());
            r.append(" }");
        },
        ServerToClient::SystemAlert { content, .. } => {
            r.append("SystemAlert { content: ");
            append_quoted(&mut r, content.as_str());
            r.append(", timestamp: ");
            r.append(t.as_str());
            r.append(" }");
        },
        ServerToClient::FileAvailable { id, filename, size_bytes, sender, .. } => {
            r.append("FileAvailable { id: ");
            append_quoted(&mut r, id.as_str());
            r.append(", filename: ");
            append_quoted(&mut r, filename.as_str());
            r.append(", size_bytes: ");
            crate::text::push_decimal(&mut r, *size_bytes as u64);
            r.append(", sender: ");
            append_quoted(&mut r, sender.as_str());
            r.append(", timestamp: ");
            r.append(t.as_str());
            r.append(" }");
        },
        _ => {
            return derived_debug_server(m);
        },
    }
    r
}

} // verus!
