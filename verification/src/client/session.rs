//! What the chat client decides while it runs. Each function takes the client's state
//! and one event (a key, a mouse wheel step, a message from the server, a file that
//! was read or saved, a clock tick), changes the state, and returns the effects that
//! the caller carries out: messages to send, settings to save, files to read, save or
//! open, or the end of the session.
use vstd::prelude::*;

use crate::client::input::{
    key_panics, key_step, theme_names, EditorView, InputState, KeyCode, KeyEvent,
    TypingUser,
};
use crate::client::theme::THEME_NAMES;
use crate::client::tui::{max_scroll, sat_sub};
use crate::keyed::{drop_key, set_key, value_of};
use crate::encoding::{
    base64_decoding, base64_encoding, decoded_bytes, encode_base64, file_name_or_default, file_name_or_default_of,
};
use crate::protocol::{
    client_debug_text, debug_client_message, debug_server_message, server_debug_text, opt_seq, server_msgs_view, ClientMsgView, ClientToServer, ServerMsgView, ServerToClient,
    Timestamp,
};
use crate::text::{
    chars_of, lowercase_of, owned, push_decimal, decimal, starts_with, str_eq, str_has_prefix,
    string_of, sub_chars, to_lower, to_upper, trim, trim_chars, uppercase_of,
};

verus! {

broadcast use vstd::string::group_string_axioms;

// ---------------------------------------------------------------------------
// Effects
// ---------------------------------------------------------------------------

/// Something the client asks its caller to do.
#[derive(Clone, Debug)]
pub enum ClientEffect {
    /// End the session.
    Quit,
    /// Send a message to the server.
    Send(ClientToServer),
    /// Save the theme in the user's settings.
    SaveTheme(String),
    /// Save the name color (or its removal) in the user's settings.
    SaveColor(Option<String>),
    /// Save whether the sidebar is collapsed in the user's settings.
    SaveSidebar(bool),
    /// Read the file at this path and hand it to `ClientState::upload_read`.
    ReadFile(String),
    /// Open this saved file with the system's viewer.
    OpenFile(String),
    /// Save a received file and hand the outcome to `ClientState::download_saved`.
    SaveFile { id: String, filename: String, data: Vec<u8> },
}

/// An effect as mathematical values.
pub enum EffectView {
    Quit,
    Send(ClientMsgView),
    SaveTheme(Seq<char>),
    SaveColor(Option<Seq<char>>),
    SaveSidebar(bool),
    ReadFile(Seq<char>),
    OpenFile(Seq<char>),
    SaveFile(Seq<char>, Seq<char>, Seq<u8>),
}

impl View for ClientEffect {
    type V = EffectView;

    open spec fn view(&self) -> EffectView {
        match self {
            ClientEffect::Quit => EffectView::Quit,
            ClientEffect::Send(m) => EffectView::Send(m@),
            ClientEffect::SaveTheme(t) => EffectView::SaveTheme(t@),
            ClientEffect::SaveColor(c) => EffectView::SaveColor(opt_seq(*c)),
            ClientEffect::SaveSidebar(b) => EffectView::SaveSidebar(*b),
            ClientEffect::ReadFile(p) => EffectView::ReadFile(p@),
            ClientEffect::OpenFile(p) => EffectView::OpenFile(p@),
            ClientEffect::SaveFile { id, filename, data } => EffectView::SaveFile(
                id@,
                filename@,
                data@,
            ),
        }
    }
}

/// The views of a sequence of effects.
pub open spec fn effects_view(v: Seq<ClientEffect>) -> Seq<EffectView> {
    v.map_values(|e: ClientEffect| e@)
}

// ---------------------------------------------------------------------------
// Keyed lists: the typing users and the downloaded files
// ---------------------------------------------------------------------------

/// The typing users as names and the times they were last heard of.
pub open spec fn typing_view(v: Seq<TypingUser>) -> Seq<(Seq<char>, u64)> {
    v.map_values(|t: TypingUser| (t.name@, t.last_seen_ms))
}

/// How long a typing notice lasts, in milliseconds.
pub const TYPING_TIMEOUT_MS: u64 = 4000;

/// The typing users heard of less than `TYPING_TIMEOUT_MS` before `now`.
pub open spec fn still_typing(v: Seq<(Seq<char>, u64)>, now: u64) -> Seq<(Seq<char>, u64)>
    decreases v.len(),
{
    if v.len() == 0 {
        v
    } else {
        let r = still_typing(v.drop_last(), now);
        if sat_sub(now as int, v.last().1 as int) < TYPING_TIMEOUT_MS {
            r.push(v.last())
        } else {
            r
        }
    }
}

proof fn lemma_typing_view_take(v: Seq<TypingUser>, i: int)
    requires
        0 <= i < v.len(),
    ensures
        typing_view(v.take(i + 1)).drop_last() == typing_view(v.take(i)),
        typing_view(v.take(i + 1)).last() == (v[i].name@, v[i].last_seen_ms),
        typing_view(v.take(i + 1)).len() == i + 1,
{
    assert(typing_view(v.take(i + 1)).drop_last() =~= typing_view(v.take(i)));
}

/// The typing users without `name`.
fn typing_without(v: &Vec<TypingUser>, name: &str) -> (r: Vec<TypingUser>)
    ensures
        typing_view(r@) == drop_key(typing_view(v@), name@),
{
    let mut r: Vec<TypingUser> = Vec::new();
    let n = v.len();
    for i in 0..n
        invariant
            n == v@.len(),
            typing_view(r@) == drop_key(typing_view(v@.take(i as int)), name@),
    {
        proof {
            lemma_typing_view_take(v@, i as int);
        }
        if !str_eq(v[i].name.as_str(), name) {
            let t = TypingUser { name: v[i].name.clone(), last_seen_ms: v[i].last_seen_ms };
            let ghost old_r = r@;
            r.push(t);
            assert(typing_view(r@) =~= typing_view(old_r).push((v@[i as int].name@, v@[i as int].last_seen_ms)));
        }
    }
    assert(v@.take(n as int) == v@);
    r
}

/// The typing users heard of recently enough at `now`.
fn typing_still(v: &Vec<TypingUser>, now_ms: u64) -> (r: Vec<TypingUser>)
    ensures
        typing_view(r@) == still_typing(typing_view(v@), now_ms),
{
    let mut r: Vec<TypingUser> = Vec::new();
    let n = v.len();
    for i in 0..n
        invariant
            n == v@.len(),
            typing_view(r@) == still_typing(typing_view(v@.take(i as int)), now_ms),
    {
        proof {
            lemma_typing_view_take(v@, i as int);
        }
        if now_ms.saturating_sub(v[i].last_seen_ms) < TYPING_TIMEOUT_MS {
            let t = TypingUser { name: v[i].name.clone(), last_seen_ms: v[i].last_seen_ms };
            let ghost old_r = r@;
            r.push(t);
            assert(typing_view(r@) =~= typing_view(old_r).push((v@[i as int].name@, v@[i as int].last_seen_ms)));
        }
    }
    assert(v@.take(n as int) == v@);
    r
}

/// A file that was downloaded: its id and where it was saved.
#[derive(Clone, Debug)]
pub struct Download {
    pub id: String,
    pub path: String,
}

/// The downloads as ids and paths.
pub open spec fn downloads_view(v: Seq<Download>) -> Seq<(Seq<char>, Seq<char>)> {
    v.map_values(|d: Download| (d.id@, d.path@))
}

proof fn lemma_downloads_view_take(v: Seq<Download>, i: int)
    requires
        0 <= i < v.len(),
    ensures
        downloads_view(v.take(i + 1)).drop_last() == downloads_view(v.take(i)),
        downloads_view(v.take(i + 1)).last() == (v[i].id@, v[i].path@),
        downloads_view(v.take(i + 1)).len() == i + 1,
{
    assert(downloads_view(v.take(i + 1)).drop_last() =~= downloads_view(v.take(i)));
}

/// Where the file `id` was saved, if it was.
fn download_path(v: &Vec<Download>, id: &str) -> (r: Option<String>)
    ensures
        opt_seq(r) == value_of(downloads_view(v@), id@),
{
    let n = v.len();
    let mut r: Option<String> = None;
    for i in 0..n
        invariant
            n == v@.len(),
            opt_seq(r) == value_of(downloads_view(v@.take(i as int)), id@),
    {
        proof {
            lemma_downloads_view_take(v@, i as int);
        }
        if str_eq(v[i].id.as_str(), id) {
            r = Some(v[i].path.clone());
        }
    }
    assert(v@.take(n as int) == v@);
    r
}

/// The downloads with `id` now saved at `path`.
fn downloads_set(v: &Vec<Download>, id: &str, path: &str) -> (r: Vec<Download>)
    ensures
        downloads_view(r@) == set_key(downloads_view(v@), id@, path@),
{
    let mut r: Vec<Download> = Vec::new();
    let n = v.len();
    for i in 0..n
        invariant
            n == v@.len(),
            downloads_view(r@) == drop_key(downloads_view(v@.take(i as int)), id@),
    {
        proof {
            lemma_downloads_view_take(v@, i as int);
        }
        if !str_eq(v[i].id.as_str(), id) {
            let d = Download { id: v[i].id.clone(), path: v[i].path.clone() };
            let ghost old_r = r@;
            r.push(d);
            assert(downloads_view(r@) =~= downloads_view(old_r).push((v@[i as int].id@, v@[i as int].path@)));
        }
    }
    assert(v@.take(n as int) == v@);
    let ghost before = r@;
    r.push(Download { id: owned(id), path: owned(path) });
    assert(downloads_view(r@) =~= downloads_view(before).push((id@, path@)));
    r
}


proof fn lemma_msgs_push(v: Seq<ServerToClient>, m: ServerToClient)
    ensures
        server_msgs_view(v.push(m)) == server_msgs_view(v).push(m@),
{
    assert(server_msgs_view(v.push(m)) =~= server_msgs_view(v).push(m@));
}

proof fn lemma_effects_concat(a: Seq<ClientEffect>, b: Seq<ClientEffect>)
    ensures
        effects_view(a + b) == effects_view(a) + effects_view(b),
{
    assert(effects_view(a + b) =~= effects_view(a) + effects_view(b));
}

// ---------------------------------------------------------------------------
// The client's state
// ---------------------------------------------------------------------------

/// What the client knows of its connection: the server's name, the server's address,
/// and the user's name.
#[derive(Clone, Debug)]
pub struct Connection {
    pub server_name: String,
    pub addr: String,
    pub name: String,
}

impl View for Connection {
    type V = (Seq<char>, Seq<char>, Seq<char>);

    open spec fn view(&self) -> (Seq<char>, Seq<char>, Seq<char>) {
        (self.server_name@, self.addr@, self.name@)
    }
}

/// The whole state of a running client: the editor and chat window, the files it
/// downloaded (by id, with where they were saved), and the file it should open once
/// it arrives.
pub struct ClientState {
    pub input: InputState,
    pub downloads: Vec<Download>,
    pub pending_open: Option<String>,
}

/// A client's state as mathematical values.
#[verifier::ext_equal]
pub struct ClientView {
    pub editor: EditorView,
    pub theme: Seq<char>,
    pub debug: bool,
    pub messages: Seq<ServerMsgView>,
    pub typing: Seq<(Seq<char>, u64)>,
    pub scroll: int,
    pub auto_scroll: bool,
    pub sidebar: bool,
    pub downloads: Seq<(Seq<char>, Seq<char>)>,
    pub pending_open: Option<Seq<char>>,
}

impl View for ClientState {
    type V = ClientView;

    open spec fn view(&self) -> ClientView {
        ClientView {
            editor: self.input@,
            theme: self.input.theme_name@,
            debug: self.input.debug,
            messages: server_msgs_view(self.input.messages@),
            typing: typing_view(self.input.typing_users@),
            scroll: self.input.scroll_offset as int,
            auto_scroll: self.input.auto_scroll,
            sidebar: self.input.sidebar_collapsed,
            downloads: downloads_view(self.downloads@),
            pending_open: opt_seq(self.pending_open),
        }
    }
}

/// The state with one more message in the chat.
pub open spec fn with_message(c: ClientView, m: ServerMsgView) -> ClientView {
    ClientView { messages: c.messages.push(m), ..c }
}

/// A notice from the client itself, stamped `now`.
pub open spec fn alert(text: Seq<char>, now: Timestamp) -> ServerMsgView {
    ServerMsgView::SystemAlert(text, now)
}

fn system_alert(content: String, now: Timestamp) -> (r: ServerToClient)
    ensures
        r@ == alert(content@, now),
{
    ServerToClient::SystemAlert { content, timestamp: now }
}

/// The text of `line` after the prefix `p`, trimmed.
fn trimmed_rest(line: &str, p: &str) -> (r: Vec<char>)
    requires
        p@.len() <= line@.len(),
    ensures
        r@ == trim(line@.skip(p@.len() as int)),
{
    let cs = chars_of(line);
    let pv = chars_of(p);
    let rest = sub_chars(cs.as_slice(), pv.len(), cs.len());
    assert(rest@ == line@.skip(p@.len() as int));
    trim_chars(rest.as_slice())
}

/// Whether `t` is the name of a theme.
fn is_theme_name(t: &str) -> (r: bool)
    ensures
        r == theme_names().contains(t@),
{
    let names = THEME_NAMES.as_slice();
    assert(names@ == THEME_NAMES@);
    let n = names.len();
    for i in 0..n
        invariant
            n == names@.len(),
            names@ == THEME_NAMES@,
            forall|j: int| 0 <= j < i ==> theme_names()[j] != t@,
    {
        if str_eq(names[i], t) {
            assert(theme_names()[i as int] == t@);
            return true;
        }
    }
    assert forall|j: int| 0 <= j < theme_names().len() implies theme_names()[j] != t@ by {}
    false
}

/// An empty editor: no line, no history, no completion, no help, no users.
pub open spec fn fresh_editor() -> EditorView {
    EditorView {
        buffer: seq![],
        cursor: 0,
        history: seq![],
        history_index: None,
        temp_buffer: seq![],
        show_help: false,
        tab_matches: seq![],
        tab_index: None,
        pre_tab_buffer: seq![],
        pre_tab_cursor: 0,
        tab_word_start: None,
        online_users: seq![],
    }
}

impl ClientState {
    /// The editor invariant holds.
    pub open spec fn wf(&self) -> bool {
        self.input.wf()
    }

    /// A fresh client with the given theme, no downloads and nothing to open.
    pub fn new(theme_name: String) -> (r: Self)
        ensures
            r.wf(),
            r@.editor == fresh_editor(),
            r@.theme == theme_name@,
            !r@.debug,
            r@.messages.len() == 0,
            r@.typing.len() == 0,
            r@.scroll == 0,
            r@.auto_scroll,
            !r@.sidebar,
            r@.downloads.len() == 0,
            r@.pending_open is None,
    {
        ClientState { input: InputState::new(theme_name), downloads: Vec::new(), pending_open: None }
    }

    fn push_message(&mut self, m: ServerToClient)
        requires
            old(self).wf(),
        ensures
            final(self).wf(),
            final(self)@ == with_message(old(self)@, m@),
    {
        proof {
            lemma_msgs_push(self.input.messages@, m);
        }
        self.input.messages.push(m);
        assert(self@ =~= with_message(old(self)@, m@));
    }
}


// ---------------------------------------------------------------------------
// Commands typed into the line
// ---------------------------------------------------------------------------

/// The notice that `/info` shows.
pub open spec fn info_text(conn: (Seq<char>, Seq<char>, Seq<char>)) -> Seq<char> {
    "Connected to "@ + conn.0 + " at "@ + conn.1 + " as "@ + conn.2
}

/// The notice that `/debug` shows.
pub open spec fn debug_status_text(on: bool) -> Seq<char> {
    "Local client debugging "@ + if on {
        "enabled"@
    } else {
        "disabled"@
    }
}

/// The theme that `/theme <name>` asks for: the name trimmed and in lower case.
pub open spec fn theme_arg(cmd: Seq<char>) -> Seq<char> {
    lowercase_of(trim(cmd.skip("/theme "@.len() as int)))
}

/// The notice for a theme change.
pub open spec fn theme_changed_text(t: Seq<char>) -> Seq<char> {
    "Theme changed to '"@ + t + "' successfully!"@
}

/// The error for a theme that does not exist.
pub open spec fn unknown_theme_text(t: Seq<char>) -> Seq<char> {
    "Unknown theme '"@ + t
        + "'. Options: blurple, matrix, cyberpunk, sunset, lagos, mint, lavender"@
}

/// The color that `/color [name]` asks for: none (back to the default) when the name
/// is missing or blank.
pub open spec fn color_choice(cmd: Seq<char>) -> Option<Seq<char>> {
    let t = if cmd == "/color"@ {
        seq![]
    } else {
        trim(cmd.skip("/color "@.len() as int))
    };
    if t.len() == 0 {
        None
    } else {
        Some(t)
    }
}

/// The question of `/ask <question>`, trimmed (empty for a bare `/ask`).
pub open spec fn ask_question(cmd: Seq<char>) -> Seq<char> {
    if cmd == "/ask"@ {
        seq![]
    } else {
        trim(cmd.skip("/ask "@.len() as int))
    }
}

/// The file id of `/open <id>` or `/download <id>`, trimmed and in upper case.
pub open spec fn file_id_arg(cmd: Seq<char>) -> Seq<char> {
    if starts_with(cmd, "/open "@) {
        uppercase_of(trim(cmd.skip("/open "@.len() as int)))
    } else {
        uppercase_of(trim(cmd.skip("/download "@.len() as int)))
    }
}

/// A chat line goes to the server (and, in debug mode, a notice shows what was sent).
pub open spec fn chat_step(c: ClientView, line: Seq<char>, now: Timestamp) -> (
    ClientView,
    Seq<EffectView>,
) {
    let m = ClientMsgView::ChatMessage(line);
    let c1 = if c.debug {
        with_message(c, alert("[DEBUG] Sent: "@ + client_debug_text(m), now))
    } else {
        c
    };
    (c1, seq![EffectView::Send(m)])
}

/// `/theme <name>`: a known theme is taken and saved, an unknown one is an error.
pub open spec fn theme_step(c: ClientView, cmd: Seq<char>, now: Timestamp) -> (
    ClientView,
    Seq<EffectView>,
) {
    let t = theme_arg(cmd);
    if theme_names().contains(t) {
        (
            with_message(ClientView { theme: t, ..c }, alert(theme_changed_text(t), now)),
            seq![EffectView::SaveTheme(t)],
        )
    } else {
        (with_message(c, ServerMsgView::Error(unknown_theme_text(t))), seq![])
    }
}

/// `/ask <question>`: sent as a chat line, unless the question is blank.
pub open spec fn ask_step(c: ClientView, cmd: Seq<char>, now: Timestamp) -> (
    ClientView,
    Seq<EffectView>,
) {
    if ask_question(cmd).len() == 0 {
        (with_message(c, alert("Usage: /ask <your question>"@, now)), seq![])
    } else {
        chat_step(c, cmd, now)
    }
}

/// `/download <id>` asks the server for a file; `/open <id>` opens a file already
/// downloaded, or asks for it and remembers to open it when it arrives.
pub open spec fn file_request_step(c: ClientView, cmd: Seq<char>, now: Timestamp) -> (
    ClientView,
    Seq<EffectView>,
) {
    let id = file_id_arg(cmd);
    if id.len() == 0 {
        (with_message(c, alert("Usage: /download <id> or /open <id>"@, now)), seq![])
    } else if starts_with(cmd, "/open "@) {
        match value_of(c.downloads, id) {
            Some(p) => (c, seq![EffectView::OpenFile(p)]),
            None => (
                ClientView { pending_open: Some(id), ..c },
                seq![EffectView::Send(ClientMsgView::FileRequest(id))],
            ),
        }
    } else {
        (c, seq![EffectView::Send(ClientMsgView::FileRequest(id))])
    }
}

/// What a line handed on by the editor does: a command acts on the client, anything
/// else is sent as a chat message.
pub open spec fn command_step(
    c: ClientView,
    cmd: Seq<char>,
    conn: (Seq<char>, Seq<char>, Seq<char>),
    now: Timestamp,
) -> (ClientView, Seq<EffectView>) {
    if cmd == "/exit"@ {
        (c, seq![EffectView::Quit])
    } else if cmd == "/clear"@ || cmd == "/refresh"@ {
        (ClientView { messages: seq![], scroll: 0, auto_scroll: true, ..c }, seq![])
    } else if cmd == "/help"@ {
        (ClientView { editor: EditorView { show_help: true, ..c.editor }, ..c }, seq![])
    } else if cmd == "/info"@ {
        (with_message(c, alert(info_text(conn), now)), seq![])
    } else if cmd == "/debug"@ {
        (
            with_message(ClientView { debug: !c.debug, ..c }, alert(debug_status_text(!c.debug), now)),
            seq![],
        )
    } else if starts_with(cmd, "/theme "@) {
        theme_step(c, cmd, now)
    } else if starts_with(cmd, "/color "@) || cmd == "/color"@ {
        let o = color_choice(cmd);
        (c, seq![EffectView::SaveColor(o), EffectView::Send(ClientMsgView::SetColor(o))])
    } else if starts_with(cmd, "/ask "@) || cmd == "/ask"@ {
        ask_step(c, cmd, now)
    } else if starts_with(cmd, "/send "@) {
        (c, seq![EffectView::ReadFile(trim(cmd.skip("/send "@.len() as int)))])
    } else if starts_with(cmd, "/download "@) || starts_with(cmd, "/open "@) {
        file_request_step(c, cmd, now)
    } else {
        chat_step(c, cmd, now)
    }
}

impl ClientState {
    fn send_chat(&mut self, line: String, now: Timestamp) -> (r: Vec<ClientEffect>)
        requires
            old(self).wf(),
        ensures
            final(self).wf(),
            final(self)@ == chat_step(old(self)@, line@, now).0,
            effects_view(r@) == chat_step(old(self)@, line@, now).1,
    {
        let m = ClientToServer::ChatMessage { content: line };
        if self.input.debug {
            let mut t = owned("[DEBUG] Sent: ");
            let d = debug_client_message(&m);
            t.append(d.as_str());
            self.push_message(system_alert(t, now));
        }
        let r = vec![ClientEffect::Send(m)];
        assert(effects_view(r@) =~= chat_step(old(self)@, line@, now).1);
        r
    }

    fn theme_command(&mut self, cmd: &str, now: Timestamp) -> (r: Vec<ClientEffect>)
        requires
            old(self).wf(),
            starts_with(cmd@, "/theme "@),
        ensures
            final(self).wf(),
            final(self)@ == theme_step(old(self)@, cmd@, now).0,
            effects_view(r@) == theme_step(old(self)@, cmd@, now).1,
    {
        let rest = trimmed_rest(cmd, "/theme ");
        let raw = string_of(rest.as_slice());
        let target = to_lower(raw.as_str());
        if is_theme_name(target.as_str()) {
            self.input.theme_name = target.clone();
            let mut t = owned("Theme changed to '");
            t.append(target.as_str());
            t.append("' successfully!");
            let ghost mid = self@;
            assert(mid =~= ClientView { theme: target@, ..old(self)@ });
            self.push_message(system_alert(t, now));
            let r = vec![ClientEffect::SaveTheme(target)];
            assert(effects_view(r@) =~= theme_step(old(self)@, cmd@, now).1);
            r
        } else {
            let mut t = owned("Unknown theme '");
            t.append(target.as_str());
            t.append("'. Options: blurple, matrix, cyberpunk, sunset, lagos, mint, lavender");
            self.push_message(ServerToClient::Error { message: t });
            let r: Vec<ClientEffect> = Vec::new();
            assert(effects_view(r@) =~= theme_step(old(self)@, cmd@, now).1);
            r
        }
    }

    fn ask_command(&mut self, cmd: String, now: Timestamp) -> (r: Vec<ClientEffect>)
        requires
            old(self).wf(),
            starts_with(cmd@, "/ask "@) || cmd@ == "/ask"@,
        ensures
            final(self).wf(),
            final(self)@ == ask_step(old(self)@, cmd@, now).0,
            effects_view(r@) == ask_step(old(self)@, cmd@, now).1,
    {
        let blank = if str_eq(cmd.as_str(), "/ask") {
            true
        } else {
            let q = trimmed_rest(cmd.as_str(), "/ask ");
            q.len() == 0
        };
        if blank {
            self.push_message(system_alert(owned("Usage: /ask <your question>"), now));
            let r: Vec<ClientEffect> = Vec::new();
            assert(effects_view(r@) =~= ask_step(old(self)@, cmd@, now).1);
            r
        } else {
            self.send_chat(cmd, now)
        }
    }

    fn file_request_command(&mut self, cmd: &str, now: Timestamp) -> (r: Vec<ClientEffect>)
        requires
            old(self).wf(),
            starts_with(cmd@, "/download "@) || starts_with(cmd@, "/open "@),
        ensures
            final(self).wf(),
            final(self)@ == file_request_step(old(self)@, cmd@, now).0,
            effects_view(r@) == file_request_step(old(self)@, cmd@, now).1,
    {
        let is_open = str_has_prefix(cmd, "/open ");
        let rest = if is_open {
            trimmed_rest(cmd, "/open ")
        } else {
            trimmed_rest(cmd, "/download ")
        };
        let raw = string_of(rest.as_slice());
        let id = to_upper(raw.as_str());
        if id.as_str().is_empty() {
            self.push_message(system_alert(owned("Usage: /download <id> or /open <id>"), now));
            let r: Vec<ClientEffect> = Vec::new();
            assert(effects_view(r@) =~= file_request_step(old(self)@, cmd@, now).1);
            return r;
        }
        if is_open {
            match download_path(&self.downloads, id.as_str()) {
                Some(p) => {
                    let r = vec![ClientEffect::OpenFile(p)];
                    assert(effects_view(r@) =~= file_request_step(old(self)@, cmd@, now).1);
                    r
                },
                None => {
                    self.pending_open = Some(id.clone());
                    let r = vec![ClientEffect::Send(ClientToServer::FileRequest { id })];
                    assert(effects_view(r@) =~= file_request_step(old(self)@, cmd@, now).1);
                    assert(self@ =~= file_request_step(old(self)@, cmd@, now).0);
                    r
                },
            }
        } else {
            let r = vec![ClientEffect::Send(ClientToServer::FileRequest { id })];
            assert(effects_view(r@) =~= file_request_step(old(self)@, cmd@, now).1);
            r
        }
    }

    /// Carries out a line that the editor handed on (see `command_step`).
    pub fn run_command(&mut self, conn: &Connection, cmd: String, now: Timestamp) -> (r: Vec<
        ClientEffect,
    >)
        requires
            old(self).wf(),
        ensures
            final(self).wf(),
            final(self)@ == command_step(old(self)@, cmd@, conn@, now).0,
            effects_view(r@) == command_step(old(self)@, cmd@, conn@, now).1,
    {
        let c = cmd.as_str();
        if str_eq(c, "/exit") {
            let r = vec![ClientEffect::Quit];
            assert(effects_view(r@) =~= seq![EffectView::Quit]);
            r
        } else if str_eq(c, "/clear") || str_eq(c, "/refresh") {
            self.input.messages = Vec::new();
            self.input.scroll_offset = 0;
            self.input.auto_scroll = true;
            assert(self@ =~= command_step(old(self)@, cmd@, conn@, now).0);
            let r: Vec<ClientEffect> = Vec::new();
            assert(effects_view(r@) =~= seq![]);
            r
        } else if str_eq(c, "/help") {
            self.input.show_help = true;
            assert(self@ =~= command_step(old(self)@, cmd@, conn@, now).0);
            let r: Vec<ClientEffect> = Vec::new();
            assert(effects_view(r@) =~= seq![]);
            r
        } else if str_eq(c, "/info") {
            let mut t = owned("Connected to ");
            t.append(conn.server_name.as_str());
            t.append(" at ");
            t.append(conn.addr.as_str());
            t.append(" as ");
            t.append(conn.name.as_str());
            self.push_message(system_alert(t, now));
            let r: Vec<ClientEffect> = Vec::new();
            assert(effects_view(r@) =~= seq![]);
            r
        } else if str_eq(c, "/debug") {
            self.input.debug = !self.input.debug;
            let mut t = owned("Local client debugging ");
            if self.input.debug {
                t.append("enabled");
            } else {
                t.append("disabled");
            }
            self.push_message(system_alert(t, now));
            let r: Vec<ClientEffect> = Vec::new();
            assert(effects_view(r@) =~= seq![]);
            r
        } else if str_has_prefix(c, "/theme ") {
            self.theme_command(c, now)
        } else if str_has_prefix(c, "/color ") || str_eq(c, "/color") {
            let blank_arg = str_eq(c, "/color");
            let target = if blank_arg {
                Vec::new()
            } else {
                trimmed_rest(c, "/color ")
            };
            let choice = if target.len() == 0 {
                None
            } else {
                Some(string_of(target.as_slice()))
            };
            let choice2 = match &choice {
                Some(t) => Some(t.clone()),
                None => None,
            };
            let r = vec![
                ClientEffect::SaveColor(choice),
                ClientEffect::Send(ClientToServer::SetColor { color: choice2 }),
            ];
            assert(effects_view(r@) =~= command_step(old(self)@, cmd@, conn@, now).1);
            r
        } else if str_has_prefix(c, "/ask ") || str_eq(c, "/ask") {
            self.ask_command(cmd, now)
        } else if str_has_prefix(c, "/send ") {
            let path = trimmed_rest(c, "/send ");
            let r = vec![ClientEffect::ReadFile(string_of(path.as_slice()))];
            assert(effects_view(r@) =~= command_step(old(self)@, cmd@, conn@, now).1);
            r
        } else if str_has_prefix(c, "/download ") || str_has_prefix(c, "/open ") {
            self.file_request_command(c, now)
        } else {
            self.send_chat(cmd, now)
        }
    }
}


// ---------------------------------------------------------------------------
// Keys and the mouse wheel
// ---------------------------------------------------------------------------

/// How many lines a scroll key moves: half the chat window (at least one line) for
/// Page Up and Page Down, one line for Shift+Up and Shift+Down.
pub open spec fn scroll_amount(page: bool, height: int) -> int {
    if page {
        if height / 2 > 1 {
            height / 2
        } else {
            1
        }
    } else {
        1
    }
}

/// Scrolling back (towards older messages) by `amount` lines, no further than the
/// chat allows; the chat stops following new messages.
pub open spec fn scrolled_back(c: ClientView, amount: int, total: int, height: int) -> ClientView {
    let m = max_scroll(total, height);
    ClientView {
        auto_scroll: false,
        scroll: if c.scroll + amount < m {
            c.scroll + amount
        } else {
            m
        },
        ..c
    }
}

/// Scrolling forward by `amount` lines; back at the newest message the chat follows
/// new messages again.
pub open spec fn scrolled_forward(c: ClientView, amount: int) -> ClientView {
    let s = sat_sub(c.scroll, amount);
    ClientView {
        scroll: s,
        auto_scroll: if s == 0 {
            true
        } else {
            c.auto_scroll
        },
        ..c
    }
}

/// F2 or Ctrl+B: collapse or expand the sidebar.
pub open spec fn sidebar_key(k: KeyEvent) -> bool {
    k.code == KeyCode::F(2) || (k.code == KeyCode::Char('b') && k.control)
}

/// Page Up or Shift+Up: scroll back.
pub open spec fn scroll_back_key(k: KeyEvent) -> bool {
    k.code == KeyCode::PageUp || (k.code == KeyCode::Up && k.shift)
}

/// Page Down or Shift+Down: scroll forward.
pub open spec fn scroll_forward_key(k: KeyEvent) -> bool {
    k.code == KeyCode::PageDown || (k.code == KeyCode::Down && k.shift)
}

/// Whether the editor gets the key: it is pressed (not released), no key binding of
/// the client takes it, and the help overlay is not showing.
pub open spec fn reaches_editor(c: ClientView, k: KeyEvent) -> bool {
    &&& !k.release
    &&& !(k.code == KeyCode::Char('c') && k.control)
    &&& !sidebar_key(k)
    &&& !scroll_back_key(k)
    &&& !scroll_forward_key(k)
    &&& !(k.code == KeyCode::Char('?') && c.editor.buffer.len() == 0)
    &&& !c.editor.show_help
}

/// The keys on which the client would panic: those that reach the editor where the
/// editor panics (see `key_panics`).
pub open spec fn key_panics_in(c: ClientView, k: KeyEvent) -> bool {
    reaches_editor(c, k) && key_panics(c.editor, k)
}

/// What a key does to the client. Ctrl+C quits; F2 and Ctrl+B toggle the sidebar;
/// Page Up/Down and Shift+Up/Down scroll; `?` on an empty line toggles the help, which
/// then takes every key (Esc and Enter close it). Any other key first tells the server
/// whether the user is typing (a non-empty line and a key other than Enter), then goes
/// to the editor; a line that the editor hands on is carried out (see `command_step`).
pub open spec fn key_event_step(
    c: ClientView,
    k: KeyEvent,
    total: int,
    height: int,
    conn: (Seq<char>, Seq<char>, Seq<char>),
    now: Timestamp,
) -> (ClientView, Seq<EffectView>) {
    if k.release {
        (c, seq![])
    } else if k.code == KeyCode::Char('c') && k.control {
        (c, seq![EffectView::Quit])
    } else if sidebar_key(k) {
        (ClientView { sidebar: !c.sidebar, ..c }, seq![EffectView::SaveSidebar(!c.sidebar)])
    } else if scroll_back_key(k) {
        (scrolled_back(c, scroll_amount(k.code == KeyCode::PageUp, height), total, height), seq![])
    } else if scroll_forward_key(k) {
        (scrolled_forward(c, scroll_amount(k.code == KeyCode::PageDown, height)), seq![])
    } else if k.code == KeyCode::Char('?') && c.editor.buffer.len() == 0 {
        (
            ClientView { editor: EditorView { show_help: !c.editor.show_help, ..c.editor }, ..c },
            seq![],
        )
    } else if c.editor.show_help {
        if k.code == KeyCode::Esc || k.code == KeyCode::Enter {
            (ClientView { editor: EditorView { show_help: false, ..c.editor }, ..c }, seq![])
        } else {
            (c, seq![])
        }
    } else {
        let typing = EffectView::Send(
            ClientMsgView::Typing(c.editor.buffer.len() > 0 && k.code != KeyCode::Enter),
        );
        let step = key_step(c.editor, k);
        let c1 = ClientView { editor: step.0, ..c };
        match step.1 {
            None => (c1, seq![typing]),
            Some(cmd) => {
                let after = command_step(c1, cmd, conn, now);
                (after.0, seq![typing] + after.1)
            },
        }
    }
}

/// A step of the mouse wheel: one line back (`up`) or forward.
pub open spec fn wheel_step(c: ClientView, up: bool, total: int, height: int) -> ClientView {
    if up {
        scrolled_back(c, 1, total, height)
    } else {
        scrolled_forward(c, 1)
    }
}

impl ClientState {
    fn scroll_back(&mut self, amount: usize, total: usize, height: usize)
        requires
            old(self).wf(),
        ensures
            final(self).wf(),
            final(self)@ == scrolled_back(old(self)@, amount as int, total as int, height as int),
    {
        let m = total.saturating_sub(height);
        let s = self.input.scroll_offset.saturating_add(amount);
        self.input.auto_scroll = false;
        self.input.scroll_offset = if s < m {
            s
        } else {
            m
        };
        assert(self@ =~= scrolled_back(old(self)@, amount as int, total as int, height as int));
    }

    fn scroll_forward(&mut self, amount: usize)
        requires
            old(self).wf(),
        ensures
            final(self).wf(),
            final(self)@ == scrolled_forward(old(self)@, amount as int),
    {
        self.input.scroll_offset = self.input.scroll_offset.saturating_sub(amount);
        if self.input.scroll_offset == 0 {
            self.input.auto_scroll = true;
        }
        assert(self@ =~= scrolled_forward(old(self)@, amount as int));
    }

    /// A step of the mouse wheel over a chat of `total` lines shown `height` at a time.
    pub fn on_wheel(&mut self, up: bool, total: usize, height: usize)
        requires
            old(self).wf(),
        ensures
            final(self).wf(),
            final(self)@ == wheel_step(old(self)@, up, total as int, height as int),
    {
        if up {
            self.scroll_back(1, total, height);
        } else {
            self.scroll_forward(1);
        }
    }

    /// Whether `on_key` would meet a key on which the client panics (see
    /// `key_panics_in`).
    pub fn key_would_panic(&self, key: KeyEvent) -> (r: bool)
        ensures
            r == key_panics_in(self@, key),
    {
        let reaches = !key.release && !(key.code == KeyCode::Char('c') && key.control) && !(
        key.code == KeyCode::F(2) || (key.code == KeyCode::Char('b') && key.control)) && !(
        key.code == KeyCode::PageUp || (key.code == KeyCode::Up && key.shift)) && !(key.code
            == KeyCode::PageDown || (key.code == KeyCode::Down && key.shift)) && !(key.code
            == KeyCode::Char('?') && self.input.buffer.len() == 0) && !self.input.show_help;
        if !reaches || key.code != KeyCode::Right || self.input.cursor_index
            < self.input.buffer.len() {
            return false;
        }
        match crate::client::input::completion_suffix(
            self.input.buffer.as_slice(),
            self.input.online_users.as_slice(),
        ) {
            Some(_) => false,
            None => true,
        }
    }

    /// Handles a key over a chat of `total` lines shown `height` at a time (see
    /// `key_event_step`).
    pub fn on_key(
        &mut self,
        conn: &Connection,
        key: KeyEvent,
        total: usize,
        height: usize,
        now: Timestamp,
    ) -> (r: Vec<ClientEffect>)
        requires
            old(self).wf(),
            crate::client::input::ascii_names(old(self)@.editor.online_users) || !key_panics_in(
                old(self)@,
                key,
            ),
        ensures
            final(self).wf(),
            final(self)@ == key_event_step(
                old(self)@,
                key,
                total as int,
                height as int,
                conn@,
                now,
            ).0,
            effects_view(r@) == key_event_step(
                old(self)@,
                key,
                total as int,
                height as int,
                conn@,
                now,
            ).1,
    {
        let ghost spec_r = key_event_step(old(self)@, key, total as int, height as int, conn@, now);
        if key.release {
            let r: Vec<ClientEffect> = Vec::new();
            assert(effects_view(r@) =~= spec_r.1);
            return r;
        }
        if key.code == KeyCode::Char('c') && key.control {
            let r = vec![ClientEffect::Quit];
            assert(effects_view(r@) =~= spec_r.1);
            return r;
        }
        if key.code == KeyCode::F(2) || (key.code == KeyCode::Char('b') && key.control) {
            self.input.sidebar_collapsed = !self.input.sidebar_collapsed;
            let r = vec![ClientEffect::SaveSidebar(self.input.sidebar_collapsed)];
            assert(effects_view(r@) =~= spec_r.1);
            assert(self@ =~= spec_r.0);
            return r;
        }
        if key.code == KeyCode::PageUp || (key.code == KeyCode::Up && key.shift) {
            let amount = if key.code == KeyCode::PageUp {
                let half = height / 2;
                if half > 1 {
                    half
                } else {
                    1
                }
            } else {
                1
            };
            self.scroll_back(amount, total, height);
            let r: Vec<ClientEffect> = Vec::new();
            assert(effects_view(r@) =~= spec_r.1);
            return r;
        }
        if key.code == KeyCode::PageDown || (key.code == KeyCode::Down && key.shift) {
            let amount = if key.code == KeyCode::PageDown {
                let half = height / 2;
                if half > 1 {
                    half
                } else {
                    1
                }
            } else {
                1
            };
            self.scroll_forward(amount);
            let r: Vec<ClientEffect> = Vec::new();
            assert(effects_view(r@) =~= spec_r.1);
            return r;
        }
        if key.code == KeyCode::Char('?') && self.input.buffer.len() == 0 {
            self.input.show_help = !self.input.show_help;
            let r: Vec<ClientEffect> = Vec::new();
            assert(effects_view(r@) =~= spec_r.1);
            assert(self@ =~= spec_r.0);
            return r;
        }
        if self.input.show_help {
            if key.code == KeyCode::Esc || key.code == KeyCode::Enter {
                self.input.show_help = false;
            }
            let r: Vec<ClientEffect> = Vec::new();
            assert(effects_view(r@) =~= spec_r.1);
            assert(self@ =~= spec_r.0);
            return r;
        }
        let typing = self.input.buffer.len() > 0 && key.code != KeyCode::Enter;
        let mut r = vec![ClientEffect::Send(ClientToServer::Typing { is_typing: typing })];
        let ghost first = r@;
        let line = self.input.handle_key(key);
        let ghost mid = self@;
        assert(mid =~= ClientView { editor: key_step(old(self)@.editor, key).0, ..old(self)@ });
        match line {
            None => {
                assert(effects_view(r@) =~= spec_r.1);
                r
            },
            Some(cmd) => {
                let mut more = self.run_command(conn, cmd, now);
                let ghost more_v = more@;
                r.append(&mut more);
                proof {
                    lemma_effects_concat(first, more_v);
                    assert(effects_view(first) =~= seq![
                        EffectView::Send(ClientMsgView::Typing(typing)),
                    ]);
                }
                r
            },
        }
    }
}


// ---------------------------------------------------------------------------
// Messages from the server, files, and the clock
// ---------------------------------------------------------------------------

/// What a message from the server does to the client (in debug mode a notice shows it
/// first). A pong does nothing; a typing notice marks its sender as typing since
/// `now_ms`, or not typing; a user list replaces the online users; a file's content
/// is decoded and handed on to be saved (an error when it is not valid base64); any
/// other message joins the chat.
pub open spec fn server_message_step(
    c: ClientView,
    m: ServerMsgView,
    now: Timestamp,
    now_ms: u64,
) -> (ClientView, Seq<EffectView>) {
    let c1 = if c.debug {
        with_message(c, alert("[DEBUG] Received: "@ + server_debug_text(m), now))
    } else {
        c
    };
    match m {
        ServerMsgView::Pong => (c1, seq![]),
        ServerMsgView::UserTyping(sender, is_typing) => (
            ClientView {
                typing: if is_typing {
                    set_key(c1.typing, sender, now_ms)
                } else {
                    drop_key(c1.typing, sender)
                },
                ..c1
            },
            seq![],
        ),
        ServerMsgView::UsersList(users) => (
            ClientView { editor: EditorView { online_users: users, ..c1.editor }, ..c1 },
            seq![],
        ),
        ServerMsgView::FileData(id, filename, data) => match base64_decoding(data) {
            Some(raw) => (c1, seq![EffectView::SaveFile(id, filename, raw)]),
            None => (
                with_message(c1, ServerMsgView::Error("Failed to decode received file data"@)),
                seq![],
            ),
        },
        _ => (with_message(c1, m), seq![]),
    }
}

/// The notice for a saved download.
pub open spec fn downloaded_text(filename: Seq<char>, path: Seq<char>, opening: bool) -> Seq<char> {
    "Downloaded: "@ + filename + " → "@ + path + if opening {
        " (opening...)"@
    } else {
        seq![]
    }
}

/// What the outcome of saving the file `id` does: a saved file is recorded (and opened
/// when `/open` asked for it); a failure is an error in the chat.
pub open spec fn download_step(
    c: ClientView,
    id: Seq<char>,
    filename: Seq<char>,
    saved: Result<Seq<char>, Seq<char>>,
    now: Timestamp,
) -> (ClientView, Seq<EffectView>) {
    match saved {
        Ok(path) => {
            let opening = c.pending_open == Some(id);
            let c1 = ClientView {
                pending_open: if opening {
                    None
                } else {
                    c.pending_open
                },
                downloads: set_key(c.downloads, id, path),
                ..c
            };
            (
                with_message(c1, alert(downloaded_text(filename, path, opening), now)),
                if opening {
                    seq![EffectView::OpenFile(path)]
                } else {
                    seq![]
                },
            )
        },
        Err(e) => (with_message(c, ServerMsgView::Error("Failed to save file: "@ + e)), seq![]),
    }
}

/// The largest file that `/send` uploads, in bytes (10 MiB).
pub const MAX_UPLOAD_BYTES: usize = 10485760;

/// The error for a file over the upload limit, in whole MiB.
pub open spec fn too_large_text(len: nat) -> Seq<char> {
    "File too large ("@ + decimal(len / 1024 / 1024) + "MB > 10MB limit)"@
}

/// What the outcome of reading the file at `path` for `/send` does: a file within the
/// limit is sent as base64 under its file name, with a notice; a file over the limit
/// or a read error is an error in the chat.
pub open spec fn upload_step(
    c: ClientView,
    path: Seq<char>,
    read: Result<Seq<u8>, Seq<char>>,
    now: Timestamp,
) -> (ClientView, Seq<EffectView>) {
    match read {
        Err(e) => (
            with_message(c, ServerMsgView::Error("Cannot read '"@ + path + "': "@ + e)),
            seq![],
        ),
        Ok(data) => if data.len() > MAX_UPLOAD_BYTES {
            (with_message(c, ServerMsgView::Error(too_large_text(data.len()))), seq![])
        } else {
            (
                with_message(c, alert("Uploading "@ + path + "..."@, now)),
                seq![
                    EffectView::Send(
                        ClientMsgView::FileUpload(
                            file_name_or_default(path),
                            base64_encoding(data),
                        ),
                    ),
                ],
            )
        },
    }
}

/// The views of a read outcome.
pub open spec fn read_view(r: Result<Vec<u8>, String>) -> Result<Seq<u8>, Seq<char>> {
    match r {
        Ok(v) => Ok(v@),
        Err(e) => Err(e@),
    }
}

/// The views of a save outcome.
pub open spec fn saved_view(r: Result<String, String>) -> Result<Seq<char>, Seq<char>> {
    match r {
        Ok(p) => Ok(p@),
        Err(e) => Err(e@),
    }
}

impl ClientState {
    /// Handles a message from the server, received at `now` (`now_ms` on the client's
    /// own clock); see `server_message_step`.
    pub fn on_server_message(&mut self, msg: ServerToClient, now: Timestamp, now_ms: u64) -> (r:
        Vec<ClientEffect>)
        requires
            old(self).wf(),
        ensures
            final(self).wf(),
            final(self)@ == server_message_step(old(self)@, msg@, now, now_ms).0,
            effects_view(r@) == server_message_step(old(self)@, msg@, now, now_ms).1,
    {
        let ghost spec_r = server_message_step(old(self)@, msg@, now, now_ms);
        if self.input.debug {
            let mut t = owned("[DEBUG] Received: ");
            let d = debug_server_message(&msg);
            t.append(d.as_str());
            self.push_message(system_alert(t, now));
        }
        let ghost c1 = self@;
        let mut r: Vec<ClientEffect> = Vec::new();
        match msg {
            ServerToClient::Pong => {},
            ServerToClient::UserTyping { sender, is_typing } => {
                let mut rest = typing_without(&self.input.typing_users, sender.as_str());
                if is_typing {
                    let ghost before = rest@;
                    let ghost sv = sender@;
                    rest.push(TypingUser { name: sender, last_seen_ms: now_ms });
                    assert(typing_view(rest@) =~= typing_view(before).push((sv, now_ms)));
                }
                self.input.typing_users = rest;
                assert(self@ =~= spec_r.0);
            },
            ServerToClient::UsersList { users } => {
                self.input.online_users = users;
                assert(self@ =~= spec_r.0);
            },
            ServerToClient::FileData { id, filename, data } => {
                match decoded_bytes(data.as_str()) {
                    Some(raw) => {
                        r.push(ClientEffect::SaveFile { id, filename, data: raw });
                    },
                    None => {
                        self.push_message(
                            ServerToClient::Error {
                                message: owned("Failed to decode received file data"),
                            },
                        );
                    },
                }
            },
            other => {
                self.push_message(other);
            },
        }
        assert(effects_view(r@) =~= spec_r.1);
        r
    }

    /// Handles the outcome of saving the file `id` (named `filename`): its path, or the
    /// error; see `download_step`.
    pub fn download_saved(
        &mut self,
        id: String,
        filename: String,
        saved: Result<String, String>,
        now: Timestamp,
    ) -> (r: Vec<ClientEffect>)
        requires
            old(self).wf(),
        ensures
            final(self).wf(),
            final(self)@ == download_step(old(self)@, id@, filename@, saved_view(saved), now).0,
            effects_view(r@) == download_step(
                old(self)@,
                id@,
                filename@,
                saved_view(saved),
                now,
            ).1,
    {
        let ghost spec_r = download_step(old(self)@, id@, filename@, saved_view(saved), now);
        match saved {
            Ok(path) => {
                let opening = match &self.pending_open {
                    Some(p) => str_eq(p.as_str(), id.as_str()),
                    None => false,
                };
                if opening {
                    self.pending_open = None;
                }
                self.downloads = downloads_set(&self.downloads, id.as_str(), path.as_str());
                let mut t = owned("Downloaded: ");
                t.append(filename.as_str());
                t.append(" → ");
                t.append(path.as_str());
                if opening {
                    t.append(" (opening...)");
                }
                let ghost mid = self@;
                assert(t@ =~= downloaded_text(filename@, path@, opening));
                self.push_message(system_alert(t, now));
                let mut r: Vec<ClientEffect> = Vec::new();
                if opening {
                    r.push(ClientEffect::OpenFile(path));
                }
                assert(effects_view(r@) =~= spec_r.1);
                assert(self@ =~= spec_r.0);
                r
            },
            Err(e) => {
                let mut t = owned("Failed to save file: ");
                t.append(e.as_str());
                self.push_message(ServerToClient::Error { message: t });
                let r: Vec<ClientEffect> = Vec::new();
                assert(effects_view(r@) =~= spec_r.1);
                r
            },
        }
    }

    /// Handles the outcome of reading the file at `path` for `/send`: its bytes, or the
    /// error; see `upload_step`.
    pub fn upload_read(&mut self, path: &str, read: Result<Vec<u8>, String>, now: Timestamp) -> (r:
        Vec<ClientEffect>)
        requires
            old(self).wf(),
        ensures
            final(self).wf(),
            final(self)@ == upload_step(old(self)@, path@, read_view(read), now).0,
            effects_view(r@) == upload_step(old(self)@, path@, read_view(read), now).1,
    {
        let ghost spec_r = upload_step(old(self)@, path@, read_view(read), now);
        match read {
            Err(e) => {
                let mut t = owned("Cannot read '");
                t.append(path);
                t.append("': ");
                t.append(e.as_str());
                self.push_message(ServerToClient::Error { message: t });
                let r: Vec<ClientEffect> = Vec::new();
                assert(effects_view(r@) =~= spec_r.1);
                r
            },
            Ok(data) => {
                if data.len() > MAX_UPLOAD_BYTES {
                    let mut t = owned("File too large (");
                    let mib = data.len() / 1024 / 1024;
                    push_decimal(&mut t, mib as u64);
                    t.append("MB > 10MB limit)");
                    self.push_message(ServerToClient::Error { message: t });
                    let r: Vec<ClientEffect> = Vec::new();
                    assert(effects_view(r@) =~= spec_r.1);
                    r
                } else {
                    let filename = file_name_or_default_of(path);
                    let encoded = encode_base64(data.as_slice());
                    let mut t = owned("Uploading ");
                    t.append(path);
                    t.append("...");
                    self.push_message(system_alert(t, now));
                    let r = vec![
                        ClientEffect::Send(
                            ClientToServer::FileUpload { filename, data: encoded },
                        ),
                    ];
                    assert(effects_view(r@) =~= spec_r.1);
                    r
                }
            },
        }
    }

    /// A clock tick at `now_ms`: typing notices older than `TYPING_TIMEOUT_MS` expire.
    pub fn expire_typing(&mut self, now_ms: u64)
        requires
            old(self).wf(),
        ensures
            final(self).wf(),
            final(self)@ == (ClientView {
                typing: still_typing(old(self)@.typing, now_ms),
                ..old(self)@
            }),
    {
        self.input.typing_users = typing_still(&self.input.typing_users, now_ms);
        assert(self@ =~= ClientView { typing: still_typing(old(self)@.typing, now_ms), ..old(self)@ });
    }

    /// After a redraw that laid out `total` chat lines in a window of `height`: the
    /// scroll offset is kept within what the chat allows.
    pub fn fit_scroll(&mut self, total: usize, height: usize)
        requires
            old(self).wf(),
        ensures
            final(self).wf(),
            final(self)@ == (ClientView {
                scroll: crate::client::tui::clamped_scroll(
                    old(self)@.scroll,
                    total as int,
                    height as int,
                ),
                ..old(self)@
            }),
    {
        self.input.scroll_offset = crate::client::tui::clamp_scroll(
            self.input.scroll_offset,
            total,
            height,
        );
        assert(self@ =~= ClientView {
            scroll: crate::client::tui::clamped_scroll(old(self)@.scroll, total as int, height as int),
            ..old(self)@
        });
    }
}


// ---------------------------------------------------------------------------
// The server's answer to the handshake
// ---------------------------------------------------------------------------

/// What the server's first answer means: its name when it welcomes the client, else the
/// text the client shows before it ends (the refusal, an unexpected message, or a
/// connection closed before any answer).
pub open spec fn welcome_outcome(reply: Option<ServerMsgView>) -> Result<Seq<char>, Seq<char>> {
    match reply {
        Some(ServerMsgView::Welcome(name)) => Ok(name),
        Some(ServerMsgView::Error(message)) => Err("Connection rejected: "@ + message),
        Some(_) => Err("Unexpected response from server"@),
        None => Err("Connection closed by server during handshake"@),
    }
}

/// The views of a result of texts.
pub open spec fn text_result_view(r: Result<String, String>) -> Result<Seq<char>, Seq<char>> {
    match r {
        Ok(t) => Ok(t@),
        Err(e) => Err(e@),
    }
}

/// Reads the server's first answer (`None` when the connection closed first); see
/// `welcome_outcome`.
pub fn read_welcome(reply: Option<ServerToClient>) -> (r: Result<String, String>)
    ensures
        text_result_view(r) == welcome_outcome(
            match reply {
                Some(m) => Some(m@),
                None => None,
            },
        ),
{
    match reply {
        Some(ServerToClient::Welcome { server_name }) => Ok(server_name),
        Some(ServerToClient::Error { message }) => {
            let mut t = owned("Connection rejected: ");
            t.append(message.as_str());
            Err(t)
        },
        Some(_) => Err(owned("Unexpected response from server")),
        None => Err(owned("Connection closed by server during handshake")),
    }
}

// ---------------------------------------------------------------------------
// Laws
// ---------------------------------------------------------------------------

/// A file once downloaded is opened from where it was saved: after the file `id` is
/// saved at `path`, `/open` of that id opens `path` and asks the server nothing.
pub proof fn lemma_open_after_download(
    c: ClientView,
    id: Seq<char>,
    filename: Seq<char>,
    path: Seq<char>,
    now: Timestamp,
    cmd: Seq<char>,
    later: Timestamp,
)
    requires
        starts_with(cmd, "/open "@),
        file_id_arg(cmd) == id,
        id.len() > 0,
    ensures
        file_request_step(download_step(c, id, filename, Ok(path), now).0, cmd, later).1
            == seq![EffectView::OpenFile(path)],
{
    crate::keyed::lemma_set_key(c.downloads, id, path, id);
}

/// `/open` of a file not downloaded yet asks the server for it, and the file is
/// opened as soon as it is saved.
pub proof fn lemma_open_before_download(
    c: ClientView,
    cmd: Seq<char>,
    now: Timestamp,
    filename: Seq<char>,
    path: Seq<char>,
    later: Timestamp,
)
    requires
        starts_with(cmd, "/open "@),
        file_id_arg(cmd).len() > 0,
        value_of(c.downloads, file_id_arg(cmd)) is None,
    ensures
        file_request_step(c, cmd, now).1 == seq![
            EffectView::Send(ClientMsgView::FileRequest(file_id_arg(cmd))),
        ],
        download_step(
            file_request_step(c, cmd, now).0,
            file_id_arg(cmd),
            filename,
            Ok(path),
            later,
        ).1 == seq![EffectView::OpenFile(path)],
        download_step(
            file_request_step(c, cmd, now).0,
            file_id_arg(cmd),
            filename,
            Ok(path),
            later,
        ).0.pending_open is None,
{
}

proof fn lemma_still_typing_absent(v: Seq<(Seq<char>, u64)>, now: u64, q: Seq<char>)
    requires
        value_of(v, q) is None,
    ensures
        value_of(still_typing(v, now), q) is None,
    decreases v.len(),
{
    if v.len() > 0 {
        lemma_still_typing_absent(v.drop_last(), now, q);
        let r = still_typing(v.drop_last(), now);
        if sat_sub(now as int, v.last().1 as int) < TYPING_TIMEOUT_MS {
            assert(r.push(v.last()).drop_last() == r);
        }
    }
}

/// A typing notice lasts `TYPING_TIMEOUT_MS`: a user heard typing at `t0` is still
/// shown as typing at `now` exactly when less than that has passed.
pub proof fn lemma_typing_expires(v: Seq<(Seq<char>, u64)>, u: Seq<char>, t0: u64, now: u64)
    ensures
        value_of(still_typing(set_key(v, u, t0), now), u) == if sat_sub(now as int, t0 as int)
            < TYPING_TIMEOUT_MS {
            Some(t0)
        } else {
            None
        },
{
    let d = drop_key(v, u);
    crate::keyed::lemma_drop_key_value_of(v, u, u);
    lemma_still_typing_absent(d, now, u);
    let w = set_key(v, u, t0);
    assert(w.drop_last() == d);
    let r = still_typing(d, now);
    if sat_sub(now as int, t0 as int) < TYPING_TIMEOUT_MS {
        assert(still_typing(w, now) == r.push((u, t0)));
    } else {
        assert(still_typing(w, now) == r);
    }
}

/// A user who stops typing is no longer shown as typing.
pub proof fn lemma_typing_stops(c: ClientView, u: Seq<char>, now: Timestamp, now_ms: u64)
    ensures
        value_of(server_message_step(c, ServerMsgView::UserTyping(u, false), now, now_ms).0.typing, u)
            is None,
        value_of(server_message_step(c, ServerMsgView::UserTyping(u, true), now, now_ms).0.typing, u)
            == Some(now_ms),
{
    crate::keyed::lemma_drop_key_value_of(c.typing, u, u);
    crate::keyed::lemma_set_key(c.typing, u, now_ms, u);
}

/// Scrolling never goes past the oldest line, and scrolling forward back to the newest
/// line makes the chat follow new messages again.
pub proof fn lemma_scroll_bounds(c: ClientView, amount: int, total: int, height: int)
    requires
        amount >= 0,
        total >= 0,
        height >= 0,
        0 <= c.scroll,
    ensures
        scrolled_back(c, amount, total, height).scroll <= max_scroll(total, height),
        !scrolled_back(c, amount, total, height).auto_scroll,
        amount >= c.scroll ==> scrolled_forward(c, amount).scroll == 0
            && scrolled_forward(c, amount).auto_scroll,
{
}

} // verus!
