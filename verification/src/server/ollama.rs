//! The assistant behind `/ask`: an Ollama server reached through its OpenAI-style API.
//! The caller makes the two HTTP requests (the list of models, then the chat
//! completion); this module says where they go, what they carry, and what the answer
//! does to the chat.
use vstd::prelude::*;

use crate::protocol::{texts, ServerMsgView, ServerToClient, Timestamp};
use crate::server::state::{recorded, ServerState, ServerView};
use crate::server::{server_effects_view, LogLevel, ServerEffect, ServerEffectView};
use crate::text::{join_strings, join_text, owned, trim, trimmed, string_of};

verus! {

broadcast use vstd::string::group_string_axioms;

/// Where the API is when nothing else is configured.
pub open spec fn default_api_base() -> Seq<char> {
    "http://192.168.1.254:11434/v1"@
}

/// The API base: the configured one (the `OLLAMA_API_URL` setting), or the default.
pub fn api_base(configured: Option<String>) -> (r: String)
    ensures
        r@ == match configured {
            Some(c) => c@,
            None => default_api_base(),
        },
{
    match configured {
        Some(c) => c,
        None => owned("http://192.168.1.254:11434/v1"),
    }
}

/// `s` without the slashes at its end.
pub open spec fn without_trailing_slashes(s: Seq<char>) -> Seq<char>
    decreases s.len(),
{
    if s.len() > 0 && s.last() == '/' {
        without_trailing_slashes(s.drop_last())
    } else {
        s
    }
}

fn strip_trailing_slashes(s: &str) -> (r: Vec<char>)
    ensures
        r@ == without_trailing_slashes(s@),
{
    let cs = crate::text::chars_of(s);
    let mut n = cs.len();
    assert(cs@.take(cs@.len() as int) == cs@);
    while n > 0 && cs[n - 1] == '/'
        invariant
            n <= cs@.len(),
            without_trailing_slashes(s@) == without_trailing_slashes(cs@.take(n as int)),
            cs@ == s@,
        decreases n,
    {
        assert(cs@.take(n as int).drop_last() == cs@.take(n - 1));
        n = n - 1;
    }
    assert(cs@.subrange(0, n as int) == cs@.take(n as int));
    crate::text::sub_chars(cs.as_slice(), 0, n)
}

/// The URL that lists the models.
pub open spec fn models_url_of(base: Seq<char>) -> Seq<char> {
    without_trailing_slashes(base) + "/models"@
}

/// The URL that lists the models (see `models_url_of`).
pub fn models_url(base: &str) -> (r: String)
    ensures
        r@ == models_url_of(base@),
{
    let b = strip_trailing_slashes(base);
    let mut r = string_of(b.as_slice());
    r.append("/models");
    r
}

/// The URL of chat completions.
pub open spec fn completions_url_of(base: Seq<char>) -> Seq<char> {
    without_trailing_slashes(base) + "/chat/completions"@
}

/// The URL of chat completions (see `completions_url_of`).
pub fn completions_url(base: &str) -> (r: String)
    ensures
        r@ == completions_url_of(base@),
{
    let b = strip_trailing_slashes(base);
    let mut r = string_of(b.as_slice());
    r.append("/chat/completions");
    r
}

/// The model to ask: the first one the server lists, `llama3` when the list is empty
/// or could not be had (`None`).
pub open spec fn model_of(listed: Option<Seq<Seq<char>>>) -> Seq<char> {
    match listed {
        Some(ids) => if ids.len() > 0 {
            ids[0]
        } else {
            "llama3"@
        },
        None => "llama3"@,
    }
}

/// The model to ask (see `model_of`); `listed` holds the ids the server listed.
pub fn choose_model(listed: Option<Vec<String>>) -> (r: String)
    ensures
        r@ == model_of(
            match listed {
                Some(v) => Some(texts(v@)),
                None => None,
            },
        ),
{
    match listed {
        Some(ids) => {
            if ids.len() > 0 {
                ids[0].clone()
            } else {
                owned("llama3")
            }
        },
        None => owned("llama3"),
    }
}

/// The instructions that go with each question: the room, who is online, who asks,
/// and the recent chat.
pub open spec fn prompt_text(
    server_name: Seq<char>,
    users: Seq<Seq<char>>,
    asker: Seq<char>,
    history: Seq<Seq<char>>,
) -> Seq<char> {
    "You are a helpful chat assistant named Ollama inside a terminal chatroom.\nRoom context:\n- Server Name: "@
        + server_name + "\n- Current Online Users: ["@ + join_text(users, ", "@)
        + "]\n- User asking you: "@ + asker
        + "\n\nRecent Chat History (for context):\n---\n"@ + join_text(history, "\n"@)
        + "\n---\n\nInstructions:\n- Keep your response brief, max 200 characters or words.\n- Do not output any <think> tags or internal thinking steps; respond directly and concisely."@
}

/// The instructions for a question from `asker` (see `prompt_text`).
pub fn system_prompt(state: &ServerState, asker: &str) -> (r: String)
    ensures
        r@ == prompt_text(state@.server_name, state@.users, asker@, state@.history),
{
    let users = state.online_users();
    let mut r = owned(
        "You are a helpful chat assistant named Ollama inside a terminal chatroom.\nRoom context:\n- Server Name: ",
    );
    r.append(state.server_name.as_str());
    r.append("\n- Current Online Users: [");
    let u = join_strings(users.as_slice(), ", ");
    r.append(u.as_str());
    r.append("]\n- User asking you: ");
    r.append(asker);
    r.append("\n\nRecent Chat History (for context):\n---\n");
    let h = join_strings(state.history.as_slice(), "\n");
    r.append(h.as_str());
    r.append(
        "\n---\n\nInstructions:\n- Keep your response brief, max 200 characters or words.\n- Do not output any <think> tags or internal thinking steps; respond directly and concisely.",
    );
    r
}

/// One message of a chat completion request.
#[derive(Clone, Debug)]
pub struct PromptMessage {
    pub role: String,
    pub content: String,
}

/// A chat completion request: the model and the messages.
#[derive(Clone, Debug)]
pub struct ChatRequest {
    pub model: String,
    pub messages: Vec<PromptMessage>,
}

/// The request for `question` from `asker` to `model`: the instructions as the system
/// message, then the question as the user's.
pub fn chat_request(state: &ServerState, model: String, asker: &str, question: String) -> (r:
    ChatRequest)
    ensures
        r.model@ == model@,
        r.messages@.len() == 2,
        r.messages@[0].role@ == "system"@,
        r.messages@[0].content@ == prompt_text(
            state@.server_name,
            state@.users,
            asker@,
            state@.history,
        ),
        r.messages@[1].role@ == "user"@,
        r.messages@[1].content@ == question@,
{
    let prompt = system_prompt(state, asker);
    ChatRequest {
        model,
        messages: vec![
            PromptMessage { role: owned("system"), content: prompt },
            PromptMessage { role: owned("user"), content: question },
        ],
    }
}

/// How the completion request ended.
#[derive(Clone, Debug)]
pub enum AskReply {
    /// The API answered; the content of its first choice, if it gave any.
    Answered(Option<String>),
    /// The API answered with something that is not a chat completion.
    Unparsable,
    /// The API could not be reached; the error.
    Unreachable(String),
}

/// The assistant's reply as everyone gets it.
pub open spec fn assistant_message(content: Seq<char>, now: Timestamp) -> ServerMsgView {
    ServerMsgView::Broadcast("Ollama"@, content, now, Some("cyan"@))
}

/// What the end of a completion request does. An answer is trimmed, joins the history
/// as `Ollama: answer` and goes to everyone; otherwise everyone gets an error from the
/// assistant. Each case is logged.
pub open spec fn reply_step(
    s: ServerView,
    asker: Seq<char>,
    model: Seq<char>,
    reply: AskReply,
    now: Timestamp,
) -> (ServerView, Seq<ServerEffectView>) {
    let who = "Ollama query for '"@ + asker + "'"@;
    match reply {
        AskReply::Answered(Some(content)) => {
            let answer = trim(content@);
            (
                ServerView { history: recorded(s.history, "Ollama: "@ + answer), ..s },
                seq![
                    ServerEffectView::Log(
                        LogLevel::Info,
                        "Ollama successfully answered to '"@ + asker + "' using model '"@ + model
                            + "'"@,
                    ),
                    ServerEffectView::Broadcast(assistant_message(answer, now)),
                ],
            )
        },
        AskReply::Answered(None) => (
            s,
            seq![
                ServerEffectView::Log(
                    LogLevel::Warn,
                    who + " returned empty choices using model '"@ + model + "'"@,
                ),
                ServerEffectView::Broadcast(
                    assistant_message("Error: No completion choices returned from model."@, now),
                ),
            ],
        ),
        AskReply::Unparsable => (
            s,
            seq![
                ServerEffectView::Log(
                    LogLevel::Error,
                    who + " failed to parse response using model '"@ + model + "'"@,
                ),
                ServerEffectView::Broadcast(
                    assistant_message("Error: Failed to parse response from Ollama API."@, now),
                ),
            ],
        ),
        AskReply::Unreachable(e) => (
            s,
            seq![
                ServerEffectView::Log(
                    LogLevel::Error,
                    who + " failed to connect using model '"@ + model + "': "@ + e@,
                ),
                ServerEffectView::Broadcast(
                    assistant_message("Error: Failed to connect to Ollama: "@ + e@, now),
                ),
            ],
        ),
    }
}

fn assistant_broadcast(content: String, now: Timestamp) -> (r: ServerToClient)
    ensures
        r@ == assistant_message(content@, now),
{
    ServerToClient::Broadcast {
        sender: owned("Ollama"),
        content,
        timestamp: now,
        sender_color: Some(owned("cyan")),
    }
}

impl ServerState {
    /// Handles the end of the completion request that `asker` caused (see
    /// `reply_step`).
    pub fn on_assistant_reply(&mut self, asker: &str, model: &str, reply: AskReply, now: Timestamp) -> (r:
        Vec<ServerEffect>)
        requires
            old(self).wf(),
        ensures
            final(self).wf(),
            final(self)@ == reply_step(old(self)@, asker@, model@, reply, now).0,
            server_effects_view(r@) == reply_step(old(self)@, asker@, model@, reply, now).1,
    {
        let ghost spec_r = reply_step(old(self)@, asker@, model@, reply, now);
        let mut who = owned("Ollama query for '");
        who.append(asker);
        who.append("'");
        match reply {
            AskReply::Answered(Some(content)) => {
                let a = trimmed(content.as_str());
                let answer = string_of(a.as_slice());
                let mut line = owned("Ollama: ");
                line.append(answer.as_str());
                self.record_line(line);
                let mut log = owned("Ollama successfully answered to '");
                log.append(asker);
                log.append("' using model '");
                log.append(model);
                log.append("'");
                let r = vec![
                    ServerEffect::Log(LogLevel::Info, log),
                    ServerEffect::Broadcast(assistant_broadcast(answer, now)),
                ];
                assert(server_effects_view(r@) =~= spec_r.1);
                assert(self@ =~= spec_r.0);
                r
            },
            AskReply::Answered(None) => {
                who.append(" returned empty choices using model '");
                who.append(model);
                who.append("'");
                let r = vec![
                    ServerEffect::Log(LogLevel::Warn, who),
                    ServerEffect::Broadcast(
                        assistant_broadcast(
                            owned("Error: No completion choices returned from model."),
                            now,
                        ),
                    ),
                ];
                assert(server_effects_view(r@) =~= spec_r.1);
                r
            },
            AskReply::Unparsable => {
                who.append(" failed to parse response using model '");
                who.append(model);
                who.append("'");
                let r = vec![
                    ServerEffect::Log(LogLevel::Error, who),
                    ServerEffect::Broadcast(
                        assistant_broadcast(
                            owned("Error: Failed to parse response from Ollama API."),
                            now,
                        ),
                    ),
                ];
                assert(server_effects_view(r@) =~= spec_r.1);
                r
            },
            AskReply::Unreachable(e) => {
                who.append(" failed to connect using model '");
                who.append(model);
                who.append("': ");
                who.append(e.as_str());
                let mut text = owned("Error: Failed to connect to Ollama: ");
                text.append(e.as_str());
                let r = vec![
                    ServerEffect::Log(LogLevel::Error, who),
                    ServerEffect::Broadcast(assistant_broadcast(text, now)),
                ];
                assert(server_effects_view(r@) =~= spec_r.1);
                r
            },
        }
    }
}

} // verus!
