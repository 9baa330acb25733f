//! The texts and colors of the server's dashboard.
use vstd::prelude::*;

use crate::client::tui::{contains_chars, contains_text, TermColor};
use crate::server::state::ServerState;
use crate::server::LogLevel;
use crate::text::{chars_of, decimal, owned, push_char, push_decimal};

verus! {

broadcast use vstd::string::group_string_axioms;

/// The dashboard's title line.
pub open spec fn header_text(addr: Seq<char>, uptime: Seq<char>, token: Seq<char>) -> Seq<char> {
    "  TermChat Server Dashboard  |  Host: "@ + addr + "  |  Uptime: "@ + uptime
        + "  |  Secure Token: "@ + token
}

/// The dashboard's title line for the server listening on `addr`, up for `uptime`.
pub fn dashboard_header(state: &ServerState, addr: &str, uptime: &str) -> (r: String)
    ensures
        r@ == header_text(addr@, uptime@, state@.token),
{
    let mut r = owned("  TermChat Server Dashboard  |  Host: ");
    r.append(addr);
    r.append("  |  Uptime: ");
    r.append(uptime);
    r.append("  |  Secure Token: ");
    r.append(state.token.as_str());
    r
}

/// The dashboard's line of figures.
pub open spec fn stats_text(users: nat, files: nat, total: nat, debug: bool) -> Seq<char> {
    "  Online Users: "@ + decimal(users) + "   |   Files Shared: "@ + decimal(files)
        + "   |   Total Messages Exchanged: "@ + decimal(total) + "   |   AI Ollama Debug: "@
        + if debug {
        "ENABLED"@
    } else {
        "DISABLED"@
    }
}

/// The dashboard's line of figures for the server's state.
pub fn dashboard_stats(state: &ServerState) -> (r: String)
    ensures
        r@ == stats_text(
            state@.users.len(),
            state@.files.len(),
            state@.total_messages as nat,
            state@.debug,
        ),
{
    let mut r = owned("  Online Users: ");
    push_decimal(&mut r, state.users.len() as u64);
    r.append("   |   Files Shared: ");
    push_decimal(&mut r, state.file_count() as u64);
    r.append("   |   Total Messages Exchanged: ");
    push_decimal(&mut r, state.total_messages as u64);
    r.append("   |   AI Ollama Debug: ");
    if state.debug {
        r.append("ENABLED");
    } else {
        r.append("DISABLED");
    }
    r
}

/// The title of the list of online users.
pub open spec fn active_title(n: nat) -> Seq<char> {
    " Active ("@ + decimal(n) + ") "@
}

/// The title of the list of online users (see `active_title`).
pub fn active_users_title(n: usize) -> (r: String)
    ensures
        r@ == active_title(n as nat),
{
    let mut r = owned(" Active (");
    push_decimal(&mut r, n as u64);
    r.append(") ");
    r
}

/// `s` with each `\r\n` replaced by a space, left to right.
pub open spec fn without_crlf(s: Seq<char>) -> Seq<char>
    decreases s.len(),
{
    if s.len() == 0 {
        s
    } else if s.len() >= 2 && s[0] == '\r' && s[1] == '\n' {
        seq![' '] + without_crlf(s.skip(2))
    } else {
        seq![s[0]] + without_crlf(s.skip(1))
    }
}

/// `s` with each `\n` replaced by a space.
pub open spec fn without_lf(s: Seq<char>) -> Seq<char> {
    s.map_values(|c: char| if c == '\n' { ' ' } else { c })
}

/// A chat line as the dashboard shows it, on one line: `\r\n` and then `\n` become
/// spaces.
pub open spec fn one_line(s: Seq<char>) -> Seq<char> {
    without_lf(without_crlf(s))
}

/// A chat line as the dashboard shows it (see `one_line`).
pub fn dashboard_chat_line(line: &str) -> (r: String)
    ensures
        r@ == one_line(line@),
{
    let cs = chars_of(line);
    let n = cs.len();
    let mut a: Vec<char> = Vec::new();
    let mut i: usize = 0;
    assert(cs@.skip(0) =~= cs@);
    assert(a@ + without_crlf(cs@) =~= without_crlf(cs@));
    while i < n
        invariant
            n == cs@.len(),
            i <= n,
            without_crlf(cs@) == a@ + without_crlf(cs@.skip(i as int)),
        decreases n - i,
    {
        let ghost rest = cs@.skip(i as int);
        if i + 1 < n && cs[i] == '\r' && cs[i + 1] == '\n' {
            assert(rest.skip(2) == cs@.skip(i + 2));
            a.push(' ');
            assert(without_crlf(rest) == seq![' '] + without_crlf(cs@.skip(i + 2)));
            i = i + 2;
        } else {
            assert(rest.skip(1) == cs@.skip(i + 1));
            a.push(cs[i]);
            assert(without_crlf(rest) == seq![rest[0]] + without_crlf(cs@.skip(i + 1)));
            i = i + 1;
        }
    }
    assert(cs@.skip(n as int) =~= seq![]);
    assert(a@ + seq![] =~= a@);
    let mut r = String::new();
    let m = a.len();
    for j in 0..m
        invariant
            m == a@.len(),
            r@ == without_lf(a@.take(j as int)),
    {
        let c = if a[j] == '\n' {
            ' '
        } else {
            a[j]
        };
        push_char(&mut r, c);
        assert(without_lf(a@.take(j + 1)) =~= without_lf(a@.take(j as int)).push(c));
    }
    assert(a@.take(m as int) == a@);
    r
}

/// The color of a log line: red for errors, yellow for warnings, dark gray for debug
/// lines, gray otherwise (by the level tag the line holds).
pub open spec fn log_color(line: Seq<char>) -> TermColor {
    if contains_text(line, "[Error]"@) {
        TermColor::Red
    } else if contains_text(line, "[Warn]"@) {
        TermColor::Yellow
    } else if contains_text(line, "[Debug]"@) {
        TermColor::DarkGray
    } else {
        TermColor::Gray
    }
}

/// The color of a log line (see `log_color`).
pub fn log_line_color(line: &str) -> (r: TermColor)
    ensures
        r == log_color(line@),
{
    let cs = chars_of(line);
    if contains_chars(cs.as_slice(), "[Error]") {
        TermColor::Red
    } else if contains_chars(cs.as_slice(), "[Warn]") {
        TermColor::Yellow
    } else if contains_chars(cs.as_slice(), "[Debug]") {
        TermColor::DarkGray
    } else {
        TermColor::Gray
    }
}

/// The name of a log level as a log line shows it.
pub open spec fn level_name(l: LogLevel) -> Seq<char> {
    match l {
        LogLevel::Info => "Info"@,
        LogLevel::Warn => "Warn"@,
        LogLevel::Error => "Error"@,
        LogLevel::Debug => "Debug"@,
    }
}

/// A log line: the time, the level and the text.
pub open spec fn log_text(time: Seq<char>, level: LogLevel, text: Seq<char>) -> Seq<char> {
    "["@ + time + "] ["@ + level_name(level) + "] "@ + text
}

/// A log line written at `time` (see `log_text`).
pub fn log_line(time: &str, level: LogLevel, text: &str) -> (r: String)
    ensures
        r@ == log_text(time@, level, text@),
{
    let mut r = owned("[");
    r.append(time);
    r.append("] [");
    match level {
        LogLevel::Info => r.append("Info"),
        LogLevel::Warn => r.append("Warn"),
        LogLevel::Error => r.append("Error"),
        LogLevel::Debug => r.append("Debug"),
    }
    r.append("] ");
    r.append(text);
    r
}

} // verus!
