//! The command line: start a server, join one, or change the profile's name.
use vstd::prelude::*;

use crate::config::Config;
use crate::text::{owned, string_of, trim, trimmed};

verus! {

broadcast use vstd::string::group_string_axioms;

/// The parsed command line.
#[derive(Clone, Debug)]
pub struct Cli {
    pub command: Commands,
}

/// What the program is asked to do.
#[derive(Clone, Debug)]
pub enum Commands {
    /// Start a server (named on the line or when asked), listening on `ip:port`.
    Start { name: Option<String>, ip: String, port: u16, debug: bool },
    /// Join the server at `ip:port`, as `name` or as the profile's name.
    Join { ip: String, port: u16, name: Option<String> },
    /// Change the profile's name.
    Profile { name: String },
}

/// The address a server listens on when none is given.
pub open spec fn default_ip_text() -> Seq<char> {
    "0.0.0.0"@
}

/// The address a server listens on when none is given (see `default_ip_text`).
pub fn default_ip() -> (r: String)
    ensures
        r@ == default_ip_text(),
{
    owned("0.0.0.0")
}

/// The port when none is given.
pub const DEFAULT_PORT: u16 = 8080;

/// The name of a server that the user typed: trimmed, `default-server` when blank.
pub open spec fn typed_server_name(typed: Seq<char>) -> Seq<char> {
    if trim(typed).len() == 0 {
        "default-server"@
    } else {
        trim(typed)
    }
}

/// The server's name: the one on the command line, else the one typed (see
/// `typed_server_name`).
pub fn server_name_choice(given: Option<String>, typed: &str) -> (r: String)
    ensures
        r@ == match given {
            Some(n) => n@,
            None => typed_server_name(typed@),
        },
{
    match given {
        Some(n) => n,
        None => {
            let t = trimmed(typed);
            if t.len() == 0 {
                owned("default-server")
            } else {
                string_of(t.as_slice())
            }
        },
    }
}

/// The name to join as: the one on the command line, else the profile's.
pub fn join_name(given: Option<String>, profile: &Config) -> (r: String)
    ensures
        r@ == match given {
            Some(n) => n@,
            None => profile.name@,
        },
{
    match given {
        Some(n) => n,
        None => profile.name.clone(),
    }
}

/// The token the user typed, trimmed.
pub fn typed_token(typed: &str) -> (r: String)
    ensures
        r@ == trim(typed@),
{
    let t = trimmed(typed);
    string_of(t.as_slice())
}

/// The confirmation after a name change (after the check mark).
pub open spec fn profile_updated_text(name: Seq<char>) -> Seq<char> {
    " Profile updated! Your username is now '"@ + name + "'"@
}

/// The confirmation after a name change (see `profile_updated_text`).
pub fn profile_updated_message(name: &str) -> (r: String)
    ensures
        r@ == profile_updated_text(name@),
{
    let mut r = owned(" Profile updated! Your username is now '");
    r.append(name);
    r.append("'");
    r
}

} // verus!
