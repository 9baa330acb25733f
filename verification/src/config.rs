//! The user's profile: name, theme, name color and whether the sidebar is collapsed.
//! The caller reads and writes it as TOML; this module says what it holds and how
//! each change and each missing or broken file is handled.
use vstd::prelude::*;

use crate::protocol::opt_seq;
use crate::text::{owned, string_of, trim, trimmed};

verus! {

broadcast use vstd::string::group_string_axioms;

/// A user's profile.
#[derive(Clone, Debug)]
pub struct Config {
    pub name: String,
    pub theme: String,
    pub color: Option<String>,
    pub sidebar_collapsed: Option<bool>,
}

/// A profile as mathematical values.
pub struct ConfigView {
    pub name: Seq<char>,
    pub theme: Seq<char>,
    pub color: Option<Seq<char>>,
    pub sidebar_collapsed: Option<bool>,
}

impl View for Config {
    type V = ConfigView;

    open spec fn view(&self) -> ConfigView {
        ConfigView {
            name: self.name@,
            theme: self.theme@,
            color: opt_seq(self.color),
            sidebar_collapsed: self.sidebar_collapsed,
        }
    }
}

/// The theme of a profile that names none.
pub open spec fn default_theme_name() -> Seq<char> {
    "lagos"@
}

/// The theme of a profile that names none (see `default_theme_name`).
pub fn default_theme() -> (r: String)
    ensures
        r@ == default_theme_name(),
{
    owned("lagos")
}

/// A fresh profile for `name`: the default theme, no color, the sidebar as it comes.
pub open spec fn fresh_profile(name: Seq<char>) -> ConfigView {
    ConfigView {
        name,
        theme: default_theme_name(),
        color: None,
        sidebar_collapsed: None,
    }
}

impl Config {
    /// The profile used when the saved one cannot be parsed: the user
    /// `default-user` with a fresh profile.
    pub fn fallback() -> (r: Config)
        ensures
            r@ == fresh_profile("default-user"@),
    {
        Config {
            name: owned("default-user"),
            theme: default_theme(),
            color: None,
            sidebar_collapsed: None,
        }
    }

    /// The profile of a new user from the name they typed: the name is trimmed, and
    /// a blank name gives no profile.
    pub fn for_new_user(typed: &str) -> (r: Option<Config>)
        ensures
            match r {
                Some(c) => trim(typed@).len() > 0 && c@ == fresh_profile(trim(typed@)),
                None => trim(typed@).len() == 0,
            },
    {
        let t = trimmed(typed);
        if t.len() == 0 {
            None
        } else {
            Some(
                Config {
                    name: string_of(t.as_slice()),
                    theme: default_theme(),
                    color: None,
                    sidebar_collapsed: None,
                },
            )
        }
    }

    /// The profile with another name.
    pub fn with_name(self, name: String) -> (r: Config)
        ensures
            r@ == (ConfigView { name: name@, ..self@ }),
    {
        Config { name, ..self }
    }

    /// The profile with another theme.
    pub fn with_theme(self, theme: String) -> (r: Config)
        ensures
            r@ == (ConfigView { theme: theme@, ..self@ }),
    {
        Config { theme, ..self }
    }

    /// The profile with another color, or none.
    pub fn with_color(self, color: Option<String>) -> (r: Config)
        ensures
            r@ == (ConfigView { color: opt_seq(color), ..self@ }),
    {
        Config { color, ..self }
    }

    /// The profile with the sidebar collapsed or not.
    pub fn with_sidebar_collapsed(self, collapsed: bool) -> (r: Config)
        ensures
            r@ == (ConfigView { sidebar_collapsed: Some(collapsed), ..self@ }),
    {
        Config { sidebar_collapsed: Some(collapsed), ..self }
    }
}

} // verus!
