//! Color themes and the command names that the client completes.
use vstd::prelude::*;

use crate::text::{lowercase_of, str_eq, to_lower};

verus! {

/// The chat commands, in the order in which completion offers them.
pub const COMMANDS: [&'static str; 12] = [
    "/help",
    "/users",
    "/clear",
    "/refresh",
    "/info",
    "/exit",
    "/theme",
    "/debug",
    "/ask",
    "/send",
    "/download",
    "/open",
];

/// The names of the color themes, in the order in which completion offers them.
pub const THEME_NAMES: [&'static str; 7] = [
    "blurple",
    "matrix",
    "cyberpunk",
    "sunset",
    "lagos",
    "mint",
    "lavender",
];

/// The three colors of a theme, as RGB triples.
#[derive(Clone, Copy, Debug)]
pub struct ThemeColors {
    pub title: (u8, u8, u8),
    pub prompt: (u8, u8, u8),
    pub accent: (u8, u8, u8),
}

/// A theme whose three colors are all `c`.
pub open spec fn uniform(c: (u8, u8, u8)) -> ThemeColors {
    ThemeColors { title: c, prompt: c, accent: c }
}

/// The colors of the theme with the given lowercase name; unknown names give the
/// default "blurple" colors.
pub open spec fn colors_of_theme(name: Seq<char>) -> ThemeColors {
    if name == "lagos"@ {
        uniform((236, 110, 93))
    } else if name == "mint"@ {
        uniform((140, 216, 167))
    } else if name == "lavender"@ {
        uniform((193, 158, 214))
    } else if name == "matrix"@ {
        ThemeColors { title: (0, 255, 100), prompt: (0, 255, 100), accent: (100, 255, 150) }
    } else if name == "cyberpunk"@ {
        ThemeColors { title: (255, 0, 127), prompt: (255, 0, 127), accent: (255, 200, 0) }
    } else if name == "sunset"@ {
        ThemeColors { title: (255, 90, 90), prompt: (255, 180, 0), accent: (180, 80, 250) }
    } else {
        uniform((114, 137, 218))
    }
}

fn same_color(c: (u8, u8, u8)) -> (r: ThemeColors)
    ensures
        r == uniform(c),
{
    ThemeColors { title: c, prompt: c, accent: c }
}

impl ThemeColors {
    /// The colors of a theme, looked up by its name in any letter case.
    pub fn get(theme_name: &str) -> (r: Self)
        ensures
            r == colors_of_theme(lowercase_of(theme_name@)),
    {
        let lower = to_lower(theme_name);
        let name = lower.as_str();
        if str_eq(name, "lagos") {
            same_color((236, 110, 93))
        } else if str_eq(name, "mint") {
            same_color((140, 216, 167))
        } else if str_eq(name, "lavender") {
            same_color((193, 158, 214))
        } else if str_eq(name, "matrix") {
            ThemeColors { title: (0, 255, 100), prompt: (0, 255, 100), accent: (100, 255, 150) }
        } else if str_eq(name, "cyberpunk") {
            ThemeColors { title: (255, 0, 127), prompt: (255, 0, 127), accent: (255, 200, 0) }
        } else if str_eq(name, "sunset") {
            ThemeColors { title: (255, 90, 90), prompt: (255, 180, 0), accent: (180, 80, 250) }
        } else {
            same_color((114, 137, 218))
        }
    }
}

} // verus!
