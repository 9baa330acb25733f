//! How names and mentions are shown in the terminal.
use colored::Colorize;
use vstd::prelude::*;

use crate::client::theme::ThemeColors;
use crate::text::{
    alphanumeric, chars_of, decimal, is_alphanumeric, lowercase_of, push_char, string_of,
    sub_chars, to_lower,
};

verus! {

broadcast use vstd::string::group_string_axioms;

// ---------------------------------------------------------------------------
// Names
// ---------------------------------------------------------------------------

/// A display name: names longer than ten characters are cut to their first seven,
/// followed by `...`.
pub open spec fn shortened_name(name: Seq<char>) -> Seq<char> {
    if name.len() > 10 {
        name.take(7) + seq!['.', '.', '.']
    } else {
        name
    }
}

/// Shortens a user name for display (see `shortened_name`).
pub fn format_username(name: &str) -> (r: String)
    ensures
        r@ == shortened_name(name@),
{
    let chars = chars_of(name);
    if chars.len() > 10 {
        let mut r = string_of(sub_chars(chars.as_slice(), 0, 7).as_slice());
        r.append("...");
        proof {
            reveal_strlit("...");
        }
        r
    } else {
        crate::text::owned(name)
    }
}

/// The color hash of a name: for each character, add its code and multiply by 31,
/// both modulo 2^32.
pub open spec fn name_hash(s: Seq<char>) -> u32
    decreases s.len(),
{
    if s.len() == 0 {
        0
    } else {
        vstd::wrapping::u32_specs::wrapping_mul(
            vstd::wrapping::u32_specs::wrapping_add(name_hash(s.drop_last()), s.last() as u32),
            31,
        )
    }
}

/// Computes `name_hash`.
pub fn hash_name(name: &str) -> (r: u32)
    ensures
        r == name_hash(name@),
{
    let cs = chars_of(name);
    let n = cs.len();
    let mut hash: u32 = 0;
    for i in 0..n
        invariant
            n == cs@.len(),
            cs@ == name@,
            hash == name_hash(cs@.take(i as int)),
    {
        assert(cs@.take(i + 1).drop_last() == cs@.take(i as int));
        hash = hash.wrapping_add(cs[i] as u32).wrapping_mul(31);
    }
    assert(cs@.take(n as int) == cs@);
    hash
}

/// The twelve colors that names are shown in.
#[derive(Clone, Copy, Debug, PartialEq, Eq, Structural)]
pub enum NameColor {
    Red,
    Green,
    Yellow,
    Blue,
    Magenta,
    Cyan,
    BrightRed,
    BrightGreen,
    BrightYellow,
    BrightBlue,
    BrightMagenta,
    BrightCyan,
}

/// The color at position `i` (taken modulo twelve) of the name palette.
pub open spec fn palette(i: int) -> NameColor {
    let k = i % 12;
    if k == 0 {
        NameColor::Red
    } else if k == 1 {
        NameColor::Green
    } else if k == 2 {
        NameColor::Yellow
    } else if k == 3 {
        NameColor::Blue
    } else if k == 4 {
        NameColor::Magenta
    } else if k == 5 {
        NameColor::Cyan
    } else if k == 6 {
        NameColor::BrightRed
    } else if k == 7 {
        NameColor::BrightGreen
    } else if k == 8 {
        NameColor::BrightYellow
    } else if k == 9 {
        NameColor::BrightBlue
    } else if k == 10 {
        NameColor::BrightMagenta
    } else {
        NameColor::BrightCyan
    }
}

/// The palette color at position `i` modulo twelve.
pub fn palette_color(i: u32) -> (r: NameColor)
    ensures
        r == palette(i as int),
{
    let k = i % 12;
    if k == 0 {
        NameColor::Red
    } else if k == 1 {
        NameColor::Green
    } else if k == 2 {
        NameColor::Yellow
    } else if k == 3 {
        NameColor::Blue
    } else if k == 4 {
        NameColor::Magenta
    } else if k == 5 {
        NameColor::Cyan
    } else if k == 6 {
        NameColor::BrightRed
    } else if k == 7 {
        NameColor::BrightGreen
    } else if k == 8 {
        NameColor::BrightYellow
    } else if k == 9 {
        NameColor::BrightBlue
    } else if k == 10 {
        NameColor::BrightMagenta
    } else {
        NameColor::BrightCyan
    }
}

/// The color that a name is always shown in.
pub fn name_color(name: &str) -> (r: NameColor)
    ensures
        r == palette(name_hash(name@) as int),
{
    palette_color(hash_name(name))
}

#[verifier::external_type_specification]
#[verifier::external_body]
pub struct ExColoredString(colored::ColoredString);

/// What colored's `text.color(c).bold()` gives, with `c` the colored color of the same
/// name as `color`: the text with that foreground color and the bold style. Verus does
/// not look into a `ColoredString`, so its fields are not spelled out; the value depends
/// on the text and the color alone (coloring is decided only when it is printed).
pub uninterp spec fn bold_colored(text: Seq<char>, color: NameColor) -> colored::ColoredString;

/// Calls colored's `name.color(c).bold()` with the colored color of the same name as
/// `color`. Claimed: the result is `bold_colored` of the name and the color, a function
/// of them alone.
#[verifier::external_body]
fn paint_name(name: &str, color: NameColor) -> (r: colored::ColoredString)
    ensures
        r == bold_colored(name@, color),
{
    let c = match color {
        NameColor::Red => colored::Color::Red,
        NameColor::Green => colored::Color::Green,
        NameColor::Yellow => colored::Color::Yellow,
        NameColor::Blue => colored::Color::Blue,
        NameColor::Magenta => colored::Color::Magenta,
        NameColor::Cyan => colored::Color::Cyan,
        NameColor::BrightRed => colored::Color::BrightRed,
        NameColor::BrightGreen => colored::Color::BrightGreen,
        NameColor::BrightYellow => colored::Color::BrightYellow,
        NameColor::BrightBlue => colored::Color::BrightBlue,
        NameColor::BrightMagenta => colored::Color::BrightMagenta,
        NameColor::BrightCyan => colored::Color::BrightCyan,
    };
    name.color(c).bold()
}

/// The name in bold, in the color that `name_color` picks for it.
pub fn get_colored_name(name: &str) -> (r: colored::ColoredString)
    ensures
        r == bold_colored(name@, palette(name_hash(name@) as int)),
{
    let color = name_color(name);
    paint_name(name, color)
}

// ---------------------------------------------------------------------------
// Splitting at spaces
// ---------------------------------------------------------------------------

/// The position of the first `c` in `s` at or after `k`, or -1.
pub open spec fn index_from(s: Seq<char>, c: char, k: int) -> int
    decreases s.len() - k,
{
    if 0 <= k < s.len() {
        if s[k] == c {
            k
        } else {
            index_from(s, c, k + 1)
        }
    } else {
        -1
    }
}

/// The pieces of `s` between the separator `c`, as `str::split(c)` gives them (empty
/// pieces included).
pub open spec fn split_at_char(s: Seq<char>, c: char) -> Seq<Seq<char>>
    decreases s.len(),
{
    let i = index_from(s, c, 0);
    if 0 <= i < s.len() {
        seq![s.take(i)].add(split_at_char(s.skip(i + 1), c))
    } else {
        seq![s]
    }
}

/// The pieces joined with the separator `c` between them.
pub open spec fn join_with(parts: Seq<Seq<char>>, c: char) -> Seq<char>
    decreases parts.len(),
{
    if parts.len() == 0 {
        seq![]
    } else if parts.len() == 1 {
        parts[0]
    } else {
        parts[0] + seq![c] + join_with(parts.drop_first(), c)
    }
}

pub proof fn lemma_index_from_scan(s: Seq<char>, c: char, k: int, j: int)
    requires
        0 <= k <= j <= s.len(),
        forall|m: int| k <= m < j ==> #[trigger] s[m] != c,
        j == s.len() || s[j] == c,
    ensures
        index_from(s, c, k) == (if j < s.len() { j } else { -1 }),
    decreases j - k,
{
    if k < j {
        lemma_index_from_scan(s, c, k + 1, j);
    }
}

pub proof fn lemma_split_nonempty(s: Seq<char>, c: char)
    ensures
        split_at_char(s, c).len() >= 1,
    decreases s.len(),
{
    let i = index_from(s, c, 0);
    if 0 <= i < s.len() {
        lemma_split_nonempty(s.skip(i + 1), c);
    }
}

/// Joining the pieces of a split gives back the text: `split` and `join` with the
/// same separator undo each other.
pub proof fn lemma_join_split(s: Seq<char>, c: char)
    ensures
        join_with(split_at_char(s, c), c) == s,
    decreases s.len(),
{
    let i = index_from(s, c, 0);
    if 0 <= i < s.len() {
        let rest = s.skip(i + 1);
        lemma_index_from_bounds(s, c, 0);
        lemma_split_nonempty(rest, c);
        lemma_join_split(rest, c);
        let parts = split_at_char(s, c);
        assert(parts.drop_first() == split_at_char(rest, c));
        assert(s.take(i) + seq![c] + rest =~= s);
    }
}

proof fn lemma_index_from_bounds(s: Seq<char>, c: char, k: int)
    requires
        0 <= k,
    ensures
        ({
            let i = index_from(s, c, k);
            i == -1 || (k <= i < s.len() && s[i] == c)
        }),
    decreases s.len() - k,
{
    if 0 <= k < s.len() && s[k] != c {
        lemma_index_from_bounds(s, c, k + 1);
    }
}

/// The pieces of `s` between the separator `c`.
pub fn split_chars(s: &[char], c: char) -> (r: Vec<Vec<char>>)
    ensures
        r@.map_values(|v: Vec<char>| v@) == split_at_char(s@, c),
{
    let n = s.len();
    let mut parts: Vec<Vec<char>> = Vec::new();
    let mut start: usize = 0;
    let mut i: usize = 0;
    assert(s@.skip(0) == s@);
    assert(parts@.map_values(|v: Vec<char>| v@) + split_at_char(s@, c) == split_at_char(s@, c));
    while i < n
        invariant
            n == s@.len(),
            start <= i <= n,
            forall|m: int| start <= m < i ==> #[trigger] s@[m] != c,
            parts@.map_values(|v: Vec<char>| v@) + split_at_char(s@.skip(start as int), c)
                == split_at_char(s@, c),
        decreases n - i,
    {
        if s[i] == c {
            let ghost t = s@.skip(start as int);
            proof {
                assert forall|m: int| 0 <= m < i - start implies #[trigger] t[m] != c by {
                    assert(t[m] == s@[m + start]);
                }
                lemma_index_from_scan(t, c, 0, i - start);
                assert(t.take(i - start) == s@.subrange(start as int, i as int));
                assert(t.skip(i - start + 1) == s@.skip(i + 1));
            }
            let piece = sub_chars(s, start, i);
            let ghost before = parts@.map_values(|v: Vec<char>| v@);
            parts.push(piece);
            assert(parts@.map_values(|v: Vec<char>| v@) == before.push(piece@));
            assert(split_at_char(t, c) == seq![piece@].add(split_at_char(s@.skip(i + 1), c)));
            assert(before + split_at_char(t, c) == before.push(piece@) + split_at_char(
                s@.skip(i + 1),
                c,
            ));
            start = i + 1;
        }
        i = i + 1;
    }
    let ghost t = s@.skip(start as int);
    proof {
        assert forall|m: int| 0 <= m < n - start implies #[trigger] t[m] != c by {
            assert(t[m] == s@[m + start]);
        }
        lemma_index_from_scan(t, c, 0, n - start);
    }
    let last = sub_chars(s, start, n);
    assert(last@ == t);
    let ghost before = parts@.map_values(|v: Vec<char>| v@);
    parts.push(last);
    assert(parts@.map_values(|v: Vec<char>| v@) == before.push(t));
    assert(before + seq![t] == before.push(t));
    parts
}

// ---------------------------------------------------------------------------
// Mentions
// ---------------------------------------------------------------------------

/// A character that may appear in a mentioned user name.
pub open spec fn name_char(c: char) -> bool {
    alphanumeric(c) || c == '_' || c == '-'
}

/// The length of the longest start of `s` made of name characters.
pub open spec fn name_run(s: Seq<char>) -> int
    decreases s.len(),
{
    if s.len() > 0 && name_char(s[0]) {
        1 + name_run(s.drop_first())
    } else {
        0
    }
}

/// How a word mentions a name: the text before its first `@`, the name after the `@`,
/// and the rest of the word. A word mentions a name when its first `@` is followed by
/// a letter or digit and nothing before it is a letter or digit.
pub open spec fn mention_split(tok: Seq<char>) -> Option<(Seq<char>, Seq<char>, Seq<char>)> {
    let a = index_from(tok, '@', 0);
    if 0 <= a && a + 1 < tok.len() && alphanumeric(tok[a + 1]) && (forall|j: int|
        0 <= j < a ==> !alphanumeric(#[trigger] tok[j]) && tok[j] != '@') {
        let rest = tok.skip(a + 1);
        let n = name_run(rest);
        Some((tok.take(a), rest.take(n), rest.skip(n)))
    } else {
        None
    }
}

/// Some online user has this name, ignoring letter case.
pub open spec fn is_online(users: Seq<Seq<char>>, name: Seq<char>) -> bool {
    exists|i: int| 0 <= i < users.len() && lowercase_of(users[i]) == lowercase_of(name)
}

/// A word of a chat line, either shown as it is or as a highlighted mention.
pub enum MentionPiece {
    Plain(String),
    Mention { leading: String, name: String, punctuation: String, is_self: bool },
}

/// A word of a chat line, as mathematical values.
pub enum PieceView {
    Plain(Seq<char>),
    Mention(Seq<char>, Seq<char>, Seq<char>, bool),
}

impl View for MentionPiece {
    type V = PieceView;

    open spec fn view(&self) -> PieceView {
        match self {
            MentionPiece::Plain(s) => PieceView::Plain(s@),
            MentionPiece::Mention { leading, name, punctuation, is_self } => PieceView::Mention(
                leading@,
                name@,
                punctuation@,
                *is_self,
            ),
        }
    }
}

/// How one word is shown: a mention of an online user is highlighted, and marked as
/// one of the reader themself when the name is `own` (ignoring letter case).
pub open spec fn piece_of(tok: Seq<char>, own: Seq<char>, users: Seq<Seq<char>>) -> PieceView {
    match mention_split(tok) {
        Some((lead, name, punct)) => if is_online(users, name) {
            PieceView::Mention(lead, name, punct, lowercase_of(name) == lowercase_of(own))
        } else {
            PieceView::Plain(tok)
        },
        None => PieceView::Plain(tok),
    }
}

/// The words of `content` (split at spaces), each as `piece_of` shows it.
pub open spec fn pieces_of(content: Seq<char>, own: Seq<char>, users: Seq<Seq<char>>) -> Seq<
    PieceView,
> {
    split_at_char(content, ' ').map_values(|t: Seq<char>| piece_of(t, own, users))
}

/// Whether one of the pieces mentions the reader.
pub open spec fn mentions_self(ps: Seq<PieceView>) -> bool {
    exists|i: int| 0 <= i < ps.len() && (#[trigger] ps[i] matches PieceView::Mention(_, _, _, true))
}

fn first_at(tok: &[char]) -> (r: usize)
    ensures
        r <= tok@.len(),
        r < tok@.len() ==> index_from(tok@, '@', 0) == r as int,
        r == tok@.len() ==> index_from(tok@, '@', 0) == -1,
{
    let n = tok.len();
    let mut i: usize = 0;
    while i < n && tok[i] != '@'
        invariant
            n == tok@.len(),
            i <= n,
            forall|m: int| 0 <= m < i ==> #[trigger] tok@[m] != '@',
        decreases n - i,
    {
        i = i + 1;
    }
    proof {
        lemma_index_from_scan(tok@, '@', 0, i as int);
    }
    i
}

pub(crate) fn name_run_of(s: &[char]) -> (r: usize)
    ensures
        r == name_run(s@),
        r <= s@.len(),
        forall|k: int| 0 <= k < r ==> #[trigger] s@[k] != '\x1b',
{
    let n = s.len();
    let mut k: usize = 0;
    assert(s@.skip(0) == s@);
    while k < n && (is_alphanumeric(s[k]) || s[k] == '_' || s[k] == '-')
        invariant
            n == s@.len(),
            k <= n,
            name_run(s@) == k + name_run(s@.skip(k as int)),
            forall|m: int| 0 <= m < k ==> #[trigger] s@[m] != '\x1b',
        decreases n - k,
    {
        assert(s@.skip(k as int).drop_first() == s@.skip(k + 1));
        k = k + 1;
    }
    k
}

pub(crate) fn is_online_exec(users: &[String], name_lower: &[char]) -> (r: bool)
    ensures
        r == (exists|i: int|
            0 <= i < users@.len() && lowercase_of(users@[i]@) == name_lower@),
{
    let n = users.len();
    for i in 0..n
        invariant
            n == users@.len(),
            forall|j: int| 0 <= j < i ==> lowercase_of(#[trigger] users@[j]@) != name_lower@,
    {
        let low = to_lower(users[i].as_str());
        let lv = chars_of(low.as_str());
        if crate::text::same_chars(lv.as_slice(), name_lower) {
            return true;
        }
    }
    false
}

/// How one word is shown (see `piece_of`).
pub fn mention_piece(tok: &[char], own_lower: &[char], users: &[String]) -> (r: MentionPiece)
    requires
        exists|own: Seq<char>| own_lower@ == lowercase_of(own),
    ensures
        forall|own: Seq<char>|
            own_lower@ == lowercase_of(own) ==> r@ == piece_of(
                tok@,
                own,
                users@.map_values(|u: String| u@),
            ),
        r@ matches PieceView::Mention(_, name, _, _) ==> !name.contains('\x1b'),
{
    let ghost uv = users@.map_values(|u: String| u@);
    let a = first_at(tok);
    if a < tok.len() && a + 1 < tok.len() && is_alphanumeric(tok[a + 1]) {
        let mut ok = true;
        let mut j: usize = 0;
        while j < a
            invariant
                a < tok@.len(),
                j <= a,
                ok == (forall|m: int| 0 <= m < j ==> !alphanumeric(#[trigger] tok@[m]) && tok@[m]
                    != '@'),
            decreases a - j,
        {
            let c = tok[j];
            let good = !is_alphanumeric(c) && c != '@';
            ok = ok && good;
            j = j + 1;
        }
        if ok {
            let leading = sub_chars(tok, 0, a);
            let rest = sub_chars(tok, a + 1, tok.len());
            assert(rest@ == tok@.skip(a + 1));
            let n = name_run_of(rest.as_slice());
            let name = sub_chars(rest.as_slice(), 0, n);
            assert(!name@.contains('\x1b')) by {
                if name@.contains('\x1b') {
                    let k = choose|k: int| 0 <= k < name@.len() && name@[k] == '\x1b';
                    assert(rest@[k] == '\x1b');
                }
            }
            let punct = sub_chars(rest.as_slice(), n, rest.len());
            let name_s = string_of(name.as_slice());
            let name_low = to_lower(name_s.as_str());
            let name_lv = chars_of(name_low.as_str());
            let online = is_online_exec(users, name_lv.as_slice());
            proof {
                assert(online == is_online(uv, name@)) by {
                    if online {
                        let i = choose|i: int|
                            0 <= i < users@.len() && lowercase_of(#[trigger] users@[i]@) == name_lv@;
                        assert(uv[i] == users@[i]@);
                    } else {
                        assert forall|i: int| 0 <= i < uv.len() implies lowercase_of(uv[i])
                            != lowercase_of(name@) by {
                            assert(uv[i] == users@[i]@);
                        }
                    }
                }
            }
            if online {
                let is_self = crate::text::same_chars(name_lv.as_slice(), own_lower);
                return MentionPiece::Mention {
                    leading: string_of(leading.as_slice()),
                    name: name_s,
                    punctuation: string_of(punct.as_slice()),
                    is_self,
                };
            }
        }
    }
    MentionPiece::Plain(string_of(tok))
}

/// The words of `content` and how each is shown, and whether one of them mentions
/// `own_username`.
pub fn mention_pieces(content: &str, own_username: &str, online_users: &[String]) -> (r: (
    Vec<MentionPiece>,
    bool,
))
    ensures
        r.0@.map_values(|p: MentionPiece| p@) == pieces_of(
            content@,
            own_username@,
            online_users@.map_values(|u: String| u@),
        ),
        r.1 == mentions_self(pieces_of(content@, own_username@, online_users@.map_values(|u: String| u@))),
        forall|k: int|
            0 <= k < r.0@.len() ==> (#[trigger] r.0@[k]@ matches PieceView::Mention(_, name, _, _)
                ==> !name.contains('\x1b')),
{
    let ghost uv = online_users@.map_values(|u: String| u@);
    let own_low = to_lower(own_username);
    let own_lv = chars_of(own_low.as_str());
    let cs = chars_of(content);
    let toks = split_chars(cs.as_slice(), ' ');
    let ghost tv = toks@.map_values(|v: Vec<char>| v@);
    let n = toks.len();
    let mut pieces: Vec<MentionPiece> = Vec::new();
    let mut has_self = false;
    for i in 0..n
        invariant
            n == toks@.len(),
            tv == toks@.map_values(|v: Vec<char>| v@),
            tv == split_at_char(content@, ' '),
            own_lv@ == lowercase_of(own_username@),
            pieces@.map_values(|p: MentionPiece| p@) == tv.take(i as int).map_values(
                |t: Seq<char>| piece_of(t, own_username@, uv),
            ),
            has_self == mentions_self(pieces@.map_values(|p: MentionPiece| p@)),
            uv == online_users@.map_values(|u: String| u@),
            forall|k: int|
                0 <= k < pieces@.len() ==> (#[trigger] pieces@[k]@ matches PieceView::Mention(_, name, _, _)
                    ==> !name.contains('\x1b')),
    {
        let p = mention_piece(toks[i].as_slice(), own_lv.as_slice(), online_users);
        let ghost before = pieces@.map_values(|p: MentionPiece| p@);
        let self_here = match &p {
            MentionPiece::Mention { is_self, .. } => *is_self,
            MentionPiece::Plain(_) => false,
        };
        pieces.push(p);
        proof {
            let after = pieces@.map_values(|p: MentionPiece| p@);
            assert(after == before.push(p@));
            assert(tv.take(i + 1) == tv.take(i as int).push(tv[i as int]));
            assert(tv.take(i + 1).map_values(|t: Seq<char>| piece_of(t, own_username@, uv))
                == tv.take(i as int).map_values(|t: Seq<char>| piece_of(t, own_username@, uv)).push(
                piece_of(tv[i as int], own_username@, uv),
            ));
            if has_self || self_here {
                if has_self {
                    let k = choose|k: int|
                        0 <= k < before.len() && (#[trigger] before[k] matches PieceView::Mention(
                            _,
                            _,
                            _,
                            true,
                        ));
                    assert(after[k] == before[k]);
                } else {
                    assert(after[i as int] == p@);
                }
            } else {
                assert forall|k: int| 0 <= k < after.len() implies !(#[trigger] after[k] matches PieceView::Mention(
                    _,
                    _,
                    _,
                    true,
                )) by {
                    if k < before.len() {
                        assert(after[k] == before[k]);
                    }
                }
            }
        }
        has_self = has_self || self_here;
    }
    assert(tv.take(n as int) == tv);
    (pieces, has_self)
}

// ---------------------------------------------------------------------------
// Highlighting
// ---------------------------------------------------------------------------

/// The sequence with which colored ends a styled text: `ESC [ 0 m`.
pub open spec fn reset_sequence() -> Seq<char> {
    seq!['\x1b', '[', '0', 'm']
}

/// The codes of colored's sixteen basic foreground colors.
pub open spec fn basic_fg_code(code: Seq<char>) -> bool {
    ||| code == "30"@
    ||| code == "31"@
    ||| code == "32"@
    ||| code == "33"@
    ||| code == "34"@
    ||| code == "35"@
    ||| code == "36"@
    ||| code == "37"@
    ||| code == "90"@
    ||| code == "91"@
    ||| code == "92"@
    ||| code == "93"@
    ||| code == "94"@
    ||| code == "95"@
    ||| code == "96"@
    ||| code == "97"@
}

/// A code that colored writes for the foreground color `rgb`: the 24-bit code
/// `38;2;r;g;b`, or, where the terminal does not announce 24-bit color, the code of
/// the closest of its sixteen basic colors.
pub open spec fn fg_code(code: Seq<char>, rgb: (u8, u8, u8)) -> bool {
    ||| code == "38;2;"@ + decimal(rgb.0 as nat) + ";"@ + decimal(rgb.1 as nat) + ";"@
        + decimal(rgb.2 as nat)
    ||| basic_fg_code(code)
}

/// The style codes of bold (`1`), and of bold and underlined (`1;4`), each followed by
/// the separator before the color.
pub open spec fn style_codes(underline: bool) -> Seq<char> {
    if underline {
        "1;4;"@
    } else {
        "1;"@
    }
}

/// `p` is `text` as colored paints it bold (and underlined when `underline`) in the
/// color `rgb`: the text itself when coloring is off, or else `ESC [`, the style
/// codes, a color code for `rgb`, `m`, the text and the reset sequence.
pub open spec fn painted(p: Seq<char>, text: Seq<char>, rgb: (u8, u8, u8), underline: bool) -> bool {
    ||| p == text
    ||| exists|code: Seq<char>|
        fg_code(code, rgb) && p == "\x1b["@ + style_codes(underline) + code + "m"@ + text
            + reset_sequence()
}

/// Calls colored's `text.truecolor(r, g, b).bold().to_string()`. Colored colors only
/// where the environment and the terminal allow it, and picks a basic color where the
/// terminal does not announce 24-bit color, so what is claimed holds of every outcome:
/// the text comes back as it is, or painted bold in that color (see `painted`).
#[verifier::external_body]
fn paint_bold(text: &str, rgb: (u8, u8, u8)) -> (r: String)
    requires
        !text@.contains('\x1b'),
    ensures
        painted(r@, text@, rgb, false),
{
    text.truecolor(rgb.0, rgb.1, rgb.2).bold().to_string()
}

/// Calls colored's `text.truecolor(r, g, b).bold().underline().to_string()`; what is
/// claimed is what `paint_bold` claims, with the underline style added.
#[verifier::external_body]
fn paint_bold_underlined(text: &str, rgb: (u8, u8, u8)) -> (r: String)
    requires
        !text@.contains('\x1b'),
    ensures
        painted(r@, text@, rgb, true),
{
    text.truecolor(rgb.0, rgb.1, rgb.2).bold().underline().to_string()
}

/// A piece shown with `paint` standing for its painted `@name`.
pub open spec fn shown_piece(p: PieceView, paint: Seq<char>) -> Seq<char> {
    match p {
        PieceView::Plain(t) => t,
        PieceView::Mention(lead, _, punct, _) => lead + paint + punct,
    }
}

/// `line` shows the pieces, joined by spaces, each mention's `@name` painted bold in
/// the color `accent`, and underlined when it names the reader.
pub open spec fn shows_pieces(line: Seq<char>, ps: Seq<PieceView>, accent: (u8, u8, u8)) -> bool {
    exists|paints: Seq<Seq<char>>|
        {
            &&& paints.len() == ps.len()
            &&& (forall|i: int|
                0 <= i < ps.len() ==> (#[trigger] ps[i] matches PieceView::Mention(_, name, _, me)
                    ==> painted(paints[i], seq!['@'] + name, accent, me)))
            &&& line == join_with(
                Seq::new(ps.len(), |i: int| shown_piece(ps[i], paints[i])),
                ' ',
            )
        }
}

proof fn lemma_name_run_no_escape(s: Seq<char>)
    ensures
        forall|k: int| 0 <= k < name_run(s) ==> name_char(#[trigger] s[k]),
        0 <= name_run(s) <= s.len(),
    decreases s.len(),
{
    if s.len() > 0 && name_char(s[0]) {
        lemma_name_run_no_escape(s.drop_first());
        assert forall|k: int| 0 <= k < name_run(s) implies name_char(#[trigger] s[k]) by {
            if k > 0 {
                assert(s[k] == s.drop_first()[k - 1]);
            }
        }
    }
}

proof fn lemma_join_push(parts: Seq<Seq<char>>, x: Seq<char>, c: char)
    requires
        parts.len() > 0,
    ensures
        join_with(parts.push(x), c) == join_with(parts, c) + seq![c] + x,
    decreases parts.len(),
{
    if parts.len() == 1 {
        assert(parts.push(x).drop_first() == seq![x]);
        assert(join_with(seq![x], c) == x);
    } else {
        assert(parts.push(x).drop_first() == parts.drop_first().push(x));
        lemma_join_push(parts.drop_first(), x, c);
        let a = parts[0] + seq![c];
        let b = join_with(parts.drop_first(), c);
        assert(a + (b + seq![c] + x) == (a + b) + seq![c] + x);
    }
}

/// Highlights mentions of online users in a chat line: each is shown bold in the
/// accent color, and underlined too when it names the reader. Also tells whether the
/// line mentions the reader.
pub fn highlight_mentions(
    content: &str,
    own_username: &str,
    online_users: &[String],
    colors: ThemeColors,
) -> (r: (String, bool))
    ensures
        shows_pieces(
            r.0@,
            pieces_of(content@, own_username@, online_users@.map_values(|u: String| u@)),
            colors.accent,
        ),
        r.1 == mentions_self(pieces_of(content@, own_username@, online_users@.map_values(|u: String| u@))),
{
    let ghost ps = pieces_of(content@, own_username@, online_users@.map_values(|u: String| u@));
    let (pieces, has_self) = mention_pieces(content, own_username, online_users);
    let n = pieces.len();
    let mut line = String::new();
    let ghost mut paints: Seq<Seq<char>> = seq![];
    for i in 0..n
        invariant
            n == pieces@.len(),
            pieces@.map_values(|p: MentionPiece| p@) == ps,
            paints.len() == i,
            forall|k: int|
                0 <= k < i ==> (#[trigger] ps[k] matches PieceView::Mention(_, name, _, me)
                    ==> painted(paints[k], seq!['@'] + name, colors.accent, me)),
            line@ == join_with(
                Seq::new(i as nat, |k: int| shown_piece(ps[k], paints[k])),
                ' ',
            ),
            forall|k: int|
                0 <= k < pieces@.len() ==> (#[trigger] pieces@[k]@ matches PieceView::Mention(_, name, _, _)
                    ==> !name.contains('\x1b')),
    {
        if i > 0 {
            line.append(" ");
            proof {
                reveal_strlit(" ");
            }
        }
        let ghost pv = pieces@[i as int]@;
        let ghost old_paints = paints;
        assert(pv == ps[i as int]);
        let shown: String = match &pieces[i] {
            MentionPiece::Plain(t) => {
                proof {
                    paints = paints.push(seq![]);
                }
                crate::text::owned(t.as_str())
            },
            MentionPiece::Mention { leading, name, punctuation, is_self } => {
                let mut at = crate::text::owned("@");
                at.append(name.as_str());
                proof {
                    reveal_strlit("@");
                    assert(at@ == seq!['@'] + name@);
                    assert(!at@.contains('\x1b')) by {
                        if at@.contains('\x1b') {
                            let k = choose|k: int| 0 <= k < at@.len() && at@[k] == '\x1b';
                            assert(k > 0);
                            assert(name@[k - 1] == '\x1b');
                        }
                    }
                }
                let p = if *is_self {
                    paint_bold_underlined(at.as_str(), colors.accent)
                } else {
                    paint_bold(at.as_str(), colors.accent)
                };
                proof {
                    paints = paints.push(p@);
                }
                let mut s = crate::text::owned(leading.as_str());
                s.append(p.as_str());
                s.append(punctuation.as_str());
                s
            },
        };
        let ghost before = line@;
        line.append(shown.as_str());
        proof {
            let f = |k: int| shown_piece(ps[k], paints[k]);
            let old_parts = Seq::new(i as nat, f);
            assert(old_parts =~= Seq::new(i as nat, |k: int| shown_piece(ps[k], old_paints[k])));
            let new_parts = Seq::new((i + 1) as nat, f);
            assert(shown@ == f(i as int));
            assert(new_parts == old_parts.push(shown@));
            if i > 0 {
                lemma_join_push(old_parts, shown@, ' ');
            } else {
                assert(new_parts == seq![shown@]);
            }
        }
    }
    proof {
        assert(paints.len() == ps.len());
    }
    (line, has_self)
}

/// Highlighting changes nothing in a line that mentions no online user: when every
/// word is shown plainly, the shown line is the line itself.
pub proof fn lemma_highlight_without_mentions(
    line: Seq<char>,
    content: Seq<char>,
    own: Seq<char>,
    users: Seq<Seq<char>>,
    accent: (u8, u8, u8),
)
    requires
        forall|i: int|
            0 <= i < pieces_of(content, own, users).len() ==> #[trigger] pieces_of(
                content,
                own,
                users,
            )[i] is Plain,
        shows_pieces(line, pieces_of(content, own, users), accent),
    ensures
        line == content,
{
    let ps = pieces_of(content, own, users);
    let toks = split_at_char(content, ' ');
    let paints = choose|paints: Seq<Seq<char>>|
        {
            &&& paints.len() == ps.len()
            &&& (forall|i: int|
                0 <= i < ps.len() ==> (#[trigger] ps[i] matches PieceView::Mention(_, name, _, me)
                    ==> painted(paints[i], seq!['@'] + name, accent, me)))
            &&& line == join_with(
                Seq::new(ps.len(), |i: int| shown_piece(ps[i], paints[i])),
                ' ',
            )
        };
    assert forall|i: int| 0 <= i < toks.len() implies piece_of(toks[i], own, users) == PieceView::Plain(
        toks[i],
    ) by {
        assert(ps[i] == piece_of(toks[i], own, users));
        assert(ps[i] is Plain);
    }
    assert(Seq::new(ps.len(), |i: int| shown_piece(ps[i], paints[i])) =~= toks);
    lemma_join_split(content, ' ');
}


// ---------------------------------------------------------------------------
// Line breaks for a terminal in raw mode
// ---------------------------------------------------------------------------

/// `s` with each `\r\n` turned into `\n`, left to right.
pub open spec fn crlf_to_lf(s: Seq<char>) -> Seq<char>
    decreases s.len(),
{
    if s.len() == 0 {
        s
    } else if s.len() >= 2 && s[0] == '\r' && s[1] == '\n' {
        seq!['\n'] + crlf_to_lf(s.skip(2))
    } else {
        seq![s[0]] + crlf_to_lf(s.skip(1))
    }
}

/// `s` with each `\n` turned into `\r\n`.
pub open spec fn lf_to_crlf(s: Seq<char>) -> Seq<char>
    decreases s.len(),
{
    if s.len() == 0 {
        s
    } else {
        (if s[0] == '\n' {
            seq!['\r', '\n']
        } else {
            seq![s[0]]
        }) + lf_to_crlf(s.skip(1))
    }
}

/// A text with the line breaks that a terminal in raw mode needs: every line break,
/// `\r\n` or `\n`, becomes `\r\n`.
pub open spec fn terminal_text(s: Seq<char>) -> Seq<char> {
    lf_to_crlf(crlf_to_lf(s))
}

/// A text with the line breaks that a terminal in raw mode needs (see
/// `terminal_text`).
pub fn normalize_newlines(text: &str) -> (r: String)
    ensures
        r@ == terminal_text(text@),
{
    let cs = chars_of(text);
    let n = cs.len();
    let mut a: Vec<char> = Vec::new();
    let mut i: usize = 0;
    assert(cs@.skip(0) =~= cs@);
    assert(a@ + crlf_to_lf(cs@) =~= crlf_to_lf(cs@));
    while i < n
        invariant
            n == cs@.len(),
            i <= n,
            crlf_to_lf(cs@) == a@ + crlf_to_lf(cs@.skip(i as int)),
        decreases n - i,
    {
        let ghost rest = cs@.skip(i as int);
        if i + 1 < n && cs[i] == '\r' && cs[i + 1] == '\n' {
            assert(rest.skip(2) == cs@.skip(i + 2));
            a.push('\n');
            assert(crlf_to_lf(rest) == seq!['\n'] + crlf_to_lf(cs@.skip(i + 2)));
            i = i + 2;
        } else {
            assert(rest.skip(1) == cs@.skip(i + 1));
            a.push(cs[i]);
            assert(crlf_to_lf(rest) == seq![rest[0]] + crlf_to_lf(cs@.skip(i + 1)));
            i = i + 1;
        }
    }
    assert(cs@.skip(n as int) =~= seq![]);
    assert(a@ + seq![] =~= a@);
    let mut r = String::new();
    let m = a.len();
    let mut j: usize = 0;
    assert(a@.skip(0) =~= a@);
    assert(r@ + lf_to_crlf(a@) =~= lf_to_crlf(a@));
    while j < m
        invariant
            m == a@.len(),
            j <= m,
            lf_to_crlf(a@) == r@ + lf_to_crlf(a@.skip(j as int)),
        decreases m - j,
    {
        let ghost rest = a@.skip(j as int);
        assert(rest.skip(1) == a@.skip(j + 1));
        if a[j] == '\n' {
            push_char(&mut r, '\r');
            push_char(&mut r, '\n');
        } else {
            push_char(&mut r, a[j]);
        }
        j = j + 1;
    }
    assert(a@.skip(m as int) =~= seq![]);
    assert(r@ + seq![] =~= r@);
    r
}

} // verus!
