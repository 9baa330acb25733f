//! The line editor of the chat client: key handling, history and completion.
use vstd::prelude::*;

use crate::client::emoji::{emoji_shortcodes, EMOJI_MAP};
use crate::client::theme::{COMMANDS, THEME_NAMES};
use crate::protocol::ServerToClient;
use crate::text::{
    ascii_lower, chars_of, has_prefix, is_ascii_text, lowercase_of, starts_with, string_of,
    sub_chars, to_lower,
};

verus! {

broadcast use vstd::string::group_string_axioms;

// ---------------------------------------------------------------------------
// Fuzzy matching
// ---------------------------------------------------------------------------

/// The characters of `q` occur in `t` in order; each is matched to the earliest
/// occurrence left in `t` after the previous one.
pub open spec fn in_order(q: Seq<char>, t: Seq<char>) -> bool
    decreases t.len(),
{
    if q.len() == 0 {
        true
    } else if t.len() == 0 {
        false
    } else if q[0] == t[0] {
        in_order(q.drop_first(), t.drop_first())
    } else {
        in_order(q, t.drop_first())
    }
}

/// `query` fuzzily matches `target`: ignoring letter case, the characters of the
/// query occur in the target in the same order.
pub open spec fn fuzzy_match(query: Seq<char>, target: Seq<char>) -> bool {
    in_order(lowercase_of(query), lowercase_of(target))
}

/// Whether, ignoring letter case, the characters of `query` occur in `target` in order.
pub fn is_fuzzy_match(query: &str, target: &str) -> (r: bool)
    ensures
        r == fuzzy_match(query@, target@),
{
    let ql = to_lower(query);
    let tl = to_lower(target);
    let q = chars_of(ql.as_str());
    let t = chars_of(tl.as_str());
    let qn = q.len();
    let tn = t.len();
    let mut i: usize = 0;
    let mut j: usize = 0;
    assert(q@.skip(0) == q@);
    assert(t@.skip(0) == t@);
    while i < qn
        invariant
            qn == q@.len(),
            tn == t@.len(),
            i <= qn,
            j <= tn,
            in_order(q@, t@) == in_order(q@.skip(i as int), t@.skip(j as int)),
            q@ == lowercase_of(query@),
            t@ == lowercase_of(target@),
        decreases qn - i,
    {
        while j < tn && t[j] != q[i]
            invariant
                qn == q@.len(),
                tn == t@.len(),
                i < qn,
                j <= tn,
                in_order(q@, t@) == in_order(q@.skip(i as int), t@.skip(j as int)),
            decreases tn - j,
        {
            assert(t@.skip(j as int).drop_first() == t@.skip(j + 1));
            j = j + 1;
        }
        if j == tn {
            assert(t@.skip(j as int).len() == 0);
            assert(q@.skip(i as int).len() > 0);
            assert(!in_order(q@.skip(i as int), t@.skip(j as int)));
            return false;
        }
        assert(t@.skip(j as int).drop_first() == t@.skip(j + 1));
        assert(q@.skip(i as int).drop_first() == q@.skip(i + 1));
        i = i + 1;
        j = j + 1;
    }
    assert(q@.skip(i as int).len() == 0);
    true
}

proof fn lemma_in_order_refl(s: Seq<char>)
    ensures
        in_order(s, s),
    decreases s.len(),
{
    if s.len() > 0 {
        lemma_in_order_refl(s.drop_first());
    }
}

/// Every text fuzzily matches itself.
pub proof fn lemma_fuzzy_match_reflexive(s: Seq<char>)
    ensures
        fuzzy_match(s, s),
{
    lemma_in_order_refl(lowercase_of(s));
}

/// Characters added to a target never undo a match: if `q` matches `t`, it matches
/// `t` followed by anything.
pub proof fn lemma_in_order_extend(q: Seq<char>, t: Seq<char>, u: Seq<char>)
    requires
        in_order(q, t),
    ensures
        in_order(q, t + u),
    decreases t.len(),
{
    if q.len() > 0 && t.len() > 0 {
        assert((t + u).drop_first() == t.drop_first() + u);
        if q[0] == t[0] {
            lemma_in_order_extend(q.drop_first(), t.drop_first(), u);
        } else {
            lemma_in_order_extend(q, t.drop_first(), u);
        }
    }
}

// ---------------------------------------------------------------------------
// The visible part of a long prompt
// ---------------------------------------------------------------------------

/// The room for prompt text on a terminal line of `width` columns.
pub open spec fn prompt_room(width: int) -> int {
    if width >= 5 { width - 5 } else { 0 }
}

/// The first shown position of a buffer of `len` characters that does not fit in
/// `room` columns: the cursor is kept near the middle, and the window is moved back
/// when it would run past the end.
pub open spec fn window_start(len: int, cursor: int, room: int) -> int {
    let start = if cursor >= room / 2 { cursor - room / 2 } else { 0 };
    let end = if start + room < len { start + room } else { len };
    if end == len { len - room } else { start }
}

/// The part of `buffer` shown on a line of `width` columns and the cursor column
/// within it.
pub open spec fn visible_prompt(buffer: Seq<char>, cursor: int, width: int) -> (Seq<char>, int) {
    let room = prompt_room(width);
    if room == 0 {
        (seq![], 0)
    } else if buffer.len() <= room {
        (buffer, cursor)
    } else {
        let start = window_start(buffer.len() as int, cursor, room);
        (buffer.subrange(start, start + room), cursor - start)
    }
}

/// The part of the buffer that fits on a line of `width` columns, and the cursor
/// position within that part.
pub fn get_visible_prompt_and_cursor(buffer: &[char], cursor_index: usize, width: usize) -> (r: (
    String,
    usize,
))
    requires
        buffer@.len() <= prompt_room(width as int) || (if cursor_index >= prompt_room(
            width as int,
        ) / 2 {
            cursor_index - prompt_room(width as int) / 2
        } else {
            0
        }) + prompt_room(width as int) <= usize::MAX,
    ensures
        (r.0@, r.1 as int) == visible_prompt(buffer@, cursor_index as int, width as int),
{
    let max_len = width.saturating_sub(5);
    if max_len == 0 {
        return (String::new(), 0);
    }
    if buffer.len() <= max_len {
        (string_of(buffer), cursor_index)
    } else {
        let half = max_len / 2;
        let start = cursor_index.saturating_sub(half);
        let end = if start + max_len < buffer.len() {
            start + max_len
        } else {
            buffer.len()
        };
        let start = if end == buffer.len() {
            buffer.len() - max_len
        } else {
            start
        };
        let visible = sub_chars(buffer, start, end);
        let visible_str = string_of(visible.as_slice());
        (visible_str, cursor_index - start)
    }
}

// ---------------------------------------------------------------------------
// Completion candidates
// ---------------------------------------------------------------------------

/// `/theme ` (with its space), the start of a theme change.
pub open spec fn theme_prefix() -> Seq<char> {
    seq!['/', 't', 'h', 'e', 'm', 'e', ' ']
}

fn theme_prefix_chars() -> (r: Vec<char>)
    ensures
        r@ == theme_prefix(),
{
    let r = vec!['/', 't', 'h', 'e', 'm', 'e', ' '];
    assert(r@ =~= theme_prefix());
    r
}

/// The texts of a sequence of string slices.
pub open spec fn names_view(names: Seq<&str>) -> Seq<Seq<char>> {
    names.map_values(|n: &str| n@)
}

/// The texts of a sequence of strings.
pub open spec fn strings_view(v: Seq<String>) -> Seq<Seq<char>> {
    v.map_values(|s: String| s@)
}

/// The theme names, in order.
pub open spec fn theme_names() -> Seq<Seq<char>> {
    names_view(THEME_NAMES@)
}

/// The command names, in order.
pub open spec fn command_names() -> Seq<Seq<char>> {
    names_view(COMMANDS@)
}

/// The position just after the last space of `s` (zero when there is none): where the
/// word that ends `s` starts.
pub open spec fn word_start(s: Seq<char>) -> int
    decreases s.len(),
{
    if s.len() == 0 {
        0
    } else if s.last() == ' ' {
        s.len() as int
    } else {
        word_start(s.drop_last())
    }
}

/// The first candidate, from position `i` on, that starts with `q`.
pub open spec fn first_prefixed(cands: Seq<Seq<char>>, q: Seq<char>, i: int) -> Option<int>
    decreases cands.len() - i,
{
    if 0 <= i < cands.len() {
        if starts_with(cands[i], q) {
            Some(i)
        } else {
            first_prefixed(cands, q, i + 1)
        }
    } else {
        None
    }
}

proof fn lemma_first_prefixed(cands: Seq<Seq<char>>, q: Seq<char>, i: int)
    requires
        first_prefixed(cands, q, i) is Some,
    ensures
        ({
            let j = first_prefixed(cands, q, i)->0;
            i <= j < cands.len() && starts_with(cands[j], q)
        }),
    decreases cands.len() - i,
{
    if 0 <= i < cands.len() && !starts_with(cands[i], q) {
        lemma_first_prefixed(cands, q, i + 1);
    }
}

/// The first user, from position `i` on, whose lowercase name starts with `q`.
pub open spec fn first_user_prefixed(users: Seq<Seq<char>>, q: Seq<char>, i: int) -> Option<int>
    decreases users.len() - i,
{
    if 0 <= i < users.len() {
        if starts_with(lowercase_of(users[i]), q) {
            Some(i)
        } else {
            first_user_prefixed(users, q, i + 1)
        }
    } else {
        None
    }
}

/// Every name is ASCII text.
pub open spec fn ascii_names(users: Seq<Seq<char>>) -> bool {
    forall|i: int| 0 <= i < users.len() ==> is_ascii_text(#[trigger] users[i])
}

proof fn lemma_first_user_prefixed(users: Seq<Seq<char>>, q: Seq<char>, j: int)
    requires
        0 <= j,
    ensures
        first_user_prefixed(users, q, j) matches Some(i) ==> j <= i < users.len() && starts_with(
            lowercase_of(users[i]),
            q,
        ),
    decreases users.len() - j,
{
    if 0 <= j < users.len() && !starts_with(lowercase_of(users[j]), q) {
        lemma_first_user_prefixed(users, q, j + 1);
    }
}

/// The candidates that `q` fuzzily matches, in order, each written between `pre` and
/// `post`.
pub open spec fn fuzzy_select(cands: Seq<Seq<char>>, q: Seq<char>, pre: Seq<char>, post: Seq<char>) -> Seq<
    Seq<char>,
>
    decreases cands.len(),
{
    if cands.len() == 0 {
        seq![]
    } else {
        let rest = fuzzy_select(cands.drop_last(), q, pre, post);
        if fuzzy_match(q, cands.last()) {
            rest.push(pre + cands.last() + post)
        } else {
            rest
        }
    }
}

/// The number of bytes that UTF-8 takes for a character.
pub open spec fn utf8_width(c: char) -> int {
    if (c as u32) < 0x80 {
        1
    } else if (c as u32) < 0x800 {
        2
    } else if (c as u32) < 0x10000 {
        3
    } else {
        4
    }
}

/// The number of bytes of the UTF-8 encoding of `s`.
pub open spec fn byte_len(s: Seq<char>) -> int
    decreases s.len(),
{
    if s.len() == 0 {
        0
    } else {
        byte_len(s.drop_last()) + utf8_width(s.last())
    }
}

/// What `&u[k..]` gives for a string `u` and a byte offset `k`: the characters after
/// the first `k` bytes, or nothing when `k` is not a character boundary of `u`
/// (where the slicing panics).
pub open spec fn after_bytes(u: Seq<char>, k: int) -> Option<Seq<char>>
    decreases u.len(),
{
    if k == 0 {
        Some(u)
    } else if u.len() == 0 || k < utf8_width(u[0]) {
        None
    } else {
        after_bytes(u.drop_first(), k - utf8_width(u[0]))
    }
}

fn char_width(c: char) -> (r: u128)
    ensures
        r == utf8_width(c),
{
    let v = c as u32;
    if v < 0x80 {
        1
    } else if v < 0x800 {
        2
    } else if v < 0x10000 {
        3
    } else {
        4
    }
}

fn bytes_in(s: &[char]) -> (r: u128)
    ensures
        r == byte_len(s@),
{
    let n = s.len();
    let mut acc: u128 = 0;
    for i in 0..n
        invariant
            n == s@.len(),
            acc == byte_len(s@.take(i as int)),
            acc <= 4 * i,
    {
        assert(s@.take(i + 1).drop_last() == s@.take(i as int));
        acc = acc + char_width(s[i]);
    }
    assert(s@.take(n as int) == s@);
    acc
}

proof fn lemma_ascii_byte_len(s: Seq<char>)
    requires
        is_ascii_text(s),
    ensures
        byte_len(s) == s.len(),
    decreases s.len(),
{
    if s.len() > 0 {
        assert(is_ascii_text(s.drop_last())) by {
            assert forall|i: int| 0 <= i < s.drop_last().len() implies (#[trigger] s.drop_last()[i]
                as u32) < 0x80 by {
                assert(s.drop_last()[i] == s[i]);
            }
        }
        lemma_ascii_byte_len(s.drop_last());
        assert((s[s.len() - 1] as u32) < 0x80);
    }
}

proof fn lemma_ascii_after_bytes(u: Seq<char>, k: int)
    requires
        is_ascii_text(u),
        0 <= k <= u.len(),
    ensures
        after_bytes(u, k) is Some,
    decreases u.len(),
{
    if k != 0 {
        assert((u[0] as u32) < 0x80);
        assert(is_ascii_text(u.drop_first())) by {
            assert forall|i: int| 0 <= i < u.drop_first().len() implies (#[trigger] u.drop_first()[i]
                as u32) < 0x80 by {
                assert(u.drop_first()[i] == u[i + 1]);
            }
        }
        lemma_ascii_after_bytes(u.drop_first(), k - 1);
    }
}

/// Completing a name never cuts an ASCII name inside a character: when the query is a
/// prefix of the lower-case form of an ASCII name, the rest of the name after the
/// query's bytes exists.
proof fn lemma_ascii_completion(u: Seq<char>, q: Seq<char>)
    requires
        is_ascii_text(u),
        lowercase_of(u) == u.map_values(|c: char| ascii_lower(c)),
        starts_with(lowercase_of(u), q),
    ensures
        after_bytes(u, byte_len(q)) is Some,
{
    assert(is_ascii_text(q)) by {
        assert forall|i: int| 0 <= i < q.len() implies (#[trigger] q[i] as u32) < 0x80 by {
            assert(q[i] == lowercase_of(u).take(q.len() as int)[i]);
            assert(q[i] == ascii_lower(u[i]));
            assert((u[i] as u32) < 0x80);
        }
    }
    lemma_ascii_byte_len(q);
    lemma_ascii_after_bytes(u, q.len() as int);
}

fn chars_after_bytes(u: &[char], k: u128) -> (r: Option<Vec<char>>)
    ensures
        match r {
            Some(v) => after_bytes(u@, k as int) == Some(v@),
            None => after_bytes(u@, k as int) is None,
        },
{
    let n = u.len();
    let mut i: usize = 0;
    let mut left: u128 = k;
    assert(u@.skip(0) == u@);
    while left > 0
        invariant
            n == u@.len(),
            i <= n,
            after_bytes(u@, k as int) == after_bytes(u@.skip(i as int), left as int),
        decreases n - i,
    {
        if i == n {
            return None;
        }
        let w = char_width(u[i]);
        assert(u@.skip(i as int)[0] == u@[i as int]);
        if left < w {
            return None;
        }
        assert(u@.skip(i as int).drop_first() == u@.skip(i + 1));
        left = left - w;
        i = i + 1;
    }
    Some(sub_chars(u, i, n))
}

/// Where the word that ends `s` starts.
pub(crate) fn word_start_of(s: &[char]) -> (r: usize)
    ensures
        r == word_start(s@),
        r <= s@.len(),
{
    let mut k = s.len();
    assert(s@.take(k as int) == s@);
    while k > 0 && s[k - 1] != ' '
        invariant
            k <= s@.len(),
            word_start(s@) == word_start(s@.take(k as int)),
        decreases k,
    {
        assert(s@.take(k as int).drop_last() == s@.take(k - 1));
        k = k - 1;
    }
    k
}

fn first_prefixed_name(names: &[&'static str], q: &[char]) -> (r: Option<usize>)
    ensures
        match r {
            Some(i) => first_prefixed(names_view(names@), q@, 0) == Some(i as int) && i
                < names@.len(),
            None => first_prefixed(names_view(names@), q@, 0) is None,
        },
{
    let n = names.len();
    let mut i: usize = 0;
    while i < n
        invariant
            n == names@.len(),
            i <= n,
            first_prefixed(names_view(names@), q@, 0) == first_prefixed(
                names_view(names@),
                q@,
                i as int,
            ),
        decreases n - i,
    {
        let c = chars_of(names[i]);
        if has_prefix(c.as_slice(), q) {
            return Some(i);
        }
        i = i + 1;
    }
    None
}

fn first_prefixed_shortcode(q: &[char]) -> (r: Option<usize>)
    ensures
        match r {
            Some(i) => first_prefixed(emoji_shortcodes(), q@, 0) == Some(i as int) && i
                < EMOJI_MAP@.len(),
            None => first_prefixed(emoji_shortcodes(), q@, 0) is None,
        },
{
    let n = EMOJI_MAP.len();
    let mut i: usize = 0;
    while i < n
        invariant
            n == EMOJI_MAP@.len(),
            i <= n,
            first_prefixed(emoji_shortcodes(), q@, 0) == first_prefixed(
                emoji_shortcodes(),
                q@,
                i as int,
            ),
        decreases n - i,
    {
        let c = chars_of(EMOJI_MAP[i].0);
        if has_prefix(c.as_slice(), q) {
            return Some(i);
        }
        i = i + 1;
    }
    None
}

fn first_user_prefixed_exec(users: &[String], q: &[char]) -> (r: Option<usize>)
    ensures
        match r {
            Some(i) => first_user_prefixed(strings_view(users@), q@, 0) == Some(i as int) && i
                < users@.len() && (is_ascii_text(users@[i as int]@) ==> lowercase_of(
                users@[i as int]@,
            ) == users@[i as int]@.map_values(|c: char| ascii_lower(c))),
            None => first_user_prefixed(strings_view(users@), q@, 0) is None,
        },
{
    let n = users.len();
    let mut i: usize = 0;
    while i < n
        invariant
            n == users@.len(),
            i <= n,
            first_user_prefixed(strings_view(users@), q@, 0) == first_user_prefixed(
                strings_view(users@),
                q@,
                i as int,
            ),
        decreases n - i,
    {
        let low = to_lower(users[i].as_str());
        let c = chars_of(low.as_str());
        if has_prefix(c.as_slice(), q) {
            return Some(i);
        }
        i = i + 1;
    }
    None
}

/// `pre`, then `mid`, then `post`, as one string.
fn framed(pre: &str, mid: &str, post: &str) -> (r: String)
    ensures
        r@ == pre@ + mid@ + post@,
{
    let mut r = crate::text::owned(pre);
    r.append(mid);
    r.append(post);
    r
}

fn fuzzy_select_names(names: &[&'static str], q: &str, pre: &str, post: &str) -> (r: Vec<String>)
    ensures
        strings_view(r@) == fuzzy_select(names_view(names@), q@, pre@, post@),
{
    let n = names.len();
    let mut r: Vec<String> = Vec::new();
    for i in 0..n
        invariant
            n == names@.len(),
            strings_view(r@) == fuzzy_select(names_view(names@.take(i as int)), q@, pre@, post@),
    {
        let ghost before = r@;
        assert(names_view(names@.take(i + 1)).drop_last() == names_view(names@.take(i as int)));
        assert(names_view(names@.take(i + 1)).last() == names@[i as int]@);
        if is_fuzzy_match(q, names[i]) {
            r.push(framed(pre, names[i], post));
            assert(strings_view(r@) == strings_view(before).push(pre@ + names@[i as int]@ + post@));
        }
    }
    assert(names@.take(n as int) == names@);
    r
}

fn fuzzy_select_shortcodes(q: &str) -> (r: Vec<String>)
    ensures
        strings_view(r@) == fuzzy_select(emoji_shortcodes(), q@, seq![':'], seq![':']),
{
    let n = EMOJI_MAP.len();
    let mut r: Vec<String> = Vec::new();
    proof {
        reveal_strlit(":");
    }
    for i in 0..n
        invariant
            n == EMOJI_MAP@.len(),
            ":"@ == seq![':'],
            strings_view(r@) == fuzzy_select(emoji_shortcodes().take(i as int), q@, seq![':'], seq![':']),
    {
        let ghost before = r@;
        assert(emoji_shortcodes().take(i + 1).drop_last() == emoji_shortcodes().take(i as int));
        assert(emoji_shortcodes().take(i + 1).last() == EMOJI_MAP@[i as int].0@);
        if is_fuzzy_match(q, EMOJI_MAP[i].0) {
            r.push(framed(":", EMOJI_MAP[i].0, ":"));
            assert(strings_view(r@) == strings_view(before).push(
                seq![':'] + EMOJI_MAP@[i as int].0@ + seq![':'],
            ));
        }
    }
    assert(emoji_shortcodes().take(n as int) == emoji_shortcodes());
    r
}

fn fuzzy_select_users(users: &[String], q: &str) -> (r: Vec<String>)
    ensures
        strings_view(r@) == fuzzy_select(strings_view(users@), q@, seq!['@'], seq![]),
{
    let n = users.len();
    let mut r: Vec<String> = Vec::new();
    proof {
        reveal_strlit("@");
        reveal_strlit("");
    }
    for i in 0..n
        invariant
            n == users@.len(),
            "@"@ == seq!['@'],
            ""@ == Seq::<char>::empty(),
            strings_view(r@) == fuzzy_select(strings_view(users@.take(i as int)), q@, seq!['@'], seq![]),
    {
        let ghost before = r@;
        assert(strings_view(users@.take(i + 1)).drop_last() == strings_view(users@.take(i as int)));
        assert(strings_view(users@.take(i + 1)).last() == users@[i as int]@);
        if is_fuzzy_match(q, users[i].as_str()) {
            r.push(framed("@", users[i].as_str(), ""));
            assert(strings_view(r@) == strings_view(before).push(
                seq!['@'] + users@[i as int]@ + Seq::<char>::empty(),
            ));
        }
    }
    assert(users@.take(n as int) == users@);
    r
}

/// What the right arrow adds at the end of the buffer `b` (`None` where completing would
/// cut a user name inside a character, which the client cannot do): the rest of the first theme, command,
/// user or emoji shortcode that the word being typed begins.
pub open spec fn right_suffix(b: Seq<char>, users: Seq<Seq<char>>) -> Option<Seq<char>> {
    if b.len() == 0 {
        Some(seq![])
    } else if b[0] == '/' {
        if starts_with(b, theme_prefix()) {
            let q = b.skip(7);
            if q.len() == 0 {
                Some(seq![])
            } else {
                match first_prefixed(theme_names(), q, 0) {
                    Some(i) => Some(theme_names()[i].skip(q.len() as int)),
                    None => Some(seq![]),
                }
            }
        } else {
            match first_prefixed(command_names(), b, 0) {
                Some(i) => Some(command_names()[i].skip(b.len() as int)),
                None => Some(seq![]),
            }
        }
    } else {
        let w = b.skip(word_start(b));
        if w.len() > 0 && w[0] == '@' {
            let q = lowercase_of(w.skip(1));
            if q.len() == 0 {
                Some(seq![])
            } else {
                match first_user_prefixed(users, q, 0) {
                    Some(i) => after_bytes(users[i], byte_len(q)),
                    None => Some(seq![]),
                }
            }
        } else if w.len() > 0 && w[0] == ':' && w.last() != ':' {
            let q = w.skip(1);
            match first_prefixed(emoji_shortcodes(), q, 0) {
                Some(i) => Some(seq![':'] + emoji_shortcodes()[i].skip(q.len() as int) + seq![':']),
                None => Some(seq![]),
            }
        } else {
            Some(seq![])
        }
    }
}

/// Computes `right_suffix`.
pub fn completion_suffix(b: &[char], users: &[String]) -> (r: Option<Vec<char>>)
    ensures
        match r {
            Some(v) => right_suffix(b@, strings_view(users@)) == Some(v@),
            None => right_suffix(b@, strings_view(users@)) is None,
        },
        ascii_names(strings_view(users@)) ==> r is Some,
{
    if b.len() == 0 {
        return Some(Vec::new());
    }
    if b[0] == '/' {
        let tp = theme_prefix_chars();
        if has_prefix(b, tp.as_slice()) {
            let q = sub_chars(b, 7, b.len());
            assert(q@ == b@.skip(7));
            if q.len() == 0 {
                return Some(Vec::new());
            }
            match first_prefixed_name(THEME_NAMES.as_slice(), q.as_slice()) {
                Some(i) => {
                    let t = chars_of(THEME_NAMES[i]);
                    assert(t@ == theme_names()[i as int]);
                    proof {
                        lemma_first_prefixed(theme_names(), q@, 0);
                    }
                    return Some(sub_chars(t.as_slice(), q.len(), t.len()));
                },
                None => {
                    return Some(Vec::new());
                },
            }
        } else {
            match first_prefixed_name(COMMANDS.as_slice(), b) {
                Some(i) => {
                    let t = chars_of(COMMANDS[i]);
                    assert(t@ == command_names()[i as int]);
                    proof {
                        lemma_first_prefixed(command_names(), b@, 0);
                    }
                    return Some(sub_chars(t.as_slice(), b.len(), t.len()));
                },
                None => {
                    return Some(Vec::new());
                },
            }
        }
    }
    let ws = word_start_of(b);
    let w = sub_chars(b, ws, b.len());
    assert(w@ == b@.skip(ws as int));
    if w.len() > 0 && w[0] == '@' {
        let rest = sub_chars(w.as_slice(), 1, w.len());
        assert(rest@ == w@.skip(1));
        let rest_s = string_of(rest.as_slice());
        let ql = to_lower(rest_s.as_str());
        let q = chars_of(ql.as_str());
        if q.len() == 0 {
            return Some(Vec::new());
        }
        match first_user_prefixed_exec(users, q.as_slice()) {
            Some(i) => {
                let u = chars_of(users[i].as_str());
                let k = bytes_in(q.as_slice());
                proof {
                    if ascii_names(strings_view(users@)) {
                        assert(strings_view(users@)[i as int] == users@[i as int]@);
                        lemma_first_user_prefixed(strings_view(users@), q@, 0);
                        lemma_ascii_completion(users@[i as int]@, q@);
                    }
                }
                return chars_after_bytes(u.as_slice(), k);
            },
            None => {
                return Some(Vec::new());
            },
        }
    } else if w.len() > 0 && w[0] == ':' && w[w.len() - 1] != ':' {
        let q = sub_chars(w.as_slice(), 1, w.len());
        assert(q@ == w@.skip(1));
        match first_prefixed_shortcode(q.as_slice()) {
            Some(i) => {
                let t = chars_of(EMOJI_MAP[i].0);
                assert(t@ == emoji_shortcodes()[i as int]);
                proof {
                    lemma_first_prefixed(emoji_shortcodes(), q@, 0);
                }
                let mut r: Vec<char> = Vec::new();
                r.push(':');
                let tail = sub_chars(t.as_slice(), q.len(), t.len());
                let mut tail2 = tail;
                r.append(&mut tail2);
                r.push(':');
                assert(r@ == seq![':'] + t@.skip(q@.len() as int) + seq![':']);
                return Some(r);
            },
            None => {
                return Some(Vec::new());
            },
        }
    }
    Some(Vec::new())
}

// ---------------------------------------------------------------------------
// Keys and the editor state
// ---------------------------------------------------------------------------

/// The keys that the editor tells apart.
#[derive(Clone, Copy, Debug, PartialEq, Eq, Structural)]
pub enum KeyCode {
    Char(char),
    Backspace,
    Delete,
    Left,
    Right,
    Home,
    End,
    Up,
    Down,
    PageUp,
    PageDown,
    Tab,
    Esc,
    Enter,
    F(u8),
    Other,
}

/// A key press (or repeat, or release) with the modifiers that were held.
#[derive(Clone, Copy, Debug, PartialEq, Eq, Structural)]
pub struct KeyEvent {
    pub code: KeyCode,
    pub control: bool,
    pub meta: bool,
    pub shift: bool,
    pub release: bool,
}

/// A user who is typing, and when the client last heard so (milliseconds on the
/// client's clock).
#[derive(Clone, Debug)]
pub struct TypingUser {
    pub name: String,
    pub last_seen_ms: u64,
}

/// The state of the client: the line being edited, its history and completion, and
/// what the chat window shows.
pub struct InputState {
    pub buffer: Vec<char>,
    pub cursor_index: usize,
    pub history: Vec<String>,
    pub history_index: Option<usize>,
    pub temp_buffer: Vec<char>,
    pub show_help: bool,
    pub tab_matches: Vec<String>,
    pub tab_index: Option<usize>,
    pub pre_tab_buffer: Vec<char>,
    pub pre_tab_cursor: usize,
    pub tab_word_start: Option<usize>,
    pub theme_name: String,
    pub online_users: Vec<String>,
    pub debug: bool,
    pub messages: Vec<ServerToClient>,
    pub typing_users: Vec<TypingUser>,
    pub scroll_offset: usize,
    pub auto_scroll: bool,
    pub sidebar_collapsed: bool,
}

/// The editor part of an `InputState`, as mathematical values.
#[verifier::ext_equal]
pub struct EditorView {
    pub buffer: Seq<char>,
    pub cursor: int,
    pub history: Seq<Seq<char>>,
    pub history_index: Option<int>,
    pub temp_buffer: Seq<char>,
    pub show_help: bool,
    pub tab_matches: Seq<Seq<char>>,
    pub tab_index: Option<int>,
    pub pre_tab_buffer: Seq<char>,
    pub pre_tab_cursor: int,
    pub tab_word_start: Option<int>,
    pub online_users: Seq<Seq<char>>,
}

/// An optional index as an optional integer.
pub open spec fn opt_int(o: Option<usize>) -> Option<int> {
    match o {
        Some(i) => Some(i as int),
        None => None,
    }
}

/// An optional string as optional text.
pub open spec fn opt_text(o: Option<String>) -> Option<Seq<char>> {
    match o {
        Some(s) => Some(s@),
        None => None,
    }
}

impl View for InputState {
    type V = EditorView;

    open spec fn view(&self) -> EditorView {
        EditorView {
            buffer: self.buffer@,
            cursor: self.cursor_index as int,
            history: strings_view(self.history@),
            history_index: opt_int(self.history_index),
            temp_buffer: self.temp_buffer@,
            show_help: self.show_help,
            tab_matches: strings_view(self.tab_matches@),
            tab_index: opt_int(self.tab_index),
            pre_tab_buffer: self.pre_tab_buffer@,
            pre_tab_cursor: self.pre_tab_cursor as int,
            tab_word_start: opt_int(self.tab_word_start),
            online_users: strings_view(self.online_users@),
        }
    }
}

/// The editor invariant: the cursor is within the buffer, the history position names
/// an entry, and a running completion knows its choice, its word and the line it
/// started from.
pub open spec fn editor_wf(v: EditorView) -> bool {
    &&& 0 <= v.cursor <= v.buffer.len()
    &&& (v.history_index matches Some(i) ==> 0 <= i < v.history.len())
    &&& 0 <= v.pre_tab_cursor
    &&& (v.tab_matches.len() > 0 ==> {
        &&& v.tab_index matches Some(i) && 0 <= i < v.tab_matches.len()
        &&& v.tab_word_start matches Some(ws) && 0 <= ws
        &&& v.pre_tab_cursor <= v.pre_tab_buffer.len()
        &&& v.tab_word_start->0 <= v.pre_tab_buffer.len()
    })
}

/// The editor with no completion running.
pub open spec fn reset_tab(v: EditorView) -> EditorView {
    EditorView {
        tab_index: None,
        tab_matches: seq![],
        pre_tab_buffer: seq![],
        pre_tab_cursor: 0,
        tab_word_start: None,
        ..v
    }
}

/// The editor with the help overlay closed.
pub open spec fn hide_help(v: EditorView) -> EditorView {
    EditorView { show_help: false, ..v }
}

/// The editor showing `b` with the cursor at its end.
pub open spec fn show_line(v: EditorView, b: Seq<char>) -> EditorView {
    EditorView { buffer: b, cursor: b.len() as int, ..v }
}

/// The Up arrow: the previous history entry (saving the line being edited when
/// history navigation starts).
pub open spec fn up_step(v: EditorView) -> EditorView {
    let v = hide_help(v);
    if v.history.len() == 0 {
        v
    } else {
        match v.history_index {
            None => {
                let i = v.history.len() - 1;
                show_line(
                    EditorView { temp_buffer: v.buffer, history_index: Some(i), ..v },
                    v.history[i],
                )
            },
            Some(idx) => if idx > 0 {
                show_line(EditorView { history_index: Some(idx - 1), ..v }, v.history[idx - 1])
            } else {
                v
            },
        }
    }
}

/// The Down arrow: the next history entry, or back to the saved line after the last.
pub open spec fn down_step(v: EditorView) -> EditorView {
    let v = hide_help(v);
    match v.history_index {
        Some(idx) => if idx + 1 < v.history.len() {
            show_line(EditorView { history_index: Some(idx + 1), ..v }, v.history[idx + 1])
        } else {
            show_line(EditorView { history_index: None, ..v }, v.temp_buffer)
        },
        None => v,
    }
}

/// The candidates of `fuzzy_select` are exactly the candidates that the query matches,
/// each written between `pre` and `post`.
pub proof fn lemma_fuzzy_select_members(
    cands: Seq<Seq<char>>,
    q: Seq<char>,
    pre: Seq<char>,
    post: Seq<char>,
    c: Seq<char>,
)
    ensures
        fuzzy_select(cands, q, pre, post).contains(c) <==> exists|i: int|
            0 <= i < cands.len() && fuzzy_match(q, #[trigger] cands[i]) && c == pre + cands[i] + post,
    decreases cands.len(),
{
    if cands.len() > 0 {
        let front = cands.drop_last();
        let rest = fuzzy_select(front, q, pre, post);
        lemma_fuzzy_select_members(front, q, pre, post, c);
        let last = cands.len() - 1;
        if fuzzy_select(cands, q, pre, post).contains(c) {
            if rest.contains(c) {
                let i = choose|i: int|
                    0 <= i < front.len() && fuzzy_match(q, #[trigger] front[i]) && c == pre + front[i] + post;
                assert(cands[i] == front[i]);
            } else {
                let k = choose|k: int| 0 <= k < fuzzy_select(cands, q, pre, post).len()
                    && fuzzy_select(cands, q, pre, post)[k] == c;
                if fuzzy_match(q, cands.last()) {
                    if k < rest.len() {
                        assert(rest[k] == c);
                        assert(rest.contains(c));
                    }
                    assert(cands[last] == cands.last());
                } else {
                    assert(rest[k] == c);
                }
            }
        } else {
            assert forall|i: int|
                0 <= i < cands.len() && fuzzy_match(q, #[trigger] cands[i]) implies c != pre + cands[i]
                + post by {
                let s = fuzzy_select(cands, q, pre, post);
                if c == pre + cands[i] + post {
                    if i < last {
                        assert(cands[i] == front[i]);
                        assert(rest.contains(c));
                        let k = choose|k: int| 0 <= k < rest.len() && rest[k] == c;
                        assert(s[k] == c);
                    } else {
                        assert(s[s.len() - 1] == pre + cands.last() + post);
                    }
                }
            }
        }
    }
}

/// Tab on a word `@q` offers exactly `@u` for each online user `u` that `q` (without
/// the `@`) matches.
pub proof fn lemma_at_word_candidates(q: Seq<char>, users: Seq<Seq<char>>, c: Seq<char>)
    ensures
        word_matches(seq!['@'] + q, users).contains(c) <==> exists|i: int|
            0 <= i < users.len() && fuzzy_match(q, #[trigger] users[i]) && c == seq!['@'] + users[i],
{
    let w = seq!['@'] + q;
    assert(w[0] == '@');
    assert(w.skip(1) =~= q);
    lemma_fuzzy_select_members(users, q, seq!['@'], seq![], c);
    if exists|i: int|
        0 <= i < users.len() && fuzzy_match(q, #[trigger] users[i]) && c == seq!['@'] + users[i] {
        let i = choose|i: int|
            0 <= i < users.len() && fuzzy_match(q, #[trigger] users[i]) && c == seq!['@'] + users[i];
        assert(c == seq!['@'] + users[i] + seq![]);
    }
    if exists|i: int|
        0 <= i < users.len() && fuzzy_match(q, #[trigger] users[i]) && c == seq!['@'] + users[i] + seq![] {
        let i = choose|i: int|
            0 <= i < users.len() && fuzzy_match(q, #[trigger] users[i]) && c == seq!['@'] + users[i]
                + seq![];
        assert(seq!['@'] + users[i] + seq![] =~= seq!['@'] + users[i]);
    }
}

/// `@` followed by the whole name of an online user is completed to that user.
pub proof fn lemma_at_online_name_completes(users: Seq<Seq<char>>, i: int)
    requires
        0 <= i < users.len(),
    ensures
        word_matches(seq!['@'] + users[i], users).contains(seq!['@'] + users[i]),
{
    lemma_fuzzy_match_reflexive(users[i]);
    lemma_at_word_candidates(users[i], users, seq!['@'] + users[i]);
}

/// Up while browsing the history at an entry other than the first shows the entry
/// before it, with the cursor at its end; the history stays as it was.
pub proof fn lemma_up_goes_back(v: EditorView, i: int)
    requires
        v.history_index == Some(i),
        0 < i < v.history.len(),
    ensures
        up_step(v).buffer == v.history[i - 1],
        up_step(v).cursor == v.history[i - 1].len(),
        up_step(v).history_index == Some(i - 1),
        up_step(v).history == v.history,
{
}

/// Down after Up while browsing the history at entry `i` (not the first) comes back
/// to that entry.
pub proof fn lemma_down_undoes_up(v: EditorView, i: int)
    requires
        v.history_index == Some(i),
        0 < i < v.history.len(),
    ensures
        down_step(up_step(v)).buffer == v.history[i],
        down_step(up_step(v)).history_index == Some(i),
{
}

/// Up from the line being edited shows the last entry of the history, and a second
/// Up the entry before it.
pub proof fn lemma_up_twice(v: EditorView)
    requires
        v.history_index is None,
        v.history.len() >= 2,
    ensures
        up_step(v).buffer == v.history.last(),
        up_step(up_step(v)).buffer == v.history[v.history.len() - 2],
{
    lemma_up_goes_back(up_step(v), v.history.len() - 1);
}

/// After sending a line `a` and then a different line `b`, Up shows `b` and a second
/// Up shows `a`.
pub proof fn lemma_up_recalls_sent_lines(v: EditorView, w: EditorView)
    requires
        crate::text::trim(v.buffer).len() > 0,
        crate::text::trim(w.buffer).len() > 0,
        w.buffer != v.buffer,
        w.history == enter_step(v).0.history,
        w.history_index is None,
    ensures
        up_step(enter_step(w).0).buffer == w.buffer,
        up_step(up_step(enter_step(w).0)).buffer == v.buffer,
{
    let h1 = enter_step(v).0.history;
    assert(h1.len() > 0 && h1.last() == v.buffer);
    let h2 = enter_step(w).0.history;
    assert(h2 == h1.push(w.buffer));
    assert(h2[h2.len() - 2] == h1.last());
    lemma_up_twice(enter_step(w).0);
}

/// Enter: the line is cleared, and handed on unless it is blank; a handed-on line
/// joins the history unless it repeats the last entry.
pub open spec fn enter_step(v: EditorView) -> (EditorView, Option<Seq<char>>) {
    let content = v.buffer;
    let v1 = EditorView {
        show_help: false,
        buffer: seq![],
        cursor: 0,
        history_index: None,
        ..v
    };
    if crate::text::trim(content).len() > 0 {
        let h = if v.history.len() > 0 && v.history.last() == content {
            v.history
        } else {
            v.history.push(content)
        };
        (EditorView { history: h, ..v1 }, Some(content))
    } else {
        (v1, None)
    }
}

/// The line after replacing the word that starts at `ws` (and ends at the cursor `c`
/// of the line `pre`) with `m`.
pub open spec fn replace_word(pre: Seq<char>, ws: int, c: int, m: Seq<char>) -> Seq<char> {
    pre.take(ws) + m + pre.skip(c)
}

/// The candidates that Tab offers for the word `w` at the cursor.
pub open spec fn word_matches(w: Seq<char>, users: Seq<Seq<char>>) -> Seq<Seq<char>> {
    if w[0] == '@' {
        fuzzy_select(users, w.skip(1), seq!['@'], seq![])
    } else if w[0] == '/' {
        fuzzy_select(command_names(), w, seq![], seq![])
    } else {
        fuzzy_select(emoji_shortcodes(), w.skip(1), seq![':'], seq![':'])
    }
}

/// The first Tab: collect the candidates (themes after `/theme `, else users, commands
/// or emoji shortcodes after `@`, `/` or `:`) and put in the first one.
pub open spec fn tab_start(v: EditorView) -> EditorView {
    if starts_with(v.buffer, theme_prefix()) {
        let ms = fuzzy_select(theme_names(), v.buffer.skip(7), theme_prefix(), seq![]);
        let v1 = EditorView {
            pre_tab_buffer: v.buffer,
            pre_tab_cursor: v.cursor,
            tab_word_start: Some(7),
            ..v
        };
        if ms.len() > 0 {
            show_line(EditorView { tab_matches: ms, tab_index: Some(0), ..v1 }, ms[0])
        } else {
            v1
        }
    } else {
        let before = v.buffer.take(v.cursor);
        let ws = word_start(before);
        let w = before.skip(ws);
        if w.len() > 0 && (w[0] == '@' || w[0] == '/' || w[0] == ':') {
            let ms = word_matches(w, v.online_users);
            let v1 = EditorView {
                pre_tab_buffer: v.buffer,
                pre_tab_cursor: v.cursor,
                tab_word_start: Some(ws),
                ..v
            };
            if ms.len() > 0 {
                EditorView {
                    tab_matches: ms,
                    tab_index: Some(0),
                    buffer: replace_word(v.buffer, ws, v.cursor, ms[0]),
                    cursor: ws + ms[0].len(),
                    ..v1
                }
            } else {
                v1
            }
        } else {
            v
        }
    }
}

/// A further Tab: the next candidate, round the list.
pub open spec fn tab_cycle(v: EditorView, idx: int, ws: int) -> EditorView {
    let next = (idx + 1) % (v.tab_matches.len() as int);
    let m = v.tab_matches[next];
    if starts_with(v.buffer, theme_prefix()) {
        show_line(EditorView { tab_index: Some(next), ..v }, m)
    } else {
        EditorView {
            tab_index: Some(next),
            buffer: replace_word(v.pre_tab_buffer, ws, v.pre_tab_cursor, m),
            cursor: ws + m.len(),
            ..v
        }
    }
}

/// Tab: start a completion, or go on to its next candidate.
pub open spec fn tab_step(v: EditorView) -> EditorView {
    if v.tab_matches.len() == 0 {
        tab_start(v)
    } else {
        match (v.tab_index, v.tab_word_start) {
            (Some(idx), Some(ws)) => tab_cycle(v, idx, ws),
            _ => v,
        }
    }
}

/// The right arrow: one step right, or at the end of the line, the completion.
pub open spec fn right_step(v: EditorView) -> EditorView {
    if v.cursor < v.buffer.len() {
        EditorView { cursor: v.cursor + 1, ..v }
    } else {
        show_line(v, v.buffer + right_suffix(v.buffer, v.online_users)->0)
    }
}

/// What a key does to the editor, and the line or command it hands on.
pub open spec fn key_step(v: EditorView, k: KeyEvent) -> (EditorView, Option<Seq<char>>) {
    if k.release {
        (v, None)
    } else {
        let v = if k.code == KeyCode::Tab { v } else { reset_tab(v) };
        match k.code {
            KeyCode::Char(c) => if c == 'c' && k.control {
                (v, Some("/exit"@))
            } else if c == 'l' && k.control {
                (v, Some("/clear"@))
            } else if !k.control && !k.meta {
                (
                    EditorView {
                        show_help: false,
                        buffer: v.buffer.insert(v.cursor, c),
                        cursor: v.cursor + 1,
                        ..v
                    },
                    None,
                )
            } else {
                (hide_help(v), None)
            },
            KeyCode::Backspace => if v.cursor > 0 {
                (
                    EditorView {
                        show_help: false,
                        buffer: v.buffer.remove(v.cursor - 1),
                        cursor: v.cursor - 1,
                        ..v
                    },
                    None,
                )
            } else {
                (hide_help(v), None)
            },
            KeyCode::Delete => if v.cursor < v.buffer.len() {
                (EditorView { show_help: false, buffer: v.buffer.remove(v.cursor), ..v }, None)
            } else {
                (hide_help(v), None)
            },
            KeyCode::Left => if v.cursor > 0 {
                (EditorView { cursor: v.cursor - 1, ..v }, None)
            } else {
                (v, None)
            },
            KeyCode::Right => (right_step(v), None),
            KeyCode::Home => (EditorView { cursor: 0, ..v }, None),
            KeyCode::End => (EditorView { cursor: v.buffer.len() as int, ..v }, None),
            KeyCode::Up => (up_step(v), None),
            KeyCode::Down => (down_step(v), None),
            KeyCode::Tab => (tab_step(v), None),
            KeyCode::Esc => (hide_help(v), None),
            KeyCode::Enter => enter_step(v),
            _ => (v, None),
        }
    }
}

/// The keys that the editor cannot handle (the client panics on them): the right arrow
/// at the end of a line whose `@` completion would cut a user name inside a character.
pub open spec fn key_panics(v: EditorView, k: KeyEvent) -> bool {
    &&& !k.release
    &&& k.code == KeyCode::Right
    &&& v.cursor >= v.buffer.len()
    &&& right_suffix(v.buffer, v.online_users) is None
}

proof fn lemma_fuzzy_select_framed(
    cands: Seq<Seq<char>>,
    q: Seq<char>,
    pre: Seq<char>,
    post: Seq<char>,
    m: int,
)
    requires
        0 <= m < fuzzy_select(cands, q, pre, post).len(),
    ensures
        starts_with(fuzzy_select(cands, q, pre, post)[m], pre),
    decreases cands.len(),
{
    if cands.len() > 0 {
        let rest = fuzzy_select(cands.drop_last(), q, pre, post);
        if m < rest.len() {
            lemma_fuzzy_select_framed(cands.drop_last(), q, pre, post, m);
        } else {
            let x = pre + cands.last() + post;
            assert(x.take(pre.len() as int) == pre);
        }
    }
}

proof fn lemma_strings_push(v: Seq<String>, s: String)
    ensures
        strings_view(v.push(s)) == strings_view(v).push(s@),
{
    assert(strings_view(v.push(s)) =~= strings_view(v).push(s@));
}

impl InputState {
    /// The editor invariant (see `editor_wf`).
    pub open spec fn wf(&self) -> bool {
        editor_wf(self@)
    }

    /// The parts of the state outside the editor are those of `other`.
    pub open spec fn same_outside_editor(&self, other: &Self) -> bool {
        &&& self.theme_name == other.theme_name
        &&& self.debug == other.debug
        &&& self.messages == other.messages
        &&& self.typing_users == other.typing_users
        &&& self.scroll_offset == other.scroll_offset
        &&& self.auto_scroll == other.auto_scroll
        &&& self.sidebar_collapsed == other.sidebar_collapsed
    }

    /// A fresh client state with the given theme: an empty line, no history, no
    /// messages, no users, the chat scrolled to its end.
    pub fn new(theme_name: String) -> (r: Self)
        ensures
            r.wf(),
            r@ == (EditorView {
                buffer: seq![],
                cursor: 0,
                history: seq![],
                history_index: None,
                temp_buffer: seq![],
                show_help: false,
                tab_matches: seq![],
                tab_index: None,
                pre_tab_buffer: seq![],
                pre_tab_cursor: 0,
                tab_word_start: None,
                online_users: seq![],
            }),
            r.theme_name == theme_name,
            !r.debug,
            r.messages@.len() == 0,
            r.typing_users@.len() == 0,
            r.scroll_offset == 0,
            r.auto_scroll,
            !r.sidebar_collapsed,
    {
        let r = Self {
            buffer: Vec::new(),
            cursor_index: 0,
            history: Vec::new(),
            history_index: None,
            temp_buffer: Vec::new(),
            show_help: false,
            tab_matches: Vec::new(),
            tab_index: None,
            pre_tab_buffer: Vec::new(),
            pre_tab_cursor: 0,
            tab_word_start: None,
            theme_name,
            online_users: Vec::new(),
            debug: false,
            messages: Vec::new(),
            typing_users: Vec::new(),
            scroll_offset: 0,
            auto_scroll: true,
            sidebar_collapsed: false,
        };
        assert(strings_view(r.history@) =~= seq![]);
        assert(strings_view(r.tab_matches@) =~= seq![]);
        assert(strings_view(r.online_users@) =~= seq![]);
        r
    }

    fn reset_completion(&mut self)
        requires
            old(self).wf(),
        ensures
            final(self)@ == reset_tab(old(self)@),
            final(self).wf(),
            final(self).same_outside_editor(old(self)),
    {
        self.tab_index = None;
        self.tab_matches.clear();
        self.pre_tab_buffer.clear();
        self.pre_tab_cursor = 0;
        self.tab_word_start = None;
        assert(strings_view(self.tab_matches@) =~= seq![]);
    }

    fn set_line(&mut self, b: Vec<char>)
        ensures
            final(self)@ == show_line(old(self)@, b@),
            final(self).same_outside_editor(old(self)),
    {
        self.buffer = b;
        self.cursor_index = self.buffer.len();
    }

    fn key_up(&mut self)
        requires
            old(self).wf(),
            old(self).tab_matches@.len() == 0,
        ensures
            final(self)@ == up_step(old(self)@),
            final(self).wf(),
            final(self).same_outside_editor(old(self)),
    {
        self.show_help = false;
        if self.history.len() > 0 {
            match self.history_index {
                None => {
                    let copy = sub_chars(self.buffer.as_slice(), 0, self.buffer.len());
                    assert(copy@ == self.buffer@);
                    self.temp_buffer = copy;
                    let new_idx = self.history.len() - 1;
                    self.history_index = Some(new_idx);
                    let line = chars_of(self.history[new_idx].as_str());
                    self.set_line(line);
                },
                Some(idx) => {
                    if idx > 0 {
                        let new_idx = idx - 1;
                        self.history_index = Some(new_idx);
                        let line = chars_of(self.history[new_idx].as_str());
                        self.set_line(line);
                    }
                },
            }
        }
    }

    fn key_down(&mut self)
        requires
            old(self).wf(),
            old(self).tab_matches@.len() == 0,
        ensures
            final(self)@ == down_step(old(self)@),
            final(self).wf(),
            final(self).same_outside_editor(old(self)),
    {
        self.show_help = false;
        assert(self@.history.len() == self.history@.len());
        match self.history_index {
            Some(idx) => {
                assert(old(self)@.history_index == Some(idx as int));
                let hl = self.history.len();
                assert(idx < hl);
                if idx + 1 < hl {
                    let new_idx = idx + 1;
                    self.history_index = Some(new_idx);
                    let line = chars_of(self.history[new_idx].as_str());
                    self.set_line(line);
                } else {
                    self.history_index = None;
                    let line = sub_chars(self.temp_buffer.as_slice(), 0, self.temp_buffer.len());
                    assert(line@ == self.temp_buffer@);
                    self.set_line(line);
                }
            },
            None => {},
        }
    }

    fn key_enter(&mut self) -> (r: Option<String>)
        requires
            old(self).wf(),
            old(self).tab_matches@.len() == 0,
        ensures
            (final(self)@, opt_text(r)) == enter_step(old(self)@),
            final(self).wf(),
            final(self).same_outside_editor(old(self)),
    {
        self.show_help = false;
        let content = string_of(self.buffer.as_slice());
        self.buffer.clear();
        self.cursor_index = 0;
        self.history_index = None;
        let t = crate::text::trimmed(content.as_str());
        if t.len() > 0 {
            let n = self.history.len();
            let repeated = n > 0 && self.history[n - 1] == content;
            if !repeated {
                let ghost h = self.history@;
                self.history.push(content.clone());
                proof {
                    lemma_strings_push(h, content);
                }
            }
            Some(content)
        } else {
            None
        }
    }

    fn key_right(&mut self)
        requires
            old(self).wf(),
            old(self).tab_matches@.len() == 0,
            old(self).cursor_index < old(self).buffer.len() || right_suffix(
                old(self)@.buffer,
                old(self)@.online_users,
            ) is Some || ascii_names(old(self)@.online_users),
        ensures
            old(self).cursor_index < old(self).buffer.len() || right_suffix(
                old(self)@.buffer,
                old(self)@.online_users,
            ) is Some,
            final(self)@ == right_step(old(self)@),
            final(self).wf(),
            final(self).same_outside_editor(old(self)),
    {
        if self.cursor_index < self.buffer.len() {
            self.cursor_index = self.cursor_index + 1;
        } else {
            match completion_suffix(self.buffer.as_slice(), self.online_users.as_slice()) {
                Some(suffix) => {
                    let mut b = sub_chars(self.buffer.as_slice(), 0, self.buffer.len());
                    let mut sfx = suffix;
                    b.append(&mut sfx);
                    self.set_line(b);
                },
                None => {},
            }
        }
    }

    fn start_completion(&mut self, matches: Vec<String>, ws: usize)
        requires
            old(self).wf(),
            old(self).tab_matches@.len() == 0,
            ws <= old(self).cursor_index,
        ensures
            ({
                let v = old(self)@;
                let ms = strings_view(matches@);
                let v1 = EditorView {
                    pre_tab_buffer: v.buffer,
                    pre_tab_cursor: v.cursor,
                    tab_word_start: Some(ws as int),
                    ..v
                };
                final(self)@ == if ms.len() > 0 {
                    EditorView {
                        tab_matches: ms,
                        tab_index: Some(0),
                        buffer: replace_word(v.buffer, ws as int, v.cursor, ms[0]),
                        cursor: ws + ms[0].len(),
                        ..v1
                    }
                } else {
                    v1
                }
            }),
            final(self).wf(),
            final(self).same_outside_editor(old(self)),
    {
        let pre = sub_chars(self.buffer.as_slice(), 0, self.buffer.len());
        assert(pre@ == self.buffer@);
        let cur = self.cursor_index;
        self.pre_tab_buffer = pre;
        self.pre_tab_cursor = cur;
        self.tab_word_start = Some(ws);
        if matches.len() > 0 {
            let first = chars_of(matches[0].as_str());
            let mlen = first.len();
            let mut b = sub_chars(self.pre_tab_buffer.as_slice(), 0, ws);
            let mut mid = sub_chars(first.as_slice(), 0, first.len());
            let mut tail = sub_chars(self.pre_tab_buffer.as_slice(), cur, self.pre_tab_buffer.len());
            let tlen = tail.len();
            b.append(&mut mid);
            b.append(&mut tail);
            let blen = b.len();
            assert(blen == ws + mlen + tlen);
            self.buffer = b;
            self.cursor_index = ws + mlen;
            self.tab_matches = matches;
            self.tab_index = Some(0);
        }
    }

    fn start_theme_completion(&mut self)
        requires
            old(self).wf(),
            old(self).tab_matches@.len() == 0,
            starts_with(old(self).buffer@, theme_prefix()),
        ensures
            final(self)@ == tab_start(old(self)@),
            final(self).wf(),
            final(self).same_outside_editor(old(self)),
    {
        let q = sub_chars(self.buffer.as_slice(), 7, self.buffer.len());
        let qs = string_of(q.as_slice());
        proof {
            reveal_strlit("/theme ");
            reveal_strlit("");
        }
        let names = THEME_NAMES.as_slice();
        assert(names@ == THEME_NAMES@);
        let ms = fuzzy_select_names(names, qs.as_str(), "/theme ", "");
        assert("/theme "@ == theme_prefix());
        assert(""@ =~= Seq::<char>::empty());
        assert(q@ == self.buffer@.skip(7));
        let pre = sub_chars(self.buffer.as_slice(), 0, self.buffer.len());
        assert(pre@ == self.buffer@);
        let cur = self.cursor_index;
        self.pre_tab_buffer = pre;
        self.pre_tab_cursor = cur;
        self.tab_word_start = Some(7);
        let ghost v = old(self)@;
        let ghost msv = fuzzy_select(theme_names(), v.buffer.skip(7), theme_prefix(), seq![]);
        assert(strings_view(ms@) == msv);
        let ghost v1 = EditorView {
            pre_tab_buffer: v.buffer,
            pre_tab_cursor: v.cursor,
            tab_word_start: Some(7),
            ..v
        };
        assert(self@ == v1);
        if ms.len() > 0 {
            let line = chars_of(ms[0].as_str());
            assert(line@ == msv[0]);
            self.tab_matches = ms;
            self.tab_index = Some(0);
            self.set_line(line);
            assert(self@ == show_line(EditorView { tab_matches: msv, tab_index: Some(0), ..v1 }, msv[0]));
            proof {
                let msv = fuzzy_select(theme_names(), q@, theme_prefix(), seq![]);
                assert forall|m: int| 0 <= m < msv.len() implies starts_with(
                    #[trigger] msv[m],
                    theme_prefix(),
                ) by {
                    lemma_fuzzy_select_framed(theme_names(), q@, theme_prefix(), seq![], m);
                }
            }
        }
    }

    fn key_tab(&mut self)
        requires
            old(self).wf(),
        ensures
            final(self)@ == tab_step(old(self)@),
            final(self).wf(),
            final(self).same_outside_editor(old(self)),
    {
        if self.tab_matches.len() == 0 {
            let tp = theme_prefix_chars();
            if has_prefix(self.buffer.as_slice(), tp.as_slice()) {
                self.start_theme_completion();
            } else {
                let before = sub_chars(self.buffer.as_slice(), 0, self.cursor_index);
                let ws = word_start_of(before.as_slice());
                let w = sub_chars(before.as_slice(), ws, before.len());
                assert(w@ == self.buffer@.take(self.cursor_index as int).skip(ws as int));
                if w.len() > 0 && w[0] == '@' {
                    let q = string_of(sub_chars(w.as_slice(), 1, w.len()).as_slice());
                    assert(q@ == w@.skip(1));
                    let ms = fuzzy_select_users(self.online_users.as_slice(), q.as_str());
                    assert(strings_view(ms@) == word_matches(w@, self@.online_users));
                    self.start_completion(ms, ws);
                } else if w.len() > 0 && w[0] == '/' {
                    let q = string_of(w.as_slice());
                    proof {
                        reveal_strlit("");
                    }
                    let ms = fuzzy_select_names(COMMANDS.as_slice(), q.as_str(), "", "");
                    assert(""@ =~= Seq::<char>::empty());
                    assert(strings_view(ms@) == word_matches(w@, self@.online_users));
                    self.start_completion(ms, ws);
                } else if w.len() > 0 && w[0] == ':' {
                    let q = string_of(sub_chars(w.as_slice(), 1, w.len()).as_slice());
                    assert(q@ == w@.skip(1));
                    let ms = fuzzy_select_shortcodes(q.as_str());
                    assert(strings_view(ms@) == word_matches(w@, self@.online_users));
                    self.start_completion(ms, ws);
                }
            }
        } else {
            match (self.tab_index, self.tab_word_start) {
                (Some(idx), Some(ws)) => {
                    let next = (idx + 1) % self.tab_matches.len();
                    self.tab_index = Some(next);
                    let m = chars_of(self.tab_matches[next].as_str());
                    assert(m@ == self@.tab_matches[next as int]);
                    let tp = theme_prefix_chars();
                    if has_prefix(self.buffer.as_slice(), tp.as_slice()) {
                        self.set_line(m);
                    } else {
                        let pc = self.pre_tab_cursor;
                        let mlen = m.len();
                        let mut b = sub_chars(self.pre_tab_buffer.as_slice(), 0, ws);
                        let mut mid = sub_chars(m.as_slice(), 0, m.len());
                        let mut tail = sub_chars(
                            self.pre_tab_buffer.as_slice(),
                            pc,
                            self.pre_tab_buffer.len(),
                        );
                        let tlen = tail.len();
                        b.append(&mut mid);
                        b.append(&mut tail);
                        let blen = b.len();
                        assert(blen == ws + mlen + tlen);
                        self.buffer = b;
                        self.cursor_index = ws + mlen;
                    }
                },
                _ => {},
            }
        }
    }

    /// Applies a key to the editor. Returns the command or chat line that the key
    /// hands on: `/exit` for Ctrl+C, `/clear` for Ctrl+L, and the line for Enter. The
    /// key must not be one that cannot be handled (see `key_panics`); with ASCII user
    /// names there is none.
    pub fn handle_key(&mut self, key: KeyEvent) -> (r: Option<String>)
        requires
            old(self).wf(),
            ascii_names(old(self)@.online_users) || !key_panics(old(self)@, key),
        ensures
            !key_panics(old(self)@, key),
            (final(self)@, opt_text(r)) == key_step(old(self)@, key),
            final(self).wf(),
            final(self).same_outside_editor(old(self)),
    {
        if key.release {
            return None;
        }
        let is_tab = match key.code {
            KeyCode::Tab => true,
            _ => false,
        };
        if !is_tab {
            self.reset_completion();
        }
        match key.code {
            KeyCode::Char(c) => {
                if c == 'c' && key.control {
                    return Some(crate::text::owned("/exit"));
                }
                if c == 'l' && key.control {
                    return Some(crate::text::owned("/clear"));
                }
                self.show_help = false;
                if !key.control && !key.meta {
                    self.buffer.insert(self.cursor_index, c);
                    let new_len = self.buffer.len();
                    assert(self.cursor_index < new_len);
                    self.cursor_index = self.cursor_index + 1;
                }
                None
            },
            KeyCode::Backspace => {
                self.show_help = false;
                if self.cursor_index > 0 {
                    self.buffer.remove(self.cursor_index - 1);
                    self.cursor_index = self.cursor_index - 1;
                }
                None
            },
            KeyCode::Delete => {
                self.show_help = false;
                if self.cursor_index < self.buffer.len() {
                    self.buffer.remove(self.cursor_index);
                }
                None
            },
            KeyCode::Left => {
                if self.cursor_index > 0 {
                    self.cursor_index = self.cursor_index - 1;
                }
                None
            },
            KeyCode::Right => {
                self.key_right();
                None
            },
            KeyCode::Home => {
                self.cursor_index = 0;
                None
            },
            KeyCode::End => {
                self.cursor_index = self.buffer.len();
                None
            },
            KeyCode::Up => {
                self.key_up();
                None
            },
            KeyCode::Down => {
                self.key_down();
                None
            },
            KeyCode::Tab => {
                self.key_tab();
                None
            },
            KeyCode::Esc => {
                self.show_help = false;
                None
            },
            KeyCode::Enter => self.key_enter(),
            _ => None,
        }
    }

    /// Applies a key like `handle_key` where that cannot panic; where it would (see
    /// `key_panics`), returns `None` and leaves the state as it was.
    pub fn try_handle_key(&mut self, key: KeyEvent) -> (r: Option<Option<String>>)
        requires
            old(self).wf(),
        ensures
            final(self).wf(),
            final(self).same_outside_editor(old(self)),
            match r {
                None => key_panics(old(self)@, key) && final(self)@ == old(self)@,
                Some(x) => !key_panics(old(self)@, key) && (final(self)@, opt_text(x)) == key_step(
                    old(self)@,
                    key,
                ),
            },
    {
        let at_end = match key.code {
            KeyCode::Right => !key.release && self.cursor_index >= self.buffer.len(),
            _ => false,
        };
        if at_end {
            match completion_suffix(self.buffer.as_slice(), self.online_users.as_slice()) {
                None => {
                    return None;
                },
                Some(_) => {},
            }
        }
        Some(self.handle_key(key))
    }
}

/// A key event for a plain key press without modifiers.
pub open spec fn press(code: KeyCode) -> KeyEvent {
    KeyEvent { code, control: false, meta: false, shift: false, release: false }
}

/// A line sent with Enter comes back with Up: after Enter hands on a non-blank line,
/// the Up arrow shows that line again.
pub proof fn lemma_enter_then_up_recalls_line(v: EditorView)
    requires
        editor_wf(v),
        crate::text::trim(v.buffer).len() > 0,
    ensures
        ({
            let (v1, sent) = key_step(v, press(KeyCode::Enter));
            &&& sent == Some(v.buffer)
            &&& key_step(v1, press(KeyCode::Up)).0.buffer == v.buffer
        }),
{
    let (v1, sent) = key_step(v, press(KeyCode::Enter));
    assert(v1.history.len() > 0);
    assert(v1.history.last() == v.buffer);
    assert(v1.history_index is None);
}

/// Up then Down gives back the line that was being written when history navigation
/// started.
pub proof fn lemma_up_then_down_restores_line(v: EditorView)
    requires
        editor_wf(v),
        v.history.len() > 0,
        v.history_index is None,
    ensures
        ({
            let v1 = key_step(v, press(KeyCode::Up)).0;
            key_step(v1, press(KeyCode::Down)).0.buffer == v.buffer
        }),
{
}

/// A typed character lands at the cursor, which moves past it.
pub proof fn lemma_typing_inserts_at_cursor(v: EditorView, c: char)
    requires
        editor_wf(v),
    ensures
        ({
            let v1 = key_step(v, press(KeyCode::Char(c))).0;
            &&& v1.buffer == v.buffer.insert(v.cursor, c)
            &&& v1.cursor == v.cursor + 1
        }),
{
}

} // verus!
