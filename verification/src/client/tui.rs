//! What the full-screen client shows: chat lines built from styled spans, their
//! wrapping, the visible part of the chat, and the small texts around it.
use vstd::prelude::*;

use crate::client::display::{name_hash, hash_name, shortened_name, format_username};
use crate::client::theme::ThemeColors;
use crate::protocol::{ServerToClient, Timestamp};
use crate::text::{ascii_lower, decimal, digit_char, lowercase_of, push_char, push_decimal, starts_with, str_eq};

verus! {

broadcast use vstd::string::group_string_axioms;

// ---------------------------------------------------------------------------
// File sizes
// ---------------------------------------------------------------------------

/// The number of binary digits of `n` (zero for zero).
pub open spec fn bit_len(n: nat) -> nat
    decreases n,
{
    if n == 0 {
        0
    } else {
        1 + bit_len(n / 2)
    }
}

/// `2^e`.
pub open spec fn pow2(e: nat) -> nat
    decreases e,
{
    if e == 0 {
        1
    } else {
        2 * pow2((e - 1) as nat)
    }
}

/// `num / den` rounded to the nearest integer, ties to the even one.
pub open spec fn round_half_even(num: nat, den: nat) -> nat
    recommends
        den > 0,
{
    let q = num / den;
    let r = num % den;
    if 2 * r > den || (2 * r == den && q % 2 == 1) {
        q + 1
    } else {
        q
    }
}

/// The integer that `n as f64` gives: `n` itself up to 2^53, else `n` rounded to 53
/// significant bits, ties to even.
pub open spec fn as_f64(n: nat) -> nat {
    if bit_len(n) <= 53 {
        n
    } else {
        let e = (bit_len(n) - 53) as nat;
        round_half_even(n, pow2(e)) * pow2(e)
    }
}

/// `num / den` written with one decimal, as `{:.1}` writes a float (rounding ties to
/// even).
pub open spec fn one_decimal(num: nat, den: nat) -> Seq<char> {
    let t = round_half_even(num * 10, den);
    decimal(t / 10) + seq!['.', digit_char(t % 10)]
}

/// A byte count for people: bytes below 1 KiB, one-decimal KB below 1 MiB, one-decimal
/// MB from there.
pub open spec fn file_size_text(bytes: nat) -> Seq<char> {
    if bytes >= 1024 * 1024 {
        one_decimal(as_f64(bytes), 1024 * 1024) + seq![' ', 'M', 'B']
    } else if bytes >= 1024 {
        one_decimal(bytes, 1024) + seq![' ', 'K', 'B']
    } else {
        decimal(bytes) + seq![' ', 'B']
    }
}

fn bit_len_of(n: u64) -> (r: u32)
    ensures
        r == bit_len(n as nat),
        r <= 64,
{
    proof {
        lemma_pow2_64();
        lemma_bit_len_bound(n as nat, 64);
    }
    let mut m = n;
    let mut k: u32 = 0;
    while m > 0
        invariant
            bit_len(n as nat) == k + bit_len(m as nat),
            bit_len(n as nat) <= 64,
            m <= n,
        decreases m,
    {
        m = m / 2;
        k = k + 1;
    }
    k
}

proof fn lemma_pow2_64()
    ensures
        pow2(64) == 0x1_0000_0000_0000_0000,
        pow2(11) == 2048,
{
    reveal_with_fuel(pow2, 65);
}

proof fn lemma_bit_len_bound(n: nat, b: nat)
    requires
        n < pow2(b),
    ensures
        bit_len(n) <= b,
    decreases b,
{
    if b > 0 && n > 0 {
        lemma_bit_len_bound(n / 2, (b - 1) as nat);
    }
}

proof fn lemma_pow2_pos_mono(i: nat, j: nat)
    requires
        i <= j,
    ensures
        0 < pow2(i) <= pow2(j),
    decreases j,
{
    if j > i {
        lemma_pow2_pos_mono(i, (j - 1) as nat);
    } else if i > 0 {
        lemma_pow2_pos_mono((i - 1) as nat, (i - 1) as nat);
    }
}

fn pow2_of(e: u32) -> (r: u64)
    requires
        e <= 11,
    ensures
        r == pow2(e as nat),
{
    let mut r: u64 = 1;
    let mut i: u32 = 0;
    while i < e
        invariant
            i <= e <= 11,
            r == pow2(i as nat),
        decreases e - i,
    {
        proof {
            lemma_pow2_64();
            lemma_pow2_pos_mono(i as nat, 11);
        }
        r = r * 2;
        i = i + 1;
    }
    r
}

fn round_half_even_of(num: u128, den: u128) -> (r: u128)
    requires
        den > 0,
        num / den < u128::MAX,
    ensures
        r == round_half_even(num as nat, den as nat),
        r <= num / den + 1,
{
    let q = num / den;
    let rem = num % den;
    let twice_up = rem > den - rem;
    let tie = rem == den - rem;
    if twice_up || (tie && q % 2 == 1) {
        q + 1
    } else {
        q
    }
}

proof fn lemma_rounded_bound(b: nat, p: nat, q: nat)
    requires
        0 < p <= 2048,
        b < 0x1_0000_0000_0000_0000,
        q <= b / p + 1,
    ensures
        q * p <= 0x1_0000_0000_0000_0000 + 2048,
{
    assert((b / p) * p <= b) by (nonlinear_arith)
        requires
            p > 0,
    ;
    assert(q * p <= (b / p) * p + p) by (nonlinear_arith)
        requires
            q <= b / p + 1,
            p > 0,
    ;
}

/// Appends `num / den` with one decimal (see `one_decimal`).
fn push_one_decimal(r: &mut String, num: u128, den: u128)
    requires
        den > 0,
        num <= 10 * 0x1_0000_0000_0000_0000_0000_0000,
        (num * 10) / (den as int) <= u64::MAX,
    ensures
        final(r)@ == old(r)@ + one_decimal(num as nat, den as nat),
{
    let t = round_half_even_of(num * 10, den);
    assert(t <= (num * 10) / (den as int) + 1);
    let whole = t / 10;
    let tenth = t % 10;
    push_decimal(r, whole as u64);
    push_char(r, '.');
    let c = if tenth == 0 { '0' }
        else if tenth == 1 { '1' }
        else if tenth == 2 { '2' }
        else if tenth == 3 { '3' }
        else if tenth == 4 { '4' }
        else if tenth == 5 { '5' }
        else if tenth == 6 { '6' }
        else if tenth == 7 { '7' }
        else if tenth == 8 { '8' }
        else { '9' };
    push_char(r, c);
}

/// A byte count for people (see `file_size_text`).
pub fn format_file_size(bytes: usize) -> (r: String)
    ensures
        r@ == file_size_text(bytes as nat),
{
    let mut r = String::new();
    if bytes >= 1024 * 1024 {
        let b = bytes as u64;
        let bl = bit_len_of(b);
        let f: u128 = if bl <= 53 {
            b as u128
        } else {
            let e = bl - 53;
            let p = pow2_of(e);
            proof {
                lemma_pow2_64();
                lemma_pow2_pos_mono(e as nat, 11);
            }
            let q = round_half_even_of(b as u128, p as u128);
            proof {
                lemma_rounded_bound(b as nat, p as nat, q as nat);
            }
            q * (p as u128)
        };
        push_one_decimal(&mut r, f, 1024 * 1024);
        r.append(" MB");
        proof {
            reveal_strlit(" MB");
        }
    } else if bytes >= 1024 {
        push_one_decimal(&mut r, bytes as u128, 1024);
        r.append(" KB");
        proof {
            reveal_strlit(" KB");
        }
    } else {
        push_decimal(&mut r, bytes as u64);
        r.append(" B");
        proof {
            reveal_strlit(" B");
        }
    }
    r
}

// ---------------------------------------------------------------------------
// Colors
// ---------------------------------------------------------------------------

/// The colors of the terminal interface.
#[derive(Clone, Copy, Debug, PartialEq, Eq, Structural)]
pub enum TermColor {
    Black,
    Red,
    Green,
    Yellow,
    Blue,
    Magenta,
    Cyan,
    Gray,
    DarkGray,
    LightRed,
    LightGreen,
    LightYellow,
    LightBlue,
    LightMagenta,
    LightCyan,
    White,
    Rgb(u8, u8, u8),
}

/// The color at position `i` (modulo twelve) of the palette for names.
pub open spec fn hash_palette(i: int) -> TermColor {
    let k = i % 12;
    if k == 0 {
        TermColor::Red
    } else if k == 1 {
        TermColor::Green
    } else if k == 2 {
        TermColor::Yellow
    } else if k == 3 {
        TermColor::Blue
    } else if k == 4 {
        TermColor::Magenta
    } else if k == 5 {
        TermColor::Cyan
    } else if k == 6 {
        TermColor::LightRed
    } else if k == 7 {
        TermColor::LightGreen
    } else if k == 8 {
        TermColor::LightYellow
    } else if k == 9 {
        TermColor::LightBlue
    } else if k == 10 {
        TermColor::LightMagenta
    } else {
        TermColor::LightCyan
    }
}

/// The color a name is shown in: its hash picks one of twelve.
pub open spec fn hash_color(name: Seq<char>) -> TermColor {
    hash_palette(name_hash(name) as int)
}

/// The color a name is always shown in (see `hash_color`).
pub fn get_hash_color(name: &str) -> (r: TermColor)
    ensures
        r == hash_color(name@),
{
    let k = hash_name(name) % 12;
    if k == 0 {
        TermColor::Red
    } else if k == 1 {
        TermColor::Green
    } else if k == 2 {
        TermColor::Yellow
    } else if k == 3 {
        TermColor::Blue
    } else if k == 4 {
        TermColor::Magenta
    } else if k == 5 {
        TermColor::Cyan
    } else if k == 6 {
        TermColor::LightRed
    } else if k == 7 {
        TermColor::LightGreen
    } else if k == 8 {
        TermColor::LightYellow
    } else if k == 9 {
        TermColor::LightBlue
    } else if k == 10 {
        TermColor::LightMagenta
    } else {
        TermColor::LightCyan
    }
}

/// The color of a theme triple.
pub open spec fn rgb(c: (u8, u8, u8)) -> TermColor {
    TermColor::Rgb(c.0, c.1, c.2)
}

/// The color of a theme triple.
pub fn to_tui_color(c: (u8, u8, u8)) -> (r: TermColor)
    ensures
        r == rgb(c),
{
    TermColor::Rgb(c.0, c.1, c.2)
}

/// The terminal color with the given lowercase name, if there is one.
pub open spec fn named_color(n: Seq<char>) -> Option<TermColor> {
    if n == "black"@ {
        Some(TermColor::Black)
    } else if n == "red"@ {
        Some(TermColor::Red)
    } else if n == "green"@ {
        Some(TermColor::Green)
    } else if n == "yellow"@ {
        Some(TermColor::Yellow)
    } else if n == "blue"@ {
        Some(TermColor::Blue)
    } else if n == "magenta"@ {
        Some(TermColor::Magenta)
    } else if n == "cyan"@ {
        Some(TermColor::Cyan)
    } else if n == "white"@ {
        Some(TermColor::White)
    } else if n == "brightblack"@ || n == "gray"@ || n == "grey"@ {
        Some(TermColor::DarkGray)
    } else if n == "brightred"@ {
        Some(TermColor::LightRed)
    } else if n == "brightgreen"@ {
        Some(TermColor::LightGreen)
    } else if n == "brightyellow"@ {
        Some(TermColor::LightYellow)
    } else if n == "brightblue"@ {
        Some(TermColor::LightBlue)
    } else if n == "brightmagenta"@ {
        Some(TermColor::LightMagenta)
    } else if n == "brightcyan"@ {
        Some(TermColor::LightCyan)
    } else if n == "brightwhite"@ {
        Some(TermColor::White)
    } else {
        None
    }
}

/// The lowercase English name of each of the eight basic terminal colors.
pub open spec fn basic_color_name(c: TermColor) -> Option<Seq<char>> {
    match c {
        TermColor::Black => Some("black"@),
        TermColor::Red => Some("red"@),
        TermColor::Green => Some("green"@),
        TermColor::Yellow => Some("yellow"@),
        TermColor::Blue => Some("blue"@),
        TermColor::Magenta => Some("magenta"@),
        TermColor::Cyan => Some("cyan"@),
        TermColor::White => Some("white"@),
        _ => None,
    }
}

/// The light variant of a basic color (black's is dark gray, and white stays white).
pub open spec fn light_variant(c: TermColor) -> TermColor {
    match c {
        TermColor::Black => TermColor::DarkGray,
        TermColor::Red => TermColor::LightRed,
        TermColor::Green => TermColor::LightGreen,
        TermColor::Yellow => TermColor::LightYellow,
        TermColor::Blue => TermColor::LightBlue,
        TermColor::Magenta => TermColor::LightMagenta,
        TermColor::Cyan => TermColor::LightCyan,
        _ => c,
    }
}

/// Each basic color name reads as the color of that name, and `bright` before it as
/// that color's light variant.
pub proof fn lemma_color_names_read_back(c: TermColor)
    ensures
        basic_color_name(c) matches Some(n) ==> named_color(n) == Some(c),
        basic_color_name(c) matches Some(n) ==> named_color("bright"@ + n) == Some(light_variant(c)),
        named_color("gray"@) == Some(light_variant(TermColor::Black)),
        named_color("grey"@) == Some(light_variant(TermColor::Black)),
{
    reveal_strlit("black");
    reveal_strlit("red");
    reveal_strlit("green");
    reveal_strlit("yellow");
    reveal_strlit("blue");
    reveal_strlit("magenta");
    reveal_strlit("cyan");
    reveal_strlit("white");
    reveal_strlit("bright");
    reveal_strlit("brightblack");
    reveal_strlit("gray");
    reveal_strlit("grey");
    reveal_strlit("brightred");
    reveal_strlit("brightgreen");
    reveal_strlit("brightyellow");
    reveal_strlit("brightblue");
    reveal_strlit("brightmagenta");
    reveal_strlit("brightcyan");
    reveal_strlit("brightwhite");
    assert("bright"@ + "black"@ =~= "brightblack"@);
    assert("bright"@ + "red"@ =~= "brightred"@);
    assert("bright"@ + "green"@ =~= "brightgreen"@);
    assert("bright"@ + "yellow"@ =~= "brightyellow"@);
    assert("bright"@ + "blue"@ =~= "brightblue"@);
    assert("bright"@ + "magenta"@ =~= "brightmagenta"@);
    assert("bright"@ + "cyan"@ =~= "brightcyan"@);
    assert("bright"@ + "white"@ =~= "brightwhite"@);
    // Texts of the same length differ at their first letters, or (for the bright
    // names) at the first letter after `bright`.
    assert("green"@[0] != "black"@[0]);
    assert("white"@[0] != "black"@[0] && "white"@[0] != "green"@[0]);
    assert("cyan"@[0] != "blue"@[0]);
    assert("gray"@[0] != "blue"@[0] && "gray"@[0] != "cyan"@[0]);
    assert("grey"@[0] != "blue"@[0] && "grey"@[0] != "cyan"@[0]);
    assert("brightgreen"@[6] != "brightblack"@[6]);
    assert("brightwhite"@[6] != "brightblack"@[6] && "brightwhite"@[6] != "brightgreen"@[6]);
    assert("brightcyan"@[6] != "brightblue"@[6]);
}

/// No other name is read as a color: a name that `named_color` accepts is a basic
/// color's name, `bright` and a basic color's name, `gray` or `grey`, and it reads as
/// that color, its light variant, or dark gray.
pub proof fn lemma_color_names_only(n: Seq<char>)
    requires
        named_color(n) is Some,
    ensures
        ({
            let c = named_color(n)->0;
            ||| basic_color_name(c) == Some(n)
            ||| exists|b: TermColor|
                #![trigger basic_color_name(b)]
                basic_color_name(b) matches Some(m) && n == "bright"@ + m && c == light_variant(b)
            ||| (n == "gray"@ || n == "grey"@) && c == TermColor::DarkGray
        }),
{
    lemma_color_names_read_back(TermColor::Black);
    lemma_color_names_read_back(TermColor::Red);
    lemma_color_names_read_back(TermColor::Green);
    lemma_color_names_read_back(TermColor::Yellow);
    lemma_color_names_read_back(TermColor::Blue);
    lemma_color_names_read_back(TermColor::Magenta);
    lemma_color_names_read_back(TermColor::Cyan);
    lemma_color_names_read_back(TermColor::White);
    reveal_strlit("bright");
    reveal_strlit("black");
    reveal_strlit("red");
    reveal_strlit("green");
    reveal_strlit("yellow");
    reveal_strlit("blue");
    reveal_strlit("magenta");
    reveal_strlit("cyan");
    reveal_strlit("white");
    reveal_strlit("brightblack");
    reveal_strlit("brightred");
    reveal_strlit("brightgreen");
    reveal_strlit("brightyellow");
    reveal_strlit("brightblue");
    reveal_strlit("brightmagenta");
    reveal_strlit("brightcyan");
    reveal_strlit("brightwhite");
    assert("bright"@ + "black"@ =~= "brightblack"@);
    assert("bright"@ + "red"@ =~= "brightred"@);
    assert("bright"@ + "green"@ =~= "brightgreen"@);
    assert("bright"@ + "yellow"@ =~= "brightyellow"@);
    assert("bright"@ + "blue"@ =~= "brightblue"@);
    assert("bright"@ + "magenta"@ =~= "brightmagenta"@);
    assert("bright"@ + "cyan"@ =~= "brightcyan"@);
    assert("bright"@ + "white"@ =~= "brightwhite"@);
    if n == "brightblack"@ {
        assert(basic_color_name(TermColor::Black) == Some("black"@));
    } else if n == "brightred"@ {
        assert(basic_color_name(TermColor::Red) == Some("red"@));
    } else if n == "brightgreen"@ {
        assert(basic_color_name(TermColor::Green) == Some("green"@));
    } else if n == "brightyellow"@ {
        assert(basic_color_name(TermColor::Yellow) == Some("yellow"@));
    } else if n == "brightblue"@ {
        assert(basic_color_name(TermColor::Blue) == Some("blue"@));
    } else if n == "brightmagenta"@ {
        assert(basic_color_name(TermColor::Magenta) == Some("magenta"@));
    } else if n == "brightcyan"@ {
        assert(basic_color_name(TermColor::Cyan) == Some("cyan"@));
    } else if n == "brightwhite"@ {
        assert(basic_color_name(TermColor::White) == Some("white"@));
    }
}

fn named_color_of(n: &str) -> (r: Option<TermColor>)
    ensures
        r == named_color(n@),
{
    if str_eq(n, "black") {
        Some(TermColor::Black)
    } else if str_eq(n, "red") {
        Some(TermColor::Red)
    } else if str_eq(n, "green") {
        Some(TermColor::Green)
    } else if str_eq(n, "yellow") {
        Some(TermColor::Yellow)
    } else if str_eq(n, "blue") {
        Some(TermColor::Blue)
    } else if str_eq(n, "magenta") {
        Some(TermColor::Magenta)
    } else if str_eq(n, "cyan") {
        Some(TermColor::Cyan)
    } else if str_eq(n, "white") {
        Some(TermColor::White)
    } else if str_eq(n, "brightblack") || str_eq(n, "gray") || str_eq(n, "grey") {
        Some(TermColor::DarkGray)
    } else if str_eq(n, "brightred") {
        Some(TermColor::LightRed)
    } else if str_eq(n, "brightgreen") {
        Some(TermColor::LightGreen)
    } else if str_eq(n, "brightyellow") {
        Some(TermColor::LightYellow)
    } else if str_eq(n, "brightblue") {
        Some(TermColor::LightBlue)
    } else if str_eq(n, "brightmagenta") {
        Some(TermColor::LightMagenta)
    } else if str_eq(n, "brightcyan") {
        Some(TermColor::LightCyan)
    } else if str_eq(n, "brightwhite") {
        Some(TermColor::White)
    } else {
        None
    }
}

/// The value of a hexadecimal digit byte (either letter case), as `from_str_radix`
/// with radix 16 reads it.
pub open spec fn hex_value(b: u8) -> Option<u8> {
    if 0x30 <= b <= 0x39 {
        Some((b - 0x30) as u8)
    } else if 0x61 <= b <= 0x66 {
        Some((b - 0x61 + 10) as u8)
    } else if 0x41 <= b <= 0x46 {
        Some((b - 0x41 + 10) as u8)
    } else {
        None
    }
}

/// What `u8::from_str_radix(piece, 16)` gives for a piece of two bytes: an optional
/// `+` sign followed by hexadecimal digits.
pub open spec fn hex_pair(b1: u8, b2: u8) -> Option<u8> {
    if b1 == 0x2b {
        hex_value(b2)
    } else {
        match (hex_value(b1), hex_value(b2)) {
            (Some(h), Some(l)) => Some((16 * h + l) as u8),
            _ => None,
        }
    }
}

/// The bytes of a color text after its `#`, if it starts with one.
pub open spec fn hex_bytes(clean: Seq<char>) -> Seq<u8> {
    let b = vstd::utf8::encode_utf8(clean);
    if b.len() > 0 && b[0] == 0x23 {
        b.skip(1)
    } else {
        b
    }
}

/// A color text as the client reads it, in any letter case and with white space
/// around: a color name, or six hexadecimal digits with or without a `#`.
pub open spec fn term_color_of(s: Seq<char>) -> Option<TermColor> {
    let clean = lowercase_of(crate::text::trim(s));
    match named_color(clean) {
        Some(c) => Some(c),
        None => {
            let h = hex_bytes(clean);
            if h.len() == 6 {
                match (hex_pair(h[0], h[1]), hex_pair(h[2], h[3]), hex_pair(h[4], h[5])) {
                    (Some(r), Some(g), Some(b)) => Some(TermColor::Rgb(r, g, b)),
                    _ => None,
                }
            } else {
                None
            }
        },
    }
}

/// The color texts on which reading panics: six bytes that cut a character in the
/// middle where the text is cut into two-byte pieces.
pub open spec fn color_text_panics(s: Seq<char>) -> bool {
    let clean = lowercase_of(crate::text::trim(s));
    &&& named_color(clean) is None
    &&& hex_bytes(clean).len() == 6
    &&& (vstd::utf8::is_continuation_byte(hex_bytes(clean)[2])
        || vstd::utf8::is_continuation_byte(hex_bytes(clean)[4]))
}

fn hex_value_of(b: u8) -> (r: Option<u8>)
    ensures
        r == hex_value(b),
{
    if 0x30 <= b && b <= 0x39 {
        Some(b - 0x30)
    } else if 0x61 <= b && b <= 0x66 {
        Some(b - 0x61 + 10)
    } else if 0x41 <= b && b <= 0x46 {
        Some(b - 0x41 + 10)
    } else {
        None
    }
}

fn hex_pair_of(b1: u8, b2: u8) -> (r: Option<u8>)
    ensures
        r == hex_pair(b1, b2),
{
    if b1 == 0x2b {
        hex_value_of(b2)
    } else {
        match (hex_value_of(b1), hex_value_of(b2)) {
            (Some(h), Some(l)) => Some(16 * h + l),
            _ => None,
        }
    }
}

/// Reads a color text (see `term_color_of`).
pub fn parse_terminal_color_to_ratatui(color_str: &str) -> (r: Option<TermColor>)
    requires
        !color_text_panics(color_str@),
    ensures
        r == term_color_of(color_str@),
{
    let t = crate::text::trimmed(color_str);
    let ts = crate::text::string_of(t.as_slice());
    let clean = crate::text::to_lower(ts.as_str());
    match named_color_of(clean.as_str()) {
        Some(c) => Some(c),
        None => {
            let b = clean.as_str().as_bytes();
            let h: &[u8] = if b.len() > 0 && b[0] == 0x23 {
                &b[1..b.len()]
            } else {
                b
            };
            assert(h@ == hex_bytes(clean@));
            if h.len() == 6 {
                match (hex_pair_of(h[0], h[1]), hex_pair_of(h[2], h[3]), hex_pair_of(h[4], h[5])) {
                    (Some(r), Some(g), Some(bl)) => Some(TermColor::Rgb(r, g, bl)),
                    _ => None,
                }
            } else {
                None
            }
        },
    }
}

/// Reads a color text where that cannot panic; `None` where it would (see
/// `color_text_panics`), else the reading.
pub fn try_parse_terminal_color(color_str: &str) -> (r: Option<Option<TermColor>>)
    ensures
        match r {
            None => color_text_panics(color_str@),
            Some(c) => !color_text_panics(color_str@) && c == term_color_of(color_str@),
        },
{
    let t = crate::text::trimmed(color_str);
    let ts = crate::text::string_of(t.as_slice());
    let clean = crate::text::to_lower(ts.as_str());
    if named_color_of(clean.as_str()).is_none() {
        let b = clean.as_str().as_bytes();
        let h: &[u8] = if b.len() > 0 && b[0] == 0x23 {
            &b[1..b.len()]
        } else {
            b
        };
        assert(h@ == hex_bytes(clean@));
        if h.len() == 6 && (is_continuation(h[2]) || is_continuation(h[4])) {
            return None;
        }
    }
    Some(parse_terminal_color_to_ratatui(color_str))
}

fn is_continuation(b: u8) -> (r: bool)
    ensures
        r == vstd::utf8::is_continuation_byte(b),
{
    0x80 <= b && b <= 0xbf
}

// ---------------------------------------------------------------------------
// Styled spans and lines
// ---------------------------------------------------------------------------

/// How a span of text is drawn.
#[derive(Clone, Copy, Debug, PartialEq, Eq, Structural)]
pub struct SpanStyle {
    pub fg: Option<TermColor>,
    pub bold: bool,
    pub underlined: bool,
    pub italic: bool,
}

/// A piece of text drawn in one style.
pub struct StyledSpan {
    pub text: String,
    pub style: SpanStyle,
}

/// One screen line: spans drawn one after the other.
pub struct StyledLine {
    pub spans: Vec<StyledSpan>,
}

/// A span as mathematical values.
pub struct SpanView {
    pub text: Seq<char>,
    pub style: SpanStyle,
}

impl View for StyledSpan {
    type V = SpanView;

    open spec fn view(&self) -> SpanView {
        SpanView { text: self.text@, style: self.style }
    }
}

/// The views of a sequence of spans.
pub open spec fn spans_view(v: Seq<StyledSpan>) -> Seq<SpanView> {
    v.map_values(|x: StyledSpan| x@)
}

impl View for StyledLine {
    type V = Seq<SpanView>;

    open spec fn view(&self) -> Seq<SpanView> {
        spans_view(self.spans@)
    }
}

/// The views of a sequence of lines.
pub open spec fn lines_view(v: Seq<StyledLine>) -> Seq<Seq<SpanView>> {
    v.map_values(|x: StyledLine| x@)
}

/// No color and no emphasis.
pub open spec fn plain_style() -> SpanStyle {
    SpanStyle { fg: None, bold: false, underlined: false, italic: false }
}

/// A foreground color and no emphasis.
pub open spec fn fg(c: TermColor) -> SpanStyle {
    SpanStyle { fg: Some(c), bold: false, underlined: false, italic: false }
}

/// A foreground color, in bold.
pub open spec fn fg_bold(c: TermColor) -> SpanStyle {
    SpanStyle { fg: Some(c), bold: true, underlined: false, italic: false }
}

/// Text without style.
pub open spec fn raw(t: Seq<char>) -> SpanView {
    SpanView { text: t, style: plain_style() }
}

/// Text in a style.
pub open spec fn styled(t: Seq<char>, st: SpanStyle) -> SpanView {
    SpanView { text: t, style: st }
}

/// `n` spaces.
pub open spec fn spaces(n: nat) -> Seq<char> {
    Seq::new(n, |i: int| ' ')
}

fn plain() -> (r: SpanStyle)
    ensures
        r == plain_style(),
{
    SpanStyle { fg: None, bold: false, underlined: false, italic: false }
}

fn color(c: TermColor) -> (r: SpanStyle)
    ensures
        r == fg(c),
{
    SpanStyle { fg: Some(c), bold: false, underlined: false, italic: false }
}

fn color_bold(c: TermColor) -> (r: SpanStyle)
    ensures
        r == fg_bold(c),
{
    SpanStyle { fg: Some(c), bold: true, underlined: false, italic: false }
}

fn span(text: String, style: SpanStyle) -> (r: StyledSpan)
    ensures
        r@ == styled(text@, style),
{
    StyledSpan { text, style }
}

fn span_str(text: &str, style: SpanStyle) -> (r: StyledSpan)
    ensures
        r@ == styled(text@, style),
{
    StyledSpan { text: crate::text::owned(text), style }
}

fn spaces_string(n: usize) -> (r: String)
    ensures
        r@ == spaces(n as nat),
{
    let mut r = String::new();
    for i in 0..n
        invariant
            r@ == spaces(i as nat),
    {
        push_char(&mut r, ' ');
        assert(r@ == spaces((i + 1) as nat));
    }
    r
}

fn cat(a: &str, b: &str) -> (r: String)
    ensures
        r@ == a@ + b@,
{
    let mut r = crate::text::owned(a);
    r.append(b);
    r
}

fn line_of(spans: Vec<StyledSpan>) -> (r: StyledLine)
    ensures
        r@ == spans_view(spans@),
{
    StyledLine { spans }
}

proof fn lemma_spans_push(v: Seq<StyledSpan>, x: StyledSpan)
    ensures
        spans_view(v.push(x)) == spans_view(v).push(x@),
{
    assert(spans_view(v.push(x)) =~= spans_view(v).push(x@));
}

proof fn lemma_spans_append(v: Seq<StyledSpan>, w: Seq<StyledSpan>)
    ensures
        spans_view(v + w) == spans_view(v) + spans_view(w),
{
    assert(spans_view(v + w) =~= spans_view(v) + spans_view(w));
}

proof fn lemma_lines_push(v: Seq<StyledLine>, x: StyledLine)
    ensures
        lines_view(v.push(x)) == lines_view(v).push(x@),
{
    assert(lines_view(v.push(x)) =~= lines_view(v).push(x@));
}

// ---------------------------------------------------------------------------
// Mentions in chat content
// ---------------------------------------------------------------------------

/// The spans of one word of chat content: `@name` of an online user (or `@all`) in
/// the accent color, bold, and underlined too when it names the reader `own`;
/// anything else as it is.
pub open spec fn word_spans(word: Seq<char>, own: Seq<char>, users: Seq<Seq<char>>, accent: TermColor) -> Seq<
    SpanView,
> {
    if word.len() > 1 && word[0] == '@' {
        let rest = word.skip(1);
        let n = crate::client::display::name_run(rest);
        let name = rest.take(n);
        let punct = rest.skip(n);
        let lower = lowercase_of(name);
        if crate::client::display::is_online(users, name) || lower == "all"@ {
            let st = SpanStyle {
                fg: Some(accent),
                bold: true,
                underlined: lower == lowercase_of(own),
                italic: false,
            };
            seq![styled(seq!['@'] + name, st)] + if punct.len() > 0 {
                seq![raw(punct)]
            } else {
                seq![]
            }
        } else {
            seq![raw(word)]
        }
    } else {
        seq![raw(word)]
    }
}

/// A mention of everyone (`@all`, in any letter case) or of an online user is shown
/// as its own span `@name` in the accent color, bold, and underlined exactly when it
/// names the reader, whatever punctuation follows.
pub proof fn lemma_mention_highlighted(
    name: Seq<char>,
    punct: Seq<char>,
    own: Seq<char>,
    users: Seq<Seq<char>>,
    accent: TermColor,
)
    requires
        name.len() > 0,
        crate::client::display::name_run(name + punct) == name.len(),
        lowercase_of(name) == "all"@ || crate::client::display::is_online(users, name),
    ensures
        ({
            let sp = word_spans(seq!['@'] + name + punct, own, users, accent);
            &&& sp.len() >= 1
            &&& sp[0].text == seq!['@'] + name
            &&& sp[0].style.fg == Some(accent)
            &&& sp[0].style.bold
            &&& sp[0].style.underlined == (lowercase_of(name) == lowercase_of(own))
        }),
{
    let word = seq!['@'] + name + punct;
    assert(word.skip(1) =~= name + punct);
    assert((name + punct).take(name.len() as int) =~= name);
    assert((name + punct).skip(name.len() as int) =~= punct);
}

/// The spans of a sequence of words, with a plain space between words.
pub open spec fn spans_of_words(
    words: Seq<Seq<char>>,
    own: Seq<char>,
    users: Seq<Seq<char>>,
    accent: TermColor,
) -> Seq<SpanView>
    decreases words.len(),
{
    if words.len() == 0 {
        seq![]
    } else {
        let prev = spans_of_words(words.drop_last(), own, users, accent);
        let sep = if words.len() > 1 {
            seq![raw(seq![' '])]
        } else {
            seq![]
        };
        prev + sep + word_spans(words.last(), own, users, accent)
    }
}

/// The spans of one line of chat content: its words (split at spaces) with mentions
/// highlighted.
pub open spec fn content_spans(content: Seq<char>, own: Seq<char>, users: Seq<Seq<char>>, accent: TermColor) -> Seq<
    SpanView,
> {
    spans_of_words(crate::client::display::split_at_char(content, ' '), own, users, accent)
}

fn word_spans_of(word: &[char], own_lower: &[char], users: &[String], accent: TermColor) -> (r: Vec<
    StyledSpan,
>)
    ensures
        forall|own: Seq<char>|
            own_lower@ == lowercase_of(own) ==> spans_view(r@) == word_spans(
                word@,
                own,
                crate::client::input::strings_view(users@),
                accent,
            ),
{
    let ghost uv = crate::client::input::strings_view(users@);
    let mut r: Vec<StyledSpan> = Vec::new();
    if word.len() > 1 && word[0] == '@' {
        let rest = crate::text::sub_chars(word, 1, word.len());
        assert(rest@ == word@.skip(1));
        let n = crate::client::display::name_run_of(rest.as_slice());
        let name = crate::text::sub_chars(rest.as_slice(), 0, n);
        let punct = crate::text::sub_chars(rest.as_slice(), n, rest.len());
        let name_s = crate::text::string_of(name.as_slice());
        let lower = crate::text::to_lower(name_s.as_str());
        let lv = crate::text::chars_of(lower.as_str());
        let online = crate::client::display::is_online_exec(users, lv.as_slice());
        let is_all = str_eq(lower.as_str(), "all");
        proof {
            assert(online == crate::client::display::is_online(uv, name@)) by {
                if online {
                    let i = choose|i: int|
                        0 <= i < users@.len() && lowercase_of(#[trigger] users@[i]@) == lv@;
                    assert(uv[i] == users@[i]@);
                } else {
                    assert forall|i: int| 0 <= i < uv.len() implies lowercase_of(uv[i])
                        != lowercase_of(name@) by {
                        assert(uv[i] == users@[i]@);
                    }
                }
            }
        }
        if online || is_all {
            let underlined = crate::text::same_chars(lv.as_slice(), own_lower);
            let st = SpanStyle { fg: Some(accent), bold: true, underlined, italic: false };
            let at = cat("@", name_s.as_str());
            proof {
                reveal_strlit("@");
            }
            let ghost r0 = r@;
            assert(spans_view(r0) =~= Seq::<SpanView>::empty());
            assert(at@ == seq!['@'] + name@);
            r.push(span(at, st));
            proof {
                lemma_spans_push(r0, r@.last());
            }
            assert(spans_view(r@) == seq![styled(seq!['@'] + name@, st)]);
            assert(punct@ == rest@.skip(n as int));
            if punct.len() > 0 {
                let ghost r1 = r@;
                r.push(span(crate::text::string_of(punct.as_slice()), plain()));
                proof {
                    lemma_spans_push(r1, r@.last());
                }
                assert(spans_view(r@) == seq![styled(seq!['@'] + name@, st)] + seq![raw(punct@)]);
            } else {
                assert(spans_view(r@) == seq![styled(seq!['@'] + name@, st)] + Seq::<SpanView>::empty());
            }
            return r;
        }
    }
    r.push(span(crate::text::string_of(word), plain()));
    proof {
        lemma_spans_push(seq![], r@.last());
        assert(seq![].push(r@.last()) == r@);
    }
    r
}

/// The spans of a line of chat content: words split at spaces, mentions of online
/// users (and `@all`) highlighted (see `content_spans`).
pub fn parse_content_spans(content: &[char], own_name: &str, online_users: &[String], accent_color: TermColor) -> (r: Vec<
    StyledSpan,
>)
    ensures
        spans_view(r@) == content_spans(
            content@,
            own_name@,
            crate::client::input::strings_view(online_users@),
            accent_color,
        ),
{
    let ghost uv = crate::client::input::strings_view(online_users@);
    let own_low = crate::text::to_lower(own_name);
    let own_lv = crate::text::chars_of(own_low.as_str());
    let words = crate::client::display::split_chars(content, ' ');
    let ghost wv = words@.map_values(|v: Vec<char>| v@);
    let n = words.len();
    let mut spans: Vec<StyledSpan> = Vec::new();
    for i in 0..n
        invariant
            n == words@.len(),
            wv == words@.map_values(|v: Vec<char>| v@),
            own_lv@ == lowercase_of(own_name@),
            uv == crate::client::input::strings_view(online_users@),
            spans_view(spans@) == spans_of_words(wv.take(i as int), own_name@, uv, accent_color),
    {
        let ghost before = spans@;
        assert(wv.take(i + 1).drop_last() == wv.take(i as int));
        assert(wv.take(i + 1).last() == words@[i as int]@);
        if i > 0 {
            let sp = span_str(" ", plain());
            proof {
                reveal_strlit(" ");
            }
            spans.push(sp);
            proof {
                lemma_spans_push(before, sp);
            }
        }
        let ghost mid = spans@;
        let mut ws = word_spans_of(words[i].as_slice(), own_lv.as_slice(), online_users, accent_color);
        let ghost wsv = ws@;
        spans.append(&mut ws);
        proof {
            lemma_spans_append(mid, wsv);
            if i > 0 {
                assert(" "@ =~= seq![' ']);
                assert(mid.last()@ == raw(seq![' ']));
                assert(spans_view(mid) == spans_view(before).push(raw(seq![' '])));
                assert(spans_view(before).push(raw(seq![' '])) =~= spans_view(before) + seq![raw(seq![' '])]);
            } else {
                assert(mid == before);
                assert(spans_view(before) + Seq::<SpanView>::empty() == spans_view(before));
            }
        }
    }
    assert(wv.take(n as int) == wv);
    spans
}

// ---------------------------------------------------------------------------
// Chat messages as screen lines
// ---------------------------------------------------------------------------

/// The time stamp at the start of a line, in dark gray.
pub open spec fn time_span(time: Seq<char>) -> SpanView {
    styled(time + seq![' '], fg(TermColor::DarkGray))
}

/// The color of a sender: the color it chose, if that reads as a color, else the
/// color of its hash.
pub open spec fn sender_color_for(display: Seq<char>, sender_color: Option<Seq<char>>) -> TermColor {
    match sender_color {
        Some(c) => match term_color_of(c) {
            Some(x) => x,
            None => hash_color(display),
        },
        None => hash_color(display),
    }
}

/// The lines of `text` after emoji rendering.
pub open spec fn rendered_lines(text: Seq<char>) -> Seq<Seq<char>> {
    crate::client::display::split_at_char(crate::client::emoji::rendered(text), '\n')
}

/// A chat message: the first line carries the time, the sender and a colon, the others
/// are indented to line up under the text.
pub open spec fn broadcast_lines(
    sender: Seq<char>,
    content: Seq<char>,
    sender_color: Option<Seq<char>>,
    time: Seq<char>,
    own: Seq<char>,
    users: Seq<Seq<char>>,
    accent: TermColor,
) -> Seq<Seq<SpanView>> {
    let display = shortened_name(sender);
    let raws = rendered_lines(content);
    Seq::new(
        raws.len(),
        |i: int|
            if i == 0 {
                seq![
                    time_span(time),
                    styled(display + seq![':', ' '], fg_bold(sender_color_for(display, sender_color))),
                ] + content_spans(raws[0], own, users, accent)
            } else {
                seq![raw(spaces((6 + display.len() + 2) as nat))] + content_spans(
                    raws[i],
                    own,
                    users,
                    accent,
                )
            },
    )
}

/// The two texts are equal when ASCII letter case is ignored (`eq_ignore_ascii_case`).
pub open spec fn eq_ignore_ascii_case(a: Seq<char>, b: Seq<char>) -> bool {
    a.len() == b.len() && forall|i: int| 0 <= i < a.len() ==> ascii_lower(#[trigger] a[i]) == ascii_lower(b[i])
}

/// A notification: shown, in bold yellow, only to the users it names.
pub open spec fn notification_lines(
    targets: Seq<Seq<char>>,
    content: Seq<char>,
    time: Seq<char>,
    own: Seq<char>,
) -> Seq<Seq<SpanView>> {
    if !(exists|i: int| 0 <= i < targets.len() && eq_ignore_ascii_case(#[trigger] targets[i], own)) {
        seq![]
    } else {
        let raws = rendered_lines(content);
        let yb = fg_bold(TermColor::Yellow);
        Seq::new(
            raws.len(),
            |i: int|
                if i == 0 {
                    seq![time_span(time), styled("\u{26a1} \u{1f4e2} "@, yb), styled(raws[0], yb)]
                } else {
                    seq![raw(spaces(10)), styled(raws[i], yb)]
                },
        )
    }
}

/// `s` without the prefix `p`, if it starts with it.
pub open spec fn strip_prefix(s: Seq<char>, p: Seq<char>) -> Option<Seq<char>> {
    if starts_with(s, p) {
        Some(s.skip(p.len() as int))
    } else {
        None
    }
}

/// The text of an alert line after its marker: `[p1]` is taken off if present, then
/// `p2:` (when that is absent, the whole line is kept), and white space around.
pub open spec fn stripped(raw_line: Seq<char>, p1: Seq<char>, p2: Seq<char>) -> Seq<char> {
    let x = match strip_prefix(raw_line, p1) {
        Some(y) => y,
        None => raw_line,
    };
    crate::text::trim(
        match strip_prefix(x, p2) {
            Some(y) => y,
            None => raw_line,
        },
    )
}

/// `w` occurs in `s`.
pub open spec fn contains_text(s: Seq<char>, w: Seq<char>) -> bool {
    exists|i: int| 0 <= i && i + w.len() <= s.len() && #[trigger] s.subrange(i, i + w.len()) == w
}

/// The first line of an alert, marked by what it starts with: usage hints, errors,
/// information, successes, downloads, and other notes.
pub open spec fn alert_first_line(raw_line: Seq<char>, time: Seq<char>, accent: TermColor) -> Seq<SpanView> {
    let t = time_span(time);
    if starts_with(raw_line, "Usage:"@) || starts_with(raw_line, "[Usage]"@) {
        seq![
            t,
            styled("\u{26a0} Usage: "@, fg_bold(TermColor::Yellow)),
            raw(stripped(raw_line, "[Usage]"@, "Usage:"@)),
        ]
    } else if starts_with(raw_line, "Error:"@) || starts_with(raw_line, "[Error]"@) {
        seq![
            t,
            styled("\u{2716} Error: "@, fg_bold(TermColor::Red)),
            styled(stripped(raw_line, "[Error]"@, "Error:"@), fg(TermColor::Red)),
        ]
    } else if starts_with(raw_line, "Info:"@) || starts_with(raw_line, "[Info]"@) {
        seq![
            t,
            styled("\u{2139} Info: "@, fg_bold(TermColor::Blue)),
            raw(stripped(raw_line, "[Info]"@, "Info:"@)),
        ]
    } else if starts_with(raw_line, "Success:"@) || starts_with(raw_line, "[Success]"@)
        || contains_text(raw_line, "successfully"@) {
        seq![
            t,
            styled("\u{2714} "@, fg_bold(TermColor::Green)),
            styled(stripped(raw_line, "[Success]"@, "Success:"@), fg(TermColor::Green)),
        ]
    } else if starts_with(raw_line, "Downloaded"@) {
        seq![t, styled("\u{2714} "@, fg_bold(TermColor::Green)), styled(raw_line, fg(TermColor::Green))]
    } else {
        seq![t, styled("\u{2726} "@, fg_bold(accent)), styled(raw_line, fg(TermColor::DarkGray))]
    }
}

/// A system alert: a marked first line, the other lines indented in dark gray.
pub open spec fn alert_lines(content: Seq<char>, time: Seq<char>, accent: TermColor) -> Seq<Seq<SpanView>> {
    let raws = rendered_lines(content);
    Seq::new(
        raws.len(),
        |i: int|
            if i == 0 {
                alert_first_line(raws[0], time, accent)
            } else {
                seq![raw(spaces(8)), styled(raws[i], fg(TermColor::DarkGray))]
            },
    )
}

/// An error: every line in red, the first marked, the others lined up under it.
pub open spec fn error_lines(message: Seq<char>) -> Seq<Seq<SpanView>> {
    let raws = crate::client::display::split_at_char(message, '\n');
    Seq::new(
        raws.len(),
        |i: int|
            if i == 0 {
                seq![styled("\u{2716} Error: "@, fg_bold(TermColor::Red)), styled(raws[0], fg(TermColor::Red))]
            } else {
                seq![raw(spaces(9)), styled(raws[i], fg(TermColor::Red))]
            },
    )
}

/// A shared file: one line with the time, the sender, the file name and size, and
/// the command that downloads it.
pub open spec fn file_lines(
    id: Seq<char>,
    filename: Seq<char>,
    size_bytes: nat,
    sender: Seq<char>,
    time: Seq<char>,
    accent: TermColor,
) -> Seq<Seq<SpanView>> {
    let display = shortened_name(sender);
    seq![
        seq![
            time_span(time),
            styled(display + seq![':', ' '], fg_bold(hash_color(display))),
            styled("\u{1f4ce} "@, fg(accent)),
            styled(crate::client::emoji::rendered(filename), fg_bold(accent)),
            styled(" ("@ + file_size_text(size_bytes) + ") "@, fg(TermColor::DarkGray)),
            raw("\u{2014} type "@),
            styled("/download "@ + id, fg_bold(accent)),
        ],
    ]
}

/// The screen lines of a message, at the local time `time`, for the reader `own`.
/// Messages that the chat does not show give no lines.
pub open spec fn message_lines(
    msg: ServerToClient,
    time: Seq<char>,
    own: Seq<char>,
    users: Seq<Seq<char>>,
    theme: ThemeColors,
) -> Seq<Seq<SpanView>> {
    let accent = rgb(theme.accent);
    match msg {
        ServerToClient::Broadcast { sender, content, sender_color, .. } => broadcast_lines(
            sender@,
            content@,
            crate::client::input::opt_text(sender_color),
            time,
            own,
            users,
            accent,
        ),
        ServerToClient::Notification { targets, content, .. } => notification_lines(
            crate::client::input::strings_view(targets@),
            content@,
            time,
            own,
        ),
        ServerToClient::SystemAlert { content, .. } => alert_lines(content@, time, accent),
        ServerToClient::Error { message } => error_lines(message@),
        ServerToClient::FileAvailable { id, filename, size_bytes, sender, .. } => file_lines(
            id@,
            filename@,
            size_bytes as nat,
            sender@,
            time,
            accent,
        ),
        _ => seq![],
    }
}

/// The messages whose lines cannot be made without a panic: chat messages whose
/// sender color text panics when read.
pub open spec fn message_lines_panic(msg: ServerToClient) -> bool {
    match msg {
        ServerToClient::Broadcast { sender_color: Some(c), .. } => color_text_panics(c@),
        _ => false,
    }
}

/// The texts of a sequence of character vectors.
pub open spec fn chars_views(v: Seq<Vec<char>>) -> Seq<Seq<char>> {
    v.map_values(|x: Vec<char>| x@)
}

fn rendered_lines_of(text: &str) -> (r: Vec<Vec<char>>)
    ensures
        chars_views(r@) == rendered_lines(text@),
        r@.len() >= 1,
{
    let rs = crate::client::emoji::render_emojis(text);
    let cs = crate::text::chars_of(rs.as_str());
    let r = crate::client::display::split_chars(cs.as_slice(), '\n');
    proof {
        crate::client::display::lemma_split_nonempty(cs@, '\n');
    }
    r
}

fn lines_of_text(text: &str) -> (r: Vec<Vec<char>>)
    ensures
        chars_views(r@) == crate::client::display::split_at_char(text@, '\n'),
        r@.len() >= 1,
{
    let cs = crate::text::chars_of(text);
    let r = crate::client::display::split_chars(cs.as_slice(), '\n');
    proof {
        crate::client::display::lemma_split_nonempty(cs@, '\n');
    }
    r
}

/// Lines whose first line is `first` and whose other lines are the texts `raws[i]`
/// in `style`, indented by `indent` spaces.
pub open spec fn indented_lines(raws: Seq<Seq<char>>, first: Seq<SpanView>, indent: nat, style: SpanStyle) -> Seq<
    Seq<SpanView>,
> {
    Seq::new(
        raws.len(),
        |i: int|
            if i == 0 {
                first
            } else {
                seq![raw(spaces(indent)), styled(raws[i], style)]
            },
    )
}

fn build_indented(raws: &Vec<Vec<char>>, first: StyledLine, indent: usize, style: SpanStyle) -> (r: Vec<
    StyledLine,
>)
    requires
        raws@.len() >= 1,
    ensures
        lines_view(r@) == indented_lines(chars_views(raws@), first@, indent as nat, style),
{
    let ghost target = indented_lines(chars_views(raws@), first@, indent as nat, style);
    let n = raws.len();
    let mut r: Vec<StyledLine> = Vec::new();
    r.push(first);
    proof {
        lemma_lines_push(seq![], r@[0]);
        assert(lines_view(r@) =~= target.take(1));
    }
    let mut i: usize = 1;
    while i < n
        invariant
            n == raws@.len(),
            1 <= i <= n,
            target == indented_lines(chars_views(raws@), first@, indent as nat, style),
            lines_view(r@) == target.take(i as int),
        decreases n - i,
    {
        let line = line_of(
            vec![
                span(spaces_string(indent), plain()),
                span(crate::text::string_of(raws[i].as_slice()), style),
            ],
        );
        assert(line@ =~= target[i as int]);
        let ghost before = r@;
        r.push(line);
        proof {
            lemma_lines_push(before, line);
            assert(target.take(i + 1) == target.take(i as int).push(target[i as int]));
        }
        i = i + 1;
    }
    assert(target.take(n as int) == target);
    r
}

fn strip_prefix_of(s: &[char], p: &str) -> (r: Option<Vec<char>>)
    ensures
        match r {
            Some(v) => strip_prefix(s@, p@) == Some(v@),
            None => strip_prefix(s@, p@) is None,
        },
{
    let pc = crate::text::chars_of(p);
    if crate::text::has_prefix(s, pc.as_slice()) {
        Some(crate::text::sub_chars(s, pc.len(), s.len()))
    } else {
        None
    }
}

fn stripped_of(raw_line: &[char], p1: &str, p2: &str) -> (r: Vec<char>)
    ensures
        r@ == stripped(raw_line@, p1@, p2@),
{
    assert(raw_line@.subrange(0, raw_line@.len() as int) == raw_line@);
    let x = match strip_prefix_of(raw_line, p1) {
        Some(y) => y,
        None => crate::text::sub_chars(raw_line, 0, raw_line.len()),
    };
    let y = match strip_prefix_of(x.as_slice(), p2) {
        Some(z) => z,
        None => crate::text::sub_chars(raw_line, 0, raw_line.len()),
    };
    crate::text::trim_chars(y.as_slice())
}

pub(crate) fn contains_chars(s: &[char], w: &str) -> (r: bool)
    ensures
        r == contains_text(s@, w@),
{
    let wc = crate::text::chars_of(w);
    let n = s.len();
    let m = wc.len();
    if m > n {
        return false;
    }
    if m == 0 {
        assert(s@.subrange(0, 0int + w@.len()) =~= w@);
        return true;
    }
    let mut i: usize = 0;
    while i <= n - m
        invariant
            n == s@.len(),
            m == wc@.len(),
            wc@ == w@,
            1 <= m <= n,
            i <= n - m + 1,
            forall|j: int| 0 <= j < i ==> #[trigger] s@.subrange(j, j + m) != w@,
        decreases n - m + 1 - i,
    {
        let sub = crate::text::sub_chars(s, i, i + m);
        if crate::text::same_chars(sub.as_slice(), wc.as_slice()) {
            return true;
        }
        i = i + 1;
    }
    false
}

fn starts_with_str(s: &[char], p: &str) -> (r: bool)
    ensures
        r == starts_with(s@, p@),
{
    let pc = crate::text::chars_of(p);
    crate::text::has_prefix(s, pc.as_slice())
}

fn alert_first_line_of(raw_line: &[char], time: &str, accent: TermColor) -> (r: StyledLine)
    ensures
        r@ == alert_first_line(raw_line@, time@, accent),
{
    let t = span(cat(time, " "), color(TermColor::DarkGray));
    proof {
        reveal_strlit(" ");
        assert(" "@ =~= seq![' ']);
    }
    let r = if starts_with_str(raw_line, "Usage:") || starts_with_str(raw_line, "[Usage]") {
        let text = stripped_of(raw_line, "[Usage]", "Usage:");
        line_of(
            vec![
                t,
                span_str("\u{26a0} Usage: ", color_bold(TermColor::Yellow)),
                span(crate::text::string_of(text.as_slice()), plain()),
            ],
        )
    } else if starts_with_str(raw_line, "Error:") || starts_with_str(raw_line, "[Error]") {
        let text = stripped_of(raw_line, "[Error]", "Error:");
        line_of(
            vec![
                t,
                span_str("\u{2716} Error: ", color_bold(TermColor::Red)),
                span(crate::text::string_of(text.as_slice()), color(TermColor::Red)),
            ],
        )
    } else if starts_with_str(raw_line, "Info:") || starts_with_str(raw_line, "[Info]") {
        let text = stripped_of(raw_line, "[Info]", "Info:");
        line_of(
            vec![
                t,
                span_str("\u{2139} Info: ", color_bold(TermColor::Blue)),
                span(crate::text::string_of(text.as_slice()), plain()),
            ],
        )
    } else if starts_with_str(raw_line, "Success:") || starts_with_str(raw_line, "[Success]")
        || contains_chars(raw_line, "successfully") {
        let text = stripped_of(raw_line, "[Success]", "Success:");
        line_of(
            vec![
                t,
                span_str("\u{2714} ", color_bold(TermColor::Green)),
                span(crate::text::string_of(text.as_slice()), color(TermColor::Green)),
            ],
        )
    } else if starts_with_str(raw_line, "Downloaded") {
        line_of(
            vec![
                t,
                span_str("\u{2714} ", color_bold(TermColor::Green)),
                span(crate::text::string_of(raw_line), color(TermColor::Green)),
            ],
        )
    } else {
        line_of(
            vec![
                t,
                span_str("\u{2726} ", color_bold(accent)),
                span(crate::text::string_of(raw_line), color(TermColor::DarkGray)),
            ],
        )
    };
    assert(r@ =~= alert_first_line(raw_line@, time@, accent));
    r
}

proof fn lemma_shortened_len(name: Seq<char>)
    ensures
        shortened_name(name).len() <= 10,
{
}

fn broadcast_lines_of(
    sender: &str,
    content: &str,
    sender_color: &Option<String>,
    time: &str,
    own: &str,
    users: &[String],
    accent: TermColor,
) -> (r: Vec<StyledLine>)
    requires
        sender_color matches Some(c) ==> !color_text_panics(c@),
    ensures
        lines_view(r@) == broadcast_lines(
            sender@,
            content@,
            crate::client::input::opt_text(*sender_color),
            time@,
            own@,
            crate::client::input::strings_view(users@),
            accent,
        ),
{
    let ghost uv = crate::client::input::strings_view(users@);
    let display = format_username(sender);
    let sender_col = match sender_color {
        Some(c) => match parse_terminal_color_to_ratatui(c.as_str()) {
            Some(x) => x,
            None => get_hash_color(display.as_str()),
        },
        None => get_hash_color(display.as_str()),
    };
    let raws = rendered_lines_of(content);
    let dchars = crate::text::chars_of(display.as_str());
    proof {
        lemma_shortened_len(sender@);
    }
    let indent = 6 + dchars.len() + 2;
    let ghost target = broadcast_lines(
        sender@,
        content@,
        crate::client::input::opt_text(*sender_color),
        time@,
        own@,
        uv,
        accent,
    );
    let n = raws.len();
    let mut r: Vec<StyledLine> = Vec::new();
    proof {
        reveal_strlit(" ");
        reveal_strlit(": ");
        assert(" "@ =~= seq![' ']);
        assert(": "@ =~= seq![':', ' ']);
    }
    for i in 0..n
        invariant
            n == raws@.len(),
            chars_views(raws@) == rendered_lines(content@),
            uv == crate::client::input::strings_view(users@),
            display@ == shortened_name(sender@),
            dchars@ == display@,
            indent == 6 + display@.len() + 2,
            sender_col == sender_color_for(display@, crate::client::input::opt_text(*sender_color)),
            " "@ == seq![' '],
            ": "@ == seq![':', ' '],
            target == broadcast_lines(
                sender@,
                content@,
                crate::client::input::opt_text(*sender_color),
                time@,
                own@,
                uv,
                accent,
            ),
            lines_view(r@) == target.take(i as int),
    {
        let mut spans: Vec<StyledSpan> = if i == 0 {
            vec![
                span(cat(time, " "), color(TermColor::DarkGray)),
                span(cat(display.as_str(), ": "), color_bold(sender_col)),
            ]
        } else {
            vec![span(spaces_string(indent), plain())]
        };
        let ghost head = spans@;
        let mut rest = parse_content_spans(raws[i].as_slice(), own, users, accent);
        let ghost restv = rest@;
        spans.append(&mut rest);
        proof {
            lemma_spans_append(head, restv);
        }
        let line = line_of(spans);
        assert(line@ =~= target[i as int]);
        let ghost before = r@;
        r.push(line);
        proof {
            lemma_lines_push(before, line);
            assert(target.take(i + 1) == target.take(i as int).push(target[i as int]));
        }
    }
    assert(target.take(n as int) == target);
    r
}

fn ascii_lower_of(c: char) -> (r: char)
    ensures
        r == ascii_lower(c),
{
    if 'A' <= c && c <= 'Z' {
        ((c as u8) + 32) as char
    } else {
        c
    }
}

fn eq_ignore_ascii_case_of(a: &[char], b: &[char]) -> (r: bool)
    ensures
        r == eq_ignore_ascii_case(a@, b@),
{
    if a.len() != b.len() {
        return false;
    }
    let n = a.len();
    for i in 0..n
        invariant
            n == a@.len(),
            n == b@.len(),
            forall|j: int| 0 <= j < i ==> ascii_lower(#[trigger] a@[j]) == ascii_lower(b@[j]),
    {
        if ascii_lower_of(a[i]) != ascii_lower_of(b[i]) {
            return false;
        }
    }
    true
}

fn notification_lines_of(targets: &Vec<String>, content: &str, time: &str, own: &str) -> (r: Vec<
    StyledLine,
>)
    ensures
        lines_view(r@) == notification_lines(
            crate::client::input::strings_view(targets@),
            content@,
            time@,
            own@,
        ),
{
    let ghost tv = crate::client::input::strings_view(targets@);
    let own_c = crate::text::chars_of(own);
    let n = targets.len();
    let mut found = false;
    for i in 0..n
        invariant
            n == targets@.len(),
            tv == crate::client::input::strings_view(targets@),
            own_c@ == own@,
            found == (exists|j: int| 0 <= j < i && eq_ignore_ascii_case(#[trigger] tv[j], own@)),
    {
        let t = crate::text::chars_of(targets[i].as_str());
        let hit = eq_ignore_ascii_case_of(t.as_slice(), own_c.as_slice());
        proof {
            assert(tv[i as int] == t@);
            if hit {
                assert(eq_ignore_ascii_case(tv[i as int], own@));
            }
            if found || hit {
            } else {
                assert forall|j: int| 0 <= j < i + 1 implies !eq_ignore_ascii_case(#[trigger] tv[j], own@) by {
                }
            }
        }
        found = found || hit;
    }
    if !found {
        let e: Vec<StyledLine> = Vec::new();
        assert(lines_view(e@) =~= Seq::<Seq<SpanView>>::empty());
        return e;
    }
    let raws = rendered_lines_of(content);
    let yb = color_bold(TermColor::Yellow);
    proof {
        reveal_strlit(" ");
        assert(" "@ =~= seq![' ']);
    }
    let first = line_of(
        vec![
            span(cat(time, " "), color(TermColor::DarkGray)),
            span_str("\u{26a1} \u{1f4e2} ", yb),
            span(crate::text::string_of(raws[0].as_slice()), yb),
        ],
    );
    assert(first@ =~= seq![
        time_span(time@),
        styled("\u{26a1} \u{1f4e2} "@, fg_bold(TermColor::Yellow)),
        styled(chars_views(raws@)[0], fg_bold(TermColor::Yellow)),
    ]);
    let r = build_indented(&raws, first, 10, yb);
    assert(lines_view(r@) =~~= notification_lines(tv, content@, time@, own@));
    r
}

fn alert_lines_of(content: &str, time: &str, accent: TermColor) -> (r: Vec<StyledLine>)
    ensures
        lines_view(r@) == alert_lines(content@, time@, accent),
{
    let raws = rendered_lines_of(content);
    let first = alert_first_line_of(raws[0].as_slice(), time, accent);
    let r = build_indented(&raws, first, 8, color(TermColor::DarkGray));
    assert(lines_view(r@) =~= alert_lines(content@, time@, accent));
    r
}

fn error_lines_of(message: &str) -> (r: Vec<StyledLine>)
    ensures
        lines_view(r@) == error_lines(message@),
{
    let raws = lines_of_text(message);
    let first = line_of(
        vec![
            span_str("\u{2716} Error: ", color_bold(TermColor::Red)),
            span(crate::text::string_of(raws[0].as_slice()), color(TermColor::Red)),
        ],
    );
    assert(first@ =~= seq![
        styled("\u{2716} Error: "@, fg_bold(TermColor::Red)),
        styled(chars_views(raws@)[0], fg(TermColor::Red)),
    ]);
    let r = build_indented(&raws, first, 9, color(TermColor::Red));
    assert(lines_view(r@) =~~= error_lines(message@));
    r
}

fn file_lines_of(id: &str, filename: &str, size_bytes: usize, sender: &str, time: &str, accent: TermColor) -> (r: Vec<
    StyledLine,
>)
    ensures
        lines_view(r@) == file_lines(id@, filename@, size_bytes as nat, sender@, time@, accent),
{
    let display = format_username(sender);
    let c = get_hash_color(display.as_str());
    let size = format_file_size(size_bytes);
    let fname = crate::client::emoji::render_emojis(filename);
    let mut size_text = cat(" (", size.as_str());
    size_text.append(") ");
    proof {
        reveal_strlit(" ");
        reveal_strlit(": ");
        assert(" "@ =~= seq![' ']);
        assert(": "@ =~= seq![':', ' ']);
    }
    let line = line_of(
        vec![
            span(cat(time, " "), color(TermColor::DarkGray)),
            span(cat(display.as_str(), ": "), color_bold(c)),
            span_str("\u{1f4ce} ", color(accent)),
            span(fname, color_bold(accent)),
            span(size_text, color(TermColor::DarkGray)),
            span_str("\u{2014} type ", plain()),
            span(cat("/download ", id), color_bold(accent)),
        ],
    );
    let ghost target = file_lines(id@, filename@, size_bytes as nat, sender@, time@, accent);
    assert(line@ =~= target[0]);
    let r = vec![line];
    assert(lines_view(r@) =~= target);
    r
}

/// The screen lines of a message at the given local time (see `message_lines`).
pub fn format_message_lines_at(
    msg: &ServerToClient,
    local_time: &str,
    own_name: &str,
    online_users: &[String],
    theme: ThemeColors,
) -> (r: Vec<StyledLine>)
    requires
        !message_lines_panic(*msg),
    ensures
        lines_view(r@) == message_lines(
            *msg,
            local_time@,
            own_name@,
            crate::client::input::strings_view(online_users@),
            theme,
        ),
{
    let accent = to_tui_color(theme.accent);
    match msg {
        ServerToClient::Broadcast { sender, content, sender_color, .. } => broadcast_lines_of(
            sender.as_str(),
            content.as_str(),
            sender_color,
            local_time,
            own_name,
            online_users,
            accent,
        ),
        ServerToClient::Notification { targets, content, .. } => notification_lines_of(
            targets,
            content.as_str(),
            local_time,
            own_name,
        ),
        ServerToClient::SystemAlert { content, .. } => alert_lines_of(
            content.as_str(),
            local_time,
            accent,
        ),
        ServerToClient::Error { message } => error_lines_of(message.as_str()),
        ServerToClient::FileAvailable { id, filename, size_bytes, sender, .. } => file_lines_of(
            id.as_str(),
            filename.as_str(),
            *size_bytes,
            sender.as_str(),
            local_time,
            accent,
        ),
        _ => {
            let e: Vec<StyledLine> = Vec::new();
            assert(lines_view(e@) =~= Seq::<Seq<SpanView>>::empty());
            e
        },
    }
}

/// Two digits, a colon and two digits, an hour from 00 to 23 and a minute from 00 to
/// 59: the shape of chrono's `%H:%M`.
pub open spec fn is_clock_text(t: Seq<char>) -> bool {
    &&& t.len() == 5
    &&& t[2] == ':'
    &&& ('0' <= t[0] <= '2') && ('0' <= t[1] <= '9') && !(t[0] == '2' && t[1] > '3')
    &&& ('0' <= t[3] <= '5') && ('0' <= t[4] <= '9')
}

/// An instant from the Unix epoch to the end of the year 9999, with a nanosecond part
/// below one second: chrono's `DateTime::from_timestamp` accepts it.
pub open spec fn representable(ts: Timestamp) -> bool {
    0 <= ts.secs <= 253402300799 && ts.nanos < 1_000_000_000
}

/// The time stamp of a message, for the kinds that carry one.
pub open spec fn message_timestamp(msg: ServerToClient) -> Option<Timestamp> {
    match msg {
        ServerToClient::Broadcast { timestamp, .. } => Some(timestamp),
        ServerToClient::Notification { timestamp, .. } => Some(timestamp),
        ServerToClient::SystemAlert { timestamp, .. } => Some(timestamp),
        ServerToClient::FileAvailable { timestamp, .. } => Some(timestamp),
        _ => None,
    }
}

/// Calls chrono: `DateTime::from_timestamp(secs, nanos)`, then (when chrono can
/// represent that instant) `.with_timezone(&Local).format("%H:%M").to_string()`. The
/// result depends on the machine's time zone, so only its shape is claimed, and that
/// chrono gives one for every representable instant (`from_timestamp` fails only out of
/// its range or on a nanosecond part of a second or more).
#[verifier::external_body]
fn local_hour_minute(ts: Timestamp) -> (r: Option<String>)
    ensures
        r matches Some(t) ==> is_clock_text(t@),
        representable(ts) ==> r is Some,
{
    match chrono::DateTime::from_timestamp(ts.secs, ts.nanos) {
        Some(t) => Some(t.with_timezone(&chrono::Local).format("%H:%M").to_string()),
        None => None,
    }
}

/// The time of a message in the machine's time zone as `HH:MM` (see
/// `local_hour_minute`); `None` only where chrono cannot represent the instant.
pub fn message_clock_text(ts: Timestamp) -> (r: Option<String>)
    ensures
        r matches Some(t) ==> is_clock_text(t@),
        representable(ts) ==> r is Some,
{
    local_hour_minute(ts)
}

/// The screen lines of a message, with its time in the machine's time zone as `HH:MM`
/// (an empty time only where chrono cannot represent the instant).
pub fn format_message_to_lines(
    msg: &ServerToClient,
    own_name: &str,
    online_users: &[String],
    theme_colors: ThemeColors,
) -> (r: Vec<StyledLine>)
    requires
        !message_lines_panic(*msg),
    ensures
        exists|t: Seq<char>|
            (t.len() == 0 || is_clock_text(t)) && (message_timestamp(*msg) matches Some(ts)
                && representable(ts) ==> is_clock_text(t)) && lines_view(r@) == #[trigger] message_lines(
                *msg,
                t,
                own_name@,
                crate::client::input::strings_view(online_users@),
                theme_colors,
            ),
{
    let ts = match msg {
        ServerToClient::Broadcast { timestamp, .. } => Some(*timestamp),
        ServerToClient::Notification { timestamp, .. } => Some(*timestamp),
        ServerToClient::SystemAlert { timestamp, .. } => Some(*timestamp),
        ServerToClient::FileAvailable { timestamp, .. } => Some(*timestamp),
        _ => None,
    };
    let time = match ts {
        Some(t) => match local_hour_minute(t) {
            Some(s) => s,
            None => String::new(),
        },
        None => String::new(),
    };
    format_message_lines_at(msg, time.as_str(), own_name, online_users, theme_colors)
}

/// The screen lines of a message where making them cannot panic; `None` where it would
/// (see `message_lines_panic`).
pub fn try_format_message_to_lines(
    msg: &ServerToClient,
    own_name: &str,
    online_users: &[String],
    theme_colors: ThemeColors,
) -> (r: Option<Vec<StyledLine>>)
    ensures
        r is None <==> message_lines_panic(*msg),
        r matches Some(lines) ==> exists|t: Seq<char>|
            (t.len() == 0 || is_clock_text(t)) && (message_timestamp(*msg) matches Some(ts)
                && representable(ts) ==> is_clock_text(t)) && lines_view(lines@) == #[trigger] message_lines(
                *msg,
                t,
                own_name@,
                crate::client::input::strings_view(online_users@),
                theme_colors,
            ),
{
    match msg {
        ServerToClient::Broadcast { sender_color: Some(c), .. } => {
            if try_parse_terminal_color(c.as_str()).is_none() {
                return None;
            }
        },
        _ => {},
    }
    Some(format_message_to_lines(msg, own_name, online_users, theme_colors))
}

// ---------------------------------------------------------------------------
// Wrapping lines to the chat width
// ---------------------------------------------------------------------------

/// The pieces of `s` that `str::split_inclusive(' ')` gives: each ends with its space,
/// except possibly the last; nothing for the empty text.
pub open spec fn split_inclusive_space(s: Seq<char>) -> Seq<Seq<char>>
    decreases s.len(),
{
    if s.len() == 0 {
        seq![]
    } else {
        let i = crate::client::display::index_from(s, ' ', 0);
        if 0 <= i < s.len() {
            seq![s.take(i + 1)].add(split_inclusive_space(s.skip(i + 1)))
        } else {
            seq![s]
        }
    }
}

/// The words of a line, each with the style of its span.
pub open spec fn line_words(spans: Seq<SpanView>) -> Seq<(Seq<char>, SpanStyle)>
    decreases spans.len(),
{
    if spans.len() == 0 {
        seq![]
    } else {
        let last = spans.last();
        line_words(spans.drop_last()) + split_inclusive_space(last.text).map_values(
            |w: Seq<char>| (w, last.style),
        )
    }
}

/// The pieces of `s` of `k` characters each (the last may be shorter).
pub open spec fn chunked(s: Seq<char>, k: nat) -> Seq<Seq<char>>
    decreases s.len(),
{
    if s.len() == 0 || k == 0 {
        seq![]
    } else if s.len() <= k {
        seq![s]
    } else {
        seq![s.take(k as int)].add(chunked(s.skip(k as int), k))
    }
}

/// The lines of one word cut into pieces of `k` characters, each in the word's style.
pub open spec fn piece_lines(s: Seq<char>, k: nat, st: SpanStyle) -> Seq<Seq<SpanView>> {
    chunked(s, k).map_values(|c: Seq<char>| seq![styled(c, st)])
}

/// The state of wrapping: the finished lines, the line being filled and its width.
pub struct WrapState {
    pub wrapped: Seq<Seq<SpanView>>,
    pub current: Seq<SpanView>,
    pub width: int,
}

/// One word more: it goes on the current line if it fits; else the current line is
/// finished, and the word starts the next one, or, when it is wider than a line, is
/// cut into lines of its own.
pub open spec fn wrap_step(st: WrapState, word: (Seq<char>, SpanStyle), max: nat) -> WrapState {
    let w = word.0.len() as int;
    if st.width + w > max {
        let st1 = if st.current.len() > 0 {
            WrapState { wrapped: st.wrapped.push(st.current), current: seq![], width: 0 }
        } else {
            st
        };
        if w > max {
            WrapState {
                wrapped: st1.wrapped + piece_lines(word.0, max, word.1),
                ..st1
            }
        } else {
            WrapState { current: seq![styled(word.0, word.1)], width: w, ..st1 }
        }
    } else {
        WrapState { current: st.current.push(styled(word.0, word.1)), width: st.width + w, ..st }
    }
}

/// The state after the given words, from nothing.
pub open spec fn wrap_fold(words: Seq<(Seq<char>, SpanStyle)>, max: nat) -> WrapState
    decreases words.len(),
{
    if words.len() == 0 {
        WrapState { wrapped: seq![], current: seq![], width: 0 }
    } else {
        wrap_step(wrap_fold(words.drop_last(), max), words.last(), max)
    }
}

/// A line wrapped to `max` columns (unchanged for zero columns); always at least one
/// line.
pub open spec fn wrapped_lines(line: Seq<SpanView>, max: nat) -> Seq<Seq<SpanView>> {
    if max == 0 {
        seq![line]
    } else {
        let st = wrap_fold(line_words(line), max);
        let done = if st.current.len() > 0 {
            st.wrapped.push(st.current)
        } else {
            st.wrapped
        };
        if done.len() == 0 {
            seq![seq![]]
        } else {
            done
        }
    }
}

/// The texts of the spans of a line.
pub open spec fn span_texts(spans: Seq<SpanView>) -> Seq<Seq<char>> {
    spans.map_values(|s: SpanView| s.text)
}

/// The text of a line: its spans' texts one after the other.
pub open spec fn line_text(spans: Seq<SpanView>) -> Seq<char> {
    span_texts(spans).flatten()
}

/// The texts of some lines.
pub open spec fn line_texts(lines: Seq<Seq<SpanView>>) -> Seq<Seq<char>> {
    lines.map_values(|l: Seq<SpanView>| line_text(l))
}

/// The text of some lines, one after the other.
pub open spec fn lines_text(lines: Seq<Seq<SpanView>>) -> Seq<char> {
    line_texts(lines).flatten()
}

/// The texts of some words.
pub open spec fn word_texts(words: Seq<(Seq<char>, SpanStyle)>) -> Seq<Seq<char>> {
    words.map_values(|w: (Seq<char>, SpanStyle)| w.0)
}

proof fn lemma_line_text_push(spans: Seq<SpanView>, x: SpanView)
    ensures
        line_text(spans.push(x)) == line_text(spans) + x.text,
{
    assert(span_texts(spans.push(x)) =~= span_texts(spans).push(x.text));
    span_texts(spans).lemma_flatten_push(x.text);
}

proof fn lemma_line_text_single(x: SpanView)
    ensures
        line_text(seq![x]) == x.text,
{
    assert(span_texts(seq![x]) =~= seq![x.text]);
    seq![x.text].lemma_flatten_singleton();
}

proof fn lemma_lines_text_concat(a: Seq<Seq<SpanView>>, b: Seq<Seq<SpanView>>)
    ensures
        lines_text(a + b) == lines_text(a) + lines_text(b),
{
    assert(line_texts(a + b) =~= line_texts(a) + line_texts(b));
    vstd::seq_lib::lemma_flatten_concat(line_texts(a), line_texts(b));
}

proof fn lemma_lines_text_push(a: Seq<Seq<SpanView>>, l: Seq<SpanView>)
    ensures
        lines_text(a.push(l)) == lines_text(a) + line_text(l),
{
    assert(line_texts(a.push(l)) =~= line_texts(a).push(line_text(l)));
    line_texts(a).lemma_flatten_push(line_text(l));
}

proof fn lemma_split_flatten(s: Seq<char>)
    ensures
        split_inclusive_space(s).flatten() == s,
    decreases s.len(),
{
    if s.len() > 0 {
        let i = crate::client::display::index_from(s, ' ', 0);
        if 0 <= i < s.len() {
            let head = s.take(i + 1);
            let rest = s.skip(i + 1);
            lemma_split_flatten(rest);
            vstd::seq_lib::lemma_flatten_concat(seq![head], split_inclusive_space(rest));
            seq![head].lemma_flatten_singleton();
            assert(head + rest =~= s);
        } else {
            seq![s].lemma_flatten_singleton();
        }
    }
}

proof fn lemma_chunked(s: Seq<char>, k: nat)
    requires
        k > 0,
    ensures
        chunked(s, k).flatten() == s,
        forall|i: int| 0 <= i < chunked(s, k).len() ==> (#[trigger] chunked(s, k)[i]).len() <= k,
    decreases s.len(),
{
    if s.len() == 0 {
    } else if s.len() <= k {
        seq![s].lemma_flatten_singleton();
    } else {
        let head = s.take(k as int);
        let rest = s.skip(k as int);
        lemma_chunked(rest, k);
        vstd::seq_lib::lemma_flatten_concat(seq![head], chunked(rest, k));
        seq![head].lemma_flatten_singleton();
        assert(head + rest =~= s);
        assert forall|i: int| 0 <= i < chunked(s, k).len() implies (#[trigger] chunked(s, k)[i]).len()
            <= k by {
            if i > 0 {
                assert(chunked(s, k)[i] == chunked(rest, k)[i - 1]);
            }
        }
    }
}

proof fn lemma_chunk_lines(s: Seq<char>, k: nat, st: SpanStyle)
    requires
        k > 0,
    ensures
        lines_text(piece_lines(s, k, st)) == s,
        forall|i: int|
            0 <= i < piece_lines(s, k, st).len() ==> line_text(#[trigger] piece_lines(s, k, st)[i]).len()
                <= k,
{
    let cs = chunked(s, k);
    let ls = piece_lines(s, k, st);
    lemma_chunked(s, k);
    assert forall|i: int| 0 <= i < cs.len() implies line_texts(ls)[i] == cs[i] by {
        lemma_line_text_single(styled(cs[i], st));
    }
    assert(line_texts(ls) =~= cs);
}

proof fn lemma_words_text(spans: Seq<SpanView>)
    ensures
        word_texts(line_words(spans)).flatten() == line_text(spans),
    decreases spans.len(),
{
    if spans.len() == 0 {
        assert(span_texts(spans) =~= Seq::<Seq<char>>::empty());
    } else {
        let last = spans.last();
        let front = spans.drop_last();
        let pieces = split_inclusive_space(last.text);
        let tail = pieces.map_values(|w: Seq<char>| (w, last.style));
        lemma_words_text(front);
        assert(word_texts(line_words(front) + tail) =~= word_texts(line_words(front))
            + word_texts(tail));
        assert(word_texts(tail) =~= pieces);
        vstd::seq_lib::lemma_flatten_concat(word_texts(line_words(front)), word_texts(tail));
        lemma_split_flatten(last.text);
        lemma_line_text_push(front, last);
        assert(front.push(last) =~= spans);
    }
}

/// What holds after each word: every finished line fits, the current line's width is
/// its text's length, and no text was lost.
proof fn lemma_wrap_fold(words: Seq<(Seq<char>, SpanStyle)>, max: nat)
    requires
        max > 0,
    ensures
        ({
            let st = wrap_fold(words, max);
            &&& forall|i: int| 0 <= i < st.wrapped.len() ==> line_text(#[trigger] st.wrapped[i]).len() <= max
            &&& line_text(st.current).len() == st.width
            &&& 0 <= st.width <= max
            &&& lines_text(st.wrapped) + line_text(st.current) == word_texts(words).flatten()
        }),
    decreases words.len(),
{
    if words.len() == 0 {
        assert(span_texts(seq![]) =~= Seq::<Seq<char>>::empty());
        assert(line_texts(seq![]) =~= Seq::<Seq<char>>::empty());
        assert(word_texts(words) =~= Seq::<Seq<char>>::empty());
    } else {
        let front = words.drop_last();
        let word = words.last();
        lemma_wrap_fold(front, max);
        let st = wrap_fold(front, max);
        let w = word.0.len() as int;
        assert(word_texts(words) =~= word_texts(front).push(word.0));
        word_texts(front).lemma_flatten_push(word.0);
        let before = word_texts(front).flatten();
        if st.width + w > max {
            let st1 = if st.current.len() > 0 {
                WrapState { wrapped: st.wrapped.push(st.current), current: seq![], width: 0 }
            } else {
                st
            };
            assert(span_texts(seq![]) =~= Seq::<Seq<char>>::empty());
            if st.current.len() > 0 {
                lemma_lines_text_push(st.wrapped, st.current);
            } else {
                assert(span_texts(st.current) =~= Seq::<Seq<char>>::empty());
            }
            assert(forall|i: int| 0 <= i < st1.wrapped.len() ==> line_text(#[trigger] st1.wrapped[i]).len() <= max);
            assert(lines_text(st1.wrapped) == before) by {
                assert(line_text(st1.current) =~= Seq::<char>::empty());
            }
            if w > max {
                let ls = piece_lines(word.0, max, word.1);
                lemma_chunk_lines(word.0, max, word.1);
                lemma_lines_text_concat(st1.wrapped, ls);
                let st2 = wrap_fold(words, max);
                assert(st2.wrapped == st1.wrapped + ls);
                assert forall|i: int| 0 <= i < st2.wrapped.len() implies line_text(
                    #[trigger] st2.wrapped[i],
                ).len() <= max by {
                    if i >= st1.wrapped.len() {
                        assert(st2.wrapped[i] == ls[i - st1.wrapped.len()]);
                    }
                }
                assert(line_text(st2.current) =~= Seq::<char>::empty());
            } else {
                lemma_line_text_single(styled(word.0, word.1));
            }
        } else {
            lemma_line_text_push(st.current, styled(word.0, word.1));
        }
    }
}

/// Wrapping loses no text: the wrapped lines' texts, one after the other, are the
/// line's text.
pub proof fn lemma_wrapped_lines_keep_text(line: Seq<SpanView>, max: nat)
    ensures
        lines_text(wrapped_lines(line, max)) == line_text(line),
{
    if max == 0 {
        assert(line_texts(seq![line]) =~= seq![line_text(line)]);
        seq![line_text(line)].lemma_flatten_singleton();
    } else {
        let st = wrap_fold(line_words(line), max);
        lemma_wrap_fold(line_words(line), max);
        lemma_words_text(line);
        if st.current.len() > 0 {
            lemma_lines_text_push(st.wrapped, st.current);
        } else {
            assert(span_texts(st.current) =~= Seq::<Seq<char>>::empty());
            assert(line_text(st.current) =~= Seq::<char>::empty());
            assert(lines_text(st.wrapped) + line_text(st.current) =~= lines_text(st.wrapped));
            if st.wrapped.len() == 0 {
                assert(span_texts(seq![]) =~= Seq::<Seq<char>>::empty());
                assert(line_texts(seq![seq![]]) =~= seq![Seq::<char>::empty()]);
                seq![Seq::<char>::empty()].lemma_flatten_singleton();
                assert(line_texts(st.wrapped) =~= Seq::<Seq<char>>::empty());
            }
        }
    }
}

/// Every wrapped line fits: its text is at most `max` characters long.
pub proof fn lemma_wrapped_lines_fit(line: Seq<SpanView>, max: nat, i: int)
    requires
        max > 0,
        0 <= i < wrapped_lines(line, max).len(),
    ensures
        line_text(wrapped_lines(line, max)[i]).len() <= max,
{
    let st = wrap_fold(line_words(line), max);
    lemma_wrap_fold(line_words(line), max);
    if st.current.len() == 0 && st.wrapped.len() == 0 {
        assert(span_texts(seq![]) =~= Seq::<Seq<char>>::empty());
    } else if st.current.len() > 0 && i == st.wrapped.len() {
        assert(wrapped_lines(line, max)[i] == st.current);
    } else {
        assert(wrapped_lines(line, max)[i] == st.wrapped[i]);
    }
}

fn split_inclusive_chars(s: &[char]) -> (r: Vec<Vec<char>>)
    ensures
        chars_views(r@) == split_inclusive_space(s@),
{
    let n = s.len();
    let mut parts: Vec<Vec<char>> = Vec::new();
    let mut start: usize = 0;
    let mut i: usize = 0;
    assert(s@.skip(0) == s@);
    assert(chars_views(parts@) + split_inclusive_space(s@) =~= split_inclusive_space(s@));
    while i < n
        invariant
            n == s@.len(),
            start <= i <= n,
            forall|m: int| start <= m < i ==> #[trigger] s@[m] != ' ',
            chars_views(parts@) + split_inclusive_space(s@.skip(start as int)) == split_inclusive_space(s@),
        decreases n - i,
    {
        if s[i] == ' ' {
            let ghost t = s@.skip(start as int);
            proof {
                assert forall|m: int| 0 <= m < i - start implies #[trigger] t[m] != ' ' by {
                    assert(t[m] == s@[m + start]);
                }
                crate::client::display::lemma_index_from_scan(t, ' ', 0, i - start);
                assert(t.take(i - start + 1) == s@.subrange(start as int, i + 1));
                assert(t.skip(i - start + 1) == s@.skip(i + 1));
            }
            let piece = crate::text::sub_chars(s, start, i + 1);
            let ghost before = chars_views(parts@);
            parts.push(piece);
            assert(chars_views(parts@) == before.push(piece@));
            assert(before + split_inclusive_space(t) == before.push(piece@) + split_inclusive_space(
                s@.skip(i + 1),
            ));
            start = i + 1;
        }
        i = i + 1;
    }
    let ghost t = s@.skip(start as int);
    if start < n {
        proof {
            assert forall|m: int| 0 <= m < n - start implies #[trigger] t[m] != ' ' by {
                assert(t[m] == s@[m + start]);
            }
            crate::client::display::lemma_index_from_scan(t, ' ', 0, n - start);
        }
        let last = crate::text::sub_chars(s, start, n);
        let ghost before = chars_views(parts@);
        parts.push(last);
        assert(chars_views(parts@) == before.push(t));
        assert(before + seq![t] == before.push(t));
    } else {
        assert(t.len() == 0);
        assert(chars_views(parts@) + Seq::<Seq<char>>::empty() == chars_views(parts@));
    }
    parts
}

fn chunk_lines(word: &[char], style: SpanStyle, max: usize) -> (r: Vec<StyledLine>)
    requires
        max > 0,
    ensures
        lines_view(r@) == piece_lines(word@, max as nat, style),
{
    let ghost f = |c: Seq<char>| seq![styled(c, style)];
    let n = word.len();
    let mut r: Vec<StyledLine> = Vec::new();
    let mut start: usize = 0;
    assert(word@.skip(0) == word@);
    assert(lines_view(r@) + chunked(word@, max as nat).map_values(f) =~= chunked(word@, max as nat).map_values(f));
    while start < n
        invariant
            n == word@.len(),
            start <= n,
            max > 0,
            f == (|c: Seq<char>| seq![styled(c, style)]),
            lines_view(r@) + chunked(word@.skip(start as int), max as nat).map_values(f)
                == chunked(word@, max as nat).map_values(f),
        decreases n - start,
    {
        let ghost t = word@.skip(start as int);
        let end = if n - start <= max {
            n
        } else {
            start + max
        };
        let piece = crate::text::sub_chars(word, start, end);
        let line = line_of(vec![span(crate::text::string_of(piece.as_slice()), style)]);
        assert(line@ =~= f(piece@));
        let ghost before = lines_view(r@);
        r.push(line);
        proof {
            lemma_lines_push(r@.drop_last(), line);
            assert(r@.drop_last() == r@.subrange(0, r@.len() - 1));
            if n - start <= max {
                assert(piece@ == t);
                assert(chunked(t, max as nat) == seq![t]);
                assert(word@.skip(end as int).len() == 0);
                assert(chunked(word@.skip(end as int), max as nat) == Seq::<Seq<char>>::empty());
                assert(chunked(t, max as nat).map_values(f) =~= seq![f(t)]);
            } else {
                assert(piece@ == t.take(max as int));
                assert(t.skip(max as int) == word@.skip(end as int));
                assert(chunked(t, max as nat).map_values(f) =~= seq![f(piece@)] + chunked(
                    word@.skip(end as int),
                    max as nat,
                ).map_values(f));
            }
            assert(lines_view(r@) == before.push(f(piece@)));
            assert(before + chunked(t, max as nat).map_values(f) =~= lines_view(r@) + chunked(
                word@.skip(end as int),
                max as nat,
            ).map_values(f));
        }
        start = end;
    }
    assert(chunked(word@.skip(n as int), max as nat) =~= Seq::<Seq<char>>::empty());
    assert(lines_view(r@) + Seq::<Seq<SpanView>>::empty() == lines_view(r@));
    assert(chunked(word@.skip(n as int), max as nat).map_values(f) =~= Seq::<Seq<SpanView>>::empty());
    r
}

/// Wraps a line to `max_width` columns (see `wrapped_lines`).
pub fn wrap_line(line: StyledLine, max_width: usize) -> (r: Vec<StyledLine>)
    ensures
        lines_view(r@) == wrapped_lines(line@, max_width as nat),
{
    if max_width == 0 {
        let ghost lv = line@;
        let r = vec![line];
        assert(lines_view(r@) =~= seq![lv]);
        return r;
    }
    let ghost max = max_width as nat;
    let ghost all = line@;
    let mut wrapped: Vec<StyledLine> = Vec::new();
    let mut current: Vec<StyledSpan> = Vec::new();
    let mut width: usize = 0;
    let ghost mut done: Seq<(Seq<char>, SpanStyle)> = seq![];
    let spans = line.spans;
    let ns = spans.len();
    assert(spans_view(spans@) == all);
    assert(spans_view(current@) =~= Seq::<SpanView>::empty());
    assert(lines_view(wrapped@) =~= Seq::<Seq<SpanView>>::empty());
    let mut si: usize = 0;
    while si < ns
        invariant
            ns == spans@.len(),
            si <= ns,
            max == max_width as nat,
            max_width > 0,
            all == spans_view(spans@),
            done == line_words(all.take(si as int)),
            wrap_fold(done, max) == (WrapState {
                wrapped: lines_view(wrapped@),
                current: spans_view(current@),
                width: width as int,
            }),
            width <= max_width,
        decreases ns - si,
    {
        let style = spans[si].style;
        let text = crate::text::chars_of(spans[si].text.as_str());
        let words = split_inclusive_chars(text.as_slice());
        let nw = words.len();
        let ghost base = done;
        let ghost wv = chars_views(words@);
        let ghost mapped = wv.map_values(|w: Seq<char>| (w, style));
        assert(all.take(si + 1).drop_last() == all.take(si as int));
        assert(all.take(si + 1).last() == spans@[si as int]@);
        let mut k: usize = 0;
        assert(base + mapped.take(0) == base);
        while k < nw
            invariant
                nw == words@.len(),
                k <= nw,
                max == max_width as nat,
                max_width > 0,
                wv == chars_views(words@),
                mapped == wv.map_values(|w: Seq<char>| (w, style)),
                done == base + mapped.take(k as int),
                wrap_fold(done, max) == (WrapState {
                    wrapped: lines_view(wrapped@),
                    current: spans_view(current@),
                    width: width as int,
                }),
                width <= max_width,
            decreases nw - k,
        {
            let ghost st = wrap_fold(done, max);
            let ghost item = mapped[k as int];
            assert(item == (words@[k as int]@, style));
            let w = words[k].len();
            if w > max_width - width {
                if current.len() > 0 {
                    let finished = StyledLine { spans: current };
                    let ghost before = wrapped@;
                    wrapped.push(finished);
                    proof {
                        lemma_lines_push(before, finished);
                    }
                    current = Vec::new();
                    width = 0;
                    assert(spans_view(current@) =~= Seq::<SpanView>::empty());
                }
                if w > max_width {
                    let mut chunks = chunk_lines(words[k].as_slice(), style, max_width);
                    let ghost before = wrapped@;
                    let ghost cv = chunks@;
                    wrapped.append(&mut chunks);
                    proof {
                        assert(lines_view(before + cv) =~= lines_view(before) + lines_view(cv));
                    }
                } else {
                    let sp = span(crate::text::string_of(words[k].as_slice()), style);
                    current = vec![sp];
                    width = w;
                    assert(spans_view(current@) =~= seq![styled(item.0, item.1)]);
                }
            } else {
                let sp = span(crate::text::string_of(words[k].as_slice()), style);
                let ghost before = current@;
                current.push(sp);
                proof {
                    lemma_spans_push(before, sp);
                }
                width = width + w;
            }
            proof {
                let nd = done.push(item);
                assert(nd.drop_last() == done);
                assert(mapped.take(k + 1) == mapped.take(k as int).push(item));
                assert(base + mapped.take(k + 1) == (base + mapped.take(k as int)).push(item));
                done = nd;
            }
            assert(wrap_fold(done, max) == wrap_step(st, item, max));
            k = k + 1;
        }
        proof {
            assert(mapped.take(nw as int) == mapped);
            assert(split_inclusive_space(spans@[si as int]@.text) == wv);
        }
        si = si + 1;
    }
    assert(all.take(ns as int) == all);
    if current.len() > 0 {
        let last = StyledLine { spans: current };
        let ghost before = wrapped@;
        wrapped.push(last);
        proof {
            lemma_lines_push(before, last);
        }
    }
    if wrapped.len() == 0 {
        let empty: Vec<StyledSpan> = Vec::new();
        wrapped.push(StyledLine { spans: empty });
        assert(lines_view(wrapped@) =~~= seq![Seq::<SpanView>::empty()]);
    }
    wrapped
}

// ---------------------------------------------------------------------------
// What the chat window shows
// ---------------------------------------------------------------------------

/// `a - b`, or zero when `b` is larger (`saturating_sub`).
pub open spec fn sat_sub(a: int, b: int) -> int {
    if a > b { a - b } else { 0 }
}

/// How far the chat may scroll back: the lines that do not fit.
pub open spec fn max_scroll(total: int, height: int) -> int {
    sat_sub(total, height)
}

/// The scroll offset kept within what the chat allows.
pub open spec fn clamped_scroll(scroll: int, total: int, height: int) -> int {
    if scroll < max_scroll(total, height) { scroll } else { max_scroll(total, height) }
}

/// The lines `start..end` of `total` that a chat of `height` lines scrolled back by
/// `scroll` lines shows.
pub open spec fn visible_range(total: int, height: int, scroll: int) -> (int, int) {
    let cur = clamped_scroll(scroll, total, height);
    (sat_sub(total, height + cur), sat_sub(total, cur))
}

/// The scroll offset kept within what the chat allows.
pub fn clamp_scroll(scroll: usize, total: usize, height: usize) -> (r: usize)
    ensures
        r == clamped_scroll(scroll as int, total as int, height as int),
{
    let m = total.saturating_sub(height);
    if scroll < m { scroll } else { m }
}

/// The lines of the chat that are shown (see `visible_range`).
pub fn visible_line_range(total: usize, height: usize, scroll: usize) -> (r: (usize, usize))
    requires
        height + clamped_scroll(scroll as int, total as int, height as int) <= usize::MAX,
    ensures
        (r.0 as int, r.1 as int) == visible_range(total as int, height as int, scroll as int),
        r.0 <= r.1 <= total,
{
    let cur = clamp_scroll(scroll, total, height);
    (total.saturating_sub(height + cur), total.saturating_sub(cur))
}

/// All the lines wrapped to `max` columns, one after the other.
pub open spec fn wrapped_all(lines: Seq<Seq<SpanView>>, max: nat) -> Seq<Seq<SpanView>>
    decreases lines.len(),
{
    if lines.len() == 0 {
        seq![]
    } else {
        wrapped_all(lines.drop_last(), max) + wrapped_lines(lines.last(), max)
    }
}

/// The chat window: every line wrapped to `width` columns, and the part of them that
/// a window of `height` lines, scrolled back by `scroll` lines, shows; with the number
/// of wrapped lines.
pub fn chat_window(lines: Vec<StyledLine>, width: usize, height: usize, scroll: usize) -> (r: (
    Vec<StyledLine>,
    usize,
))
    requires
        height + clamped_scroll(
            scroll as int,
            wrapped_all(lines_view(lines@), width as nat).len() as int,
            height as int,
        ) <= usize::MAX,
    ensures
        r.1 == wrapped_all(lines_view(lines@), width as nat).len(),
        lines_view(r.0@) == wrapped_all(lines_view(lines@), width as nat).subrange(
            visible_range(r.1 as int, height as int, scroll as int).0,
            visible_range(r.1 as int, height as int, scroll as int).1,
        ),
{
    let ghost all_v = lines_view(lines@);
    let mut rest = lines;
    let mut all: Vec<StyledLine> = Vec::new();
    let ghost mut k: int = 0;
    while rest.len() > 0
        invariant
            0 <= k <= all_v.len(),
            lines_view(rest@) == all_v.skip(k),
            lines_view(all@) == wrapped_all(all_v.take(k), width as nat),
        decreases rest.len(),
    {
        let ghost before = lines_view(rest@);
        let ghost old_rest = rest@;
        let line = rest.remove(0);
        assert(lines_view(rest@) =~= before.drop_first());
        assert(before[0] == old_rest[0]@);
        assert(before[0] == all_v.skip(k)[0]);
        assert(line@ == all_v[k]);
        let mut w = wrap_line(line, width);
        let ghost wv = lines_view(w@);
        let ghost av = all@;
        all.append(&mut w);
        assert(lines_view(all@) =~= lines_view(av) + wv);
        assert(all_v.take(k + 1).drop_last() =~= all_v.take(k));
        proof {
            k = k + 1;
        }
        assert(all_v.skip(k) =~= before.drop_first());
    }
    assert(all_v.take(k) =~= all_v);
    let total = all.len();
    let (start, end) = visible_line_range(total, height, scroll);
    let ghost full = lines_view(all@);
    all.truncate(end);
    assert(lines_view(all@) =~= full.take(end as int));
    let visible = all.split_off(start);
    assert(lines_view(visible@) =~= full.subrange(start as int, end as int));
    (visible, total)
}

/// The row and column of the cursor in a buffer that may hold newlines.
pub open spec fn cursor_row_col(b: Seq<char>, cursor: int) -> (int, int)
    decreases b.len(),
{
    if b.len() == 0 || cursor <= 0 {
        (0, 0)
    } else {
        let k = if cursor < b.len() { cursor } else { b.len() as int };
        let prev = cursor_row_col(b.take(k - 1), k - 1);
        if b[k - 1] == '\n' {
            (prev.0 + 1, 0)
        } else {
            (prev.0, prev.1 + 1)
        }
    }
}

/// Where the cursor is drawn: its row and its column in that row.
pub fn cursor_position(buffer: &[char], cursor_index: usize) -> (r: (usize, usize))
    ensures
        (r.0 as int, r.1 as int) == cursor_row_col(buffer@, cursor_index as int),
{
    let n = if cursor_index < buffer.len() { cursor_index } else { buffer.len() };
    let mut row: usize = 0;
    let mut col: usize = 0;
    let mut i: usize = 0;
    while i < n
        invariant
            n <= buffer@.len(),
            i <= n,
            row <= i,
            col <= i,
            (row as int, col as int) == cursor_row_col(buffer@.take(i as int), i as int),
        decreases n - i,
    {
        assert(buffer@.take(i + 1).take(i as int) == buffer@.take(i as int));
        if buffer[i] == '\n' {
            row = row + 1;
            col = 0;
        } else {
            col = col + 1;
        }
        i = i + 1;
    }
    proof {
        lemma_cursor_row_col_take(buffer@, n as int, cursor_index as int);
    }
    (row, col)
}

proof fn lemma_cursor_row_col_take(b: Seq<char>, n: int, cursor: int)
    requires
        0 <= n <= b.len(),
        n == (if cursor < b.len() { cursor } else { b.len() as int }),
        cursor >= 0,
    ensures
        cursor_row_col(b.take(n), n) == cursor_row_col(b, cursor),
{
    if n > 0 {
        assert(b.take(n).take(n - 1) == b.take(n - 1));
    } else {
        assert(b.take(n).len() == 0);
    }
}

/// The height of the input box: a row per line of the buffer plus the border, at
/// most six rows.
pub open spec fn input_box_height(b: Seq<char>) -> int {
    let rows: int = b.filter(|c: char| c == '\n').len() as int + 3;
    if rows < 6 { rows } else { 6 }
}

/// The number of newlines in a buffer.
fn count_newlines(b: &[char]) -> (r: usize)
    ensures
        r == b@.filter(|c: char| c == '\n').len(),
{
    let n = b.len();
    let mut k: usize = 0;
    for i in 0..n
        invariant
            n == b@.len(),
            k == b@.take(i as int).filter(|c: char| c == '\n').len(),
            k <= i,
    {
        assert(b@.take(i + 1).drop_last() == b@.take(i as int));
        proof {
            reveal_with_fuel(Seq::filter, 1);
        }
        if b[i] == '\n' {
            k = k + 1;
        }
    }
    assert(b@.take(n as int) == b@);
    k
}

/// The height of the input box (see `input_box_height`).
pub fn input_height(buffer: &[char]) -> (r: u16)
    ensures
        r as int == input_box_height(buffer@),
{
    let k = count_newlines(buffer);
    if k < 3 {
        (k + 3) as u16
    } else {
        6
    }
}

/// The grey suggestion shown after the cursor at the end of a one-line buffer: the
/// rest of a theme after `/theme `, of a command, or of an online user after `@`
/// (`None` where cutting the user name would panic).
pub open spec fn prompt_suggestion(b: Seq<char>, cursor: int, users: Seq<Seq<char>>, one_line_only: bool) -> Option<
    Seq<char>,
> {
    if (one_line_only && b.contains('\n')) || b.len() == 0 || cursor != b.len() {
        Some(seq![])
    } else {
        let w = b.skip(crate::client::input::word_start(b));
        if b[0] != '/' && w.len() > 0 && w[0] == ':' && w.last() != ':' {
            Some(seq![])
        } else {
            crate::client::input::right_suffix(b, users)
        }
    }
}

/// The suggestion shown after the prompt (see `prompt_suggestion`): the full-screen
/// client makes none for buffers with more than one line.
pub fn suggestion_suffix(buffer: &[char], cursor_index: usize, online_users: &[String], one_line_only: bool) -> (r: Option<
    Vec<char>,
>)
    ensures
        match r {
            Some(v) => prompt_suggestion(
                buffer@,
                cursor_index as int,
                crate::client::input::strings_view(online_users@),
                one_line_only,
            ) == Some(v@),
            None => prompt_suggestion(
                buffer@,
                cursor_index as int,
                crate::client::input::strings_view(online_users@),
                one_line_only,
            ) is None,
        },
{
    if (one_line_only && crate::text::contains_char(buffer, '\n')) || buffer.len() == 0
        || cursor_index != buffer.len() {
        return Some(Vec::new());
    }
    if buffer[0] != '/' {
        let ws = crate::client::input::word_start_of(buffer);
        let w = crate::text::sub_chars(buffer, ws, buffer.len());
        assert(w@ == buffer@.skip(ws as int));
        if w.len() > 0 && w[0] == ':' && w[w.len() - 1] != ':' {
            return Some(Vec::new());
        }
    }
    crate::client::input::completion_suffix(buffer, online_users)
}

/// The typing indicator for the users other than `me` who are typing, with the
/// animation dots.
pub open spec fn typing_text(others: Seq<Seq<char>>, dots: Seq<char>) -> Option<Seq<char>> {
    if others.len() == 0 {
        None
    } else if others.len() == 1 {
        Some(seq![' ', ' '] + others[0] + " is typing"@ + dots)
    } else if others.len() == 2 {
        Some(seq![' ', ' '] + others[0] + seq![',', ' '] + others[1] + " are typing"@ + dots)
    } else {
        Some(seq![' ', ' '] + crate::text::decimal(others.len()) + " users are typing"@ + dots)
    }
}

/// The animation dots after `elapsed_ms` milliseconds: one more every 150 ms, four
/// steps round.
pub open spec fn typing_dots(elapsed_ms: nat) -> Seq<char> {
    let k = (elapsed_ms / 150) % 4;
    if k == 0 {
        seq![]
    } else if k == 1 {
        seq!['.']
    } else if k == 2 {
        seq!['.', '.']
    } else {
        seq!['.', '.', '.']
    }
}

/// The names of the typing users other than `me`, in order.
pub open spec fn other_typers(names: Seq<Seq<char>>, me: Seq<char>) -> Seq<Seq<char>> {
    names.filter(|n: Seq<char>| n != me)
}

/// The typing indicator line, if someone other than `me` is typing.
pub fn typing_indicator(typing_names: &[String], me: &str, elapsed_ms: u64) -> (r: Option<String>)
    ensures
        opt_view(r) == typing_text(
            other_typers(crate::client::input::strings_view(typing_names@), me@),
            typing_dots(elapsed_ms as nat),
        ),
{
    let ghost names = crate::client::input::strings_view(typing_names@);
    let n = typing_names.len();
    let mut others: Vec<&String> = Vec::new();
    let ghost mut ov: Seq<Seq<char>> = seq![];
    for i in 0..n
        invariant
            n == typing_names@.len(),
            names == crate::client::input::strings_view(typing_names@),
            ov == other_typers(names.take(i as int), me@),
            others@.len() == ov.len(),
            forall|j: int| 0 <= j < ov.len() ==> (#[trigger] others@[j])@ == ov[j],
    {
        proof {
            reveal_with_fuel(Seq::filter, 1);
            assert(names.take(i + 1).drop_last() == names.take(i as int));
        }
        if !crate::text::str_eq(typing_names[i].as_str(), me) {
            others.push(&typing_names[i]);
            proof {
                ov = ov.push(names[i as int]);
            }
        }
    }
    assert(names.take(n as int) == names);
    let k = (elapsed_ms / 150) % 4;
    let dots = if k == 0 {
        ""
    } else if k == 1 {
        "."
    } else if k == 2 {
        ".."
    } else {
        "..."
    };
    proof {
        reveal_strlit("");
        reveal_strlit(".");
        reveal_strlit("..");
        reveal_strlit("...");
        reveal_strlit("  ");
        reveal_strlit(", ");
    }
    assert(dots@ == typing_dots(elapsed_ms as nat));
    let m = others.len();
    if m == 0 {
        return None;
    }
    let mut t = crate::text::owned("  ");
    if m == 1 {
        t.append(others[0].as_str());
        t.append(" is typing");
    } else if m == 2 {
        t.append(others[0].as_str());
        t.append(", ");
        t.append(others[1].as_str());
        t.append(" are typing");
    } else {
        push_decimal(&mut t, m as u64);
        t.append(" users are typing");
    }
    t.append(dots);
    assert(t@ =~= typing_text(ov, dots@)->0);
    Some(t)
}

/// An optional string as optional text.
pub open spec fn opt_view(o: Option<String>) -> Option<Seq<char>> {
    match o {
        Some(s) => Some(s@),
        None => None,
    }
}

/// The header of the client window.
pub open spec fn client_header(server: Seq<char>, addr: Seq<char>, name: Seq<char>, theme: Seq<char>) -> Seq<char> {
    "  Server: "@ + server + " ("@ + addr + ")  |  User: "@ + name + "  |  Theme: "@ + theme
        + "  |  Press '?' for Help"@
}

/// The header of the client window (see `client_header`).
pub fn client_header_text(server_name: &str, addr: &str, name: &str, theme_name: &str) -> (r: String)
    ensures
        r@ == client_header(server_name@, addr@, name@, theme_name@),
{
    let mut t = crate::text::owned("  Server: ");
    t.append(server_name);
    t.append(" (");
    t.append(addr);
    t.append(")  |  User: ");
    t.append(name);
    t.append("  |  Theme: ");
    t.append(theme_name);
    t.append("  |  Press '?' for Help");
    t
}


// ---------------------------------------------------------------------------
// The sidebar of online users
// ---------------------------------------------------------------------------

/// `a` comes before `b` in the order of `String`'s `Ord`: lexicographic by bytes,
/// which for UTF-8 is lexicographic by code points.
pub open spec fn text_before(a: Seq<char>, b: Seq<char>) -> bool
    decreases a.len(),
{
    if b.len() == 0 {
        false
    } else if a.len() == 0 {
        true
    } else if a[0] != b[0] {
        (a[0] as u32) < (b[0] as u32)
    } else {
        text_before(a.drop_first(), b.drop_first())
    }
}

/// Calls `slice::sort` on the names. Claimed, as std documents it: the result holds
/// the same names, each one no later in `String`'s order (lexicographic by bytes,
/// that is by code points) than the next.
#[verifier::external_body]
fn sorted_names(names: Vec<String>) -> (r: Vec<String>)
    ensures
        crate::protocol::texts(r@).to_multiset() == crate::protocol::texts(names@).to_multiset(),
        forall|i: int, j: int|
            0 <= i < j < r@.len() ==> !text_before(#[trigger] r@[j]@, #[trigger] r@[i]@),
{
    let mut v = names;
    v.sort();
    v
}

/// An entry of the sidebar: the text shown, its color, and whether it is the reader.
pub struct SidebarEntry {
    pub label: String,
    pub color: TermColor,
    pub me: bool,
}

/// The text of a sidebar entry: the name, with ` (me)` for the reader.
pub open spec fn sidebar_label(name: Seq<char>, me: Seq<char>) -> Seq<char> {
    if name == me {
        name + " (me)"@
    } else {
        name
    }
}

/// The sidebar: the online users in `String` order, each in its name color, the
/// reader marked.
pub fn sidebar_entries(online_users: &[String], me: &str) -> (r: Vec<SidebarEntry>)
    ensures
        exists|sorted: Seq<Seq<char>>|
            #![trigger sorted.to_multiset()]
            {
                &&& sorted.to_multiset() == crate::protocol::texts(online_users@).to_multiset()
                &&& (forall|i: int, j: int|
                    0 <= i < j < sorted.len() ==> !text_before(
                        #[trigger] sorted[j],
                        #[trigger] sorted[i],
                    ))
                &&& r@.len() == sorted.len()
                &&& forall|i: int|
                    0 <= i < sorted.len() ==> {
                        &&& (#[trigger] r@[i]).label@ == sidebar_label(sorted[i], me@)
                        &&& r@[i].color == hash_color(sorted[i])
                        &&& r@[i].me == (sorted[i] == me@)
                    }
            },
{
    let mut copy: Vec<String> = Vec::new();
    let n = online_users.len();
    for i in 0..n
        invariant
            n == online_users@.len(),
            crate::protocol::texts(copy@) == crate::protocol::texts(online_users@.take(i as int)),
    {
        let ghost before = copy@;
        let c = online_users[i].clone();
        assert(c@ == online_users@[i as int]@);
        copy.push(c);
        assert(crate::protocol::texts(copy@) =~= crate::protocol::texts(before).push(
            online_users@[i as int]@,
        ));
        assert(crate::protocol::texts(online_users@.take(i + 1)) =~= crate::protocol::texts(
            online_users@.take(i as int),
        ).push(online_users@[i as int]@));
    }
    assert(online_users@.take(n as int) == online_users@);
    let sorted = sorted_names(copy);
    let ghost sv = crate::protocol::texts(sorted@);
    let mut r: Vec<SidebarEntry> = Vec::new();
    let m = sorted.len();
    for i in 0..m
        invariant
            m == sorted@.len(),
            sv == crate::protocol::texts(sorted@),
            r@.len() == i,
            forall|k: int|
                0 <= k < i ==> {
                    &&& (#[trigger] r@[k]).label@ == sidebar_label(sv[k], me@)
                    &&& r@[k].color == hash_color(sv[k])
                    &&& r@[k].me == (sv[k] == me@)
                },
    {
        let name = &sorted[i];
        let is_me = str_eq(name.as_str(), me);
        let mut label = name.clone();
        if is_me {
            label.append(" (me)");
        }
        r.push(SidebarEntry { label, color: get_hash_color(name.as_str()), me: is_me });
    }
    assert(sv.len() == r@.len());
    r
}

} // verus!
