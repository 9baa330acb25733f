//! Emoji shortcodes (`:name:`) and their rendering to Unicode.
use vstd::prelude::*;

use crate::text::{chars_of, push_char};

verus! {

broadcast use vstd::string::group_string_axioms;

/// Standard emoji shortcode mapping (Discord/Slack compatible): shortcode, emoji.
pub const EMOJI_MAP: [(&'static str, &'static str); 165] = [
    // Smileys & Emotions
    ("grinning", "\u{1F600}"),
    ("smiley", "\u{1F603}"),
    ("smile", "\u{1F604}"),
    ("grin", "\u{1F601}"),
    ("laughing", "\u{1F606}"),
    ("sweat_smile", "\u{1F605}"),
    ("rofl", "\u{1F923}"),
    ("joy", "\u{1F602}"),
    ("wink", "\u{1F609}"),
    ("blush", "\u{1F60A}"),
    ("innocent", "\u{1F607}"),
    ("heart_eyes", "\u{1F60D}"),
    ("star_struck", "\u{1F929}"),
    ("kissing_heart", "\u{1F618}"),
    ("relaxed", "\u{263A}\u{FE0F}"),
    ("yum", "\u{1F60B}"),
    ("stuck_out_tongue", "\u{1F61B}"),
    ("stuck_out_tongue_winking_eye", "\u{1F61D}"),
    ("stuck_out_tongue_closed_eyes", "\u{1F61C}"),
    ("money_mouth_face", "\u{1F911}"),
    ("hugging_face", "\u{1F917}"),
    ("thinking_face", "\u{1F914}"),
    ("nerd_face", "\u{1F913}"),
    ("sunglasses", "\u{1F60E}"),
    ("exploding_head", "\u{1F92F}"),
    ("shushing_face", "\u{1F92D}"),
    ("cry", "\u{1F622}"),
    ("sob", "\u{1F62D}"),
    ("scream", "\u{1F631}"),
    ("rage", "\u{1F621}"),
    ("angry", "\u{1F620}"),
    ("smirk", "\u{1F60F}"),
    ("unamused", "\u{1F612}"),
    ("pensive", "\u{1F614}"),
    ("confused", "\u{1F615}"),
    ("worried", "\u{1F61F}"),
    ("open_mouth", "\u{1F62E}"),
    ("hushed", "\u{1F62F}"),
    ("cold_sweat", "\u{1F613}"),
    ("fearful", "\u{1F628}"),
    ("confounded", "\u{1F61E}"),
    ("disappointed", "\u{1F61E}"),
    ("persevere", "\u{1F623}"),
    ("drooling_face", "\u{1F924}"),
    ("lying_face", "\u{1F925}"),
    ("liar", "\u{1F925}"),
    ("shocked", "\u{1F632}"),
    ("astonished", "\u{1F632}"),
    ("flushed", "\u{1F633}"),
    ("pleading_face", "\u{1F97A}"),
    ("pray", "\u{1F64F}"),
    ("please", "\u{1F97A}"),

    // Gestures & Hands
    ("+1", "\u{1F44D}"),
    ("thumbsup", "\u{1F44D}"),
    ("-1", "\u{1F44E}"),
    ("thumbsdown", "\u{1F44E}"),
    ("wave", "\u{1F44B}"),
    ("raised_hand", "\u{1F590}"),
    ("ok_hand", "\u{1F44C}"),
    ("pinching_hands", "\u{1F90F}"),
    ("clap", "\u{1F44F}"),
    ("raised_back_of_hand", "\u{1F91A}"),
    ("writing_hand", "\u{270D}\u{FE0F}"),
    ("nail_care", "\u{1F485}"),
    ("selfie", "\u{1F933}"),
    ("muscle", "\u{1F4AA}"),
    ("middle_finger", "\u{1F595}"),
    ("reversed_hand_with_middle_finger_extended", "\u{1F595}"),
    ("v", "\u{1F590}"),
    ("crossed_fingers", "\u{1F91E}"),
    ("love_you_gesture", "\u{1F91F}"),
    ("metal", "\u{1F918}"),
    ("call_me_hand", "\u{1F919}"),
    ("point_left", "\u{1F448}"),
    ("point_right", "\u{1F449}"),
    ("point_down", "\u{1F447}"),
    ("point_up_2", "\u{1F446}"),
    ("point_up", "\u{261D}\u{FE0F}"),

    // Nature & Flowers
    ("bouquet", "\u{1F490}"),
    ("cherry_blossom", "\u{1F338}"),
    ("white_flower", "\u{1F3F0}\u{FE0F}"),
    ("rosette", "\u{1F3F5}"),
    ("rose", "\u{1F339}"),
    ("wilted_flower", "\u{1F940}"),
    ("hibiscus", "\u{1F33A}"),
    ("sunflower", "\u{1F33B}"),
    ("blossom", "\u{1F33C}"),
    ("tulip", "\u{1F337}"),
    ("seedling", "\u{1F331}"),
    ("evergreen_tree", "\u{1F332}"),
    ("deciduous_tree", "\u{1F333}"),
    ("palm_tree", "\u{1F334}"),
    ("cactus", "\u{1F335}"),
    ("ear_of_rice", "\u{1F33E}"),
    ("herb", "\u{1F33F}"),
    ("shamrock", "\u{2618}\u{FE0F}"),
    ("four_leaf_clover", "\u{1F340}"),
    ("maple_leaf", "\u{1F341}"),
    ("fallen_leaf", "\u{1F342}"),
    ("leaves", "\u{1F343}"),

    // Food & Drink
    ("apple", "\u{1F34E}"),
    ("green_apple", "\u{1F34F}"),
    ("pear", "\u{1F350}"),
    ("peach", "\u{1F351}"),
    ("cherries", "\u{1F352}"),
    ("grapes", "\u{1F347}"),
    ("watermelon", "\u{1F349}"),
    ("mandarin", "\u{1F34A}"),
    ("banana", "\u{1F34C}"),
    ("pineapple", "\u{1F34D}"),
    ("tomato", "\u{1F345}"),
    ("salad", "\u{1F957}"),
    ("hot_pepper", "\u{1F336}"),

    // Symbols & Hearts
    ("heart", "\u{2764}\u{FE0F}"),
    ("orange_heart", "\u{1F9E1}"),
    ("yellow_heart", "\u{1F49B}"),
    ("green_heart", "\u{1F49A}"),
    ("blue_heart", "\u{1F499}"),
    ("purple_heart", "\u{1F49C}"),
    ("broken_heart", "\u{1F494}"),
    ("hearts", "\u{2764}\u{2764}\u{2764}"),
    ("two_hearts", "\u{1F495}"),
    ("revolving_hearts", "\u{1F49E}"),
    ("heartbeat", "\u{1F493}"),
    ("heartpulse", "\u{1F493}"),
    ("sparkling_heart", "\u{1F496}"),
    ("sparkles", "\u{2728}"),
    ("star", "\u{2B50}"),
    ("stars", "\u{1F31F}"),
    ("boom", "\u{1F4A5}"),
    ("collision", "\u{1F4A5}"),
    ("anger", "\u{1F4AB}"),
    ("exclamation", "\u{2757}"),
    ("question", "\u{2753}"),
    ("grey_exclamation", "\u{2755}"),
    ("grey_question", "\u{2754}"),
    ("zzz", "\u{1F4A4}"),
    ("bomb", "\u{1F4A3}"),
    ("speech_balloon", "\u{1F4AC}"),
    ("thought_balloon", "\u{1F4AD}"),
    ("warning", "\u{26A0}\u{FE0F}"),
    ("recycle", "\u{267B}\u{FE0F}"),
    ("wheelchair", "\u{1F6BC}"),
    ("peace", "\u{262E}\u{FE0F}"),
    ("on", "\u{1F51A}"),
    ("soon", "\u{1F51C}"),
    ("copyright", "\u{00A9}\u{FE0F}"),
    ("registered", "\u{00AE}\u{FE0F}"),
    ("tm", "\u{2122}"),
    ("new", "\u{1F195}"),
    ("end", "\u{1F51E}"),
    ("back", "\u{1F519}"),
    ("go_on", "\u{1F51D}"),
    ("up", "\u{1F4C3}"),
    ("cool", "\u{1F192}"),
    ("fast_forward", "\u{23E9}"),
    ("red_circle", "\u{1F534}"),
    ("large_blue_circle", "\u{1F535}"),

    // Animals
    ("snail", "\u{1F40C}"),
    ("ant", "\u{1F41C}"),
    ("bee", "\u{1F41D}"),
    ("bug", "\u{1F41B}"),
    ("flying_saucer", "\u{1F680}"),

    // Misc common
    ("snowflake", "\u{2744}\u{FE0F}"),
    ("white_frowning_face", "\u{2639}\u{FE0F}"),
];

/// The emoji that the table gives to `code`, looking from entry `i` on: the first match.
pub open spec fn emoji_from(code: Seq<char>, i: int) -> Option<Seq<char>>
    decreases EMOJI_MAP@.len() - i,
{
    if 0 <= i < EMOJI_MAP@.len() {
        if EMOJI_MAP@[i].0@ == code {
            Some(EMOJI_MAP@[i].1@)
        } else {
            emoji_from(code, i + 1)
        }
    } else {
        None
    }
}

/// The emoji for a shortcode, if the table knows it.
pub open spec fn emoji_for(code: Seq<char>) -> Option<Seq<char>> {
    emoji_from(code, 0)
}

/// The shortcodes of the table, in table order.
pub open spec fn emoji_shortcodes() -> Seq<Seq<char>> {
    EMOJI_MAP@.map_values(|e: (&str, &str)| e.0@)
}

/// The position of the first `:` in `s` at or after `k`.
pub open spec fn next_colon(s: Seq<char>, k: int) -> Option<int>
    decreases s.len() - k,
{
    if 0 <= k < s.len() {
        if s[k] == ':' {
            Some(k)
        } else {
            next_colon(s, k + 1)
        }
    } else {
        None
    }
}

/// The position of the colon that closes a shortcode opened at the start of `s`
/// (`-1` when there is none).
pub open spec fn closing_colon(s: Seq<char>) -> int {
    match next_colon(s, 1) {
        Some(j) => j,
        None => -1,
    }
}

/// Whether `s` starts with `:code:` for a shortcode that the table knows.
pub open spec fn starts_with_known_shortcode(s: Seq<char>) -> bool {
    let j = closing_colon(s);
    &&& s.len() > 0
    &&& s[0] == ':'
    &&& 1 < j < s.len()
    &&& emoji_for(s.subrange(1, j)) is Some
}

/// `s` with every `:shortcode:` that the table knows replaced by its emoji. Scanning goes
/// left to right; a colon that does not open a known shortcode is kept as it is, and
/// scanning goes on with the character after it.
pub open spec fn rendered(s: Seq<char>) -> Seq<char>
    decreases s.len(),
{
    if s.len() == 0 {
        seq![]
    } else if starts_with_known_shortcode(s) {
        let j = closing_colon(s);
        emoji_for(s.subrange(1, j))->0 + rendered(s.skip(j + 1))
    } else {
        seq![s[0]] + rendered(s.drop_first())
    }
}

/// Looks `code` up in the table.
fn lookup_emoji(code: &[char]) -> (r: Option<&'static str>)
    ensures
        match r {
            Some(e) => emoji_for(code@) == Some(e@),
            None => emoji_for(code@) is None,
        },
{
    let n = EMOJI_MAP.len();
    let mut i: usize = 0;
    while i < n
        invariant
            n == EMOJI_MAP@.len(),
            0 <= i <= n,
            emoji_from(code@, 0) == emoji_from(code@, i as int),
        decreases n - i,
    {
        let entry = EMOJI_MAP[i];
        let key = chars_of(entry.0);
        if crate::text::same_chars(key.as_slice(), code) {
            return Some(entry.1);
        }
        i = i + 1;
    }
    None
}

proof fn lemma_next_colon_scan(s: Seq<char>, k: int, j: int)
    requires
        0 <= k <= j <= s.len(),
        forall|m: int| k <= m < j ==> #[trigger] s[m] != ':',
        j == s.len() || s[j] == ':',
    ensures
        next_colon(s, k) == (if j < s.len() { Some(j) } else { None::<int> }),
    decreases j - k,
{
    if k < j {
        lemma_next_colon_scan(s, k + 1, j);
    }
}

proof fn lemma_next_colon_shift(s: Seq<char>, i: int, k: int)
    requires
        0 <= i <= s.len(),
        0 <= k,
    ensures
        next_colon(s.skip(i), k) == match next_colon(s, i + k) {
            Some(j) => Some(j - i),
            None => None::<int>,
        },
    decreases s.len() - (i + k),
{
    if i + k < s.len() {
        lemma_next_colon_shift(s, i, k + 1);
    }
}

/// Renders all `:shortcode:` emoji patterns in text to their Unicode equivalents.
pub fn render_emojis(text: &str) -> (r: String)
    ensures
        r@ == rendered(text@),
{
    let cs = chars_of(text);
    let n = cs.len();
    let mut result = String::new();
    let mut i: usize = 0;
    assert(cs@.skip(0) == cs@);
    while i < n
        invariant
            n == cs@.len(),
            cs@ == text@,
            0 <= i <= n,
            result@ + rendered(cs@.skip(i as int)) == rendered(cs@),
        decreases n - i,
    {
        let ghost t = cs@.skip(i as int);
        let c = cs[i];
        assert(t[0] == c);
        assert(t.drop_first() == cs@.skip(i + 1));
        if c == ':' {
            let mut j = i + 1;
            while j < n && cs[j] != ':'
                invariant
                    n == cs@.len(),
                    i + 1 <= j <= n,
                    forall|m: int| i + 1 <= m < j ==> #[trigger] cs@[m] != ':',
                decreases n - j,
            {
                j = j + 1;
            }
            proof {
                lemma_next_colon_scan(cs@, i + 1, j as int);
                lemma_next_colon_shift(cs@, i as int, 1);
            }
            if j < n && j > i + 1 {
                let code = crate::text::sub_chars(cs.as_slice(), i + 1, j);
                assert(t.subrange(1, j - i) == cs@.subrange(i + 1, j as int));
                match lookup_emoji(code.as_slice()) {
                    Some(e) => {
                        let ghost before = result@;
                        result.append(e);
                        assert(t.skip(j - i + 1) == cs@.skip(j + 1));
                        assert(rendered(t) == e@ + rendered(cs@.skip(j + 1)));
                        assert(before + (e@ + rendered(cs@.skip(j + 1))) == result@ + rendered(
                            cs@.skip(j + 1),
                        ));
                        i = j + 1;
                        continue;
                    },
                    None => {},
                }
            }
        }
        assert(!starts_with_known_shortcode(t));
        let ghost before = result@;
        push_char(&mut result, c);
        assert(rendered(t) == seq![c] + rendered(cs@.skip(i + 1)));
        assert(before + (seq![c] + rendered(cs@.skip(i + 1))) == result@ + rendered(
            cs@.skip(i + 1),
        ));
        i = i + 1;
    }
    assert(cs@.skip(n as int) == Seq::<char>::empty());
    assert(result@ + Seq::<char>::empty() == result@);
    result
}

/// Text before the first colon passes through rendering unchanged: for `a` without
/// any colon, rendering `a + b` gives `a` followed by the rendering of `b`.
pub proof fn lemma_rendered_colon_free_prefix(a: Seq<char>, b: Seq<char>)
    requires
        !a.contains(':'),
    ensures
        rendered(a + b) == a + rendered(b),
    decreases a.len(),
{
    if a.len() > 0 {
        let s = a + b;
        assert(s[0] == a[0]);
        assert(s.drop_first() == a.drop_first() + b);
        assert(!a.drop_first().contains(':')) by {
            if a.drop_first().contains(':') {
                let k = choose|k: int| 0 <= k < a.drop_first().len() && a.drop_first()[k] == ':';
                assert(a[k + 1] == ':');
            }
        }
        assert(s[0] != ':') by {
            assert(a[0] == s[0]);
        }
        lemma_rendered_colon_free_prefix(a.drop_first(), b);
        assert(seq![a[0]] + (a.drop_first() + rendered(b)) == a + rendered(b));
    } else {
        assert(a + b == b);
        assert(a + rendered(b) == rendered(b));
    }
}

/// Text without any colon is left unchanged by rendering.
pub proof fn lemma_rendered_colon_free(s: Seq<char>)
    requires
        !s.contains(':'),
    ensures
        rendered(s) == s,
{
    lemma_rendered_colon_free_prefix(s, seq![]);
    assert(s + Seq::<char>::empty() == s);
    assert(rendered(Seq::<char>::empty()) == Seq::<char>::empty());
}

/// Every shortcode of the table is a non-empty text without a colon.
proof fn lemma_emoji_keys_plain()
    ensures
        forall|i: int|
            0 <= i < EMOJI_MAP@.len() ==> (#[trigger] EMOJI_MAP@[i]).0@.len() > 0
                && !EMOJI_MAP@[i].0@.contains(':'),
{
    assert forall|i: int| 0 <= i < EMOJI_MAP@.len() implies (#[trigger] EMOJI_MAP@[i]).0@.len()
        > 0 && !EMOJI_MAP@[i].0@.contains(':') by {
        if i == 0 {
            reveal_strlit("grinning");
        } else if i == 1 {
            reveal_strlit("smiley");
        } else if i == 2 {
            reveal_strlit("smile");
        } else if i == 3 {
            reveal_strlit("grin");
        } else if i == 4 {
            reveal_strlit("laughing");
        } else if i == 5 {
            reveal_strlit("sweat_smile");
        } else if i == 6 {
            reveal_strlit("rofl");
        } else if i == 7 {
            reveal_strlit("joy");
        } else if i == 8 {
            reveal_strlit("wink");
        } else if i == 9 {
            reveal_strlit("blush");
        } else if i == 10 {
            reveal_strlit("innocent");
        } else if i == 11 {
            reveal_strlit("heart_eyes");
        } else if i == 12 {
            reveal_strlit("star_struck");
        } else if i == 13 {
            reveal_strlit("kissing_heart");
        } else if i == 14 {
            reveal_strlit("relaxed");
        } else if i == 15 {
            reveal_strlit("yum");
        } else if i == 16 {
            reveal_strlit("stuck_out_tongue");
        } else if i == 17 {
            reveal_strlit("stuck_out_tongue_winking_eye");
        } else if i == 18 {
            reveal_strlit("stuck_out_tongue_closed_eyes");
        } else if i == 19 {
            reveal_strlit("money_mouth_face");
        } else if i == 20 {
            reveal_strlit("hugging_face");
        } else if i == 21 {
            reveal_strlit("thinking_face");
        } else if i == 22 {
            reveal_strlit("nerd_face");
        } else if i == 23 {
            reveal_strlit("sunglasses");
        } else if i == 24 {
            reveal_strlit("exploding_head");
        } else if i == 25 {
            reveal_strlit("shushing_face");
        } else if i == 26 {
            reveal_strlit("cry");
        } else if i == 27 {
            reveal_strlit("sob");
        } else if i == 28 {
            reveal_strlit("scream");
        } else if i == 29 {
            reveal_strlit("rage");
        } else if i == 30 {
            reveal_strlit("angry");
        } else if i == 31 {
            reveal_strlit("smirk");
        } else if i == 32 {
            reveal_strlit("unamused");
        } else if i == 33 {
            reveal_strlit("pensive");
        } else if i == 34 {
            reveal_strlit("confused");
        } else if i == 35 {
            reveal_strlit("worried");
        } else if i == 36 {
            reveal_strlit("open_mouth");
        } else if i == 37 {
            reveal_strlit("hushed");
        } else if i == 38 {
            reveal_strlit("cold_sweat");
        } else if i == 39 {
            reveal_strlit("fearful");
        } else if i == 40 {
            reveal_strlit("confounded");
        } else if i == 41 {
            reveal_strlit("disappointed");
        } else if i == 42 {
            reveal_strlit("persevere");
        } else if i == 43 {
            reveal_strlit("drooling_face");
        } else if i == 44 {
            reveal_strlit("lying_face");
        } else if i == 45 {
            reveal_strlit("liar");
        } else if i == 46 {
            reveal_strlit("shocked");
        } else if i == 47 {
            reveal_strlit("astonished");
        } else if i == 48 {
            reveal_strlit("flushed");
        } else if i == 49 {
            reveal_strlit("pleading_face");
        } else if i == 50 {
            reveal_strlit("pray");
        } else if i == 51 {
            reveal_strlit("please");
        } else if i == 52 {
            reveal_strlit("+1");
        } else if i == 53 {
            reveal_strlit("thumbsup");
        } else if i == 54 {
            reveal_strlit("-1");
        } else if i == 55 {
            reveal_strlit("thumbsdown");
        } else if i == 56 {
            reveal_strlit("wave");
        } else if i == 57 {
            reveal_strlit("raised_hand");
        } else if i == 58 {
            reveal_strlit("ok_hand");
        } else if i == 59 {
            reveal_strlit("pinching_hands");
        } else if i == 60 {
            reveal_strlit("clap");
        } else if i == 61 {
            reveal_strlit("raised_back_of_hand");
        } else if i == 62 {
            reveal_strlit("writing_hand");
        } else if i == 63 {
            reveal_strlit("nail_care");
        } else if i == 64 {
            reveal_strlit("selfie");
        } else if i == 65 {
            reveal_strlit("muscle");
        } else if i == 66 {
            reveal_strlit("middle_finger");
        } else if i == 67 {
            reveal_strlit("reversed_hand_with_middle_finger_extended");
        } else if i == 68 {
            reveal_strlit("v");
        } else if i == 69 {
            reveal_strlit("crossed_fingers");
        } else if i == 70 {
            reveal_strlit("love_you_gesture");
        } else if i == 71 {
            reveal_strlit("metal");
        } else if i == 72 {
            reveal_strlit("call_me_hand");
        } else if i == 73 {
            reveal_strlit("point_left");
        } else if i == 74 {
            reveal_strlit("point_right");
        } else if i == 75 {
            reveal_strlit("point_down");
        } else if i == 76 {
            reveal_strlit("point_up_2");
        } else if i == 77 {
            reveal_strlit("point_up");
        } else if i == 78 {
            reveal_strlit("bouquet");
        } else if i == 79 {
            reveal_strlit("cherry_blossom");
        } else if i == 80 {
            reveal_strlit("white_flower");
        } else if i == 81 {
            reveal_strlit("rosette");
        } else if i == 82 {
            reveal_strlit("rose");
        } else if i == 83 {
            reveal_strlit("wilted_flower");
        } else if i == 84 {
            reveal_strlit("hibiscus");
        } else if i == 85 {
            reveal_strlit("sunflower");
        } else if i == 86 {
            reveal_strlit("blossom");
        } else if i == 87 {
            reveal_strlit("tulip");
        } else if i == 88 {
            reveal_strlit("seedling");
        } else if i == 89 {
            reveal_strlit("evergreen_tree");
        } else if i == 90 {
            reveal_strlit("deciduous_tree");
        } else if i == 91 {
            reveal_strlit("palm_tree");
        } else if i == 92 {
            reveal_strlit("cactus");
        } else if i == 93 {
            reveal_strlit("ear_of_rice");
        } else if i == 94 {
            reveal_strlit("herb");
        } else if i == 95 {
            reveal_strlit("shamrock");
        } else if i == 96 {
            reveal_strlit("four_leaf_clover");
        } else if i == 97 {
            reveal_strlit("maple_leaf");
        } else if i == 98 {
            reveal_strlit("fallen_leaf");
        } else if i == 99 {
            reveal_strlit("leaves");
        } else if i == 100 {
            reveal_strlit("apple");
        } else if i == 101 {
            reveal_strlit("green_apple");
        } else if i == 102 {
            reveal_strlit("pear");
        } else if i == 103 {
            reveal_strlit("peach");
        } else if i == 104 {
            reveal_strlit("cherries");
        } else if i == 105 {
            reveal_strlit("grapes");
        } else if i == 106 {
            reveal_strlit("watermelon");
        } else if i == 107 {
            reveal_strlit("mandarin");
        } else if i == 108 {
            reveal_strlit("banana");
        } else if i == 109 {
            reveal_strlit("pineapple");
        } else if i == 110 {
            reveal_strlit("tomato");
        } else if i == 111 {
            reveal_strlit("salad");
        } else if i == 112 {
            reveal_strlit("hot_pepper");
        } else if i == 113 {
            reveal_strlit("heart");
        } else if i == 114 {
            reveal_strlit("orange_heart");
        } else if i == 115 {
            reveal_strlit("yellow_heart");
        } else if i == 116 {
            reveal_strlit("green_heart");
        } else if i == 117 {
            reveal_strlit("blue_heart");
        } else if i == 118 {
            reveal_strlit("purple_heart");
        } else if i == 119 {
            reveal_strlit("broken_heart");
        } else if i == 120 {
            reveal_strlit("hearts");
        } else if i == 121 {
            reveal_strlit("two_hearts");
        } else if i == 122 {
            reveal_strlit("revolving_hearts");
        } else if i == 123 {
            reveal_strlit("heartbeat");
        } else if i == 124 {
            reveal_strlit("heartpulse");
        } else if i == 125 {
            reveal_strlit("sparkling_heart");
        } else if i == 126 {
            reveal_strlit("sparkles");
        } else if i == 127 {
            reveal_strlit("star");
        } else if i == 128 {
            reveal_strlit("stars");
        } else if i == 129 {
            reveal_strlit("boom");
        } else if i == 130 {
            reveal_strlit("collision");
        } else if i == 131 {
            reveal_strlit("anger");
        } else if i == 132 {
            reveal_strlit("exclamation");
        } else if i == 133 {
            reveal_strlit("question");
        } else if i == 134 {
            reveal_strlit("grey_exclamation");
        } else if i == 135 {
            reveal_strlit("grey_question");
        } else if i == 136 {
            reveal_strlit("zzz");
        } else if i == 137 {
            reveal_strlit("bomb");
        } else if i == 138 {
            reveal_strlit("speech_balloon");
        } else if i == 139 {
            reveal_strlit("thought_balloon");
        } else if i == 140 {
            reveal_strlit("warning");
        } else if i == 141 {
            reveal_strlit("recycle");
        } else if i == 142 {
            reveal_strlit("wheelchair");
        } else if i == 143 {
            reveal_strlit("peace");
        } else if i == 144 {
            reveal_strlit("on");
        } else if i == 145 {
            reveal_strlit("soon");
        } else if i == 146 {
            reveal_strlit("copyright");
        } else if i == 147 {
            reveal_strlit("registered");
        } else if i == 148 {
            reveal_strlit("tm");
        } else if i == 149 {
            reveal_strlit("new");
        } else if i == 150 {
            reveal_strlit("end");
        } else if i == 151 {
            reveal_strlit("back");
        } else if i == 152 {
            reveal_strlit("go_on");
        } else if i == 153 {
            reveal_strlit("up");
        } else if i == 154 {
            reveal_strlit("cool");
        } else if i == 155 {
            reveal_strlit("fast_forward");
        } else if i == 156 {
            reveal_strlit("red_circle");
        } else if i == 157 {
            reveal_strlit("large_blue_circle");
        } else if i == 158 {
            reveal_strlit("snail");
        } else if i == 159 {
            reveal_strlit("ant");
        } else if i == 160 {
            reveal_strlit("bee");
        } else if i == 161 {
            reveal_strlit("bug");
        } else if i == 162 {
            reveal_strlit("flying_saucer");
        } else if i == 163 {
            reveal_strlit("snowflake");
        } else if i == 164 {
            reveal_strlit("white_frowning_face");
        }
    }
}

/// A known shortcode written between two colons, followed by any text, renders to its
/// emoji followed by the rendering of that text.
pub proof fn lemma_rendered_known_shortcode(code: Seq<char>, rest: Seq<char>)
    requires
        code.len() > 0,
        !code.contains(':'),
        emoji_for(code) is Some,
    ensures
        rendered(seq![':'] + code + seq![':'] + rest) == emoji_for(code)->0 + rendered(rest),
{
    let s = seq![':'] + code + seq![':'] + rest;
    let j: int = code.len() as int + 1;
    assert forall|m: int| 1 <= m < j implies #[trigger] s[m] != ':' by {
        assert(s[m] == code[m - 1]);
    }
    assert(s[j] == ':');
    lemma_next_colon_scan(s, 1, j);
    assert(s.subrange(1, j) == code);
    assert(s.skip(j + 1) == rest);
}


/// A shortcode of the table between two colons renders to its emoji: for every entry
/// and any texts `a` and `b` without colons, `a:code:b` renders to `a`, the emoji the
/// table gives to the code, and `b`.
pub proof fn lemma_rendered_table_shortcode(i: int, a: Seq<char>, b: Seq<char>)
    requires
        0 <= i < EMOJI_MAP@.len(),
        !a.contains(':'),
        !b.contains(':'),
    ensures
        emoji_for(EMOJI_MAP@[i].0@) is Some,
        rendered(a + seq![':'] + EMOJI_MAP@[i].0@ + seq![':'] + b) == a + emoji_for(
            EMOJI_MAP@[i].0@,
        )->0 + b,
{
    let code = EMOJI_MAP@[i].0@;
    lemma_emoji_keys_plain();
    assert(EMOJI_MAP@[i].0@.len() > 0);
    lemma_emoji_from_found(code, 0, i);
    lemma_rendered_known_shortcode(code, b);
    lemma_rendered_colon_free(b);
    let tail = seq![':'] + code + seq![':'] + b;
    lemma_rendered_colon_free_prefix(a, tail);
    assert(a + seq![':'] + code + seq![':'] + b == a + tail);
}

/// The table gives an emoji to every code at or after position `j` up to an entry
/// with that code.
proof fn lemma_emoji_from_found(code: Seq<char>, j: int, i: int)
    requires
        0 <= j <= i < EMOJI_MAP@.len(),
        EMOJI_MAP@[i].0@ == code,
    ensures
        emoji_from(code, j) is Some,
    decreases i - j,
{
    if EMOJI_MAP@[j].0@ != code {
        lemma_emoji_from_found(code, j + 1, i);
    }
}

} // verus!
