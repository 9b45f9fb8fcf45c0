//! The order of the phrase table: no phrase of it is masked by an earlier one.
//!
//! Where a phrase stands in a text, so does its end: its last two words, or its
//! only one. So no phrase of an earlier row stands in a text of which no word and
//! no two neighbours are such an end. That is looked up by numbers that tell the
//! words of the table apart.

use vstd::prelude::*;

use crate::actions::Action;
use crate::phrases::rules;
use crate::text::{is_plain, is_space, is_word, join, law_split_undoes_join, words};
use crate::voice_router::{
    first_said, is_normal, law_first_rule_wins, law_normal_text_stays, meaning, phrase_at, says,
    says_any, Meaning,
};

verus! {

// ---------------------------------------------------------------------------
// Telling words apart
// ---------------------------------------------------------------------------

/// Where the word that begins at `i` ends: at the next space, or the end.
pub open spec fn word_end(s: Seq<char>, i: int) -> int
    decreases s.len() - i,
{
    if i < 0 || i >= s.len() || s[i] == ' ' {
        i
    } else {
        word_end(s, i + 1)
    }
}

/// The `k`th character of a word of `n` characters at `i`; 0 behind the word.
pub open spec fn char_of(s: Seq<char>, i: int, n: int, k: int) -> int {
    if k < n {
        s[i + k] as int
    } else {
        0
    }
}

/// A number by which the words of the table are told apart: the first three
/// characters of the word that begins at `i`, and its length, a byte each.
pub open spec fn mark(s: Seq<char>, i: int) -> int {
    let n = word_end(s, i) - i;
    ((char_of(s, i, n, 0) * 256 + char_of(s, i, n, 1)) * 256 + char_of(s, i, n, 2)) * 256 + n
}

/// A word begins at `i`.
pub open spec fn starts_at(s: Seq<char>, i: int) -> bool {
    0 <= i < s.len() && (i == 0 || s[i - 1] == ' ')
}

/// The first row of the table with a phrase of one word, which has the mark; one
/// past the last row where there is none.
pub open spec fn word_row(last: int) -> int {
    if last == 0x707265_08
        || last == 0x707265_04
        || last == 0x626163_04
        || last == 0x756e64_04 {
        // previous, prev, back, undo
        9
    } else if last == 0x6e6578_04
        || last == 0x616476_07
        || last == 0x636f6e_08
        || last == 0x70726f_07
        || last == 0x6f6b61_04
        || last == 0x6f6b00_02
        || last == 0x646f6e_04
        || last == 0x636865_05
        || last == 0x797570_03
        || last == 0x796570_03
        || last == 0x796561_04
        || last == 0x796573_03 {
        // next, advance, continue, proceed, okay, ok, done, check, yup, yep, yeah, yes
        10
    } else if last == 0x726570_06
        || last == 0x616761_05
        || last == 0x726561_04 {
        // repeat, again, read
        13
    } else if last == 0x706c61_04
        || last == 0x737065_05
        || last == 0x706175_05 {
        // play, speak, pause
        14
    } else if last == 0x736574_08
        || last == 0x707265_0b {
        // settings, preferences
        19
    } else if last == 0x63616e_06
        || last == 0x73746f_04
        || last == 0x6e6576_09
        || last == 0x717569_05 {
        // cancel, stop, nevermind, quiet
        20
    } else {
        31
    }
}

/// The first row of the table with a phrase whose last two words have the marks;
/// one past the last row where there is none.
pub open spec fn pair_row(prev: int, last: int) -> int {
    if (prev == 0x6e6578_04 && last == 0x706167_04)
        || (prev == 0x706167_04 && last == 0x6e6578_04)
        || (prev == 0x706167_04 && last == 0x646f77_04)
        || (prev == 0x706167_04 && last == 0x666f72_07) {
        // next page, page next, page down, page forward
        0
    } else if (prev == 0x707265_08 && last == 0x706167_04)
        || (prev == 0x707265_04 && last == 0x706167_04)
        || (prev == 0x706167_04 && last == 0x707265_08)
        || (prev == 0x706167_04 && last == 0x757000_02)
        || (prev == 0x706167_04 && last == 0x626163_04) {
        // previous page, prev page, page previous, page up, page back
        1
    } else if (prev == 0x6e6578_04 && last == 0x686561_07)
        || (prev == 0x6e6578_04 && last == 0x736563_07)
        || (prev == 0x6e6578_04 && last == 0x67726f_05)
        || (prev == 0x736b69_04 && last == 0x736563_07)
        || (prev == 0x736b69_04 && last == 0x686561_07) {
        // next heading, next section, next group, skip section, skip heading
        2
    } else if (prev == 0x707265_08 && last == 0x686561_07)
        || (prev == 0x707265_08 && last == 0x736563_07)
        || (prev == 0x707265_04 && last == 0x686561_07)
        || (prev == 0x707265_04 && last == 0x736563_07)
        || (prev == 0x626163_04 && last == 0x736563_07) {
        // previous heading, previous section, prev heading, prev section, back section
        3
    } else if (prev == 0x6e6578_04 && last == 0x746162_03)
        || (prev == 0x746162_03 && last == 0x6e6578_04)
        || (prev == 0x746162_03 && last == 0x666f72_07) {
        // next tab, tab next, tab forward
        4
    } else if (prev == 0x707265_08 && last == 0x746162_03)
        || (prev == 0x707265_04 && last == 0x746162_03)
        || (prev == 0x746162_03 && last == 0x626163_04)
        || (prev == 0x746162_03 && last == 0x707265_08) {
        // previous tab, prev tab, tab back, tab previous
        5
    } else if (prev == 0x746f00_02 && last == 0x746f70_03) {
        // to top
        6
    } else if (prev == 0x707573_04 && last == 0x626163_04) {
        // push back
        7
    } else if (prev == 0x776861_05 && last == 0x6e6578_04) {
        // whats next
        8
    } else if (prev == 0x707265_08 && last == 0x697465_04)
        || (prev == 0x707265_08 && last == 0x737465_04)
        || (prev == 0x707265_08 && last == 0x6c696e_04)
        || (prev == 0x676f00_02 && last == 0x626163_04) {
        // previous item, previous step, previous line, go back
        9
    } else if (prev == 0x6e6578_04 && last == 0x697465_04)
        || (prev == 0x6e6578_04 && last == 0x737465_04)
        || (prev == 0x6e6578_04 && last == 0x6c696e_04)
        || (prev == 0x676f74_03 && last == 0x697400_02) {
        // next item, next step, next line, got it
        10
    } else if (prev == 0x726573_07 && last == 0x736563_07)
        || (prev == 0x746869_04 && last == 0x736563_07)
        || (prev == 0x736563_07 && last == 0x6f7665_04)
        || (prev == 0x726573_07 && last == 0x686561_07)
        || (prev == 0x746865_03 && last == 0x746f70_03)
        || (prev == 0x737461_05 && last == 0x6f7665_04)
        || (prev == 0x66726f_04 && last == 0x737461_05) {
        // restart section, this section, section over, restart heading, the top, start
        // over, from start
        11
    } else if (prev == 0x776861_04 && last == 0x736563_07)
        || (prev == 0x776869_05 && last == 0x736563_07)
        || (prev == 0x637572_07 && last == 0x736563_07)
        || (prev == 0x776861_04 && last == 0x686561_07)
        || (prev == 0x776869_05 && last == 0x686561_07)
        || (prev == 0x616d00_02 && last == 0x690000_01) {
        // what section, which section, current section, what heading, which heading, am i
        12
    } else if (prev == 0x697400_02 && last == 0x616761_05)
        || (prev == 0x726561_04 && last == 0x616761_05)
        || (prev == 0x736179_03 && last == 0x616761_05)
        || (prev == 0x776173_03 && last == 0x746861_04)
        || (prev == 0x726561_04 && last == 0x697400_02) {
        // it again, read again, say again, was that, read it
        13
    } else if (prev == 0x737461_05 && last == 0x726561_07)
        || (prev == 0x676f00_02 && last == 0x6f6e00_02)
        || (prev == 0x73746f_04 && last == 0x726561_07) {
        // start reading, go on, stop reading
        14
    } else if (prev == 0x696e66_04 && last == 0x6f6e00_02)
        || (prev == 0x696e66_04 && last == 0x6f6666_03)
        || (prev == 0x6d6f72_04 && last == 0x696e66_04)
        || (prev == 0x746f67_06 && last == 0x6e6f74_05)
        || (prev == 0x746f67_06 && last == 0x696e66_04)
        || (prev == 0x657874_05 && last == 0x696e66_04)
        || (prev == 0x657874_05 && last == 0x646574_06)
        || (prev == 0x646574_07 && last == 0x6f6e00_02)
        || (prev == 0x646574_07 && last == 0x6f6666_03) {
        // info on, info off, more info, toggle notes, toggle info, extra info, extra
        // detail, details on, details off
        15
    } else if (prev == 0x636c69_05 && last == 0x746872_07)
        || (prev == 0x706173_04 && last == 0x746872_07)
        || (prev == 0x67686f_05 && last == 0x6d6f64_04) {
        // click through, pass through, ghost mode
        16
    } else if (prev == 0x686f74_03 && last == 0x6d6963_03)
        || (prev == 0x6f7065_04 && last == 0x6d6963_03)
        || (prev == 0x6d6963_03 && last == 0x6f6e00_02)
        || (prev == 0x6d6963_03 && last == 0x6f6666_03)
        || (prev == 0x746f67_06 && last == 0x6d6963_03)
        || (prev == 0x6c6973_06 && last == 0x6d6f64_04) {
        // hot mic, open mic, mic on, mic off, toggle mic, listen mode
        17
    } else if (prev == 0x766f69_05 && last == 0x636f6d_08)
        || (prev == 0x6c6973_04 && last == 0x636f6d_08)
        || (prev == 0x68656c_04 && last == 0x636f6d_08)
        || (prev == 0x690000_01 && last == 0x736179_03)
        || (prev == 0x73686f_04 && last == 0x636f6d_08)
        || (prev == 0x636f6d_07 && last == 0x68656c_04) {
        // voice commands, list commands, help commands, i say, show commands, command help
        18
    } else if (prev == 0x6f7065_04 && last == 0x736574_08) {
        // open settings
        19
    } else if (prev == 0x6e6576_05 && last == 0x6d696e_04)
        || (prev == 0x736875_04 && last == 0x757000_02) {
        // never mind, shut up
        20
    } else if (prev == 0x6b6e65_09 && last == 0x686572_04)
        || (prev == 0x626f61_05 && last == 0x686572_04)
        || (prev == 0x706c61_05 && last == 0x686572_04)
        || (prev == 0x736e61_04 && last == 0x686572_04)
        || (prev == 0x726570_0a && last == 0x686572_04) {
        // kneeboard here, board here, place here, snap here, reposition here
        21
    } else if (prev == 0x6b6e65_09 && last == 0x636c6f_06)
        || (prev == 0x626f61_05 && last == 0x636c6f_06)
        || (prev == 0x6d6f76_04 && last == 0x636c6f_06)
        || (prev == 0x627269_05 && last == 0x636c6f_06)
        || (prev == 0x746f00_02 && last == 0x6d6500_02) {
        // kneeboard closer, board closer, move closer, bring closer, to me
        22
    } else if (prev == 0x6b6e65_09 && last == 0x667572_07)
        || (prev == 0x6b6e65_09 && last == 0x666172_07)
        || (prev == 0x6d6f76_04 && last == 0x667572_07)
        || (prev == 0x6d6f76_04 && last == 0x666172_07)
        || (prev == 0x667572_07 && last == 0x617761_04) {
        // kneeboard further, kneeboard farther, move further, move farther, further away
        23
    } else if (prev == 0x6b6e65_09 && last == 0x6c6566_04)
        || (prev == 0x6d6f76_04 && last == 0x6c6566_04)
        || (prev == 0x736869_05 && last == 0x6c6566_04) {
        // kneeboard left, move left, shift left
        24
    } else if (prev == 0x6b6e65_09 && last == 0x726967_05)
        || (prev == 0x6d6f76_04 && last == 0x726967_05)
        || (prev == 0x736869_05 && last == 0x726967_05) {
        // kneeboard right, move right, shift right
        25
    } else if (prev == 0x6b6e65_09 && last == 0x757000_02)
        || (prev == 0x6d6f76_04 && last == 0x757000_02)
        || (prev == 0x726169_05 && last == 0x6b6e65_09) {
        // kneeboard up, move up, raise kneeboard
        26
    } else if (prev == 0x6b6e65_09 && last == 0x646f77_04)
        || (prev == 0x6d6f76_04 && last == 0x646f77_04)
        || (prev == 0x6c6f77_05 && last == 0x6b6e65_09) {
        // kneeboard down, move down, lower kneeboard
        27
    } else if (prev == 0x6b6e65_09 && last == 0x626967_06)
        || (prev == 0x6d616b_04 && last == 0x626967_06)
        || (prev == 0x697400_02 && last == 0x626967_06)
        || (prev == 0x6d616b_04 && last == 0x6c6172_06)
        || (prev == 0x626967_06 && last == 0x6b6e65_09)
        || (prev == 0x736361_05 && last == 0x757000_02) {
        // kneeboard bigger, make bigger, it bigger, make larger, bigger kneeboard, scale
        // up
        28
    } else if (prev == 0x6b6e65_09 && last == 0x736d61_07)
        || (prev == 0x6d616b_04 && last == 0x736d61_07)
        || (prev == 0x697400_02 && last == 0x736d61_07)
        || (prev == 0x736d61_07 && last == 0x6b6e65_09)
        || (prev == 0x736361_05 && last == 0x646f77_04) {
        // kneeboard smaller, make smaller, it smaller, smaller kneeboard, scale down
        29
    } else if (prev == 0x726573_05 && last == 0x6b6e65_09)
        || (prev == 0x726573_05 && last == 0x706f73_08)
        || (prev == 0x646566_07 && last == 0x706f73_08)
        || (prev == 0x6b6e65_09 && last == 0x646566_07) {
        // reset kneeboard, reset position, default position, kneeboard default
        30
    } else {
        31
    }
}

/// The first row of the table with a phrase that ends with the two words, or is
/// the one word where `prev` is 0.
pub open spec fn tail_row(prev: int, last: int) -> int {
    if prev == 0 {
        word_row(last)
    } else {
        pair_row(prev, last)
    }
}

/// From the word at `i` on, which comes after the word with the mark `prev` (0
/// where it is the first), no word alone and no two neighbours are the end of a
/// phrase of a row before `row`.
pub open spec fn clear_from(s: Seq<char>, i: int, prev: int, row: int) -> bool
    decreases s.len() - i,
{
    if i < 0 || i >= s.len() || word_end(s, i) < i {
        true
    } else {
        &&& tail_row(0, mark(s, i)) >= row
        &&& prev == 0 || tail_row(prev, mark(s, i)) >= row
        &&& word_end(s, i) >= s.len() || clear_from(s, word_end(s, i) + 1, mark(s, i), row)
    }
}

/// The first row with a phrase that ends as the text does, of which the word at
/// `i` comes after the word with the mark `prev` (0 where it is the first).
pub open spec fn tail_from(s: Seq<char>, i: int, prev: int) -> int
    decreases s.len() - i,
{
    if i < 0 || i >= s.len() || word_end(s, i) < i {
        tail_row(0, 0)
    } else if word_end(s, i) >= s.len() {
        tail_row(prev, mark(s, i))
    } else {
        tail_from(s, word_end(s, i) + 1, mark(s, i))
    }
}

/// The phrase can stand in the row: it is tidy, no end of a phrase of an earlier
/// row is in it, and its own end is known by then.
pub open spec fn ordered(s: Seq<char>, row: int) -> bool {
    tidy(s, 0) && clear_from(s, 0, 0, row) && tail_from(s, 0, 0) <= row
}

/// Each of the phrases can stand in the row.
pub open spec fn all_ordered(phrases: Seq<Seq<char>>, row: int) -> bool {
    forall|k: int| 0 <= k < phrases.len() ==> ordered(#[trigger] phrases[k], row)
}

// ---------------------------------------------------------------------------
// Phrases within phrases
// ---------------------------------------------------------------------------

pub proof fn lemma_word_end(s: Seq<char>, i: int)
    requires
        0 <= i <= s.len(),
    ensures
        i <= word_end(s, i) <= s.len(),
        forall|k: int| i <= k < word_end(s, i) ==> #[trigger] s[k] != ' ',
        word_end(s, i) < s.len() ==> s[word_end(s, i)] == ' ',
    decreases s.len() - i,
{
    if i < s.len() && s[i] != ' ' {
        lemma_word_end(s, i + 1);
    }
}

proof fn lemma_word_within(h: Seq<char>, n: Seq<char>, i: int, u: int)
    requires
        phrase_at(h, n, i),
        0 <= u <= n.len(),
    ensures
        word_end(h, i + u) == i + word_end(n, u),
    decreases n.len() - u,
{
    if u < n.len() {
        assert(h.subrange(i, i + n.len())[u] == h[i + u]);
        lemma_word_within(h, n, i, u + 1);
    }
}

/// Where a phrase stands in a text, each of its words is a word of the text.
pub proof fn lemma_words_of_phrase(h: Seq<char>, n: Seq<char>, i: int, u: int)
    requires
        phrase_at(h, n, i),
        starts_at(n, u),
    ensures
        starts_at(h, i + u),
        word_end(h, i + u) == i + word_end(n, u),
        mark(h, i + u) == mark(n, u),
{
    let part = h.subrange(i, i + n.len());
    lemma_word_within(h, n, i, u);
    lemma_word_end(n, u);
    assert(part == n);
    assert(forall|k: int| 0 <= k < n.len() ==> #[trigger] n[k] == h[i + k]) by {
        assert forall|k: int| 0 <= k < n.len() implies #[trigger] n[k] == h[i + k] by {
            assert(part[k] == h[i + k]);
        }
    }
    let len = word_end(n, u) - u;
    assert(len > 0 ==> n[u] == h[i + u]);
    assert(len > 1 ==> n[u + 1] == h[i + (u + 1)]);
    assert(len > 2 ==> n[u + 2] == h[i + (u + 2)]);
    if u > 0 {
        assert(n[u - 1] == h[i + (u - 1)]);
    }
}

/// No word of the text and no two neighbours are the end of a phrase of a row
/// before `row`.
spec fn is_clear(s: Seq<char>, from: int, row: int) -> bool {
    &&& forall|t: int|
        from <= t && #[trigger] starts_at(s, t) ==> tail_row(0, mark(s, t)) >= row
    &&& forall|u: int|
        from <= u && #[trigger] starts_at(s, u) && starts_at(s, word_end(s, u) + 1) && mark(s, u)
            != 0 ==> tail_row(mark(s, u), mark(s, word_end(s, u) + 1)) >= row
}

proof fn lemma_clear(s: Seq<char>, i: int, prev: int, row: int)
    requires
        starts_at(s, i),
        clear_from(s, i, prev, row),
    ensures
        is_clear(s, i, row),
    decreases s.len() - i,
{
    lemma_word_end(s, i);
    let next = word_end(s, i) + 1;
    if next < s.len() {
        lemma_clear(s, next, mark(s, i), row);
    }
    assert forall|t: int| i < t && #[trigger] starts_at(s, t) implies next <= t by {
        if t <= word_end(s, i) {
            assert(s[t - 1] != ' ');
        }
    }
    assert forall|t: int| i <= t && #[trigger] starts_at(s, t) implies tail_row(0, mark(s, t))
        >= row by {
        if t > i {
            assert(next <= t);
        }
    }
    assert forall|u: int|
        i <= u && #[trigger] starts_at(s, u) && starts_at(s, word_end(s, u) + 1) && mark(s, u)
            != 0 implies tail_row(mark(s, u), mark(s, word_end(s, u) + 1)) >= row by {
        if u > i {
            assert(next <= u);
        } else {
            assert(clear_from(s, next, mark(s, i), row));
            lemma_word_end(s, next);
        }
    }
}

proof fn lemma_tail(h: Seq<char>, n: Seq<char>, a: int, i: int, before: Option<int>, row: int)
    requires
        phrase_at(h, n, a),
        starts_at(n, i),
        is_clear(h, 0, row),
        row <= tail_row(0, 0),
        before matches Some(u) ==> starts_at(n, u) && word_end(n, u) + 1 == i,
    ensures
        tail_from(
            n,
            i,
            match before {
                Some(u) => mark(n, u),
                None => 0,
            },
        ) >= row,
    decreases n.len() - i,
{
    lemma_words_of_phrase(h, n, a, i);
    lemma_word_end(n, i);
    if let Some(u) = before {
        lemma_words_of_phrase(h, n, a, u);
        assert(starts_at(h, a + u));
    }
    reveal_with_fuel(tail_from, 2);
    if word_end(n, i) + 1 < n.len() {
        lemma_tail(h, n, a, word_end(n, i) + 1, Some(i), row);
    }
}

proof fn lemma_never_said(h: Seq<char>, row: int, n: Seq<char>, early: int)
    requires
        clear_from(h, 0, 0, row),
        tail_from(n, 0, 0) <= early,
        early < row,
        row <= tail_row(0, 0),
    ensures
        !says(h, n),
{
    if says(h, n) {
        let a = choose|a: int| phrase_at(h, n, a);
        assert(starts_at(h, 0));
        lemma_clear(h, 0, 0, row);
        assert(starts_at(n, 0));
        lemma_tail(h, n, a, 0, None, row);
    }
}

// ---------------------------------------------------------------------------
// Tidy texts
// ---------------------------------------------------------------------------

/// From `k` on there are only lower-case letters, digits, and single spaces
/// between words.
pub open spec fn tidy(t: Seq<char>, k: int) -> bool
    decreases t.len() - k,
{
    if k < 0 || k >= t.len() {
        true
    } else {
        &&& is_plain(t[k]) || (t[k] == ' ' && 0 < k < t.len() - 1 && t[k - 1] != ' ')
        &&& tidy(t, k + 1)
    }
}

pub proof fn lemma_tidy(t: Seq<char>, k: int, i: int)
    requires
        0 <= k <= i < t.len(),
        tidy(t, k),
    ensures
        is_plain(t[i]) || (t[i] == ' ' && 0 < i < t.len() - 1 && t[i - 1] != ' '),
    decreases i - k,
{
    if k < i {
        lemma_tidy(t, k + 1, i);
    }
}

/// The words of a tidy text from the one that begins at `i` on.
pub open spec fn cut(t: Seq<char>, i: int) -> Seq<Seq<char>>
    decreases t.len() - i,
{
    if i < 0 || i >= t.len() || word_end(t, i) < i {
        Seq::empty()
    } else if word_end(t, i) >= t.len() {
        seq![t.skip(i)]
    } else {
        seq![t.subrange(i, word_end(t, i))] + cut(t, word_end(t, i) + 1)
    }
}

proof fn lemma_join_first(w: Seq<char>, rest: Seq<Seq<char>>)
    requires
        rest.len() > 0,
    ensures
        join(seq![w] + rest, seq![' ']) == w + seq![' '] + join(rest, seq![' ']),
    decreases rest.len(),
{
    let all = seq![w] + rest;
    let sep = seq![' '];
    assert(all.last() == rest.last());
    assert(all.drop_last() =~= seq![w] + rest.drop_last());
    if rest.len() == 1 {
        assert(all.drop_last() =~= seq![w]);
        assert(join(seq![w], sep) == w);
    } else {
        lemma_join_first(w, rest.drop_last());
        assert(join(all, sep) =~= w + sep + join(rest, sep));
    }
}

pub proof fn lemma_cut(t: Seq<char>, i: int)
    requires
        starts_at(t, i),
        tidy(t, 0),
    ensures
        join(cut(t, i), seq![' ']) == t.skip(i),
        cut(t, i).len() > 0,
        forall|j: int| 0 <= j < cut(t, i).len() ==> is_word(#[trigger] cut(t, i)[j]),
        forall|j: int|
            0 <= j < cut(t, i).len() ==> exists|u: int|
                starts_at(t, u) && (#[trigger] cut(t, i)[j]) == t.subrange(
                    u,
                    #[trigger] word_end(t, u),
                ),
    decreases t.len() - i,
{
    lemma_word_end(t, i);
    lemma_tidy(t, 0, i);
    let e = word_end(t, i);
    if t[i] == ' ' {
        assert(t[i - 1] == ' ');
    }
    assert(e > i) by {
        assert(word_end(t, i + 1) >= i + 1) by {
            lemma_word_end(t, i + 1);
        }
    }
    let w = t.subrange(i, e);
    assert forall|k: int| 0 <= k < w.len() implies !is_space(#[trigger] w[k]) by {
        lemma_tidy(t, 0, i + k);
        assert(t[i + k] != ' ');
    }
    assert(is_word(w));
    if e >= t.len() {
        assert(t.skip(i) =~= w);
        assert(cut(t, i) =~= seq![w]);
        assert(cut(t, i)[0] == t.subrange(i, word_end(t, i)));
    } else {
        lemma_tidy(t, 0, e);
        let rest = cut(t, e + 1);
        assert(starts_at(t, e + 1));
        lemma_cut(t, e + 1);
        lemma_join_first(w, rest);
        assert(w + seq![' '] + t.skip(e + 1) =~= t.skip(i));
        assert forall|j: int| 0 <= j < cut(t, i).len() implies is_word(#[trigger] cut(t, i)[j])
            && exists|u: int|
            starts_at(t, u) && cut(t, i)[j] == t.subrange(u, #[trigger] word_end(t, u)) by {
            if j > 0 {
                assert(cut(t, i)[j] == rest[j - 1]);
            } else {
                assert(cut(t, i)[0] == t.subrange(i, word_end(t, i)));
            }
        }
    }
}

pub proof fn lemma_words(t: Seq<char>)
    requires
        t.len() > 0,
        tidy(t, 0),
    ensures
        words(t) == cut(t, 0),
        join(words(t), seq![' ']) == t,
{
    assert(starts_at(t, 0));
    lemma_cut(t, 0);
    law_split_undoes_join(cut(t, 0));
    assert(t.skip(0) =~= t);
}

// ---------------------------------------------------------------------------
// The table, row by row
// ---------------------------------------------------------------------------

proof fn lemma_one(s: Seq<char>, row: int)
    requires
        tidy(s, 0),
        s.len() > 0,
        word_end(s, 0) == s.len(),
        tail_row(0, mark(s, 0)) == row,
    ensures
        ordered(s, row),
{
}

proof fn lemma_two(s: Seq<char>, a: int, row: int)
    requires
        tidy(s, 0),
        0 < a < a + 1 < s.len(),
        word_end(s, 0) == a,
        word_end(s, a + 1) == s.len(),
        tail_row(0, mark(s, 0)) >= row,
        tail_row(0, mark(s, a + 1)) >= row,
        tail_row(mark(s, 0), mark(s, a + 1)) == row,
    ensures
        ordered(s, row),
{
    reveal_with_fuel(clear_from, 2);
    reveal_with_fuel(tail_from, 2);
}

proof fn lemma_three(s: Seq<char>, a: int, b: int, row: int)
    requires
        tidy(s, 0),
        0 < a < a + 1 < b < b + 1 < s.len(),
        word_end(s, 0) == a,
        word_end(s, a + 1) == b,
        word_end(s, b + 1) == s.len(),
        tail_row(0, mark(s, 0)) >= row,
        tail_row(0, mark(s, a + 1)) >= row,
        tail_row(0, mark(s, b + 1)) >= row,
        tail_row(mark(s, 0), mark(s, a + 1)) >= row,
        tail_row(mark(s, a + 1), mark(s, b + 1)) == row,
    ensures
        ordered(s, row),
{
    reveal_with_fuel(clear_from, 3);
    reveal_with_fuel(tail_from, 3);
}

proof fn lemma_four(s: Seq<char>, a: int, b: int, c: int, row: int)
    requires
        tidy(s, 0),
        0 < a < a + 1 < b < b + 1 < c < c + 1 < s.len(),
        word_end(s, 0) == a,
        word_end(s, a + 1) == b,
        word_end(s, b + 1) == c,
        word_end(s, c + 1) == s.len(),
        tail_row(0, mark(s, 0)) >= row,
        tail_row(0, mark(s, a + 1)) >= row,
        tail_row(0, mark(s, b + 1)) >= row,
        tail_row(0, mark(s, c + 1)) >= row,
        tail_row(mark(s, 0), mark(s, a + 1)) >= row,
        tail_row(mark(s, a + 1), mark(s, b + 1)) >= row,
        tail_row(mark(s, b + 1), mark(s, c + 1)) == row,
    ensures
        ordered(s, row),
{
    reveal_with_fuel(clear_from, 4);
    reveal_with_fuel(tail_from, 4);
}

proof fn lemma_row_0()
    ensures
        all_ordered(
            seq![
                "next page"@,
                "page next"@,
                "page down"@,
                "page forward"@,
            ],
            0,
        ),
{
    reveal_with_fuel(word_end, 9);
    assert(ordered("next page"@, 0)) by {
        reveal_strlit("next page");
        assert(tidy("next page"@, 0)) by {
            reveal_with_fuel(tidy, 10);
        }
        lemma_two("next page"@, 4, 0);
    }
    assert(ordered("page next"@, 0)) by {
        reveal_strlit("page next");
        assert(tidy("page next"@, 0)) by {
            reveal_with_fuel(tidy, 10);
        }
        lemma_two("page next"@, 4, 0);
    }
    assert(ordered("page down"@, 0)) by {
        reveal_strlit("page down");
        assert(tidy("page down"@, 0)) by {
            reveal_with_fuel(tidy, 10);
        }
        lemma_two("page down"@, 4, 0);
    }
    assert(ordered("page forward"@, 0)) by {
        reveal_strlit("page forward");
        assert(tidy("page forward"@, 0)) by {
            reveal_with_fuel(tidy, 13);
        }
        lemma_two("page forward"@, 4, 0);
    }
}

proof fn lemma_row_1()
    ensures
        all_ordered(
            seq![
                "previous page"@,
                "prev page"@,
                "page previous"@,
                "page up"@,
                "page back"@,
            ],
            1,
        ),
{
    reveal_with_fuel(word_end, 10);
    assert(ordered("previous page"@, 1)) by {
        reveal_strlit("previous page");
        assert(tidy("previous page"@, 0)) by {
            reveal_with_fuel(tidy, 14);
        }
        lemma_two("previous page"@, 8, 1);
    }
    assert(ordered("prev page"@, 1)) by {
        reveal_strlit("prev page");
        assert(tidy("prev page"@, 0)) by {
            reveal_with_fuel(tidy, 10);
        }
        lemma_two("prev page"@, 4, 1);
    }
    assert(ordered("page previous"@, 1)) by {
        reveal_strlit("page previous");
        assert(tidy("page previous"@, 0)) by {
            reveal_with_fuel(tidy, 14);
        }
        lemma_two("page previous"@, 4, 1);
    }
    assert(ordered("page up"@, 1)) by {
        reveal_strlit("page up");
        assert(tidy("page up"@, 0)) by {
            reveal_with_fuel(tidy, 8);
        }
        lemma_two("page up"@, 4, 1);
    }
    assert(ordered("page back"@, 1)) by {
        reveal_strlit("page back");
        assert(tidy("page back"@, 0)) by {
            reveal_with_fuel(tidy, 10);
        }
        lemma_two("page back"@, 4, 1);
    }
}

proof fn lemma_row_2()
    ensures
        all_ordered(
            seq![
                "next heading"@,
                "next section"@,
                "next group"@,
                "skip section"@,
                "skip heading"@,
            ],
            2,
        ),
{
    reveal_with_fuel(word_end, 9);
    assert(ordered("next heading"@, 2)) by {
        reveal_strlit("next heading");
        assert(tidy("next heading"@, 0)) by {
            reveal_with_fuel(tidy, 13);
        }
        lemma_two("next heading"@, 4, 2);
    }
    assert(ordered("next section"@, 2)) by {
        reveal_strlit("next section");
        assert(tidy("next section"@, 0)) by {
            reveal_with_fuel(tidy, 13);
        }
        lemma_two("next section"@, 4, 2);
    }
    assert(ordered("next group"@, 2)) by {
        reveal_strlit("next group");
        assert(tidy("next group"@, 0)) by {
            reveal_with_fuel(tidy, 11);
        }
        lemma_two("next group"@, 4, 2);
    }
    assert(ordered("skip section"@, 2)) by {
        reveal_strlit("skip section");
        assert(tidy("skip section"@, 0)) by {
            reveal_with_fuel(tidy, 13);
        }
        lemma_two("skip section"@, 4, 2);
    }
    assert(ordered("skip heading"@, 2)) by {
        reveal_strlit("skip heading");
        assert(tidy("skip heading"@, 0)) by {
            reveal_with_fuel(tidy, 13);
        }
        lemma_two("skip heading"@, 4, 2);
    }
}

proof fn lemma_row_3()
    ensures
        all_ordered(
            seq![
                "previous heading"@,
                "previous section"@,
                "prev heading"@,
                "prev section"@,
                "back section"@,
            ],
            3,
        ),
{
    reveal_with_fuel(word_end, 10);
    assert(ordered("previous heading"@, 3)) by {
        reveal_strlit("previous heading");
        assert(tidy("previous heading"@, 0)) by {
            reveal_with_fuel(tidy, 17);
        }
        lemma_two("previous heading"@, 8, 3);
    }
    assert(ordered("previous section"@, 3)) by {
        reveal_strlit("previous section");
        assert(tidy("previous section"@, 0)) by {
            reveal_with_fuel(tidy, 17);
        }
        lemma_two("previous section"@, 8, 3);
    }
    assert(ordered("prev heading"@, 3)) by {
        reveal_strlit("prev heading");
        assert(tidy("prev heading"@, 0)) by {
            reveal_with_fuel(tidy, 13);
        }
        lemma_two("prev heading"@, 4, 3);
    }
    assert(ordered("prev section"@, 3)) by {
        reveal_strlit("prev section");
        assert(tidy("prev section"@, 0)) by {
            reveal_with_fuel(tidy, 13);
        }
        lemma_two("prev section"@, 4, 3);
    }
    assert(ordered("back section"@, 3)) by {
        reveal_strlit("back section");
        assert(tidy("back section"@, 0)) by {
            reveal_with_fuel(tidy, 13);
        }
        lemma_two("back section"@, 4, 3);
    }
}

proof fn lemma_row_4()
    ensures
        all_ordered(
            seq![
                "next tab"@,
                "tab next"@,
                "tab forward"@,
            ],
            4,
        ),
{
    reveal_with_fuel(word_end, 9);
    assert(ordered("next tab"@, 4)) by {
        reveal_strlit("next tab");
        assert(tidy("next tab"@, 0)) by {
            reveal_with_fuel(tidy, 9);
        }
        lemma_two("next tab"@, 4, 4);
    }
    assert(ordered("tab next"@, 4)) by {
        reveal_strlit("tab next");
        assert(tidy("tab next"@, 0)) by {
            reveal_with_fuel(tidy, 9);
        }
        lemma_two("tab next"@, 3, 4);
    }
    assert(ordered("tab forward"@, 4)) by {
        reveal_strlit("tab forward");
        assert(tidy("tab forward"@, 0)) by {
            reveal_with_fuel(tidy, 12);
        }
        lemma_two("tab forward"@, 3, 4);
    }
}

proof fn lemma_row_5()
    ensures
        all_ordered(
            seq![
                "previous tab"@,
                "prev tab"@,
                "tab back"@,
                "tab previous"@,
            ],
            5,
        ),
{
    reveal_with_fuel(word_end, 10);
    assert(ordered("previous tab"@, 5)) by {
        reveal_strlit("previous tab");
        assert(tidy("previous tab"@, 0)) by {
            reveal_with_fuel(tidy, 13);
        }
        lemma_two("previous tab"@, 8, 5);
    }
    assert(ordered("prev tab"@, 5)) by {
        reveal_strlit("prev tab");
        assert(tidy("prev tab"@, 0)) by {
            reveal_with_fuel(tidy, 9);
        }
        lemma_two("prev tab"@, 4, 5);
    }
    assert(ordered("tab back"@, 5)) by {
        reveal_strlit("tab back");
        assert(tidy("tab back"@, 0)) by {
            reveal_with_fuel(tidy, 9);
        }
        lemma_two("tab back"@, 3, 5);
    }
    assert(ordered("tab previous"@, 5)) by {
        reveal_strlit("tab previous");
        assert(tidy("tab previous"@, 0)) by {
            reveal_with_fuel(tidy, 13);
        }
        lemma_two("tab previous"@, 3, 5);
    }
}

proof fn lemma_row_6()
    ensures
        all_ordered(
            seq![
                "back to top"@,
            ],
            6,
        ),
{
    reveal_with_fuel(word_end, 6);
    assert(ordered("back to top"@, 6)) by {
        reveal_strlit("back to top");
        assert(tidy("back to top"@, 0)) by {
            reveal_with_fuel(tidy, 12);
        }
        lemma_three("back to top"@, 4, 7, 6);
    }
}

proof fn lemma_row_7()
    ensures
        all_ordered(
            seq![
                "push back"@,
            ],
            7,
        ),
{
    reveal_with_fuel(word_end, 6);
    assert(ordered("push back"@, 7)) by {
        reveal_strlit("push back");
        assert(tidy("push back"@, 0)) by {
            reveal_with_fuel(tidy, 10);
        }
        lemma_two("push back"@, 4, 7);
    }
}

proof fn lemma_row_8()
    ensures
        all_ordered(
            seq![
                "whats next"@,
            ],
            8,
        ),
{
    reveal_with_fuel(word_end, 7);
    assert(ordered("whats next"@, 8)) by {
        reveal_strlit("whats next");
        assert(tidy("whats next"@, 0)) by {
            reveal_with_fuel(tidy, 11);
        }
        lemma_two("whats next"@, 5, 8);
    }
}

proof fn lemma_row_9()
    ensures
        all_ordered(
            seq![
                "previous item"@,
                "previous step"@,
                "previous line"@,
                "go back"@,
                "previous"@,
                "prev"@,
                "back"@,
                "undo"@,
            ],
            9,
        ),
{
    reveal_with_fuel(word_end, 10);
    assert(ordered("previous item"@, 9)) by {
        reveal_strlit("previous item");
        assert(tidy("previous item"@, 0)) by {
            reveal_with_fuel(tidy, 14);
        }
        lemma_two("previous item"@, 8, 9);
    }
    assert(ordered("previous step"@, 9)) by {
        reveal_strlit("previous step");
        assert(tidy("previous step"@, 0)) by {
            reveal_with_fuel(tidy, 14);
        }
        lemma_two("previous step"@, 8, 9);
    }
    assert(ordered("previous line"@, 9)) by {
        reveal_strlit("previous line");
        assert(tidy("previous line"@, 0)) by {
            reveal_with_fuel(tidy, 14);
        }
        lemma_two("previous line"@, 8, 9);
    }
    assert(ordered("go back"@, 9)) by {
        reveal_strlit("go back");
        assert(tidy("go back"@, 0)) by {
            reveal_with_fuel(tidy, 8);
        }
        lemma_two("go back"@, 2, 9);
    }
    assert(ordered("previous"@, 9)) by {
        reveal_strlit("previous");
        assert(tidy("previous"@, 0)) by {
            reveal_with_fuel(tidy, 9);
        }
        lemma_one("previous"@, 9);
    }
    assert(ordered("prev"@, 9)) by {
        reveal_strlit("prev");
        assert(tidy("prev"@, 0)) by {
            reveal_with_fuel(tidy, 5);
        }
        lemma_one("prev"@, 9);
    }
    assert(ordered("back"@, 9)) by {
        reveal_strlit("back");
        assert(tidy("back"@, 0)) by {
            reveal_with_fuel(tidy, 5);
        }
        lemma_one("back"@, 9);
    }
    assert(ordered("undo"@, 9)) by {
        reveal_strlit("undo");
        assert(tidy("undo"@, 0)) by {
            reveal_with_fuel(tidy, 5);
        }
        lemma_one("undo"@, 9);
    }
}

#[verifier::rlimit(40)]
proof fn lemma_row_10()
    ensures
        all_ordered(
            seq![
                "next item"@,
                "next step"@,
                "next line"@,
                "next"@,
                "advance"@,
                "continue"@,
                "proceed"@,
                "okay"@,
                "ok"@,
                "done"@,
                "got it"@,
                "check"@,
                "yup"@,
                "yep"@,
                "yeah"@,
                "yes"@,
            ],
            10,
        ),
{
    reveal_with_fuel(word_end, 10);
    assert(ordered("next item"@, 10)) by {
        reveal_strlit("next item");
        assert(tidy("next item"@, 0)) by {
            reveal_with_fuel(tidy, 10);
        }
        lemma_two("next item"@, 4, 10);
    }
    assert(ordered("next step"@, 10)) by {
        reveal_strlit("next step");
        assert(tidy("next step"@, 0)) by {
            reveal_with_fuel(tidy, 10);
        }
        lemma_two("next step"@, 4, 10);
    }
    assert(ordered("next line"@, 10)) by {
        reveal_strlit("next line");
        assert(tidy("next line"@, 0)) by {
            reveal_with_fuel(tidy, 10);
        }
        lemma_two("next line"@, 4, 10);
    }
    assert(ordered("next"@, 10)) by {
        reveal_strlit("next");
        assert(tidy("next"@, 0)) by {
            reveal_with_fuel(tidy, 5);
        }
        lemma_one("next"@, 10);
    }
    assert(ordered("advance"@, 10)) by {
        reveal_strlit("advance");
        assert(tidy("advance"@, 0)) by {
            reveal_with_fuel(tidy, 8);
        }
        lemma_one("advance"@, 10);
    }
    assert(ordered("continue"@, 10)) by {
        reveal_strlit("continue");
        assert(tidy("continue"@, 0)) by {
            reveal_with_fuel(tidy, 9);
        }
        lemma_one("continue"@, 10);
    }
    assert(ordered("proceed"@, 10)) by {
        reveal_strlit("proceed");
        assert(tidy("proceed"@, 0)) by {
            reveal_with_fuel(tidy, 8);
        }
        lemma_one("proceed"@, 10);
    }
    assert(ordered("okay"@, 10)) by {
        reveal_strlit("okay");
        assert(tidy("okay"@, 0)) by {
            reveal_with_fuel(tidy, 5);
        }
        lemma_one("okay"@, 10);
    }
    assert(ordered("ok"@, 10)) by {
        reveal_strlit("ok");
        assert(tidy("ok"@, 0)) by {
            reveal_with_fuel(tidy, 3);
        }
        lemma_one("ok"@, 10);
    }
    assert(ordered("done"@, 10)) by {
        reveal_strlit("done");
        assert(tidy("done"@, 0)) by {
            reveal_with_fuel(tidy, 5);
        }
        lemma_one("done"@, 10);
    }
    assert(ordered("got it"@, 10)) by {
        reveal_strlit("got it");
        assert(tidy("got it"@, 0)) by {
            reveal_with_fuel(tidy, 7);
        }
        lemma_two("got it"@, 3, 10);
    }
    assert(ordered("check"@, 10)) by {
        reveal_strlit("check");
        assert(tidy("check"@, 0)) by {
            reveal_with_fuel(tidy, 6);
        }
        lemma_one("check"@, 10);
    }
    assert(ordered("yup"@, 10)) by {
        reveal_strlit("yup");
        assert(tidy("yup"@, 0)) by {
            reveal_with_fuel(tidy, 4);
        }
        lemma_one("yup"@, 10);
    }
    assert(ordered("yep"@, 10)) by {
        reveal_strlit("yep");
        assert(tidy("yep"@, 0)) by {
            reveal_with_fuel(tidy, 4);
        }
        lemma_one("yep"@, 10);
    }
    assert(ordered("yeah"@, 10)) by {
        reveal_strlit("yeah");
        assert(tidy("yeah"@, 0)) by {
            reveal_with_fuel(tidy, 5);
        }
        lemma_one("yeah"@, 10);
    }
    assert(ordered("yes"@, 10)) by {
        reveal_strlit("yes");
        assert(tidy("yes"@, 0)) by {
            reveal_with_fuel(tidy, 4);
        }
        lemma_one("yes"@, 10);
    }
}

proof fn lemma_row_11()
    ensures
        all_ordered(
            seq![
                "restart section"@,
                "restart this section"@,
                "start section over"@,
                "restart heading"@,
                "from the top"@,
                "start over"@,
                "again from start"@,
            ],
            11,
        ),
{
    reveal_with_fuel(word_end, 9);
    assert(ordered("restart section"@, 11)) by {
        reveal_strlit("restart section");
        assert(tidy("restart section"@, 0)) by {
            reveal_with_fuel(tidy, 16);
        }
        lemma_two("restart section"@, 7, 11);
    }
    assert(ordered("restart this section"@, 11)) by {
        reveal_strlit("restart this section");
        assert(tidy("restart this section"@, 0)) by {
            reveal_with_fuel(tidy, 21);
        }
        lemma_three("restart this section"@, 7, 12, 11);
    }
    assert(ordered("start section over"@, 11)) by {
        reveal_strlit("start section over");
        assert(tidy("start section over"@, 0)) by {
            reveal_with_fuel(tidy, 19);
        }
        lemma_three("start section over"@, 5, 13, 11);
    }
    assert(ordered("restart heading"@, 11)) by {
        reveal_strlit("restart heading");
        assert(tidy("restart heading"@, 0)) by {
            reveal_with_fuel(tidy, 16);
        }
        lemma_two("restart heading"@, 7, 11);
    }
    assert(ordered("from the top"@, 11)) by {
        reveal_strlit("from the top");
        assert(tidy("from the top"@, 0)) by {
            reveal_with_fuel(tidy, 13);
        }
        lemma_three("from the top"@, 4, 8, 11);
    }
    assert(ordered("start over"@, 11)) by {
        reveal_strlit("start over");
        assert(tidy("start over"@, 0)) by {
            reveal_with_fuel(tidy, 11);
        }
        lemma_two("start over"@, 5, 11);
    }
    assert(ordered("again from start"@, 11)) by {
        reveal_strlit("again from start");
        assert(tidy("again from start"@, 0)) by {
            reveal_with_fuel(tidy, 17);
        }
        lemma_three("again from start"@, 5, 10, 11);
    }
}

proof fn lemma_row_12()
    ensures
        all_ordered(
            seq![
                "what section"@,
                "which section"@,
                "current section"@,
                "what heading"@,
                "which heading"@,
                "where am i"@,
            ],
            12,
        ),
{
    reveal_with_fuel(word_end, 9);
    assert(ordered("what section"@, 12)) by {
        reveal_strlit("what section");
        assert(tidy("what section"@, 0)) by {
            reveal_with_fuel(tidy, 13);
        }
        lemma_two("what section"@, 4, 12);
    }
    assert(ordered("which section"@, 12)) by {
        reveal_strlit("which section");
        assert(tidy("which section"@, 0)) by {
            reveal_with_fuel(tidy, 14);
        }
        lemma_two("which section"@, 5, 12);
    }
    assert(ordered("current section"@, 12)) by {
        reveal_strlit("current section");
        assert(tidy("current section"@, 0)) by {
            reveal_with_fuel(tidy, 16);
        }
        lemma_two("current section"@, 7, 12);
    }
    assert(ordered("what heading"@, 12)) by {
        reveal_strlit("what heading");
        assert(tidy("what heading"@, 0)) by {
            reveal_with_fuel(tidy, 13);
        }
        lemma_two("what heading"@, 4, 12);
    }
    assert(ordered("which heading"@, 12)) by {
        reveal_strlit("which heading");
        assert(tidy("which heading"@, 0)) by {
            reveal_with_fuel(tidy, 14);
        }
        lemma_two("which heading"@, 5, 12);
    }
    assert(ordered("where am i"@, 12)) by {
        reveal_strlit("where am i");
        assert(tidy("where am i"@, 0)) by {
            reveal_with_fuel(tidy, 11);
        }
        lemma_three("where am i"@, 5, 8, 12);
    }
}

proof fn lemma_row_13()
    ensures
        all_ordered(
            seq![
                "read it again"@,
                "read again"@,
                "say again"@,
                "repeat"@,
                "again"@,
                "what was that"@,
                "read it"@,
                "read"@,
            ],
            13,
        ),
{
    reveal_with_fuel(word_end, 8);
    assert(ordered("read it again"@, 13)) by {
        reveal_strlit("read it again");
        assert(tidy("read it again"@, 0)) by {
            reveal_with_fuel(tidy, 14);
        }
        lemma_three("read it again"@, 4, 7, 13);
    }
    assert(ordered("read again"@, 13)) by {
        reveal_strlit("read again");
        assert(tidy("read again"@, 0)) by {
            reveal_with_fuel(tidy, 11);
        }
        lemma_two("read again"@, 4, 13);
    }
    assert(ordered("say again"@, 13)) by {
        reveal_strlit("say again");
        assert(tidy("say again"@, 0)) by {
            reveal_with_fuel(tidy, 10);
        }
        lemma_two("say again"@, 3, 13);
    }
    assert(ordered("repeat"@, 13)) by {
        reveal_strlit("repeat");
        assert(tidy("repeat"@, 0)) by {
            reveal_with_fuel(tidy, 7);
        }
        lemma_one("repeat"@, 13);
    }
    assert(ordered("again"@, 13)) by {
        reveal_strlit("again");
        assert(tidy("again"@, 0)) by {
            reveal_with_fuel(tidy, 6);
        }
        lemma_one("again"@, 13);
    }
    assert(ordered("what was that"@, 13)) by {
        reveal_strlit("what was that");
        assert(tidy("what was that"@, 0)) by {
            reveal_with_fuel(tidy, 14);
        }
        lemma_three("what was that"@, 4, 8, 13);
    }
    assert(ordered("read it"@, 13)) by {
        reveal_strlit("read it");
        assert(tidy("read it"@, 0)) by {
            reveal_with_fuel(tidy, 8);
        }
        lemma_two("read it"@, 4, 13);
    }
    assert(ordered("read"@, 13)) by {
        reveal_strlit("read");
        assert(tidy("read"@, 0)) by {
            reveal_with_fuel(tidy, 5);
        }
        lemma_one("read"@, 13);
    }
}

proof fn lemma_row_14()
    ensures
        all_ordered(
            seq![
                "play"@,
                "start reading"@,
                "speak"@,
                "go on"@,
                "pause"@,
                "stop reading"@,
            ],
            14,
        ),
{
    reveal_with_fuel(word_end, 9);
    assert(ordered("play"@, 14)) by {
        reveal_strlit("play");
        assert(tidy("play"@, 0)) by {
            reveal_with_fuel(tidy, 5);
        }
        lemma_one("play"@, 14);
    }
    assert(ordered("start reading"@, 14)) by {
        reveal_strlit("start reading");
        assert(tidy("start reading"@, 0)) by {
            reveal_with_fuel(tidy, 14);
        }
        lemma_two("start reading"@, 5, 14);
    }
    assert(ordered("speak"@, 14)) by {
        reveal_strlit("speak");
        assert(tidy("speak"@, 0)) by {
            reveal_with_fuel(tidy, 6);
        }
        lemma_one("speak"@, 14);
    }
    assert(ordered("go on"@, 14)) by {
        reveal_strlit("go on");
        assert(tidy("go on"@, 0)) by {
            reveal_with_fuel(tidy, 6);
        }
        lemma_two("go on"@, 2, 14);
    }
    assert(ordered("pause"@, 14)) by {
        reveal_strlit("pause");
        assert(tidy("pause"@, 0)) by {
            reveal_with_fuel(tidy, 6);
        }
        lemma_one("pause"@, 14);
    }
    assert(ordered("stop reading"@, 14)) by {
        reveal_strlit("stop reading");
        assert(tidy("stop reading"@, 0)) by {
            reveal_with_fuel(tidy, 13);
        }
        lemma_two("stop reading"@, 4, 14);
    }
}

proof fn lemma_row_15()
    ensures
        all_ordered(
            seq![
                "more info on"@,
                "more info off"@,
                "more info"@,
                "toggle notes"@,
                "toggle info"@,
                "extra info"@,
                "extra detail"@,
                "details on"@,
                "details off"@,
            ],
            15,
        ),
{
    reveal_with_fuel(word_end, 9);
    assert(ordered("more info on"@, 15)) by {
        reveal_strlit("more info on");
        assert(tidy("more info on"@, 0)) by {
            reveal_with_fuel(tidy, 13);
        }
        lemma_three("more info on"@, 4, 9, 15);
    }
    assert(ordered("more info off"@, 15)) by {
        reveal_strlit("more info off");
        assert(tidy("more info off"@, 0)) by {
            reveal_with_fuel(tidy, 14);
        }
        lemma_three("more info off"@, 4, 9, 15);
    }
    assert(ordered("more info"@, 15)) by {
        reveal_strlit("more info");
        assert(tidy("more info"@, 0)) by {
            reveal_with_fuel(tidy, 10);
        }
        lemma_two("more info"@, 4, 15);
    }
    assert(ordered("toggle notes"@, 15)) by {
        reveal_strlit("toggle notes");
        assert(tidy("toggle notes"@, 0)) by {
            reveal_with_fuel(tidy, 13);
        }
        lemma_two("toggle notes"@, 6, 15);
    }
    assert(ordered("toggle info"@, 15)) by {
        reveal_strlit("toggle info");
        assert(tidy("toggle info"@, 0)) by {
            reveal_with_fuel(tidy, 12);
        }
        lemma_two("toggle info"@, 6, 15);
    }
    assert(ordered("extra info"@, 15)) by {
        reveal_strlit("extra info");
        assert(tidy("extra info"@, 0)) by {
            reveal_with_fuel(tidy, 11);
        }
        lemma_two("extra info"@, 5, 15);
    }
    assert(ordered("extra detail"@, 15)) by {
        reveal_strlit("extra detail");
        assert(tidy("extra detail"@, 0)) by {
            reveal_with_fuel(tidy, 13);
        }
        lemma_two("extra detail"@, 5, 15);
    }
    assert(ordered("details on"@, 15)) by {
        reveal_strlit("details on");
        assert(tidy("details on"@, 0)) by {
            reveal_with_fuel(tidy, 11);
        }
        lemma_two("details on"@, 7, 15);
    }
    assert(ordered("details off"@, 15)) by {
        reveal_strlit("details off");
        assert(tidy("details off"@, 0)) by {
            reveal_with_fuel(tidy, 12);
        }
        lemma_two("details off"@, 7, 15);
    }
}

proof fn lemma_row_16()
    ensures
        all_ordered(
            seq![
                "click through"@,
                "toggle click through"@,
                "pass through"@,
                "ghost mode"@,
            ],
            16,
        ),
{
    reveal_with_fuel(word_end, 9);
    assert(ordered("click through"@, 16)) by {
        reveal_strlit("click through");
        assert(tidy("click through"@, 0)) by {
            reveal_with_fuel(tidy, 14);
        }
        lemma_two("click through"@, 5, 16);
    }
    assert(ordered("toggle click through"@, 16)) by {
        reveal_strlit("toggle click through");
        assert(tidy("toggle click through"@, 0)) by {
            reveal_with_fuel(tidy, 21);
        }
        lemma_three("toggle click through"@, 6, 12, 16);
    }
    assert(ordered("pass through"@, 16)) by {
        reveal_strlit("pass through");
        assert(tidy("pass through"@, 0)) by {
            reveal_with_fuel(tidy, 13);
        }
        lemma_two("pass through"@, 4, 16);
    }
    assert(ordered("ghost mode"@, 16)) by {
        reveal_strlit("ghost mode");
        assert(tidy("ghost mode"@, 0)) by {
            reveal_with_fuel(tidy, 11);
        }
        lemma_two("ghost mode"@, 5, 16);
    }
}

proof fn lemma_row_17()
    ensures
        all_ordered(
            seq![
                "hot mic"@,
                "open mic"@,
                "mic on"@,
                "mic off"@,
                "toggle mic"@,
                "listen mode"@,
            ],
            17,
        ),
{
    reveal_with_fuel(word_end, 8);
    assert(ordered("hot mic"@, 17)) by {
        reveal_strlit("hot mic");
        assert(tidy("hot mic"@, 0)) by {
            reveal_with_fuel(tidy, 8);
        }
        lemma_two("hot mic"@, 3, 17);
    }
    assert(ordered("open mic"@, 17)) by {
        reveal_strlit("open mic");
        assert(tidy("open mic"@, 0)) by {
            reveal_with_fuel(tidy, 9);
        }
        lemma_two("open mic"@, 4, 17);
    }
    assert(ordered("mic on"@, 17)) by {
        reveal_strlit("mic on");
        assert(tidy("mic on"@, 0)) by {
            reveal_with_fuel(tidy, 7);
        }
        lemma_two("mic on"@, 3, 17);
    }
    assert(ordered("mic off"@, 17)) by {
        reveal_strlit("mic off");
        assert(tidy("mic off"@, 0)) by {
            reveal_with_fuel(tidy, 8);
        }
        lemma_two("mic off"@, 3, 17);
    }
    assert(ordered("toggle mic"@, 17)) by {
        reveal_strlit("toggle mic");
        assert(tidy("toggle mic"@, 0)) by {
            reveal_with_fuel(tidy, 11);
        }
        lemma_two("toggle mic"@, 6, 17);
    }
    assert(ordered("listen mode"@, 17)) by {
        reveal_strlit("listen mode");
        assert(tidy("listen mode"@, 0)) by {
            reveal_with_fuel(tidy, 12);
        }
        lemma_two("listen mode"@, 6, 17);
    }
}

proof fn lemma_row_18()
    ensures
        all_ordered(
            seq![
                "voice commands"@,
                "list commands"@,
                "help commands"@,
                "what can i say"@,
                "show commands"@,
                "command help"@,
            ],
            18,
        ),
{
    reveal_with_fuel(word_end, 10);
    assert(ordered("voice commands"@, 18)) by {
        reveal_strlit("voice commands");
        assert(tidy("voice commands"@, 0)) by {
            reveal_with_fuel(tidy, 15);
        }
        lemma_two("voice commands"@, 5, 18);
    }
    assert(ordered("list commands"@, 18)) by {
        reveal_strlit("list commands");
        assert(tidy("list commands"@, 0)) by {
            reveal_with_fuel(tidy, 14);
        }
        lemma_two("list commands"@, 4, 18);
    }
    assert(ordered("help commands"@, 18)) by {
        reveal_strlit("help commands");
        assert(tidy("help commands"@, 0)) by {
            reveal_with_fuel(tidy, 14);
        }
        lemma_two("help commands"@, 4, 18);
    }
    assert(ordered("what can i say"@, 18)) by {
        reveal_strlit("what can i say");
        assert(tidy("what can i say"@, 0)) by {
            reveal_with_fuel(tidy, 15);
        }
        lemma_four("what can i say"@, 4, 8, 10, 18);
    }
    assert(ordered("show commands"@, 18)) by {
        reveal_strlit("show commands");
        assert(tidy("show commands"@, 0)) by {
            reveal_with_fuel(tidy, 14);
        }
        lemma_two("show commands"@, 4, 18);
    }
    assert(ordered("command help"@, 18)) by {
        reveal_strlit("command help");
        assert(tidy("command help"@, 0)) by {
            reveal_with_fuel(tidy, 13);
        }
        lemma_two("command help"@, 7, 18);
    }
}

proof fn lemma_row_19()
    ensures
        all_ordered(
            seq![
                "settings"@,
                "open settings"@,
                "preferences"@,
            ],
            19,
        ),
{
    reveal_with_fuel(word_end, 13);
    assert(ordered("settings"@, 19)) by {
        reveal_strlit("settings");
        assert(tidy("settings"@, 0)) by {
            reveal_with_fuel(tidy, 9);
        }
        lemma_one("settings"@, 19);
    }
    assert(ordered("open settings"@, 19)) by {
        reveal_strlit("open settings");
        assert(tidy("open settings"@, 0)) by {
            reveal_with_fuel(tidy, 14);
        }
        lemma_two("open settings"@, 4, 19);
    }
    assert(ordered("preferences"@, 19)) by {
        reveal_strlit("preferences");
        assert(tidy("preferences"@, 0)) by {
            reveal_with_fuel(tidy, 12);
        }
        lemma_one("preferences"@, 19);
    }
}

proof fn lemma_row_20()
    ensures
        all_ordered(
            seq![
                "cancel"@,
                "stop"@,
                "never mind"@,
                "nevermind"@,
                "shut up"@,
                "quiet"@,
            ],
            20,
        ),
{
    reveal_with_fuel(word_end, 11);
    assert(ordered("cancel"@, 20)) by {
        reveal_strlit("cancel");
        assert(tidy("cancel"@, 0)) by {
            reveal_with_fuel(tidy, 7);
        }
        lemma_one("cancel"@, 20);
    }
    assert(ordered("stop"@, 20)) by {
        reveal_strlit("stop");
        assert(tidy("stop"@, 0)) by {
            reveal_with_fuel(tidy, 5);
        }
        lemma_one("stop"@, 20);
    }
    assert(ordered("never mind"@, 20)) by {
        reveal_strlit("never mind");
        assert(tidy("never mind"@, 0)) by {
            reveal_with_fuel(tidy, 11);
        }
        lemma_two("never mind"@, 5, 20);
    }
    assert(ordered("nevermind"@, 20)) by {
        reveal_strlit("nevermind");
        assert(tidy("nevermind"@, 0)) by {
            reveal_with_fuel(tidy, 10);
        }
        lemma_one("nevermind"@, 20);
    }
    assert(ordered("shut up"@, 20)) by {
        reveal_strlit("shut up");
        assert(tidy("shut up"@, 0)) by {
            reveal_with_fuel(tidy, 8);
        }
        lemma_two("shut up"@, 4, 20);
    }
    assert(ordered("quiet"@, 20)) by {
        reveal_strlit("quiet");
        assert(tidy("quiet"@, 0)) by {
            reveal_with_fuel(tidy, 6);
        }
        lemma_one("quiet"@, 20);
    }
}

proof fn lemma_row_21()
    ensures
        all_ordered(
            seq![
                "place kneeboard here"@,
                "place board here"@,
                "kneeboard here"@,
                "place here"@,
                "snap here"@,
                "reposition here"@,
            ],
            21,
        ),
{
    reveal_with_fuel(word_end, 12);
    assert(ordered("place kneeboard here"@, 21)) by {
        reveal_strlit("place kneeboard here");
        assert(tidy("place kneeboard here"@, 0)) by {
            reveal_with_fuel(tidy, 21);
        }
        lemma_three("place kneeboard here"@, 5, 15, 21);
    }
    assert(ordered("place board here"@, 21)) by {
        reveal_strlit("place board here");
        assert(tidy("place board here"@, 0)) by {
            reveal_with_fuel(tidy, 17);
        }
        lemma_three("place board here"@, 5, 11, 21);
    }
    assert(ordered("kneeboard here"@, 21)) by {
        reveal_strlit("kneeboard here");
        assert(tidy("kneeboard here"@, 0)) by {
            reveal_with_fuel(tidy, 15);
        }
        lemma_two("kneeboard here"@, 9, 21);
    }
    assert(ordered("place here"@, 21)) by {
        reveal_strlit("place here");
        assert(tidy("place here"@, 0)) by {
            reveal_with_fuel(tidy, 11);
        }
        lemma_two("place here"@, 5, 21);
    }
    assert(ordered("snap here"@, 21)) by {
        reveal_strlit("snap here");
        assert(tidy("snap here"@, 0)) by {
            reveal_with_fuel(tidy, 10);
        }
        lemma_two("snap here"@, 4, 21);
    }
    assert(ordered("reposition here"@, 21)) by {
        reveal_strlit("reposition here");
        assert(tidy("reposition here"@, 0)) by {
            reveal_with_fuel(tidy, 16);
        }
        lemma_two("reposition here"@, 10, 21);
    }
}

proof fn lemma_row_22()
    ensures
        all_ordered(
            seq![
                "move kneeboard closer"@,
                "move board closer"@,
                "kneeboard closer"@,
                "move closer"@,
                "bring closer"@,
                "closer to me"@,
            ],
            22,
        ),
{
    reveal_with_fuel(word_end, 11);
    assert(ordered("move kneeboard closer"@, 22)) by {
        reveal_strlit("move kneeboard closer");
        assert(tidy("move kneeboard closer"@, 0)) by {
            reveal_with_fuel(tidy, 22);
        }
        lemma_three("move kneeboard closer"@, 4, 14, 22);
    }
    assert(ordered("move board closer"@, 22)) by {
        reveal_strlit("move board closer");
        assert(tidy("move board closer"@, 0)) by {
            reveal_with_fuel(tidy, 18);
        }
        lemma_three("move board closer"@, 4, 10, 22);
    }
    assert(ordered("kneeboard closer"@, 22)) by {
        reveal_strlit("kneeboard closer");
        assert(tidy("kneeboard closer"@, 0)) by {
            reveal_with_fuel(tidy, 17);
        }
        lemma_two("kneeboard closer"@, 9, 22);
    }
    assert(ordered("move closer"@, 22)) by {
        reveal_strlit("move closer");
        assert(tidy("move closer"@, 0)) by {
            reveal_with_fuel(tidy, 12);
        }
        lemma_two("move closer"@, 4, 22);
    }
    assert(ordered("bring closer"@, 22)) by {
        reveal_strlit("bring closer");
        assert(tidy("bring closer"@, 0)) by {
            reveal_with_fuel(tidy, 13);
        }
        lemma_two("bring closer"@, 5, 22);
    }
    assert(ordered("closer to me"@, 22)) by {
        reveal_strlit("closer to me");
        assert(tidy("closer to me"@, 0)) by {
            reveal_with_fuel(tidy, 13);
        }
        lemma_three("closer to me"@, 6, 9, 22);
    }
}

proof fn lemma_row_23()
    ensures
        all_ordered(
            seq![
                "move kneeboard further"@,
                "move kneeboard farther"@,
                "kneeboard further"@,
                "move further"@,
                "move farther"@,
                "further away"@,
            ],
            23,
        ),
{
    reveal_with_fuel(word_end, 11);
    assert(ordered("move kneeboard further"@, 23)) by {
        reveal_strlit("move kneeboard further");
        assert(tidy("move kneeboard further"@, 0)) by {
            reveal_with_fuel(tidy, 23);
        }
        lemma_three("move kneeboard further"@, 4, 14, 23);
    }
    assert(ordered("move kneeboard farther"@, 23)) by {
        reveal_strlit("move kneeboard farther");
        assert(tidy("move kneeboard farther"@, 0)) by {
            reveal_with_fuel(tidy, 23);
        }
        lemma_three("move kneeboard farther"@, 4, 14, 23);
    }
    assert(ordered("kneeboard further"@, 23)) by {
        reveal_strlit("kneeboard further");
        assert(tidy("kneeboard further"@, 0)) by {
            reveal_with_fuel(tidy, 18);
        }
        lemma_two("kneeboard further"@, 9, 23);
    }
    assert(ordered("move further"@, 23)) by {
        reveal_strlit("move further");
        assert(tidy("move further"@, 0)) by {
            reveal_with_fuel(tidy, 13);
        }
        lemma_two("move further"@, 4, 23);
    }
    assert(ordered("move farther"@, 23)) by {
        reveal_strlit("move farther");
        assert(tidy("move farther"@, 0)) by {
            reveal_with_fuel(tidy, 13);
        }
        lemma_two("move farther"@, 4, 23);
    }
    assert(ordered("further away"@, 23)) by {
        reveal_strlit("further away");
        assert(tidy("further away"@, 0)) by {
            reveal_with_fuel(tidy, 13);
        }
        lemma_two("further away"@, 7, 23);
    }
}

proof fn lemma_row_24()
    ensures
        all_ordered(
            seq![
                "move kneeboard left"@,
                "kneeboard left"@,
                "move left"@,
                "shift left"@,
            ],
            24,
        ),
{
    reveal_with_fuel(word_end, 11);
    assert(ordered("move kneeboard left"@, 24)) by {
        reveal_strlit("move kneeboard left");
        assert(tidy("move kneeboard left"@, 0)) by {
            reveal_with_fuel(tidy, 20);
        }
        lemma_three("move kneeboard left"@, 4, 14, 24);
    }
    assert(ordered("kneeboard left"@, 24)) by {
        reveal_strlit("kneeboard left");
        assert(tidy("kneeboard left"@, 0)) by {
            reveal_with_fuel(tidy, 15);
        }
        lemma_two("kneeboard left"@, 9, 24);
    }
    assert(ordered("move left"@, 24)) by {
        reveal_strlit("move left");
        assert(tidy("move left"@, 0)) by {
            reveal_with_fuel(tidy, 10);
        }
        lemma_two("move left"@, 4, 24);
    }
    assert(ordered("shift left"@, 24)) by {
        reveal_strlit("shift left");
        assert(tidy("shift left"@, 0)) by {
            reveal_with_fuel(tidy, 11);
        }
        lemma_two("shift left"@, 5, 24);
    }
}

proof fn lemma_row_25()
    ensures
        all_ordered(
            seq![
                "move kneeboard right"@,
                "kneeboard right"@,
                "move right"@,
                "shift right"@,
            ],
            25,
        ),
{
    reveal_with_fuel(word_end, 11);
    assert(ordered("move kneeboard right"@, 25)) by {
        reveal_strlit("move kneeboard right");
        assert(tidy("move kneeboard right"@, 0)) by {
            reveal_with_fuel(tidy, 21);
        }
        lemma_three("move kneeboard right"@, 4, 14, 25);
    }
    assert(ordered("kneeboard right"@, 25)) by {
        reveal_strlit("kneeboard right");
        assert(tidy("kneeboard right"@, 0)) by {
            reveal_with_fuel(tidy, 16);
        }
        lemma_two("kneeboard right"@, 9, 25);
    }
    assert(ordered("move right"@, 25)) by {
        reveal_strlit("move right");
        assert(tidy("move right"@, 0)) by {
            reveal_with_fuel(tidy, 11);
        }
        lemma_two("move right"@, 4, 25);
    }
    assert(ordered("shift right"@, 25)) by {
        reveal_strlit("shift right");
        assert(tidy("shift right"@, 0)) by {
            reveal_with_fuel(tidy, 12);
        }
        lemma_two("shift right"@, 5, 25);
    }
}

proof fn lemma_row_26()
    ensures
        all_ordered(
            seq![
                "move kneeboard up"@,
                "kneeboard up"@,
                "move up"@,
                "raise kneeboard"@,
            ],
            26,
        ),
{
    reveal_with_fuel(word_end, 11);
    assert(ordered("move kneeboard up"@, 26)) by {
        reveal_strlit("move kneeboard up");
        assert(tidy("move kneeboard up"@, 0)) by {
            reveal_with_fuel(tidy, 18);
        }
        lemma_three("move kneeboard up"@, 4, 14, 26);
    }
    assert(ordered("kneeboard up"@, 26)) by {
        reveal_strlit("kneeboard up");
        assert(tidy("kneeboard up"@, 0)) by {
            reveal_with_fuel(tidy, 13);
        }
        lemma_two("kneeboard up"@, 9, 26);
    }
    assert(ordered("move up"@, 26)) by {
        reveal_strlit("move up");
        assert(tidy("move up"@, 0)) by {
            reveal_with_fuel(tidy, 8);
        }
        lemma_two("move up"@, 4, 26);
    }
    assert(ordered("raise kneeboard"@, 26)) by {
        reveal_strlit("raise kneeboard");
        assert(tidy("raise kneeboard"@, 0)) by {
            reveal_with_fuel(tidy, 16);
        }
        lemma_two("raise kneeboard"@, 5, 26);
    }
}

proof fn lemma_row_27()
    ensures
        all_ordered(
            seq![
                "move kneeboard down"@,
                "kneeboard down"@,
                "move down"@,
                "lower kneeboard"@,
            ],
            27,
        ),
{
    reveal_with_fuel(word_end, 11);
    assert(ordered("move kneeboard down"@, 27)) by {
        reveal_strlit("move kneeboard down");
        assert(tidy("move kneeboard down"@, 0)) by {
            reveal_with_fuel(tidy, 20);
        }
        lemma_three("move kneeboard down"@, 4, 14, 27);
    }
    assert(ordered("kneeboard down"@, 27)) by {
        reveal_strlit("kneeboard down");
        assert(tidy("kneeboard down"@, 0)) by {
            reveal_with_fuel(tidy, 15);
        }
        lemma_two("kneeboard down"@, 9, 27);
    }
    assert(ordered("move down"@, 27)) by {
        reveal_strlit("move down");
        assert(tidy("move down"@, 0)) by {
            reveal_with_fuel(tidy, 10);
        }
        lemma_two("move down"@, 4, 27);
    }
    assert(ordered("lower kneeboard"@, 27)) by {
        reveal_strlit("lower kneeboard");
        assert(tidy("lower kneeboard"@, 0)) by {
            reveal_with_fuel(tidy, 16);
        }
        lemma_two("lower kneeboard"@, 5, 27);
    }
}

proof fn lemma_row_28()
    ensures
        all_ordered(
            seq![
                "kneeboard bigger"@,
                "make bigger"@,
                "make it bigger"@,
                "make larger"@,
                "bigger kneeboard"@,
                "scale up"@,
            ],
            28,
        ),
{
    reveal_with_fuel(word_end, 11);
    assert(ordered("kneeboard bigger"@, 28)) by {
        reveal_strlit("kneeboard bigger");
        assert(tidy("kneeboard bigger"@, 0)) by {
            reveal_with_fuel(tidy, 17);
        }
        lemma_two("kneeboard bigger"@, 9, 28);
    }
    assert(ordered("make bigger"@, 28)) by {
        reveal_strlit("make bigger");
        assert(tidy("make bigger"@, 0)) by {
            reveal_with_fuel(tidy, 12);
        }
        lemma_two("make bigger"@, 4, 28);
    }
    assert(ordered("make it bigger"@, 28)) by {
        reveal_strlit("make it bigger");
        assert(tidy("make it bigger"@, 0)) by {
            reveal_with_fuel(tidy, 15);
        }
        lemma_three("make it bigger"@, 4, 7, 28);
    }
    assert(ordered("make larger"@, 28)) by {
        reveal_strlit("make larger");
        assert(tidy("make larger"@, 0)) by {
            reveal_with_fuel(tidy, 12);
        }
        lemma_two("make larger"@, 4, 28);
    }
    assert(ordered("bigger kneeboard"@, 28)) by {
        reveal_strlit("bigger kneeboard");
        assert(tidy("bigger kneeboard"@, 0)) by {
            reveal_with_fuel(tidy, 17);
        }
        lemma_two("bigger kneeboard"@, 6, 28);
    }
    assert(ordered("scale up"@, 28)) by {
        reveal_strlit("scale up");
        assert(tidy("scale up"@, 0)) by {
            reveal_with_fuel(tidy, 9);
        }
        lemma_two("scale up"@, 5, 28);
    }
}

proof fn lemma_row_29()
    ensures
        all_ordered(
            seq![
                "kneeboard smaller"@,
                "make smaller"@,
                "make it smaller"@,
                "smaller kneeboard"@,
                "scale down"@,
            ],
            29,
        ),
{
    reveal_with_fuel(word_end, 11);
    assert(ordered("kneeboard smaller"@, 29)) by {
        reveal_strlit("kneeboard smaller");
        assert(tidy("kneeboard smaller"@, 0)) by {
            reveal_with_fuel(tidy, 18);
        }
        lemma_two("kneeboard smaller"@, 9, 29);
    }
    assert(ordered("make smaller"@, 29)) by {
        reveal_strlit("make smaller");
        assert(tidy("make smaller"@, 0)) by {
            reveal_with_fuel(tidy, 13);
        }
        lemma_two("make smaller"@, 4, 29);
    }
    assert(ordered("make it smaller"@, 29)) by {
        reveal_strlit("make it smaller");
        assert(tidy("make it smaller"@, 0)) by {
            reveal_with_fuel(tidy, 16);
        }
        lemma_three("make it smaller"@, 4, 7, 29);
    }
    assert(ordered("smaller kneeboard"@, 29)) by {
        reveal_strlit("smaller kneeboard");
        assert(tidy("smaller kneeboard"@, 0)) by {
            reveal_with_fuel(tidy, 18);
        }
        lemma_two("smaller kneeboard"@, 7, 29);
    }
    assert(ordered("scale down"@, 29)) by {
        reveal_strlit("scale down");
        assert(tidy("scale down"@, 0)) by {
            reveal_with_fuel(tidy, 11);
        }
        lemma_two("scale down"@, 5, 29);
    }
}

proof fn lemma_row_30()
    ensures
        all_ordered(
            seq![
                "reset kneeboard"@,
                "reset position"@,
                "default position"@,
                "kneeboard default"@,
            ],
            30,
        ),
{
    reveal_with_fuel(word_end, 11);
    assert(ordered("reset kneeboard"@, 30)) by {
        reveal_strlit("reset kneeboard");
        assert(tidy("reset kneeboard"@, 0)) by {
            reveal_with_fuel(tidy, 16);
        }
        lemma_two("reset kneeboard"@, 5, 30);
    }
    assert(ordered("reset position"@, 30)) by {
        reveal_strlit("reset position");
        assert(tidy("reset position"@, 0)) by {
            reveal_with_fuel(tidy, 15);
        }
        lemma_two("reset position"@, 5, 30);
    }
    assert(ordered("default position"@, 30)) by {
        reveal_strlit("default position");
        assert(tidy("default position"@, 0)) by {
            reveal_with_fuel(tidy, 17);
        }
        lemma_two("default position"@, 7, 30);
    }
    assert(ordered("kneeboard default"@, 30)) by {
        reveal_strlit("kneeboard default");
        assert(tidy("kneeboard default"@, 0)) by {
            reveal_with_fuel(tidy, 18);
        }
        lemma_two("kneeboard default"@, 9, 30);
    }
}

proof fn lemma_all_rows(row: int)
    requires
        0 <= row < rules().len(),
    ensures
        all_ordered(rules()[row].0, row),
        row < tail_row(0, 0),
{
    if row == 0 {
        lemma_row_0();
    } else if row == 1 {
        lemma_row_1();
    } else if row == 2 {
        lemma_row_2();
    } else if row == 3 {
        lemma_row_3();
    } else if row == 4 {
        lemma_row_4();
    } else if row == 5 {
        lemma_row_5();
    } else if row == 6 {
        lemma_row_6();
    } else if row == 7 {
        lemma_row_7();
    } else if row == 8 {
        lemma_row_8();
    } else if row == 9 {
        lemma_row_9();
    } else if row == 10 {
        lemma_row_10();
    } else if row == 11 {
        lemma_row_11();
    } else if row == 12 {
        lemma_row_12();
    } else if row == 13 {
        lemma_row_13();
    } else if row == 14 {
        lemma_row_14();
    } else if row == 15 {
        lemma_row_15();
    } else if row == 16 {
        lemma_row_16();
    } else if row == 17 {
        lemma_row_17();
    } else if row == 18 {
        lemma_row_18();
    } else if row == 19 {
        lemma_row_19();
    } else if row == 20 {
        lemma_row_20();
    } else if row == 21 {
        lemma_row_21();
    } else if row == 22 {
        lemma_row_22();
    } else if row == 23 {
        lemma_row_23();
    } else if row == 24 {
        lemma_row_24();
    } else if row == 25 {
        lemma_row_25();
    } else if row == 26 {
        lemma_row_26();
    } else if row == 27 {
        lemma_row_27();
    } else if row == 28 {
        lemma_row_28();
    } else if row == 29 {
        lemma_row_29();
    } else if row == 30 {
        lemma_row_30();
    }
}

// ---------------------------------------------------------------------------
// Laws
// ---------------------------------------------------------------------------

/// No phrase is masked: no phrase of the table has a phrase of an earlier row in
/// it between word boundaries.
pub proof fn law_no_phrase_is_masked(early: int, late: int, k: int, l: int)
    requires
        0 <= early < late < rules().len(),
        0 <= k < rules()[early].0.len(),
        0 <= l < rules()[late].0.len(),
    ensures
        !says(rules()[late].0[l], rules()[early].0[k]),
{
    lemma_all_rows(early);
    lemma_all_rows(late);
    lemma_never_said(rules()[late].0[l], late, rules()[early].0[k], early);
}

/// Every phrase of the table leads to its own action.
pub proof fn law_phrases_lead_to_their_actions(row: int, k: int, threshold: u64)
    requires
        0 <= row < rules().len(),
        0 <= k < rules()[row].0.len(),
    ensures
        first_said(rules()[row].0[k], rules()) == Some(rules()[row].1),
        meaning(rules()[row].0[k], threshold) == Meaning::Action(rules()[row].1),
{
    let table = rules();
    let phrase = table[row].0[k];
    lemma_all_rows(row);
    assert(ordered(phrase, row));
    if phrase.len() == 0 {
        assert(tail_from(phrase, 0, 0) == tail_row(0, 0));
    }
    assert(phrase.subrange(0, phrase.len() as int) =~= phrase);
    assert(phrase_at(phrase, phrase, 0));
    assert(says(phrase, table[row].0[k]));
    assert(says_any(phrase, table[row].0));
    assert forall|j: int| 0 <= j < row implies !says_any(phrase, (#[trigger] table[j]).0) by {
        assert forall|l: int| 0 <= l < table[j].0.len() implies !says(
            phrase,
            #[trigger] table[j].0[l],
        ) by {
            law_no_phrase_is_masked(j, row, l, k);
        }
    }
    law_first_rule_wins(phrase, table, row);
    lemma_words(phrase);
    assert(is_normal(phrase)) by {
        assert forall|i: int| 0 <= i < phrase.len() implies is_plain(#[trigger] phrase[i])
            || phrase[i] == ' ' by {
            lemma_tidy(phrase, 0, i);
        }
    }
    law_normal_text_stays(phrase);
    assert(phrase != "start"@) by {
        reveal_strlit("start");
        reveal_with_fuel(word_end, 7);
        assert(word_end("start"@, 0) == 5);
        assert(tail_from("start"@, 0, 0) == tail_row(0, 0));
    }
    assert(phrase != "go"@) by {
        reveal_strlit("go");
        reveal_with_fuel(word_end, 4);
        assert(word_end("go"@, 0) == 2);
        assert(tail_from("go"@, 0, 0) == tail_row(0, 0));
    }
}

/// A text of which no word and no two neighbours are the end of a phrase says no
/// phrase of the table.
pub proof fn lemma_no_phrase_said(s: Seq<char>)
    requires
        clear_from(s, 0, 0, tail_row(0, 0)),
    ensures
        first_said(s, rules()) is None,
{
    let table = rules();
    assert forall|j: int| 0 <= j < table.len() implies !says_any(s, (#[trigger] table[j]).0) by {
        lemma_all_rows(j);
        assert forall|l: int| 0 <= l < table[j].0.len() implies !says(
            s,
            #[trigger] table[j].0[l],
        ) by {
            assert(ordered(rules()[j].0[l], j));
            lemma_never_said(s, tail_row(0, 0), table[j].0[l], j);
        }
    }
    lemma_first_said_none(s, table);
}

proof fn lemma_first_said_none(s: Seq<char>, table: Seq<(Seq<Seq<char>>, Action)>)
    requires
        forall|j: int| 0 <= j < table.len() ==> !says_any(s, (#[trigger] table[j]).0),
    ensures
        first_said(s, table) is None,
    decreases table.len(),
{
    if table.len() > 0 {
        let rest = table.skip(1);
        assert forall|j: int| 0 <= j < rest.len() implies !says_any(s, (#[trigger] rest[j]).0) by {
            assert(rest[j] == table[j + 1]);
        }
        lemma_first_said_none(s, rest);
    }
}

} // verus!
