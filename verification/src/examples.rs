//! What the help shows as an example of a query is understood as that query.

use vstd::prelude::*;

use crate::numbers::{all_digits, decimal_value, number_in, unsigned};
use crate::phrase_order::{
    clear_from, cut, lemma_cut, lemma_no_phrase_said, lemma_tidy, lemma_word_end, lemma_words,
    lemma_words_of_phrase, mark, starts_at, tail_row, tidy, word_end,
};
use crate::phrases::query_example_texts;
use crate::text::{
    first_index, is_alnum, is_plain, is_space, lower, occurs_at, starts_with, trim, words,
};
use crate::voice_router::{
    after_any, after_how, after_prefix, exact_meaning, how_openings, how_verbs, is_break, meaning,
    navigation_prefixes, normalised, number_words, page_number_at, page_number_from, phrase_at,
    query_in, says, says_any, section_list_phrases, section_target, small_number, spoken_chars,
    without_article, without_tab_suffix, Meaning,
};

verus! {

// ---------------------------------------------------------------------------
// Normalising
// ---------------------------------------------------------------------------

/// From `k` on, `e` is spoken as `t` from `l` on.
spec fn spells(e: Seq<char>, k: int, t: Seq<char>, l: int) -> bool
    decreases e.len() - k,
{
    if k < 0 || k >= e.len() {
        l == t.len()
    } else if is_alnum(e[k]) {
        l < t.len() && t[l] == lower(e[k]) && spells(e, k + 1, t, l + 1)
    } else if is_break(e[k]) {
        l < t.len() && t[l] == ' ' && spells(e, k + 1, t, l + 1)
    } else {
        spells(e, k + 1, t, l)
    }
}

proof fn lemma_spells(e: Seq<char>, k: int, t: Seq<char>, l: int)
    requires
        0 <= k <= e.len(),
        0 <= l <= t.len(),
        spoken_chars(e.take(k)) == t.take(l),
        spells(e, k, t, l),
    ensures
        spoken_chars(e) == t,
    decreases e.len() - k,
{
    if k < e.len() {
        assert(e.take(k + 1).drop_last() =~= e.take(k));
        assert(e.take(k + 1).last() == e[k]);
        if is_alnum(e[k]) || is_break(e[k]) {
            assert(t.take(l + 1) =~= t.take(l).push(t[l]));
            lemma_spells(e, k + 1, t, l + 1);
        } else {
            lemma_spells(e, k + 1, t, l);
        }
    } else {
        assert(e.take(k) =~= e);
        assert(t.take(l) =~= t);
    }
}

// ---------------------------------------------------------------------------
// Words that are not there
// ---------------------------------------------------------------------------

/// No word from the one that begins at `i` on has the mark.
pub open spec fn lacks(t: Seq<char>, i: int, m: int) -> bool
    decreases t.len() - i,
{
    if i < 0 || i >= t.len() || word_end(t, i) < i {
        true
    } else {
        &&& mark(t, i) != m
        &&& word_end(t, i) >= t.len() || lacks(t, word_end(t, i) + 1, m)
    }
}

proof fn lemma_lacks(t: Seq<char>, i: int, m: int, u: int)
    requires
        starts_at(t, i),
        lacks(t, i, m),
        starts_at(t, u),
        i <= u,
    ensures
        mark(t, u) != m,
    decreases t.len() - i,
{
    lemma_word_end(t, i);
    if u > i {
        if u <= word_end(t, i) {
            assert(t[u - 1] != ' ');
        }
        lemma_lacks(t, word_end(t, i) + 1, m, u);
    }
}

proof fn lemma_does_not_say(t: Seq<char>, n: Seq<char>, u: int)
    requires
        starts_at(n, u),
        lacks(t, 0, mark(n, u)),
    ensures
        !says(t, n),
{
    if says(t, n) {
        let i = choose|i: int| phrase_at(t, n, i);
        lemma_words_of_phrase(t, n, i, u);
        assert(starts_at(t, 0));
        lemma_lacks(t, 0, mark(n, u), i + u);
    }
}

/// The marks of the words "sections", "this" and "page".
pub open spec fn sections_mark() -> int {
    0x736563_08
}

pub open spec fn this_mark() -> int {
    0x746869_04
}

pub open spec fn page_mark() -> int {
    0x706167_04
}

pub proof fn lemma_no_list(t: Seq<char>)
    requires
        lacks(t, 0, sections_mark()),
        lacks(t, 0, this_mark()),
    ensures
        !says_any(t, section_list_phrases()),
{
    reveal_with_fuel(word_end, 10);
    assert(!says(t, "what sections"@)) by {
        reveal_strlit("what sections");
        lemma_does_not_say(t, "what sections"@, 5);
    }
    assert(!says(t, "list sections"@)) by {
        reveal_strlit("list sections");
        lemma_does_not_say(t, "list sections"@, 5);
    }
    assert(!says(t, "list the sections"@)) by {
        reveal_strlit("list the sections");
        lemma_does_not_say(t, "list the sections"@, 9);
    }
    assert(!says(t, "sections in this tab"@)) by {
        reveal_strlit("sections in this tab");
        lemma_does_not_say(t, "sections in this tab"@, 0);
    }
    assert(!says(t, "whats in this tab"@)) by {
        reveal_strlit("whats in this tab");
        lemma_does_not_say(t, "whats in this tab"@, 9);
    }
    assert(!says(t, "what is in this tab"@)) by {
        reveal_strlit("what is in this tab");
        lemma_does_not_say(t, "what is in this tab"@, 11);
    }
}

proof fn lemma_no_page_number(ws: Seq<Seq<char>>, i: int)
    requires
        forall|k: int| 0 <= k < ws.len() ==> #[trigger] ws[k] != "page"@,
        0 <= i,
    ensures
        page_number_from(ws, i) is None,
    decreases ws.len() - i,
{
    if i < ws.len() {
        lemma_no_page_number(ws, i + 1);
    }
}

proof fn lemma_no_page(t: Seq<char>)
    requires
        t.len() > 0,
        tidy(t, 0),
        lacks(t, 0, page_mark()),
    ensures
        page_number_from(words(t), 0) is None,
{
    lemma_words(t);
    lemma_cut(t, 0);
    assert forall|k: int| 0 <= k < words(t).len() implies #[trigger] words(t)[k] != "page"@ by {
        let w = cut(t, 0)[k];
        let u = choose|u: int|
            starts_at(t, u) && w == t.subrange(u, #[trigger] word_end(t, u));
        lemma_lacks(t, 0, page_mark(), u);
        lemma_word_end(t, u);
        reveal_strlit("page");
        if w == "page"@ {
            assert(w[0] == t[u] && w[1] == t[u + 1] && w[2] == t[u + 2]);
            assert(mark(t, u) == page_mark());
        }
    }
    lemma_no_page_number(words(t), 0);
}

proof fn lemma_page_number_found(ws: Seq<Seq<char>>, i: int, k: int)
    requires
        0 <= i <= k < ws.len(),
        page_number_at(ws, k) is Some,
    ensures
        page_number_from(ws, i) is Some,
    decreases k - i,
{
    if i < k {
        lemma_page_number_found(ws, i + 1, k);
    }
}

proof fn lemma_first_index_found(list: Seq<Seq<char>>, s: Seq<char>, k: int)
    requires
        0 <= k < list.len(),
        list[k] == s,
    ensures
        first_index(list, s) is Some,
    decreases list.len(),
{
    if k < list.len() - 1 {
        lemma_first_index_found(list.drop_last(), s, k);
    }
}

proof fn lemma_digit(w: Seq<char>)
    requires
        w.len() == 1,
        '1' <= w[0] <= '9',
    ensures
        small_number(w) is Some,
{
    reveal_with_fuel(decimal_value, 2);
    assert(unsigned(w) == w);
    assert(all_digits(w));
    assert(w.drop_last() =~= Seq::empty());
    assert(number_in(w) is Some);
}

// ---------------------------------------------------------------------------
// Texts within texts
// ---------------------------------------------------------------------------

/// From `k` on, the characters of `n` are those of `s` from `at + k` on.
pub open spec fn agrees(s: Seq<char>, n: Seq<char>, at: int, k: int) -> bool
    decreases n.len() - k,
{
    if k < 0 || k >= n.len() {
        true
    } else {
        s[at + k] == n[k] && agrees(s, n, at, k + 1)
    }
}

proof fn lemma_agrees(s: Seq<char>, n: Seq<char>, at: int, k: int, i: int)
    requires
        0 <= k <= i < n.len(),
        agrees(s, n, at, k),
    ensures
        s[at + i] == n[i],
    decreases i - k,
{
    if k < i {
        lemma_agrees(s, n, at, k + 1, i);
    }
}

pub proof fn lemma_stands(s: Seq<char>, n: Seq<char>, at: int)
    requires
        0 <= at,
        at + n.len() <= s.len(),
        agrees(s, n, at, 0),
    ensures
        occurs_at(s, n, at),
        s.subrange(at, at + n.len()) == n,
{
    assert forall|i: int| 0 <= i < n.len() implies s.subrange(at, at + n.len())[i] == n[i] by {
        lemma_agrees(s, n, at, 0, i);
    }
    assert(s.subrange(at, at + n.len()) =~= n);
}

pub proof fn lemma_other_start(s: Seq<char>, n: Seq<char>, k: int)
    requires
        0 <= k < n.len() <= s.len(),
        s[k] != n[k],
    ensures
        !starts_with(s, n),
{
    if starts_with(s, n) {
        assert(s.subrange(0, n.len() as int)[k] == s[k]);
    }
}

pub proof fn lemma_trim_keeps(s: Seq<char>)
    requires
        s.len() > 0,
        !is_space(s[0]),
        !is_space(s.last()),
    ensures
        trim(s) == s,
{
}

pub proof fn lemma_after_prefix(s: Seq<char>, prefixes: Seq<Seq<char>>, k: int)
    requires
        0 <= k < prefixes.len(),
        starts_with(s, prefixes[k]),
        trim(s.skip(prefixes[k].len() as int)).len() > 0,
        forall|j: int| 0 <= j < k ==> !starts_with(s, #[trigger] prefixes[j]),
    ensures
        after_prefix(s, prefixes) == Some(trim(s.skip(prefixes[k].len() as int))),
    decreases k,
{
    if k > 0 {
        let rest = prefixes.skip(1);
        assert(!starts_with(s, prefixes[0]));
        assert(rest[k - 1] == prefixes[k]);
        assert forall|j: int| 0 <= j < k - 1 implies !starts_with(s, #[trigger] rest[j]) by {
            assert(rest[j] == prefixes[j + 1]);
        }
        lemma_after_prefix(s, rest, k - 1);
    }
}

pub proof fn lemma_no_prefix(s: Seq<char>, prefixes: Seq<Seq<char>>)
    requires
        forall|j: int| 0 <= j < prefixes.len() ==> !starts_with(s, #[trigger] prefixes[j]),
    ensures
        after_prefix(s, prefixes) is None,
    decreases prefixes.len(),
{
    if prefixes.len() > 0 {
        let rest = prefixes.skip(1);
        assert(!starts_with(s, prefixes[0]));
        assert forall|j: int| 0 <= j < rest.len() implies !starts_with(s, #[trigger] rest[j]) by {
            assert(rest[j] == prefixes[j + 1]);
        }
        lemma_no_prefix(s, rest);
    }
}

pub proof fn lemma_after_any(s: Seq<char>, prefixes: Seq<Seq<char>>, k: int)
    requires
        0 <= k < prefixes.len(),
        starts_with(s, prefixes[k]),
        forall|j: int| 0 <= j < k ==> !starts_with(s, #[trigger] prefixes[j]),
    ensures
        after_any(s, prefixes) == Some(s.skip(prefixes[k].len() as int)),
    decreases k,
{
    if k > 0 {
        let rest = prefixes.skip(1);
        assert(!starts_with(s, prefixes[0]));
        assert(rest[k - 1] == prefixes[k]);
        assert forall|j: int| 0 <= j < k - 1 implies !starts_with(s, #[trigger] rest[j]) by {
            assert(rest[j] == prefixes[j + 1]);
        }
        lemma_after_any(s, rest, k - 1);
    }
}

pub proof fn lemma_first_char_stays(s: Seq<char>)
    requires
        s.len() > 0,
        !is_space(s[0]),
    ensures
        trim(s).len() > 0,
    decreases s.len(),
{
    if s.len() > 1 && is_space(s.last()) {
        lemma_first_char_stays(s.drop_last());
    }
}

pub proof fn lemma_article(t: Seq<char>, n: int, m: int)
    requires
        tidy(t, 0),
        0 <= n <= m < t.len(),
        is_plain(t[n]),
        is_plain(t[m]),
        if starts_with(t.skip(n), "the "@) {
            m == n + 4
        } else {
            m == n
        },
    ensures
        trim(t.skip(n)) == t.skip(n),
        without_article(t.skip(n)) == t.skip(m),
{
    let last = t.len() - 1;
    lemma_tidy(t, 0, last);
    reveal_strlit("the ");
    assert(t.skip(n).last() == t[last]);
    assert(t.skip(m).last() == t[last]);
    lemma_trim_keeps(t.skip(n));
    lemma_trim_keeps(t.skip(m));
    assert(t.skip(n).skip(m - n) =~= t.skip(m));
}

/// The text asks for what begins at `m`, behind the prefix `k` of `n` characters
/// and an article, where there is one.
proof fn lemma_target(t: Seq<char>, k: int, n: int, m: int)
    requires
        tidy(t, 0),
        0 <= k < navigation_prefixes().len(),
        n == navigation_prefixes()[k].len(),
        starts_with(t, navigation_prefixes()[k]),
        forall|j: int| 0 <= j < k ==> !starts_with(t, #[trigger] navigation_prefixes()[j]),
        n <= m < t.len(),
        is_plain(t[n]),
        is_plain(t[m]),
        if starts_with(t.skip(n), "the "@) {
            m == n + 4
        } else {
            m == n
        },
    ensures
        section_target(t) == Some(t.skip(m)),
{
    lemma_article(t, n, m);
    lemma_after_prefix(t, navigation_prefixes(), k);
}

proof fn lemma_other_end(t: Seq<char>, m: int, n: Seq<char>, k: int)
    requires
        0 <= k < n.len(),
        0 <= m <= t.len(),
        t[t.len() - n.len() + k] != n[k],
    ensures
        !crate::text::ends_with(t.skip(m), n),
{
    let s = t.skip(m);
    if n.len() <= s.len() {
        assert(s.subrange(s.len() - n.len(), s.len() as int)[k] == t[t.len() - n.len() + k]);
    }
}

proof fn lemma_tab(t: Seq<char>, m: int, n: Seq<char>)
    requires
        0 <= m,
        m + n.len() < t.len(),
        is_plain(t[m]),
        agrees(t, n, t.len() - n.len(), 0),
        n == " tab"@ || n == " checklist"@,
    ensures
        without_tab_suffix(t.skip(m)) is Some,
{
    let s = t.skip(m);
    lemma_stands(t, n, t.len() - n.len());
    assert(s.subrange(s.len() - n.len(), s.len() as int) =~= n);
    let head = s.take(s.len() - n.len());
    assert(head[0] == t[m]);
    lemma_first_char_stays(head);
}

/// The text asks for the page whose number is the word `j`, behind the word
/// "page" at `p`, with the word "number" between them or not.
proof fn lemma_asked_for_page(t: Seq<char>, p: int, j: int)
    requires
        lacks(t, 0, sections_mark()),
        lacks(t, 0, this_mark()),
        0 <= p < j < words(t).len(),
        words(t)[p] == "page"@,
        if words(t)[p + 1] == "number"@ {
            j == p + 2
        } else {
            j == p + 1
        },
        small_number(words(t)[j]) is Some,
    ensures
        query_in(t) is Some,
        query_in(t)->0 is Page,
{
    lemma_no_list(t);
    lemma_page_number_found(words(t), 0, p);
}

// ---------------------------------------------------------------------------
// The examples
// ---------------------------------------------------------------------------

/// What is asked for by a text that is spoken as `t`, of which no phrase of the
/// table is said.
proof fn lemma_asked(e: Seq<char>, t: Seq<char>, threshold: u64)
    requires
        spells(e, 0, t, 0),
        t.len() > 5,
        tidy(t, 0),
        clear_from(t, 0, 0, tail_row(0, 0)),
        query_in(t) is Some,
    ensures
        meaning(e, threshold) == Meaning::Query(query_in(t)->0),
{
    assert(e.take(0) =~= Seq::empty());
    assert(t.take(0) =~= Seq::empty());
    lemma_spells(e, 0, t, 0);
    lemma_words(t);
    assert(normalised(e) == t);
    lemma_no_phrase_said(t);
    reveal_strlit("start");
    reveal_strlit("go");
    assert(exact_meaning(t) == Meaning::Query(query_in(t)->0));
}

/// What a text asks for that is no list of sections and names no page.
proof fn lemma_asked_for_target(t: Seq<char>)
    requires
        t.len() > 0,
        tidy(t, 0),
        lacks(t, 0, sections_mark()),
        lacks(t, 0, this_mark()),
        lacks(t, 0, page_mark()),
        section_target(t) is Some,
    ensures
        without_tab_suffix(section_target(t)->0) is Some ==> query_in(t) is Some && query_in(
            t,
        )->0 is Tab,
        without_tab_suffix(section_target(t)->0) is None ==> query_in(t) is Some && query_in(
            t,
        )->0 is Section,
{
    lemma_no_list(t);
    lemma_no_page(t);
}

/// The meaning is a query, and the one that the label tells.
pub open spec fn asks_for(m: Meaning, label: Seq<char>) -> bool {
    match m {
        Meaning::Query(q) => {
            &&& label == "Go to page"@ ==> q is Page
            &&& label == "Go to section"@ ==> q is Section
            &&& label == "Go to tab"@ ==> q is Tab
            &&& label == "List sections"@ ==> q is Sections
        },
        _ => false,
    }
}

proof fn lemma_labels()
    ensures
        "Go to page"@ != "Go to section"@,
        "Go to page"@ != "Go to tab"@,
        "Go to page"@ != "List sections"@,
        "Go to section"@ != "Go to tab"@,
        "Go to section"@ != "List sections"@,
        "Go to tab"@ != "List sections"@,
{
    reveal_strlit("Go to page");
    reveal_strlit("Go to section");
    reveal_strlit("Go to tab");
    reveal_strlit("List sections");
    assert("Go to page"@.len() == 10);
    assert("Go to section"@.len() == 13);
    assert("Go to tab"@.len() == 9);
    assert("Go to section"@[0] != "List sections"@[0]);
}

proof fn lemma_go_to_page_3(threshold: u64)
    ensures
        asks_for(meaning("go to page 3"@, threshold), "Go to page"@),
{
    let t = "go to page 3"@;
    reveal_strlit("go to page 3");
    assert(spells("go to page 3"@, 0, t, 0)) by {
        reveal_with_fuel(spells, 14);
    }
    assert(tidy(t, 0)) by {
        reveal_with_fuel(tidy, 14);
    }
    assert({
        &&& word_end(t, 0) == 2
        &&& word_end(t, 3) == 5
        &&& word_end(t, 6) == 10
        &&& word_end(t, 11) == 12
    }) by {
        reveal_with_fuel(word_end, 6);
    }
    assert(clear_from(t, 11, mark(t, 6), tail_row(0, 0)));
    assert(clear_from(t, 6, mark(t, 3), tail_row(0, 0)));
    assert(clear_from(t, 3, mark(t, 0), tail_row(0, 0)));
    assert(clear_from(t, 0, 0, tail_row(0, 0)));
    assert(lacks(t, 11, sections_mark()) && lacks(t, 11, this_mark()));
    assert(lacks(t, 6, sections_mark()) && lacks(t, 6, this_mark()));
    assert(lacks(t, 3, sections_mark()) && lacks(t, 3, this_mark()));
    assert(lacks(t, 0, sections_mark()) && lacks(t, 0, this_mark()));
    lemma_words(t);
    assert(cut(t, 11) =~= seq![t.skip(11)]);
    assert(cut(t, 6) =~= seq![t.subrange(6, 10), t.skip(11)]);
    assert(cut(t, 3) =~= seq![t.subrange(3, 5), t.subrange(6, 10), t.skip(11)]);
    assert(cut(t, 0) =~= seq![t.subrange(0, 2), t.subrange(3, 5), t.subrange(6, 10), t.skip(11)]);
    reveal_strlit("page");
    reveal_strlit("number");
    assert(agrees(t, "page"@, 6, 0)) by {
        reveal_with_fuel(agrees, 5);
    }
    lemma_stands(t, "page"@, 6);
    lemma_digit(t.skip(11));
    lemma_asked_for_page(t, 2, 3);
    lemma_labels();
    lemma_asked("go to page 3"@, t, threshold);
}

proof fn lemma_page_5(threshold: u64)
    ensures
        asks_for(meaning("page 5"@, threshold), "Go to page"@),
{
    let t = "page 5"@;
    reveal_strlit("page 5");
    assert(spells("page 5"@, 0, t, 0)) by {
        reveal_with_fuel(spells, 8);
    }
    assert(tidy(t, 0)) by {
        reveal_with_fuel(tidy, 8);
    }
    assert(word_end(t, 0) == 4 && word_end(t, 5) == 6) by {
        reveal_with_fuel(word_end, 6);
    }
    assert(clear_from(t, 5, mark(t, 0), tail_row(0, 0)));
    assert(clear_from(t, 0, 0, tail_row(0, 0)));
    assert(lacks(t, 5, sections_mark()) && lacks(t, 5, this_mark()));
    assert(lacks(t, 0, sections_mark()) && lacks(t, 0, this_mark()));
    lemma_words(t);
    assert(cut(t, 5) =~= seq![t.skip(5)]);
    assert(cut(t, 0) =~= seq![t.subrange(0, 4), t.skip(5)]);
    reveal_strlit("page");
    reveal_strlit("number");
    assert(agrees(t, "page"@, 0, 0)) by {
        reveal_with_fuel(agrees, 5);
    }
    lemma_stands(t, "page"@, 0);
    lemma_digit(t.skip(5));
    lemma_asked_for_page(t, 0, 1);
    lemma_labels();
    lemma_asked("page 5"@, t, threshold);
}

#[verifier::rlimit(40)]
proof fn lemma_page_number_2(threshold: u64)
    ensures
        asks_for(meaning("page number 2"@, threshold), "Go to page"@),
{
    let t = "page number 2"@;
    reveal_strlit("page number 2");
    assert(spells("page number 2"@, 0, t, 0)) by {
        reveal_with_fuel(spells, 15);
    }
    assert(tidy(t, 0)) by {
        reveal_with_fuel(tidy, 15);
    }
    assert(word_end(t, 0) == 4 && word_end(t, 5) == 11 && word_end(t, 12) == 13) by {
        reveal_with_fuel(word_end, 8);
    }
    assert(clear_from(t, 12, mark(t, 5), tail_row(0, 0)));
    assert(clear_from(t, 5, mark(t, 0), tail_row(0, 0)));
    assert(clear_from(t, 0, 0, tail_row(0, 0)));
    assert(lacks(t, 12, sections_mark()) && lacks(t, 12, this_mark()));
    assert(lacks(t, 5, sections_mark()) && lacks(t, 5, this_mark()));
    assert(lacks(t, 0, sections_mark()) && lacks(t, 0, this_mark()));
    lemma_words(t);
    assert(cut(t, 12) =~= seq![t.skip(12)]);
    assert(cut(t, 5) =~= seq![t.subrange(5, 11), t.skip(12)]);
    assert(cut(t, 0) =~= seq![t.subrange(0, 4), t.subrange(5, 11), t.skip(12)]);
    reveal_strlit("page");
    reveal_strlit("number");
    assert(agrees(t, "page"@, 0, 0)) by {
        reveal_with_fuel(agrees, 5);
    }
    lemma_stands(t, "page"@, 0);
    assert(agrees(t, "number"@, 5, 0)) by {
        reveal_with_fuel(agrees, 7);
    }
    lemma_stands(t, "number"@, 5);
    lemma_digit(t.skip(12));
    lemma_asked_for_page(t, 0, 2);
    lemma_labels();
    lemma_asked("page number 2"@, t, threshold);
}

proof fn lemma_page_three(threshold: u64)
    ensures
        asks_for(meaning("page three"@, threshold), "Go to page"@),
{
    let t = "page three"@;
    reveal_strlit("page three");
    assert(spells("page three"@, 0, t, 0)) by {
        reveal_with_fuel(spells, 12);
    }
    assert(tidy(t, 0)) by {
        reveal_with_fuel(tidy, 12);
    }
    assert(word_end(t, 0) == 4 && word_end(t, 5) == 10) by {
        reveal_with_fuel(word_end, 7);
    }
    assert(clear_from(t, 5, mark(t, 0), tail_row(0, 0)));
    assert(clear_from(t, 0, 0, tail_row(0, 0)));
    assert(lacks(t, 5, sections_mark()) && lacks(t, 5, this_mark()));
    assert(lacks(t, 0, sections_mark()) && lacks(t, 0, this_mark()));
    lemma_words(t);
    assert(cut(t, 5) =~= seq![t.skip(5)]);
    assert(cut(t, 0) =~= seq![t.subrange(0, 4), t.skip(5)]);
    reveal_strlit("page");
    reveal_strlit("number");
    assert(agrees(t, "page"@, 0, 0)) by {
        reveal_with_fuel(agrees, 5);
    }
    lemma_stands(t, "page"@, 0);
    reveal_strlit("three");
    assert(agrees(t, "three"@, 5, 0)) by {
        reveal_with_fuel(agrees, 6);
    }
    lemma_stands(t, "three"@, 5);
    assert(t.skip(5) =~= "three"@);
    assert(number_in("three"@) is None) by {
        assert(!crate::text::is_digit("three"@[0]));
    }
    lemma_first_index_found(number_words(), "three"@, 2);
    lemma_asked_for_page(t, 0, 1);
    lemma_labels();
    lemma_asked("page three"@, t, threshold);
}

proof fn lemma_go_to_agm_65(threshold: u64)
    ensures
        asks_for(meaning("go to AGM-65"@, threshold), "Go to section"@),
{
    let t = "go to agm 65"@;
    reveal_strlit("go to agm 65");
    reveal_strlit("go to AGM-65");
    assert(spells("go to AGM-65"@, 0, t, 0)) by {
        reveal_with_fuel(spells, 14);
    }
    assert(tidy(t, 0)) by {
        reveal_with_fuel(tidy, 14);
    }
    assert({
        &&& word_end(t, 0) == 2
        &&& word_end(t, 3) == 5
        &&& word_end(t, 6) == 9
        &&& word_end(t, 10) == 12
    }) by {
        reveal_with_fuel(word_end, 5);
    }
    assert(clear_from(t, 10, mark(t, 6), tail_row(0, 0)));
    assert(clear_from(t, 6, mark(t, 3), tail_row(0, 0)));
    assert(clear_from(t, 3, mark(t, 0), tail_row(0, 0)));
    assert(clear_from(t, 0, 0, tail_row(0, 0)));
    assert(lacks(t, 10, sections_mark()) && lacks(t, 10, this_mark()) && lacks(t, 10, page_mark()));
    assert(lacks(t, 6, sections_mark()) && lacks(t, 6, this_mark()) && lacks(t, 6, page_mark()));
    assert(lacks(t, 3, sections_mark()) && lacks(t, 3, this_mark()) && lacks(t, 3, page_mark()));
    assert(lacks(t, 0, sections_mark()) && lacks(t, 0, this_mark()) && lacks(t, 0, page_mark()));
    reveal_strlit("take me to ");
    reveal_strlit("navigate to ");
    reveal_strlit("search for ");
    reveal_strlit("show me ");
    reveal_strlit("jump to ");
    reveal_strlit("go to ");
    lemma_other_start(t, "take me to "@, 0);
    lemma_other_start(t, "navigate to "@, 0);
    lemma_other_start(t, "search for "@, 0);
    lemma_other_start(t, "show me "@, 0);
    lemma_other_start(t, "jump to "@, 0);
    assert(agrees(t, "go to "@, 0, 0)) by {
        reveal_with_fuel(agrees, 7);
    }
    lemma_stands(t, "go to "@, 0);
    reveal_strlit("the ");
    lemma_other_start(t.skip(6), "the "@, 0);
    lemma_target(t, 5, 6, 6);
    reveal_strlit(" tab");
    lemma_other_end(t, 6, " tab"@, 3);
    reveal_strlit(" checklist");
    lemma_other_end(t, 6, " checklist"@, 9);
    lemma_asked_for_target(t);
    lemma_labels();
    lemma_asked("go to AGM-65"@, t, threshold);
}

proof fn lemma_take_me_to_the_maverick_section(threshold: u64)
    ensures
        asks_for(meaning("take me to the maverick section"@, threshold), "Go to section"@),
{
    let t = "take me to the maverick section"@;
    reveal_strlit("take me to the maverick section");
    assert(spells("take me to the maverick section"@, 0, t, 0)) by {
        reveal_with_fuel(spells, 33);
    }
    assert(tidy(t, 0)) by {
        reveal_with_fuel(tidy, 33);
    }
    assert({
        &&& word_end(t, 0) == 4
        &&& word_end(t, 5) == 7
        &&& word_end(t, 8) == 10
        &&& word_end(t, 11) == 14
        &&& word_end(t, 15) == 23
        &&& word_end(t, 24) == 31
    }) by {
        reveal_with_fuel(word_end, 10);
    }
    assert(clear_from(t, 24, mark(t, 15), tail_row(0, 0)));
    assert(clear_from(t, 15, mark(t, 11), tail_row(0, 0)));
    assert(clear_from(t, 11, mark(t, 8), tail_row(0, 0)));
    assert(clear_from(t, 8, mark(t, 5), tail_row(0, 0)));
    assert(clear_from(t, 5, mark(t, 0), tail_row(0, 0)));
    assert(clear_from(t, 0, 0, tail_row(0, 0)));
    assert(lacks(t, 24, sections_mark()) && lacks(t, 24, this_mark()) && lacks(t, 24, page_mark()));
    assert(lacks(t, 15, sections_mark()) && lacks(t, 15, this_mark()) && lacks(t, 15, page_mark()));
    assert(lacks(t, 11, sections_mark()) && lacks(t, 11, this_mark()) && lacks(t, 11, page_mark()));
    assert(lacks(t, 8, sections_mark()) && lacks(t, 8, this_mark()) && lacks(t, 8, page_mark()));
    assert(lacks(t, 5, sections_mark()) && lacks(t, 5, this_mark()) && lacks(t, 5, page_mark()));
    assert(lacks(t, 0, sections_mark()) && lacks(t, 0, this_mark()) && lacks(t, 0, page_mark()));
    reveal_strlit("take me to ");
    assert(agrees(t, "take me to "@, 0, 0)) by {
        reveal_with_fuel(agrees, 12);
    }
    lemma_stands(t, "take me to "@, 0);
    reveal_strlit("the ");
    assert(agrees(t.skip(11), "the "@, 0, 0)) by {
        reveal_with_fuel(agrees, 5);
    }
    lemma_stands(t.skip(11), "the "@, 0);
    lemma_target(t, 0, 11, 15);
    reveal_strlit(" tab");
    lemma_other_end(t, 15, " tab"@, 3);
    reveal_strlit(" checklist");
    lemma_other_end(t, 15, " checklist"@, 9);
    lemma_asked_for_target(t);
    lemma_labels();
    lemma_asked("take me to the maverick section"@, t, threshold);
}

proof fn lemma_find_the_jdam_section(threshold: u64)
    ensures
        asks_for(meaning("find the JDAM section"@, threshold), "Go to section"@),
{
    let t = "find the jdam section"@;
    reveal_strlit("find the jdam section");
    reveal_strlit("find the JDAM section");
    assert(spells("find the JDAM section"@, 0, t, 0)) by {
        reveal_with_fuel(spells, 23);
    }
    assert(tidy(t, 0)) by {
        reveal_with_fuel(tidy, 23);
    }
    assert({
        &&& word_end(t, 0) == 4
        &&& word_end(t, 5) == 8
        &&& word_end(t, 9) == 13
        &&& word_end(t, 14) == 21
    }) by {
        reveal_with_fuel(word_end, 9);
    }
    assert(clear_from(t, 14, mark(t, 9), tail_row(0, 0)));
    assert(clear_from(t, 9, mark(t, 5), tail_row(0, 0)));
    assert(clear_from(t, 5, mark(t, 0), tail_row(0, 0)));
    assert(clear_from(t, 0, 0, tail_row(0, 0)));
    assert(lacks(t, 14, sections_mark()) && lacks(t, 14, this_mark()) && lacks(t, 14, page_mark()));
    assert(lacks(t, 9, sections_mark()) && lacks(t, 9, this_mark()) && lacks(t, 9, page_mark()));
    assert(lacks(t, 5, sections_mark()) && lacks(t, 5, this_mark()) && lacks(t, 5, page_mark()));
    assert(lacks(t, 0, sections_mark()) && lacks(t, 0, this_mark()) && lacks(t, 0, page_mark()));
    reveal_strlit("take me to ");
    reveal_strlit("navigate to ");
    reveal_strlit("search for ");
    reveal_strlit("show me ");
    reveal_strlit("jump to ");
    reveal_strlit("go to ");
    reveal_strlit("get to ");
    reveal_strlit("find ");
    lemma_other_start(t, "take me to "@, 0);
    lemma_other_start(t, "navigate to "@, 0);
    lemma_other_start(t, "search for "@, 0);
    lemma_other_start(t, "show me "@, 0);
    lemma_other_start(t, "jump to "@, 0);
    lemma_other_start(t, "go to "@, 0);
    lemma_other_start(t, "get to "@, 0);
    assert(agrees(t, "find "@, 0, 0)) by {
        reveal_with_fuel(agrees, 6);
    }
    lemma_stands(t, "find "@, 0);
    reveal_strlit("the ");
    assert(agrees(t.skip(5), "the "@, 0, 0)) by {
        reveal_with_fuel(agrees, 5);
    }
    lemma_stands(t.skip(5), "the "@, 0);
    lemma_target(t, 7, 5, 9);
    reveal_strlit(" tab");
    lemma_other_end(t, 9, " tab"@, 3);
    reveal_strlit(" checklist");
    lemma_other_end(t, 9, " checklist"@, 9);
    lemma_asked_for_target(t);
    lemma_labels();
    lemma_asked("find the JDAM section"@, t, threshold);
}

proof fn lemma_how_do_i_employ_the_agm_65(threshold: u64)
    ensures
        asks_for(meaning("how do I employ the AGM-65"@, threshold), "Go to section"@),
{
    let t = "how do i employ the agm 65"@;
    reveal_strlit("how do i employ the agm 65");
    reveal_strlit("how do I employ the AGM-65");
    assert(spells("how do I employ the AGM-65"@, 0, t, 0)) by {
        reveal_with_fuel(spells, 28);
    }
    assert(tidy(t, 0)) by {
        reveal_with_fuel(tidy, 28);
    }
    assert({
        &&& word_end(t, 0) == 3
        &&& word_end(t, 4) == 6
        &&& word_end(t, 7) == 8
        &&& word_end(t, 9) == 15
        &&& word_end(t, 16) == 19
        &&& word_end(t, 20) == 23
        &&& word_end(t, 24) == 26
    }) by {
        reveal_with_fuel(word_end, 8);
    }
    assert(clear_from(t, 24, mark(t, 20), tail_row(0, 0)));
    assert(clear_from(t, 20, mark(t, 16), tail_row(0, 0)));
    assert(clear_from(t, 16, mark(t, 9), tail_row(0, 0)));
    assert(clear_from(t, 9, mark(t, 7), tail_row(0, 0)));
    assert(clear_from(t, 7, mark(t, 4), tail_row(0, 0)));
    assert(clear_from(t, 4, mark(t, 0), tail_row(0, 0)));
    assert(clear_from(t, 0, 0, tail_row(0, 0)));
    assert(lacks(t, 24, sections_mark()) && lacks(t, 24, this_mark()) && lacks(t, 24, page_mark()));
    assert(lacks(t, 20, sections_mark()) && lacks(t, 20, this_mark()) && lacks(t, 20, page_mark()));
    assert(lacks(t, 16, sections_mark()) && lacks(t, 16, this_mark()) && lacks(t, 16, page_mark()));
    assert(lacks(t, 9, sections_mark()) && lacks(t, 9, this_mark()) && lacks(t, 9, page_mark()));
    assert(lacks(t, 7, sections_mark()) && lacks(t, 7, this_mark()) && lacks(t, 7, page_mark()));
    assert(lacks(t, 4, sections_mark()) && lacks(t, 4, this_mark()) && lacks(t, 4, page_mark()));
    assert(lacks(t, 0, sections_mark()) && lacks(t, 0, this_mark()) && lacks(t, 0, page_mark()));
    reveal_strlit("take me to ");
    reveal_strlit("navigate to ");
    reveal_strlit("search for ");
    reveal_strlit("show me ");
    reveal_strlit("jump to ");
    reveal_strlit("go to ");
    reveal_strlit("get to ");
    reveal_strlit("find ");
    lemma_other_start(t, "take me to "@, 0);
    lemma_other_start(t, "navigate to "@, 0);
    lemma_other_start(t, "search for "@, 0);
    lemma_other_start(t, "show me "@, 0);
    lemma_other_start(t, "jump to "@, 0);
    lemma_other_start(t, "go to "@, 0);
    lemma_other_start(t, "get to "@, 0);
    lemma_other_start(t, "find "@, 0);
    lemma_no_prefix(t, navigation_prefixes());
    reveal_strlit("how do i ");
    assert(agrees(t, "how do i "@, 0, 0)) by {
        reveal_with_fuel(agrees, 10);
    }
    lemma_stands(t, "how do i "@, 0);
    let rest = t.skip(9);
    reveal_strlit("set up ");
    reveal_strlit("prepare ");
    reveal_strlit("configure ");
    reveal_strlit("employ ");
    lemma_other_start(rest, "set up "@, 0);
    lemma_other_start(rest, "prepare "@, 0);
    lemma_other_start(rest, "configure "@, 0);
    assert(agrees(rest, "employ "@, 0, 0)) by {
        reveal_with_fuel(agrees, 8);
    }
    lemma_stands(rest, "employ "@, 0);
    lemma_after_any(rest, how_verbs(), 3);
    assert(after_how(t, how_openings()) == Some(rest.skip(7)));
    assert(rest.skip(7) =~= t.skip(16));
    reveal_strlit("the ");
    assert(agrees(t.skip(16), "the "@, 0, 0)) by {
        reveal_with_fuel(agrees, 5);
    }
    lemma_stands(t.skip(16), "the "@, 0);
    lemma_article(t, 16, 20);
    assert(section_target(t) == Some(t.skip(20)));
    reveal_strlit(" tab");
    lemma_other_end(t, 20, " tab"@, 3);
    reveal_strlit(" checklist");
    lemma_other_end(t, 20, " checklist"@, 9);
    lemma_asked_for_target(t);
    lemma_labels();
    lemma_asked("how do I employ the AGM-65"@, t, threshold);
}

proof fn lemma_search_for_agm_65_employment(threshold: u64)
    ensures
        asks_for(meaning("search for AGM-65 employment"@, threshold), "Go to section"@),
{
    let t = "search for agm 65 employment"@;
    reveal_strlit("search for agm 65 employment");
    reveal_strlit("search for AGM-65 employment");
    assert(spells("search for AGM-65 employment"@, 0, t, 0)) by {
        reveal_with_fuel(spells, 30);
    }
    assert(tidy(t, 0)) by {
        reveal_with_fuel(tidy, 30);
    }
    assert({
        &&& word_end(t, 0) == 6
        &&& word_end(t, 7) == 10
        &&& word_end(t, 11) == 14
        &&& word_end(t, 15) == 17
        &&& word_end(t, 18) == 28
    }) by {
        reveal_with_fuel(word_end, 12);
    }
    assert(clear_from(t, 18, mark(t, 15), tail_row(0, 0)));
    assert(clear_from(t, 15, mark(t, 11), tail_row(0, 0)));
    assert(clear_from(t, 11, mark(t, 7), tail_row(0, 0)));
    assert(clear_from(t, 7, mark(t, 0), tail_row(0, 0)));
    assert(clear_from(t, 0, 0, tail_row(0, 0)));
    assert(lacks(t, 18, sections_mark()) && lacks(t, 18, this_mark()) && lacks(t, 18, page_mark()));
    assert(lacks(t, 15, sections_mark()) && lacks(t, 15, this_mark()) && lacks(t, 15, page_mark()));
    assert(lacks(t, 11, sections_mark()) && lacks(t, 11, this_mark()) && lacks(t, 11, page_mark()));
    assert(lacks(t, 7, sections_mark()) && lacks(t, 7, this_mark()) && lacks(t, 7, page_mark()));
    assert(lacks(t, 0, sections_mark()) && lacks(t, 0, this_mark()) && lacks(t, 0, page_mark()));
    reveal_strlit("take me to ");
    reveal_strlit("navigate to ");
    reveal_strlit("search for ");
    lemma_other_start(t, "take me to "@, 0);
    lemma_other_start(t, "navigate to "@, 0);
    assert(agrees(t, "search for "@, 0, 0)) by {
        reveal_with_fuel(agrees, 12);
    }
    lemma_stands(t, "search for "@, 0);
    reveal_strlit("the ");
    lemma_other_start(t.skip(11), "the "@, 0);
    lemma_target(t, 2, 11, 11);
    reveal_strlit(" tab");
    lemma_other_end(t, 11, " tab"@, 3);
    reveal_strlit(" checklist");
    lemma_other_end(t, 11, " checklist"@, 8);
    lemma_asked_for_target(t);
    lemma_labels();
    lemma_asked("search for AGM-65 employment"@, t, threshold);
}

proof fn lemma_go_to_the_takeoff_tab(threshold: u64)
    ensures
        asks_for(meaning("go to the takeoff tab"@, threshold), "Go to tab"@),
{
    let t = "go to the takeoff tab"@;
    reveal_strlit("go to the takeoff tab");
    assert(spells("go to the takeoff tab"@, 0, t, 0)) by {
        reveal_with_fuel(spells, 23);
    }
    assert(tidy(t, 0)) by {
        reveal_with_fuel(tidy, 23);
    }
    assert({
        &&& word_end(t, 0) == 2
        &&& word_end(t, 3) == 5
        &&& word_end(t, 6) == 9
        &&& word_end(t, 10) == 17
        &&& word_end(t, 18) == 21
    }) by {
        reveal_with_fuel(word_end, 9);
    }
    assert(clear_from(t, 18, mark(t, 10), tail_row(0, 0)));
    assert(clear_from(t, 10, mark(t, 6), tail_row(0, 0)));
    assert(clear_from(t, 6, mark(t, 3), tail_row(0, 0)));
    assert(clear_from(t, 3, mark(t, 0), tail_row(0, 0)));
    assert(clear_from(t, 0, 0, tail_row(0, 0)));
    assert(lacks(t, 18, sections_mark()) && lacks(t, 18, this_mark()) && lacks(t, 18, page_mark()));
    assert(lacks(t, 10, sections_mark()) && lacks(t, 10, this_mark()) && lacks(t, 10, page_mark()));
    assert(lacks(t, 6, sections_mark()) && lacks(t, 6, this_mark()) && lacks(t, 6, page_mark()));
    assert(lacks(t, 3, sections_mark()) && lacks(t, 3, this_mark()) && lacks(t, 3, page_mark()));
    assert(lacks(t, 0, sections_mark()) && lacks(t, 0, this_mark()) && lacks(t, 0, page_mark()));
    reveal_strlit("take me to ");
    reveal_strlit("navigate to ");
    reveal_strlit("search for ");
    reveal_strlit("show me ");
    reveal_strlit("jump to ");
    reveal_strlit("go to ");
    lemma_other_start(t, "take me to "@, 0);
    lemma_other_start(t, "navigate to "@, 0);
    lemma_other_start(t, "search for "@, 0);
    lemma_other_start(t, "show me "@, 0);
    lemma_other_start(t, "jump to "@, 0);
    assert(agrees(t, "go to "@, 0, 0)) by {
        reveal_with_fuel(agrees, 7);
    }
    lemma_stands(t, "go to "@, 0);
    reveal_strlit("the ");
    assert(agrees(t.skip(6), "the "@, 0, 0)) by {
        reveal_with_fuel(agrees, 5);
    }
    lemma_stands(t.skip(6), "the "@, 0);
    lemma_target(t, 5, 6, 10);
    reveal_strlit(" tab");
    assert(agrees(t, " tab"@, t.len() - 4, 0)) by {
        reveal_with_fuel(agrees, 5);
    }
    lemma_tab(t, 10, " tab"@);
    lemma_asked_for_target(t);
    lemma_labels();
    lemma_asked("go to the takeoff tab"@, t, threshold);
}

proof fn lemma_go_to_the_jdam_checklist(threshold: u64)
    ensures
        asks_for(meaning("go to the JDAM checklist"@, threshold), "Go to tab"@),
{
    let t = "go to the jdam checklist"@;
    reveal_strlit("go to the jdam checklist");
    reveal_strlit("go to the JDAM checklist");
    assert(spells("go to the JDAM checklist"@, 0, t, 0)) by {
        reveal_with_fuel(spells, 26);
    }
    assert(tidy(t, 0)) by {
        reveal_with_fuel(tidy, 26);
    }
    assert({
        &&& word_end(t, 0) == 2
        &&& word_end(t, 3) == 5
        &&& word_end(t, 6) == 9
        &&& word_end(t, 10) == 14
        &&& word_end(t, 15) == 24
    }) by {
        reveal_with_fuel(word_end, 11);
    }
    assert(clear_from(t, 15, mark(t, 10), tail_row(0, 0)));
    assert(clear_from(t, 10, mark(t, 6), tail_row(0, 0)));
    assert(clear_from(t, 6, mark(t, 3), tail_row(0, 0)));
    assert(clear_from(t, 3, mark(t, 0), tail_row(0, 0)));
    assert(clear_from(t, 0, 0, tail_row(0, 0)));
    assert(lacks(t, 15, sections_mark()) && lacks(t, 15, this_mark()) && lacks(t, 15, page_mark()));
    assert(lacks(t, 10, sections_mark()) && lacks(t, 10, this_mark()) && lacks(t, 10, page_mark()));
    assert(lacks(t, 6, sections_mark()) && lacks(t, 6, this_mark()) && lacks(t, 6, page_mark()));
    assert(lacks(t, 3, sections_mark()) && lacks(t, 3, this_mark()) && lacks(t, 3, page_mark()));
    assert(lacks(t, 0, sections_mark()) && lacks(t, 0, this_mark()) && lacks(t, 0, page_mark()));
    reveal_strlit("take me to ");
    reveal_strlit("navigate to ");
    reveal_strlit("search for ");
    reveal_strlit("show me ");
    reveal_strlit("jump to ");
    reveal_strlit("go to ");
    lemma_other_start(t, "take me to "@, 0);
    lemma_other_start(t, "navigate to "@, 0);
    lemma_other_start(t, "search for "@, 0);
    lemma_other_start(t, "show me "@, 0);
    lemma_other_start(t, "jump to "@, 0);
    assert(agrees(t, "go to "@, 0, 0)) by {
        reveal_with_fuel(agrees, 7);
    }
    lemma_stands(t, "go to "@, 0);
    reveal_strlit("the ");
    assert(agrees(t.skip(6), "the "@, 0, 0)) by {
        reveal_with_fuel(agrees, 5);
    }
    lemma_stands(t.skip(6), "the "@, 0);
    lemma_target(t, 5, 6, 10);
    reveal_strlit(" checklist");
    assert(agrees(t, " checklist"@, t.len() - 10, 0)) by {
        reveal_with_fuel(agrees, 11);
    }
    lemma_tab(t, 10, " checklist"@);
    lemma_asked_for_target(t);
    lemma_labels();
    lemma_asked("go to the JDAM checklist"@, t, threshold);
}

proof fn lemma_what_sections_are_in_this_tab(threshold: u64)
    ensures
        asks_for(meaning("what sections are in this tab"@, threshold), "List sections"@),
{
    let t = "what sections are in this tab"@;
    reveal_strlit("what sections are in this tab");
    assert(spells("what sections are in this tab"@, 0, t, 0)) by {
        reveal_with_fuel(spells, 31);
    }
    assert(tidy(t, 0)) by {
        reveal_with_fuel(tidy, 31);
    }
    assert({
        &&& word_end(t, 0) == 4
        &&& word_end(t, 5) == 13
        &&& word_end(t, 14) == 17
        &&& word_end(t, 18) == 20
        &&& word_end(t, 21) == 25
        &&& word_end(t, 26) == 29
    }) by {
        reveal_with_fuel(word_end, 10);
    }
    assert(clear_from(t, 26, mark(t, 21), tail_row(0, 0)));
    assert(clear_from(t, 21, mark(t, 18), tail_row(0, 0)));
    assert(clear_from(t, 18, mark(t, 14), tail_row(0, 0)));
    assert(clear_from(t, 14, mark(t, 5), tail_row(0, 0)));
    assert(clear_from(t, 5, mark(t, 0), tail_row(0, 0)));
    assert(clear_from(t, 0, 0, tail_row(0, 0)));
    reveal_strlit("what sections");
    assert(agrees(t, "what sections"@, 0, 0)) by {
        reveal_with_fuel(agrees, 14);
    }
    lemma_stands(t, "what sections"@, 0);
    assert(phrase_at(t, "what sections"@, 0));
    assert(says(t, section_list_phrases()[0]));
    lemma_labels();
    lemma_asked("what sections are in this tab"@, t, threshold);
}

proof fn lemma_list_sections(threshold: u64)
    ensures
        asks_for(meaning("list sections"@, threshold), "List sections"@),
{
    let t = "list sections"@;
    reveal_strlit("list sections");
    assert(spells("list sections"@, 0, t, 0)) by {
        reveal_with_fuel(spells, 15);
    }
    assert(tidy(t, 0)) by {
        reveal_with_fuel(tidy, 15);
    }
    assert(word_end(t, 0) == 4 && word_end(t, 5) == 13) by {
        reveal_with_fuel(word_end, 10);
    }
    assert(clear_from(t, 5, mark(t, 0), tail_row(0, 0)));
    assert(clear_from(t, 0, 0, tail_row(0, 0)));
    assert(agrees(t, "list sections"@, 0, 0)) by {
        reveal_with_fuel(agrees, 14);
    }
    lemma_stands(t, "list sections"@, 0);
    assert(phrase_at(t, "list sections"@, 0));
    assert(says(t, section_list_phrases()[1]));
    lemma_labels();
    lemma_asked("list sections"@, t, threshold);
}

proof fn lemma_whats_in_this_tab(threshold: u64)
    ensures
        asks_for(meaning("what's in this tab"@, threshold), "List sections"@),
{
    let t = "whats in this tab"@;
    reveal_strlit("whats in this tab");
    reveal_strlit("what's in this tab");
    assert(spells("what's in this tab"@, 0, t, 0)) by {
        reveal_with_fuel(spells, 20);
    }
    assert(tidy(t, 0)) by {
        reveal_with_fuel(tidy, 19);
    }
    assert({
        &&& word_end(t, 0) == 5
        &&& word_end(t, 6) == 8
        &&& word_end(t, 9) == 13
        &&& word_end(t, 14) == 17
    }) by {
        reveal_with_fuel(word_end, 7);
    }
    assert(clear_from(t, 14, mark(t, 9), tail_row(0, 0)));
    assert(clear_from(t, 9, mark(t, 6), tail_row(0, 0)));
    assert(clear_from(t, 6, mark(t, 0), tail_row(0, 0)));
    assert(clear_from(t, 0, 0, tail_row(0, 0)));
    assert(agrees(t, "whats in this tab"@, 0, 0)) by {
        reveal_with_fuel(agrees, 18);
    }
    lemma_stands(t, "whats in this tab"@, 0);
    assert(phrase_at(t, "whats in this tab"@, 0));
    assert(says(t, section_list_phrases()[4]));
    lemma_labels();
    lemma_asked("what's in this tab"@, t, threshold);
}

/// Every example that the help shows is understood as what its label says,
/// whatever the threshold of the fuzzy match.
pub proof fn law_examples_are_understood(i: int, k: int, threshold: u64)
    requires
        0 <= i < query_example_texts().len(),
        0 <= k < query_example_texts()[i].1.len(),
    ensures
        asks_for(
            meaning(query_example_texts()[i].1[k], threshold),
            query_example_texts()[i].0,
        ),
{
    let groups = query_example_texts();
    if i == 0 {
        if k == 0 {
            assert(groups[0].1[0] == "go to page 3"@);
            lemma_go_to_page_3(threshold);
        } else if k == 1 {
            assert(groups[0].1[1] == "page 5"@);
            lemma_page_5(threshold);
        } else if k == 2 {
            assert(groups[0].1[2] == "page number 2"@);
            lemma_page_number_2(threshold);
        } else {
            assert(groups[0].1[3] == "page three"@);
            lemma_page_three(threshold);
        }
    } else if i == 1 {
        if k == 0 {
            assert(groups[1].1[0] == "go to AGM-65"@);
            lemma_go_to_agm_65(threshold);
        } else if k == 1 {
            assert(groups[1].1[1] == "take me to the maverick section"@);
            lemma_take_me_to_the_maverick_section(threshold);
        } else if k == 2 {
            assert(groups[1].1[2] == "find the JDAM section"@);
            lemma_find_the_jdam_section(threshold);
        } else if k == 3 {
            assert(groups[1].1[3] == "how do I employ the AGM-65"@);
            lemma_how_do_i_employ_the_agm_65(threshold);
        } else {
            assert(groups[1].1[4] == "search for AGM-65 employment"@);
            lemma_search_for_agm_65_employment(threshold);
        }
    } else if i == 2 {
        if k == 0 {
            assert(groups[2].1[0] == "go to the takeoff tab"@);
            lemma_go_to_the_takeoff_tab(threshold);
        } else {
            assert(groups[2].1[1] == "go to the JDAM checklist"@);
            lemma_go_to_the_jdam_checklist(threshold);
        }
    } else {
        if k == 0 {
            assert(groups[3].1[0] == "what sections are in this tab"@);
            lemma_what_sections_are_in_this_tab(threshold);
        } else if k == 1 {
            assert(groups[3].1[1] == "list sections"@);
            lemma_list_sections(threshold);
        } else {
            assert(groups[3].1[2] == "what's in this tab"@);
            lemma_whats_in_this_tab(threshold);
        }
    }
}

} // verus!
