//! What is understood when something is said: page numbers, requests for
//! sections and tabs, and corrections.

use vstd::prelude::*;

use crate::actions::Action;
use crate::asking::is_winner;
use crate::config::SttConfig;
use crate::examples::{
    agrees, lacks, lemma_after_any, lemma_after_prefix, lemma_no_list, lemma_no_prefix,
    lemma_stands, lemma_trim_keeps, sections_mark, this_mark,
};
use crate::numbers::{decimal, law_decimal_reads_back, number_in, unsigned};
use crate::phrase_order::{
    clear_from, cut, lemma_no_phrase_said, lemma_tidy, lemma_word_end, lemma_words,
    lemma_words_of_phrase, mark, pair_row, starts_at, tail_row, tidy, word_end, word_row,
};
use crate::phrases::rules;
use crate::rank::{ahead, law_ranking_exists, lemma_reaching, ranking};
use crate::session::corrected;
use crate::similarity::{is_positive, rounded, similarity_bits};
use crate::text::{
    ends_with, first_index, has_word, is_digit, is_plain, is_space, law_a_word_is_its_only_word,
    law_whitespace_parts_words, lowercase, replace_words, starts_with, trim, word_at, words,
};
use crate::voice_router::{
    after_any, after_how, after_prefix, first_said, flat, fuzzy_action, how_openings, how_verbs,
    is_normal, law_normal_text_stays, meaning, navigation_prefixes, normalised, number_words,
    page_number_at, page_number_from, phrase_at, phrase_scores, query_in, says, says_any,
    section_list_phrases, section_target, small_number, without_article, without_tab_suffix,
    Meaning, QueryMeaning,
};
use crate::word_map::{fires, ordered_rules};

verus! {

// ---------------------------------------------------------------------------
// Numbers
// ---------------------------------------------------------------------------

proof fn lemma_first_index_is(list: Seq<Seq<char>>, s: Seq<char>, k: int)
    requires
        0 <= k < list.len(),
        list[k] == s,
        forall|j: int| 0 <= j < k ==> #[trigger] list[j] != s,
    ensures
        first_index(list, s) == Some(k),
    decreases list.len(),
{
    let before = list.drop_last();
    if k < before.len() {
        assert forall|j: int| 0 <= j < k implies #[trigger] before[j] != s by {
            assert(before[j] == list[j]);
        }
        lemma_first_index_is(before, s, k);
    } else {
        lemma_not_listed(before, s);
    }
}

proof fn lemma_not_listed(list: Seq<Seq<char>>, s: Seq<char>)
    requires
        forall|j: int| 0 <= j < list.len() ==> #[trigger] list[j] != s,
    ensures
        first_index(list, s) is None,
    decreases list.len(),
{
    if list.len() > 0 {
        let before = list.drop_last();
        assert forall|j: int| 0 <= j < before.len() implies #[trigger] before[j] != s by {
            assert(before[j] == list[j]);
        }
        lemma_not_listed(before, s);
        assert(list[list.len() - 1] != s);
    }
}

proof fn lemma_no_number(s: Seq<char>)
    requires
        s.len() > 0,
        'a' <= s[0] <= 'z',
    ensures
        number_in(s) is None,
{
    assert(unsigned(s) == s);
    assert(!is_digit(s[0]));
}

/// Each number word means its own number.
#[verifier::rlimit(40)]
pub proof fn law_number_words_mean_their_numbers()
    ensures
        small_number("one"@) == Some(1u32),
        small_number("two"@) == Some(2u32),
        small_number("three"@) == Some(3u32),
        small_number("four"@) == Some(4u32),
        small_number("five"@) == Some(5u32),
        small_number("six"@) == Some(6u32),
        small_number("seven"@) == Some(7u32),
        small_number("eight"@) == Some(8u32),
        small_number("nine"@) == Some(9u32),
        small_number("ten"@) == Some(10u32),
        small_number("eleven"@) == Some(11u32),
        small_number("twelve"@) == Some(12u32),
{
    reveal_strlit("one");
    reveal_strlit("two");
    reveal_strlit("three");
    reveal_strlit("four");
    reveal_strlit("five");
    reveal_strlit("six");
    reveal_strlit("seven");
    reveal_strlit("eight");
    reveal_strlit("nine");
    reveal_strlit("ten");
    reveal_strlit("eleven");
    reveal_strlit("twelve");
    let list = number_words();
    assert(list[0][0] == 'o' && list[1][0] == 't' && list[2][0] == 't' && list[3][0] == 'f'
        && list[4][0] == 'f' && list[5][0] == 's' && list[6][0] == 's' && list[7][0] == 'e'
        && list[8][0] == 'n' && list[9][0] == 't' && list[10][0] == 'e' && list[11][0] == 't');
    assert(list[1][1] == 'w' && list[2][1] == 'h' && list[3][1] == 'o' && list[4][1] == 'i'
        && list[5][1] == 'i' && list[6][1] == 'e' && list[7][1] == 'i' && list[9][1] == 'e'
        && list[10][1] == 'l' && list[11][1] == 'w');
    assert(list[1].len() == 3 && list[11].len() == 6);
    assert forall|k: int| 0 <= k < 12 implies small_number(#[trigger] list[k]) == Some(
        (k + 1) as u32,
    ) by {
        lemma_no_number(list[k]);
        assert forall|j: int| 0 <= j < k implies #[trigger] list[j] != list[k] by {
            assert(list[j][0] != list[k][0] || list[j][1] != list[k][1] || list[j].len()
                != list[k].len());
        }
        lemma_first_index_is(list, list[k], k);
    }
    assert(list[0] == "one"@ && list[1] == "two"@ && list[2] == "three"@ && list[3] == "four"@
        && list[4] == "five"@ && list[5] == "six"@ && list[6] == "seven"@ && list[7] == "eight"@
        && list[8] == "nine"@ && list[9] == "ten"@ && list[10] == "eleven"@ && list[11]
        == "twelve"@);
}

/// A number in digits means itself; zero is no page number.
pub proof fn law_digits_mean_their_number(n: u32)
    ensures
        n > 0 ==> small_number(decimal(n as nat)) == Some(n),
        n == 0 ==> small_number(decimal(n as nat)) is None,
{
    law_decimal_reads_back(n);
}

// ---------------------------------------------------------------------------
// Pages
// ---------------------------------------------------------------------------

/// The word can be said behind "page" or "number" without being, or ending, a
/// phrase of the table or a request for the sections.
spec fn is_free(m: int) -> bool {
    &&& word_row(m) == 31
    &&& pair_row(0x706167_04, m) == 31
    &&& pair_row(0x6e756d_06, m) == 31
    &&& m != 0x736563_08
    &&& m != 0x746869_04
}

proof fn lemma_tidy_all(t: Seq<char>, k: int)
    requires
        0 <= k <= t.len(),
        forall|i: int|
            0 <= i < t.len() ==> is_plain(#[trigger] t[i]) || (t[i] == ' ' && 0 < i < t.len() - 1
                && t[i - 1] != ' '),
    ensures
        tidy(t, k),
    decreases t.len() - k,
{
    if k < t.len() {
        lemma_tidy_all(t, k + 1);
    }
}

/// What holds of a text of which `head` is the first part and `w` the last word.
proof fn lemma_last_word(head: Seq<char>, w: Seq<char>)
    requires
        head.len() > 0,
        tidy(head, 0),
        w.len() > 0,
        forall|i: int| 0 <= i < w.len() ==> is_plain(#[trigger] w[i]),
    ensures
        ({
            let t = head.push(' ') + w;
            let at = head.len() + 1;
            &&& tidy(t, 0)
            &&& phrase_at(t, head, 0)
            &&& starts_at(t, at as int)
            &&& word_end(t, at as int) == t.len()
            &&& mark(t, at as int) == mark(w, 0)
            &&& words(t) == words(head).push(w)
            &&& is_normal(t)
        }),
{
    let t = head.push(' ') + w;
    let n = head.len() as int;
    let last = n - 1;
    lemma_tidy(head, 0, last);
    lemma_tidy(head, 0, 0);
    assert forall|i: int| 0 <= i < t.len() implies is_plain(#[trigger] t[i]) || (t[i] == ' ' && 0 < i
        < t.len() - 1 && t[i - 1] != ' ') by {
        if i < n {
            assert(t[i] == head[i]);
            lemma_tidy(head, 0, i);
            if i > 0 {
                assert(t[i - 1] == head[i - 1]);
            }
        } else if i == n {
            assert(t[n - 1] == head[n - 1]);
        } else {
            assert(t[i] == w[i - n - 1]);
        }
    }
    lemma_tidy_all(t, 0);
    assert(t.subrange(0, n) =~= head);
    assert(t.subrange(n + 1, t.len() as int) =~= w);
    assert(phrase_at(t, w, n + 1));
    lemma_word_end(w, 0);
    if word_end(w, 0) < w.len() {
        assert(is_plain(w[word_end(w, 0)]));
    }
    lemma_words_of_phrase(t, w, n + 1, 0);
    law_whitespace_parts_words(head, ' ', w);
    assert forall|i: int| 0 <= i < w.len() implies !is_space(#[trigger] w[i]) by {
        assert(is_plain(w[i]));
    }
    law_a_word_is_its_only_word(w);
    assert(words(head) + seq![w] =~= words(head).push(w));
    lemma_words(t);
}

proof fn lemma_page_found(ws: Seq<Seq<char>>, i: int, p: int, n: u32)
    requires
        0 <= i <= p < ws.len(),
        forall|k: int| i <= k < p ==> #[trigger] ws[k] != "page"@,
        page_number_at(ws, p) == Some(n),
    ensures
        page_number_from(ws, i) == Some(n),
    decreases p - i,
{
    if i < p {
        lemma_page_found(ws, i + 1, p, n);
    }
}

proof fn lemma_understood_as_query(t: Seq<char>, q: QueryMeaning, threshold: u64)
    requires
        is_normal(t),
        t.len() > 5,
        first_said(t, rules()) is None,
        query_in(t) == Some(q),
    ensures
        meaning(t, threshold) == Meaning::Query(q),
{
    law_normal_text_stays(t);
    reveal_strlit("start");
    reveal_strlit("go");
}

#[verifier::rlimit(40)]
proof fn lemma_page(w: Seq<char>, n: u32, threshold: u64)
    requires
        w.len() > 0,
        forall|i: int| 0 <= i < w.len() ==> is_plain(#[trigger] w[i]),
        small_number(w) == Some(n),
        w != "number"@,
        is_free(mark(w, 0)),
    ensures
        meaning("page"@.push(' ') + w, threshold) == Meaning::Query(QueryMeaning::Page(n)),
{
    let head = "page"@;
    let t = head.push(' ') + w;
    reveal_strlit("page");
    reveal_with_fuel(word_end, 6);
    assert(tidy(head, 0)) by {
        reveal_with_fuel(tidy, 6);
    }
    lemma_last_word(head, w);
    lemma_words_of_phrase(t, head, 0, 0);
    assert(mark(head, 0) == 0x706167_04);
    assert(clear_from(t, 5, 0x706167_04, 31));
    assert(clear_from(t, 0, 0, 31));
    assert(tail_row(0, 0) == 31);
    lemma_no_phrase_said(t);
    assert(lacks(t, 5, sections_mark()) && lacks(t, 5, this_mark()));
    assert(lacks(t, 0, sections_mark()) && lacks(t, 0, this_mark()));
    lemma_no_list(t);
    assert forall|i: int| 0 <= i < head.len() implies !is_space(#[trigger] head[i]) by {
        lemma_tidy(head, 0, i);
    }
    law_a_word_is_its_only_word(head);
    assert(words(t) =~= seq![head, w]);
    lemma_page_found(words(t), 0, 0, n);
    lemma_understood_as_query(t, QueryMeaning::Page(n), threshold);
}

#[verifier::rlimit(40)]
proof fn lemma_go_to_page(w: Seq<char>, n: u32, threshold: u64)
    requires
        w.len() > 0,
        forall|i: int| 0 <= i < w.len() ==> is_plain(#[trigger] w[i]),
        small_number(w) == Some(n),
        w != "number"@,
        is_free(mark(w, 0)),
    ensures
        meaning("go to page"@.push(' ') + w, threshold) == Meaning::Query(QueryMeaning::Page(n)),
{
    let head = "go to page"@;
    let t = head.push(' ') + w;
    reveal_strlit("go to page");
    reveal_strlit("page");
    assert(word_end(head, 0) == 2 && word_end(head, 3) == 5 && word_end(head, 6) == 10) by {
        reveal_with_fuel(word_end, 6);
    }
    assert(tidy(head, 0)) by {
        reveal_with_fuel(tidy, 12);
    }
    lemma_last_word(head, w);
    lemma_words_of_phrase(t, head, 0, 0);
    lemma_words_of_phrase(t, head, 0, 3);
    lemma_words_of_phrase(t, head, 0, 6);
    assert(clear_from(t, 11, mark(t, 6), 31));
    assert(clear_from(t, 6, mark(t, 3), 31));
    assert(clear_from(t, 3, mark(t, 0), 31));
    assert(clear_from(t, 0, 0, 31));
    assert(tail_row(0, 0) == 31);
    lemma_no_phrase_said(t);
    assert(lacks(t, 11, sections_mark()) && lacks(t, 11, this_mark()));
    assert(lacks(t, 6, sections_mark()) && lacks(t, 6, this_mark()));
    assert(lacks(t, 3, sections_mark()) && lacks(t, 3, this_mark()));
    assert(lacks(t, 0, sections_mark()) && lacks(t, 0, this_mark()));
    lemma_no_list(t);
    lemma_words(head);
    assert(cut(head, 6) =~= seq![head.skip(6)]);
    assert(cut(head, 3) =~= seq![head.subrange(3, 5), head.skip(6)]);
    assert(cut(head, 0) =~= seq![head.subrange(0, 2), head.subrange(3, 5), head.skip(6)]);
    assert(agrees(head, "page"@, 6, 0)) by {
        reveal_with_fuel(agrees, 5);
    }
    lemma_stands(head, "page"@, 6);
    assert(head.skip(6) =~= "page"@);
    let ws = words(t);
    assert(ws[0].len() == 2 && ws[1].len() == 2 && ws[2] == "page"@ && ws[3] == w);
    lemma_page_found(ws, 0, 2, n);
    lemma_understood_as_query(t, QueryMeaning::Page(n), threshold);
}

#[verifier::rlimit(40)]
proof fn lemma_page_number(w: Seq<char>, n: u32, threshold: u64)
    requires
        w.len() > 0,
        forall|i: int| 0 <= i < w.len() ==> is_plain(#[trigger] w[i]),
        small_number(w) == Some(n),
        w != "number"@,
        is_free(mark(w, 0)),
    ensures
        meaning("page number"@.push(' ') + w, threshold) == Meaning::Query(QueryMeaning::Page(n)),
{
    let head = "page number"@;
    let t = head.push(' ') + w;
    reveal_strlit("page number");
    reveal_strlit("page");
    reveal_strlit("number");
    assert(word_end(head, 0) == 4 && word_end(head, 5) == 11) by {
        reveal_with_fuel(word_end, 8);
    }
    assert(tidy(head, 0)) by {
        reveal_with_fuel(tidy, 13);
    }
    lemma_last_word(head, w);
    lemma_words_of_phrase(t, head, 0, 0);
    lemma_words_of_phrase(t, head, 0, 5);
    assert(clear_from(t, 12, mark(t, 5), 31));
    assert(clear_from(t, 5, mark(t, 0), 31));
    assert(clear_from(t, 0, 0, 31));
    assert(tail_row(0, 0) == 31);
    lemma_no_phrase_said(t);
    assert(lacks(t, 12, sections_mark()) && lacks(t, 12, this_mark()));
    assert(lacks(t, 5, sections_mark()) && lacks(t, 5, this_mark()));
    assert(lacks(t, 0, sections_mark()) && lacks(t, 0, this_mark()));
    lemma_no_list(t);
    lemma_words(head);
    assert(cut(head, 5) =~= seq![head.skip(5)]);
    assert(cut(head, 0) =~= seq![head.subrange(0, 4), head.skip(5)]);
    assert(agrees(head, "page"@, 0, 0)) by {
        reveal_with_fuel(agrees, 5);
    }
    lemma_stands(head, "page"@, 0);
    assert(agrees(head, "number"@, 5, 0)) by {
        reveal_with_fuel(agrees, 7);
    }
    lemma_stands(head, "number"@, 5);
    assert(head.skip(5) =~= "number"@);
    let ws = words(t);
    assert(ws[0] == "page"@ && ws[1] == "number"@ && ws[2] == w);
    lemma_page_found(ws, 0, 0, n);
    lemma_understood_as_query(t, QueryMeaning::Page(n), threshold);
}

/// "page", "go to page" and "page number" before the word ask for the page.
#[verifier::opaque]
pub open spec fn asks_for_page(w: Seq<char>, n: u32, threshold: u64) -> bool {
    let page = Meaning::Query(QueryMeaning::Page(n));
    &&& meaning("page"@.push(' ') + w, threshold) == page
    &&& meaning("go to page"@.push(' ') + w, threshold) == page
    &&& meaning("page number"@.push(' ') + w, threshold) == page
}

/// Ten to the power of `k`.
spec fn tens(k: nat) -> nat
    decreases k,
{
    if k == 0 {
        1
    } else {
        10 * tens((k - 1) as nat)
    }
}

proof fn lemma_decimal_len(n: nat, k: nat)
    requires
        k > 0,
        n < tens(k),
    ensures
        0 < decimal(n).len() <= k,
        forall|i: int| 0 <= i < decimal(n).len() ==> '0' <= #[trigger] decimal(n)[i] <= '9',
    decreases n,
{
    if n >= 10 {
        if k == 1 {
            reveal_with_fuel(tens, 2);
        }
        lemma_decimal_len(n / 10, (k - 1) as nat);
        let before = decimal(n / 10);
        assert forall|i: int| 0 <= i < decimal(n).len() implies '0' <= #[trigger] decimal(n)[i]
            <= '9' by {
            if i < before.len() {
                assert(decimal(n)[i] == before[i]);
            }
        }
    }
}

/// Whatever the number, a page is asked for by its number in digits.
pub proof fn law_pages_are_asked_for_by_digits(n: u32, threshold: u64)
    requires
        n > 0,
    ensures
        asks_for_page(decimal(n as nat), n, threshold),
{
    let w = decimal(n as nat);
    assert(tens(10) == 10_000_000_000) by {
        reveal_with_fuel(tens, 11);
    }
    lemma_decimal_len(n as nat, 10);
    law_digits_mean_their_number(n);
    reveal_strlit("number");
    assert(w[0] != "number"@[0]);
    assert forall|i: int| 0 <= i < w.len() implies is_plain(#[trigger] w[i]) by {}
    lemma_word_end(w, 0);
    if word_end(w, 0) < w.len() {
        assert('0' <= w[word_end(w, 0)]);
    }
    let m = mark(w, 0);
    assert(0x30_00_00_00 <= m < 0x3a_00_00_00) by {
        let len = w.len();
        assert(word_end(w, 0) == len);
        assert(len > 1 ==> '0' <= w[1] <= '9');
        assert(len > 2 ==> '0' <= w[2] <= '9');
    }
    assert(is_free(m));
    reveal(asks_for_page);
    lemma_page(w, n, threshold);
    lemma_go_to_page(w, n, threshold);
    lemma_page_number(w, n, threshold);
}

/// A page is asked for by its number word too.
#[verifier::rlimit(40)]
pub proof fn law_pages_are_asked_for_by_number_words(threshold: u64)
    ensures
        asks_for_page("one"@, 1, threshold),
        asks_for_page("two"@, 2, threshold),
        asks_for_page("three"@, 3, threshold),
        asks_for_page("four"@, 4, threshold),
        asks_for_page("five"@, 5, threshold),
        asks_for_page("six"@, 6, threshold),
        asks_for_page("seven"@, 7, threshold),
        asks_for_page("eight"@, 8, threshold),
        asks_for_page("nine"@, 9, threshold),
        asks_for_page("ten"@, 10, threshold),
        asks_for_page("eleven"@, 11, threshold),
        asks_for_page("twelve"@, 12, threshold),
{
    law_number_words_mean_their_numbers();
    assert(asks_for_page("one"@, 1, threshold)) by {
        reveal_strlit("one");
        reveal_with_fuel(word_end, 5);
        reveal_with_fuel(tidy, 5);
        lemma_number_word("one"@, 1, threshold);
    }
    assert(asks_for_page("two"@, 2, threshold)) by {
        reveal_strlit("two");
        reveal_with_fuel(word_end, 5);
        reveal_with_fuel(tidy, 5);
        lemma_number_word("two"@, 2, threshold);
    }
    assert(asks_for_page("three"@, 3, threshold)) by {
        reveal_strlit("three");
        reveal_with_fuel(word_end, 7);
        reveal_with_fuel(tidy, 7);
        lemma_number_word("three"@, 3, threshold);
    }
    assert(asks_for_page("four"@, 4, threshold)) by {
        reveal_strlit("four");
        reveal_with_fuel(word_end, 6);
        reveal_with_fuel(tidy, 6);
        lemma_number_word("four"@, 4, threshold);
    }
    assert(asks_for_page("five"@, 5, threshold)) by {
        reveal_strlit("five");
        reveal_with_fuel(word_end, 6);
        reveal_with_fuel(tidy, 6);
        lemma_number_word("five"@, 5, threshold);
    }
    assert(asks_for_page("six"@, 6, threshold)) by {
        reveal_strlit("six");
        reveal_with_fuel(word_end, 5);
        reveal_with_fuel(tidy, 5);
        lemma_number_word("six"@, 6, threshold);
    }
    assert(asks_for_page("seven"@, 7, threshold)) by {
        reveal_strlit("seven");
        reveal_with_fuel(word_end, 7);
        reveal_with_fuel(tidy, 7);
        lemma_number_word("seven"@, 7, threshold);
    }
    assert(asks_for_page("eight"@, 8, threshold)) by {
        reveal_strlit("eight");
        reveal_with_fuel(word_end, 7);
        reveal_with_fuel(tidy, 7);
        lemma_number_word("eight"@, 8, threshold);
    }
    assert(asks_for_page("nine"@, 9, threshold)) by {
        reveal_strlit("nine");
        reveal_with_fuel(word_end, 6);
        reveal_with_fuel(tidy, 6);
        lemma_number_word("nine"@, 9, threshold);
    }
    assert(asks_for_page("ten"@, 10, threshold)) by {
        reveal_strlit("ten");
        reveal_with_fuel(word_end, 5);
        reveal_with_fuel(tidy, 5);
        lemma_number_word("ten"@, 10, threshold);
    }
    assert(asks_for_page("eleven"@, 11, threshold)) by {
        reveal_strlit("eleven");
        reveal_with_fuel(word_end, 8);
        reveal_with_fuel(tidy, 8);
        lemma_number_word("eleven"@, 11, threshold);
    }
    assert(asks_for_page("twelve"@, 12, threshold)) by {
        reveal_strlit("twelve");
        reveal_with_fuel(word_end, 8);
        reveal_with_fuel(tidy, 8);
        lemma_number_word("twelve"@, 12, threshold);
    }
}

proof fn lemma_number_word(w: Seq<char>, n: u32, threshold: u64)
    requires
        w.len() > 0,
        tidy(w, 0),
        word_end(w, 0) == w.len(),
        w[0] != 'n' || w.len() != 6,
        small_number(w) == Some(n),
        is_free(mark(w, 0)),
    ensures
        asks_for_page(w, n, threshold),
{
    reveal_strlit("number");
    assert("number"@.len() == 6 && "number"@[0] == 'n');
    lemma_word_end(w, 0);
    assert forall|i: int| 0 <= i < w.len() implies is_plain(#[trigger] w[i]) by {
        lemma_tidy(w, 0, i);
    }
    reveal(asks_for_page);
    lemma_page(w, n, threshold);
    lemma_go_to_page(w, n, threshold);
    lemma_page_number(w, n, threshold);
}

// ---------------------------------------------------------------------------
// Sections and tabs
// ---------------------------------------------------------------------------

/// The words with which one asks to be taken somewhere.
pub open spec fn is_request(p: Seq<char>) -> bool {
    ||| p == "take me to "@
    ||| p == "navigate to "@
    ||| p == "search for "@
    ||| p == "show me "@
    ||| p == "jump to "@
    ||| p == "go to "@
    ||| p == "get to "@
    ||| p == "find "@
}

/// The words with which one asks how something is done, before the verb.
pub open spec fn is_how(p: Seq<char>) -> bool {
    p == "how do i "@ || p == "how to "@
}

/// The verbs of such questions.
pub open spec fn is_how_verb(v: Seq<char>) -> bool {
    ||| v == "set up "@
    ||| v == "prepare "@
    ||| v == "configure "@
    ||| v == "employ "@
    ||| v == "prep "@
    ||| v == "fire "@
    ||| v == "set "@
    ||| v == "use "@
    ||| v == "do "@
}

proof fn lemma_differs(s: Seq<char>, n: Seq<char>, k: int)
    requires
        0 <= k < n.len(),
        k < s.len(),
        s[k] != n[k],
    ensures
        !starts_with(s, n),
{
    if starts_with(s, n) {
        assert(s.subrange(0, n.len() as int)[k] == s[k]);
    }
}

proof fn lemma_ends(x: Seq<char>)
    requires
        tidy(x, 0),
        x.len() > 0,
    ensures
        !is_space(x[0]),
        !is_space(x.last()),
        trim(x) == x,
{
    lemma_tidy(x, 0, 0);
    lemma_tidy(x, 0, x.len() - 1);
    lemma_trim_keeps(x);
}

/// What is asked for behind an article, where there is one.
proof fn lemma_behind_article(x: Seq<char>)
    requires
        tidy(x, 0),
        x.len() > 0,
    ensures
        !starts_with(x, "the "@) ==> without_article(x) == x,
        without_article("the "@ + x) == x,
        trim("the "@ + x) == "the "@ + x,
{
    lemma_ends(x);
    reveal_strlit("the ");
    let t = "the "@ + x;
    assert(t.subrange(0, 4) =~= "the "@);
    assert(t.skip(4) =~= x);
    assert(t.last() == x.last());
    assert(t[0] == 't');
    lemma_trim_keeps(t);
}

#[verifier::rlimit(40)]
proof fn lemma_prefixes()
    ensures
        ({
            let list = navigation_prefixes();
            &&& list.len() == 8
            &&& forall|k: int| 0 <= k < 8 ==> (#[trigger] list[k]).len() > 2
            &&& list[0][0] == 't' && list[1][0] == 'n' && list[2][0] == 's' && list[3][0] == 's'
            &&& list[4][0] == 'j' && list[5][0] == 'g' && list[6][0] == 'g' && list[7][0] == 'f'
            &&& list[2][1] == 'e' && list[3][1] == 'h' && list[5][1] == 'o' && list[6][1] == 'e'
        }),
{
    reveal_strlit("take me to ");
    reveal_strlit("navigate to ");
    reveal_strlit("search for ");
    reveal_strlit("show me ");
    reveal_strlit("jump to ");
    reveal_strlit("go to ");
    reveal_strlit("get to ");
    reveal_strlit("find ");
}

proof fn lemma_request(k: int, rest: Seq<char>)
    requires
        0 <= k < 8,
        rest.len() > 0,
        trim(rest) == rest,
    ensures
        section_target(navigation_prefixes()[k] + rest) == Some(without_article(rest)),
{
    let list = navigation_prefixes();
    let p = list[k];
    let t = p + rest;
    lemma_prefixes();
    assert(t.subrange(0, p.len() as int) =~= p);
    assert(t.skip(p.len() as int) =~= rest);
    assert(t[0] == p[0] && t[1] == p[1]);
    assert forall|j: int| 0 <= j < k implies !starts_with(t, #[trigger] list[j]) by {
        if list[j][0] != p[0] {
            lemma_differs(t, list[j], 0);
        } else {
            lemma_differs(t, list[j], 1);
        }
    }
    lemma_after_prefix(t, list, k);
}

/// A request to be taken somewhere names its target: what stands behind it, less
/// an article.
pub proof fn law_requests_name_their_target(p: Seq<char>, x: Seq<char>)
    requires
        is_request(p),
        tidy(x, 0),
        x.len() > 0,
    ensures
        !starts_with(x, "the "@) ==> section_target(p + x) == Some(x),
        section_target(p + ("the "@ + x)) == Some(x),
{
    lemma_ends(x);
    lemma_behind_article(x);
    let list = navigation_prefixes();
    assert(list[0] == "take me to "@ && list[1] == "navigate to "@ && list[2] == "search for "@
        && list[3] == "show me "@ && list[4] == "jump to "@ && list[5] == "go to "@ && list[6]
        == "get to "@ && list[7] == "find "@);
    let k = choose|k: int| 0 <= k < 8 && #[trigger] list[k] == p;
    lemma_request(k, x);
    lemma_request(k, "the "@ + x);
}

#[verifier::rlimit(40)]
proof fn lemma_verbs()
    ensures
        ({
            let list = how_verbs();
            &&& list.len() == 9
            &&& forall|k: int| 0 <= k < 9 ==> (#[trigger] list[k]).len() > 2
            &&& list[0][0] == 's' && list[1][0] == 'p' && list[2][0] == 'c' && list[3][0] == 'e'
            &&& list[4][0] == 'p' && list[5][0] == 'f' && list[6][0] == 's' && list[7][0] == 'u'
            &&& list[8][0] == 'd'
            &&& list[1].len() == 8 && list[1][4] == 'a' && list[4].len() == 5 && list[4][4] == ' '
            &&& list[0].len() == 7 && list[6].len() == 4
            &&& list[0][4] == 'u' && list[0][5] == 'p' && list[0][6] == ' '
        }),
{
    reveal_strlit("set up ");
    reveal_strlit("prepare ");
    reveal_strlit("configure ");
    reveal_strlit("employ ");
    reveal_strlit("prep ");
    reveal_strlit("fire ");
    reveal_strlit("set ");
    reveal_strlit("use ");
    reveal_strlit("do ");
}

/// No verb before the given one begins the text.
proof fn lemma_earlier_verb(k: int, j: int, rest: Seq<char>)
    requires
        0 <= j < k < 9,
        k == 6 ==> !starts_with(rest, "up "@),
    ensures
        !starts_with(how_verbs()[k] + rest, how_verbs()[j]),
{
    let v = how_verbs()[k];
    let w = how_verbs()[j];
    let asked = v + rest;
    lemma_verbs();
    assert(asked[0] == v[0]);
    if w[0] != v[0] {
        lemma_differs(asked, w, 0);
    } else if k == 4 {
        assert(j == 1);
        assert(asked[4] == v[4]);
        lemma_differs(asked, w, 4);
    } else {
        assert(k == 6 && j == 0);
        reveal_strlit("up ");
        if starts_with(asked, w) {
            let part = asked.subrange(0, 7);
            assert(part[4] == asked[4] && part[5] == asked[5] && part[6] == asked[6]);
            assert(asked[4] == rest[0] && asked[5] == rest[1] && asked[6] == rest[2]);
            assert(rest.subrange(0, 3) =~= "up "@);
        }
    }
}

proof fn lemma_verb(k: int, rest: Seq<char>)
    requires
        0 <= k < 9,
        k == 6 ==> !starts_with(rest, "up "@),
    ensures
        after_any(how_verbs()[k] + rest, how_verbs()) == Some(rest),
{
    let verbs = how_verbs();
    let v = verbs[k];
    let asked = v + rest;
    assert(asked.subrange(0, v.len() as int) =~= v);
    assert(asked.skip(v.len() as int) =~= rest);
    assert forall|j: int| 0 <= j < k implies !starts_with(asked, #[trigger] verbs[j]) by {
        lemma_earlier_verb(k, j, rest);
    }
    lemma_after_any(asked, verbs, k);
}

proof fn lemma_opening(o: Seq<char>, asked: Seq<char>, rest: Seq<char>)
    requires
        is_how(o),
        after_any(asked, how_verbs()) == Some(rest),
    ensures
        after_how(o + asked, how_openings()) == Some(rest),
        (o + asked).len() > 0,
        (o + asked)[0] == 'h',
{
    let t = o + asked;
    reveal_strlit("how do i ");
    reveal_strlit("how to ");
    assert(t.subrange(0, o.len() as int) =~= o);
    assert(t.skip(o.len() as int) =~= asked);
    let openings = how_openings();
    assert(openings[0] == "how do i "@ && openings[1] == "how to "@);
    assert(t[4] == o[4] && t[0] == o[0]);
    if o == openings[0] {
        assert(after_how(t, openings) == Some(rest));
    } else {
        lemma_differs(t, openings[0], 4);
        assert(openings.skip(1)[0] == openings[1]);
        assert(after_how(t, openings.skip(1)) == Some(rest));
        assert(after_how(t, openings) == Some(rest));
    }
}

proof fn lemma_no_request(t: Seq<char>)
    requires
        t.len() > 0,
        t[0] == 'h',
    ensures
        after_prefix(t, navigation_prefixes()) is None,
{
    lemma_prefixes();
    let list = navigation_prefixes();
    assert forall|j: int| 0 <= j < list.len() implies !starts_with(t, #[trigger] list[j]) by {
        lemma_differs(t, list[j], 0);
    }
    lemma_no_prefix(t, list);
}

proof fn lemma_how(o: Seq<char>, k: int, rest: Seq<char>)
    requires
        is_how(o),
        0 <= k < 9,
        rest.len() > 0,
        trim(rest) == rest,
        k == 6 ==> !starts_with(rest, "up "@),
    ensures
        section_target(o + (how_verbs()[k] + rest)) == Some(without_article(rest)),
{
    let asked = how_verbs()[k] + rest;
    lemma_verb(k, rest);
    lemma_opening(o, asked, rest);
    lemma_no_request(o + asked);
}

/// A question how something is done names its target: what stands behind the
/// verb, less an article. ("set up" is a verb of its own.)
pub proof fn law_questions_name_their_target(o: Seq<char>, v: Seq<char>, x: Seq<char>)
    requires
        is_how(o),
        is_how_verb(v),
        tidy(x, 0),
        x.len() > 0,
        !starts_with(x, "up "@),
    ensures
        !starts_with(x, "the "@) ==> section_target(o + (v + x)) == Some(x),
        section_target(o + (v + ("the "@ + x))) == Some(x),
{
    lemma_ends(x);
    lemma_behind_article(x);
    let list = how_verbs();
    assert(list[0] == "set up "@ && list[1] == "prepare "@ && list[2] == "configure "@ && list[3]
        == "employ "@ && list[4] == "prep "@ && list[5] == "fire "@ && list[6] == "set "@ && list[7]
        == "use "@ && list[8] == "do "@);
    let k = choose|k: int| 0 <= k < 9 && #[trigger] list[k] == v;
    lemma_how(o, k, x);
    reveal_strlit("the ");
    reveal_strlit("up ");
    lemma_differs("the "@ + x, "up "@, 0);
    lemma_how(o, k, "the "@ + x);
}

/// A target that ends in "tab" or "checklist" names a tab: what stands before the
/// word. Any other names a section.
pub proof fn law_tabs_are_told_from_sections(y: Seq<char>)
    requires
        tidy(y, 0),
        y.len() > 0,
    ensures
        without_tab_suffix(y + " tab"@) == Some(y),
        without_tab_suffix(y + " checklist"@) == Some(y),
        !ends_with(y, " tab"@) && !ends_with(y, " checklist"@) ==> without_tab_suffix(y) is None,
{
    lemma_ends(y);
    reveal_strlit(" tab");
    reveal_strlit(" checklist");
    let a = y + " tab"@;
    assert(a.subrange(a.len() - 4, a.len() as int) =~= " tab"@);
    assert(a.take(a.len() - 4) =~= y);
    let b = y + " checklist"@;
    assert(b.subrange(b.len() - 10, b.len() as int) =~= " checklist"@);
    assert(b.take(b.len() - 10) =~= y);
    if ends_with(b, " tab"@) {
        assert(b.subrange(b.len() - 4, b.len() as int)[3] == b[b.len() - 1]);
    }
}

/// What names a target is understood as a query for that section or tab, where no
/// phrase of the table is said, no page is named and no list is asked for.
pub proof fn law_targets_are_asked_for(t: Seq<char>, x: Seq<char>, threshold: u64)
    requires
        is_normal(t),
        t.len() > 5,
        first_said(t, rules()) is None,
        !says_any(t, section_list_phrases()),
        page_number_from(words(t), 0) is None,
        section_target(t) == Some(x),
    ensures
        meaning(t, threshold) == Meaning::Query(
            match without_tab_suffix(x) {
                Some(tab) => QueryMeaning::Tab(tab),
                None => QueryMeaning::Section(x),
            },
        ),
{
    let q = match without_tab_suffix(x) {
        Some(tab) => QueryMeaning::Tab(tab),
        None => QueryMeaning::Section(x),
    };
    lemma_understood_as_query(t, q, threshold);
}

/// Asking for the list of the sections is understood, whatever is said around it,
/// where no phrase of the table is said.
pub proof fn law_lists_are_asked_for(t: Seq<char>, p: Seq<char>, threshold: u64)
    requires
        is_normal(t),
        t.len() > 5,
        first_said(t, rules()) is None,
        p == "what sections"@ || p == "list sections"@ || p == "list the sections"@ || p
            == "sections in this tab"@ || p == "whats in this tab"@ || p == "what is in this tab"@,
        says(t, p),
    ensures
        meaning(t, threshold) == Meaning::Query(QueryMeaning::Sections),
{
    let list = section_list_phrases();
    assert(list[0] == "what sections"@ && list[1] == "list sections"@ && list[2]
        == "list the sections"@ && list[3] == "sections in this tab"@ && list[4]
        == "whats in this tab"@ && list[5] == "what is in this tab"@);
    let k = choose|k: int| 0 <= k < 6 && #[trigger] list[k] == p;
    assert(says(t, list[k]));
    lemma_understood_as_query(t, QueryMeaning::Sections, threshold);
}

/// "start" and "go" on their own mean to go on.
pub proof fn law_start_and_go_mean_next(t: Seq<char>, threshold: u64)
    requires
        normalised(t) == "start"@ || normalised(t) == "go"@,
    ensures
        meaning(t, threshold) == Meaning::Action(Action::Next),
{
    reveal_strlit("start");
    reveal_strlit("go");
}

/// A phrase of the table is said by a text exactly where it stands in it between
/// spaces or the ends.
pub proof fn law_phrases_are_said_between_spaces(a: Seq<char>, p: Seq<char>, b: Seq<char>)
    requires
        p.len() > 0,
        a.len() == 0 || a.last() == ' ',
        b.len() == 0 || b[0] == ' ',
    ensures
        says(a + p + b, p),
{
    let t = a + p + b;
    let n = a.len() as int;
    assert(t.subrange(n, n + p.len()) =~= p);
    assert(phrase_at(t, p, n));
}

// ---------------------------------------------------------------------------
// The fuzzy match, and corrections
// ---------------------------------------------------------------------------

/// Where the fuzzy match answers, it answers with the action of the phrase that
/// is most like the text, of equals the first, and that reaches the threshold;
/// where it does not, no phrase reaches it.
pub proof fn law_the_most_similar_phrase_is_taken(cleaned: Seq<char>, threshold: u64)
    requires
        is_positive(threshold),
        flat(rules()).len() <= usize::MAX,
    ensures
        ({
            let list = flat(rules());
            let scores = Seq::new(
                list.len(),
                |i: int| rounded(similarity_bits(cleaned, list[i].0)) as u64,
            );
            match fuzzy_action(cleaned, threshold) {
                Some(a) => exists|i: int| #[trigger]
                    is_winner(scores, i) && scores[i] >= rounded(threshold) && a == list[i].1,
                None => forall|i: int|
                    0 <= i < scores.len() ==> (#[trigger] scores[i]) < rounded(threshold),
            }
        }),
{
    let list = flat(rules());
    let scores = Seq::new(
        list.len(),
        |i: int| rounded(similarity_bits(cleaned, list[i].0)) as u64,
    );
    assert(scores =~= phrase_scores(cleaned, list));
    let least = rounded(threshold) as u64;
    assert(rounded(threshold) <= u64::MAX);
    law_ranking_exists(scores);
    lemma_reaching(scores, least, 3);
    let order = ranking(scores);
    if scores.len() > 0 {
        let w = order[0] as int;
        assert forall|j: int| 0 <= j < scores.len() implies (#[trigger] scores[j]) <= scores[w] && (j
            < w ==> scores[j] < scores[w]) by {
            assert(order.contains(j as usize));
            let p = choose|p: int| 0 <= p < order.len() && order[p] == j as usize;
            if p > 0 {
                assert(ahead(scores, order[0], order[p]));
            }
        }
        assert(is_winner(scores, w));
    }
}

/// A correction stands for what it corrects: with the one correction of `k` to
/// `v`, a transcript that is `k`, letter case aside, is taken as `v`. Where no
/// word of it is corrected, a transcript is taken as it was said.
pub proof fn law_a_correction_is_made(said: Seq<char>, k: Seq<char>, v: Seq<char>, stt: SttConfig)
    requires
        stt.corrections@ == seq![(k, v)],
        lowercase(k).len() > 0,
    ensures
        lowercase(said) == lowercase(k) ==> corrected(said, stt) == v,
        (forall|i: int| !word_at(lowercase(said), lowercase(k), i)) ==> corrected(said, stt)
            == said,
{
    let low = lowercase(said);
    let key = lowercase(k);
    let rules = ordered_rules(seq![(k, v)]);
    crate::asking::lemma_one_rule(k, v, low);
    law_ranking_exists(crate::word_map::key_lengths(seq![(k, v)]));
    assert(ranking(crate::word_map::key_lengths(seq![(k, v)]))[0] == 0);
    assert(rules =~= seq![(key, v)]);
    assert(rules[0].0 == key);
    if low == key {
        assert(key.subrange(0, key.len() as int) =~= key);
        assert(word_at(low, rules[0].0, 0));
        assert(fires(low, rules));
        let end = crate::text::replace_words_from(key, key, v, key.len() as int);
        assert(end.len() == 0);
        assert(replace_words(key, key, v) == v + end);
        assert(v + end =~= v);
    }
    if forall|i: int| !word_at(low, key, i) {
        assert(!fires(low, rules)) by {
            assert(rules.len() == 1);
        }
    }
}

/// So is a correction among any others, as long as those stand neither in it nor in
/// what it is corrected to.
pub proof fn law_a_correction_among_others_is_made(said: Seq<char>, stt: SttConfig, i: int)
    requires
        stt.corrections@.len() <= usize::MAX,
        0 <= i < stt.corrections@.len(),
        lowercase(said).len() > 0,
        lowercase(said) == lowercase(stt.corrections@[i].0),
        forall|j: int|
            0 <= j < stt.corrections@.len() && j != i ==> !has_word(
                lowercase(said),
                lowercase((#[trigger] stt.corrections@[j]).0),
            ) && !has_word(stt.corrections@[i].1, lowercase(stt.corrections@[j].0)),
    ensures
        corrected(said, stt) == stt.corrections@[i].1,
{
    let pairs = stt.corrections@;
    let k = lowercase(said);
    let v = pairs[i].1;
    let lengths = crate::word_map::key_lengths(pairs);
    law_ranking_exists(lengths);
    let order = ranking(lengths);
    let rules = ordered_rules(pairs);
    assert(order.contains(i as usize));
    let p = choose|p: int| 0 <= p < order.len() && order[p] == i as usize;
    assert(rules[p] == (k, v));
    assert forall|j: int| 0 <= j < rules.len() && j != p implies !has_word(
        k,
        (#[trigger] rules[j]).0,
    ) && !has_word(v, rules[j].0) by {
        assert(order[j] != order[p]);
        assert(rules[j].0 == lowercase(pairs[order[j] as int].0));
    }
    crate::asking::lemma_only_rule(rules, k, v, p, rules.len() as int);
    assert(rules.take(rules.len() as int) =~= rules);
    assert(k.subrange(0, k.len() as int) =~= k);
    assert(word_at(k, k, 0));
    assert(has_word(k, rules[p].0));
}

} // verus!
