//! From a transcript to what the user wants.
//!
//! There are two layers. The phrase table comes first: phrases anchored to word
//! boundaries, the more specific ones first. Where none of them is said, the
//! transcript is classified as a query: go to a page, a section or a tab, or
//! list the sections. Where that fails too, a fuzzy match against the phrase
//! table gets a last chance.

use vstd::prelude::*;

use crate::actions::Action;
use crate::numbers::{number_in, parse_number};
use crate::phrases::{all_rules, rule_texts, rules, str_texts};
use crate::rank::{best, best_of, law_ranking_exists, lemma_reaching, ranking, reaching};
use crate::similarity::{
    is_positive, law_rounding_keeps_order, positive, rounded, similarity, similarity_bits,
    single_key,
};
use crate::text::{
    alnum, ends_with, first_index, has_word, is_alnum, is_plain, is_space, join, joined,
    law_replacing_an_absent_word_changes_nothing, law_split_undoes_join, law_words_are_words,
    lemma_first_index_prefix, lemma_join_chars, lower, lower_all, lowercase, occurs_at, same, space, split_words, stands_at,
    starts_with, strip_prefix, strip_suffix, texts, to_chars, to_lower, trim, trimmed, upper_all,
    words,
};
use crate::word_map::{
    fires, ordered_rules, pair_texts, rewrite, rewrite_words, rules_of, WordMap,
};

verus! {

// ---------------------------------------------------------------------------
// Types
// ---------------------------------------------------------------------------

/// What the router decided about a transcript.
#[derive(Debug, Clone, PartialEq, Eq)]
pub enum RoutedIntent {
    /// One of the predefined actions.
    Action(Action),
    /// A query that has to be resolved against the loaded content.
    Query(QueryIntent),
    /// Nothing matched.
    Unmatched,
}

/// The queries that the router recognises.
#[derive(Debug, Clone, PartialEq, Eq)]
pub enum QueryIntent {
    /// "search for AGM-65", "how do I employ the maverick": a free-text target.
    NavigateToSection(String),
    /// "get to the takeoff tab": a target that names a tab.
    NavigateToTab(String),
    /// "go to page 3": counted from 1.
    NavigateToPage(u32),
    /// "what sections are in this tab".
    ListSections,
    /// "the second one": honoured only while a list of results is open.
    PickResult(u32),
}

/// What a query means.
pub enum QueryMeaning {
    Section(Seq<char>),
    Tab(Seq<char>),
    Page(u32),
    Sections,
    Pick(u32),
}

/// What a routed intent means.
pub enum Meaning {
    Action(Action),
    Query(QueryMeaning),
    Unmatched,
}

impl View for QueryIntent {
    type V = QueryMeaning;

    open spec fn view(&self) -> QueryMeaning {
        match *self {
            QueryIntent::NavigateToSection(s) => QueryMeaning::Section(s@),
            QueryIntent::NavigateToTab(s) => QueryMeaning::Tab(s@),
            QueryIntent::NavigateToPage(n) => QueryMeaning::Page(n),
            QueryIntent::ListSections => QueryMeaning::Sections,
            QueryIntent::PickResult(n) => QueryMeaning::Pick(n),
        }
    }
}

impl View for RoutedIntent {
    type V = Meaning;

    open spec fn view(&self) -> Meaning {
        match *self {
            RoutedIntent::Action(a) => Meaning::Action(a),
            RoutedIntent::Query(q) => Meaning::Query(q@),
            RoutedIntent::Unmatched => Meaning::Unmatched,
        }
    }
}

// ---------------------------------------------------------------------------
// Normalising
// ---------------------------------------------------------------------------

/// Whitespace, hyphens and underscores separate words.
pub open spec fn is_break(c: char) -> bool {
    is_space(c) || c == '-' || c == '_'
}

/// The letters and digits of a text in lower case, with a space for each
/// character that separates words. All else is dropped.
pub open spec fn spoken_chars(s: Seq<char>) -> Seq<char>
    decreases s.len(),
{
    if s.len() == 0 {
        Seq::empty()
    } else {
        let before = spoken_chars(s.drop_last());
        if is_alnum(s.last()) {
            before.push(lower(s.last()))
        } else if is_break(s.last()) {
            before.push(' ')
        } else {
            before
        }
    }
}

/// The spoken words of a transcript, one space between neighbours.
pub open spec fn normalised(s: Seq<char>) -> Seq<char> {
    join(words(spoken_chars(s)), seq![' '])
}

/// Prepares a transcript for matching: lower case, no punctuation, single
/// spaces between words.
pub fn normalise(s: &str) -> (r: String)
    ensures
        r@ == normalised(s@),
{
    let v = to_chars(s);
    let mut kept = String::new();
    let mut i: usize = 0;
    assert(v@.take(0) =~= Seq::empty());
    while i < v.len()
        invariant
            i <= v.len(),
            kept@ == spoken_chars(v@.take(i as int)),
        decreases v.len() - i,
    {
        assert(v@.take(i + 1).drop_last() =~= v@.take(i as int));
        let c = v[i];
        if alnum(c) {
            kept.push(to_lower(c));
        } else if space(c) || c == '-' || c == '_' {
            kept.push(' ');
        }
        i += 1;
    }
    assert(v@.take(i as int) =~= v@);
    let ws = split_words(kept.as_str());
    proof {
        reveal_strlit(" ");
        assert(" "@ =~= seq![' ']);
    }
    joined(&ws, " ")
}

// ---------------------------------------------------------------------------
// Phrases
// ---------------------------------------------------------------------------

/// `n` stands at `i` between word boundaries: the ends of the text, or spaces.
pub open spec fn phrase_at(h: Seq<char>, n: Seq<char>, i: int) -> bool {
    &&& occurs_at(h, n, i)
    &&& i == 0 || h[i - 1] == ' '
    &&& i + n.len() == h.len() || h[i + n.len()] == ' '
}

/// The text has the phrase in it, between word boundaries.
pub open spec fn says(h: Seq<char>, n: Seq<char>) -> bool {
    n.len() > 0 && exists|i: int| phrase_at(h, n, i)
}

/// The text has one of the phrases in it.
pub open spec fn says_any(h: Seq<char>, ns: Seq<Seq<char>>) -> bool {
    exists|j: int| 0 <= j < ns.len() && says(h, #[trigger] ns[j])
}

/// Whether the phrase stands in the text between word boundaries: "back" is not
/// said by "background".
pub fn contains_phrase(haystack: &str, needle: &str) -> (r: bool)
    ensures
        r == says(haystack@, needle@),
{
    let h = to_chars(haystack);
    let n = to_chars(needle);
    if n.len() == 0 || n.len() > h.len() {
        return false;
    }
    let last: usize = h.len() - n.len();
    let mut i: usize = 0;
    while i <= last
        invariant
            h@ == haystack@,
            n@ == needle@,
            0 < n.len() <= h.len(),
            last == h.len() - n.len(),
            i <= last + 1,
            forall|k: int| 0 <= k < i ==> !phrase_at(h@, n@, k),
        decreases last + 1 - i,
    {
        if stands_at(&h, &n, i) && (i == 0 || h[i - 1] == ' ') && (i + n.len() == h.len() || h[i
            + n.len()] == ' ') {
            assert(phrase_at(h@, n@, i as int));
            return true;
        }
        i += 1;
    }
    false
}

pub fn contains_any(haystack: &str, needles: &'static [&'static str]) -> (r: bool)
    ensures
        r == says_any(haystack@, str_texts(needles@)),
{
    let mut j: usize = 0;
    while j < needles.len()
        invariant
            j <= needles.len(),
            forall|k: int| 0 <= k < j ==> !says(haystack@, #[trigger] str_texts(needles@)[k]),
        decreases needles.len() - j,
    {
        if contains_phrase(haystack, needles[j]) {
            assert(says(haystack@, str_texts(needles@)[j as int]));
            return true;
        }
        j += 1;
    }
    false
}

/// The action of the first rule of which a phrase is said.
pub open spec fn first_said(h: Seq<char>, table: Seq<(Seq<Seq<char>>, Action)>) -> Option<Action>
    decreases table.len(),
{
    if table.len() == 0 {
        None
    } else if says_any(h, table[0].0) {
        Some(table[0].1)
    } else {
        first_said(h, table.skip(1))
    }
}

fn said_action(cleaned: &str) -> (r: Option<Action>)
    ensures
        r == first_said(cleaned@, rules()),
{
    let all = all_rules();
    let ghost table = rules();
    let mut i: usize = 0;
    assert(table.skip(0) =~= table);
    while i < all.len()
        invariant
            i <= all.len(),
            table == rules(),
            rule_texts(all@) == table,
            first_said(cleaned@, table) == first_said(cleaned@, table.skip(i as int)),
        decreases all.len() - i,
    {
        assert(table.skip(i as int)[0] == rule_texts(all@)[i as int]);
        assert(table.skip(i as int).skip(1) =~= table.skip(i + 1));
        let rule = &all[i];
        if contains_any(cleaned, rule.0) {
            return Some(rule.1);
        }
        i += 1;
    }
    None
}

// ---------------------------------------------------------------------------
// Queries
// ---------------------------------------------------------------------------

pub open spec fn section_list_phrases() -> Seq<Seq<char>> {
    seq![
        "what sections"@,
        "list sections"@,
        "list the sections"@,
        "sections in this tab"@,
        "whats in this tab"@,
        "what is in this tab"@,
    ]
}

/// Recognises "what sections are in this tab" and its variants.
pub fn matches_list_sections(cleaned: &str) -> (r: bool)
    ensures
        r == says_any(cleaned@, section_list_phrases()),
{
    let all: &'static [&'static str] = &[
        "what sections",
        "list sections",
        "list the sections",
        "sections in this tab",
        "whats in this tab",
        "what is in this tab",
    ];
    assert(str_texts(all@) =~= section_list_phrases());
    contains_any(cleaned, all)
}

/// The number words, in ascending order from one.
pub open spec fn number_words() -> Seq<Seq<char>> {
    seq![
        "one"@,
        "two"@,
        "three"@,
        "four"@,
        "five"@,
        "six"@,
        "seven"@,
        "eight"@,
        "nine"@,
        "ten"@,
        "eleven"@,
        "twelve"@,
    ]
}

/// The number that a word says: digits, or one of the number words. Zero is no
/// page number.
pub open spec fn small_number(s: Seq<char>) -> Option<u32> {
    match number_in(s) {
        Some(n) => if n > 0 {
            Some(n)
        } else {
            None
        },
        None => match first_index(number_words(), s) {
            Some(i) => Some((i + 1) as u32),
            None => None,
        },
    }
}

/// Reads a positive number from digits ("3") or a number word ("three"), up to
/// twelve.
pub fn parse_small_number(s: &str) -> (r: Option<u32>)
    ensures
        r == small_number(s@),
{
    if let Some(n) = parse_number(s) {
        if n > 0 {
            return Some(n);
        }
        return None;
    }
    let all: &'static [&'static str] = &[
        "one",
        "two",
        "three",
        "four",
        "five",
        "six",
        "seven",
        "eight",
        "nine",
        "ten",
        "eleven",
        "twelve",
    ];
    let ghost list = number_words();
    assert(str_texts(all@) =~= list);
    let mut i: usize = 0;
    assert(list.take(0) =~= Seq::empty());
    while i < all.len()
        invariant
            i <= all.len(),
            all.len() == 12,
            list == number_words(),
            str_texts(all@) == list,
            first_index(list.take(i as int), s@) is None,
            number_in(s@) is None,
        decreases all.len() - i,
    {
        assert(list.take(i + 1).drop_last() =~= list.take(i as int));
        assert(list[i as int] == str_texts(all@)[i as int]);
        if same(all[i], s) {
            proof {
                lemma_first_index_prefix(list, s@, i + 1);
            }
            return Some(i as u32 + 1);
        }
        i += 1;
    }
    assert(list.take(i as int) =~= list);
    None
}

/// The number said right after "page", or after "page number", at word `i`.
pub open spec fn page_number_at(ws: Seq<Seq<char>>, i: int) -> Option<u32> {
    if ws[i] != "page"@ {
        None
    } else {
        let j = if i + 1 < ws.len() && ws[i + 1] == "number"@ {
            i + 2
        } else {
            i + 1
        };
        if j < ws.len() {
            small_number(ws[j])
        } else {
            None
        }
    }
}

/// The first page number from word `i` on.
pub open spec fn page_number_from(ws: Seq<Seq<char>>, i: int) -> Option<u32>
    decreases ws.len() - i,
{
    if i < 0 || i >= ws.len() {
        None
    } else {
        match page_number_at(ws, i) {
            Some(n) => Some(n),
            None => page_number_from(ws, i + 1),
        }
    }
}

/// Recognises "page N", "go to page N" and "page number N". Pages count from 1.
pub fn match_page_query(cleaned: &str) -> (r: Option<u32>)
    ensures
        r == page_number_from(words(cleaned@), 0),
{
    let tokens = split_words(cleaned);
    let ghost ws = words(cleaned@);
    let mut i: usize = 0;
    while i < tokens.len()
        invariant
            i <= tokens.len(),
            ws == words(cleaned@),
            texts(tokens@) == ws,
            page_number_from(ws, 0) == page_number_from(ws, i as int),
        decreases tokens.len() - i,
    {
        assert(ws.len() == tokens.len());
        assert(ws[i as int] == texts(tokens@)[i as int]);
        if same(tokens[i].as_str(), "page") {
            let mut j: usize = i + 1;
            if j < tokens.len() {
                assert(ws[j as int] == texts(tokens@)[j as int]);
                if same(tokens[j].as_str(), "number") {
                    j += 1;
                }
            }
            if j < tokens.len() {
                assert(ws[j as int] == texts(tokens@)[j as int]);
                if let Some(n) = parse_small_number(tokens[j].as_str()) {
                    return Some(n);
                }
            }
        }
        i += 1;
    }
    None
}

/// The text without a leading "the ", and without whitespace at its ends.
pub open spec fn without_article(s: Seq<char>) -> Seq<char> {
    trim(
        if starts_with(s, "the "@) {
            s.skip("the "@.len() as int)
        } else {
            s
        },
    )
}

fn strip_leading_article(s: &str) -> (r: String)
    ensures
        r@ == without_article(s@),
{
    match strip_prefix(s, "the ") {
        Some(rest) => trimmed(rest.as_str()),
        None => trimmed(s),
    }
}

pub open spec fn navigation_prefixes() -> Seq<Seq<char>> {
    seq![
        "take me to "@,
        "navigate to "@,
        "search for "@,
        "show me "@,
        "jump to "@,
        "go to "@,
        "get to "@,
        "find "@,
    ]
}

/// What follows the first of the prefixes that the text starts with and that
/// something follows.
pub open spec fn after_prefix(s: Seq<char>, prefixes: Seq<Seq<char>>) -> Option<Seq<char>>
    decreases prefixes.len(),
{
    if prefixes.len() == 0 {
        None
    } else if starts_with(s, prefixes[0]) && trim(s.skip(prefixes[0].len() as int)).len() > 0 {
        Some(trim(s.skip(prefixes[0].len() as int)))
    } else {
        after_prefix(s, prefixes.skip(1))
    }
}

pub open spec fn how_openings() -> Seq<Seq<char>> {
    seq!["how do i "@, "how to "@]
}

/// The verbs after "how do I" and "how to", with "set up" before "set".
pub open spec fn how_verbs() -> Seq<Seq<char>> {
    seq![
        "set up "@,
        "prepare "@,
        "configure "@,
        "employ "@,
        "prep "@,
        "fire "@,
        "set "@,
        "use "@,
        "do "@,
    ]
}

/// What follows the first of the prefixes that the text starts with, be it
/// nothing.
pub open spec fn after_any(s: Seq<char>, prefixes: Seq<Seq<char>>) -> Option<Seq<char>>
    decreases prefixes.len(),
{
    if prefixes.len() == 0 {
        None
    } else if starts_with(s, prefixes[0]) {
        Some(s.skip(prefixes[0].len() as int))
    } else {
        after_any(s, prefixes.skip(1))
    }
}

/// What follows the first of the openings and a verb after it.
pub open spec fn after_how(s: Seq<char>, openings: Seq<Seq<char>>) -> Option<Seq<char>>
    decreases openings.len(),
{
    if openings.len() == 0 {
        None
    } else {
        let here = if starts_with(s, openings[0]) {
            after_any(s.skip(openings[0].len() as int), how_verbs())
        } else {
            None
        };
        match here {
            Some(rest) => Some(rest),
            None => after_how(s, openings.skip(1)),
        }
    }
}

/// The target of a request to go to a section.
pub open spec fn section_target(s: Seq<char>) -> Option<Seq<char>> {
    match after_prefix(s, navigation_prefixes()) {
        Some(rest) => Some(without_article(rest)),
        None => match after_how(s, how_openings()) {
            Some(rest) => if trim(rest).len() > 0 {
                Some(without_article(trim(rest)))
            } else {
                None
            },
            None => None,
        },
    }
}

fn strip_navigation_prefix(s: &str) -> (r: Option<String>)
    ensures
        match r {
            Some(t) => after_prefix(s@, navigation_prefixes()) == Some(t@),
            None => after_prefix(s@, navigation_prefixes()) is None,
        },
{
    let all: &'static [&'static str] = &[
        "take me to ",
        "navigate to ",
        "search for ",
        "show me ",
        "jump to ",
        "go to ",
        "get to ",
        "find ",
    ];
    let ghost list = navigation_prefixes();
    assert(str_texts(all@) =~= list);
    let mut i: usize = 0;
    assert(list.skip(0) =~= list);
    while i < all.len()
        invariant
            i <= all.len(),
            str_texts(all@) == list,
            after_prefix(s@, navigation_prefixes()) == after_prefix(s@, list.skip(i as int)),
        decreases all.len() - i,
    {
        assert(list.len() == all.len());
        assert(list[i as int] == str_texts(all@)[i as int]);
        assert(list.skip(i as int).skip(1) =~= list.skip(i + 1));
        if let Some(rest) = strip_prefix(s, all[i]) {
            let rest = trimmed(rest.as_str());
            if rest.as_str().unicode_len() > 0 {
                return Some(rest);
            }
        }
        i += 1;
    }
    None
}

fn strip_any(s: &str, all: &'static [&'static str]) -> (r: Option<String>)
    ensures
        match r {
            Some(t) => after_any(s@, str_texts(all@)) == Some(t@),
            None => after_any(s@, str_texts(all@)) is None,
        },
{
    let ghost list = str_texts(all@);
    let mut i: usize = 0;
    assert(list.skip(0) =~= list);
    while i < all.len()
        invariant
            i <= all.len(),
            str_texts(all@) == list,
            after_any(s@, list) == after_any(s@, list.skip(i as int)),
        decreases all.len() - i,
    {
        assert(list.len() == all.len());
        assert(list[i as int] == str_texts(all@)[i as int]);
        assert(list.skip(i as int).skip(1) =~= list.skip(i + 1));
        if let Some(rest) = strip_prefix(s, all[i]) {
            return Some(rest);
        }
        i += 1;
    }
    None
}

fn strip_how_prefix(s: &str) -> (r: Option<String>)
    ensures
        match r {
            Some(t) => after_how(s@, how_openings()) == Some(t@),
            None => after_how(s@, how_openings()) is None,
        },
{
    let openings: &'static [&'static str] = &["how do i ", "how to "];
    let verbs: &'static [&'static str] = &[
        "set up ",
        "prepare ",
        "configure ",
        "employ ",
        "prep ",
        "fire ",
        "set ",
        "use ",
        "do ",
    ];
    let ghost list = how_openings();
    assert(str_texts(openings@) =~= list);
    assert(str_texts(verbs@) =~= how_verbs());
    let mut i: usize = 0;
    assert(list.skip(0) =~= list);
    while i < openings.len()
        invariant
            i <= openings.len(),
            str_texts(openings@) == list,
            str_texts(verbs@) == how_verbs(),
            after_how(s@, how_openings()) == after_how(s@, list.skip(i as int)),
        decreases openings.len() - i,
    {
        assert(list.len() == openings.len());
        assert(list[i as int] == str_texts(openings@)[i as int]);
        assert(list.skip(i as int).skip(1) =~= list.skip(i + 1));
        if let Some(rest) = strip_prefix(s, openings[i]) {
            if let Some(target) = strip_any(rest.as_str(), verbs) {
                return Some(target);
            }
        }
        i += 1;
    }
    None
}

/// Recognises "go to X", "how do I employ X" and the like, and gives the target.
pub fn match_section_query(cleaned: &str) -> (r: Option<String>)
    ensures
        match r {
            Some(t) => section_target(cleaned@) == Some(t@),
            None => section_target(cleaned@) is None,
        },
{
    if let Some(rest) = strip_navigation_prefix(cleaned) {
        return Some(strip_leading_article(rest.as_str()));
    }
    if let Some(rest) = strip_how_prefix(cleaned) {
        let rest = trimmed(rest.as_str());
        if rest.as_str().unicode_len() > 0 {
            return Some(strip_leading_article(rest.as_str()));
        }
    }
    None
}

/// The target without a final word that says it is a tab.
pub open spec fn without_tab_suffix(s: Seq<char>) -> Option<Seq<char>> {
    if ends_with(s, " tab"@) && trim(s.take(s.len() - " tab"@.len())).len() > 0 {
        Some(trim(s.take(s.len() - " tab"@.len())))
    } else if ends_with(s, " checklist"@) && trim(
        s.take(s.len() - " checklist"@.len()),
    ).len() > 0 {
        Some(trim(s.take(s.len() - " checklist"@.len())))
    } else {
        None
    }
}

/// Recognises "X tab" and "X checklist" and gives X.
pub fn strip_tab_suffix(s: &str) -> (r: Option<String>)
    ensures
        match r {
            Some(t) => without_tab_suffix(s@) == Some(t@),
            None => without_tab_suffix(s@) is None,
        },
{
    if let Some(head) = strip_suffix(s, " tab") {
        let head = trimmed(head.as_str());
        if head.as_str().unicode_len() > 0 {
            return Some(head);
        }
    }
    if let Some(head) = strip_suffix(s, " checklist") {
        let head = trimmed(head.as_str());
        if head.as_str().unicode_len() > 0 {
            return Some(head);
        }
    }
    None
}

/// What a normalised transcript asks for, where it is a query.
pub open spec fn query_in(cleaned: Seq<char>) -> Option<QueryMeaning> {
    if says_any(cleaned, section_list_phrases()) {
        Some(QueryMeaning::Sections)
    } else {
        match page_number_from(words(cleaned), 0) {
            Some(n) => Some(QueryMeaning::Page(n)),
            None => match section_target(cleaned) {
                Some(target) => match without_tab_suffix(target) {
                    Some(tab) => Some(QueryMeaning::Tab(tab)),
                    None => Some(QueryMeaning::Section(target)),
                },
                None => None,
            },
        }
    }
}

/// Tries the recognisers, the more specific ones first: the list of sections,
/// a page, then a tab or a section.
pub fn classify_query(cleaned: &str) -> (r: Option<QueryIntent>)
    ensures
        match r {
            Some(q) => query_in(cleaned@) == Some(q@),
            None => query_in(cleaned@) is None,
        },
{
    if matches_list_sections(cleaned) {
        return Some(QueryIntent::ListSections);
    }
    if let Some(n) = match_page_query(cleaned) {
        return Some(QueryIntent::NavigateToPage(n));
    }
    if let Some(target) = match_section_query(cleaned) {
        if let Some(tab) = strip_tab_suffix(target.as_str()) {
            return Some(QueryIntent::NavigateToTab(tab));
        }
        return Some(QueryIntent::NavigateToSection(target));
    }
    None
}

// ---------------------------------------------------------------------------
// Fuzzy matching
// ---------------------------------------------------------------------------

/// Every phrase of the table with its action, in the order of the table.
pub open spec fn flat(table: Seq<(Seq<Seq<char>>, Action)>) -> Seq<(Seq<char>, Action)>
    decreases table.len(),
{
    if table.len() == 0 {
        Seq::empty()
    } else {
        let last = table.last();
        flat(table.drop_last()) + Seq::new(last.0.len(), |j: int| (last.0[j], last.1))
    }
}

/// The texts and actions of a list of phrases.
pub open spec fn phrase_texts(v: Seq<(&'static str, Action)>) -> Seq<(Seq<char>, Action)> {
    Seq::new(v.len(), |i: int| (v[i].0@, v[i].1))
}

/// Every phrase of the table with its action, in the order of the table.
pub fn all_phrases() -> (r: Vec<(&'static str, Action)>)
    ensures
        phrase_texts(r@) == flat(rules()),
{
    let all = all_rules();
    let ghost table = rules();
    let mut out: Vec<(&'static str, Action)> = Vec::new();
    let mut i: usize = 0;
    assert(table.take(0) =~= Seq::empty());
    assert(phrase_texts(out@) =~= Seq::empty());
    while i < all.len()
        invariant
            i <= all.len(),
            rule_texts(all@) == table,
            phrase_texts(out@) == flat(table.take(i as int)),
        decreases all.len() - i,
    {
        assert(table.len() == all.len());
        assert(table.take(i + 1).drop_last() =~= table.take(i as int));
        let ghost done = phrase_texts(out@);
        let ghost row = table[i as int];
        assert(row == rule_texts(all@)[i as int]);
        let phrases = all[i].0;
        let action = all[i].1;
        let mut j: usize = 0;
        let ghost here = Seq::new(row.0.len(), |k: int| (row.0[k], row.1));
        assert(done + here.take(0) =~= done);
        while j < phrases.len()
            invariant
                j <= phrases.len(),
                row.0 == str_texts(phrases@),
                row.1 == action,
                here == Seq::new(row.0.len(), |k: int| (row.0[k], row.1)),
                phrase_texts(out@) == done + here.take(j as int),
            decreases phrases.len() - j,
        {
            let ghost before = phrase_texts(out@);
            out.push((phrases[j], action));
            assert(phrase_texts(out@) =~= before.push(here[j as int]));
            j += 1;
            assert(before.push(here[j - 1]) =~= done + here.take(j as int));
        }
        assert(here.take(j as int) =~= here);
        i += 1;
    }
    assert(table.take(i as int) =~= table);
    out
}

/// How alike the text is to each phrase, as keys to compare by.
pub open spec fn phrase_scores(cleaned: Seq<char>, list: Seq<(Seq<char>, Action)>) -> Seq<u64> {
    Seq::new(list.len(), |i: int| rounded(similarity_bits(cleaned, list[i].0)) as u64)
}

pub fn score_phrases(cleaned: &str) -> (r: Vec<u64>)
    ensures
        r@ == phrase_scores(cleaned@, flat(rules())),
{
    let list = all_phrases();
    let ghost flat_list = flat(rules());
    let mut r: Vec<u64> = Vec::new();
    let mut i: usize = 0;
    while i < list.len()
        invariant
            i <= list.len(),
            phrase_texts(list@) == flat_list,
            r.len() == i,
            forall|k: int|
                0 <= k < i ==> #[trigger] r@[k] == rounded(
                    similarity_bits(cleaned@, flat_list[k].0),
                ),
        decreases list.len() - i,
    {
        assert(flat_list[i as int] == phrase_texts(list@)[i as int]);
        r.push(single_key(similarity(cleaned, list[i].0)));
        i += 1;
    }
    assert(r@ =~= phrase_scores(cleaned@, flat_list));
    r
}

/// One candidate of a fuzzy match.
#[derive(Debug, Clone, Copy, PartialEq, Eq)]
pub struct FuzzyMatch {
    pub action: Action,
    /// How alike the phrase is, as a key to compare by.
    pub score: u64,
    pub phrase: &'static str,
}

/// The candidate is the phrase at `i` of the list, with its score.
pub open spec fn is_candidate(
    m: FuzzyMatch,
    list: Seq<(Seq<char>, Action)>,
    scores: Seq<u64>,
    i: usize,
) -> bool {
    &&& m.phrase@ == list[i as int].0
    &&& m.action == list[i as int].1
    &&& m.score == scores[i as int]
}

/// Picks, of all phrases with the given scores, the at most `n` best that reach
/// the threshold, the best first, equals in the order of the table.
pub fn pick_phrases(scores: &Vec<u64>, threshold: u64, n: usize) -> (r: Vec<FuzzyMatch>)
    requires
        scores.len() == flat(rules()).len(),
    ensures
        r.len() == best(scores@, threshold, n as nat).len(),
        forall|p: int|
            0 <= p < r.len() ==> is_candidate(
                #[trigger] r@[p],
                flat(rules()),
                scores@,
                best(scores@, threshold, n as nat)[p],
            ),
{
    let list = all_phrases();
    let ghost flat_list = flat(rules());
    let chosen = best_of(scores, threshold, n);
    let mut r: Vec<FuzzyMatch> = Vec::new();
    let mut p: usize = 0;
    while p < chosen.len()
        invariant
            p <= chosen.len(),
            r.len() == p,
            phrase_texts(list@) == flat_list,
            scores.len() == flat_list.len(),
            forall|k: int| 0 <= k < chosen.len() ==> (#[trigger] chosen@[k]) < scores.len(),
            forall|k: int|
                0 <= k < p ==> is_candidate(#[trigger] r@[k], flat_list, scores@, chosen@[k]),
        decreases chosen.len() - p,
    {
        let i: usize = chosen[p];
        assert(flat_list.len() == list.len());
        assert(flat_list[i as int] == phrase_texts(list@)[i as int]);
        r.push(FuzzyMatch { action: list[i].1, score: scores[i], phrase: list[i].0 });
        p += 1;
    }
    r
}

/// The phrases most like the text: the at most `n` best that reach the
/// threshold. The threshold is the bit pattern of a number in double precision;
/// nothing matches where it is not above zero.
pub fn fuzzy_match_actions(cleaned: &str, threshold: u64, n: usize) -> (r: Vec<FuzzyMatch>)
    ensures
        (cleaned@.len() == 0 || !is_positive(threshold)) ==> r.len() == 0,
        cleaned@.len() > 0 && is_positive(threshold) ==> {
            let scores = phrase_scores(cleaned@, flat(rules()));
            let chosen = best(scores, rounded(threshold) as u64, n as nat);
            &&& r.len() == chosen.len()
            &&& forall|p: int|
                0 <= p < r.len() ==> is_candidate(
                    #[trigger] r@[p],
                    flat(rules()),
                    scores,
                    chosen[p],
                )
        },
{
    if cleaned.unicode_len() == 0 || !positive(threshold) {
        return Vec::new();
    }
    let scores = score_phrases(cleaned);
    pick_phrases(&scores, single_key(threshold), n)
}

// ---------------------------------------------------------------------------
// Routing
// ---------------------------------------------------------------------------

/// The action of the phrase most like the text, where it reaches the threshold.
pub open spec fn fuzzy_action(cleaned: Seq<char>, threshold: u64) -> Option<Action> {
    let scores = phrase_scores(cleaned, flat(rules()));
    let chosen = best(scores, rounded(threshold) as u64, 3);
    if is_positive(threshold) && chosen.len() > 0 {
        Some(flat(rules())[chosen[0] as int].1)
    } else {
        None
    }
}

/// What a normalised transcript means without fuzzy matching. A lone "start" or
/// "go" means `Next`: they would mask longer commands in the phrase table.
pub open spec fn exact_meaning(cleaned: Seq<char>) -> Meaning {
    if cleaned.len() == 0 {
        Meaning::Unmatched
    } else if cleaned == "start"@ || cleaned == "go"@ {
        Meaning::Action(Action::Next)
    } else {
        match first_said(cleaned, rules()) {
            Some(a) => Meaning::Action(a),
            None => match query_in(cleaned) {
                Some(q) => Meaning::Query(q),
                None => Meaning::Unmatched,
            },
        }
    }
}

/// What a transcript means.
pub open spec fn meaning(transcript: Seq<char>, threshold: u64) -> Meaning {
    let cleaned = normalised(transcript);
    let exact = exact_meaning(cleaned);
    if cleaned.len() > 0 && exact is Unmatched {
        match fuzzy_action(cleaned, threshold) {
            Some(a) => Meaning::Action(a),
            None => Meaning::Unmatched,
        }
    } else {
        exact
    }
}

/// Routes a normalised transcript by the phrase table and the query
/// recognisers alone.
pub fn route_exact(cleaned: &str) -> (r: RoutedIntent)
    ensures
        r@ == exact_meaning(cleaned@),
{
    if cleaned.unicode_len() == 0 {
        return RoutedIntent::Unmatched;
    }
    if same(cleaned, "start") || same(cleaned, "go") {
        return RoutedIntent::Action(Action::Next);
    }
    if let Some(action) = said_action(cleaned) {
        return RoutedIntent::Action(action);
    }
    match classify_query(cleaned) {
        Some(query) => RoutedIntent::Query(query),
        None => RoutedIntent::Unmatched,
    }
}

/// Routes a transcript. The threshold of the fuzzy match is the bit pattern of
/// a number in double precision; zero turns the fuzzy match off.
pub fn route_with_fuzzy(transcript: &str, fuzzy_threshold: u64) -> (r: RoutedIntent)
    ensures
        r@ == meaning(transcript@, fuzzy_threshold),
{
    let cleaned = normalise(transcript);
    let exact = route_exact(cleaned.as_str());
    if let RoutedIntent::Unmatched = exact {
        if cleaned.as_str().unicode_len() > 0 {
            let candidates = fuzzy_match_actions(cleaned.as_str(), fuzzy_threshold, 3);
            if candidates.len() > 0 {
                return RoutedIntent::Action(candidates[0].action);
            }
        }
        return RoutedIntent::Unmatched;
    }
    exact
}

// ---------------------------------------------------------------------------
// Corrections
// ---------------------------------------------------------------------------

/// Applies correction rules, in their order, to a transcript in lower case.
/// `None` where no rule applies: no key stands in the text as a whole word.
pub fn correct(lower_text: &str, table: &Vec<(String, String)>) -> (r: Option<String>)
    ensures
        match r {
            Some(t) => fires(lower_text@, pair_texts(table@)) && t@ == rewrite(
                lower_text@,
                pair_texts(table@),
            ),
            None => !fires(lower_text@, pair_texts(table@)),
        },
{
    let (out, fired) = rewrite_words(lower_text, table);
    if fired {
        Some(out)
    } else {
        None
    }
}

/// Corrects a raw transcript before it is routed: each key of the table, as a
/// whole word, is replaced by its value, longest key first, in lower case.
/// `None` where no rule applies: no key stands in the text as a whole word.
pub fn apply_corrections(transcript: &str, corrections: &WordMap) -> (r: Option<String>)
    ensures
        match r {
            Some(t) => fires(lowercase(transcript@), ordered_rules(corrections@)) && t@
                == rewrite(lowercase(transcript@), ordered_rules(corrections@)),
            None => !fires(lowercase(transcript@), ordered_rules(corrections@)),
        },
{
    let table = rules_of(corrections);
    let lower_text = transcript.to_lowercase();
    correct(lower_text.as_str(), &table)
}

// ---------------------------------------------------------------------------
// Laws
// ---------------------------------------------------------------------------

/// Lower-case letters and digits in words that are separated by single spaces,
/// with none at the ends.
pub open spec fn is_normal(s: Seq<char>) -> bool {
    &&& forall|i: int| 0 <= i < s.len() ==> is_plain(#[trigger] s[i]) || s[i] == ' '
    &&& s == join(words(s), seq![' '])
}

proof fn lemma_spoken_chars(s: Seq<char>)
    ensures
        forall|i: int|
            0 <= i < spoken_chars(s).len() ==> is_plain(#[trigger] spoken_chars(s)[i])
                || spoken_chars(s)[i] == ' ',
    decreases s.len(),
{
    if s.len() > 0 {
        lemma_spoken_chars(s.drop_last());
        let before = spoken_chars(s.drop_last());
        assert forall|i: int| 0 <= i < spoken_chars(s).len() implies is_plain(
            #[trigger] spoken_chars(s)[i],
        ) || spoken_chars(s)[i] == ' ' by {
            if i < before.len() {
                assert(spoken_chars(s)[i] == before[i]);
            }
        }
    }
}

proof fn lemma_spoken_chars_keep(s: Seq<char>)
    requires
        forall|i: int| 0 <= i < s.len() ==> is_plain(#[trigger] s[i]) || s[i] == ' ',
    ensures
        spoken_chars(s) == s,
    decreases s.len(),
{
    if s.len() > 0 {
        let p = s.drop_last();
        assert forall|i: int| 0 <= i < p.len() implies is_plain(#[trigger] p[i]) || p[i] == ' ' by {
            assert(p[i] == s[i]);
        }
        lemma_spoken_chars_keep(p);
        assert(is_plain(s[s.len() - 1]) || s[s.len() - 1] == ' ');
        assert(s =~= p.push(s.last()));
    }
}

/// Normalised text holds only lower-case letters, digits and single spaces
/// between words, whatever was said.
pub proof fn law_normalised_is_normal(s: Seq<char>)
    ensures
        is_normal(normalised(s)),
{
    let chars = spoken_chars(s);
    let ws = words(chars);
    let t = normalised(s);
    lemma_spoken_chars(s);
    law_words_are_words(chars);
    law_split_undoes_join(ws);
    assert forall|i: int| 0 <= i < t.len() implies is_plain(#[trigger] t[i]) || t[i] == ' ' by {
        lemma_join_chars(ws, ' ', i);
        if t[i] != ' ' {
            let (j, k) = choose|j: int, k: int|
                0 <= j < ws.len() && 0 <= k < ws[j].len() && #[trigger] ws[j][k] == t[i];
            assert(chars.contains(ws[j][k]));
        }
    }
}

/// Normalising normal text leaves it as it is.
pub proof fn law_normal_text_stays(s: Seq<char>)
    requires
        is_normal(s),
    ensures
        normalised(s) == s,
{
    lemma_spoken_chars_keep(s);
}

/// Normalising twice is normalising once.
pub proof fn law_normalise_twice(s: Seq<char>)
    ensures
        normalised(normalised(s)) == normalised(s),
{
    law_normalised_is_normal(s);
    law_normal_text_stays(normalised(s));
}

/// A transcript routes the same way whatever the case of its letters.
pub proof fn law_case_does_not_matter(s: Seq<char>, threshold: u64)
    ensures
        meaning(upper_all(s), threshold) == meaning(s, threshold),
        meaning(lower_all(s), threshold) == meaning(s, threshold),
{
    lemma_case_does_not_matter(s);
}

proof fn lemma_case_does_not_matter(s: Seq<char>)
    ensures
        spoken_chars(upper_all(s)) == spoken_chars(s),
        spoken_chars(lower_all(s)) == spoken_chars(s),
    decreases s.len(),
{
    if s.len() > 0 {
        lemma_case_does_not_matter(s.drop_last());
        assert(upper_all(s).drop_last() =~= upper_all(s.drop_last()));
        assert(lower_all(s).drop_last() =~= lower_all(s.drop_last()));
    }
}

/// Punctuation that does not separate words never changes how a transcript
/// routes.
pub proof fn law_punctuation_does_not_matter(a: Seq<char>, c: char, b: Seq<char>, threshold: u64)
    requires
        !is_alnum(c),
        !is_break(c),
    ensures
        meaning(a.push(c) + b, threshold) == meaning(a + b, threshold),
{
    lemma_dropped(a, c, b);
}

proof fn lemma_dropped(a: Seq<char>, c: char, b: Seq<char>)
    requires
        !is_alnum(c),
        !is_break(c),
    ensures
        spoken_chars(a.push(c) + b) == spoken_chars(a + b),
    decreases b.len(),
{
    if b.len() == 0 {
        assert(a.push(c) + b =~= a.push(c));
        assert(a + b =~= a);
        assert(a.push(c).drop_last() =~= a);
    } else {
        lemma_dropped(a, c, b.drop_last());
        assert((a.push(c) + b).drop_last() =~= a.push(c) + b.drop_last());
        assert((a + b).drop_last() =~= a + b.drop_last());
    }
}

/// The fuzzy match never overrides what the phrase table or a query recogniser
/// found.
pub proof fn law_exact_beats_fuzzy(transcript: Seq<char>, threshold: u64)
    requires
        exact_meaning(normalised(transcript)) !is Unmatched,
    ensures
        meaning(transcript, threshold) == exact_meaning(normalised(transcript)),
{
}

/// A threshold of zero, or one that is no positive number, turns the fuzzy
/// match off.
pub proof fn law_no_threshold_no_fuzzy(transcript: Seq<char>, threshold: u64)
    requires
        !is_positive(threshold),
    ensures
        meaning(transcript, threshold) == exact_meaning(normalised(transcript)),
{
}

proof fn lemma_flat_length(table: Seq<(Seq<Seq<char>>, Action)>)
    requires
        forall|i: int| 0 <= i < table.len() ==> (#[trigger] table[i]).0.len() <= 16,
    ensures
        flat(table).len() <= 16 * table.len(),
    decreases table.len(),
{
    if table.len() > 0 {
        let rest = table.drop_last();
        assert forall|i: int| 0 <= i < rest.len() implies (#[trigger] rest[i]).0.len() <= 16 by {
            assert(rest[i] == table[i]);
        }
        lemma_flat_length(rest);
        assert(table[table.len() - 1].0.len() <= 16);
    }
}

/// Lowering the threshold of the fuzzy match loses no match.
pub proof fn law_lower_threshold_keeps_matches(transcript: Seq<char>, high: u64, low: u64)
    requires
        is_positive(low),
        low <= high,
        is_positive(high),
    ensures
        meaning(transcript, high) !is Unmatched ==> meaning(transcript, low) == meaning(
            transcript,
            high,
        ),
{
    let cleaned = normalised(transcript);
    let scores = phrase_scores(cleaned, flat(rules()));
    law_rounding_keeps_order(low, high);
    assert(rules().len() == 31);
    assert forall|i: int| 0 <= i < rules().len() implies (#[trigger] rules()[i]).0.len() <= 16 by {}
    lemma_flat_length(rules());
    let lo = rounded(low) as u64;
    let hi = rounded(high) as u64;
    assert(rounded(low) <= rounded(high) <= u64::MAX);
    lemma_reaching(scores, hi, 3);
    lemma_reaching(scores, lo, 3);
    if reaching(scores, hi, 3) > 0 && reaching(scores, lo, 3) == 0 {
        assert(scores[ranking(scores)[0] as int] >= hi);
        assert(scores[ranking(scores)[0] as int] < lo);
    }
    law_ranking_exists(scores);
}

/// An action phrase wins over a query: where a phrase of the table is said, the
/// transcript is never taken for a query.
pub proof fn law_actions_before_queries(transcript: Seq<char>, threshold: u64)
    requires
        first_said(normalised(transcript), rules()) is Some,
    ensures
        meaning(transcript, threshold) is Action,
{
    lemma_nothing_said_by_nothing(rules());
    if normalised(transcript).len() == 0 {
        assert(normalised(transcript) =~= Seq::empty());
    }
}

proof fn lemma_nothing_said_by_nothing(table: Seq<(Seq<Seq<char>>, Action)>)
    ensures
        first_said(Seq::empty(), table) is None,
    decreases table.len(),
{
    if table.len() > 0 {
        lemma_nothing_said_by_nothing(table.skip(1));
    }
}

/// Where two rules of the table are said, the one that stands first wins.
pub proof fn law_first_rule_wins(
    h: Seq<char>,
    table: Seq<(Seq<Seq<char>>, Action)>,
    i: int,
)
    requires
        0 <= i < table.len(),
        says_any(h, table[i].0),
        forall|j: int| 0 <= j < i ==> !says_any(h, (#[trigger] table[j]).0),
    ensures
        first_said(h, table) == Some(table[i].1),
    decreases table.len(),
{
    if i > 0 {
        assert(!says_any(h, table[0].0));
        let rest = table.skip(1);
        assert(rest[i - 1] == table[i]);
        assert forall|j: int| 0 <= j < i - 1 implies !says_any(h, (#[trigger] rest[j]).0) by {
            assert(rest[j] == table[j + 1]);
        }
        law_first_rule_wins(h, rest, i - 1);
    }
}

/// An empty table corrects nothing.
pub proof fn law_empty_table_corrects_nothing(text: Seq<char>)
    ensures
        !fires(text, ordered_rules(Seq::empty())),
        rewrite(text, ordered_rules(Seq::empty())) == text,
{
}

/// A table of which no key stands in the text as a whole word leaves the text
/// as it is and reports that no rule applied.
pub proof fn law_absent_keys_change_nothing(text: Seq<char>, table: Seq<(Seq<char>, Seq<char>)>)
    requires
        forall|j: int| 0 <= j < table.len() ==> !has_word(text, (#[trigger] table[j]).0),
    ensures
        rewrite(text, table) == text,
        !fires(text, table),
{
    assert forall|n: int| 0 <= n <= table.len() implies #[trigger] rewrite(text, table.take(n))
        == text by {
        lemma_absent_keys(text, table, n);
    }
    assert(table.take(table.len() as int) =~= table);
}

proof fn lemma_absent_keys(text: Seq<char>, table: Seq<(Seq<char>, Seq<char>)>, n: int)
    requires
        0 <= n <= table.len(),
        forall|j: int| 0 <= j < table.len() ==> !has_word(text, (#[trigger] table[j]).0),
    ensures
        rewrite(text, table.take(n)) == text,
    decreases n,
{
    if n > 0 {
        lemma_absent_keys(text, table, n - 1);
        assert(table.take(n).drop_last() =~= table.take(n - 1));
        assert(table.take(n).last() == table[n - 1]);
        law_replacing_an_absent_word_changes_nothing(text, table[n - 1].0, table[n - 1].1);
    }
}

proof fn lemma_break(a: Seq<char>, c: char, b: Seq<char>)
    requires
        is_space(c) || c == '-' || c == '_',
    ensures
        spoken_chars(a.push(c) + b) == spoken_chars(a.push(' ') + b),
    decreases b.len(),
{
    if b.len() == 0 {
        assert(a.push(c) + b =~= a.push(c));
        assert(a.push(' ') + b =~= a.push(' '));
        assert(a.push(c).drop_last() =~= a.push(' ').drop_last());
    } else {
        lemma_break(a, c, b.drop_last());
        assert((a.push(c) + b).drop_last() =~= a.push(c) + b.drop_last());
        assert((a.push(' ') + b).drop_last() =~= a.push(' ') + b.drop_last());
    }
}

/// A hyphen, an underscore and any whitespace part words as a space does; every
/// other mark is dropped, so that what stands around it is one word.
pub proof fn law_hyphens_part_words(a: Seq<char>, c: char, b: Seq<char>, threshold: u64)
    ensures
        c == '-' || c == '_' || is_space(c) ==> normalised(a.push(c) + b) == normalised(
            a.push(' ') + b,
        ) && meaning(a.push(c) + b, threshold) == meaning(a.push(' ') + b, threshold),
        !('a' <= c <= 'z') && !('A' <= c <= 'Z') && !('0' <= c <= '9') && c != '-' && c != '_'
            && !is_space(c) ==> normalised(a.push(c) + b) == normalised(a + b),
{
    if c == '-' || c == '_' || is_space(c) {
        lemma_break(a, c, b);
    } else if !is_alnum(c) {
        lemma_dropped(a, c, b);
    }
}

/// The phrase with its action stands in the row of the table, at place `k`.
pub open spec fn stands_in_row(
    table: Seq<(Seq<Seq<char>>, Action)>,
    entry: (Seq<char>, Action),
    row: int,
    k: int,
) -> bool {
    0 <= row < table.len() && 0 <= k < table[row].0.len() && entry == (
        table[row].0[k],
        table[row].1,
    )
}

/// The phrase with its action stands in the table.
pub open spec fn stands_in_table(
    table: Seq<(Seq<Seq<char>>, Action)>,
    entry: (Seq<char>, Action),
) -> bool {
    exists|row: int, k: int| stands_in_row(table, entry, row, k)
}

/// Every phrase of a table is listed with its action, and nothing else is.
pub proof fn law_every_phrase_is_listed(table: Seq<(Seq<Seq<char>>, Action)>)
    ensures
        forall|entry: (Seq<char>, Action), row: int, k: int| #[trigger]
            stands_in_row(table, entry, row, k) ==> flat(table).contains(entry),
        forall|i: int|
            0 <= i < flat(table).len() ==> stands_in_table(table, #[trigger] flat(table)[i]),
    decreases table.len(),
{
    if table.len() > 0 {
        let rest = table.drop_last();
        let last = table.last();
        law_every_phrase_is_listed(rest);
        let m = flat(rest).len() as int;
        let all = flat(table);
        assert(all.len() == m + last.0.len());
        assert forall|entry: (Seq<char>, Action), row: int, k: int| #[trigger]
            stands_in_row(table, entry, row, k) implies all.contains(entry) by {
            if row < rest.len() {
                assert(rest[row] == table[row]);
                assert(stands_in_row(rest, entry, row, k));
                let i = choose|i: int| 0 <= i < m && flat(rest)[i] == entry;
                assert(all[i] == flat(rest)[i]);
            } else {
                assert(all[m + k] == (last.0[k], last.1));
            }
        }
        assert forall|i: int| 0 <= i < all.len() implies stands_in_table(
            table,
            #[trigger] all[i],
        ) by {
            if i < m {
                assert(all[i] == flat(rest)[i]);
                assert(stands_in_table(rest, flat(rest)[i]));
                let (row, k) = choose|row: int, k: int|
                    stands_in_row(rest, flat(rest)[i], row, k);
                assert(rest[row] == table[row]);
                assert(stands_in_row(table, all[i], row, k));
            } else {
                assert(all[i] == (last.0[i - m], last.1));
                assert(stands_in_row(table, all[i], table.len() - 1, i - m));
            }
        }
    }
}

proof fn lemma_similar(
    cleaned: Seq<char>,
    table: Seq<(Seq<Seq<char>>, Action)>,
    threshold: u64,
    row: int,
    k: int,
)
    requires
        flat(table).len() <= usize::MAX,
        0 <= row < table.len(),
        0 <= k < table[row].0.len(),
    ensures
        rounded(similarity_bits(cleaned, table[row].0[k])) >= rounded(threshold) ==> best(
            phrase_scores(cleaned, flat(table)),
            rounded(threshold) as u64,
            3,
        ).len() > 0,
{
    let list = flat(table);
    let scores = phrase_scores(cleaned, list);
    let entry = (table[row].0[k], table[row].1);
    law_every_phrase_is_listed(table);
    assert(stands_in_row(table, entry, row, k));
    let i = choose|i: int| 0 <= i < list.len() && list[i] == entry;
    law_rounding_keeps_order(threshold, threshold);
    let least = rounded(threshold) as u64;
    law_ranking_exists(scores);
    lemma_reaching(scores, least, 3);
    if rounded(similarity_bits(cleaned, entry.0)) >= rounded(threshold) && reaching(scores, least, 3)
        == 0 {
        let order = ranking(scores);
        assert(order.contains(i as usize));
        let p = choose|p: int| 0 <= p < order.len() && order[p] == i as usize;
        assert(scores[order[p] as int] >= least);
    }
}

proof fn lemma_table_size()
    ensures
        flat(rules()).len() <= 16 * 31,
{
    assert(rules().len() == 31);
    assert forall|j: int| 0 <= j < rules().len() implies (#[trigger] rules()[j]).0.len() <= 16 by {}
    lemma_flat_length(rules());
}

/// What is neither a phrase nor a query is understood all the same where some
/// phrase of the table is alike enough; where it is not understood, none is.
pub proof fn law_similar_words_are_understood(
    transcript: Seq<char>,
    threshold: u64,
    row: int,
    k: int,
)
    requires
        exact_meaning(normalised(transcript)) is Unmatched,
        normalised(transcript).len() > 0,
        is_positive(threshold),
        0 <= row < rules().len(),
        0 <= k < rules()[row].0.len(),
    ensures
        rounded(similarity_bits(normalised(transcript), rules()[row].0[k])) >= rounded(threshold)
            ==> meaning(transcript, threshold) is Action,
        meaning(transcript, threshold) is Action || meaning(transcript, threshold) is Unmatched,
{
    lemma_table_size();
    lemma_similar(normalised(transcript), rules(), threshold, row, k);
}

} // verus!
