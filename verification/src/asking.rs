//! What a spoken query leads to: through the aliases, to the section or tab that
//! matches best.

use vstd::prelude::*;

use crate::firsts::law_every_first_is_found;
use crate::moving::{
    law_numbered_pages_are_reached, law_query_jumps_wait_at_their_target, on_item,
    only_cursor_moved, pages_of, place_of, words_for,
};
use crate::navigation::{is_stop, is_title, opens_page, waits_for};
use crate::pages::{Cursor, Item, LoadedPage};
use crate::player::{CueView, Outcome};
use crate::rank::{ahead, best, law_ranking_exists, lemma_reaching, ranking};
use crate::readings::{all_items, distinct_headers, header_keys, header_marks};
use crate::section_search::{
    all_entries, entries, entry_hits, entry_positions, group_keys, is_entry, lemma_entries,
    match_text, stops, NavTarget, MATCH_THRESHOLD,
};
use crate::session::{chosen, queried, rewritten, section_found, tab_found, Session};
use crate::similarity::{rounded, similarity_bits};
use crate::tabs::{page_items, tab_hits, tab_scores};
use crate::text::{
    byte_len, has_word, is_ascii_space, join, law_replacing_an_absent_word_changes_nothing,
    lowercase, replace_words, trim, word_at,
};
use crate::voice_router::QueryMeaning;
use crate::word_map::{key_lengths, ordered_rules, rewrite};

verus! {

// ---------------------------------------------------------------------------
// Aliases
// ---------------------------------------------------------------------------

pub proof fn lemma_one_rule(k: Seq<char>, v: Seq<char>, text: Seq<char>)
    ensures
        rewrite(text, ordered_rules(seq![(k, v)])) == replace_words(text, lowercase(k), v),
{
    let pairs = seq![(k, v)];
    let lengths = key_lengths(pairs);
    law_ranking_exists(lengths);
    let order = ranking(lengths);
    assert(order[0] == 0);
    let rules = ordered_rules(pairs);
    assert(rules =~= seq![(lowercase(k), v)]);
    assert(rules.drop_last() =~= Seq::empty());
    assert(rewrite(text, rules.drop_last()) == text);
}

/// Without aliases a query is looked for as it is.
pub proof fn law_without_aliases_a_query_stays(s: Session, query: Seq<char>)
    requires
        s.aliases.rewrites@.len() == 0,
    ensures
        rewritten(s, query) == query,
{
    assert(ordered_rules(s.aliases.rewrites@) =~= Seq::empty());
}

/// An alias stands for its meaning: with the one alias `k` for `v`, the query `k`
/// leads where the query `v` leads without aliases, be it for a section or a tab.
pub proof fn law_an_alias_stands_for_its_meaning(
    s: Session,
    plain: Session,
    k: Seq<char>,
    v: Seq<char>,
    scores: Seq<u64>,
    o: Outcome,
)
    requires
        s.aliases.rewrites@ == seq![(k, v)],
        plain.aliases.rewrites@.len() == 0,
        plain == (Session { aliases: plain.aliases, ..s }),
        k.len() > 0,
        lowercase(k) == k,
    ensures
        rewritten(s, k) == v,
        section_found(s, k, scores) == section_found(plain, v, scores),
        tab_found(s, k) == tab_found(plain, v),
        queried(s, QueryMeaning::Section(k), scores, o) == queried(
            plain,
            QueryMeaning::Section(v),
            scores,
            o,
        ),
        queried(s, QueryMeaning::Tab(k), scores, o) == queried(
            plain,
            QueryMeaning::Tab(v),
            scores,
            o,
        ),
{
    lemma_one_rule(k, v, k);
    law_without_aliases_a_query_stays(plain, v);
    assert(k.subrange(0, k.len() as int) =~= k);
    assert(word_at(k, k, 0));
    let end = crate::text::replace_words_from(k, k, v, k.len() as int);
    assert(end.len() == 0);
    assert(replace_words(k, k, v) == v + end);
    assert(v + end =~= v);
}

/// An alias that stands nowhere in the query as a whole word leaves the query as
/// it is.
pub proof fn law_an_alias_replaces_whole_words_only(
    s: Session,
    k: Seq<char>,
    v: Seq<char>,
    query: Seq<char>,
)
    requires
        s.aliases.rewrites@ == seq![(k, v)],
        forall|i: int| !word_at(query, lowercase(k), i),
    ensures
        rewritten(s, query) == query,
{
    lemma_one_rule(k, v, query);
    law_replacing_an_absent_word_changes_nothing(query, lowercase(k), v);
}

/// An alias is replaced within a query too: where it stands for the first time,
/// its meaning takes its place.
pub proof fn law_an_alias_is_replaced_within_a_query(
    s: Session,
    k: Seq<char>,
    v: Seq<char>,
    query: Seq<char>,
    i: int,
)
    requires
        s.aliases.rewrites@ == seq![(k, v)],
        lowercase(k).len() > 0,
        !is_ascii_space(lowercase(k)[0]),
        word_at(query, lowercase(k), i),
        forall|j: int| 0 <= j < i ==> !word_at(query, lowercase(k), j),
    ensures
        rewritten(s, query) == query.take(i) + v + rewritten(
            s,
            query.skip(i + lowercase(k).len()),
        ),
{
    lemma_one_rule(k, v, query);
    lemma_one_rule(k, v, query.skip(i + lowercase(k).len()));
    crate::text::law_words_are_replaced_in_turn(query, lowercase(k), v, i);
}

pub proof fn lemma_only_rule(
    rules: Seq<(Seq<char>, Seq<char>)>,
    k: Seq<char>,
    v: Seq<char>,
    p: int,
    n: int,
)
    requires
        0 <= p < rules.len(),
        rules[p] == (k, v),
        k.len() > 0,
        0 <= n <= rules.len(),
        forall|j: int|
            0 <= j < rules.len() && j != p ==> !has_word(k, (#[trigger] rules[j]).0) && !has_word(
                v,
                rules[j].0,
            ),
    ensures
        rewrite(k, rules.take(n)) == (if n <= p {
            k
        } else {
            v
        }),
    decreases n,
{
    if n > 0 {
        lemma_only_rule(rules, k, v, p, n - 1);
        assert(rules.take(n).drop_last() =~= rules.take(n - 1));
        assert(rules.take(n).last() == rules[n - 1]);
        if n - 1 == p {
            assert(k.subrange(0, k.len() as int) =~= k);
            assert(word_at(k, k, 0));
            let end = crate::text::replace_words_from(k, k, v, k.len() as int);
            assert(replace_words(k, k, v) == v + end);
            assert(v + end =~= v);
        } else if n - 1 < p {
            law_replacing_an_absent_word_changes_nothing(k, rules[n - 1].0, rules[n - 1].1);
        } else {
            law_replacing_an_absent_word_changes_nothing(v, rules[n - 1].0, rules[n - 1].1);
        }
    } else {
        assert(rules.take(0) =~= Seq::empty());
    }
}

/// So does an alias among any others, as long as those stand neither in it nor in
/// its meaning.
pub proof fn law_an_alias_among_others_stands_for_its_meaning(
    s: Session,
    plain: Session,
    i: int,
    scores: Seq<u64>,
)
    requires
        s.aliases.rewrites@.len() <= usize::MAX,
        0 <= i < s.aliases.rewrites@.len(),
        ({
            let (k, v) = s.aliases.rewrites@[i];
            &&& k.len() > 0
            &&& lowercase(k) == k
            &&& forall|j: int|
                0 <= j < s.aliases.rewrites@.len() && j != i ==> !has_word(
                    k,
                    lowercase((#[trigger] s.aliases.rewrites@[j]).0),
                ) && !has_word(v, lowercase(s.aliases.rewrites@[j].0))
        }),
        plain.aliases.rewrites@.len() == 0,
        plain == (Session { aliases: plain.aliases, ..s }),
    ensures
        ({
            let (k, v) = s.aliases.rewrites@[i];
            &&& rewritten(s, k) == v
            &&& section_found(s, k, scores) == section_found(plain, v, scores)
            &&& tab_found(s, k) == tab_found(plain, v)
        }),
{
    let pairs = s.aliases.rewrites@;
    let (k, v) = pairs[i];
    let lengths = key_lengths(pairs);
    law_ranking_exists(lengths);
    let order = ranking(lengths);
    let rules = ordered_rules(pairs);
    assert(order.contains(i as usize));
    let p = choose|p: int| 0 <= p < order.len() && order[p] == i as usize;
    assert(rules[p] == (k, v));
    assert forall|j: int| 0 <= j < rules.len() && j != p implies !has_word(
        k,
        (#[trigger] rules[j]).0,
    ) && !has_word(v, rules[j].0) by {
        assert(order[j] != order[p]);
        assert(rules[j].0 == lowercase(pairs[order[j] as int].0));
    }
    lemma_only_rule(rules, k, v, p, rules.len() as int);
    assert(rules.take(rules.len() as int) =~= rules);
    law_without_aliases_a_query_stays(plain, v);
}

/// Of two aliases the longer one is replaced first, whichever was entered first.
pub proof fn law_the_longer_alias_goes_first(
    s: Session,
    long: (Seq<char>, Seq<char>),
    short: (Seq<char>, Seq<char>),
    query: Seq<char>,
)
    requires
        s.aliases.rewrites@ == seq![long, short] || s.aliases.rewrites@ == seq![short, long],
        byte_len(long.0) > byte_len(short.0),
        byte_len(long.0) <= u64::MAX,
    ensures
        rewritten(s, query) == replace_words(
            replace_words(query, lowercase(long.0), long.1),
            lowercase(short.0),
            short.1,
        ),
{
    let pairs = s.aliases.rewrites@;
    let lengths = key_lengths(pairs);
    law_ranking_exists(lengths);
    let order = ranking(lengths);
    let l: int = if pairs == seq![long, short] {
        0
    } else {
        1
    };
    assert(pairs[l] == long && pairs[1 - l] == short);
    assert(lengths[l] > lengths[1 - l]);
    assert(ahead(lengths, order[0], order[1]));
    assert(order[0] != order[1]);
    assert(order[0] == l && order[1] == 1 - l);
    let rules = ordered_rules(pairs);
    assert(rules =~= seq![(lowercase(long.0), long.1), (lowercase(short.0), short.1)]);
    let first = rules.drop_last();
    assert(first =~= seq![(lowercase(long.0), long.1)]);
    assert(first.drop_last() =~= Seq::empty());
    assert(rewrite(query, first.drop_last()) == query);
    assert(rewrite(query, first) == replace_words(query, lowercase(long.0), long.1));
    assert(rules.last() == (lowercase(short.0), short.1));
}

// ---------------------------------------------------------------------------
// The best match
// ---------------------------------------------------------------------------

/// `i` is the first of the largest scores.
pub open spec fn is_winner(scores: Seq<u64>, i: int) -> bool {
    &&& 0 <= i < scores.len()
    &&& forall|j: int| 0 <= j < scores.len() ==> (#[trigger] scores[j]) <= scores[i]
    &&& forall|j: int| 0 <= j < i ==> (#[trigger] scores[j]) < scores[i]
}

proof fn lemma_chosen(found: Seq<(NavTarget, Seq<char>)>, scores: Seq<u64>)
    requires
        scores.len() <= usize::MAX,
    ensures
        match chosen(found, scores) {
            Some(t) => exists|i: int| #[trigger]
                is_winner(scores, i) && scores[i] >= 0x1_ff33_3333 && t == found[i].0,
            None => forall|i: int|
                0 <= i < scores.len() ==> (#[trigger] scores[i]) < 0x1_ff33_3333,
        },
{
    law_ranking_exists(scores);
    lemma_reaching(scores, MATCH_THRESHOLD, 5);
    let order = ranking(scores);
    if scores.len() > 0 {
        let w = order[0] as int;
        assert forall|j: int| 0 <= j < scores.len() implies (#[trigger] scores[j]) <= scores[w] && (j
            < w ==> scores[j] < scores[w]) by {
            assert(order.contains(j as usize));
            let p = choose|p: int| 0 <= p < order.len() && order[p] == j as usize;
            if p > 0 {
                assert(ahead(scores, order[0], order[p]));
            }
        }
        assert(is_winner(scores, w));
    }
}

/// Of the sections with their scores, the best is found where it reaches 0.7, and
/// of equals the one that comes first; where none reaches it, nothing is found.
pub proof fn law_the_best_section_is_found(s: Session, query: Seq<char>, scores: Seq<u64>)
    requires
        s.player.tabs.active < s.player.tabs.tabs@.len(),
        match_text(rewritten(s, query)).len() > 0,
        scores.len() <= usize::MAX,
    ensures
        match section_found(s, query, scores) {
            Some(t) => exists|i: int| #[trigger]
                is_winner(scores, i) && scores[i] >= 0x1_ff33_3333 && t == entry_hits(
                    page_items(s.player.tabs.tabs@[s.player.tabs.active as int].pages@),
                    s.player.tabs.active,
                )[i].0,
            None => forall|i: int|
                0 <= i < scores.len() ==> (#[trigger] scores[i]) < 0x1_ff33_3333,
        },
{
    lemma_chosen(
        entry_hits(
            page_items(s.player.tabs.tabs@[s.player.tabs.active as int].pages@),
            s.player.tabs.active,
        ),
        scores,
    );
}

/// How alike a text and a name are, as a key to compare by.
pub open spec fn likeness(a: Seq<char>, name: Seq<char>) -> int {
    rounded(similarity_bits(a, lowercase(name)))
}

/// The tab that is found is one whose label or id is most like the query, and
/// reaches 0.7; where nothing is found, no label and no id reaches it.
pub proof fn law_the_best_tab_is_found(s: Session, query: Seq<char>)
    requires
        lowercase(trim(rewritten(s, query))).len() > 0,
        s.player.tabs.tabs@.len() <= usize::MAX,
    ensures
        ({
            let q = lowercase(trim(rewritten(s, query)));
            let tabs = s.player.tabs.tabs@;
            match tab_found(s, query) {
                Some(t) => {
                    let found = tabs[t.tab_idx as int];
                    &&& t.tab_idx < tabs.len()
                    &&& likeness(q, found.label@) >= 0x1_ff33_3333 || likeness(q, found.id@)
                        >= 0x1_ff33_3333
                    &&& forall|j: int|
                        0 <= j < tabs.len() ==> {
                            let other = #[trigger] tabs[j];
                            &&& likeness(q, other.label@) <= likeness(q, found.label@) || likeness(
                                q,
                                other.label@,
                            ) <= likeness(q, found.id@)
                            &&& likeness(q, other.id@) <= likeness(q, found.label@) || likeness(
                                q,
                                other.id@,
                            ) <= likeness(q, found.id@)
                        }
                },
                None => forall|j: int|
                    0 <= j < tabs.len() ==> likeness(q, (#[trigger] tabs[j]).label@)
                        < 0x1_ff33_3333 && likeness(q, tabs[j].id@) < 0x1_ff33_3333,
            }
        }),
{
    let q = lowercase(trim(rewritten(s, query)));
    let tabs = s.player.tabs.tabs@;
    let scores = tab_scores(q, tabs);
    lemma_chosen(tab_hits(tabs), scores);
    assert forall|j: int| 0 <= j < tabs.len() implies {
        &&& (#[trigger] scores[j]) >= likeness(q, tabs[j].label@)
        &&& scores[j] >= likeness(q, tabs[j].id@)
        &&& scores[j] == likeness(q, tabs[j].label@) || scores[j] == likeness(q, tabs[j].id@)
    } by {}
    match tab_found(s, query) {
        Some(t) => {
            let i = choose|i: int| #[trigger]
                is_winner(scores, i) && scores[i] >= 0x1_ff33_3333 && t == tab_hits(tabs)[i].0;
            assert(t.tab_idx == i);
            assert forall|j: int| 0 <= j < tabs.len() implies {
                let other = #[trigger] tabs[j];
                let found = tabs[i];
                &&& likeness(q, other.label@) <= likeness(q, found.label@) || likeness(
                    q,
                    other.label@,
                ) <= likeness(q, found.id@)
                &&& likeness(q, other.id@) <= likeness(q, found.label@) || likeness(q, other.id@)
                    <= likeness(q, found.id@)
            } by {
                assert(scores[j] <= scores[i]);
            }
        },
        None => {
            assert forall|j: int| 0 <= j < tabs.len() implies likeness(
                q,
                (#[trigger] tabs[j]).label@,
            ) < 0x1_ff33_3333 && likeness(q, tabs[j].id@) < 0x1_ff33_3333 by {
                assert(scores[j] < 0x1_ff33_3333);
            }
        },
    }
}

// ---------------------------------------------------------------------------
// What can be found
// ---------------------------------------------------------------------------

/// Each candidate is a stop, and stands for the place that it is found at.
pub proof fn law_candidates_are_stops(pages: Seq<LoadedPage>, tab_idx: usize, k: int)
    requires
        crate::navigation::sized(pages),
        0 <= k < entry_hits(page_items(pages), tab_idx).len(),
    ensures
        ({
            let (t, label) = entry_hits(page_items(pages), tab_idx)[k];
            let at = Cursor { page: t.page_idx, item: t.item_idx };
            let item = pages[t.page_idx as int].manifest.items@[t.item_idx as int];
            &&& t.tab_idx == tab_idx
            &&& is_stop(pages, at)
            &&& label == (if item.group@.len() > 0 {
                item.group@
            } else {
                item.text@
            })
        }),
{
    let items = page_items(pages);
    lemma_entries(items, items.len() as int);
    let at = all_entries(items)[k];
    assert(items[at.0] == pages[at.0].manifest.items@);
    assert(crate::navigation::items_of(pages, at.0).len() <= usize::MAX);
}

proof fn lemma_entry_listed(pages: Seq<Seq<Item>>, n: int, p: int, i: int)
    requires
        0 <= p < n <= pages.len(),
        0 <= i < pages[p].len(),
        is_entry(pages[p], i),
    ensures
        entries(pages, n).contains((p, i)),
    decreases n,
{
    let before = entries(pages, n - 1);
    let here = entry_positions(pages[n - 1]);
    let all = entries(pages, n);
    if p < n - 1 {
        lemma_entry_listed(pages, n - 1, p, i);
        let k = choose|k: int| 0 <= k < before.len() && before[k] == (p, i);
        assert(all[k] == (p, i));
    } else {
        let items = pages[p];
        law_every_first_is_found(stops(items), group_keys(items), items.len() as int, i);
        let k = choose|k: int| 0 <= k < here.len() && here[k] == i;
        assert(all[before.len() + k] == (p, i));
    }
}

/// Every section can be found: for each stop there is a candidate on its page,
/// not behind it, that is the stop itself or has its section, letter case aside.
/// A stop without a section is a candidate itself.
pub proof fn law_every_stop_can_be_found(pages: Seq<LoadedPage>, c: Cursor)
    requires
        is_stop(pages, c),
    ensures
        exists|i: int|
            {
                &&& 0 <= i <= c.item
                &&& #[trigger] all_entries(page_items(pages)).contains((c.page as int, i))
                &&& i == c.item || {
                    let items = pages[c.page as int].manifest.items@;
                    &&& items[c.item as int].group@.len() > 0
                    &&& lowercase(items[i].group@) == lowercase(items[c.item as int].group@)
                }
            },
{
    let all = page_items(pages);
    let p = c.page as int;
    let items = pages[p].manifest.items@;
    assert(all[p] == items);
    let keys = group_keys(items);
    lemma_first_of_group(items, c.item as int);
    let i = choose|i: int|
        0 <= i <= c.item && #[trigger] is_entry(items, i) && (i == c.item || (keys[c.item as int]
            is Some && keys[i] == keys[c.item as int]));
    lemma_entry_listed(all, all.len() as int, p, i);
    assert(all_entries(all).contains((c.page as int, i)));
    assert(keys[i] == crate::section_search::group_key(items[i]));
    assert(keys[c.item as int] == crate::section_search::group_key(items[c.item as int]));
}

proof fn lemma_first_of_group(items: Seq<Item>, c: int)
    requires
        0 <= c < items.len(),
        items[c].navigable,
    ensures
        exists|i: int|
            0 <= i <= c && #[trigger] is_entry(items, i) && (i == c || (group_keys(items)[c] is Some
                && group_keys(items)[i] == group_keys(items)[c])),
    decreases c,
{
    let keys = group_keys(items);
    if is_entry(items, c) {
    } else {
        let j = choose|j: int| 0 <= j < c && #[trigger] keys[j] == keys[c];
        assert(items[j].navigable);
        lemma_first_of_group(items, j);
        let i = choose|i: int|
            0 <= i <= j && #[trigger] is_entry(items, i) && (i == j || (keys[j] is Some && keys[i]
                == keys[j]));
        assert(is_entry(items, i));
    }
}

// ---------------------------------------------------------------------------
// What queries do
// ---------------------------------------------------------------------------

/// A query for a section that is found goes to a stop of the section and waits
/// there, and remembers where it came from.
pub proof fn law_section_queries_wait_at_the_section(
    s: Session,
    query: Seq<char>,
    scores: Seq<u64>,
    o: Outcome,
)
    requires
        on_item(o),
        o.deck == s.player.tabs@,
        scores.len() == entry_hits(page_items(pages_of(o)), o.deck.active).len(),
        scores.len() <= usize::MAX,
        section_found(s, query, scores) is Some,
    ensures
        ({
            let there = queried(s, QueryMeaning::Section(query), scores, o);
            let t = section_found(s, query, scores)->0;
            let goal = Cursor { page: t.page_idx, item: t.item_idx };
            &&& there.armed
            &&& !there.playing
            &&& only_cursor_moved(o.deck, there.deck)
            &&& there.pre_jump == Some((o.deck.active, place_of(o)))
            &&& is_stop(pages_of(o), goal)
            &&& is_title(pages_of(o), goal) ==> waits_for(pages_of(o), goal, place_of(there))
            &&& !is_title(pages_of(o), goal) ==> place_of(there) == goal
        }),
{
    let found = entry_hits(page_items(pages_of(o)), o.deck.active);
    lemma_chosen(found, scores);
    let t = section_found(s, query, scores)->0;
    let i = choose|i: int| #[trigger]
        is_winner(scores, i) && scores[i] >= 0x1_ff33_3333 && t == found[i].0;
    law_candidates_are_stops(pages_of(o), o.deck.active, i);
    let free = o.set_armed(false);
    assert(on_item(free));
    law_query_jumps_wait_at_their_target(free, t, s.pronunciation);
}

/// A query for a tab that is found shows that tab, and no cursor moves; a query
/// of which nothing is found moves nothing and says nothing.
pub proof fn law_tab_queries_show_the_tab(
    s: Session,
    query: Seq<char>,
    scores: Seq<u64>,
    o: Outcome,
)
    requires
        tab_found(s, query) matches Some(t) ==> t.tab_idx < o.deck.tabs.len(),
    ensures
        ({
            let there = queried(s, QueryMeaning::Tab(query), scores, o);
            &&& there.deck.tabs == o.deck.tabs
            &&& there.deck.active == (match tab_found(s, query) {
                Some(t) => t.tab_idx,
                None => o.deck.active,
            })
            &&& tab_found(s, query) is None ==> there.cues == o.cues.push(CueView::Armed(false))
            &&& !there.armed
        }),
        section_found(s, query, scores) is None ==> queried(
            s,
            QueryMeaning::Section(query),
            scores,
            o,
        ) == (Outcome { armed: false, cues: o.cues.push(CueView::Armed(false)), ..o }),
{
}

/// A query for a page goes to the start of that page, counted from one.
pub proof fn law_page_queries_go_to_the_page(s: Session, n: u32, scores: Seq<u64>, o: Outcome)
    requires
        on_item(o),
    ensures
        ({
            let there = queried(s, QueryMeaning::Page(n), scores, o);
            &&& opens_page(pages_of(o), place_of(there))
            &&& 1 <= n <= pages_of(o).len() ==> place_of(there).page + 1 == n
            &&& n > pages_of(o).len() ==> place_of(there).page + 1 == pages_of(o).len()
            &&& !there.armed
        }),
{
    let free = o.set_armed(false);
    assert(on_item(free));
    law_numbered_pages_are_reached(
        free,
        n,
        crate::session::options_of(s.settings),
        s.pronunciation,
    );
}

// ---------------------------------------------------------------------------
// The list of sections
// ---------------------------------------------------------------------------

/// The item is the header of a section.
pub open spec fn is_section_header(item: Item) -> bool {
    item.kind@ == "section-header"@
}

/// The list names every section: for each header there is one that is named, not
/// behind it, with the same text, letter case aside.
pub proof fn law_every_section_is_listed(items: Seq<Item>, i: int)
    requires
        0 <= i < items.len(),
        is_section_header(items[i]),
    ensures
        exists|j: int|
            0 <= j <= i && #[trigger] distinct_headers(items).contains(j) && lowercase(
                items[j].text@,
            ) == lowercase(items[i].text@),
    decreases i,
{
    let keys = header_keys(items);
    if crate::firsts::repeats(keys, i) {
        let j = choose|j: int| 0 <= j < i && #[trigger] keys[j] == keys[i];
        assert(keys[j] == crate::readings::header_key(items[j]));
        assert(keys[i] == crate::readings::header_key(items[i]));
        law_every_section_is_listed(items, j);
        let k = choose|k: int|
            0 <= k <= j && #[trigger] distinct_headers(items).contains(k) && lowercase(
                items[k].text@,
            ) == lowercase(items[j].text@);
        assert(distinct_headers(items).contains(k));
    } else {
        law_every_first_is_found(header_marks(items), keys, items.len() as int, i);
        assert(distinct_headers(items).contains(i));
    }
}

/// Only headers of sections are named, in their order.
pub proof fn law_only_sections_are_listed(items: Seq<Item>, k: int, l: int)
    requires
        0 <= k < l < distinct_headers(items).len(),
    ensures
        0 <= distinct_headers(items)[k] < distinct_headers(items)[l] < items.len(),
        is_section_header(items[distinct_headers(items)[k]]),
        is_section_header(items[distinct_headers(items)[l]]),
{
    crate::firsts::law_firsts_are_new(
        header_marks(items),
        header_keys(items),
        items.len() as int,
    );
}

/// Asked for the sections, the session says the headers of all pages, each as it
/// is pronounced, and moves nothing.
pub proof fn law_the_sections_are_listed(s: Session, scores: Seq<u64>, o: Outcome)
    requires
        o.deck.active < o.deck.tabs.len(),
    ensures
        ({
            let items = all_items(pages_of(o));
            let found = distinct_headers(items);
            let names = Seq::new(found.len(), |k: int| words_for(items[found[k]], s.pronunciation));
            let there = queried(s, QueryMeaning::Sections, scores, o);
            let quiet = o.cues.push(CueView::Armed(false));
            &&& there.deck == o.deck
            &&& found.len() == 0 ==> there.cues == quiet
            &&& found.len() > 0 ==> there.cues == quiet.push(CueView::Stop).push(
                CueView::Read("Sections: "@ + join(names, "; "@) + "."@),
            )
        }),
{
    let items = all_items(pages_of(o));
    let found = distinct_headers(items);
    let names = Seq::new(found.len(), |k: int| words_for(items[found[k]], s.pronunciation));
    let parts = Seq::new(
        found.len(),
        |k: int| crate::readings::item_speech(items[found[k]], s.pronunciation),
    );
    assert(names =~= parts);
}

} // verus!
