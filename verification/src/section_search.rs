//! Finding the section, or the tab, that a spoken query means.
//!
//! Each candidate is scored against the query. The score of a section is
//! computed outside of this library from the evidence collected here; the
//! ranking of candidates by their scores is done here.

use vstd::prelude::*;

use crate::firsts::{
    find_firsts, first_positions, ints, law_firsts_are_new, opt_texts, repeats,
};
use crate::pages::Item;
use crate::rank::{best, best_of, law_ranking_exists, lemma_reaching};
use crate::similarity::{similarity, similarity_bits, FULL_KEY, SAME};
use crate::text::{
    alnum, digit, is_alnum, is_digit, is_letter, is_plain, is_space, join, joined, law_split_undoes_join,
    law_words_are_words, letter, lower, lower_all, lowercase, own, same, split_words, texts, to_chars,
    to_lower, upper_all, word_classes, words,
};

verus! {

/// Letters and digits part where they meet.
pub open spec fn parts(p: char, c: char) -> bool {
    (is_letter(p) && is_digit(c)) || (is_digit(p) && is_letter(c))
}

/// The letters and digits of a text in lower case, with a space for every other
/// character and between a letter and a digit.
pub open spec fn spread(s: Seq<char>) -> Seq<char>
    decreases s.len(),
{
    if s.len() == 0 {
        Seq::empty()
    } else {
        let before = spread(s.drop_last());
        let c = s.last();
        if !is_alnum(c) {
            before.push(' ')
        } else if s.len() > 1 && parts(s[s.len() - 2], c) {
            before.push(' ').push(lower(c))
        } else {
            before.push(lower(c))
        }
    }
}

/// The text as it is matched: its runs of letters and its runs of digits, in
/// lower case, one space between neighbours.
pub open spec fn match_text(s: Seq<char>) -> Seq<char> {
    join(words(spread(s)), seq![' '])
}

/// Normalises text for matching, so that "AGM-65D/G" becomes "agm 65 d g".
pub fn normalize_match(s: &str) -> (r: String)
    ensures
        r@ == match_text(s@),
{
    let v = to_chars(s);
    let mut out = String::new();
    let mut i: usize = 0;
    assert(v@.take(0) =~= Seq::empty());
    while i < v.len()
        invariant
            i <= v.len(),
            out@ == spread(v@.take(i as int)),
        decreases v.len() - i,
    {
        assert(v@.take(i + 1).drop_last() =~= v@.take(i as int));
        assert(v@.take(i + 1).last() == v@[i as int]);
        assert(i > 0 ==> v@.take(i + 1)[i - 1] == v@[i - 1]);
        let c = v[i];
        if !alnum(c) {
            out.push(' ');
        } else {
            if i > 0 && ((letter(v[i - 1]) && digit(c)) || (digit(v[i - 1]) && letter(c))) {
                out.push(' ');
            }
            out.push(to_lower(c));
        }
        i += 1;
    }
    assert(v@.take(i as int) =~= v@);
    let ws = split_words(out.as_str());
    proof {
        reveal_strlit(" ");
        assert(" "@ =~= seq![' ']);
    }
    joined(&ws, " ")
}

// ---------------------------------------------------------------------------
// Token overlap
// ---------------------------------------------------------------------------

/// How many different words of the query there are, and how many of them are
/// words of the candidate.
#[derive(Debug, Clone, Copy, PartialEq, Eq, Structural)]
pub struct Overlap {
    pub common: usize,
    pub total: usize,
}

/// The different words of a text.
pub open spec fn vocabulary(s: Seq<char>) -> Set<Seq<char>> {
    words(s).to_set()
}

fn is_listed(list: &Vec<String>, w: &str, upto: usize) -> (r: bool)
    requires
        upto <= list.len(),
    ensures
        r == texts(list@).take(upto as int).contains(w@),
{
    let mut i: usize = 0;
    while i < upto
        invariant
            i <= upto <= list.len(),
            forall|k: int| 0 <= k < i ==> list@[k]@ != w@,
        decreases upto - i,
    {
        if same(list[i].as_str(), w) {
            assert(texts(list@).take(upto as int)[i as int] == w@);
            return true;
        }
        i += 1;
    }
    false
}

/// Counts the words that query and candidate share.
pub fn token_overlap(query: &str, candidate: &str) -> (r: Overlap)
    ensures
        r.total == vocabulary(query@).len(),
        r.common == vocabulary(query@).intersect(vocabulary(candidate@)).len(),
{
    broadcast use vstd::seq_lib::group_seq_properties;

    let q = split_words(query);
    let c = split_words(candidate);
    let ghost qs = texts(q@);
    let ghost cs = texts(c@);
    let mut total: usize = 0;
    let mut common: usize = 0;
    let mut i: usize = 0;
    assert(qs.take(0).to_set() =~= Set::empty());
    assert(qs.take(0).to_set().intersect(cs.to_set()) =~= Set::empty());
    while i < q.len()
        invariant
            i <= q.len(),
            qs == texts(q@),
            cs == texts(c@),
            total <= i,
            common <= i,
            total == qs.take(i as int).to_set().len(),
            common == qs.take(i as int).to_set().intersect(cs.to_set()).len(),
        decreases q.len() - i,
    {
        let ghost seen = qs.take(i as int).to_set();
        let ghost w = qs[i as int];
        proof {
            assert(qs.take(i + 1) =~= qs.take(i as int).push(w));
            assert(qs.take(i + 1).to_set() =~= seen.insert(w)) by {
                assert(qs.take(i + 1)[i as int] == w);
                assert forall|x: Seq<char>| seen.contains(x) implies #[trigger] qs.take(
                    i + 1,
                ).contains(x) by {
                    let k = choose|k: int| 0 <= k < i && qs.take(i as int)[k] == x;
                    assert(qs.take(i + 1)[k] == x);
                }
            }
            assert(seen.finite());
        }
        if !is_listed(&q, q[i].as_str(), i) {
            total += 1;
            if is_listed(&c, q[i].as_str(), c.len()) {
                assert(cs.take(c.len() as int) =~= cs);
                assert(seen.insert(w).intersect(cs.to_set()) =~= seen.intersect(
                    cs.to_set(),
                ).insert(w));
                common += 1;
            } else {
                assert(cs.take(c.len() as int) =~= cs);
                assert(seen.insert(w).intersect(cs.to_set()) =~= seen.intersect(cs.to_set()));
            }
        } else {
            assert(seen.insert(w) =~= seen);
        }
        i += 1;
    }
    assert(qs.take(i as int) =~= qs);
    Overlap { common, total }
}

// ---------------------------------------------------------------------------
// Candidates
// ---------------------------------------------------------------------------

/// A place that a query can lead to.
#[derive(Debug, Clone, Copy, PartialEq, Eq, Structural)]
pub struct NavTarget {
    pub tab_idx: usize,
    pub page_idx: usize,
    pub item_idx: usize,
}

/// A place with the text that names it.
#[derive(Debug, Clone)]
pub struct Candidate {
    pub target: NavTarget,
    pub label: String,
}

/// What an item that the cursor can stop at is known by: its section in lower
/// case, where it has one.
pub open spec fn group_key(item: Item) -> Option<Seq<char>> {
    if item.navigable && item.group@.len() > 0 {
        Some(lowercase(item.group@))
    } else {
        None
    }
}

pub open spec fn group_keys(items: Seq<Item>) -> Seq<Option<Seq<char>>> {
    Seq::new(items.len(), |i: int| group_key(items[i]))
}

/// At which items the cursor can stop.
pub open spec fn stops(items: Seq<Item>) -> Seq<bool> {
    Seq::new(items.len(), |i: int| items[i].navigable)
}

/// The item stands for its section, or for itself where it has none: the cursor
/// can stop at it, and it is the first such item of its section on the page.
pub open spec fn is_entry(items: Seq<Item>, i: int) -> bool {
    items[i].navigable && !repeats(group_keys(items), i)
}

/// The entries of a page.
pub open spec fn entry_positions(items: Seq<Item>) -> Seq<int> {
    first_positions(stops(items), group_keys(items), items.len() as int)
}

/// What names the item: its section, or its text where it has none.
pub open spec fn entry_label(item: Item) -> Seq<char> {
    if item.group@.len() > 0 {
        item.group@
    } else {
        item.text@
    }
}

/// The items of each page of a list of slices.
pub open spec fn slice_items(pages: Seq<&[Item]>) -> Seq<Seq<Item>> {
    Seq::new(pages.len(), |p: int| pages[p]@)
}

/// The entries of the first `n` pages, each as page and item, in their order.
pub open spec fn entries(pages: Seq<Seq<Item>>, n: int) -> Seq<(int, int)>
    decreases n,
{
    if n <= 0 {
        Seq::empty()
    } else {
        let here = entry_positions(pages[n - 1]);
        entries(pages, n - 1) + Seq::new(here.len(), |k: int| (n - 1, here[k]))
    }
}

/// All entries of the pages.
pub open spec fn all_entries(pages: Seq<Seq<Item>>) -> Seq<(int, int)> {
    entries(pages, pages.len() as int)
}

/// The target and the label of the entry at the given page and item.
pub open spec fn entry_at(pages: Seq<Seq<Item>>, tab_idx: usize, at: (int, int)) -> (
    NavTarget,
    Seq<char>,
) {
    (
        NavTarget { tab_idx, page_idx: at.0 as usize, item_idx: at.1 as usize },
        entry_label(pages[at.0][at.1]),
    )
}

/// The targets and labels of all entries of the pages.
pub open spec fn entry_hits(pages: Seq<Seq<Item>>, tab_idx: usize) -> Seq<(NavTarget, Seq<char>)> {
    let places = all_entries(pages);
    Seq::new(places.len(), |k: int| entry_at(pages, tab_idx, places[k]))
}

/// The targets and labels of a list of candidates.
pub open spec fn hits(found: Seq<Candidate>) -> Seq<(NavTarget, Seq<char>)> {
    Seq::new(found.len(), |k: int| (found[k].target, found[k].label@))
}

/// Every entry lies within the pages.
pub proof fn lemma_entries(pages: Seq<Seq<Item>>, n: int)
    requires
        n <= pages.len(),
    ensures
        forall|k: int|
            0 <= k < entries(pages, n).len() ==> {
                let at = #[trigger] entries(pages, n)[k];
                0 <= at.0 < n && 0 <= at.1 < pages[at.0].len() && is_entry(pages[at.0], at.1)
            },
    decreases n,
{
    if n > 0 {
        lemma_entries(pages, n - 1);
        let items = pages[n - 1];
        let here = entry_positions(items);
        law_firsts_are_new(stops(items), group_keys(items), items.len() as int);
        assert forall|k: int| 0 <= k < entries(pages, n).len() implies {
            let at = #[trigger] entries(pages, n)[k];
            0 <= at.0 < n && 0 <= at.1 < pages[at.0].len() && is_entry(pages[at.0], at.1)
        } by {
            let m = entries(pages, n - 1).len();
            if k < m {
                assert(entries(pages, n)[k] == entries(pages, n - 1)[k]);
            } else {
                assert(entries(pages, n)[k] == (n - 1, here[k - m]));
            }
        }
    }
}

fn find_entries(items: &[Item]) -> (r: Vec<usize>)
    ensures
        ints(r@) == entry_positions(items@),
{
    let mut wanted: Vec<bool> = Vec::new();
    let mut keys: Vec<Option<String>> = Vec::new();
    let mut i: usize = 0;
    while i < items.len()
        invariant
            i <= items.len(),
            wanted.len() == i,
            keys.len() == i,
            forall|k: int| 0 <= k < i ==> #[trigger] wanted@[k] == items@[k].navigable,
            forall|k: int| 0 <= k < i ==> opt_texts(keys@)[k] == group_key(#[trigger] items@[k]),
        decreases items.len() - i,
    {
        let item = &items[i];
        let ghost before = opt_texts(keys@);
        let key = if item.navigable && item.group.as_str().unicode_len() > 0 {
            Some(item.group.as_str().to_lowercase())
        } else {
            None
        };
        wanted.push(item.navigable);
        keys.push(key);
        assert(opt_texts(keys@) =~= before.push(group_key(items@[i as int])));
        i += 1;
    }
    assert(wanted@ =~= stops(items@));
    assert(opt_texts(keys@) =~= group_keys(items@));
    find_firsts(&wanted, &keys)
}

/// The entries of the pages, in their order.
pub fn section_candidates(pages: &[&[Item]], tab_idx: usize) -> (r: Vec<Candidate>)
    ensures
        hits(r@) == entry_hits(slice_items(pages@), tab_idx),
{
    let mut r: Vec<Candidate> = Vec::new();
    let ghost all = slice_items(pages@);
    let mut p: usize = 0;
    while p < pages.len()
        invariant
            p <= pages.len(),
            all == slice_items(pages@),
            r.len() == entries(all, p as int).len(),
            forall|k: int|
                0 <= k < r.len() ==> #[trigger] hits(r@)[k] == entry_at(
                    all,
                    tab_idx,
                    entries(all, p as int)[k],
                ),
        decreases pages.len() - p,
    {
        let items = pages[p];
        let found = find_entries(items);
        let ghost done = entries(all, p as int);
        let ghost here = entry_positions(items@);
        let ghost now = entries(all, p + 1);
        proof {
            assert(all[p as int] == items@);
            assert(ints(found@).len() == found.len());
            law_firsts_are_new(stops(items@), group_keys(items@), items@.len() as int);
            assert(now =~= done + Seq::new(here.len(), |k: int| (p as int, here[k])));
        }
        let mut n: usize = 0;
        while n < found.len()
            invariant
                p < pages.len(),
                all == slice_items(pages@),
                items@ == all[p as int],
                here == entry_positions(items@),
                ints(found@) == here,
                found.len() == here.len(),
                now == done + Seq::new(here.len(), |k: int| (p as int, here[k])),
                forall|k: int| 0 <= k < here.len() ==> 0 <= #[trigger] here[k] < items@.len(),
                n <= found.len(),
                r.len() == done.len() + n,
                forall|k: int|
                    0 <= k < r.len() ==> #[trigger] hits(r@)[k] == entry_at(all, tab_idx, now[k]),
            decreases found.len() - n,
        {
            let ghost before = hits(r@);
            assert(ints(found@)[n as int] == here[n as int]);
            let i: usize = found[n];
            let item = &items[i];
            let label = if item.group.as_str().unicode_len() > 0 {
                own(item.group.as_str())
            } else {
                own(item.text.as_str())
            };
            r.push(
                Candidate { target: NavTarget { tab_idx, page_idx: p, item_idx: i }, label },
            );
            assert(now[done.len() + n] == (p as int, i as int));
            assert(hits(r@) =~= before.push(entry_at(all, tab_idx, (p as int, i as int))));
            n += 1;
        }
        p += 1;
    }
    assert(hits(r@) =~= entry_hits(slice_items(pages@), tab_idx));
    r
}

// ---------------------------------------------------------------------------
// Evidence
// ---------------------------------------------------------------------------

/// What the score of a candidate is computed from.
#[derive(Debug, Clone, Copy, PartialEq, Eq, Structural)]
pub struct Evidence {
    /// The bit pattern of the similarity of query and candidate.
    pub similarity: u64,
    /// How many words they share.
    pub overlap: Overlap,
    /// Whether the candidate is named by a section, not by an item's own text.
    pub grouped: bool,
}

/// The evidence for an item, given the query as it is matched.
pub open spec fn is_evidence(e: Evidence, query: Seq<char>, item: Item) -> bool {
    let name = match_text(entry_label(item));
    &&& e.similarity == similarity_bits(query, name)
    &&& e.overlap.total == vocabulary(query).len()
    &&& e.overlap.common == vocabulary(query).intersect(vocabulary(name)).len()
    &&& e.grouped == (item.group@.len() > 0)
}

/// Collects the evidence for each entry of the pages, in their order. An entry
/// that is named by the query has the highest similarity, and all of the
/// query's words.
pub fn section_evidence(query: &str, pages: &[&[Item]]) -> (r: Vec<Evidence>)
    ensures
        forall|k: int|
            0 <= k < r.len() && match_text(
                entry_hits(slice_items(pages@), 0)[k].1,
            ) == match_text(query@) ==> (#[trigger] r@[k]).similarity == SAME
                && r@[k].overlap.common == r@[k].overlap.total,
        r.len() == all_entries(slice_items(pages@)).len(),
        forall|k: int|
            0 <= k < r.len() ==> is_evidence(
                #[trigger] r@[k],
                match_text(query@),
                slice_items(pages@)[all_entries(slice_items(pages@))[k].0][all_entries(
                    slice_items(pages@),
                )[k].1],
            ),
{
    let q = normalize_match(query);
    let found = section_candidates(pages, 0);
    let ghost places = all_entries(slice_items(pages@));
    proof {
        lemma_entries(slice_items(pages@), pages.len() as int);
    }
    assert(hits(found@).len() == places.len());
    let mut r: Vec<Evidence> = Vec::new();
    let mut k: usize = 0;
    while k < found.len()
        invariant
            k <= found.len(),
            r.len() == k,
            q@ == match_text(query@),
            places == all_entries(slice_items(pages@)),
            hits(found@) == entry_hits(slice_items(pages@), 0),
            forall|x: int|
                0 <= x < places.len() ==> {
                    let at = #[trigger] places[x];
                    0 <= at.0 < pages.len() && 0 <= at.1 < pages@[at.0]@.len()
                },
            forall|x: int|
                0 <= x < k && match_text(entry_hits(slice_items(pages@), 0)[x].1) == q@ ==> (
                #[trigger] r@[x]).similarity == SAME && r@[x].overlap.common
                    == r@[x].overlap.total,
            forall|x: int|
                0 <= x < k ==> is_evidence(
                    #[trigger] r@[x],
                    q@,
                    slice_items(pages@)[places[x].0][places[x].1],
                ),
        decreases found.len() - k,
    {
        let c = &found[k];
        assert(hits(found@).len() == places.len());
        assert(hits(found@)[k as int] == entry_at(slice_items(pages@), 0, places[k as int]));
        let item = &pages[c.target.page_idx][c.target.item_idx];
        let name = normalize_match(c.label.as_str());
        assert(name@ == match_text(entry_hits(slice_items(pages@), 0)[k as int].1));
        assert(name@ == q@ ==> vocabulary(q@).intersect(vocabulary(name@)) =~= vocabulary(q@));
        r.push(
            Evidence {
                similarity: similarity(q.as_str(), name.as_str()),
                overlap: token_overlap(q.as_str(), name.as_str()),
                grouped: item.group.as_str().unicode_len() > 0,
            },
        );
        k += 1;
    }
    r
}

// ---------------------------------------------------------------------------
// Ranking
// ---------------------------------------------------------------------------

/// The key of the lowest score at which a candidate counts: 0.7 in single
/// precision.
pub const MATCH_THRESHOLD: u64 = 0x1_ff33_3333;

/// The key of the lowest score at which a lone hit is followed without asking:
/// 0.8 in single precision.
pub const CONFIDENT_THRESHOLD: u64 = 0x1_ff4c_cccd;

/// The result of a query. `alternates` lists the next best hits, on the best
/// hit only.
#[derive(Debug)]
pub struct NavMatch {
    pub target: NavTarget,
    /// The section or text that matched.
    pub label: String,
    /// The score, as a key to compare by: at most that of 1.
    pub score: u64,
    pub alternates: Vec<NavMatch>,
}

/// The score that is handed out: at most 1.
pub open spec fn capped(score: u64) -> u64 {
    if score <= FULL_KEY {
        score
    } else {
        FULL_KEY
    }
}

fn cap(score: u64) -> (r: u64)
    ensures
        r == capped(score),
{
    if score <= FULL_KEY {
        score
    } else {
        FULL_KEY
    }
}

/// The match is the candidate at `i`, with its score.
pub open spec fn is_hit(
    m: NavMatch,
    found: Seq<(NavTarget, Seq<char>)>,
    scores: Seq<u64>,
    i: usize,
) -> bool {
    &&& m.target == found[i as int].0
    &&& m.label@ == found[i as int].1
    &&& m.score == capped(scores[i as int])
}

/// What the ranking of the candidates by their scores gives: the best hit that
/// reaches the threshold, and the up to four next best that do. Of equal hits
/// the earlier candidate comes first.
pub open spec fn is_choice(
    r: Option<NavMatch>,
    found: Seq<(NavTarget, Seq<char>)>,
    scores: Seq<u64>,
) -> bool {
    let order = best(scores, MATCH_THRESHOLD, 5);
    match r {
        None => order.len() == 0,
        Some(m) => {
            &&& order.len() > 0
            &&& is_hit(m, found, scores, order[0])
            &&& m.alternates@.len() == order.len() - 1
            &&& forall|k: int|
                0 <= k < m.alternates@.len() ==> is_hit(
                    #[trigger] m.alternates@[k],
                    found,
                    scores,
                    order[k + 1],
                ) && m.alternates@[k].alternates@.len() == 0
        },
    }
}

/// Ranks the candidates by their scores.
pub fn choose_match(found: &Vec<Candidate>, scores: &Vec<u64>) -> (r: Option<NavMatch>)
    requires
        found.len() == scores.len(),
    ensures
        is_choice(r, hits(found@), scores@),
{
    let order = best_of(scores, MATCH_THRESHOLD, 5);
    if order.len() == 0 {
        return None;
    }
    let mut alternates: Vec<NavMatch> = Vec::new();
    let mut k: usize = 1;
    while k < order.len()
        invariant
            1 <= k <= order.len(),
            found.len() == scores.len(),
            forall|x: int| 0 <= x < order.len() ==> (#[trigger] order@[x]) < scores.len(),
            alternates.len() == k - 1,
            forall|x: int|
                0 <= x < alternates.len() ==> is_hit(
                    #[trigger] alternates@[x],
                    hits(found@),
                    scores@,
                    order@[x + 1],
                ) && alternates@[x].alternates@.len() == 0,
        decreases order.len() - k,
    {
        let i: usize = order[k];
        alternates.push(
            NavMatch {
                target: found[i].target,
                label: own(found[i].label.as_str()),
                score: cap(scores[i]),
                alternates: Vec::new(),
            },
        );
        k += 1;
    }
    let top: usize = order[0];
    Some(
        NavMatch {
            target: found[top].target,
            label: own(found[top].label.as_str()),
            score: cap(scores[top]),
            alternates,
        },
    )
}

/// Resolves a query against the pages of a tab. `scores` holds the score of
/// each entry of the pages, in their order, as a key to compare by.
pub fn resolve_section_in_pages(
    query: &str,
    pages: &[&[Item]],
    tab_idx: usize,
    scores: &Vec<u64>,
) -> (r: Option<NavMatch>)
    requires
        scores.len() == all_entries(slice_items(pages@)).len(),
    ensures
        match_text(query@).len() == 0 ==> r is None,
        match_text(query@).len() > 0 ==> is_choice(
            r,
            entry_hits(slice_items(pages@), tab_idx),
            scores@,
        ),
{
    let q = normalize_match(query);
    if q.as_str().unicode_len() == 0 {
        return None;
    }
    let found = section_candidates(pages, tab_idx);
    assert(hits(found@).len() == found.len());
    choose_match(&found, scores)
}

// ---------------------------------------------------------------------------
// Laws
// ---------------------------------------------------------------------------

/// What is chosen has a score from the threshold to 1, and so has each
/// alternate.
pub proof fn law_scores_are_shares(
    m: NavMatch,
    found: Seq<(NavTarget, Seq<char>)>,
    scores: Seq<u64>,
)
    requires
        scores.len() <= usize::MAX,
        is_choice(Some(m), found, scores),
    ensures
        MATCH_THRESHOLD <= m.score <= FULL_KEY,
        forall|k: int|
            0 <= k < m.alternates@.len() ==> MATCH_THRESHOLD <= (
            #[trigger] m.alternates@[k]).score <= FULL_KEY,
{
    lemma_reaching(scores, MATCH_THRESHOLD, 5);
    law_ranking_exists(scores);
}

/// Text in which only lower-case letters, digits and spaces stand, and letters
/// and digits nowhere meet.
pub open spec fn is_spread(s: Seq<char>) -> bool {
    &&& forall|i: int| 0 <= i < s.len() ==> is_plain(#[trigger] s[i]) || s[i] == ' '
    &&& forall|i: int, j: int|
        #![trigger s[i], s[j]]
        0 <= i && j == i + 1 && j < s.len() ==> !parts(s[i], s[j])
}

proof fn lemma_spread(s: Seq<char>)
    ensures
        is_spread(spread(s)),
        s.len() > 0 && is_alnum(s.last()) ==> spread(s).len() > 0 && spread(s).last() == lower(
            s.last(),
        ),
        s.len() > 0 && !is_alnum(s.last()) ==> spread(s).len() > 0 && spread(s).last() == ' ',
    decreases s.len(),
{
    if s.len() > 0 {
        let p = s.drop_last();
        lemma_spread(p);
        let before = spread(p);
        let t = spread(s);
        if s.len() > 1 {
            assert(p.last() == s[s.len() - 2]);
        }
        assert forall|i: int, j: int| 0 <= i && j == i + 1 && j < t.len() implies !parts(
            #[trigger] t[i],
            #[trigger] t[j],
        ) by {
            if j < before.len() {
                assert(t[i] == before[i] && t[j] == before[j]);
            } else if i == before.len() - 1 {
                assert(t[i] == before.last());
            }
        }
        assert forall|i: int| 0 <= i < t.len() implies is_plain(#[trigger] t[i]) || t[i] == ' ' by {
            if i < before.len() {
                assert(t[i] == before[i]);
            }
        }
    }
}

proof fn lemma_spread_keeps(s: Seq<char>)
    requires
        is_spread(s),
    ensures
        spread(s) == s,
    decreases s.len(),
{
    if s.len() > 0 {
        let p = s.drop_last();
        assert(is_spread(p)) by {
            assert forall|i: int| 0 <= i < p.len() implies is_plain(#[trigger] p[i]) || p[i]
                == ' ' by {
                assert(p[i] == s[i]);
            }
            assert forall|i: int, j: int| 0 <= i && j == i + 1 && j < p.len() implies !parts(
                #[trigger] p[i],
                #[trigger] p[j],
            ) by {
                assert(p[i] == s[i] && p[j] == s[j]);
            }
        }
        lemma_spread_keeps(p);
        let n = s.len() - 1;
        assert(is_plain(s[n]) || s[n] == ' ');
        if n > 0 {
            assert(!parts(s[n - 1], s[n]));
        }
        assert(s =~= p.push(s.last()));
    }
}

/// The words of spread text hold no letter beside a digit.
proof fn lemma_words_of_spread(s: Seq<char>)
    requires
        is_spread(s),
    ensures
        forall|j: int| 0 <= j < words(s).len() ==> is_spread(#[trigger] words(s)[j]),
        words(s).len() > 0 && s.len() > 0 && s.last() != ' ' ==> words(s).last().len() > 0
            && words(s).last().last() == s.last(),
    decreases s.len(),
{
    law_words_are_words(s);
    if s.len() > 0 {
        let p = s.drop_last();
        assert(is_spread(p)) by {
            assert forall|i: int| 0 <= i < p.len() implies is_plain(#[trigger] p[i]) || p[i]
                == ' ' by {
                assert(p[i] == s[i]);
            }
            assert forall|i: int, j: int| 0 <= i && j == i + 1 && j < p.len() implies !parts(
                #[trigger] p[i],
                #[trigger] p[j],
            ) by {
                assert(p[i] == s[i] && p[j] == s[j]);
            }
        }
        lemma_words_of_spread(p);
        law_words_are_words(p);
        assert(word_classes(s).drop_last() =~= word_classes(p));
        let n = s.len() - 1;
        let ws = words(s);
        let before = words(p);
        assert(is_plain(s[n]) || s[n] == ' ');
        if is_space(s[n]) {
            assert(ws == before);
        } else if n > 0 && !is_space(s[n - 1]) {
            assert(p.last() == s[n - 1]);
            assert(!parts(s[n - 1], s[n]));
            let last = before.last();
            let grown = last.push(s[n]);
            assert(ws == before.drop_last().push(grown));
            assert(is_spread(before[before.len() - 1]));
            assert(last.last() == s[n - 1]);
            assert(is_spread(grown)) by {
                assert forall|i: int| 0 <= i < grown.len() implies is_plain(#[trigger] grown[i])
                    || grown[i] == ' ' by {
                    if i < last.len() {
                        assert(grown[i] == last[i]);
                    }
                }
                assert forall|i: int, j: int| 0 <= i && j == i + 1 && j < grown.len() implies !parts(
                    #[trigger] grown[i],
                    #[trigger] grown[j],
                ) by {
                    if j < last.len() {
                        assert(grown[i] == last[i] && grown[j] == last[j]);
                    }
                }
            }
        } else {
            assert(ws == before.push(seq![s[n]]));
        }
        assert forall|j: int| 0 <= j < ws.len() implies is_spread(#[trigger] ws[j]) by {
            if j < ws.len() - 1 {
                assert(ws[j] == before[j]);
            } else if is_space(s[n]) {
                assert(ws[j] == before[j]);
            }
        }
    }
}

/// Joining spread words by spaces gives spread text.
proof fn lemma_join_is_spread(ws: Seq<Seq<char>>)
    requires
        forall|j: int| 0 <= j < ws.len() ==> is_spread(#[trigger] ws[j]),
    ensures
        is_spread(join(ws, seq![' '])),
    decreases ws.len(),
{
    if ws.len() == 1 {
        assert(is_spread(ws[0]));
    } else if ws.len() > 1 {
        let rest = ws.drop_last();
        assert forall|j: int| 0 <= j < rest.len() implies is_spread(#[trigger] rest[j]) by {
            assert(rest[j] == ws[j]);
        }
        lemma_join_is_spread(rest);
        let a = join(rest, seq![' ']);
        let b = ws[ws.len() - 1];
        assert(is_spread(b));
        let t = join(ws, seq![' ']);
        let n = a.len() as int;
        assert forall|i: int| 0 <= i < t.len() implies is_plain(#[trigger] t[i]) || t[i] == ' ' by {
            if i < n {
                assert(t[i] == a[i]);
            } else if i > n {
                assert(t[i] == b[i - n - 1]);
            }
        }
        assert forall|i: int, j: int| 0 <= i && j == i + 1 && j < t.len() implies !parts(
            #[trigger] t[i],
            #[trigger] t[j],
        ) by {
            if j < n {
                assert(t[i] == a[i] && t[j] == a[j]);
            } else if i > n {
                assert(t[i] == b[i - n - 1] && t[j] == b[j - n - 1]);
            } else {
                assert(t[n] == ' ');
            }
        }
    }
}

/// Normalising for matching twice is the same as once.
pub proof fn law_match_text_twice(s: Seq<char>)
    ensures
        match_text(match_text(s)) == match_text(s),
{
    let ws = words(spread(s));
    lemma_spread(s);
    law_words_are_words(spread(s));
    lemma_words_of_spread(spread(s));
    lemma_join_is_spread(ws);
    lemma_spread_keeps(match_text(s));
    law_split_undoes_join(ws);
}

/// Letter case does not matter for matching.
pub proof fn law_match_text_ignores_case(s: Seq<char>)
    ensures
        match_text(upper_all(s)) == match_text(s),
        match_text(lower_all(s)) == match_text(s),
{
    lemma_spread_ignores_case(s);
}

proof fn lemma_spread_ignores_case(s: Seq<char>)
    ensures
        spread(upper_all(s)) == spread(s),
        spread(lower_all(s)) == spread(s),
    decreases s.len(),
{
    if s.len() > 0 {
        lemma_spread_ignores_case(s.drop_last());
        assert(upper_all(s).drop_last() =~= upper_all(s.drop_last()));
        assert(lower_all(s).drop_last() =~= lower_all(s.drop_last()));
    }
}

/// No section is a candidate twice on one page: of two entries on a page that
/// have a section, the sections differ, letter case aside.
pub proof fn law_one_entry_per_group(items: Seq<Item>, i: int, j: int)
    requires
        0 <= i < j < items.len(),
        is_entry(items, i),
        is_entry(items, j),
        items[i].group@.len() > 0,
        items[j].group@.len() > 0,
    ensures
        lowercase(items[i].group@) != lowercase(items[j].group@),
{
    assert(group_keys(items)[i] == Some(lowercase(items[i].group@)));
}

/// The order of a query's words does not change how many of them a candidate
/// has: queries with the same words get the same overlap.
pub proof fn law_overlap_ignores_order(a: Seq<char>, b: Seq<char>, candidate: Seq<char>)
    requires
        words(a).to_multiset() == words(b).to_multiset(),
    ensures
        vocabulary(a) == vocabulary(b),
        vocabulary(a).intersect(vocabulary(candidate)).len() == vocabulary(b).intersect(
            vocabulary(candidate),
        ).len(),
{
    broadcast use vstd::seq_lib::group_to_multiset_ensures;

    assert forall|w: Seq<char>| words(a).contains(w) == words(b).contains(w) by {
        assert(words(a).contains(w) <==> words(a).to_multiset().count(w) > 0);
        assert(words(b).contains(w) <==> words(b).to_multiset().count(w) > 0);
    }
    assert(vocabulary(a) =~= vocabulary(b));
}

proof fn lemma_spread_at_mark(a: Seq<char>, c: char, b: Seq<char>)
    requires
        !is_alnum(c),
    ensures
        spread(a.push(c) + b) == spread(a.push(' ') + b),
    decreases b.len(),
{
    if b.len() == 0 {
        assert(a.push(c) + b =~= a.push(c));
        assert(a.push(' ') + b =~= a.push(' '));
        assert(a.push(c).drop_last() =~= a.push(' ').drop_last());
    } else {
        lemma_spread_at_mark(a, c, b.drop_last());
        let x = a.push(c) + b;
        let y = a.push(' ') + b;
        assert(x.drop_last() =~= a.push(c) + b.drop_last());
        assert(y.drop_last() =~= a.push(' ') + b.drop_last());
        assert(x.last() == y.last());
        let n = x.len() - 2;
        if b.len() == 1 {
            assert(x[n] == c && y[n] == ' ');
        } else {
            assert(x[n] == b[b.len() - 2] && y[n] == b[b.len() - 2]);
        }
    }
}

proof fn lemma_spread_at_seam(a: Seq<char>, b: Seq<char>)
    requires
        a.len() > 0,
        b.len() > 0,
        parts(a.last(), b[0]),
    ensures
        spread(a + b) == spread(a.push(' ') + b),
    decreases b.len(),
{
    let x = a + b;
    let y = a.push(' ') + b;
    let n = x.len() - 2;
    assert(x.last() == b.last() && y.last() == b.last());
    assert(x.drop_last() =~= a + b.drop_last());
    assert(y.drop_last() =~= a.push(' ') + b.drop_last());
    if b.len() == 1 {
        assert(x.drop_last() =~= a);
        assert(y.drop_last() =~= a.push(' '));
        assert(a.push(' ').drop_last() =~= a);
        assert(x[n] == a.last());
        assert(y[n + 1] == ' ');
        assert(spread(a.push(' ')) == spread(a).push(' '));
    } else {
        lemma_spread_at_seam(a, b.drop_last());
        assert(x[n] == b[b.len() - 2]);
        assert(y[n + 1] == b[b.len() - 2]);
    }
}

/// For matching, every mark parts words as a space does.
pub proof fn law_every_mark_parts_words(a: Seq<char>, c: char, b: Seq<char>)
    requires
        !('a' <= c <= 'z') && !('A' <= c <= 'Z') && !('0' <= c <= '9'),
    ensures
        match_text(a.push(c) + b) == match_text(a.push(' ') + b),
{
    lemma_spread_at_mark(a, c, b);
}

/// For matching, a letter and a digit beside it are parted.
pub proof fn law_letters_and_digits_are_parted(a: Seq<char>, b: Seq<char>)
    requires
        a.len() > 0,
        b.len() > 0,
        ('a' <= a.last() <= 'z' && '0' <= b[0] <= '9') || ('0' <= a.last() <= '9' && 'a' <= b[0]
            <= 'z'),
    ensures
        match_text(a + b) == match_text(a.push(' ') + b),
{
    lemma_spread_at_seam(a, b);
}

/// Lower-case words of letters, with a space between neighbours, are matched as
/// they are, and so are numbers.
pub proof fn law_plain_words_stay(ws: Seq<Seq<char>>)
    requires
        forall|j: int| 0 <= j < ws.len() ==> (#[trigger] ws[j]).len() > 0,
        forall|j: int, k: int|
            0 <= j < ws.len() && 0 <= k < ws[j].len() ==> 'a' <= #[trigger] ws[j][k] <= 'z',
    ensures
        match_text(join(ws, seq![' '])) == join(ws, seq![' ']),
{
    assert forall|j: int| 0 <= j < ws.len() implies is_spread(#[trigger] ws[j]) by {
        let w = ws[j];
        assert forall|i: int| 0 <= i < w.len() implies is_plain(#[trigger] w[i]) || w[i] == ' ' by {
            assert('a' <= ws[j][i] <= 'z');
        }
        assert forall|i: int, k: int| 0 <= i && k == i + 1 && k < w.len() implies !parts(
            #[trigger] w[i],
            #[trigger] w[k],
        ) by {
            assert('a' <= ws[j][i] <= 'z');
            assert('a' <= ws[j][k] <= 'z');
        }
    }
    lemma_join_is_spread(ws);
    lemma_spread_keeps(join(ws, seq![' ']));
    assert forall|j: int, k: int| 0 <= j < ws.len() && 0 <= k < ws[j].len() implies !is_space(
        #[trigger] ws[j][k],
    ) by {
        assert('a' <= ws[j][k] <= 'z');
    }
    law_split_undoes_join(ws);
}

/// An item is compared with the query by its section, or by its own text where it
/// has none. All of the query's words are shared where each is a word of that name,
/// and only there.
pub proof fn law_items_are_compared_by_their_section(
    e: Evidence,
    query: Seq<char>,
    item: Item,
    name: Seq<char>,
)
    requires
        is_evidence(e, query, item),
        item.group@.len() > 0 ==> name == match_text(item.group@),
        item.group@.len() == 0 ==> name == match_text(item.text@),
    ensures
        e.similarity == similarity_bits(query, name),
        e.grouped == (item.group@.len() > 0),
        e.overlap.common <= e.overlap.total,
        e.overlap.common == e.overlap.total ==> forall|w: Seq<char>|
            words(query).contains(w) ==> #[trigger] words(name).contains(w),
        (forall|w: Seq<char>| words(query).contains(w) ==> #[trigger] words(name).contains(w))
            ==> e.overlap.common == e.overlap.total,
{
    let a = vocabulary(query);
    let b = vocabulary(name);
    vstd::seq_lib::seq_to_set_is_finite(words(query));
    vstd::set_lib::lemma_len_subset(a.intersect(b), a);
    assert forall|w: Seq<char>| words(query).contains(w) == #[trigger] a.contains(w) by {}
    assert forall|w: Seq<char>| #[trigger] words(name).contains(w) == b.contains(w) by {}
    if a.intersect(b).len() == a.len() {
        vstd::set_lib::lemma_subset_equality(a.intersect(b), a);
        assert forall|w: Seq<char>| words(query).contains(w) implies #[trigger] words(
            name,
        ).contains(w) by {
            assert(a.contains(w));
            assert(a.intersect(b).contains(w));
        }
    }
    if forall|w: Seq<char>| words(query).contains(w) ==> #[trigger] words(name).contains(w) {
        assert forall|w: Seq<char>| a.contains(w) implies a.intersect(b).contains(w) by {
            assert(words(query).contains(w));
            assert(words(name).contains(w));
        }
        assert(a.intersect(b) =~= a);
    }
}

} // verus!
