//! How a text is pronounced, told by what becomes of its parts.

use vstd::prelude::*;

use crate::pronunciation::{
    expanded, law_whole_words_only, law_words_are_expanded_apart, marks_of, page_ref_at,
    page_refs_from, phrased, plain_step, replace_ci_from, spoken, unicode_alphanumeric,
    without_context, PronunciationConfig,
};
use crate::rank::{ahead, law_ranking_exists, ranking};
use crate::text::{
    byte_len, first_from, is_digit, is_space, law_replacing_absent_text_changes_nothing,
    law_text_is_replaced_in_turn, lemma_first_from, lower_all, occurs_at, replace, trim,
};
use crate::word_map::{key_lengths, longest_key_first, lookup};

verus! {

// ---------------------------------------------------------------------------
// Abbreviations
// ---------------------------------------------------------------------------

/// Without phrases, a spoken form is said with its words expanded.
proof fn lemma_no_phrases(t: Seq<char>, form: Seq<char>, cfg: PronunciationConfig)
    requires
        cfg.phrases@.len() == 0,
    ensures
        spoken(t, Some(form), cfg) == expanded(form, cfg.abbreviations@),
{
    assert(longest_key_first(cfg.phrases@) =~= Seq::empty());
}

/// A spoken form that is one word of letters and digits is said as its entry in
/// the table of abbreviations, or as it is where the table has none.
pub proof fn law_a_listed_word_is_said_as_its_entry(
    t: Seq<char>,
    w: Seq<char>,
    cfg: PronunciationConfig,
)
    requires
        cfg.phrases@.len() == 0,
        w.len() > 0,
        forall|i: int| 0 <= i < w.len() ==> unicode_alphanumeric(#[trigger] w[i]),
    ensures
        lookup(cfg.abbreviations@, w) matches Some(v) ==> spoken(t, Some(w), cfg) == v,
        lookup(cfg.abbreviations@, w) is None ==> spoken(t, Some(w), cfg) == w,
{
    lemma_no_phrases(t, w, cfg);
    law_whole_words_only(w, cfg.abbreviations@);
}

/// Words are said each on its own: a character that is no letter or digit stays,
/// and what stands before and behind it is said as it is said alone.
pub proof fn law_words_are_said_apart(
    t: Seq<char>,
    a: Seq<char>,
    c: char,
    b: Seq<char>,
    cfg: PronunciationConfig,
)
    requires
        cfg.phrases@.len() == 0,
        !unicode_alphanumeric(c),
    ensures
        spoken(t, Some(a + seq![c] + b), cfg) == spoken(t, Some(a), cfg) + seq![c] + spoken(
            t,
            Some(b),
            cfg,
        ),
{
    lemma_no_phrases(t, a + seq![c] + b, cfg);
    lemma_no_phrases(t, a, cfg);
    lemma_no_phrases(t, b, cfg);
    law_words_are_expanded_apart(a, c, b, cfg.abbreviations@);
}

/// Nothing is said for nothing.
pub proof fn law_nothing_is_said_for_nothing(t: Seq<char>, cfg: PronunciationConfig)
    requires
        cfg.phrases@.len() == 0,
    ensures
        spoken(t, Some(Seq::empty()), cfg).len() == 0,
{
    lemma_no_phrases(t, Seq::empty(), cfg);
}

/// The characters from `i` up to `j` are a word of the text: letters and digits,
/// with none before and none behind.
pub open spec fn is_run(s: Seq<char>, i: int, j: int) -> bool {
    &&& 0 <= i < j <= s.len()
    &&& forall|k: int| i <= k < j ==> unicode_alphanumeric(#[trigger] s[k])
    &&& i == 0 || !unicode_alphanumeric(s[i - 1])
    &&& j == s.len() || !unicode_alphanumeric(s[j])
}

/// Some word of the text is in the table.
pub open spec fn has_listed_word(s: Seq<char>, map: Seq<(Seq<char>, Seq<char>)>) -> bool {
    exists|i: int, j: int| #[trigger] is_run(s, i, j) && lookup(map, s.subrange(i, j)) is Some
}

proof fn lemma_listed_apart(
    a: Seq<char>,
    c: char,
    b: Seq<char>,
    map: Seq<(Seq<char>, Seq<char>)>,
)
    requires
        !unicode_alphanumeric(c),
        !has_listed_word(a, map),
        !has_listed_word(b, map),
    ensures
        !has_listed_word(a + seq![c] + b, map),
{
    let s = a + seq![c] + b;
    let at = a.len() as int;
    assert(s[at] == c);
    if has_listed_word(s, map) {
        let (i, j) = choose|i: int, j: int| #[trigger]
            is_run(s, i, j) && lookup(map, s.subrange(i, j)) is Some;
        if j <= at {
            assert forall|k: int| i <= k < j implies unicode_alphanumeric(#[trigger] a[k]) by {
                assert(s[k] == a[k]);
            }
            if i > 0 {
                assert(s[i - 1] == a[i - 1]);
            }
            if j < at {
                assert(s[j] == a[j]);
            }
            assert(is_run(a, i, j));
            assert(s.subrange(i, j) =~= a.subrange(i, j));
        } else {
            if i <= at {
                assert(unicode_alphanumeric(s[at]));
            }
            let p = i - at - 1;
            let q = j - at - 1;
            assert forall|k: int| p <= k < q implies unicode_alphanumeric(#[trigger] b[k]) by {
                assert(s[at + 1 + k] == b[k]);
            }
            if p > 0 {
                assert(s[i - 1] == b[p - 1]);
            }
            if q < b.len() {
                assert(s[j] == b[q]);
            }
            assert(is_run(b, p, q));
            assert(s.subrange(i, j) =~= b.subrange(p, q));
        }
    }
}

proof fn lemma_none_left(s: Seq<char>, map: Seq<(Seq<char>, Seq<char>)>, i: int)
    requires
        0 <= i <= s.len(),
        forall|k: int| 0 <= k < i ==> unicode_alphanumeric(#[trigger] s[k]),
        forall|w: Seq<char>| (#[trigger] lookup(map, w)) matches Some(v) ==> !has_listed_word(
            v,
            map,
        ),
    ensures
        !has_listed_word(expanded(s, map), map),
    decreases s.len(), s.len() - i,
{
    if i < s.len() && unicode_alphanumeric(s[i]) {
        lemma_none_left(s, map, i + 1);
    } else if i < s.len() {
        let a = s.take(i);
        let b = s.skip(i + 1);
        assert(s =~= a + seq![s[i]] + b);
        assert forall|k: int| 0 <= k < a.len() implies unicode_alphanumeric(#[trigger] a[k]) by {
            assert(a[k] == s[k]);
        }
        lemma_none_left(a, map, a.len() as int);
        lemma_none_left(b, map, 0);
        law_words_are_expanded_apart(a, s[i], b, map);
        lemma_listed_apart(expanded(a, map), s[i], expanded(b, map), map);
    } else if s.len() > 0 {
        law_whole_words_only(s, map);
        if lookup(map, s) is None {
            if has_listed_word(s, map) {
                let (p, q) = choose|p: int, q: int| #[trigger]
                    is_run(s, p, q) && lookup(map, s.subrange(p, q)) is Some;
                if p > 0 {
                    assert(unicode_alphanumeric(s[p - 1]));
                }
                if q < s.len() {
                    assert(unicode_alphanumeric(s[q]));
                }
                assert(s.subrange(p, q) =~= s);
            }
        }
    } else {
        assert(expanded(s, map).len() == 0);
    }
}

/// No abbreviation is left in what is said, where the entries of the table hold
/// none.
pub proof fn law_no_abbreviation_is_left(
    t: Seq<char>,
    form: Option<Seq<char>>,
    cfg: PronunciationConfig,
)
    requires
        forall|w: Seq<char>| (#[trigger] lookup(cfg.abbreviations@, w)) matches Some(v) ==>
            !has_listed_word(v, cfg.abbreviations@),
    ensures
        !has_listed_word(spoken(t, form, cfg), cfg.abbreviations@),
{
    let base = match form {
        Some(f) => f,
        None => plain_step(t),
    };
    lemma_none_left(
        phrased(base, longest_key_first(cfg.phrases@)),
        cfg.abbreviations@,
        0,
    );
}

// ---------------------------------------------------------------------------
// Phrases
// ---------------------------------------------------------------------------

proof fn lemma_one_phrase(k: Seq<char>, v: Seq<char>, h: Seq<char>)
    ensures
        phrased(h, longest_key_first(seq![(k, v)])) == replace_ci_from(h, k, v, 0),
{
    let pairs = seq![(k, v)];
    law_ranking_exists(key_lengths(pairs));
    assert(ranking(key_lengths(pairs))[0] == 0);
    let rules = longest_key_first(pairs);
    assert(rules =~= pairs);
    assert(rules.drop_last() =~= Seq::empty());
    assert(phrased(h, rules.drop_last()) == h);
}

/// The phrase stands in the text at `i`, letter case aside.
pub open spec fn stands_in_any_case(h: Seq<char>, k: Seq<char>, i: int) -> bool {
    0 <= i && i + k.len() <= h.len() && lower_all(h.subrange(i, i + k.len())) == lower_all(k)
}

proof fn lemma_any_case(h: Seq<char>, k: Seq<char>, i: int)
    ensures
        stands_in_any_case(h, k, i) == occurs_at(lower_all(h), lower_all(k), i),
{
    if 0 <= i && i + k.len() <= h.len() {
        assert(lower_all(h).subrange(i, i + k.len()) =~= lower_all(h.subrange(i, i + k.len())));
    }
}

proof fn lemma_ci_kept(h: Seq<char>, k: Seq<char>, v: Seq<char>, from: int, i: int)
    requires
        0 <= from <= i <= h.len(),
        forall|j: int| from <= j < i ==> !stands_in_any_case(h, k, j),
    ensures
        replace_ci_from(h, k, v, from) == h.subrange(from, i) + replace_ci_from(h, k, v, i),
    decreases i - from,
{
    if from < i {
        lemma_any_case(h, k, from);
        lemma_ci_kept(h, k, v, from + 1, i);
        assert(seq![h[from]] + (h.subrange(from + 1, i) + replace_ci_from(h, k, v, i))
            =~= h.subrange(from, i) + replace_ci_from(h, k, v, i));
    } else {
        assert(h.subrange(from, i) + replace_ci_from(h, k, v, i) =~= replace_ci_from(h, k, v, i));
    }
}

proof fn lemma_ci_rest(h: Seq<char>, k: Seq<char>, v: Seq<char>, at: int, i: int)
    requires
        k.len() > 0,
        0 <= at <= h.len(),
        0 <= i <= h.len() - at,
    ensures
        replace_ci_from(h, k, v, at + i) == replace_ci_from(h.skip(at), k, v, i),
    decreases h.len() - at - i,
{
    let t = h.skip(at);
    if i < t.len() {
        if i + k.len() <= t.len() {
            assert(lower_all(t).subrange(i, i + k.len()) =~= lower_all(h).subrange(
                at + i,
                at + i + k.len(),
            ));
        }
        if occurs_at(lower_all(t), lower_all(k), i) {
            lemma_ci_rest(h, k, v, at, i + k.len());
        } else {
            lemma_ci_rest(h, k, v, at, i + 1);
        }
    }
}

/// Where a phrase of the table stands in what is said for the first time, letter
/// case aside, its entry is said in its place, and what comes behind is said as
/// it is said alone.
pub proof fn law_a_listed_phrase_is_said_as_its_entry(
    t: Seq<char>,
    h: Seq<char>,
    k: Seq<char>,
    v: Seq<char>,
    i: int,
    cfg: PronunciationConfig,
)
    requires
        cfg.phrases@ == seq![(k, v)],
        cfg.abbreviations@.len() == 0,
        k.len() > 0,
        stands_in_any_case(h, k, i),
        forall|j: int| 0 <= j < i ==> !stands_in_any_case(h, k, j),
    ensures
        spoken(t, Some(h), cfg) == h.take(i) + v + spoken(t, Some(h.skip(i + k.len())), cfg),
{
    let rest = h.skip(i + k.len());
    lemma_one_phrase(k, v, h);
    lemma_one_phrase(k, v, rest);
    lemma_any_case(h, k, i);
    lemma_ci_kept(h, k, v, 0, i);
    lemma_ci_rest(h, k, v, i + k.len(), 0);
    assert(h.subrange(0, i) =~= h.take(i));
    assert(h.take(i) + (v + replace_ci_from(rest, k, v, 0)) =~= h.take(i) + v + replace_ci_from(
        rest,
        k,
        v,
        0,
    ));
    lemma_no_abbreviations(replace_ci_from(h, k, v, 0), cfg);
    lemma_no_abbreviations(replace_ci_from(rest, k, v, 0), cfg);
}

/// Where no phrase of the table stands in a spoken form, it is said as it is.
pub proof fn law_an_absent_phrase_changes_nothing(
    t: Seq<char>,
    h: Seq<char>,
    k: Seq<char>,
    v: Seq<char>,
    cfg: PronunciationConfig,
)
    requires
        cfg.phrases@ == seq![(k, v)],
        cfg.abbreviations@.len() == 0,
        forall|j: int| !stands_in_any_case(h, k, j),
    ensures
        spoken(t, Some(h), cfg) == h,
{
    lemma_one_phrase(k, v, h);
    lemma_ci_kept(h, k, v, 0, h.len() as int);
    assert(h.subrange(0, h.len() as int) + Seq::<char>::empty() =~= h);
    lemma_no_abbreviations(h, cfg);
}

proof fn lemma_no_abbreviations(h: Seq<char>, cfg: PronunciationConfig)
    requires
        cfg.abbreviations@.len() == 0,
    ensures
        expanded(h, cfg.abbreviations@) == h,
{
    assert forall|i: int, j: int| 0 <= i < j <= h.len() implies lookup(
        cfg.abbreviations@,
        #[trigger] h.subrange(i, j),
    ) is None by {}
    crate::pronunciation::law_unlisted_words_stay(h, marks_of(h), cfg.abbreviations@);
}

/// Of two phrases the longer one is replaced first, whichever was entered first;
/// abbreviations are expanded after all phrases.
pub proof fn law_longer_phrases_go_first(
    t: Seq<char>,
    h: Seq<char>,
    long: (Seq<char>, Seq<char>),
    short: (Seq<char>, Seq<char>),
    cfg: PronunciationConfig,
)
    requires
        cfg.phrases@ == seq![long, short] || cfg.phrases@ == seq![short, long],
        byte_len(long.0) > byte_len(short.0),
        byte_len(long.0) <= u64::MAX,
    ensures
        spoken(t, Some(h), cfg) == expanded(
            replace_ci_from(replace_ci_from(h, long.0, long.1, 0), short.0, short.1, 0),
            cfg.abbreviations@,
        ),
{
    let pairs = cfg.phrases@;
    let lengths = key_lengths(pairs);
    law_ranking_exists(lengths);
    let order = ranking(lengths);
    let l: int = if pairs == seq![long, short] {
        0
    } else {
        1
    };
    assert(pairs[l] == long && pairs[1 - l] == short);
    assert(lengths[l] > lengths[1 - l]);
    assert(ahead(lengths, order[0], order[1]));
    assert(order[0] != order[1]);
    assert(order[0] == l && order[1] == 1 - l);
    let rules = longest_key_first(pairs);
    assert(rules =~= seq![long, short]);
    let first = rules.drop_last();
    assert(first =~= seq![long]);
    assert(first.drop_last() =~= Seq::empty());
    assert(phrased(h, first.drop_last()) == h);
    assert(phrased(h, first) == replace_ci_from(h, long.0, long.1, 0));
}

/// Phrases are replaced before abbreviations are expanded: to say a text is to
/// say, without phrases, what it is without abbreviations.
pub proof fn law_phrases_go_before_abbreviations(
    t: Seq<char>,
    h: Seq<char>,
    cfg: PronunciationConfig,
    only_phrases: PronunciationConfig,
    only_words: PronunciationConfig,
)
    requires
        only_phrases.phrases@ == cfg.phrases@,
        only_phrases.abbreviations@.len() == 0,
        only_words.phrases@.len() == 0,
        only_words.abbreviations@ == cfg.abbreviations@,
    ensures
        spoken(t, Some(h), cfg) == spoken(
            t,
            Some(spoken(t, Some(h), only_phrases)),
            only_words,
        ),
{
    let said = phrased(h, longest_key_first(cfg.phrases@));
    lemma_no_abbreviations(said, only_phrases);
    lemma_no_phrases(t, said, only_words);
}

// ---------------------------------------------------------------------------
// Steps
// ---------------------------------------------------------------------------

/// A text without a bar, a full stop or a slash.
pub open spec fn is_calm(s: Seq<char>) -> bool {
    forall|i: int| 0 <= i < s.len() ==> (#[trigger] s[i]) != '|' && s[i] != '.' && s[i] != '/'
}

proof fn lemma_no_page_refs(s: Seq<char>, marks: Seq<bool>, i: int)
    requires
        0 <= i <= s.len(),
        forall|k: int| i + 2 <= k < s.len() ==> (#[trigger] s[k]) != '.',
    ensures
        page_refs_from(s, marks, i) == s.skip(i),
    decreases s.len() - i,
{
    if i < s.len() {
        if page_ref_at(s, marks, i) {
            assert(s[i + 2] == '.');
        }
        lemma_no_page_refs(s, marks, i + 1);
        assert(s.skip(i) =~= seq![s[i]] + s.skip(i + 1));
    } else {
        assert(s.skip(i) =~= Seq::empty());
    }
}

proof fn lemma_after_context(s: Seq<char>)
    requires
        is_calm(without_context(s)),
    ensures
        plain_step(s) == without_context(s),
{
    let w = without_context(s);
    reveal_strlit("/");
    assert forall|k: int| !occurs_at(w, "/"@, k) by {
        if occurs_at(w, "/"@, k) {
            assert(w.subrange(k, k + 1)[0] == w[k]);
        }
    }
    law_replacing_absent_text_changes_nothing(w, "/"@, ", "@);
    lemma_no_page_refs(w, marks_of(w), 0);
    assert(w.skip(0) =~= w);
}

proof fn lemma_no_bar(s: Seq<char>)
    requires
        forall|i: int| 0 <= i < s.len() ==> (#[trigger] s[i]) != '|',
    ensures
        without_context(s) == replace(s, " ... "@, ", "@),
{
    reveal_strlit(" | ");
    lemma_first_from(s, " | "@, 0);
    if let Some(i) = first_from(s, " | "@, 0) {
        assert(s.subrange(i, i + 3)[1] == s[i + 1]);
    }
}

proof fn lemma_no_dots(s: Seq<char>)
    requires
        forall|i: int| 0 <= i < s.len() ==> (#[trigger] s[i]) != '.',
    ensures
        replace(s, " ... "@, ", "@) == s,
{
    reveal_strlit(" ... ");
    assert forall|k: int| !occurs_at(s, " ... "@, k) by {
        if occurs_at(s, " ... "@, k) {
            assert(s.subrange(k, k + 5)[1] == s[k + 1]);
        }
    }
    law_replacing_absent_text_changes_nothing(s, " ... "@, ", "@);
}

/// A text without a bar, a full stop or a slash is said as it is written, before
/// the tables are looked at.
pub proof fn law_calm_text_is_said_as_written(s: Seq<char>)
    requires
        is_calm(s),
    ensures
        plain_step(s) == s,
{
    lemma_no_bar(s);
    lemma_no_dots(s);
    lemma_after_context(s);
}

/// The context of a step is not said: of "a | b...c" what is said is a and, after
/// a pause, c.
#[verifier::rlimit(40)]
pub proof fn law_context_is_not_said(a: Seq<char>, b: Seq<char>, c: Seq<char>)
    requires
        is_calm(a),
        is_calm(c),
        forall|i: int| 0 <= i < b.len() ==> (#[trigger] b[i]) != '.',
    ensures
        plain_step(a + " | "@ + b + "..."@ + c) == trim(a) + ", "@ + trim(c),
{
    let s = a + " | "@ + b + "..."@ + c;
    reveal_strlit(" | ");
    reveal_strlit("...");
    reveal_strlit(", ");
    let n = a.len() as int;
    assert(s.subrange(n, n + 3) =~= " | "@);
    lemma_first_from(s, " | "@, 0);
    assert(s =~= a + " | "@ + (b + "..."@ + c));
    lemma_bar_is_first(a, b + "..."@ + c, s);
    let after = s.skip(n + 3);
    assert(s.take(n) =~= a);
    assert(after =~= b + "..."@ + c);
    let m = b.len() as int;
    assert(after.subrange(m, m + 3) =~= "..."@);
    lemma_first_from(after, "..."@, 0);
    let j = first_from(after, "..."@, 0)->0;
    assert(occurs_at(after, "..."@, m));
    if j < m {
        assert(after.subrange(j, j + 3)[0] == after[j]);
        assert(after[j] == b[j]);
    }
    assert(j == m);
    assert(after.skip(m + 3) =~= c);
    let said = trim(a) + ", "@ + trim(c);
    assert(without_context(s) == said);
    lemma_trim_is_part(a);
    lemma_trim_is_part(c);
    assert forall|i: int| 0 <= i < said.len() implies (#[trigger] said[i]) != '|' && said[i] != '.'
        && said[i] != '/' by {
        let x = trim(a).len();
        if i < x {
            assert(a.contains(trim(a)[i]));
        } else if i >= x + 2 {
            assert(said[i] == trim(c)[i - x - 2]);
            assert(c.contains(trim(c)[i - x - 2]));
        }
    }
    lemma_after_context(s);
}

/// Where no action follows the context, what stands before it is said alone.
pub proof fn law_a_step_with_context_alone(a: Seq<char>, b: Seq<char>)
    requires
        is_calm(a),
        forall|i: int| 0 <= i < b.len() ==> (#[trigger] b[i]) != '.',
    ensures
        plain_step(a + " | "@ + b) == trim(a),
{
    let s = a + " | "@ + b;
    reveal_strlit(" | ");
    reveal_strlit("...");
    let n = a.len() as int;
    lemma_first_from(s, " | "@, 0);
    lemma_bar_is_first(a, b, s);
    let after = s.skip(n + 3);
    assert(s.take(n) =~= a);
    assert(after =~= b);
    lemma_first_from(after, "..."@, 0);
    if let Some(j) = first_from(after, "..."@, 0) {
        assert(after.subrange(j, j + 3)[0] == b[j]);
    }
    lemma_trim_is_part(a);
    assert forall|i: int| 0 <= i < trim(a).len() implies (#[trigger] trim(a)[i]) != '|' && trim(
        a,
    )[i] != '.' && trim(a)[i] != '/' by {
        assert(a.contains(trim(a)[i]));
    }
    lemma_after_context(s);
}

#[verifier::rlimit(40)]
proof fn lemma_bar_is_first(a: Seq<char>, rest: Seq<char>, s: Seq<char>)
    requires
        s == a + " | "@ + rest,
        forall|i: int| 0 <= i < a.len() ==> (#[trigger] a[i]) != '|',
    ensures
        first_from(s, " | "@, 0) == Some(a.len() as int),
{
    reveal_strlit(" | ");
    let n = a.len() as int;
    assert(s.subrange(n, n + 3) =~= " | "@);
    assert(occurs_at(s, " | "@, n));
    lemma_first_from(s, " | "@, 0);
    let i = first_from(s, " | "@, 0)->0;
    if i < n {
        assert(s.subrange(i, i + 3)[1] == s[i + 1]);
        if i + 1 < n {
            assert(s[i + 1] == a[i + 1]);
        } else {
            assert(s[n] == ' ');
        }
    }
}

proof fn lemma_trim_is_part(s: Seq<char>)
    ensures
        forall|i: int| 0 <= i < trim(s).len() ==> s.contains(#[trigger] trim(s)[i]),
    decreases s.len(),
{
    lemma_trim_start_is_part(s);
    lemma_trim_end_is_part(crate::text::trim_start(s));
    let t = crate::text::trim_start(s);
    assert forall|i: int| 0 <= i < trim(s).len() implies s.contains(#[trigger] trim(s)[i]) by {
        assert(t.contains(trim(s)[i]));
        let k = choose|k: int| 0 <= k < t.len() && t[k] == trim(s)[i];
        assert(s.contains(t[k]));
    }
}

proof fn lemma_trim_start_is_part(s: Seq<char>)
    ensures
        forall|i: int|
            0 <= i < crate::text::trim_start(s).len() ==> s.contains(
                #[trigger] crate::text::trim_start(s)[i],
            ),
    decreases s.len(),
{
    if s.len() > 0 && is_space(s[0]) {
        let r = s.skip(1);
        lemma_trim_start_is_part(r);
        assert forall|i: int| 0 <= i < crate::text::trim_start(s).len() implies s.contains(
            #[trigger] crate::text::trim_start(s)[i],
        ) by {
            let c = crate::text::trim_start(r)[i];
            assert(r.contains(c));
            let k = choose|k: int| 0 <= k < r.len() && r[k] == c;
            assert(s[k + 1] == c);
        }
    }
}

proof fn lemma_trim_end_is_part(s: Seq<char>)
    ensures
        forall|i: int|
            0 <= i < crate::text::trim_end(s).len() ==> s.contains(
                #[trigger] crate::text::trim_end(s)[i],
            ),
    decreases s.len(),
{
    if s.len() > 0 && is_space(s.last()) {
        let r = s.drop_last();
        lemma_trim_end_is_part(r);
        assert forall|i: int| 0 <= i < crate::text::trim_end(s).len() implies s.contains(
            #[trigger] crate::text::trim_end(s)[i],
        ) by {
            let c = crate::text::trim_end(r)[i];
            assert(r.contains(c));
            let k = choose|k: int| 0 <= k < r.len() && r[k] == c;
            assert(s[k] == c);
        }
    }
}

/// Dots between spaces are a pause: "a ... c" is said as a and, after a pause, c.
pub proof fn law_dots_are_a_pause(a: Seq<char>, c: Seq<char>)
    requires
        is_calm(a),
        is_calm(c),
    ensures
        plain_step(a + " ... "@ + c) == a + ", "@ + c,
{
    let s = a + " ... "@ + c;
    reveal_strlit(" ... ");
    reveal_strlit(", ");
    let n = a.len() as int;
    assert forall|i: int| 0 <= i < s.len() implies (#[trigger] s[i]) != '|' by {
        if i < n {
            assert(s[i] == a[i]);
        } else if i >= n + 5 {
            assert(s[i] == c[i - n - 5]);
        }
    }
    lemma_no_bar(s);
    assert(s.subrange(n, n + 5) =~= " ... "@);
    assert(occurs_at(s, " ... "@, n));
    assert forall|k: int| 0 <= k < n implies !occurs_at(s, " ... "@, k) by {
        if occurs_at(s, " ... "@, k) {
            assert(s.subrange(k, k + 5)[1] == s[k + 1]);
            if k + 1 < n {
                assert(s[k + 1] == a[k + 1]);
            } else {
                assert(s[n] == ' ');
            }
        }
    }
    law_text_is_replaced_in_turn(s, " ... "@, ", "@, n);
    assert(s.take(n) =~= a);
    assert(s.skip(n + 5) =~= c);
    lemma_no_dots(c);
    let said = a + ", "@ + c;
    assert forall|i: int| 0 <= i < said.len() implies (#[trigger] said[i]) != '|' && said[i] != '.'
        && said[i] != '/' by {
        if i < n {
            assert(said[i] == a[i]);
        } else if i >= n + 2 {
            assert(said[i] == c[i - n - 2]);
        }
    }
    lemma_after_context(s);
}

/// A slash is a pause: "a/b" is said as a and, after a pause, b.
pub proof fn law_a_slash_is_a_pause(a: Seq<char>, b: Seq<char>)
    requires
        is_calm(a),
        is_calm(b),
    ensures
        plain_step(a + "/"@ + b) == a + ", "@ + b,
{
    let s = a + "/"@ + b;
    reveal_strlit("/");
    reveal_strlit(", ");
    let n = a.len() as int;
    assert forall|i: int| 0 <= i < s.len() implies (#[trigger] s[i]) != '|' && s[i] != '.' by {
        if i < n {
            assert(s[i] == a[i]);
        } else if i >= n + 1 {
            assert(s[i] == b[i - n - 1]);
        }
    }
    lemma_no_bar(s);
    lemma_no_dots(s);
    assert(s.subrange(n, n + 1) =~= "/"@);
    assert forall|k: int| 0 <= k < n implies !occurs_at(s, "/"@, k) by {
        if occurs_at(s, "/"@, k) {
            assert(s.subrange(k, k + 1)[0] == a[k]);
        }
    }
    law_text_is_replaced_in_turn(s, "/"@, ", "@, n);
    assert(s.take(n) =~= a);
    assert(s.skip(n + 1) =~= b);
    assert forall|k: int| !occurs_at(b, "/"@, k) by {
        if occurs_at(b, "/"@, k) {
            assert(b.subrange(k, k + 1)[0] == b[k]);
        }
    }
    law_replacing_absent_text_changes_nothing(b, "/"@, ", "@);
    let said = a + ", "@ + b;
    assert forall|i: int| 0 <= i < said.len() implies (#[trigger] said[i]) != '.' by {
        if i < n {
            assert(said[i] == a[i]);
        } else if i >= n + 2 {
            assert(said[i] == b[i - n - 2]);
        }
    }
    lemma_no_page_refs(said, marks_of(said), 0);
    assert(said.skip(0) =~= said);
}

proof fn lemma_page_refs_kept(s: Seq<char>, marks: Seq<bool>, i: int, n: int)
    requires
        0 <= i <= n <= s.len(),
        forall|k: int| i <= k < n ==> !page_ref_at(s, marks, k),
    ensures
        page_refs_from(s, marks, i) == s.subrange(i, n) + page_refs_from(s, marks, n),
    decreases n - i,
{
    if i < n {
        lemma_page_refs_kept(s, marks, i + 1, n);
        assert(seq![s[i]] + (s.subrange(i + 1, n) + page_refs_from(s, marks, n)) =~= s.subrange(
            i,
            n,
        ) + page_refs_from(s, marks, n));
    } else {
        assert(s.subrange(i, n) + page_refs_from(s, marks, n) =~= page_refs_from(s, marks, n));
    }
}

/// A page reference is said as a page: "PT." before a digit, in either case of
/// its letters, is said as "Page " where it begins a word, and stays as it is
/// within one.
pub proof fn law_page_references_are_said_as_pages(
    a: Seq<char>,
    p: char,
    t: char,
    d: char,
    b: Seq<char>,
)
    requires
        is_calm(a),
        is_calm(b),
        p == 'P' || p == 'p',
        t == 'T' || t == 't',
        is_digit(d),
    ensures
        a.len() == 0 || !unicode_alphanumeric(a.last()) ==> plain_step(
            a + seq![p, t, '.', d] + b,
        ) == a + "Page "@ + seq![d] + b,
        a.len() > 0 && unicode_alphanumeric(a.last()) ==> plain_step(a + seq![p, t, '.', d] + b)
            == a + seq![p, t, '.', d] + b,
{
    let s = a + seq![p, t, '.', d] + b;
    let n = a.len() as int;
    assert forall|i: int| 0 <= i < s.len() implies (#[trigger] s[i]) != '|' && s[i] != '/' && (i != n
        + 2 ==> s[i] != '.') by {
        if i < n {
            assert(s[i] == a[i]);
        } else if i >= n + 4 {
            assert(s[i] == b[i - n - 4]);
        }
    }
    lemma_no_bar(s);
    reveal_strlit(" ... ");
    reveal_strlit("/");
    assert forall|k: int| !occurs_at(s, " ... "@, k) by {
        if occurs_at(s, " ... "@, k) {
            assert(s.subrange(k, k + 5)[1] == s[k + 1]);
            assert(s.subrange(k, k + 5)[2] == s[k + 2]);
        }
    }
    law_replacing_absent_text_changes_nothing(s, " ... "@, ", "@);
    assert forall|k: int| !occurs_at(s, "/"@, k) by {
        if occurs_at(s, "/"@, k) {
            assert(s.subrange(k, k + 1)[0] == s[k]);
        }
    }
    law_replacing_absent_text_changes_nothing(s, "/"@, ", "@);
    let marks = marks_of(s);
    assert forall|k: int| 0 <= k < n implies !page_ref_at(s, marks, k) by {
        if page_ref_at(s, marks, k) {
            assert(s[k + 2] == '.');
        }
    }
    lemma_page_refs_kept(s, marks, 0, n);
    assert(s.subrange(0, n) =~= a);
    if n > 0 {
        assert(s[n - 1] == a.last());
        assert(marks[n - 1] == unicode_alphanumeric(a.last()));
    }
    if n == 0 || !unicode_alphanumeric(a.last()) {
        assert(page_ref_at(s, marks, n));
        lemma_no_page_refs(s, marks, n + 3);
        assert(s.skip(n + 3) =~= seq![d] + b);
        assert(a + ("Page "@ + (seq![d] + b)) =~= a + "Page "@ + seq![d] + b);
    } else {
        assert(!page_ref_at(s, marks, n));
        lemma_no_page_refs(s, marks, n + 1);
        assert(a + (seq![s[n]] + s.skip(n + 1)) =~= s);
    }
}

/// A text without a spoken form is said as the plain step is.
pub proof fn law_a_step_is_said_as_its_plain_form(t: Seq<char>, u: Seq<char>, cfg: PronunciationConfig)
    ensures
        spoken(t, None, cfg) == spoken(u, Some(plain_step(t)), cfg),
{
}

} // verus!
