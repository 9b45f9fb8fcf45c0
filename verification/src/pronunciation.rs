//! From the text of an item to the words that are spoken.
//!
//! This does not depend on the speech engine: abbreviations are expanded before
//! the text reaches one.

use vstd::prelude::*;

use crate::text::{
    digit, find_from, first_from, from_chars, is_digit, lower, lower_all, occurs_at, opt_text, own, push_all,
    push_text, replace, replace_all, slice, stands_at, to_chars, to_lower, trim, trimmed,
};
use crate::word_map::{longest_key_first, lookup, pair_texts, WordMap};

verus! {

/// Pronunciation overrides.
///
/// `abbreviations` replace whole words, with regard to case. `phrases` replace
/// literal text, without regard to case, before the abbreviations are expanded
/// and longest first, so that "POS Mode" wins over "POS".
#[derive(Debug, Clone)]
pub struct PronunciationConfig {
    pub abbreviations: WordMap,
    pub phrases: WordMap,
}

impl Default for PronunciationConfig {
    fn default() -> (r: PronunciationConfig)
        ensures
            r.abbreviations@.len() == 0,
            r.phrases@.len() == 0,
    {
        PronunciationConfig { abbreviations: WordMap::new(), phrases: WordMap::new() }
    }
}

/// The character is a letter or a digit of some script.
pub uninterp spec fn unicode_alphanumeric(c: char) -> bool;

/// `char::is_alphanumeric` tells the letters and digits of all scripts, from
/// the character alone. The contract names its answer and says no more of it.
pub assume_specification[ char::is_alphanumeric ](c: char) -> (r: bool)
    ensures
        r == unicode_alphanumeric(c),
;

// ---------------------------------------------------------------------------
// Steps
// ---------------------------------------------------------------------------

/// Which characters of a text are letters or digits of some script.
pub open spec fn marks_of(s: Seq<char>) -> Seq<bool> {
    Seq::new(s.len(), |i: int| unicode_alphanumeric(s[i]))
}

fn mark_chars(v: &Vec<char>) -> (r: Vec<bool>)
    ensures
        r@ == marks_of(v@),
{
    let mut r: Vec<bool> = Vec::new();
    let mut i: usize = 0;
    while i < v.len()
        invariant
            i <= v.len(),
            r.len() == i,
            forall|k: int| 0 <= k < i ==> #[trigger] r@[k] == unicode_alphanumeric(v@[k]),
        decreases v.len() - i,
    {
        r.push(v[i].is_alphanumeric());
        i += 1;
    }
    assert(r@ =~= marks_of(v@));
    r
}

/// "PT." or "Pt." and a digit stand at `i`, and no letter or digit before.
/// `marks` says which characters are letters or digits.
pub open spec fn page_ref_at(s: Seq<char>, marks: Seq<bool>, i: int) -> bool {
    &&& 0 <= i
    &&& i + 3 < s.len()
    &&& s[i] == 'P' || s[i] == 'p'
    &&& s[i + 1] == 'T' || s[i + 1] == 't'
    &&& s[i + 2] == '.'
    &&& is_digit(s[i + 3])
    &&& i == 0 || !marks[i - 1]
}

/// The text from `i` on, with "Page " in place of the "PT." of page references.
pub open spec fn page_refs_from(s: Seq<char>, marks: Seq<bool>, i: int) -> Seq<char>
    decreases s.len() - i,
{
    if i < 0 || i >= s.len() {
        Seq::empty()
    } else if page_ref_at(s, marks, i) {
        "Page "@ + page_refs_from(s, marks, i + 3)
    } else {
        seq![s[i]] + page_refs_from(s, marks, i + 1)
    }
}

/// Says page references such as "PT.2" as "Page 2".
pub fn expand_page_refs(text: &str) -> (r: String)
    ensures
        r@ == page_refs_from(text@, marks_of(text@), 0),
{
    let v = to_chars(text);
    let marks = mark_chars(&v);
    expand_marked_page_refs(text, &marks)
}

/// Says page references as pages, given which characters are letters or digits.
pub fn expand_marked_page_refs(text: &str, marks: &Vec<bool>) -> (r: String)
    requires
        marks@.len() == text@.len(),
    ensures
        r@ == page_refs_from(text@, marks@, 0),
{
    let v = to_chars(text);
    let mut out = String::new();
    let mut i: usize = 0;
    while i < v.len()
        invariant
            i <= v.len(),
            v@ == text@,
            marks@.len() == v@.len(),
            out@ + page_refs_from(v@, marks@, i as int) == page_refs_from(v@, marks@, 0),
        decreases v.len() - i,
    {
        let ghost before = out@;
        let ghost rest = page_refs_from(v@, marks@, i as int);
        let found = v.len() - i > 3 && (v[i] == 'P' || v[i] == 'p') && (v[i + 1] == 'T' || v[i + 1]
            == 't') && v[i + 2] == '.' && digit(v[i + 3]) && (i == 0 || !marks[i - 1]);
        if found {
            push_text(&mut out, "Page ");
            i += 3;
        } else {
            out.push(v[i]);
            i += 1;
        }
        assert(out@ + page_refs_from(v@, marks@, i as int) =~= before + rest);
    }
    assert(out@ =~= out@ + page_refs_from(v@, marks@, i as int));
    out
}

/// What is left of a step when the part after " | " is dropped: what stands
/// before it and, after a comma, what follows the first "..." behind it. Where
/// there is no " | ", each " ... " becomes a comma.
pub open spec fn without_context(s: Seq<char>) -> Seq<char> {
    match first_from(s, " | "@, 0) {
        Some(i) => {
            let before = s.take(i);
            let after = s.skip(i + " | "@.len());
            match first_from(after, "..."@, 0) {
                Some(j) => trim(before) + ", "@ + trim(after.skip(j + "..."@.len())),
                None => trim(before),
            }
        },
        None => replace(s, " ... "@, ", "@),
    }
}

/// A step as it is said, before pronunciation overrides: without its context,
/// with commas for slashes, and with page references spelled out.
pub open spec fn plain_step(s: Seq<char>) -> Seq<char> {
    let paused = replace(without_context(s), "/"@, ", "@);
    page_refs_from(paused, marks_of(paused), 0)
}

/// Drops the context of a step.
pub fn strip_context(text: &str) -> (r: String)
    ensures
        r@ == without_context(text@),
{
    let v = to_chars(text);
    let bar = to_chars(" | ");
    let dots = to_chars("...");
    match find_from(&v, &bar, 0) {
        Some(i) => {
            proof {
                crate::text::lemma_first_from(v@, bar@, 0);
            }
            let head = slice(&v, 0, i);
            let tail = slice(&v, i + bar.len(), v.len());
            assert(head@ =~= v@.take(i as int));
            assert(tail@ =~= v@.skip(i + " | "@.len()));
            let before = trimmed(from_chars(&head).as_str());
            match find_from(&tail, &dots, 0) {
                Some(j) => {
                    proof {
                        crate::text::lemma_first_from(tail@, dots@, 0);
                    }
                    let action = slice(&tail, j + dots.len(), tail.len());
                    assert(action@ =~= tail@.skip(j + "..."@.len()));
                    let mut out = before;
                    push_text(&mut out, ", ");
                    push_text(&mut out, trimmed(from_chars(&action).as_str()).as_str());
                    out
                },
                None => before,
            }
        },
        None => {
            proof {
                reveal_strlit(" ... ");
            }
            replace_all(text, " ... ", ", ")
        },
    }
}

/// Prepares the text of a step for speaking.
pub fn normalise_step(text: &str) -> (r: String)
    ensures
        r@ == plain_step(text@),
{
    let stripped = strip_context(text);
    proof {
        reveal_strlit("/");
    }
    let with_slashes = replace_all(stripped.as_str(), "/", ", ");
    expand_page_refs(with_slashes.as_str())
}

// ---------------------------------------------------------------------------
// Phrases
// ---------------------------------------------------------------------------

/// The text from `i` on, with `n` replaced by `r` wherever it stands, ASCII case
/// aside, from left to right without overlaps.
pub open spec fn replace_ci_from(h: Seq<char>, n: Seq<char>, r: Seq<char>, i: int) -> Seq<char>
    decreases h.len() - i,
{
    if i < 0 || i >= h.len() {
        Seq::empty()
    } else if n.len() > 0 && occurs_at(lower_all(h), lower_all(n), i) {
        r + replace_ci_from(h, n, r, i + n.len())
    } else {
        seq![h[i]] + replace_ci_from(h, n, r, i + 1)
    }
}

fn lowered(v: &Vec<char>) -> (r: Vec<char>)
    ensures
        r@ == lower_all(v@),
{
    let mut r: Vec<char> = Vec::new();
    let mut i: usize = 0;
    while i < v.len()
        invariant
            i <= v.len(),
            r.len() == i,
            forall|k: int| 0 <= k < i ==> #[trigger] r@[k] == lower(v@[k]),
        decreases v.len() - i,
    {
        r.push(to_lower(v[i]));
        i += 1;
    }
    assert(r@ =~= lower_all(v@));
    r
}

/// Replaces text without regard to ASCII case.
pub fn replace_ascii_ci(haystack: &str, needle: &str, replacement: &str) -> (r: String)
    ensures
        r@ == replace_ci_from(haystack@, needle@, replacement@, 0),
{
    let h = to_chars(haystack);
    let n = to_chars(needle);
    let lower_h = lowered(&h);
    let lower_n = lowered(&n);
    let mut out = String::new();
    let mut i: usize = 0;
    while i < h.len()
        invariant
            i <= h.len(),
            h@ == haystack@,
            n@ == needle@,
            lower_h@ == lower_all(h@),
            lower_n@ == lower_all(n@),
            out@ + replace_ci_from(h@, n@, replacement@, i as int) == replace_ci_from(
                h@,
                n@,
                replacement@,
                0,
            ),
        decreases h.len() - i,
    {
        let ghost before = out@;
        let ghost rest = replace_ci_from(h@, n@, replacement@, i as int);
        if n.len() > 0 && stands_at(&lower_h, &lower_n, i) {
            push_text(&mut out, replacement);
            i += n.len();
        } else {
            out.push(h[i]);
            i += 1;
        }
        assert(out@ + replace_ci_from(h@, n@, replacement@, i as int) =~= before + rest);
    }
    assert(out@ =~= out@ + replace_ci_from(h@, n@, replacement@, i as int));
    out
}

/// The text after each phrase in turn was replaced.
pub open spec fn phrased(text: Seq<char>, rules: Seq<(Seq<char>, Seq<char>)>) -> Seq<char>
    decreases rules.len(),
{
    if rules.len() == 0 {
        text
    } else {
        replace_ci_from(phrased(text, rules.drop_last()), rules.last().0, rules.last().1, 0)
    }
}

/// Replaces the phrases of the table, longest first.
pub fn apply_phrases(text: &str, map: &WordMap) -> (r: String)
    ensures
        r@ == phrased(text@, longest_key_first(map@)),
{
    let table = map.longest_first();
    let ghost all = pair_texts(table@);
    let mut out = own(text);
    let mut i: usize = 0;
    assert(all.take(0) =~= Seq::empty());
    while i < table.len()
        invariant
            i <= table.len(),
            all == pair_texts(table@),
            out@ == phrased(text@, all.take(i as int)),
        decreases table.len() - i,
    {
        assert(all.take(i + 1).drop_last() =~= all.take(i as int));
        out = replace_ascii_ci(out.as_str(), table[i].0.as_str(), table[i].1.as_str());
        i += 1;
    }
    assert(all.take(i as int) =~= all);
    out
}

// ---------------------------------------------------------------------------
// Abbreviations
// ---------------------------------------------------------------------------

/// How many characters are marked in a row from `i` on.
pub open spec fn token_len(marks: Seq<bool>, i: int) -> nat
    decreases marks.len() - i,
{
    if 0 <= i < marks.len() && marks[i] {
        1 + token_len(marks, i + 1)
    } else {
        0
    }
}

/// What a word stands for: its entry in the table, or the word itself.
pub open spec fn expansion(word: Seq<char>, map: Seq<(Seq<char>, Seq<char>)>) -> Seq<char> {
    match lookup(map, word) {
        Some(v) => v,
        None => word,
    }
}

/// The text from `i` on, with each word that the table has replaced by its
/// entry. Words are maximal runs of characters that are marked.
pub open spec fn expanded_from(
    s: Seq<char>,
    marks: Seq<bool>,
    map: Seq<(Seq<char>, Seq<char>)>,
    i: int,
) -> Seq<char>
    decreases s.len() - i,
    when 0 <= i && marks.len() == s.len()
    via expanded_from_shrinks
{
    if i >= s.len() {
        Seq::empty()
    } else if marks[i] {
        let n = token_len(marks, i);
        expansion(s.subrange(i, i + n), map) + expanded_from(s, marks, map, i + n)
    } else {
        seq![s[i]] + expanded_from(s, marks, map, i + 1)
    }
}

#[via_fn]
proof fn expanded_from_shrinks(
    s: Seq<char>,
    marks: Seq<bool>,
    map: Seq<(Seq<char>, Seq<char>)>,
    i: int,
) {
    if i <= s.len() {
        lemma_token_len(marks, i);
    }
}

/// The text with each word that the table has replaced by its entry. Words are
/// maximal runs of letters and digits.
pub open spec fn expanded(s: Seq<char>, map: Seq<(Seq<char>, Seq<char>)>) -> Seq<char> {
    expanded_from(s, marks_of(s), map, 0)
}

proof fn lemma_token_len(marks: Seq<bool>, i: int)
    requires
        0 <= i <= marks.len(),
    ensures
        i + token_len(marks, i) <= marks.len(),
        i < marks.len() && marks[i] ==> token_len(marks, i) > 0,
        forall|k: int| i <= k < i + token_len(marks, i) ==> #[trigger] marks[k],
        i + token_len(marks, i) < marks.len() ==> !marks[i + token_len(marks, i)],
    decreases marks.len() - i,
{
    if i < marks.len() && marks[i] {
        lemma_token_len(marks, i + 1);
    }
}

/// Expands abbreviations, whole words only.
pub fn expand_abbreviations(text: &str, map: &WordMap) -> (r: String)
    ensures
        r@ == expanded(text@, map@),
{
    let v = to_chars(text);
    let marks = mark_chars(&v);
    expand_marked(text, &marks, map)
}

/// Expands abbreviations, given which characters are letters or digits.
pub fn expand_marked(text: &str, marks: &Vec<bool>, map: &WordMap) -> (r: String)
    requires
        marks@.len() == text@.len(),
    ensures
        r@ == expanded_from(text@, marks@, map@, 0),
{
    let v = to_chars(text);
    let mut out = String::new();
    let mut i: usize = 0;
    while i < v.len()
        invariant
            i <= v.len(),
            v@ == text@,
            marks@.len() == v@.len(),
            out@ + expanded_from(v@, marks@, map@, i as int) == expanded_from(v@, marks@, map@, 0),
        decreases v.len() - i,
    {
        let ghost before = out@;
        let ghost rest = expanded_from(v@, marks@, map@, i as int);
        if marks[i] {
            let start: usize = i;
            proof {
                lemma_token_len(marks@, start as int);
            }
            while i < v.len() && marks[i]
                invariant
                    start <= i <= v.len(),
                    marks@.len() == v@.len(),
                    token_len(marks@, start as int) == (i - start) + token_len(marks@, i as int),
                decreases v.len() - i,
            {
                i += 1;
            }
            assert(token_len(marks@, i as int) == 0);
            assert(i > start);
            let token = slice(&v, start, i);
            let word = from_chars(&token);
            match map.get(word.as_str()) {
                Some(e) => {
                    push_text(&mut out, e.as_str());
                },
                None => {
                    push_all(&mut out, &token);
                },
            }
        } else {
            out.push(v[i]);
            i += 1;
        }
        assert(out@ + expanded_from(v@, marks@, map@, i as int) =~= before + rest);
    }
    assert(out@ =~= out@ + expanded_from(v@, marks@, map@, i as int));
    out
}

// ---------------------------------------------------------------------------
// Everything together
// ---------------------------------------------------------------------------

/// What is said for an item: its own spoken form where it has one, else its
/// text as a step, with phrases replaced and then abbreviations expanded.
pub open spec fn spoken(
    text: Seq<char>,
    override_: Option<Seq<char>>,
    cfg: PronunciationConfig,
) -> Seq<char> {
    let base = match override_ {
        Some(s) => s,
        None => plain_step(text),
    };
    expanded(phrased(base, longest_key_first(cfg.phrases@)), cfg.abbreviations@)
}

/// Derives what to say for an item.
pub fn spoken_for(text: &str, override_: Option<&str>, cfg: &PronunciationConfig) -> (r: String)
    ensures
        r@ == spoken(text@, opt_text(override_), *cfg),
{
    let base = match override_ {
        Some(s) => own(s),
        None => normalise_step(text),
    };
    let with_phrases = apply_phrases(base.as_str(), &cfg.phrases);
    expand_abbreviations(with_phrases.as_str(), &cfg.abbreviations)
}

// ---------------------------------------------------------------------------
// Laws
// ---------------------------------------------------------------------------

/// A table that holds none of the words of a text leaves the text as it is; so
/// does an empty table.
pub proof fn law_unlisted_words_stay(
    s: Seq<char>,
    marks: Seq<bool>,
    map: Seq<(Seq<char>, Seq<char>)>,
)
    requires
        marks.len() == s.len(),
        forall|i: int, j: int|
            0 <= i < j <= s.len() ==> lookup(map, #[trigger] s.subrange(i, j)) is None,
    ensures
        expanded_from(s, marks, map, 0) == s,
{
    lemma_unlisted_from(s, marks, map, 0);
    assert(s.skip(0) =~= s);
}

proof fn lemma_unlisted_from(
    s: Seq<char>,
    marks: Seq<bool>,
    map: Seq<(Seq<char>, Seq<char>)>,
    i: int,
)
    requires
        0 <= i <= s.len(),
        marks.len() == s.len(),
        forall|a: int, b: int|
            0 <= a < b <= s.len() ==> lookup(map, #[trigger] s.subrange(a, b)) is None,
    ensures
        expanded_from(s, marks, map, i) == s.skip(i),
    decreases s.len() - i,
{
    lemma_token_len(marks, i);
    if i >= s.len() {
        assert(s.skip(i) =~= Seq::empty());
    } else if marks[i] {
        let n = token_len(marks, i);
        lemma_unlisted_from(s, marks, map, i + n);
        assert(lookup(map, s.subrange(i, i + n)) is None);
        assert(s.skip(i) =~= s.subrange(i, i + n) + s.skip(i + n));
    } else {
        lemma_unlisted_from(s, marks, map, i + 1);
        assert(s.skip(i) =~= seq![s[i]] + s.skip(i + 1));
    }
}

/// Without overrides of any kind, an item's own spoken form is said as it is.
pub proof fn law_spoken_form_is_said_as_it_is(
    text: Seq<char>,
    form: Seq<char>,
    cfg: PronunciationConfig,
)
    requires
        cfg.abbreviations@.len() == 0,
        cfg.phrases@.len() == 0,
    ensures
        spoken(text, Some(form), cfg) == form,
{
    assert forall|i: int, j: int| 0 <= i < j <= form.len() implies lookup(
        cfg.abbreviations@,
        #[trigger] form.subrange(i, j),
    ) is None by {}
    law_unlisted_words_stay(form, marks_of(form), cfg.abbreviations@);
}

/// A word is expanded only as a whole: a text that is one word of letters and
/// digits is replaced by its entry, or stays as it is where the table has none,
/// whatever shorter words the table has.
pub proof fn law_whole_words_only(w: Seq<char>, map: Seq<(Seq<char>, Seq<char>)>)
    requires
        w.len() > 0,
        forall|i: int| 0 <= i < w.len() ==> unicode_alphanumeric(#[trigger] w[i]),
    ensures
        expanded(w, map) == expansion(w, map),
{
    let marks = marks_of(w);
    lemma_token_len(marks, 0);
    let n = token_len(marks, 0) as int;
    if n < w.len() {
        assert(!marks[n]);
        assert(unicode_alphanumeric(w[n]));
    }
    assert(w.subrange(0, w.len() as int) =~= w);
    assert(expanded_from(w, marks, map, w.len() as int) =~= Seq::empty());
}

proof fn lemma_token_within(marks: Seq<bool>, part: Seq<bool>, at: int, i: int)
    requires
        0 <= at,
        at + part.len() <= marks.len(),
        forall|k: int| 0 <= k < part.len() ==> #[trigger] part[k] == marks[at + k],
        at + part.len() == marks.len() || !marks[at + part.len()],
        0 <= i <= part.len(),
    ensures
        token_len(marks, at + i) == token_len(part, i),
    decreases part.len() - i,
{
    if i < part.len() {
        assert(part[i] == marks[at + i]);
        lemma_token_within(marks, part, at, i + 1);
    }
}

proof fn lemma_expanded_start(
    a: Seq<char>,
    c: char,
    b: Seq<char>,
    map: Seq<(Seq<char>, Seq<char>)>,
    i: int,
)
    requires
        !unicode_alphanumeric(c),
        0 <= i <= a.len(),
    ensures
        expanded_from(a + seq![c] + b, marks_of(a + seq![c] + b), map, i) == expanded_from(
            a,
            marks_of(a),
            map,
            i,
        ) + seq![c] + expanded(b, map),
    decreases a.len() - i,
{
    let s = a + seq![c] + b;
    let marks = marks_of(s);
    let part = marks_of(a);
    assert forall|k: int| 0 <= k < part.len() implies #[trigger] part[k] == marks[0 + k] by {
        assert(s[k] == a[k]);
    }
    assert(s[a.len() as int] == c);
    assert(!marks[a.len() as int]);
    if i < a.len() {
        lemma_token_within(marks, part, 0, i);
        lemma_token_len(part, i);
        assert(part[i] == marks[0 + i]);
        let n = token_len(part, i);
        if part[i] {
            lemma_expanded_start(a, c, b, map, i + n);
            assert(s.subrange(i, i + n) =~= a.subrange(i, i + n));
        } else {
            lemma_expanded_start(a, c, b, map, i + 1);
        }
        assert(expanded_from(s, marks, map, i) =~= expanded_from(a, part, map, i) + seq![c]
            + expanded(b, map));
    } else {
        lemma_expanded_rest(a, c, b, map, 0);
        assert(expanded_from(a, part, map, i) =~= Seq::empty());
        assert(expanded_from(s, marks, map, i) =~= expanded_from(a, part, map, i) + seq![c]
            + expanded(b, map));
    }
}

proof fn lemma_expanded_rest(
    a: Seq<char>,
    c: char,
    b: Seq<char>,
    map: Seq<(Seq<char>, Seq<char>)>,
    i: int,
)
    requires
        0 <= i <= b.len(),
    ensures
        expanded_from(
            a + seq![c] + b,
            marks_of(a + seq![c] + b),
            map,
            a.len() + 1 + i,
        ) == expanded_from(b, marks_of(b), map, i),
    decreases b.len() - i,
{
    let s = a + seq![c] + b;
    let marks = marks_of(s);
    let part = marks_of(b);
    let at = a.len() as int + 1;
    assert forall|k: int| 0 <= k < part.len() implies #[trigger] part[k] == marks[at + k] by {
        assert(s[at + k] == b[k]);
    }
    if i < b.len() {
        lemma_token_within(marks, part, at, i);
        lemma_token_len(part, i);
        assert(part[i] == marks[at + i]);
        let n = token_len(part, i);
        if part[i] {
            lemma_expanded_rest(a, c, b, map, i + n);
            assert(s.subrange(at + i, at + i + n) =~= b.subrange(i, i + n));
        } else {
            lemma_expanded_rest(a, c, b, map, i + 1);
            assert(s[at + i] == b[i]);
        }
    }
}

/// Words are expanded each on its own: what stands before a character that is no
/// letter or digit and what stands behind it are expanded as if they stood alone,
/// and the character stays.
pub proof fn law_words_are_expanded_apart(
    a: Seq<char>,
    c: char,
    b: Seq<char>,
    map: Seq<(Seq<char>, Seq<char>)>,
)
    requires
        !unicode_alphanumeric(c),
    ensures
        expanded(a + seq![c] + b, map) == expanded(a, map) + seq![c] + expanded(b, map),
{
    lemma_expanded_start(a, c, b, map, 0);
}

} // verus!
