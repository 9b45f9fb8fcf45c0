//! A table from words to words, and the rewriting of text by such a table.

use vstd::prelude::*;

use crate::rank::{ahead, is_ranking, law_ranking_exists, rank, ranking};
use crate::text::{
    byte_len, contains_word, has_word, law_replacing_an_absent_word_changes_nothing, lowercase, own,
    replace_word, replace_words, same,
};

verus! {

/// Where `key` stands among the pairs.
pub open spec fn position_of(pairs: Seq<(Seq<char>, Seq<char>)>, key: Seq<char>) -> Option<int>
    decreases pairs.len(),
{
    if pairs.len() == 0 {
        None
    } else if pairs.last().0 == key {
        Some(pairs.len() - 1)
    } else {
        position_of(pairs.drop_last(), key)
    }
}

/// What the pairs hold under `key`.
pub open spec fn lookup(pairs: Seq<(Seq<char>, Seq<char>)>, key: Seq<char>) -> Option<Seq<char>> {
    match position_of(pairs, key) {
        Some(i) => Some(pairs[i].1),
        None => None,
    }
}

/// No key occurs twice.
pub open spec fn distinct_keys(pairs: Seq<(Seq<char>, Seq<char>)>) -> bool {
    forall|i: int, j: int|
        0 <= i < pairs.len() && 0 <= j < pairs.len() && i != j ==> (#[trigger] pairs[i]).0 != (
        #[trigger] pairs[j]).0
}

/// The pairs after `key` was given the value `value`: an entry that is there
/// keeps its place, a new one goes to the end.
pub open spec fn put(
    pairs: Seq<(Seq<char>, Seq<char>)>,
    key: Seq<char>,
    value: Seq<char>,
) -> Seq<(Seq<char>, Seq<char>)> {
    match position_of(pairs, key) {
        Some(i) => pairs.update(i, (key, value)),
        None => pairs.push((key, value)),
    }
}

pub open spec fn put_all(
    pairs: Seq<(Seq<char>, Seq<char>)>,
    more: Seq<(Seq<char>, Seq<char>)>,
) -> Seq<(Seq<char>, Seq<char>)>
    decreases more.len(),
{
    if more.len() == 0 {
        pairs
    } else {
        put(put_all(pairs, more.drop_last()), more.last().0, more.last().1)
    }
}

pub proof fn lemma_position_of(pairs: Seq<(Seq<char>, Seq<char>)>, key: Seq<char>)
    ensures
        match position_of(pairs, key) {
            Some(i) => 0 <= i < pairs.len() && pairs[i].0 == key,
            None => forall|i: int| 0 <= i < pairs.len() ==> (#[trigger] pairs[i]).0 != key,
        },
    decreases pairs.len(),
{
    if pairs.len() > 0 && pairs.last().0 != key {
        lemma_position_of(pairs.drop_last(), key);
        assert forall|i: int|
            position_of(pairs, key) is None && 0 <= i < pairs.len() implies (
        #[trigger] pairs[i]).0 != key by {
            if i < pairs.len() - 1 {
                assert(pairs.drop_last()[i] == pairs[i]);
            }
        }
    }
}

/// The views of a list of pairs of strings.
pub open spec fn pair_texts(v: Seq<(String, String)>) -> Seq<(Seq<char>, Seq<char>)> {
    Seq::new(v.len(), |i: int| (v[i].0@, v[i].1@))
}

/// A table from words to words in which no key occurs twice.
#[derive(Debug)]
pub struct WordMap {
    entries: Vec<(String, String)>,
}

impl View for WordMap {
    type V = Seq<(Seq<char>, Seq<char>)>;

    closed spec fn view(&self) -> Seq<(Seq<char>, Seq<char>)> {
        pair_texts(self.entries@)
    }
}

impl WordMap {
    #[verifier::type_invariant]
    spec fn keys_are_distinct(&self) -> bool {
        distinct_keys(pair_texts(self.entries@))
    }

    pub fn new() -> (r: WordMap)
        ensures
            r@ == Seq::<(Seq<char>, Seq<char>)>::empty(),
    {
        let entries: Vec<(String, String)> = Vec::new();
        assert(pair_texts(entries@) =~= Seq::empty());
        WordMap { entries }
    }

    /// A table that holds each pair of the list; of several pairs with one key
    /// the last counts.
    pub fn from_pairs(pairs: &Vec<(String, String)>) -> (r: WordMap)
        ensures
            r@ == put_all(Seq::empty(), pair_texts(pairs@)),
            distinct_keys(r@),
    {
        let mut r = WordMap::new();
        let mut i: usize = 0;
        assert(pair_texts(pairs@).take(0) =~= Seq::empty());
        while i < pairs.len()
            invariant
                i <= pairs.len(),
                r@ == put_all(Seq::empty(), pair_texts(pairs@).take(i as int)),
            decreases pairs.len() - i,
        {
            let ghost all = pair_texts(pairs@);
            assert(all.take(i + 1).drop_last() =~= all.take(i as int));
            r.insert(pairs[i].0.as_str(), pairs[i].1.as_str());
            i += 1;
        }
        assert(pair_texts(pairs@).take(i as int) =~= pair_texts(pairs@));
        proof {
            use_type_invariant(&r);
        }
        r
    }

    /// How many entries the table has.
    pub fn len(&self) -> (r: usize)
        ensures
            r == self@.len(),
    {
        self.entries.len()
    }

    pub fn is_empty(&self) -> (r: bool)
        ensures
            r == (self@.len() == 0),
    {
        self.entries.len() == 0
    }

    fn position(&self, key: &str) -> (r: Option<usize>)
        ensures
            match r {
                Some(i) => position_of(self@, key@) == Some(i as int),
                None => position_of(self@, key@) is None,
            },
    {
        let mut i: usize = self.entries.len();
        assert(self@.take(i as int) =~= self@);
        while i > 0
            invariant
                i <= self.entries.len(),
                self@ == pair_texts(self.entries@),
                position_of(self@, key@) == position_of(self@.take(i as int), key@),
            decreases i,
        {
            i -= 1;
            assert(self@.take(i + 1).drop_last() =~= self@.take(i as int));
            assert(self@.take(i + 1).last() == self@[i as int]);
            if same(self.entries[i].0.as_str(), key) {
                return Some(i);
            }
        }
        None
    }

    /// Sets the value of `key`.
    pub fn insert(&mut self, key: &str, value: &str)
        ensures
            final(self)@ == put(old(self)@, key@, value@),
    {
        proof {
            use_type_invariant(&*self);
            lemma_position_of(self@, key@);
        }
        let ghost before = self@;
        let at = self.position(key);
        let mut entries: Vec<(String, String)> = Vec::new();
        core::mem::swap(&mut entries, &mut self.entries);
        match at {
            Some(i) => {
                entries.set(i, (own(key), own(value)));
                assert(pair_texts(entries@) =~= before.update(i as int, (key@, value@)));
            },
            None => {
                entries.push((own(key), own(value)));
                assert(pair_texts(entries@) =~= before.push((key@, value@)));
            },
        }
        self.entries = entries;
    }

    /// The value of `key`, where the table has one.
    pub fn get(&self, key: &str) -> (r: Option<&String>)
        ensures
            match r {
                Some(v) => lookup(self@, key@) == Some(v@),
                None => lookup(self@, key@) is None,
            },
    {
        proof {
            lemma_position_of(self@, key@);
        }
        match self.position(key) {
            Some(i) => Some(&self.entries[i].1),
            None => None,
        }
    }

    /// The entries, those with the longest keys (in bytes) first.
    pub fn longest_first(&self) -> (r: Vec<(String, String)>)
        ensures
            pair_texts(r@) == longest_key_first(self@),
    {
        let mut lengths: Vec<u64> = Vec::new();
        let mut i: usize = 0;
        while i < self.entries.len()
            invariant
                i <= self.entries.len(),
                self@ == pair_texts(self.entries@),
                lengths@ == key_lengths(self@).take(i as int),
            decreases self.entries.len() - i,
        {
            let n: usize = self.entries[i].0.as_str().len();
            lengths.push(n as u64);
            i += 1;
            assert(key_lengths(self@).take(i as int) =~= key_lengths(self@).take(i - 1).push(
                n as u64,
            ));
        }
        assert(lengths@ =~= key_lengths(self@));
        let order = rank(&lengths);
        let mut r: Vec<(String, String)> = Vec::new();
        let mut k: usize = 0;
        while k < order.len()
            invariant
                k <= order.len(),
                order.len() == self@.len(),
                self@ == pair_texts(self.entries@),
                order@ == ranking(key_lengths(self@)),
                forall|x: int| 0 <= x < order.len() ==> (#[trigger] order@[x]) < self@.len(),
                pair_texts(r@) == longest_key_first(self@).take(k as int),
            decreases order.len() - k,
        {
            let ghost before = pair_texts(r@);
            let e = &self.entries[order[k]];
            r.push((own(e.0.as_str()), own(e.1.as_str())));
            k += 1;
            assert(pair_texts(r@) =~= before.push(self@[order@[k - 1] as int]));
            assert(longest_key_first(self@).take(k as int) =~= before.push(
                longest_key_first(self@)[k - 1],
            ));
        }
        assert(longest_key_first(self@).take(k as int) =~= longest_key_first(self@));
        r
    }
}

impl Clone for WordMap {
    fn clone(&self) -> (r: WordMap)
        ensures
            r@ == self@,
    {
        proof {
            use_type_invariant(self);
        }
        let mut entries: Vec<(String, String)> = Vec::new();
        let mut i: usize = 0;
        while i < self.entries.len()
            invariant
                i <= self.entries.len(),
                pair_texts(entries@) == pair_texts(self.entries@).take(i as int),
            decreases self.entries.len() - i,
        {
            let e = &self.entries[i];
            let ghost before = pair_texts(entries@);
            entries.push((own(e.0.as_str()), own(e.1.as_str())));
            i += 1;
            assert(pair_texts(entries@) =~= before.push((e.0@, e.1@)));
            assert(pair_texts(self.entries@).take(i as int) =~= before.push((e.0@, e.1@)));
        }
        assert(pair_texts(self.entries@).take(i as int) =~= pair_texts(self.entries@));
        WordMap { entries }
    }
}

impl Default for WordMap {
    fn default() -> (r: WordMap)
        ensures
            r@ == Seq::<(Seq<char>, Seq<char>)>::empty(),
    {
        WordMap::new()
    }
}

/// The lengths in bytes of the keys.
pub open spec fn key_lengths(pairs: Seq<(Seq<char>, Seq<char>)>) -> Seq<u64> {
    Seq::new(pairs.len(), |i: int| byte_len(pairs[i].0) as u64)
}

/// The pairs by descending length of their keys, pairs of one length in the
/// order in which they stand.
pub open spec fn longest_key_first(
    pairs: Seq<(Seq<char>, Seq<char>)>,
) -> Seq<(Seq<char>, Seq<char>)> {
    let order = ranking(key_lengths(pairs));
    Seq::new(pairs.len(), |i: int| pairs[order[i] as int])
}

/// The text after each rule in turn replaced its key, as a whole word, by its
/// value.
pub open spec fn rewrite(text: Seq<char>, rules: Seq<(Seq<char>, Seq<char>)>) -> Seq<char>
    decreases rules.len(),
{
    if rules.len() == 0 {
        text
    } else {
        replace_words(rewrite(text, rules.drop_last()), rules.last().0, rules.last().1)
    }
}

/// The key of some rule stands in the text as a whole word, so that a rule
/// applies.
pub open spec fn fires(text: Seq<char>, rules: Seq<(Seq<char>, Seq<char>)>) -> bool {
    exists|j: int| 0 <= j < rules.len() && has_word(text, (#[trigger] rules[j]).0)
}

/// Applies the rules in turn. The second result says whether one of them
/// applied.
pub fn rewrite_words(text: &str, rules: &Vec<(String, String)>) -> (r: (String, bool))
    ensures
        r.0@ == rewrite(text@, pair_texts(rules@)),
        r.1 == fires(text@, pair_texts(rules@)),
{
    let ghost all = pair_texts(rules@);
    let mut out = own(text);
    let mut fired = false;
    let mut i: usize = 0;
    assert(all.take(0) =~= Seq::empty());
    while i < rules.len()
        invariant
            i <= rules.len(),
            all == pair_texts(rules@),
            out@ == rewrite(text@, all.take(i as int)),
            fired == exists|j: int| 0 <= j < i && has_word(text@, (#[trigger] all[j]).0),
            !fired ==> out@ == text@,
        decreases rules.len() - i,
    {
        assert(all.take(i + 1).drop_last() =~= all.take(i as int));
        let next = replace_word(out.as_str(), rules[i].0.as_str(), rules[i].1.as_str());
        assert(next@ == rewrite(text@, all.take(i + 1)));
        if !fired {
            fired = contains_word(out.as_str(), rules[i].0.as_str());
            assert(fired == has_word(text@, all[i as int].0));
            proof {
                if !fired {
                    law_replacing_an_absent_word_changes_nothing(
                        text@,
                        all[i as int].0,
                        all[i as int].1,
                    );
                }
            }
        }
        out = next;
        i += 1;
    }
    assert(all.take(i as int) =~= all);
    (out, fired)
}

/// The pairs as rules in the order in which they apply: longest key first, with
/// the keys in lower case.
pub open spec fn ordered_rules(
    pairs: Seq<(Seq<char>, Seq<char>)>,
) -> Seq<(Seq<char>, Seq<char>)> {
    let sorted = longest_key_first(pairs);
    Seq::new(sorted.len(), |i: int| (lowercase(sorted[i].0), sorted[i].1))
}

/// The rules of a table, longest key first, with the keys in lower case.
pub fn rules_of(table: &WordMap) -> (r: Vec<(String, String)>)
    ensures
        pair_texts(r@) == ordered_rules(table@),
{
    let sorted = table.longest_first();
    let ghost all = longest_key_first(table@);
    let mut r: Vec<(String, String)> = Vec::new();
    let mut i: usize = 0;
    while i < sorted.len()
        invariant
            i <= sorted.len(),
            pair_texts(sorted@) == all,
            all == longest_key_first(table@),
            pair_texts(r@) == ordered_rules(table@).take(i as int),
        decreases sorted.len() - i,
    {
        assert(all.len() == sorted.len());
        assert(all[i as int] == pair_texts(sorted@)[i as int]);
        let ghost before = pair_texts(r@);
        let key = sorted[i].0.as_str().to_lowercase();
        let value = own(sorted[i].1.as_str());
        r.push((key, value));
        i += 1;
        assert(pair_texts(r@) =~= before.push(ordered_rules(table@)[i - 1]));
        assert(ordered_rules(table@).take(i as int) =~= before.push(ordered_rules(table@)[i - 1]));
    }
    assert(ordered_rules(table@).take(i as int) =~= ordered_rules(table@));
    r
}

// ---------------------------------------------------------------------------
// Laws
// ---------------------------------------------------------------------------

/// Reading a key gives what was last stored under it, and storing under one
/// key leaves the others as they were.
pub proof fn law_read_after_put(
    pairs: Seq<(Seq<char>, Seq<char>)>,
    key: Seq<char>,
    value: Seq<char>,
    other: Seq<char>,
)
    requires
        distinct_keys(pairs),
    ensures
        lookup(put(pairs, key, value), key) == Some(value),
        other != key ==> lookup(put(pairs, key, value), other) == lookup(pairs, other),
        distinct_keys(put(pairs, key, value)),
{
    let after = put(pairs, key, value);
    lemma_position_of(pairs, key);
    lemma_position_of(pairs, other);
    lemma_position_of(after, key);
    lemma_position_of(after, other);
    if other != key {
        match position_of(pairs, other) {
            Some(i) => {
                assert(after[i] == pairs[i]);
            },
            None => {
                assert forall|i: int| 0 <= i < after.len() implies (#[trigger] after[i]).0
                    != other by {
                    if i < pairs.len() {
                        assert(after[i] == pairs[i] || after[i].0 == key);
                    }
                }
            },
        }
        match position_of(after, other) {
            Some(i) => {
                assert(after[i].0 == other);
                assert(i < pairs.len() ==> after[i] == pairs[i] || after[i].0 == key);
            },
            None => {},
        }
    }
    match position_of(pairs, key) {
        Some(i) => {
            assert(after[i] == (key, value));
        },
        None => {
            assert(after[pairs.len() as int] == (key, value));
        },
    }
}

/// The longest key goes first: the pairs are the same, and no key is followed by
/// a longer one.
pub proof fn law_longest_key_goes_first(pairs: Seq<(Seq<char>, Seq<char>)>)
    requires
        pairs.len() <= usize::MAX,
    ensures
        longest_key_first(pairs).len() == pairs.len(),
        forall|i: int|
            0 <= i < pairs.len() ==> longest_key_first(pairs).contains(#[trigger] pairs[i]),
        forall|i: int|
            0 <= i < pairs.len() ==> pairs.contains(#[trigger] longest_key_first(pairs)[i]),
        forall|i: int, j: int|
            0 <= i < j < pairs.len() ==> byte_len((#[trigger] longest_key_first(pairs)[i]).0)
                >= byte_len((#[trigger] longest_key_first(pairs)[j]).0),
{
    let lengths = key_lengths(pairs);
    let order = ranking(lengths);
    let sorted = longest_key_first(pairs);
    law_ranking_exists(lengths);
    assert(is_ranking(lengths, order));
    assert forall|i: int| 0 <= i < pairs.len() implies sorted.contains(#[trigger] pairs[i]) by {
        assert(order.contains(i as usize));
        let k = choose|k: int| 0 <= k < order.len() && order[k] == i as usize;
        assert(sorted[k] == pairs[i]);
    }
    assert forall|i: int| 0 <= i < pairs.len() implies pairs.contains(#[trigger] sorted[i]) by {
        assert(pairs[order[i] as int] == sorted[i]);
    }
    assert forall|i: int, j: int| 0 <= i < j < pairs.len() implies byte_len(
        (#[trigger] sorted[i]).0,
    ) >= byte_len((#[trigger] sorted[j]).0) by {
        assert(ahead(lengths, order[i], order[j]));
        assert(lengths[order[i] as int] == byte_len(sorted[i].0) as u64);
        assert(lengths[order[j] as int] == byte_len(sorted[j].0) as u64);
    }
}

/// Where no key stands twice, a key is looked up where it stands; a key that stands
/// nowhere has no value.
pub proof fn law_keys_are_looked_up(
    pairs: Seq<(Seq<char>, Seq<char>)>,
    key: Seq<char>,
    i: int,
)
    requires
        distinct_keys(pairs),
    ensures
        0 <= i < pairs.len() && pairs[i].0 == key ==> lookup(pairs, key) == Some(pairs[i].1),
        (forall|j: int| 0 <= j < pairs.len() ==> (#[trigger] pairs[j]).0 != key) ==> lookup(
            pairs,
            key,
        ) is None,
{
    lemma_position_of(pairs, key);
}

} // verus!
