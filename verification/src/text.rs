//! Text primitives: character classes, searching, trimming, splitting and
//! replacing, stated over sequences of characters.

use vstd::prelude::*;
use vstd::utf8::encode_utf8;

verus! {

// ---------------------------------------------------------------------------
// Character classes
// ---------------------------------------------------------------------------

/// The characters with Unicode's White_Space property.
pub open spec fn is_space(c: char) -> bool {
    ||| '\u{9}' <= c <= '\u{d}'
    ||| c == ' '
    ||| c == '\u{85}'
    ||| c == '\u{a0}'
    ||| c == '\u{1680}'
    ||| '\u{2000}' <= c <= '\u{200a}'
    ||| c == '\u{2028}'
    ||| c == '\u{2029}'
    ||| c == '\u{202f}'
    ||| c == '\u{205f}'
    ||| c == '\u{3000}'
}

/// ASCII whitespace: space, tab, line feed, form feed, carriage return.
pub open spec fn is_ascii_space(c: char) -> bool {
    c == ' ' || c == '\t' || c == '\n' || c == '\u{c}' || c == '\r'
}

pub open spec fn is_digit(c: char) -> bool {
    '0' <= c <= '9'
}

pub open spec fn is_upper(c: char) -> bool {
    'A' <= c <= 'Z'
}

pub open spec fn is_letter(c: char) -> bool {
    is_upper(c) || 'a' <= c <= 'z'
}

pub open spec fn is_alnum(c: char) -> bool {
    is_letter(c) || is_digit(c)
}

/// A lower-case letter or a digit.
pub open spec fn is_plain(c: char) -> bool {
    'a' <= c <= 'z' || is_digit(c)
}

/// ASCII lower case: `A` to `Z` become `a` to `z`, everything else stays.
pub open spec fn lower(c: char) -> char {
    if is_upper(c) {
        (c as u8 + 32) as char
    } else {
        c
    }
}

/// ASCII upper case: `a` to `z` become `A` to `Z`, everything else stays.
pub open spec fn upper(c: char) -> char {
    if 'a' <= c <= 'z' {
        (c as u8 - 32) as char
    } else {
        c
    }
}

pub open spec fn lower_all(s: Seq<char>) -> Seq<char> {
    Seq::new(s.len(), |i: int| lower(s[i]))
}

pub open spec fn upper_all(s: Seq<char>) -> Seq<char> {
    Seq::new(s.len(), |i: int| upper(s[i]))
}

pub fn space(c: char) -> (r: bool)
    ensures
        r == is_space(c),
{
    ('\u{9}' <= c && c <= '\u{d}') || c == ' ' || c == '\u{85}' || c == '\u{a0}' || c == '\u{1680}'
        || ('\u{2000}' <= c && c <= '\u{200a}') || c == '\u{2028}' || c == '\u{2029}' || c
        == '\u{202f}' || c == '\u{205f}' || c == '\u{3000}'
}

pub fn ascii_space(c: char) -> (r: bool)
    ensures
        r == is_ascii_space(c),
{
    c == ' ' || c == '\t' || c == '\n' || c == '\u{c}' || c == '\r'
}

pub fn digit(c: char) -> (r: bool)
    ensures
        r == is_digit(c),
{
    '0' <= c && c <= '9'
}

pub fn letter(c: char) -> (r: bool)
    ensures
        r == is_letter(c),
{
    ('A' <= c && c <= 'Z') || ('a' <= c && c <= 'z')
}

pub fn alnum(c: char) -> (r: bool)
    ensures
        r == is_alnum(c),
{
    letter(c) || digit(c)
}

pub fn to_lower(c: char) -> (r: char)
    ensures
        r == lower(c),
{
    if 'A' <= c && c <= 'Z' {
        (c as u8 + 32) as char
    } else {
        c
    }
}

pub fn to_upper(c: char) -> (r: char)
    ensures
        r == upper(c),
{
    if 'a' <= c && c <= 'z' {
        (c as u8 - 32) as char
    } else {
        c
    }
}

// ---------------------------------------------------------------------------
// Strings and vectors of characters
// ---------------------------------------------------------------------------

/// `String::push` appends one character at the end of the string.
pub assume_specification[ String::push ](s: &mut String, c: char)
    ensures
        final(s)@ == old(s)@.push(c),
;

/// All characters of the text are ASCII.
pub open spec fn ascii_text(s: Seq<char>) -> bool {
    forall|i: int| 0 <= i < s.len() ==> #[trigger] s[i] <= '\u{7f}'
}

/// The lower case of a text by Unicode's rules.
pub uninterp spec fn unicode_lowercase(s: Seq<char>) -> Seq<char>;

/// The lower case of a text: of ASCII text that of each letter, else that by
/// Unicode's rules.
pub open spec fn lowercase(s: Seq<char>) -> Seq<char> {
    if ascii_text(s) {
        lower_all(s)
    } else {
        unicode_lowercase(s)
    }
}

/// `str::to_lowercase` gives the lower case of a text, which depends on the
/// text alone. Of ASCII text it is that of each letter, one by one; of other
/// text the contract names it and says no more of it.
pub assume_specification[ str::to_lowercase ](s: &str) -> (r: String)
    ensures
        ascii_text(s@) ==> r@ == lower_all(s@),
        !ascii_text(s@) ==> r@ == unicode_lowercase(s@),
;

/// The texts of a list of strings.
pub open spec fn texts(v: Seq<String>) -> Seq<Seq<char>> {
    Seq::new(v.len(), |i: int| v[i]@)
}

/// The text of an optional string.
pub open spec fn opt_text(s: Option<&str>) -> Option<Seq<char>> {
    match s {
        Some(t) => Some(t@),
        None => None,
    }
}

/// The text of an optional owned string.
pub open spec fn opt_string(s: Option<String>) -> Option<Seq<char>> {
    match s {
        Some(t) => Some(t@),
        None => None,
    }
}

/// How many bytes the text takes in UTF-8.
pub open spec fn byte_len(s: Seq<char>) -> usize {
    encode_utf8(s).len() as usize
}

pub fn to_chars(s: &str) -> (v: Vec<char>)
    ensures
        v@ == s@,
{
    let mut v: Vec<char> = Vec::new();
    for c in it: s.chars()
        invariant
            v@ == it.seq().take(it.index() as int),
            it.seq() == s@,
    {
        v.push(c);
    }
    v
}

pub fn push_all(out: &mut String, v: &Vec<char>)
    ensures
        final(out)@ == old(out)@ + v@,
{
    let mut i: usize = 0;
    while i < v.len()
        invariant
            i <= v.len(),
            out@ == old(out)@ + v@.take(i as int),
        decreases v.len() - i,
    {
        out.push(v[i]);
        i += 1;
        assert(v@.take(i as int) =~= v@.take(i - 1).push(v@[i - 1]));
        assert(out@ =~= old(out)@ + v@.take(i as int));
    }
    assert(v@.take(v.len() as int) =~= v@);
}

pub fn push_text(out: &mut String, s: &str)
    ensures
        final(out)@ == old(out)@ + s@,
{
    let v = to_chars(s);
    push_all(out, &v);
}

pub fn from_chars(v: &Vec<char>) -> (s: String)
    ensures
        s@ == v@,
{
    let mut s = String::new();
    push_all(&mut s, v);
    assert(s@ =~= v@);
    s
}

pub fn own(s: &str) -> (r: String)
    ensures
        r@ == s@,
{
    let mut r = String::new();
    push_text(&mut r, s);
    assert(r@ =~= s@);
    r
}

/// The characters from `from` up to, not including, `to`.
pub fn slice(v: &Vec<char>, from: usize, to: usize) -> (r: Vec<char>)
    requires
        from <= to <= v.len(),
    ensures
        r@ == v@.subrange(from as int, to as int),
{
    let mut r: Vec<char> = Vec::new();
    let mut i: usize = from;
    while i < to
        invariant
            from <= i <= to <= v.len(),
            r@ == v@.subrange(from as int, i as int),
        decreases to - i,
    {
        r.push(v[i]);
        i += 1;
        assert(v@.subrange(from as int, i as int) =~= v@.subrange(from as int, i - 1).push(
            v@[i - 1],
        ));
    }
    r
}

/// Whether two strings hold the same text.
pub fn same(a: &str, b: &str) -> (r: bool)
    ensures
        r == (a@ == b@),
{
    let va = to_chars(a);
    let vb = to_chars(b);
    same_chars(&va, &vb)
}

pub fn same_chars(a: &Vec<char>, b: &Vec<char>) -> (r: bool)
    ensures
        r == (a@ == b@),
{
    if a.len() != b.len() {
        return false;
    }
    let mut i: usize = 0;
    while i < a.len()
        invariant
            i <= a.len(),
            a.len() == b.len(),
            forall|k: int| 0 <= k < i ==> a@[k] == b@[k],
        decreases a.len() - i,
    {
        if a[i] != b[i] {
            assert(a@[i as int] != b@[i as int]);
            return false;
        }
        i += 1;
    }
    assert(a@ =~= b@);
    true
}

// ---------------------------------------------------------------------------
// Searching
// ---------------------------------------------------------------------------

/// `n` stands in `h` from position `i` on.
pub open spec fn occurs_at(h: Seq<char>, n: Seq<char>, i: int) -> bool {
    0 <= i && i + n.len() <= h.len() && h.subrange(i, i + n.len()) == n
}

pub open spec fn starts_with(s: Seq<char>, p: Seq<char>) -> bool {
    occurs_at(s, p, 0)
}

pub open spec fn ends_with(s: Seq<char>, p: Seq<char>) -> bool {
    p.len() <= s.len() && s.subrange(s.len() - p.len(), s.len() as int) == p
}

/// `n` stands somewhere in `h`.
pub open spec fn contains(h: Seq<char>, n: Seq<char>) -> bool {
    exists|i: int| occurs_at(h, n, i)
}

pub fn stands_at(h: &Vec<char>, n: &Vec<char>, i: usize) -> (r: bool)
    ensures
        r == occurs_at(h@, n@, i as int),
{
    if n.len() > h.len() || i > h.len() - n.len() {
        return false;
    }
    let mut k: usize = 0;
    while k < n.len()
        invariant
            k <= n.len(),
            i + n.len() <= h.len(),
            forall|j: int| 0 <= j < k ==> h@[i + j] == n@[j],
        decreases n.len() - k,
    {
        if h[i + k] != n[k] {
            assert(h@.subrange(i as int, i + n.len())[k as int] != n@[k as int]);
            return false;
        }
        k += 1;
    }
    assert(h@.subrange(i as int, i + n.len()) =~= n@);
    true
}

/// The first position from `from` on at which `n` stands.
pub open spec fn first_from(h: Seq<char>, n: Seq<char>, from: int) -> Option<int>
    decreases h.len() + 1 - from,
{
    if from < 0 || from + n.len() > h.len() {
        None
    } else if occurs_at(h, n, from) {
        Some(from)
    } else {
        first_from(h, n, from + 1)
    }
}

pub proof fn lemma_first_from(h: Seq<char>, n: Seq<char>, from: int)
    requires
        0 <= from,
    ensures
        match first_from(h, n, from) {
            Some(i) => from <= i && occurs_at(h, n, i) && forall|j: int|
                from <= j < i ==> !occurs_at(h, n, j),
            None => forall|j: int| from <= j ==> !occurs_at(h, n, j),
        },
    decreases h.len() + 1 - from,
{
    if from + n.len() <= h.len() && !occurs_at(h, n, from) {
        lemma_first_from(h, n, from + 1);
    }
}

pub fn find_from(h: &Vec<char>, n: &Vec<char>, from: usize) -> (r: Option<usize>)
    ensures
        match r {
            Some(i) => first_from(h@, n@, from as int) == Some(i as int),
            None => first_from(h@, n@, from as int) is None,
        },
{
    if n.len() > h.len() || from > h.len() - n.len() {
        return None;
    }
    let last: usize = h.len() - n.len();
    let mut i: usize = from;
    loop
        invariant
            i <= last,
            last == h.len() - n.len(),
            first_from(h@, n@, from as int) == first_from(h@, n@, i as int),
        decreases last - i,
    {
        if stands_at(h, n, i) {
            return Some(i);
        }
        if i == last {
            assert(first_from(h@, n@, i + 1) is None);
            return None;
        }
        i += 1;
    }
}

pub fn begins(s: &str, p: &str) -> (r: bool)
    ensures
        r == starts_with(s@, p@),
{
    let vs = to_chars(s);
    let vp = to_chars(p);
    stands_at(&vs, &vp, 0)
}

/// What follows the prefix `p`, where `s` starts with it.
pub fn strip_prefix(s: &str, p: &str) -> (r: Option<String>)
    ensures
        match r {
            Some(t) => starts_with(s@, p@) && t@ == s@.skip(p@.len() as int),
            None => !starts_with(s@, p@),
        },
{
    let vs = to_chars(s);
    let vp = to_chars(p);
    if stands_at(&vs, &vp, 0) {
        let rest = slice(&vs, vp.len(), vs.len());
        assert(rest@ =~= s@.skip(p@.len() as int));
        Some(from_chars(&rest))
    } else {
        None
    }
}

/// What comes before the suffix `p`, where `s` ends with it.
pub fn strip_suffix(s: &str, p: &str) -> (r: Option<String>)
    ensures
        match r {
            Some(t) => ends_with(s@, p@) && t@ == s@.take(s@.len() - p@.len()),
            None => !ends_with(s@, p@),
        },
{
    let vs = to_chars(s);
    let vp = to_chars(p);
    if vp.len() > vs.len() {
        return None;
    }
    let cut: usize = vs.len() - vp.len();
    if stands_at(&vs, &vp, cut) {
        let rest = slice(&vs, 0, cut);
        assert(rest@ =~= s@.take(s@.len() - p@.len()));
        Some(from_chars(&rest))
    } else {
        None
    }
}

// ---------------------------------------------------------------------------
// Trimming
// ---------------------------------------------------------------------------

pub open spec fn trim_start(s: Seq<char>) -> Seq<char>
    decreases s.len(),
{
    if s.len() > 0 && is_space(s[0]) {
        trim_start(s.skip(1))
    } else {
        s
    }
}

pub open spec fn trim_end(s: Seq<char>) -> Seq<char>
    decreases s.len(),
{
    if s.len() > 0 && is_space(s.last()) {
        trim_end(s.drop_last())
    } else {
        s
    }
}

/// The text without the whitespace at its two ends.
pub open spec fn trim(s: Seq<char>) -> Seq<char> {
    trim_end(trim_start(s))
}

pub fn trimmed(s: &str) -> (r: String)
    ensures
        r@ == trim(s@),
{
    let v = to_chars(s);
    let mut from: usize = 0;
    assert(v@.skip(0) =~= v@);
    while from < v.len() && space(v[from])
        invariant
            from <= v.len(),
            trim_start(v@) == trim_start(v@.skip(from as int)),
        decreases v.len() - from,
    {
        assert(v@.skip(from as int).skip(1) =~= v@.skip(from + 1));
        from += 1;
    }
    let ghost left = v@.skip(from as int);
    assert(trim_start(v@) == left);
    let mut to: usize = v.len();
    assert(v@.subrange(from as int, to as int) =~= left);
    while to > from && space(v[to - 1])
        invariant
            from <= to <= v.len(),
            trim_end(left) == trim_end(v@.subrange(from as int, to as int)),
        decreases to - from,
    {
        assert(v@.subrange(from as int, to as int).drop_last() =~= v@.subrange(
            from as int,
            to - 1,
        ));
        to -= 1;
    }
    let kept = slice(&v, from, to);
    from_chars(&kept)
}

// ---------------------------------------------------------------------------
// Runs of characters, and words
// ---------------------------------------------------------------------------

/// The maximal runs of neighbouring characters of one class. `k` gives each
/// character's class; characters of class 0 belong to no run.
pub open spec fn runs(s: Seq<char>, k: Seq<u8>) -> Seq<Seq<char>>
    decreases s.len(),
{
    if s.len() == 0 {
        Seq::empty()
    } else {
        let n = s.len() - 1;
        let before = runs(s.drop_last(), k.drop_last());
        if k[n] == 0 {
            before
        } else if n > 0 && k[n - 1] == k[n] {
            before.drop_last().push(before.last().push(s[n]))
        } else {
            before.push(seq![s[n]])
        }
    }
}

pub fn split_runs(s: &Vec<char>, k: &Vec<u8>) -> (r: Vec<String>)
    requires
        s.len() == k.len(),
    ensures
        texts(r@) == runs(s@, k@),
{
    let mut done: Vec<String> = Vec::new();
    let mut open: String = String::new();
    let mut i: usize = 0;
    assert(texts(done@) =~= runs(s@.take(0), k@.take(0)));
    while i < s.len()
        invariant
            i <= s.len(),
            s.len() == k.len(),
            (i > 0 && k@[i - 1] != 0) ==> runs(s@.take(i as int), k@.take(i as int)) == texts(
                done@,
            ).push(open@),
            (i == 0 || k@[i - 1] == 0) ==> runs(s@.take(i as int), k@.take(i as int)) == texts(
                done@,
            ) && open@.len() == 0,
        decreases s.len() - i,
    {
        let ghost before = runs(s@.take(i as int), k@.take(i as int));
        proof {
            assert(s@.take(i + 1).drop_last() =~= s@.take(i as int));
            assert(k@.take(i + 1).drop_last() =~= k@.take(i as int));
        }
        let was_open: bool = i > 0 && k[i - 1] != 0;
        if k[i] == 0 {
            if was_open {
                done.push(open);
                open = String::new();
                assert(texts(done@) =~= before);
            }
        } else if was_open && k[i - 1] == k[i] {
            open.push(s[i]);
            assert(texts(done@).push(open@) =~= before.drop_last().push(
                before.last().push(s@[i as int]),
            ));
        } else {
            if was_open {
                done.push(open);
                assert(texts(done@) =~= before);
            }
            open = String::new();
            open.push(s[i]);
            assert(open@ =~= seq![s@[i as int]]);
        }
        i += 1;
    }
    assert(s@.take(s.len() as int) =~= s@);
    assert(k@.take(s.len() as int) =~= k@);
    if s.len() > 0 && k[s.len() - 1] != 0 {
        let ghost before = texts(done@);
        let ghost last = open@;
        done.push(open);
        assert(texts(done@) =~= before.push(last));
    }
    done
}

/// Class 0 for whitespace, class 1 for everything else.
pub open spec fn word_classes(s: Seq<char>) -> Seq<u8> {
    Seq::new(s.len(), |i: int| if is_space(s[i]) { 0u8 } else { 1u8 })
}

/// The words of a text: its maximal runs of characters that are not whitespace.
pub open spec fn words(s: Seq<char>) -> Seq<Seq<char>> {
    runs(s, word_classes(s))
}

pub fn split_words(s: &str) -> (r: Vec<String>)
    ensures
        texts(r@) == words(s@),
{
    let v = to_chars(s);
    let mut k: Vec<u8> = Vec::new();
    let mut i: usize = 0;
    while i < v.len()
        invariant
            i <= v.len(),
            k@ == word_classes(v@).take(i as int),
        decreases v.len() - i,
    {
        if space(v[i]) {
            k.push(0);
        } else {
            k.push(1);
        }
        i += 1;
        assert(word_classes(v@).take(i as int) =~= word_classes(v@).take(i - 1).push(
            word_classes(v@)[i - 1],
        ));
    }
    assert(k@ =~= word_classes(v@));
    split_runs(&v, &k)
}

/// The texts one after the other, with `sep` between neighbours.
pub open spec fn join(ws: Seq<Seq<char>>, sep: Seq<char>) -> Seq<char>
    decreases ws.len(),
{
    if ws.len() == 0 {
        Seq::empty()
    } else if ws.len() == 1 {
        ws[0]
    } else {
        join(ws.drop_last(), sep) + sep + ws.last()
    }
}

pub fn joined(ws: &Vec<String>, sep: &str) -> (r: String)
    ensures
        r@ == join(texts(ws@), sep@),
{
    let mut out = String::new();
    let mut i: usize = 0;
    assert(texts(ws@).take(0) =~= Seq::<Seq<char>>::empty());
    while i < ws.len()
        invariant
            i <= ws.len(),
            out@ == join(texts(ws@).take(i as int), sep@),
        decreases ws.len() - i,
    {
        let ghost all = texts(ws@);
        assert(all.take(i + 1).drop_last() =~= all.take(i as int));
        if i > 0 {
            push_text(&mut out, sep);
        }
        push_text(&mut out, ws[i].as_str());
        assert(all.take(i + 1).last() == ws@[i as int]@);
        assert(i == 0 ==> out@ =~= all.take(1)[0]);
        i += 1;
    }
    assert(texts(ws@).take(ws.len() as int) =~= texts(ws@));
    out
}

/// Where the text stands in the list for the first time.
pub open spec fn first_index(list: Seq<Seq<char>>, s: Seq<char>) -> Option<int>
    decreases list.len(),
{
    if list.len() == 0 {
        None
    } else {
        match first_index(list.drop_last(), s) {
            Some(i) => Some(i),
            None => if list.last() == s {
                Some(list.len() - 1)
            } else {
                None
            },
        }
    }
}

pub proof fn lemma_first_index_prefix(list: Seq<Seq<char>>, s: Seq<char>, n: int)
    requires
        0 <= n <= list.len(),
        first_index(list.take(n), s) is Some,
    ensures
        first_index(list, s) == first_index(list.take(n), s),
    decreases list.len() - n,
{
    if n < list.len() {
        assert(list.take(n + 1).drop_last() =~= list.take(n));
        lemma_first_index_prefix(list, s, n + 1);
    } else {
        assert(list.take(n) =~= list);
    }
}

// ---------------------------------------------------------------------------
// Replacing
// ---------------------------------------------------------------------------

/// `n` stands at `i` as a whole word: the text starts there or ASCII whitespace
/// comes before, and the text ends after it or ASCII whitespace follows.
pub open spec fn word_at(h: Seq<char>, n: Seq<char>, i: int) -> bool {
    &&& occurs_at(h, n, i)
    &&& i == 0 || is_ascii_space(h[i - 1])
    &&& i + n.len() == h.len() || is_ascii_space(h[i + n.len()])
}

/// `n` is not empty and stands somewhere in `h` as a whole word.
pub open spec fn has_word(h: Seq<char>, n: Seq<char>) -> bool {
    n.len() > 0 && exists|i: int| word_at(h, n, i)
}

/// Whether the needle stands in the text as a whole word.
pub fn contains_word(haystack: &str, needle: &str) -> (r: bool)
    ensures
        r == has_word(haystack@, needle@),
{
    let h = to_chars(haystack);
    let n = to_chars(needle);
    if n.len() == 0 {
        return false;
    }
    let mut i: usize = 0;
    while i < h.len()
        invariant
            i <= h.len(),
            n@ == needle@,
            h@ == haystack@,
            n.len() > 0,
            forall|k: int| 0 <= k < i ==> !word_at(h@, n@, k),
        decreases h.len() - i,
    {
        if stands_at(&h, &n, i) && (i == 0 || ascii_space(h[i - 1])) && (i + n.len() == h.len()
            || ascii_space(h[i + n.len()])) {
            assert(word_at(h@, n@, i as int));
            return true;
        }
        i += 1;
    }
    false
}

/// `h` from `i` on, with each whole-word occurrence of `n` replaced by `r`,
/// taken from left to right without overlaps.
pub open spec fn replace_words_from(h: Seq<char>, n: Seq<char>, r: Seq<char>, i: int) -> Seq<char>
    decreases h.len() - i,
{
    if i < 0 || i >= h.len() {
        Seq::empty()
    } else if n.len() > 0 && word_at(h, n, i) {
        r + replace_words_from(h, n, r, i + n.len())
    } else {
        seq![h[i]] + replace_words_from(h, n, r, i + 1)
    }
}

pub open spec fn replace_words(h: Seq<char>, n: Seq<char>, r: Seq<char>) -> Seq<char> {
    replace_words_from(h, n, r, 0)
}

/// Replaces every whole-word occurrence of `needle`.
pub fn replace_word(haystack: &str, needle: &str, replacement: &str) -> (r: String)
    ensures
        r@ == replace_words(haystack@, needle@, replacement@),
{
    let h = to_chars(haystack);
    let n = to_chars(needle);
    let mut out = String::new();
    let mut i: usize = 0;
    while i < h.len()
        invariant
            i <= h.len(),
            n@ == needle@,
            h@ == haystack@,
            out@ + replace_words_from(h@, n@, replacement@, i as int) == replace_words(
                h@,
                n@,
                replacement@,
            ),
        decreases h.len() - i,
    {
        let hit = n.len() > 0 && stands_at(&h, &n, i) && (i == 0 || ascii_space(h[i - 1])) && (i
            + n.len() == h.len() || ascii_space(h[i + n.len()]));
        let ghost before = out@;
        let ghost rest = replace_words_from(h@, n@, replacement@, i as int);
        if hit {
            push_text(&mut out, replacement);
            i += n.len();
        } else {
            out.push(h[i]);
            i += 1;
        }
        assert(out@ + replace_words_from(h@, n@, replacement@, i as int) =~= before + rest);
    }
    assert(out@ =~= out@ + replace_words_from(h@, n@, replacement@, i as int));
    out
}

/// `h` from `i` on, with each occurrence of `n` replaced by `r`, taken from
/// left to right without overlaps.
pub open spec fn replace_from(h: Seq<char>, n: Seq<char>, r: Seq<char>, i: int) -> Seq<char>
    decreases h.len() - i,
{
    if i < 0 || i >= h.len() {
        Seq::empty()
    } else if n.len() > 0 && occurs_at(h, n, i) {
        r + replace_from(h, n, r, i + n.len())
    } else {
        seq![h[i]] + replace_from(h, n, r, i + 1)
    }
}

/// The text with every occurrence of the non-empty `n` replaced by `r`.
pub open spec fn replace(h: Seq<char>, n: Seq<char>, r: Seq<char>) -> Seq<char> {
    replace_from(h, n, r, 0)
}

/// Replaces every occurrence of a non-empty `needle`.
pub fn replace_all(haystack: &str, needle: &str, replacement: &str) -> (r: String)
    requires
        needle@.len() > 0,
    ensures
        r@ == replace(haystack@, needle@, replacement@),
{
    let h = to_chars(haystack);
    let n = to_chars(needle);
    let mut out = String::new();
    let mut i: usize = 0;
    while i < h.len()
        invariant
            i <= h.len(),
            n@ == needle@,
            n.len() > 0,
            h@ == haystack@,
            out@ + replace_from(h@, n@, replacement@, i as int) == replace(h@, n@, replacement@),
        decreases h.len() - i,
    {
        let ghost before = out@;
        let ghost rest = replace_from(h@, n@, replacement@, i as int);
        if stands_at(&h, &n, i) {
            push_text(&mut out, replacement);
            i += n.len();
        } else {
            out.push(h[i]);
            i += 1;
        }
        assert(out@ + replace_from(h@, n@, replacement@, i as int) =~= before + rest);
    }
    assert(out@ =~= out@ + replace_from(h@, n@, replacement@, i as int));
    out
}

// ---------------------------------------------------------------------------
// Laws
// ---------------------------------------------------------------------------

/// The text is not empty and holds no whitespace.
pub open spec fn is_word(w: Seq<char>) -> bool {
    w.len() > 0 && forall|i: int| 0 <= i < w.len() ==> !is_space(#[trigger] w[i])
}

/// What `words` gives are words, and all their characters come from the text.
pub proof fn law_words_are_words(s: Seq<char>)
    ensures
        forall|j: int| 0 <= j < words(s).len() ==> is_word(#[trigger] words(s)[j]),
        forall|j: int, i: int|
            0 <= j < words(s).len() && 0 <= i < words(s)[j].len() ==> s.contains(
                #[trigger] words(s)[j][i],
            ),
        s.len() > 0 && !is_space(s.last()) ==> words(s).len() > 0,
    decreases s.len(),
{
    if s.len() > 0 {
        let p = s.drop_last();
        law_words_are_words(p);
        assert(word_classes(s).drop_last() =~= word_classes(p));
        let n = s.len() - 1;
        let ws = words(s);
        let before = words(p);
        if is_space(s[n]) {
            assert(ws == before);
        } else if n > 0 && !is_space(s[n - 1]) {
            assert(p.last() == s[n - 1]);
            assert(before.len() > 0);
            assert(ws == before.drop_last().push(before.last().push(s[n])));
        } else {
            assert(ws == before.push(seq![s[n]]));
        }
        assert forall|j: int| 0 <= j < ws.len() implies is_word(#[trigger] ws[j]) by {
            if j < before.len() {
                assert(is_word(before[j]));
            }
        }
        assert forall|j: int, i: int| 0 <= j < ws.len() && 0 <= i < ws[j].len() implies s.contains(
            #[trigger] ws[j][i],
        ) by {
            assert(s[n] == s.last());
            if j < before.len() && i < before[j].len() {
                assert(ws[j][i] == before[j][i]);
                assert(p.contains(before[j][i]));
                let k = choose|k: int| 0 <= k < p.len() && p[k] == before[j][i];
                assert(s[k] == before[j][i]);
            } else {
                assert(ws[j][i] == s[n]);
            }
        }
    }
}

/// A word behind a separator is the last word of the longer text.
proof fn lemma_words_append(a: Seq<char>, w: Seq<char>)
    requires
        is_word(w),
        a.len() == 0 || is_space(a.last()),
    ensures
        words(a + w) == words(a).push(w),
    decreases w.len(),
{
    let t = a + w;
    let n = t.len() - 1;
    assert(t.drop_last() =~= a + w.drop_last());
    assert(word_classes(t).drop_last() =~= word_classes(t.drop_last()));
    assert(!is_space(w.last()));
    if w.len() == 1 {
        assert(t.drop_last() =~= a);
        assert(w =~= seq![t[n]]);
        assert(n > 0 ==> t[n - 1] == a.last());
    } else {
        assert(is_word(w.drop_last()));
        lemma_words_append(a, w.drop_last());
        assert(t[n - 1] == w[w.len() - 2]);
        let before = words(a).push(w.drop_last());
        assert(words(t) == before.drop_last().push(before.last().push(t[n])));
        assert(before.last().push(t[n]) =~= w);
        assert(before.drop_last() =~= words(a));
    }
}

/// Whitespace at the end adds no word.
proof fn lemma_words_space(a: Seq<char>, c: char)
    requires
        is_space(c),
    ensures
        words(a.push(c)) == words(a),
{
    assert(a.push(c).drop_last() =~= a);
    assert(word_classes(a.push(c)).drop_last() =~= word_classes(a));
}

/// Joining words with a space and splitting the result gives the words back.
pub proof fn law_split_undoes_join(ws: Seq<Seq<char>>)
    requires
        forall|j: int| 0 <= j < ws.len() ==> is_word(#[trigger] ws[j]),
    ensures
        words(join(ws, seq![' '])) == ws,
    decreases ws.len(),
{
    let sep = seq![' '];
    if ws.len() == 0 {
        assert(words(Seq::<char>::empty()) =~= Seq::empty());
    } else {
        let rest = ws.drop_last();
        assert forall|j: int| 0 <= j < rest.len() implies is_word(#[trigger] rest[j]) by {
            assert(rest[j] == ws[j]);
        }
        law_split_undoes_join(rest);
        assert(is_word(ws[ws.len() - 1]));
        if ws.len() == 1 {
            assert(Seq::<char>::empty() + ws[0] =~= ws[0]);
            assert(words(Seq::<char>::empty()) =~= Seq::empty());
            lemma_words_append(Seq::empty(), ws[0]);
            assert(ws =~= Seq::empty().push(ws[0]));
        } else {
            let a = join(rest, sep);
            lemma_words_space(a, ' ');
            assert(a + sep =~= a.push(' '));
            lemma_words_append(a + sep, ws.last());
            assert(ws =~= rest.push(ws.last()));
        }
    }
}

/// Every character of joined texts is the separator or comes from one of them.
pub proof fn lemma_join_chars(ws: Seq<Seq<char>>, sep: char, i: int)
    requires
        0 <= i < join(ws, seq![sep]).len(),
    ensures
        join(ws, seq![sep])[i] == sep || exists|j: int, k: int|
            0 <= j < ws.len() && 0 <= k < ws[j].len() && #[trigger] ws[j][k] == join(
                ws,
                seq![sep],
            )[i],
    decreases ws.len(),
{
    if ws.len() == 1 {
        assert(ws[0][i] == join(ws, seq![sep])[i]);
    } else if ws.len() > 1 {
        let rest = ws.drop_last();
        let a = join(rest, seq![sep]);
        let t = join(ws, seq![sep]);
        if i < a.len() {
            assert(t[i] == a[i]);
            lemma_join_chars(rest, sep, i);
            if a[i] != sep {
                let (j, k) = choose|j: int, k: int|
                    0 <= j < rest.len() && 0 <= k < rest[j].len() && #[trigger] rest[j][k] == a[i];
                assert(ws[j][k] == t[i]);
            }
        } else if i > a.len() {
            assert(ws[ws.len() - 1][i - a.len() - 1] == t[i]);
        }
    }
}

/// Where a word stands nowhere as a whole word, replacing it changes nothing.
pub proof fn law_replacing_an_absent_word_changes_nothing(
    h: Seq<char>,
    n: Seq<char>,
    r: Seq<char>,
)
    requires
        !has_word(h, n),
    ensures
        replace_words(h, n, r) == h,
{
    lemma_absent_from(h, n, r, 0);
    assert(h.skip(0) =~= h);
}

proof fn lemma_absent_from(h: Seq<char>, n: Seq<char>, r: Seq<char>, i: int)
    requires
        0 <= i <= h.len(),
        !has_word(h, n),
    ensures
        replace_words_from(h, n, r, i) == h.skip(i),
    decreases h.len() - i,
{
    if i < h.len() {
        lemma_absent_from(h, n, r, i + 1);
        assert(h.skip(i) =~= seq![h[i]] + h.skip(i + 1));
    } else {
        assert(h.skip(i) =~= Seq::empty());
    }
}

/// Replacing a word by itself changes nothing.
pub proof fn law_replacing_by_itself_changes_nothing(h: Seq<char>, n: Seq<char>)
    ensures
        replace_words(h, n, n) == h,
{
    lemma_by_itself_from(h, n, 0);
    assert(h.skip(0) =~= h);
}

proof fn lemma_by_itself_from(h: Seq<char>, n: Seq<char>, i: int)
    requires
        0 <= i <= h.len(),
    ensures
        replace_words_from(h, n, n, i) == h.skip(i),
    decreases h.len() - i,
{
    if i < h.len() {
        if n.len() > 0 && word_at(h, n, i) {
            lemma_by_itself_from(h, n, i + n.len());
            assert(h.skip(i) =~= n + h.skip(i + n.len()));
        } else {
            lemma_by_itself_from(h, n, i + 1);
            assert(h.skip(i) =~= seq![h[i]] + h.skip(i + 1));
        }
    } else {
        assert(h.skip(i) =~= Seq::empty());
    }
}

/// Trimming twice is trimming once.
pub proof fn law_trim_twice(s: Seq<char>)
    ensures
        trim(trim(s)) == trim(s),
{
    lemma_trim_start(s);
    lemma_trim_end(trim_start(s));
    let t = trim(s);
    if t.len() > 0 {
        assert(t[0] == trim_start(s)[0]);
    }
    assert(trim_start(t) == t);
    assert(trim_end(t) == t);
}

proof fn lemma_trim_start(s: Seq<char>)
    ensures
        trim_start(s).len() == 0 || !is_space(trim_start(s)[0]),
    decreases s.len(),
{
    if s.len() > 0 && is_space(s[0]) {
        lemma_trim_start(s.skip(1));
    }
}

proof fn lemma_trim_end(s: Seq<char>)
    ensures
        trim_end(s).len() == 0 || !is_space(trim_end(s).last()),
        trim_end(s).len() > 0 ==> trim_end(s)[0] == s[0],
    decreases s.len(),
{
    if s.len() > 0 && is_space(s.last()) {
        lemma_trim_end(s.drop_last());
    }
}

proof fn lemma_words_kept_up_to(h: Seq<char>, n: Seq<char>, r: Seq<char>, from: int, i: int)
    requires
        0 <= from <= i <= h.len(),
        forall|k: int| from <= k < i ==> !word_at(h, n, k),
    ensures
        replace_words_from(h, n, r, from) == h.subrange(from, i) + replace_words_from(h, n, r, i),
    decreases i - from,
{
    if from < i {
        lemma_words_kept_up_to(h, n, r, from + 1, i);
        assert(seq![h[from]] + (h.subrange(from + 1, i) + replace_words_from(h, n, r, i))
            =~= h.subrange(from, i) + replace_words_from(h, n, r, i));
    } else {
        assert(h.subrange(from, i) + replace_words_from(h, n, r, i) =~= replace_words_from(
            h,
            n,
            r,
            i,
        ));
    }
}

proof fn lemma_words_of_rest(h: Seq<char>, n: Seq<char>, r: Seq<char>, at: int, i: int)
    requires
        n.len() > 0,
        !is_ascii_space(n[0]),
        0 <= at <= h.len(),
        at == h.len() || is_ascii_space(h[at]),
        0 <= i <= h.len() - at,
    ensures
        replace_words_from(h, n, r, at + i) == replace_words_from(h.skip(at), n, r, i),
    decreases h.len() - at - i,
{
    let t = h.skip(at);
    if i < t.len() {
        assert(t[i] == h[at + i]);
        if i + n.len() <= t.len() {
            assert(t.subrange(i, i + n.len()) =~= h.subrange(at + i, at + i + n.len()));
        }
        if i > 0 {
            assert(t[i - 1] == h[at + i - 1]);
        } else if occurs_at(t, n, i) {
            assert(t.subrange(i, i + n.len())[0] == t[0]);
        }
        if word_at(t, n, i) {
            if i + n.len() < t.len() {
                assert(t[i + n.len()] == h[at + i + n.len()]);
            }
            lemma_words_of_rest(h, n, r, at, i + n.len());
        } else {
            if i + n.len() < t.len() {
                assert(t[i + n.len()] == h[at + i + n.len()]);
            }
            lemma_words_of_rest(h, n, r, at, i + 1);
        }
    }
}

/// Where a word stands in a text as a whole word for the first time, replacing it
/// keeps what comes before, puts the replacement in its place, and goes on with
/// what comes behind.
pub proof fn law_words_are_replaced_in_turn(h: Seq<char>, n: Seq<char>, r: Seq<char>, i: int)
    requires
        n.len() > 0,
        !is_ascii_space(n[0]),
        word_at(h, n, i),
        forall|k: int| 0 <= k < i ==> !word_at(h, n, k),
    ensures
        replace_words(h, n, r) == h.take(i) + r + replace_words(h.skip(i + n.len()), n, r),
{
    lemma_words_kept_up_to(h, n, r, 0, i);
    lemma_words_of_rest(h, n, r, i + n.len(), 0);
    assert(h.subrange(0, i) =~= h.take(i));
    assert(h.take(i) + (r + replace_words(h.skip(i + n.len()), n, r)) =~= h.take(i) + r
        + replace_words(h.skip(i + n.len()), n, r));
}

proof fn lemma_kept_up_to(h: Seq<char>, n: Seq<char>, r: Seq<char>, from: int, i: int)
    requires
        0 <= from <= i <= h.len(),
        forall|k: int| from <= k < i ==> !occurs_at(h, n, k),
    ensures
        replace_from(h, n, r, from) == h.subrange(from, i) + replace_from(h, n, r, i),
    decreases i - from,
{
    if from < i {
        lemma_kept_up_to(h, n, r, from + 1, i);
        assert(seq![h[from]] + (h.subrange(from + 1, i) + replace_from(h, n, r, i)) =~= h.subrange(
            from,
            i,
        ) + replace_from(h, n, r, i));
    } else {
        assert(h.subrange(from, i) + replace_from(h, n, r, i) =~= replace_from(h, n, r, i));
    }
}

proof fn lemma_rest(h: Seq<char>, n: Seq<char>, r: Seq<char>, at: int, i: int)
    requires
        n.len() > 0,
        0 <= at <= h.len(),
        0 <= i <= h.len() - at,
    ensures
        replace_from(h, n, r, at + i) == replace_from(h.skip(at), n, r, i),
    decreases h.len() - at - i,
{
    let t = h.skip(at);
    if i < t.len() {
        if i + n.len() <= t.len() {
            assert(t.subrange(i, i + n.len()) =~= h.subrange(at + i, at + i + n.len()));
        }
        if occurs_at(t, n, i) {
            lemma_rest(h, n, r, at, i + n.len());
        } else {
            lemma_rest(h, n, r, at, i + 1);
        }
    }
}

/// Where a text stands in another for the first time, replacing it keeps what
/// comes before, puts the replacement in its place, and goes on with what comes
/// behind.
pub proof fn law_text_is_replaced_in_turn(h: Seq<char>, n: Seq<char>, r: Seq<char>, i: int)
    requires
        n.len() > 0,
        occurs_at(h, n, i),
        forall|k: int| 0 <= k < i ==> !occurs_at(h, n, k),
    ensures
        replace(h, n, r) == h.take(i) + r + replace(h.skip(i + n.len()), n, r),
{
    lemma_kept_up_to(h, n, r, 0, i);
    lemma_rest(h, n, r, i + n.len(), 0);
    assert(h.subrange(0, i) =~= h.take(i));
    assert(h.take(i) + (r + replace(h.skip(i + n.len()), n, r)) =~= h.take(i) + r + replace(
        h.skip(i + n.len()),
        n,
        r,
    ));
}

/// Where a text stands nowhere in another, replacing it changes nothing.
pub proof fn law_replacing_absent_text_changes_nothing(h: Seq<char>, n: Seq<char>, r: Seq<char>)
    requires
        forall|k: int| !occurs_at(h, n, k),
    ensures
        replace(h, n, r) == h,
{
    lemma_kept_up_to(h, n, r, 0, h.len() as int);
    assert(h.subrange(0, h.len() as int) + Seq::<char>::empty() =~= h);
}

/// Whitespace parts words: the words of two texts with whitespace between them
/// are those of the one and those of the other.
pub proof fn law_whitespace_parts_words(a: Seq<char>, c: char, b: Seq<char>)
    requires
        is_space(c),
    ensures
        words(a.push(c) + b) == words(a) + words(b),
    decreases b.len(),
{
    let t = a.push(c) + b;
    if b.len() == 0 {
        assert(t =~= a.push(c));
        lemma_words_space(a, c);
        assert(words(b) =~= Seq::empty());
        assert(words(a) + words(b) =~= words(a));
    } else {
        let p = b.drop_last();
        law_whitespace_parts_words(a, c, p);
        assert(t.drop_last() =~= a.push(c) + p);
        assert(word_classes(t).drop_last() =~= word_classes(t.drop_last()));
        assert(word_classes(b).drop_last() =~= word_classes(p));
        let n = t.len() - 1;
        let m = b.len() - 1;
        assert(t[n] == b[m]);
        if is_space(b[m]) {
        } else if m > 0 && !is_space(b[m - 1]) {
            assert(t[n - 1] == b[m - 1]);
            law_words_are_words(p);
            assert(p.last() == b[m - 1]);
            assert(words(p).len() > 0);
            assert(words(t) =~= words(a) + words(b));
        } else {
            if m > 0 {
                assert(t[n - 1] == b[m - 1]);
            } else {
                assert(t[n - 1] == c);
            }
            assert(words(t) =~= words(a) + words(b));
        }
    }
}

/// A text without whitespace is its own only word.
pub proof fn law_a_word_is_its_only_word(w: Seq<char>)
    requires
        w.len() > 0,
        forall|i: int| 0 <= i < w.len() ==> !is_space(#[trigger] w[i]),
    ensures
        words(w) == seq![w],
{
    assert(Seq::<char>::empty() + w =~= w);
    assert(words(Seq::<char>::empty()) =~= Seq::empty());
    lemma_words_append(Seq::empty(), w);
    assert(Seq::<Seq<char>>::empty().push(w) =~= seq![w]);
}

proof fn lemma_trim_front(a: Seq<char>, s: Seq<char>)
    requires
        forall|i: int| 0 <= i < a.len() ==> is_space(#[trigger] a[i]),
        s.len() > 0 ==> !is_space(s[0]),
    ensures
        trim_start(a + s) == s,
    decreases a.len(),
{
    if a.len() == 0 {
        assert(a + s =~= s);
    } else {
        let rest = a.skip(1);
        assert forall|i: int| 0 <= i < rest.len() implies is_space(#[trigger] rest[i]) by {
            assert(rest[i] == a[i + 1]);
        }
        lemma_trim_front(rest, s);
        assert(is_space((a + s)[0])) by {
            assert(is_space(a[0]));
        }
        assert((a + s).skip(1) =~= rest + s);
    }
}

proof fn lemma_trim_back(s: Seq<char>, b: Seq<char>)
    requires
        forall|i: int| 0 <= i < b.len() ==> is_space(#[trigger] b[i]),
        s.len() > 0 ==> !is_space(s.last()),
    ensures
        trim_end(s + b) == s,
    decreases b.len(),
{
    if b.len() == 0 {
        assert(s + b =~= s);
    } else {
        let rest = b.drop_last();
        assert forall|i: int| 0 <= i < rest.len() implies is_space(#[trigger] rest[i]) by {
            assert(rest[i] == b[i]);
        }
        lemma_trim_back(s, rest);
        assert(is_space((s + b).last())) by {
            assert(is_space(b[b.len() - 1]));
        }
        assert((s + b).drop_last() =~= s + rest);
    }
}

/// Trimming drops all whitespace at the two ends of a text and nothing else.
pub proof fn law_trim_drops_the_ends(a: Seq<char>, s: Seq<char>, b: Seq<char>)
    requires
        forall|i: int| 0 <= i < a.len() ==> is_space(#[trigger] a[i]),
        forall|i: int| 0 <= i < b.len() ==> is_space(#[trigger] b[i]),
        s.len() > 0 ==> !is_space(s[0]) && !is_space(s.last()),
    ensures
        trim(a + s + b) == s,
{
    if s.len() == 0 {
        let w = a + s + b;
        assert forall|i: int| 0 <= i < w.len() implies is_space(#[trigger] w[i]) by {
            if i < a.len() {
                assert(is_space(a[i]));
            } else {
                assert(is_space(b[i - a.len()]));
            }
        }
        lemma_trim_front(w, s);
        assert(w + s =~= w);
    } else {
        assert(a + s + b =~= a + (s + b));
        lemma_trim_front(a, s + b);
        lemma_trim_back(s, b);
    }
}

/// Joining two lists of texts is joining each, with the separator between; one
/// text alone stays as it is.
pub proof fn law_texts_are_joined_in_turn(
    a: Seq<Seq<char>>,
    b: Seq<Seq<char>>,
    s: Seq<char>,
    sep: Seq<char>,
)
    requires
        a.len() > 0,
        b.len() > 0,
    ensures
        join(a + b, sep) == join(a, sep) + sep + join(b, sep),
        join(seq![s], sep) == s,
        join(Seq::empty(), sep).len() == 0,
    decreases b.len(),
{
    assert((a + b).drop_last() =~= a + b.drop_last());
    if b.len() == 1 {
        assert(a + b.drop_last() =~= a);
    } else {
        law_texts_are_joined_in_turn(a, b.drop_last(), s, sep);
        assert(join(a + b, sep) =~= join(a, sep) + sep + join(b, sep));
    }
}

/// Space, tab and the ends of lines are whitespace; letters, digits and the marks
/// of ASCII are not.
pub proof fn law_what_is_whitespace(c: char)
    ensures
        is_space(' ') && is_space('\t') && is_space('\n') && is_space('\r'),
        '!' <= c <= '~' ==> !is_space(c),
{
}

/// The letters have two cases, each the same place in its alphabet; nothing else
/// has.
pub proof fn law_letters_have_two_cases(k: int, c: char)
    requires
        0 <= k < 26,
    ensures
        lower(('A' as int + k) as char) == ('a' as int + k) as char,
        upper(('a' as int + k) as char) == ('A' as int + k) as char,
        !('A' <= c <= 'Z') ==> lower(c) == c,
        !('a' <= c <= 'z') ==> upper(c) == c,
{
}

/// A text is found in a list where it stands for the first time.
pub proof fn law_the_first_place_is_found(list: Seq<Seq<char>>, s: Seq<char>)
    ensures
        match first_index(list, s) {
            Some(i) => 0 <= i < list.len() && list[i] == s && forall|j: int|
                0 <= j < i ==> #[trigger] list[j] != s,
            None => !list.contains(s),
        },
    decreases list.len(),
{
    if list.len() > 0 {
        let p = list.drop_last();
        law_the_first_place_is_found(p, s);
        match first_index(p, s) {
            Some(i) => {
                assert forall|j: int| 0 <= j < i implies #[trigger] list[j] != s by {
                    assert(p[j] != s);
                }
            },
            None => {
                assert forall|j: int| 0 <= j < p.len() implies #[trigger] list[j] != s by {
                    assert(p[j] == list[j]);
                    assert(p.contains(p[j]));
                }
            },
        }
    }
}

/// A text stands somewhere as a whole word where a blank, or an end of the text, is
/// on each side of it, and only there.
pub proof fn law_words_stand_between_blanks(a: Seq<char>, n: Seq<char>, b: Seq<char>)
    requires
        n.len() > 0,
    ensures
        a.len() == 0 && b.len() == 0 ==> word_at(a + n + b, n, a.len() as int),
        a.len() > 0 && b.len() > 0 && a.last() == ' ' && b[0] == ' ' ==> word_at(
            a + n + b,
            n,
            a.len() as int,
        ),
        a.len() == 0 && b.len() > 0 && b[0] == ' ' ==> word_at(a + n + b, n, a.len() as int),
        a.len() > 0 && b.len() == 0 && a.last() == ' ' ==> word_at(a + n + b, n, a.len() as int),
        a.len() > 0 && '!' <= a.last() <= '~' ==> !word_at(a + n + b, n, a.len() as int),
        b.len() > 0 && '!' <= b[0] <= '~' ==> !word_at(a + n + b, n, a.len() as int),
{
    let h = a + n + b;
    let i = a.len() as int;
    assert(h.subrange(i, i + n.len()) =~= n);
    if a.len() > 0 {
        assert(h[i - 1] == a.last());
    }
    if b.len() > 0 {
        assert(h[i + n.len()] == b[0]);
    }
}

} // verus!
