//! Speech recognition: what is handed to the recogniser, and what is kept of its
//! answer.

use vstd::prelude::*;

use crate::text::{
    from_chars, join, joined, lower, lower_all, own, push_text, same, slice, texts,
    to_chars, to_lower, trim, trimmed,
};

verus! {

/// The sample rate of what is recognised, and how many samples it has at least.
pub const SECOND: usize = 16_000;

/// How many samples a recording has at least: half a second.
pub const MIN_SAMPLES: usize = 8_000;

/// What to do with a recording.
#[derive(Debug, Clone, Copy, PartialEq, Eq, Structural)]
pub enum Gate {
    /// There is nothing in it.
    Empty,
    /// It is too quiet to be speech.
    Silent,
    /// It is too short to be speech.
    TooShort,
    /// Recognise it, after silence was added up to the given length.
    Recognise(usize),
}

/// What to do with a recording of so many samples.
pub open spec fn gate_of(samples: usize, loud: bool) -> Gate {
    if samples == 0 {
        Gate::Empty
    } else if !loud {
        Gate::Silent
    } else if samples < MIN_SAMPLES {
        Gate::TooShort
    } else if samples < SECOND {
        Gate::Recognise(SECOND)
    } else {
        Gate::Recognise(samples)
    }
}

/// What to do with a recording. Quiet and short recordings are dropped: the
/// recogniser makes up words for them.
pub fn gate_recording(samples: usize, loud: bool) -> (r: Gate)
    ensures
        r == gate_of(samples, loud),
{
    if samples == 0 {
        Gate::Empty
    } else if !loud {
        Gate::Silent
    } else if samples < MIN_SAMPLES {
        Gate::TooShort
    } else if samples < SECOND {
        Gate::Recognise(SECOND)
    } else {
        Gate::Recognise(samples)
    }
}

/// The samples, followed by silence up to the given length.
pub fn pad<T: Copy>(samples: &[T], silence: T, len: usize) -> (r: Vec<T>)
    ensures
        r@.len() == (if samples@.len() < len {
            len as int
        } else {
            samples@.len() as int
        }),
        forall|i: int| 0 <= i < samples@.len() ==> #[trigger] r@[i] == samples@[i],
        forall|i: int| samples@.len() <= i < r@.len() ==> #[trigger] r@[i] == silence,
{
    let mut r: Vec<T> = Vec::new();
    let mut i: usize = 0;
    while i < samples.len()
        invariant
            i <= samples.len(),
            r@.len() == i,
            forall|k: int| 0 <= k < i ==> #[trigger] r@[k] == samples@[k],
        decreases samples.len() - i,
    {
        r.push(samples[i]);
        i += 1;
    }
    while r.len() < len
        invariant
            samples@.len() <= r@.len(),
            r@.len() <= len || r@.len() == samples@.len(),
            forall|k: int| 0 <= k < samples@.len() ==> #[trigger] r@[k] == samples@[k],
            forall|k: int| samples@.len() <= k < r@.len() ==> #[trigger] r@[k] == silence,
        decreases len - r@.len(),
    {
        r.push(silence);
    }
    r
}

/// How many threads recognise.
pub open spec fn threads_for(available: Option<usize>) -> int {
    match available {
        Some(n) => if n / 2 > 1 {
            (n / 2) as int
        } else {
            1
        },
        None => 2,
    }
}

/// How many threads recognise: half of those there are, at least one. Four are
/// taken to be there where that is not known.
pub fn inference_threads(available: Option<usize>) -> (r: i32)
    requires
        available matches Some(n) ==> n / 2 <= i32::MAX,
    ensures
        r == threads_for(available),
        r == (match available {
            Some(n) => if n / 2 > 1 {
                n / 2
            } else {
                1
            },
            None => 2,
        }),
{
    let n: usize = match available {
        Some(n) => n,
        None => 4,
    };
    if n / 2 > 1 {
        (n / 2) as i32
    } else {
        1
    }
}

// ---------------------------------------------------------------------------
// The answer
// ---------------------------------------------------------------------------

/// The texts one after the other.
pub open spec fn concat(ws: Seq<Seq<char>>) -> Seq<char>
    decreases ws.len(),
{
    if ws.len() == 0 {
        Seq::empty()
    } else {
        concat(ws.drop_last()) + ws.last()
    }
}

/// Full stops, exclamation marks and question marks end a sentence.
pub open spec fn is_end_mark(c: char) -> bool {
    c == '.' || c == '!' || c == '?'
}

/// The text without the marks at its end.
pub open spec fn without_end_marks(s: Seq<char>) -> Seq<char>
    decreases s.len(),
{
    if s.len() > 0 && is_end_mark(s.last()) {
        without_end_marks(s.drop_last())
    } else {
        s
    }
}

/// What the recogniser is known to make up where there is no speech.
pub open spec fn made_up_phrases() -> Seq<Seq<char>> {
    seq![
        "you"@,
        "thank you"@,
        "thanks for watching"@,
        "thank you for watching"@,
        "please subscribe"@,
        "subscribe to my channel"@,
        "bye"@,
        "bye bye"@,
        "♪"@,
        "♪ ♪"@,
    ]
}

/// The text as it is compared to what is known to be made up: in lower case,
/// without marks at its end and without whitespace at its ends.
pub open spec fn bare(s: Seq<char>) -> Seq<char> {
    trim(without_end_marks(trim(lower_all(s))))
}

fn strip_to_bare(text: &str) -> (r: String)
    ensures
        r@ == bare(text@),
{
    let v = to_chars(text);
    let mut low: Vec<char> = Vec::new();
    let mut i: usize = 0;
    while i < v.len()
        invariant
            i <= v.len(),
            low.len() == i,
            forall|k: int| 0 <= k < i ==> #[trigger] low@[k] == lower(v@[k]),
        decreases v.len() - i,
    {
        low.push(to_lower(v[i]));
        i += 1;
    }
    assert(low@ =~= lower_all(v@));
    let t = trimmed(from_chars(&low).as_str());
    let w = to_chars(t.as_str());
    let mut n: usize = w.len();
    assert(w@.take(n as int) =~= w@);
    while n > 0 && (w[n - 1] == '.' || w[n - 1] == '!' || w[n - 1] == '?')
        invariant
            n <= w.len(),
            without_end_marks(w@) == without_end_marks(w@.take(n as int)),
        decreases n,
    {
        assert(w@.take(n as int).drop_last() =~= w@.take(n - 1));
        n -= 1;
    }
    let kept = slice(&w, 0, n);
    assert(kept@ =~= w@.take(n as int));
    trimmed(from_chars(&kept).as_str())
}

/// Whether the text is one that the recogniser makes up where there is no
/// speech. Only the whole text counts: "are you ready" is speech.
pub fn is_known_hallucination(text: &str) -> (r: bool)
    ensures
        r == made_up_phrases().contains(bare(text@)),
{
    let stripped = strip_to_bare(text);
    let all: &'static [&'static str] = &[
        "you",
        "thank you",
        "thanks for watching",
        "thank you for watching",
        "please subscribe",
        "subscribe to my channel",
        "bye",
        "bye bye",
        "♪",
        "♪ ♪",
    ];
    let ghost list = made_up_phrases();
    assert(crate::phrases::str_texts(all@) =~= list);
    let mut i: usize = 0;
    while i < all.len()
        invariant
            i <= all.len(),
            stripped@ == bare(text@),
            list == made_up_phrases(),
            crate::phrases::str_texts(all@) == list,
            forall|k: int| 0 <= k < i ==> #[trigger] list[k] != stripped@,
        decreases all.len() - i,
    {
        assert(list.len() == all.len());
        assert(list[i as int] == crate::phrases::str_texts(all@)[i as int]);
        if same(stripped.as_str(), all[i]) {
            assert(list[i as int] == bare(text@));
            return true;
        }
        i += 1;
    }
    assert(list.len() == all.len());
    false
}

/// What is kept of the recogniser's answer.
pub open spec fn transcript_of(segments: Seq<Seq<char>>) -> Seq<char> {
    let text = trim(concat(segments));
    if made_up_phrases().contains(bare(text)) {
        Seq::empty()
    } else {
        text
    }
}

/// What is kept of the segments that the recogniser gave: their text, unless it
/// is one that is known to be made up.
pub fn finish_transcript(segments: &Vec<String>) -> (r: String)
    ensures
        r@ == transcript_of(texts(segments@)),
{
    let ghost all = texts(segments@);
    let mut out = String::new();
    let mut i: usize = 0;
    assert(all.take(0) =~= Seq::empty());
    while i < segments.len()
        invariant
            i <= segments.len(),
            all == texts(segments@),
            out@ == concat(all.take(i as int)),
        decreases segments.len() - i,
    {
        assert(all.take(i + 1).drop_last() =~= all.take(i as int));
        push_text(&mut out, segments[i].as_str());
        i += 1;
    }
    assert(all.take(i as int) =~= all);
    let text = trimmed(out.as_str());
    if is_known_hallucination(text.as_str()) {
        String::new()
    } else {
        text
    }
}

// ---------------------------------------------------------------------------
// What it needs
// ---------------------------------------------------------------------------

/// The features of the processor that are needed and missing.
pub open spec fn missing_features(avx2: bool, fma: bool, f16c: bool) -> Seq<Seq<char>> {
    (if avx2 {
        Seq::empty()
    } else {
        seq!["AVX2"@]
    }) + (if fma {
        Seq::empty()
    } else {
        seq!["FMA"@]
    }) + (if f16c {
        Seq::empty()
    } else {
        seq!["F16C"@]
    })
}

/// Whether the processor can do what the recogniser needs; else why not.
pub fn check_cpu_features(avx2: bool, fma: bool, f16c: bool) -> (r: Result<(), String>)
    ensures
        r is Ok == (avx2 && fma && f16c),
        r matches Err(e) ==> e@ == "STT requires AVX2 + FMA + F16C; this CPU lacks "@ + join(
            missing_features(avx2, fma, f16c),
            " + "@,
        ) + ". Use a CPU from 2014 (Haswell) or newer."@,
{
    let mut missing: Vec<String> = Vec::new();
    if !avx2 {
        missing.push(own("AVX2"));
    }
    if !fma {
        missing.push(own("FMA"));
    }
    if !f16c {
        missing.push(own("F16C"));
    }
    assert(texts(missing@) =~= missing_features(avx2, fma, f16c));
    if missing.len() == 0 {
        return Ok(());
    }
    let mut e = own("STT requires AVX2 + FMA + F16C; this CPU lacks ");
    push_text(&mut e, joined(&missing, " + ").as_str());
    push_text(&mut e, ". Use a CPU from 2014 (Haswell) or newer.");
    Err(e)
}

/// The files in which a model can be, in the order of preference.
pub open spec fn model_files() -> Seq<Seq<char>> {
    seq![
        "models/ggml-base.en.bin"@,
        "models/ggml-small.en.bin"@,
        "models/ggml-tiny.en.bin"@,
        "models/ggml-base.bin"@,
        "models/ggml-tiny.bin"@,
    ]
}

/// The files in which a model can be, in the order of preference.
pub fn model_candidates() -> (r: &'static [&'static str])
    ensures
        crate::phrases::str_texts(r@) == model_files(),
{
    let all: &'static [&'static str] = &[
        "models/ggml-base.en.bin",
        "models/ggml-small.en.bin",
        "models/ggml-tiny.en.bin",
        "models/ggml-base.bin",
        "models/ggml-tiny.bin",
    ];
    assert(crate::phrases::str_texts(all@) =~= model_files());
    all
}

/// The model to use: the first file that is there. `present` says of each
/// candidate whether it is.
pub fn find_default_model(present: &Vec<bool>) -> (r: Option<String>)
    requires
        present@.len() == model_files().len(),
    ensures
        match r {
            Some(p) => crate::config::first_true(present@) is Some && p@
                == model_files()[crate::config::first_true(present@)->0],
            None => crate::config::first_true(present@) is None,
        },
{
    let all = model_candidates();
    match crate::config::first_existing(present) {
        Some(i) => {
            assert(crate::phrases::str_texts(all@)[i as int] == model_files()[i as int]);
            Some(own(all[i]))
        },
        None => None,
    }
}

/// Only loud recordings of half a second or more are recognised, and then at a
/// length of a second or more with nothing of them cut off.
pub proof fn law_only_speech_is_recognised(samples: usize, loud: bool)
    ensures
        gate_of(samples, loud) is Recognise == (loud && samples >= MIN_SAMPLES),
        gate_of(samples, loud) matches Gate::Recognise(len) ==> len >= SECOND && len >= samples,
{
}

/// What is long and loud enough is recognised whole, with silence up to a second
/// added; half a second is long enough.
pub proof fn law_speech_is_recognised_whole(samples: usize)
    requires
        samples >= 8000,
    ensures
        gate_of(samples, true) matches Gate::Recognise(n) && n >= samples && n >= 16000 && (n
            == samples || n == 16000),
{
}

/// Recordings are dropped for being empty, then for being quiet, then for being
/// shorter than half a second.
pub proof fn law_other_recordings_are_dropped(samples: usize, loud: bool)
    ensures
        gate_of(0, loud) is Empty,
        samples > 0 ==> gate_of(samples, false) is Silent,
        0 < samples < 8000 ==> gate_of(samples, true) is TooShort,
{
}

/// The segments of a transcript are put together as they come, and whitespace at
/// the two ends is dropped, unless the whole is made up.
pub proof fn law_segments_are_put_together(a: Seq<char>, b: Seq<char>)
    ensures
        made_up_phrases().contains(bare(trim(a + b))) ==> transcript_of(seq![a, b]).len() == 0,
        !made_up_phrases().contains(bare(trim(a + b))) ==> transcript_of(seq![a, b]) == trim(
            a + b,
        ),
        transcript_of(seq![a + b]) == transcript_of(seq![a, b]),
{
    let one = seq![a + b];
    let two = seq![a, b];
    let first = two.drop_last();
    assert(first =~= seq![a]);
    assert(first.drop_last() =~= Seq::empty());
    assert(one.drop_last() =~= Seq::empty());
    assert(concat(Seq::<Seq<char>>::empty()) =~= Seq::empty());
    assert(concat(first) =~= a);
    assert(concat(two) =~= a + b);
    assert(concat(one) =~= a + b);
}

/// What is known to be made up.
pub proof fn law_what_is_made_up()
    ensures
        made_up_phrases().contains("you"@),
        made_up_phrases().contains("thank you"@),
        made_up_phrases().contains("thanks for watching"@),
        made_up_phrases().contains("thank you for watching"@),
        made_up_phrases().contains("please subscribe"@),
        made_up_phrases().contains("subscribe to my channel"@),
        made_up_phrases().contains("bye"@),
        made_up_phrases().contains("bye bye"@),
        made_up_phrases().contains("♪"@),
        made_up_phrases().contains("♪ ♪"@),
        made_up_phrases().len() == 10,
{
    let list = made_up_phrases();
    assert(list[0] == "you"@ && list[1] == "thank you"@ && list[2] == "thanks for watching"@
        && list[3] == "thank you for watching"@ && list[4] == "please subscribe"@ && list[5]
        == "subscribe to my channel"@ && list[6] == "bye"@ && list[7] == "bye bye"@ && list[8]
        == "♪"@ && list[9] == "♪ ♪"@);
}

/// A full stop, an exclamation mark or a question mark at the end, and the case of
/// the letters, make no difference to whether a text is made up.
pub proof fn law_marks_and_case_do_not_hide_what_is_made_up(s: Seq<char>, c: char)
    requires
        s.len() > 0,
        !crate::text::is_space(s[0]),
        !crate::text::is_space(s.last()),
        c == '.' || c == '!' || c == '?',
    ensures
        bare(s.push(c)) == bare(s),
        bare(crate::text::upper_all(s)) == bare(s),
{
    let t = s.push(c);
    assert(lower_all(t) =~= lower_all(s).push(c));
    assert(lower(s[0]) == lower_all(s)[0]);
    assert(!crate::text::is_space(lower_all(s)[0]));
    assert(lower_all(s).last() == lower(s.last()));
    assert(!crate::text::is_space(lower_all(s).last()));
    assert(!crate::text::is_space(c));
    assert(trim(lower_all(s)) == lower_all(s));
    assert(lower_all(t)[0] == lower_all(s)[0]);
    assert(trim(lower_all(t)) == lower_all(t));
    assert(lower_all(t).drop_last() =~= lower_all(s));
    assert(lower_all(crate::text::upper_all(s)) =~= lower_all(s));
}

/// Of the models that are there, the first in the order of preference is used.
pub proof fn law_the_order_of_models()
    ensures
        model_files() == seq![
            "models/ggml-base.en.bin"@,
            "models/ggml-small.en.bin"@,
            "models/ggml-tiny.en.bin"@,
            "models/ggml-base.bin"@,
            "models/ggml-tiny.bin"@,
        ],
{
}

/// Each feature that the processor lacks is listed, and none that it has.
pub proof fn law_missing_features_are_listed(avx2: bool, fma: bool, f16c: bool)
    ensures
        missing_features(true, true, true).len() == 0,
        missing_features(false, true, true) == seq!["AVX2"@],
        missing_features(true, false, true) == seq!["FMA"@],
        missing_features(true, true, false) == seq!["F16C"@],
        missing_features(avx2, fma, f16c) == missing_features(avx2, true, true)
            + missing_features(true, fma, true) + missing_features(true, true, f16c),
{
    assert(missing_features(false, true, true) =~= seq!["AVX2"@]);
    assert(missing_features(true, false, true) =~= seq!["FMA"@]);
    assert(missing_features(true, true, false) =~= seq!["F16C"@]);
    assert(missing_features(avx2, fma, f16c) =~= missing_features(avx2, true, true)
        + missing_features(true, fma, true) + missing_features(true, true, f16c));
}

/// Half of the threads recognise, rounded down, but never none.
pub proof fn law_half_of_the_threads_recognise(n: usize)
    ensures
        n >= 2 ==> 2 * threads_for(Some(n)) <= n < 2 * threads_for(Some(n)) + 2,
        n < 2 ==> threads_for(Some(n)) == 1,
        threads_for(None) == threads_for(Some(4)),
{
}

} // verus!
