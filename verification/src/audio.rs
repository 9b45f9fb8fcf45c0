//! Recording from the microphone: the buffer of samples, and where an utterance
//! ends in it.
//!
//! How loud a frame of samples is, is measured by the application; here it is
//! only known which frames are loud.

use vstd::prelude::*;

use crate::text::{first_index, lemma_first_index_prefix, own, same, texts};

verus! {

/// The sample rate that speech recognition wants.
pub const TARGET_RATE: u32 = 16_000;

/// How many frames of silence end an utterance.
pub const SILENCE_FRAMES_END: usize = 18;

/// How many frames of speech make an utterance.
pub const MIN_SPEECH_FRAMES: usize = 4;

/// After how many frames an utterance ends without a pause.
pub const MAX_UTTERANCE_FRAMES: usize = 250;

// ---------------------------------------------------------------------------
// The end of an utterance
// ---------------------------------------------------------------------------

/// The first loud frame.
pub open spec fn first_loud(loud: Seq<bool>) -> Option<int>
    decreases loud.len(),
{
    if loud.len() == 0 {
        None
    } else {
        match first_loud(loud.drop_last()) {
            Some(i) => Some(i),
            None => if loud.last() {
                Some(loud.len() - 1)
            } else {
                None
            },
        }
    }
}

/// How many frames are loud.
pub open spec fn loud_count(loud: Seq<bool>) -> nat
    decreases loud.len(),
{
    if loud.len() == 0 {
        0
    } else if loud.last() {
        loud_count(loud.drop_last()) + 1
    } else {
        loud_count(loud.drop_last())
    }
}

/// How many frames at the end are quiet.
pub open spec fn quiet_tail(loud: Seq<bool>) -> nat
    decreases loud.len(),
{
    if loud.len() == 0 || loud.last() {
        0
    } else {
        quiet_tail(loud.drop_last()) + 1
    }
}

/// How many quiet frames came since the last loud one; none before the first.
pub open spec fn pause(loud: Seq<bool>) -> nat {
    match first_loud(loud) {
        Some(_) => quiet_tail(loud),
        None => 0,
    }
}

/// An utterance ends with the last of these frames: there was enough speech, and
/// a long enough pause follows, or it goes on for too long.
pub open spec fn utterance_ends(loud: Seq<bool>) -> bool {
    match first_loud(loud) {
        None => false,
        Some(start) => loud_count(loud) >= MIN_SPEECH_FRAMES && (pause(loud) >= SILENCE_FRAMES_END
            || loud.len() - 1 - start >= MAX_UTTERANCE_FRAMES),
    }
}

/// The first frame, from `i` on, with which an utterance ends.
pub open spec fn end_frame_from(loud: Seq<bool>, i: int) -> Option<int>
    decreases loud.len() - i,
{
    if i < 0 || i >= loud.len() {
        None
    } else if utterance_ends(loud.take(i + 1)) {
        Some(i)
    } else {
        end_frame_from(loud, i + 1)
    }
}

proof fn lemma_counts(loud: Seq<bool>)
    ensures
        loud_count(loud) <= loud.len(),
        quiet_tail(loud) <= loud.len(),
        first_loud(loud) is Some ==> 0 <= first_loud(loud)->0 < loud.len(),
    decreases loud.len(),
{
    if loud.len() > 0 {
        lemma_counts(loud.drop_last());
    }
}

/// The frame with which an utterance ends.
pub fn find_end_frame(loud: &Vec<bool>) -> (r: Option<usize>)
    ensures
        match r {
            Some(i) => end_frame_from(loud@, 0) == Some(i as int) && i < loud.len(),
            None => end_frame_from(loud@, 0) is None,
        },
{
    let mut first: Option<usize> = None;
    let mut speech: usize = 0;
    let mut silence: usize = 0;
    let mut i: usize = 0;
    assert(loud@.take(0) =~= Seq::empty());
    while i < loud.len()
        invariant
            i <= loud.len(),
            end_frame_from(loud@, 0) == end_frame_from(loud@, i as int),
            match first {
                Some(f) => first_loud(loud@.take(i as int)) == Some(f as int) && f < i,
                None => first_loud(loud@.take(i as int)) is None,
            },
            speech == loud_count(loud@.take(i as int)),
            silence == pause(loud@.take(i as int)),
            speech <= i,
            silence <= i,
        decreases loud.len() - i,
    {
        let ghost now = loud@.take(i + 1);
        assert(now.drop_last() =~= loud@.take(i as int));
        assert(now.last() == loud@[i as int]);
        if loud[i] {
            if first.is_none() {
                first = Some(i);
            }
            speech += 1;
            silence = 0;
        } else if first.is_some() {
            silence += 1;
        }
        proof {
            lemma_counts(now);
        }
        if let Some(start) = first {
            if speech >= MIN_SPEECH_FRAMES && (silence >= SILENCE_FRAMES_END || i - start
                >= MAX_UTTERANCE_FRAMES) {
                assert(utterance_ends(now));
                return Some(i);
            }
        }
        assert(!utterance_ends(now));
        i += 1;
    }
    None
}

/// How many samples a frame of 20 ms has, all channels together.
pub open spec fn frame_size(rate: u32, channels: usize) -> int {
    (if rate / 50 > 0 {
        rate / 50
    } else {
        1
    }) * channels
}

/// How many samples a frame of 20 ms has, all channels together.
pub fn frame_samples(rate: u32, channels: usize) -> (r: usize)
    requires
        frame_size(rate, channels) <= usize::MAX,
    ensures
        r == frame_size(rate, channels),
{
    let per_channel: usize = if rate / 50 > 0 {
        (rate / 50) as usize
    } else {
        1
    };
    per_channel * channels
}

/// Where the first utterance ends in the samples, as a number of samples.
/// `loud` says of each whole frame whether it is loud. Nothing is decided on
/// fewer than four frames.
pub fn find_utterance_boundary(loud: &Vec<bool>, samples: usize, frame: usize) -> (r: Option<usize>)
    requires
        frame > 0,
        loud.len() == samples / frame,
    ensures
        samples < 4 * frame ==> r is None,
        samples >= 4 * frame ==> match end_frame_from(loud@, 0) {
            Some(i) => r is Some && r->0 == (i + 1) * frame,
            None => r is None,
        },
        r matches Some(cut) ==> 0 < cut <= samples,
{
    if samples / 4 < frame {
        return None;
    }
    match find_end_frame(loud) {
        Some(i) => {
            assert((i + 1) * frame <= samples && (i + 1) * frame > 0) by (nonlinear_arith)
                requires
                    i + 1 <= samples / frame,
                    frame > 0,
            ;
            Some((i + 1) * frame)
        },
        None => None,
    }
}

// ---------------------------------------------------------------------------
// The buffer
// ---------------------------------------------------------------------------

/// What was recorded and not taken yet.
#[derive(Debug)]
pub struct Recording<T> {
    pub enabled: bool,
    pub samples: Vec<T>,
}

impl<T: Copy> Recording<T> {
    pub fn new() -> (r: Recording<T>)
        ensures
            !r.enabled,
            r.samples@.len() == 0,
    {
        Recording { enabled: false, samples: Vec::new() }
    }

    /// Starts to record, with nothing in the buffer.
    pub fn start(&mut self)
        ensures
            final(self).enabled,
            final(self).samples@.len() == 0,
    {
        self.enabled = true;
        self.samples = Vec::new();
    }

    /// Takes in samples, while recording.
    pub fn append(&mut self, data: &[T])
        ensures
            final(self).enabled == old(self).enabled,
            final(self).samples@ == (if old(self).enabled {
                old(self).samples@ + data@
            } else {
                old(self).samples@
            }),
    {
        if self.enabled {
            let mut i: usize = 0;
            while i < data.len()
                invariant
                    i <= data.len(),
                    self.enabled,
                    old(self).enabled,
                    self.samples@ == old(self).samples@ + data@.take(i as int),
                decreases data.len() - i,
            {
                self.samples.push(data[i]);
                i += 1;
                assert(data@.take(i as int) =~= data@.take(i - 1).push(data@[i - 1]));
                assert(self.samples@ =~= old(self).samples@ + data@.take(i as int));
            }
            assert(data@.take(i as int) =~= data@);
        }
    }

    /// Stops to record and gives what was recorded.
    pub fn stop(&mut self) -> (r: Vec<T>)
        ensures
            r@ == old(self).samples@,
            !final(self).enabled,
            final(self).samples@.len() == 0,
    {
        self.enabled = false;
        let mut taken: Vec<T> = Vec::new();
        core::mem::swap(&mut taken, &mut self.samples);
        taken
    }

    /// Drops what was recorded so far and goes on recording.
    pub fn discard_pending(&mut self)
        ensures
            final(self).enabled == old(self).enabled,
            final(self).samples@.len() == 0,
    {
        self.samples = Vec::new();
    }

    /// Takes the first utterance out of the buffer, while recording and where
    /// one has ended.
    pub fn try_take_utterance(&mut self, loud: &Vec<bool>, frame: usize) -> (r: Option<Vec<T>>)
        requires
            frame > 0,
            loud.len() == old(self).samples@.len() / (frame as nat),
        ensures
            final(self).enabled == old(self).enabled,
            match r {
                None => final(self).samples@ == old(self).samples@,
                Some(u) => u@.len() > 0 && u@ + final(self).samples@ == old(self).samples@,
            },
            r is Some == (old(self).enabled && old(self).samples@.len() >= 4 * frame
                && end_frame_from(loud@, 0) is Some),
            r matches Some(u) ==> u@.len() == (end_frame_from(loud@, 0)->0 + 1) * frame,
    {
        if !self.enabled {
            return None;
        }
        match find_utterance_boundary(loud, self.samples.len(), frame) {
            None => None,
            Some(cut) => {
                let ghost before = self.samples@;
                let mut taken: Vec<T> = Vec::new();
                core::mem::swap(&mut taken, &mut self.samples);
                let rest = taken.split_off(cut);
                self.samples = rest;
                assert(taken@ + self.samples@ =~= before);
                Some(taken)
            },
        }
    }
}

/// Recording and taking utterances loses nothing and keeps the order: what is
/// taken and what is left make up what there was before.
pub proof fn law_taking_keeps_every_sample<T>(
    before: Seq<T>,
    data: Seq<T>,
    taken: Seq<T>,
    left: Seq<T>,
)
    requires
        taken + left == before,
    ensures
        taken + (left + data) == before + data,
{
    assert(taken + (left + data) =~= before + data);
}

// ---------------------------------------------------------------------------
// Devices
// ---------------------------------------------------------------------------

/// Which device has the name. `None` where none has it, and the default is
/// used.
pub fn device_named(names: &Vec<String>, target: &str) -> (r: Option<usize>)
    ensures
        match r {
            Some(i) => first_index(texts(names@), target@) == Some(i as int) && i < names.len()
                && names@[i as int]@ == target@,
            None => first_index(texts(names@), target@) is None,
        },
{
    let ghost list = texts(names@);
    let mut i: usize = 0;
    assert(list.take(0) =~= Seq::empty());
    while i < names.len()
        invariant
            i <= names.len(),
            list == texts(names@),
            first_index(list.take(i as int), target@) is None,
        decreases names.len() - i,
    {
        assert(list.take(i + 1).drop_last() =~= list.take(i as int));
        if same(names[i].as_str(), target) {
            proof {
                lemma_first_index_prefix(list, target@, i + 1);
            }
            return Some(i);
        }
        i += 1;
    }
    assert(list.take(i as int) =~= list);
    None
}

/// The list with the named entry moved to the front, where it has one.
pub open spec fn named_first(list: Seq<Seq<char>>, name: Option<Seq<char>>) -> Seq<Seq<char>> {
    match name {
        None => list,
        Some(n) => match first_index(list, n) {
            None => list,
            Some(i) => seq![list[i]] + list.remove(i),
        },
    }
}

/// The devices in the order in which they are listed: the default first.
pub fn default_first(names: &Vec<String>, default_name: Option<&str>) -> (r: Vec<String>)
    ensures
        texts(r@) == named_first(texts(names@), crate::text::opt_text(default_name)),
{
    let ghost list = texts(names@);
    let at = match default_name {
        Some(n) => device_named(names, n),
        None => None,
    };
    let mut r: Vec<String> = Vec::new();
    let mut i: usize = 0;
    match at {
        None => {
            while i < names.len()
                invariant
                    i <= names.len(),
                    list == texts(names@),
                    texts(r@) == list.take(i as int),
                decreases names.len() - i,
            {
                let ghost before = texts(r@);
                r.push(own(names[i].as_str()));
                i += 1;
                assert(texts(r@) =~= before.push(list[i - 1]));
                assert(list.take(i as int) =~= before.push(list[i - 1]));
            }
            assert(list.take(i as int) =~= list);
        },
        Some(p) => {
            r.push(own(names[p].as_str()));
            let ghost rest = list.remove(p as int);
            assert(texts(r@) =~= seq![list[p as int]] + rest.take(0));
            while i < names.len()
                invariant
                    i <= names.len(),
                    p < names.len(),
                    list == texts(names@),
                    rest == list.remove(p as int),
                    texts(r@) == seq![list[p as int]] + rest.take(
                        if i <= p {
                            i as int
                        } else {
                            i - 1
                        },
                    ),
                decreases names.len() - i,
            {
                let ghost before = texts(r@);
                if i != p {
                    r.push(own(names[i].as_str()));
                    assert(texts(r@) =~= before.push(list[i as int]));
                }
                i += 1;
                assert(texts(r@) =~= seq![list[p as int]] + rest.take(
                    if i <= p {
                        i as int
                    } else {
                        i - 1
                    },
                ));
            }
            assert(rest.take(names.len() - 1) =~= rest);
        },
    }
    r
}

// ---------------------------------------------------------------------------
// The microphone
// ---------------------------------------------------------------------------

/// Whether the microphone is open, and whether it stays open without a key
/// being held.
#[derive(Debug, Clone, Copy, PartialEq, Eq, Structural)]
pub struct Mic {
    pub hot: bool,
    pub locked: bool,
}

/// What a press on a microphone key asks for.
#[derive(Debug, Clone, Copy, PartialEq, Eq, Structural)]
pub enum MicStep {
    /// Nothing: the microphone stays open anyway.
    Ignore,
    /// Start to record.
    Start,
    /// Start to record, and look for utterances now and then.
    StartPolling,
    /// Stop looking for utterances, and submit what was recorded.
    StopAndSubmit,
    /// Say that there is no microphone.
    NoMicrophone,
}

impl Mic {
    pub fn new() -> (r: Mic)
        ensures
            r == (Mic { hot: false, locked: false }),
    {
        Mic { hot: false, locked: false }
    }

    /// The key of push-to-talk was pressed.
    pub fn press_to_talk(&mut self, has_device: bool) -> (r: MicStep)
        ensures
            old(self).locked ==> r == MicStep::Ignore && *final(self) == *old(self),
            !old(self).locked && has_device ==> r == MicStep::Start && *final(self) == (Mic {
                hot: true,
                locked: false,
            }),
            !old(self).locked && !has_device ==> r == MicStep::NoMicrophone && *final(self)
                == *old(self),
    {
        if self.locked {
            MicStep::Ignore
        } else if has_device {
            self.hot = true;
            MicStep::Start
        } else {
            MicStep::NoMicrophone
        }
    }

    /// The key of the hot mic was pressed.
    pub fn toggle_hot_mic(&mut self, has_device: bool) -> (r: MicStep)
        ensures
            old(self).locked ==> r == MicStep::StopAndSubmit && *final(self) == (Mic {
                hot: false,
                locked: false,
            }),
            !old(self).locked && has_device ==> r == MicStep::StartPolling && *final(self) == (
            Mic { hot: true, locked: true }),
            !old(self).locked && !has_device ==> r == MicStep::NoMicrophone && *final(self)
                == *old(self),
    {
        if self.locked {
            self.locked = false;
            self.hot = false;
            MicStep::StopAndSubmit
        } else if has_device {
            self.locked = true;
            self.hot = true;
            MicStep::StartPolling
        } else {
            MicStep::NoMicrophone
        }
    }

    /// The key of push-to-talk was released: what was recorded is submitted.
    pub fn release(&mut self)
        ensures
            *final(self) == (Mic { hot: false, ..*old(self) }),
    {
        self.hot = false;
    }
}

/// What to do when it is time to look for an utterance.
#[derive(Debug, Clone, Copy, PartialEq, Eq, Structural)]
pub enum PollStep {
    Nothing,
    /// Drop what was recorded: the speech engine may have been heard.
    Discard,
    /// Take an utterance where one has ended.
    Take,
}

/// What to do when it is time to look for an utterance.
pub open spec fn poll_of(mic: Mic, playing: bool, mute_during_speech: bool) -> PollStep {
    if !mic.locked {
        PollStep::Nothing
    } else if playing && mute_during_speech {
        PollStep::Discard
    } else {
        PollStep::Take
    }
}

/// What to do when it is time to look for an utterance.
pub fn poll_step(mic: Mic, playing: bool, mute_during_speech: bool) -> (r: PollStep)
    ensures
        r == poll_of(mic, playing, mute_during_speech),
        r == (if !mic.locked {
            PollStep::Nothing
        } else if playing && mute_during_speech {
            PollStep::Discard
        } else {
            PollStep::Take
        }),
{
    if !mic.locked {
        PollStep::Nothing
    } else if playing && mute_during_speech {
        PollStep::Discard
    } else {
        PollStep::Take
    }
}

// ---------------------------------------------------------------------------
// Where utterances end, frame by frame
// ---------------------------------------------------------------------------

proof fn lemma_count_grows(loud: Seq<bool>, a: int, b: int)
    requires
        0 <= a <= b <= loud.len(),
    ensures
        loud_count(loud.take(a)) <= loud_count(loud.take(b)),
        a < b && loud[b - 1] ==> loud_count(loud.take(a)) + 1 <= loud_count(loud.take(b)),
    decreases b - a,
{
    if a < b {
        assert(loud.take(b).drop_last() =~= loud.take(b - 1));
        lemma_count_grows(loud, a, b - 1);
    }
}

proof fn lemma_last_counted(loud: Seq<bool>, n: int) -> (d: int)
    requires
        0 <= n <= loud.len(),
        loud_count(loud.take(n)) > 0,
    ensures
        0 <= d < n,
        loud[d],
        loud_count(loud.take(d)) + 1 == loud_count(loud.take(n)),
    decreases n,
{
    if n == 0 {
        assert(loud.take(0) =~= Seq::empty());
    }
    assert(loud.take(n).drop_last() =~= loud.take(n - 1));
    if loud[n - 1] {
        n - 1
    } else {
        lemma_last_counted(loud, n - 1)
    }
}

proof fn lemma_quiet_tail(s: Seq<bool>, m: int)
    requires
        0 <= m <= s.len(),
    ensures
        quiet_tail(s) >= m <==> forall|k: int| s.len() - m <= k < s.len() ==> !#[trigger] s[k],
        quiet_tail(s) <= s.len(),
    decreases s.len(),
{
    if s.len() > 0 {
        let p = s.drop_last();
        if m > 0 {
            lemma_quiet_tail(p, m - 1);
            if !s.last() && quiet_tail(p) >= m - 1 {
                assert forall|k: int| s.len() - m <= k < s.len() implies !#[trigger] s[k] by {
                    if k < p.len() {
                        assert(!p[k]);
                    }
                }
            }
            if forall|k: int| s.len() - m <= k < s.len() ==> !#[trigger] s[k] {
                assert(!s[s.len() - 1]);
                assert forall|k: int| p.len() - (m - 1) <= k < p.len() implies !#[trigger] p[k] by {
                    assert(!s[k]);
                }
            }
        } else {
            lemma_quiet_tail(p, 0);
        }
    }
}

proof fn lemma_first_loud(s: Seq<bool>, f: int)
    requires
        0 <= f < s.len(),
        s[f],
    ensures
        first_loud(s) matches Some(i) && 0 <= i <= f && s[i],
    decreases s.len(),
{
    let p = s.drop_last();
    if f < p.len() {
        assert(p[f]);
        lemma_first_loud(p, f);
    } else {
        lemma_first_is_loud(p);
    }
}

proof fn lemma_first_is_loud(s: Seq<bool>)
    ensures
        first_loud(s) matches Some(i) ==> 0 <= i < s.len() && s[i],
    decreases s.len(),
{
    if s.len() > 0 {
        lemma_first_is_loud(s.drop_last());
    }
}

proof fn lemma_end_by(loud: Seq<bool>, from: int, i: int)
    requires
        0 <= from <= i < loud.len(),
        utterance_ends(loud.take(i + 1)),
    ensures
        end_frame_from(loud, from) matches Some(j) && from <= j <= i,
    decreases i - from,
{
    if from < i && !utterance_ends(loud.take(from + 1)) {
        lemma_end_by(loud, from + 1, i);
    }
}

proof fn lemma_end_is_end(loud: Seq<bool>, from: int)
    requires
        0 <= from,
    ensures
        end_frame_from(loud, from) matches Some(j) ==> from <= j < loud.len() && utterance_ends(
            loud.take(j + 1),
        ),
    decreases loud.len() - from,
{
    if from < loud.len() && !utterance_ends(loud.take(from + 1)) {
        lemma_end_is_end(loud, from + 1);
    }
}

/// An utterance of four loud frames has ended by the time that eighteen frames in
/// a row were quiet, or that it went on for two hundred and fifty frames.
pub proof fn law_utterances_end_in_time(
    loud: Seq<bool>,
    a: int,
    b: int,
    c: int,
    d: int,
    i: int,
)
    requires
        0 <= a < b < c < d <= i < loud.len(),
        loud[a] && loud[b] && loud[c] && loud[d],
        i - a >= 250 || (i - d >= 18 && forall|k: int| i - 18 < k <= i ==> !#[trigger] loud[k]),
    ensures
        end_frame_from(loud, 0) matches Some(j) && j <= i,
{
    let s = loud.take(i + 1);
    lemma_count_grows(loud, 0, a + 1);
    lemma_count_grows(loud, a + 1, b + 1);
    lemma_count_grows(loud, b + 1, c + 1);
    lemma_count_grows(loud, c + 1, d + 1);
    lemma_count_grows(loud, d + 1, i + 1);
    assert(s[a]);
    lemma_first_loud(s, a);
    if i - a < 250 {
        assert forall|k: int| s.len() - 18 <= k < s.len() implies !#[trigger] s[k] by {
            assert(!loud[k]);
        }
        lemma_quiet_tail(s, 18);
    }
    assert(utterance_ends(s));
    lemma_end_by(loud, 0, i);
}

/// No utterance ends early: where one ends, four frames were loud, and either the
/// last eighteen frames were quiet, or there was speech two hundred and fifty
/// frames before.
pub proof fn law_no_utterance_ends_early(loud: Seq<bool>, i: int)
    requires
        end_frame_from(loud, 0) == Some(i),
    ensures
        0 <= i < loud.len(),
        exists|a: int, b: int, c: int, d: int|
            #![trigger loud[a], loud[b], loud[c], loud[d]]
            0 <= a < b < c < d <= i && loud[a] && loud[b] && loud[c] && loud[d],
        (i >= 17 && forall|k: int| i - 18 < k <= i ==> !#[trigger] loud[k]) || exists|f: int|
            0 <= f <= i - 250 && #[trigger] loud[f],
{
    lemma_end_is_end(loud, 0);
    let s = loud.take(i + 1);
    let d = lemma_last_counted(loud, i + 1);
    let c = lemma_last_counted(loud, d);
    let b = lemma_last_counted(loud, c);
    let a = lemma_last_counted(loud, b);
    assert(loud[a] && loud[b] && loud[c] && loud[d]);
    lemma_first_is_loud(s);
    let f = first_loud(s)->0;
    assert(loud[f]);
    if !(i - f >= 250) {
        lemma_counts(s);
        lemma_quiet_tail(s, 18);
        assert forall|k: int| i - 18 < k <= i implies !#[trigger] loud[k] by {
            assert(!s[k]);
        }
    }
}

/// A frame lasts a fiftieth of a second, and at least one sample of each channel.
pub proof fn law_a_frame_lasts_a_fiftieth(rate: u32, channels: usize)
    ensures
        rate >= 50 ==> frame_size(rate, 1) * 50 <= rate < (frame_size(rate, 1) + 1) * 50,
        rate < 50 ==> frame_size(rate, 1) == 1,
        frame_size(rate, channels) == frame_size(rate, 1) * channels,
{
}

/// The device with the name comes first; all others keep their order behind it.
pub proof fn law_the_named_device_comes_first(list: Seq<Seq<char>>, name: Seq<char>, i: int)
    requires
        0 <= i < list.len(),
        list[i] == name,
        forall|j: int| 0 <= j < i ==> #[trigger] list[j] != name,
    ensures
        named_first(list, Some(name)) == seq![name] + list.take(i) + list.skip(i + 1),
        named_first(list, None) == list,
{
    crate::text::law_the_first_place_is_found(list, name);
    assert(list.contains(list[i]));
    let k = first_index(list, name)->0;
    if k < i {
        assert(list[k] != name);
    }
    if i < k {
        assert(list[i] != name);
    }
    assert(named_first(list, Some(name)) =~= seq![name] + list.take(i) + list.skip(i + 1));
}

/// Where no device has the name, the list stays as it is.
pub proof fn law_without_the_named_device_nothing_moves(list: Seq<Seq<char>>, name: Seq<char>)
    requires
        !list.contains(name),
    ensures
        named_first(list, Some(name)) == list,
{
    crate::text::law_the_first_place_is_found(list, name);
    if first_index(list, name) is Some {
        assert(list.contains(list[first_index(list, name)->0]));
    }
}

/// Utterances are looked for only while the hot mic is on. What is heard while
/// something is read is dropped where the user wants that, and nothing else is.
pub proof fn law_the_engine_is_not_listened_to(mic: Mic, playing: bool, mute: bool)
    ensures
        !mic.locked ==> poll_of(mic, playing, mute) is Nothing,
        mic.locked ==> poll_of(mic, true, true) is Discard,
        mic.locked ==> poll_of(mic, false, mute) is Take,
        mic.locked ==> poll_of(mic, playing, false) is Take,
{
}

} // verus!
