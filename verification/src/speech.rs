//! The speech engines: which one to use, with which voice, and how the Piper
//! engine makes and keeps its recordings.

use vstd::prelude::*;
use vstd::utf8::encode_utf8;

use crate::numbers::{hex, push_hex};
use crate::text::{
    begins, contains, find_from, lemma_first_from, own, push_text, replace,
    replace_all, same, starts_with, strip_prefix, to_chars,
};

verus! {

// ---------------------------------------------------------------------------
// Choosing
// ---------------------------------------------------------------------------

/// An installed voice: its name and its language, as far as they are known.
#[derive(Debug)]
pub struct Voice {
    pub name: Option<String>,
    pub language: Option<String>,
}

/// The voice speaks English.
pub open spec fn is_english(v: Voice) -> bool {
    v.language matches Some(l) && starts_with(l@, "en"@)
}

/// The name of the voice has the text in it.
pub open spec fn name_has(v: Voice, s: Seq<char>) -> bool {
    v.name matches Some(n) && contains(n@, s)
}

/// One of the voices speaks English.
pub open spec fn some_english(voices: Seq<Voice>) -> bool {
    exists|i: int| 0 <= i < voices.len() && is_english(#[trigger] voices[i])
}

/// The voice is one to choose from: an English one where there are any.
pub open spec fn eligible(voices: Seq<Voice>, i: int) -> bool {
    some_english(voices) ==> is_english(voices[i])
}

/// The first voice to choose from whose name has the text in it.
pub open spec fn first_named(voices: Seq<Voice>, s: Seq<char>, n: int) -> Option<int>
    decreases n,
{
    if n <= 0 {
        None
    } else {
        match first_named(voices, s, n - 1) {
            Some(i) => Some(i),
            None => if eligible(voices, n - 1) && name_has(voices[n - 1], s) {
                Some(n - 1)
            } else {
                None
            },
        }
    }
}

/// The first voice to choose from whose name does not have the text in it.
pub open spec fn first_not_named(voices: Seq<Voice>, s: Seq<char>, n: int) -> Option<int>
    decreases n,
{
    if n <= 0 {
        None
    } else {
        match first_not_named(voices, s, n - 1) {
            Some(i) => Some(i),
            None => if eligible(voices, n - 1) && !name_has(voices[n - 1], s) {
                Some(n - 1)
            } else {
                None
            },
        }
    }
}

/// The first voice to choose from.
pub open spec fn first_eligible(voices: Seq<Voice>, n: int) -> Option<int>
    decreases n,
{
    if n <= 0 {
        None
    } else {
        match first_eligible(voices, n - 1) {
            Some(i) => Some(i),
            None => if eligible(voices, n - 1) {
                Some(n - 1)
            } else {
                None
            },
        }
    }
}

/// What the names of good voices have in them, the best first.
pub open spec fn good_names() -> Seq<Seq<char>> {
    seq!["Natural"@, "Aria"@, "Jenny"@, "Guy"@, "Davis"@, "Sonia"@, "Libby"@]
}

/// The first voice with the best of the names from `k` on.
pub open spec fn best_named(voices: Seq<Voice>, k: int) -> Option<int>
    decreases good_names().len() - k,
{
    if k < 0 || k >= good_names().len() {
        None
    } else {
        match first_named(voices, good_names()[k], voices.len() as int) {
            Some(i) => Some(i),
            None => best_named(voices, k + 1),
        }
    }
}

/// The voice to use: a good one, else any but David, else any; English where
/// there is an English one.
pub open spec fn best_voice(voices: Seq<Voice>) -> Option<int> {
    let n = voices.len() as int;
    match best_named(voices, 0) {
        Some(i) => Some(i),
        None => match first_not_named(voices, "David"@, n) {
            Some(i) => Some(i),
            None => first_eligible(voices, n),
        },
    }
}

fn has_text(name: &Option<String>, s: &str) -> (r: bool)
    ensures
        r == (name matches Some(n) && contains(n@, s@)),
{
    match name {
        Some(n) => {
            let h = to_chars(n.as_str());
            let v = to_chars(s);
            proof {
                lemma_first_from(h@, v@, 0);
            }
            find_from(&h, &v, 0).is_some()
        },
        None => false,
    }
}

fn english(v: &Voice) -> (r: bool)
    ensures
        r == is_english(*v),
{
    match &v.language {
        Some(l) => begins(l.as_str(), "en"),
        None => false,
    }
}

fn any_english(voices: &Vec<Voice>) -> (r: bool)
    ensures
        r == some_english(voices@),
{
    let mut i: usize = 0;
    while i < voices.len()
        invariant
            i <= voices.len(),
            forall|k: int| 0 <= k < i ==> !is_english(#[trigger] voices@[k]),
        decreases voices.len() - i,
    {
        if english(&voices[i]) {
            assert(is_english(voices@[i as int]));
            return true;
        }
        i += 1;
    }
    false
}

proof fn lemma_first_named_prefix(voices: Seq<Voice>, s: Seq<char>, n: int, m: int)
    requires
        0 <= n <= m,
        first_named(voices, s, n) is Some,
    ensures
        first_named(voices, s, m) == first_named(voices, s, n),
    decreases m - n,
{
    if n < m {
        lemma_first_named_prefix(voices, s, n, m - 1);
    }
}

proof fn lemma_first_not_named_prefix(voices: Seq<Voice>, s: Seq<char>, n: int, m: int)
    requires
        0 <= n <= m,
        first_not_named(voices, s, n) is Some,
    ensures
        first_not_named(voices, s, m) == first_not_named(voices, s, n),
    decreases m - n,
{
    if n < m {
        lemma_first_not_named_prefix(voices, s, n, m - 1);
    }
}

proof fn lemma_first_eligible_prefix(voices: Seq<Voice>, n: int, m: int)
    requires
        0 <= n <= m,
        first_eligible(voices, n) is Some,
    ensures
        first_eligible(voices, m) == first_eligible(voices, n),
    decreases m - n,
{
    if n < m {
        lemma_first_eligible_prefix(voices, n, m - 1);
    }
}

fn find_named(voices: &Vec<Voice>, any: bool, s: &str) -> (r: Option<usize>)
    requires
        any == some_english(voices@),
    ensures
        match r {
            Some(i) => first_named(voices@, s@, voices@.len() as int) == Some(i as int),
            None => first_named(voices@, s@, voices@.len() as int) is None,
        },
{
    let mut i: usize = 0;
    while i < voices.len()
        invariant
            i <= voices.len(),
            any == some_english(voices@),
            first_named(voices@, s@, i as int) is None,
        decreases voices.len() - i,
    {
        if (!any || english(&voices[i])) && has_text(&voices[i].name, s) {
            proof {
                lemma_first_named_prefix(voices@, s@, i + 1, voices@.len() as int);
            }
            return Some(i);
        }
        i += 1;
    }
    None
}

fn find_not_named(voices: &Vec<Voice>, any: bool, s: &str) -> (r: Option<usize>)
    requires
        any == some_english(voices@),
    ensures
        match r {
            Some(i) => first_not_named(voices@, s@, voices@.len() as int) == Some(i as int),
            None => first_not_named(voices@, s@, voices@.len() as int) is None,
        },
{
    let mut i: usize = 0;
    while i < voices.len()
        invariant
            i <= voices.len(),
            any == some_english(voices@),
            first_not_named(voices@, s@, i as int) is None,
        decreases voices.len() - i,
    {
        if (!any || english(&voices[i])) && !has_text(&voices[i].name, s) {
            proof {
                lemma_first_not_named_prefix(voices@, s@, i + 1, voices@.len() as int);
            }
            return Some(i);
        }
        i += 1;
    }
    None
}

fn find_eligible(voices: &Vec<Voice>, any: bool) -> (r: Option<usize>)
    requires
        any == some_english(voices@),
    ensures
        match r {
            Some(i) => first_eligible(voices@, voices@.len() as int) == Some(i as int),
            None => first_eligible(voices@, voices@.len() as int) is None,
        },
{
    let mut i: usize = 0;
    while i < voices.len()
        invariant
            i <= voices.len(),
            any == some_english(voices@),
            first_eligible(voices@, i as int) is None,
        decreases voices.len() - i,
    {
        if !any || english(&voices[i]) {
            proof {
                lemma_first_eligible_prefix(voices@, i + 1, voices@.len() as int);
            }
            return Some(i);
        }
        i += 1;
    }
    None
}

/// The voice to use. `None` where there are no voices.
pub fn pick_best_voice(voices: &Vec<Voice>) -> (r: Option<usize>)
    ensures
        match r {
            Some(i) => best_voice(voices@) == Some(i as int),
            None => best_voice(voices@) is None,
        },
{
    let any = any_english(voices);
    let names: &'static [&'static str] = &[
        "Natural",
        "Aria",
        "Jenny",
        "Guy",
        "Davis",
        "Sonia",
        "Libby",
    ];
    assert(crate::phrases::str_texts(names@) =~= good_names());
    let mut k: usize = 0;
    while k < names.len()
        invariant
            k <= names.len(),
            any == some_english(voices@),
            crate::phrases::str_texts(names@) == good_names(),
            best_named(voices@, 0) == best_named(voices@, k as int),
        decreases names.len() - k,
    {
        assert(good_names().len() == names.len());
        assert(good_names()[k as int] == crate::phrases::str_texts(names@)[k as int]);
        if let Some(i) = find_named(voices, any, names[k]) {
            return Some(i);
        }
        k += 1;
    }
    assert(good_names().len() == names.len());
    if let Some(i) = find_not_named(voices, any, "David") {
        return Some(i);
    }
    find_eligible(voices, any)
}

/// There is a voice to use exactly where there are voices.
pub proof fn law_some_voice_is_used(voices: Seq<Voice>)
    ensures
        best_voice(voices) is Some == (voices.len() > 0),
        best_voice(voices) matches Some(i) ==> 0 <= i < voices.len() && eligible(voices, i),
{
    let n = voices.len() as int;
    lemma_voice_searches(voices, n);
    lemma_best_named(voices, 0);
    if voices.len() > 0 {
        if some_english(voices) {
            let i = choose|i: int| 0 <= i < voices.len() && is_english(#[trigger] voices[i]);
            lemma_first_eligible_prefix_any(voices, i, n);
        } else {
            lemma_first_eligible_prefix_any(voices, 0, n);
        }
    }
}

proof fn lemma_first_eligible_prefix_any(voices: Seq<Voice>, i: int, n: int)
    requires
        0 <= i < n <= voices.len(),
        eligible(voices, i),
    ensures
        first_eligible(voices, n) is Some,
    decreases n,
{
    if i < n - 1 {
        lemma_first_eligible_prefix_any(voices, i, n - 1);
    }
}

proof fn lemma_voice_searches(voices: Seq<Voice>, n: int)
    requires
        n <= voices.len(),
    ensures
        first_eligible(voices, n) matches Some(i) ==> 0 <= i < n && eligible(voices, i),
        first_not_named(voices, "David"@, n) matches Some(i) ==> 0 <= i < n && eligible(
            voices,
            i,
        ),
    decreases n,
{
    if n > 0 {
        lemma_voice_searches(voices, n - 1);
    }
}

proof fn lemma_first_named(voices: Seq<Voice>, s: Seq<char>, n: int)
    requires
        n <= voices.len(),
    ensures
        first_named(voices, s, n) matches Some(i) ==> 0 <= i < n && eligible(voices, i),
    decreases n,
{
    if n > 0 {
        lemma_first_named(voices, s, n - 1);
    }
}

proof fn lemma_best_named(voices: Seq<Voice>, k: int)
    ensures
        best_named(voices, k) matches Some(i) ==> 0 <= i < voices.len() && eligible(voices, i),
    decreases good_names().len() - k,
{
    if 0 <= k < good_names().len() {
        lemma_first_named(voices, good_names()[k], voices.len() as int);
        lemma_best_named(voices, k + 1);
    }
}

/// Which engine to set up.
#[derive(Debug)]
pub enum EnginePlan {
    /// Piper, with the voice at the path.
    Piper(String),
    /// The engine of the system, with a warning where another was asked for.
    System(Option<String>),
}

/// Which engine to set up by the settings.
pub fn plan_engine(engine: &str, voice: Option<&str>) -> (r: EnginePlan)
    ensures
        match r {
            EnginePlan::Piper(v) => engine@ == "piper"@ && voice is Some && v@ == (voice->0)@,
            EnginePlan::System(w) => match w {
                Some(m) => engine@ == "piper"@ && voice is None && m@
                    == "Piper selected but no voice configured — using WinRT"@,
                None => engine@ != "piper"@,
            },
        },
{
    if same(engine, "piper") {
        match voice {
            Some(v) => EnginePlan::Piper(own(v)),
            None => EnginePlan::System(
                Some(own("Piper selected but no voice configured — using WinRT")),
            ),
        }
    } else {
        EnginePlan::System(None)
    }
}

/// The warning where Piper could not be set up.
pub fn fallback_warning(error: &str) -> (r: String)
    ensures
        r@ == "Piper init failed — using WinRT ("@ + error@ + ")"@,
{
    let mut w = own("Piper init failed — using WinRT (");
    push_text(&mut w, error);
    push_text(&mut w, ")");
    w
}

/// What is said to try out an engine.
pub open spec fn trial_phrase(engine: Option<Seq<char>>) -> Seq<char> {
    match engine {
        Some(n) => if n == "piper"@ {
            "Piper voice ready."@
        } else if n == "winrt"@ {
            "Windows speech engine ready."@
        } else {
            "Speech engine ready."@
        },
        None => "No speech engine loaded."@,
    }
}

/// What is said to try out an engine, by its name.
pub fn test_phrase(engine: Option<&str>) -> (r: &'static str)
    ensures
        r@ == trial_phrase(crate::text::opt_text(engine)),
{
    match engine {
        Some(n) => if same(n, "piper") {
            "Piper voice ready."
        } else if same(n, "winrt") {
            "Windows speech engine ready."
        } else {
            "Speech engine ready."
        },
        None => "No speech engine loaded.",
    }
}

/// An engine that says nothing, for systems that have none.
#[derive(Debug, Clone, Copy, PartialEq, Eq, Structural)]
pub struct NoopTts;

impl NoopTts {
    pub fn new() -> (r: NoopTts)
        ensures
            r == NoopTts,
    {
        NoopTts
    }

    pub fn name(&self) -> (r: &'static str)
        ensures
            r@ == "noop"@,
    {
        "noop"
    }
}

// ---------------------------------------------------------------------------
// Piper
// ---------------------------------------------------------------------------

/// The FNV-1a hash of bytes, in 64 bits.
pub open spec fn fnv(bytes: Seq<u8>) -> u64
    decreases bytes.len(),
{
    if bytes.len() == 0 {
        0xcbf2_9ce4_8422_2325
    } else {
        (fnv(bytes.drop_last()) ^ (bytes.last() as u64)).wrapping_mul(0x100_0000_01b3)
    }
}

/// The FNV-1a hash of a text in UTF-8.
pub fn fnv1a64(s: &str) -> (h: u64)
    ensures
        h == fnv(encode_utf8(s@)),
{
    let bytes = s.as_bytes();
    let mut h: u64 = 0xcbf2_9ce4_8422_2325;
    let mut i: usize = 0;
    assert(bytes@.take(0) =~= Seq::empty());
    while i < bytes.len()
        invariant
            i <= bytes.len(),
            h == fnv(bytes@.take(i as int)),
        decreases bytes.len() - i,
    {
        assert(bytes@.take(i + 1).drop_last() =~= bytes@.take(i as int));
        h = (h ^ (bytes[i] as u64)).wrapping_mul(0x100_0000_01b3);
        i += 1;
    }
    assert(bytes@.take(i as int) =~= bytes@);
    h
}

/// The key of a recording: how slowly it is spoken, and what is said.
pub open spec fn recording_key(scale: Seq<char>, text: Seq<char>) -> Seq<char> {
    "ls="@ + scale + "|"@ + text
}

/// The name of the file in which a recording is kept. `scale` is how slowly it
/// is spoken, as it is written for the engine.
pub fn cache_file_name(scale: &str, text: &str) -> (r: String)
    ensures
        r@ == hex(fnv(encode_utf8(recording_key(scale@, text@))) as nat, 16, false) + ".wav"@,
{
    let mut key = own("ls=");
    push_text(&mut key, scale);
    push_text(&mut key, "|");
    push_text(&mut key, text);
    let mut out = String::new();
    push_hex(&mut out, fnv1a64(key.as_str()), 16, false);
    push_text(&mut out, ".wav");
    assert(out@ =~= hex(fnv(encode_utf8(key@)) as nat, 16, false) + ".wav"@);
    out
}

/// What is missing of a Piper installation, where something is. The three files
/// are looked for in turn: the program, the voice, and the voice's description.
pub fn check_install(
    program: (&str, bool),
    voice: (&str, bool),
    description: (&str, bool),
) -> (r: Result<(), String>)
    ensures
        r is Ok == (program.1 && voice.1 && description.1),
        r matches Err(e) ==> e@ == (if !program.1 {
            "piper.exe not found at "@ + program.0@
        } else if !voice.1 {
            "voice model not found at "@ + voice.0@
        } else {
            "voice config not found at "@ + description.0@
                + " — pair the .onnx with its .onnx.json"@
        }),
{
    if !program.1 {
        let mut e = own("piper.exe not found at ");
        push_text(&mut e, program.0);
        return Err(e);
    }
    if !voice.1 {
        let mut e = own("voice model not found at ");
        push_text(&mut e, voice.0);
        return Err(e);
    }
    if !description.1 {
        let mut e = own("voice config not found at ");
        push_text(&mut e, description.0);
        push_text(&mut e, " — pair the .onnx with its .onnx.json");
        return Err(e);
    }
    Ok(())
}

/// Whether a file is a voice that can be used: a model with its description
/// beside it.
pub fn is_usable_voice(extension: Option<&str>, has_description: bool) -> (r: bool)
    ensures
        r == (extension matches Some(e) && e@ == "onnx"@ && has_description),
{
    match extension {
        Some(e) => same(e, "onnx") && has_description,
        None => false,
    }
}

/// The address of a local file.
pub open spec fn address_of(path: Seq<char>) -> Seq<char> {
    "file:///"@ + replace(
        if starts_with(path, "\\\\?\\"@) {
            path.skip("\\\\?\\"@.len() as int)
        } else {
            path
        },
        "\\"@,
        "/"@,
    )
}

/// The address of a local file, for the player: without the prefix of long
/// paths, and with slashes.
pub fn file_uri(path: &str) -> (r: String)
    ensures
        r@ == address_of(path@),
        r@ == "file:///"@ + replace(
            if starts_with(path@, "\\\\?\\"@) {
                path@.skip("\\\\?\\"@.len() as int)
            } else {
                path@
            },
            "\\"@,
            "/"@,
        ),
{
    let plain = match strip_prefix(path, "\\\\?\\") {
        Some(rest) => rest,
        None => own(path),
    };
    proof {
        reveal_strlit("\\");
    }
    let slashed = replace_all(plain.as_str(), "\\", "/");
    let mut out = own("file:///");
    push_text(&mut out, slashed.as_str());
    out
}

/// What the Piper engine is doing.
#[derive(Debug)]
pub struct PiperWorker {
    /// A recording is being made.
    pub active: bool,
    /// The file that it is written to.
    pub pending: Option<String>,
}

/// What the Piper engine is doing, and the file that it writes.
pub struct Worker {
    pub active: bool,
    pub pending: Option<Seq<char>>,
}

impl View for PiperWorker {
    type V = Worker;

    open spec fn view(&self) -> Worker {
        Worker { active: self.active, pending: crate::text::opt_string(self.pending) }
    }
}

/// A file is written only while a recording is being made.
pub open spec fn worker_ok(w: Worker) -> bool {
    w.pending is Some ==> w.active
}

/// Nothing is being made.
pub open spec fn idle() -> Worker {
    Worker { active: false, pending: None }
}

/// A recording that is there is played, unless it is the one that is being
/// written.
pub open spec fn plays(w: Worker, file: Seq<char>, exists_now: bool) -> bool {
    exists_now && w.pending != Some(file)
}

/// The engine after the making of a recording began, or could not.
pub open spec fn started_at(w: Worker, file: Seq<char>, started: bool) -> Worker {
    if started {
        Worker { active: true, pending: Some(file) }
    } else {
        w
    }
}

/// What to do when something is to be said.
#[derive(Debug)]
pub struct SpeakStep {
    /// End the making of the recording that is being made.
    pub kill: bool,
    /// Remove this file, which is incomplete.
    pub remove: Option<String>,
    /// Play the recording that there is; else make one.
    pub play: bool,
}

/// How the making of a recording goes.
#[derive(Debug, Clone, Copy, PartialEq, Eq, Structural)]
pub enum ChildStatus {
    Running,
    Done,
    Failed,
    /// It cannot be told.
    Unknown,
}

/// What to do after looking after a recording.
#[derive(Debug)]
pub enum CheckStep {
    Nothing,
    Play(String),
    Remove(String),
}

/// What to do after looking after a recording.
pub enum CheckView {
    Nothing,
    Play(Seq<char>),
    Remove(Seq<char>),
}

impl View for CheckStep {
    type V = CheckView;

    open spec fn view(&self) -> CheckView {
        match *self {
            CheckStep::Nothing => CheckView::Nothing,
            CheckStep::Play(f) => CheckView::Play(f@),
            CheckStep::Remove(f) => CheckView::Remove(f@),
        }
    }
}

/// A recording is played when it is done, and removed when it failed. Where
/// nothing can be told of it, it is forgotten.
pub open spec fn check_step(w: Worker, status: ChildStatus) -> CheckView {
    if !w.active || status is Running || status is Unknown {
        CheckView::Nothing
    } else {
        match w.pending {
            Some(f) => if status is Done {
                CheckView::Play(f)
            } else {
                CheckView::Remove(f)
            },
            None => CheckView::Nothing,
        }
    }
}

/// The engine after a recording was looked after.
pub open spec fn checked(w: Worker, status: ChildStatus) -> Worker {
    if !w.active || status is Running {
        w
    } else {
        idle()
    }
}

impl PiperWorker {
    pub fn new() -> (r: PiperWorker)
        ensures
            r@ == idle(),
            worker_ok(r@),
    {
        PiperWorker { active: false, pending: None }
    }

    /// How long to wait for a message, in milliseconds: not long while a
    /// recording is being made, which is then looked after.
    pub fn wait_millis(&self) -> (r: u64)
        ensures
            r == (if self.active {
                30u64
            } else {
                500
            }),
    {
        if self.active {
            30
        } else {
            500
        }
    }

    /// Something is to be said, whose recording is in `file` where that exists.
    /// Whatever is being made or played ends, and what is incomplete is to be
    /// removed.
    pub fn on_speak(&mut self, file: &str, exists_now: bool) -> (r: SpeakStep)
        ensures
            r.kill == old(self)@.active,
            crate::text::opt_string(r.remove) == old(self)@.pending,
            r.play == plays(old(self)@, file@, exists_now),
            final(self)@ == idle(),
    {
        let unfinished = match &self.pending {
            Some(p) => same(p.as_str(), file),
            None => false,
        };
        let kill = self.active;
        self.active = false;
        let remove = self.pending.take();
        SpeakStep { kill, remove, play: exists_now && !unfinished }
    }

    /// The making of a recording began, or could not.
    pub fn on_started(&mut self, file: &str, started: bool)
        requires
            worker_ok(old(self)@),
        ensures
            final(self)@ == started_at(old(self)@, file@, started),
            worker_ok(final(self)@),
    {
        if started {
            self.active = true;
            self.pending = Some(own(file));
        }
    }

    /// Speech is to stop. Says whether a recording was being made, which ends,
    /// and which file to remove, since it is incomplete.
    pub fn on_stop(&mut self) -> (r: (bool, Option<String>))
        ensures
            r.0 == old(self)@.active,
            crate::text::opt_string(r.1) == old(self)@.pending,
            final(self)@ == idle(),
    {
        let kill = self.active;
        self.active = false;
        let file = self.pending.take();
        (kill, file)
    }

    /// Looks after a recording that is being made: it is played when it is done,
    /// removed when it failed, and forgotten where nothing can be told of it.
    pub fn on_check(&mut self, status: ChildStatus) -> (r: CheckStep)
        ensures
            r@ == check_step(old(self)@, status),
            final(self)@ == checked(old(self)@, status),
    {
        if !self.active {
            return CheckStep::Nothing;
        }
        if let ChildStatus::Running = status {
            return CheckStep::Nothing;
        }
        self.active = false;
        match self.pending.take() {
            Some(f) => match status {
                ChildStatus::Done => CheckStep::Play(f),
                ChildStatus::Failed => CheckStep::Remove(f),
                _ => CheckStep::Nothing,
            },
            None => CheckStep::Nothing,
        }
    }
}

// ---------------------------------------------------------------------------
// Unfinished recordings
// ---------------------------------------------------------------------------

/// What happens to the engine.
pub enum PiperEvent {
    /// Something is to be said, with its recording in the file. Where there is
    /// none to play, the making of one begins, or cannot.
    Speak(Seq<char>, bool),
    Stop,
    /// The recording that is being made is looked after.
    Check(ChildStatus),
}

/// The files with recordings, those that are complete and those that are not,
/// and the engine.
pub struct Cache {
    pub complete: Set<Seq<char>>,
    pub partial: Set<Seq<char>>,
    pub worker: Worker,
}

/// The files without the one, where there is one.
pub open spec fn without(files: Set<Seq<char>>, file: Option<Seq<char>>) -> Set<Seq<char>> {
    match file {
        Some(f) => files.remove(f),
        None => files,
    }
}

/// The recording that an event has played.
pub open spec fn played(c: Cache, event: PiperEvent) -> Option<Seq<char>> {
    match event {
        PiperEvent::Speak(file, _) => if plays(
            c.worker,
            file,
            c.complete.contains(file) || c.partial.contains(file),
        ) {
            Some(file)
        } else {
            None
        },
        PiperEvent::Stop => None,
        PiperEvent::Check(status) => match check_step(c.worker, status) {
            CheckView::Play(f) => Some(f),
            _ => None,
        },
    }
}

/// The files and the engine after an event, where what is to be removed is
/// removed. A file is partial from when its making begins, and complete when its
/// making is done.
pub open spec fn cache_after(c: Cache, event: PiperEvent) -> Cache {
    match event {
        PiperEvent::Speak(file, started) => {
            let left = without(c.partial, c.worker.pending);
            if played(c, event) is Some {
                Cache { partial: left, worker: idle(), ..c }
            } else {
                Cache {
                    partial: if started {
                        left.insert(file)
                    } else {
                        left
                    },
                    worker: started_at(idle(), file, started),
                    ..c
                }
            }
        },
        PiperEvent::Stop => Cache {
            partial: without(c.partial, c.worker.pending),
            worker: idle(),
            ..c
        },
        PiperEvent::Check(status) => {
            let worker = checked(c.worker, status);
            match check_step(c.worker, status) {
                CheckView::Nothing => Cache { worker, ..c },
                CheckView::Play(f) => Cache {
                    complete: c.complete.insert(f),
                    partial: c.partial.remove(f),
                    worker,
                },
                CheckView::Remove(f) => Cache { partial: c.partial.remove(f), worker, ..c },
            }
        },
    }
}

/// The only file that is partial is the one that is being written.
pub open spec fn cache_ok(c: Cache) -> bool {
    &&& worker_ok(c.worker)
    &&& forall|f: Seq<char>| #[trigger] c.partial.contains(f) ==> c.worker.pending == Some(f)
}

/// The event is not that nothing can be told of a recording.
pub open spec fn can_be_told(event: PiperEvent) -> bool {
    event != PiperEvent::Check(ChildStatus::Unknown)
}

/// The files and the engine after several events.
pub open spec fn cache_after_all(c: Cache, events: Seq<PiperEvent>) -> Cache
    decreases events.len(),
{
    if events.len() == 0 {
        c
    } else {
        cache_after(cache_after_all(c, events.drop_last()), events.last())
    }
}

/// Only complete recordings are played: whatever happened before, no half-written
/// file is left behind by a recording that was cut short, and what an event has
/// played is complete when it is played. This holds as long as it could always
/// be told how the making of a recording goes.
pub proof fn law_only_complete_recordings_are_played(
    c: Cache,
    events: Seq<PiperEvent>,
    event: PiperEvent,
)
    requires
        cache_ok(c),
        forall|i: int| 0 <= i < events.len() ==> can_be_told(#[trigger] events[i]),
    ensures
        cache_ok(cache_after_all(c, events)),
        played(cache_after_all(c, events), event) matches Some(f) ==> {
            let after = cache_after(cache_after_all(c, events), event);
            after.complete.contains(f) && !after.partial.contains(f)
        },
    decreases events.len(),
{
    if events.len() > 0 {
        let before = events.drop_last();
        assert forall|i: int| 0 <= i < before.len() implies can_be_told(#[trigger] before[i]) by {
            assert(before[i] == events[i]);
        }
        assert(can_be_told(events[events.len() - 1]));
        law_only_complete_recordings_are_played(c, before, events.last());
        lemma_cache_stays_ok(cache_after_all(c, before), events.last());
    }
    if can_be_told(event) {
        lemma_cache_stays_ok(cache_after_all(c, events), event);
    }
}

proof fn lemma_cache_stays_ok(c: Cache, event: PiperEvent)
    requires
        cache_ok(c),
        can_be_told(event),
    ensures
        cache_ok(cache_after(c, event)),
{
}

/// A recording that is cut short is made afresh when it is asked for again: the
/// half-written file is not played.
pub proof fn law_cut_short_is_made_afresh(c: Cache, a: Seq<char>, b: Seq<char>)
    requires
        cache_ok(c),
        a != b,
        !c.complete.contains(a),
        c.worker.pending != Some(a),
    ensures
        ({
            let first = cache_after(c, PiperEvent::Speak(a, true));
            let second = cache_after(first, PiperEvent::Speak(b, true));
            &&& first.worker.pending == Some(a)
            &&& !second.partial.contains(a) && !second.complete.contains(a)
            &&& played(second, PiperEvent::Speak(a, true)) is None
        }),
{
}

// ---------------------------------------------------------------------------
// Voices
// ---------------------------------------------------------------------------

proof fn lemma_first_named_is(voices: Seq<Voice>, s: Seq<char>, n: int)
    requires
        n <= voices.len(),
    ensures
        match first_named(voices, s, n) {
            Some(i) => 0 <= i < n && eligible(voices, i) && name_has(voices[i], s) && forall|j: int|
                0 <= j < i ==> !(eligible(voices, j) && name_has(#[trigger] voices[j], s)),
            None => forall|j: int|
                0 <= j < n ==> !(eligible(voices, j) && name_has(#[trigger] voices[j], s)),
        },
    decreases n,
{
    if n > 0 {
        lemma_first_named_is(voices, s, n - 1);
    }
}

proof fn lemma_first_other_is(voices: Seq<Voice>, s: Seq<char>, n: int)
    requires
        n <= voices.len(),
    ensures
        match first_not_named(voices, s, n) {
            Some(i) => 0 <= i < n && eligible(voices, i) && !name_has(voices[i], s)
                && forall|j: int|
                0 <= j < i ==> !(eligible(voices, j) && !name_has(#[trigger] voices[j], s)),
            None => forall|j: int|
                0 <= j < n ==> !(eligible(voices, j) && !name_has(#[trigger] voices[j], s)),
        },
    decreases n,
{
    if n > 0 {
        lemma_first_other_is(voices, s, n - 1);
    }
}

proof fn lemma_first_eligible_is(voices: Seq<Voice>, n: int)
    requires
        n <= voices.len(),
    ensures
        match first_eligible(voices, n) {
            Some(i) => 0 <= i < n && eligible(voices, i) && forall|j: int|
                0 <= j < i ==> !#[trigger] eligible(voices, j),
            None => forall|j: int| 0 <= j < n ==> !#[trigger] eligible(voices, j),
        },
    decreases n,
{
    if n > 0 {
        lemma_first_eligible_is(voices, n - 1);
    }
}

proof fn lemma_best_name_from(voices: Seq<Voice>, k: int, m: int)
    requires
        0 <= k <= m < good_names().len(),
        first_named(voices, good_names()[m], voices.len() as int) is Some,
        forall|j: int|
            k <= j < m ==> first_named(
                voices,
                #[trigger] good_names()[j],
                voices.len() as int,
            ) is None,
    ensures
        best_named(voices, k) == first_named(voices, good_names()[m], voices.len() as int),
    decreases m - k,
{
    if k < m {
        assert(first_named(voices, good_names()[k], voices.len() as int) is None);
        lemma_best_name_from(voices, k + 1, m);
    }
}

proof fn lemma_none_named(voices: Seq<Voice>, k: int)
    requires
        0 <= k <= good_names().len(),
        forall|j: int|
            k <= j < good_names().len() ==> first_named(
                voices,
                #[trigger] good_names()[j],
                voices.len() as int,
            ) is None,
    ensures
        best_named(voices, k) is None,
    decreases good_names().len() - k,
{
    if k < good_names().len() {
        assert(first_named(voices, good_names()[k], voices.len() as int) is None);
        lemma_none_named(voices, k + 1);
    }
}

/// The names of good voices, the best first.
pub open spec fn preferred() -> Seq<Seq<char>> {
    seq!["Natural"@, "Aria"@, "Jenny"@, "Guy"@, "Davis"@, "Sonia"@, "Libby"@]
}

/// The voice can be chosen: it speaks English, or none does.
pub open spec fn can_be_chosen(voices: Seq<Voice>, i: int) -> bool {
    &&& 0 <= i < voices.len()
    &&& (voices[i].language matches Some(l) && starts_with(l@, "en"@)) || forall|j: int|
        0 <= j < voices.len() ==> !((#[trigger] voices[j]).language matches Some(l) && starts_with(
            l@,
            "en"@,
        ))
}

proof fn lemma_can_be_chosen(voices: Seq<Voice>, i: int)
    requires
        0 <= i < voices.len(),
    ensures
        can_be_chosen(voices, i) == eligible(voices, i),
{
    if some_english(voices) {
        let j = choose|j: int| 0 <= j < voices.len() && is_english(#[trigger] voices[j]);
        assert(is_english(voices[j]));
    } else {
        assert forall|j: int| 0 <= j < voices.len() implies !((#[trigger] voices[j]).language
            matches Some(l) && starts_with(l@, "en"@)) by {
            assert(!is_english(voices[j]));
        }
    }
}

/// The best voice is the first that has the best of the preferred names that any
/// voice has, among those that can be chosen.
pub proof fn law_the_best_name_wins(voices: Seq<Voice>, m: int, i: int)
    requires
        0 <= m < 7,
        can_be_chosen(voices, i),
        name_has(voices[i], preferred()[m]),
        forall|k: int, j: int|
            0 <= k < m && #[trigger] can_be_chosen(voices, j) ==> !name_has(
                voices[j],
                #[trigger] preferred()[k],
            ),
        forall|j: int|
            j < i && #[trigger] can_be_chosen(voices, j) ==> !name_has(voices[j], preferred()[m]),
    ensures
        best_voice(voices) == Some(i),
{
    let n = voices.len() as int;
    assert(good_names() =~= preferred());
    lemma_first_named_is(voices, preferred()[m], n);
    lemma_can_be_chosen(voices, i);
    let f = first_named(voices, preferred()[m], n)->0;
    lemma_can_be_chosen(voices, f);
    assert forall|k: int| 0 <= k < m implies first_named(
        voices,
        #[trigger] good_names()[k],
        n,
    ) is None by {
        lemma_first_named_is(voices, preferred()[k], n);
        if let Some(j) = first_named(voices, preferred()[k], n) {
            lemma_can_be_chosen(voices, j);
        }
    }
    lemma_best_name_from(voices, 0, m);
}

/// Where no voice has a preferred name, the best is the first that is not David,
/// and where all are David, the first.
pub proof fn law_david_is_the_last_resort(voices: Seq<Voice>, i: int)
    requires
        can_be_chosen(voices, i),
        forall|k: int, j: int|
            0 <= k < 7 && #[trigger] can_be_chosen(voices, j) ==> !name_has(
                voices[j],
                #[trigger] preferred()[k],
            ),
        forall|j: int|
            j < i && #[trigger] can_be_chosen(voices, j) ==> name_has(voices[j], "David"@),
        !name_has(voices[i], "David"@) || forall|j: int| #[trigger]
            can_be_chosen(voices, j) ==> name_has(voices[j], "David"@) && i <= j,
    ensures
        best_voice(voices) == Some(i),
{
    let n = voices.len() as int;
    assert(good_names() =~= preferred());
    assert forall|k: int| 0 <= k < 7 implies first_named(
        voices,
        #[trigger] good_names()[k],
        n,
    ) is None by {
        lemma_first_named_is(voices, preferred()[k], n);
        if let Some(j) = first_named(voices, preferred()[k], n) {
            lemma_can_be_chosen(voices, j);
        }
    }
    lemma_none_named(voices, 0);
    lemma_first_other_is(voices, "David"@, n);
    lemma_first_eligible_is(voices, n);
    lemma_can_be_chosen(voices, i);
    if let Some(j) = first_not_named(voices, "David"@, n) {
        lemma_can_be_chosen(voices, j);
    }
    if let Some(j) = first_eligible(voices, n) {
        lemma_can_be_chosen(voices, j);
    }
}

/// A recording is known by how slowly it is spoken and by what is said.
pub proof fn law_recordings_are_told_apart(s: Seq<char>, t: Seq<char>, a: Seq<char>, b: Seq<char>)
    requires
        recording_key(s, a) == recording_key(t, b),
        s.len() == t.len(),
    ensures
        s == t,
        a == b,
{
    let x = recording_key(s, a);
    let n = s.len() as int;
    reveal_strlit("ls=");
    reveal_strlit("|");
    assert(x.subrange(3, 3 + n) =~= s);
    assert(x.subrange(3, 3 + n) =~= t);
    assert(x.skip(4 + n) =~= a);
    assert(x.skip(4 + n) =~= b);
}

/// A recording that is being made is played when it is done and removed when it
/// failed, and then nothing is being made; until then it is left alone.
pub proof fn law_recordings_are_looked_after(file: Seq<char>)
    ensures
        ({
            let busy = Worker { active: true, pending: Some(file) };
            &&& check_step(busy, ChildStatus::Done) == CheckView::Play(file)
            &&& check_step(busy, ChildStatus::Failed) == CheckView::Remove(file)
            &&& check_step(busy, ChildStatus::Running) is Nothing
            &&& checked(busy, ChildStatus::Running) == busy
            &&& !checked(busy, ChildStatus::Done).active
            &&& !checked(busy, ChildStatus::Failed).active
            &&& checked(busy, ChildStatus::Done).pending is None
            &&& checked(busy, ChildStatus::Failed).pending is None
        }),
{
}

/// A recording that is there is played at once, unless it is still being written;
/// else the making of one begins.
pub proof fn law_what_is_recorded_is_played(c: Cache, file: Seq<char>)
    requires
        cache_ok(c),
        c.worker.pending != Some(file),
    ensures
        c.complete.contains(file) ==> played(c, PiperEvent::Speak(file, true)) == Some(file),
        !c.complete.contains(file) ==> played(c, PiperEvent::Speak(file, true)) is None
            && cache_after(c, PiperEvent::Speak(file, true)).worker == (Worker {
            active: true,
            pending: Some(file),
        }),
        played(c, PiperEvent::Stop) is None,
        !cache_after(c, PiperEvent::Stop).worker.active,
{
}

/// Each engine is tried out with words of its own.
pub proof fn law_engines_are_tried_by_name(name: Seq<char>)
    ensures
        trial_phrase(Some("piper"@)) == "Piper voice ready."@,
        trial_phrase(Some("winrt"@)) == "Windows speech engine ready."@,
        name != "piper"@ && name != "winrt"@ ==> trial_phrase(Some(name))
            == "Speech engine ready."@,
        trial_phrase(None) == "No speech engine loaded."@,
{
    reveal_strlit("piper");
    reveal_strlit("winrt");
    assert("piper"@[0] == 'p' && "winrt"@[0] == 'w');
}

/// The address of a file is its path behind the mark of local files, with a slash
/// for each backslash. The prefix of long paths makes no difference.
pub proof fn law_files_are_addressed_with_slashes(a: Seq<char>, b: Seq<char>)
    requires
        a.len() > 0,
        forall|i: int| 0 <= i < a.len() ==> (#[trigger] a[i]) != '\\',
        forall|i: int| 0 <= i < b.len() ==> (#[trigger] b[i]) != '\\',
    ensures
        address_of(a) == "file:///"@ + a,
        address_of(a + "\\"@ + b) == "file:///"@ + (a + "/"@ + b),
        address_of("\\\\?\\"@ + a) == address_of(a),
{
    reveal_strlit("\\");
    reveal_strlit("\\\\?\\");
    let long = "\\\\?\\"@;
    let back = "\\"@;
    assert(long.len() == 4 && long[0] == '\\');
    assert(back.len() == 1 && back[0] == '\\');
    let s = a + back + b;
    assert(!starts_with(a, long)) by {
        if starts_with(a, long) {
            assert(a.subrange(0, 4)[0] == a[0]);
        }
    }
    assert(!starts_with(s, long)) by {
        if starts_with(s, long) {
            assert(s.subrange(0, 4)[0] == a[0]);
        }
    }
    assert((long + a).subrange(0, 4) =~= long);
    assert((long + a).skip(4) =~= a);
    assert forall|k: int| !crate::text::occurs_at(a, back, k) by {
        if crate::text::occurs_at(a, back, k) {
            assert(a.subrange(k, k + 1)[0] == a[k]);
        }
    }
    assert forall|k: int| !crate::text::occurs_at(b, back, k) by {
        if crate::text::occurs_at(b, back, k) {
            assert(b.subrange(k, k + 1)[0] == b[k]);
        }
    }
    crate::text::law_replacing_absent_text_changes_nothing(a, back, "/"@);
    crate::text::law_replacing_absent_text_changes_nothing(b, back, "/"@);
    let n = a.len() as int;
    assert(s.subrange(n, n + 1) =~= back);
    assert forall|k: int| 0 <= k < n implies !crate::text::occurs_at(s, back, k) by {
        if crate::text::occurs_at(s, back, k) {
            assert(s.subrange(k, k + 1)[0] == a[k]);
        }
    }
    crate::text::law_text_is_replaced_in_turn(s, back, "/"@, n);
    assert(s.take(n) =~= a);
    assert(s.skip(n + 1) =~= b);
}

} // verus!
