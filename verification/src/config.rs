//! What exists: the aircraft, the tabs and where their content is, and how
//! speech recognition is tuned.

use vstd::prelude::*;

use crate::text::{
    join, joined, opt_text, own, push_text, replace, replace_all, same, texts, trim, trimmed,
};
use crate::word_map::WordMap;

verus! {

/// Everything that the configuration file says.
#[derive(Debug, Clone)]
pub struct AppConfig {
    pub aircraft: Vec<AircraftEntry>,
    pub tabs: Vec<TabConfig>,
    pub stt: SttConfig,
}

#[derive(Debug, Clone)]
pub struct AircraftEntry {
    pub id: String,
    /// What to call the aircraft; empty where its id will do.
    pub label: String,
}

#[derive(Debug, Clone)]
pub struct TabConfig {
    pub id: String,
    pub label: String,
    pub icon: String,
    pub source: SourceConfig,
}

/// Where the content of a tab comes from.
#[derive(Debug, Clone)]
pub enum SourceConfig {
    /// Images with a description beside each. "{aircraft}" in the path stands
    /// for the current aircraft.
    Generator { path: String },
    /// Images alone.
    ImageFolder { path: String, recursive: bool },
    /// The kneeboard folder of the simulator for the current aircraft.
    DcsKneeboards { base: Option<String> },
}

/// Tuning of speech recognition.
#[derive(Debug, Clone)]
pub struct SttConfig {
    /// Terms to listen for, whatever the aircraft.
    pub vocabulary: Vec<String>,
    /// Further terms by aircraft id.
    pub per_aircraft: Vec<(String, Vec<String>)>,
    /// What to replace in a transcript before it is routed.
    pub corrections: WordMap,
    /// The similarity at which the fuzzy match accepts a phrase: the bit pattern
    /// of a number in double precision.
    pub fuzzy_threshold: u64,
}

/// The bit pattern of 0.85 in single precision, widened to double precision.
pub const DEFAULT_FUZZY_THRESHOLD: u64 = 0x3feb_3333_4000_0000;

impl Default for SttConfig {
    fn default() -> (r: SttConfig)
        ensures
            r.vocabulary@.len() == 0,
            r.per_aircraft@.len() == 0,
            r.corrections@.len() == 0,
            r.fuzzy_threshold == DEFAULT_FUZZY_THRESHOLD,
    {
        SttConfig {
            vocabulary: Vec::new(),
            per_aircraft: Vec::new(),
            corrections: WordMap::new(),
            fuzzy_threshold: DEFAULT_FUZZY_THRESHOLD,
        }
    }
}

// ---------------------------------------------------------------------------
// The initial prompt
// ---------------------------------------------------------------------------

/// The terms of the first entry for the aircraft.
pub open spec fn terms_for(
    lists: Seq<(String, Vec<String>)>,
    aircraft: Seq<char>,
) -> Seq<Seq<char>>
    decreases lists.len(),
{
    if lists.len() == 0 {
        Seq::empty()
    } else if lists[0].0@ == aircraft {
        texts(lists[0].1@)
    } else {
        terms_for(lists.skip(1), aircraft)
    }
}

/// The terms without NUL characters, those that are not blank.
pub open spec fn usable_terms(terms: Seq<Seq<char>>) -> Seq<Seq<char>>
    decreases terms.len(),
{
    if terms.len() == 0 {
        Seq::empty()
    } else {
        let before = usable_terms(terms.drop_last());
        let term = replace(terms.last(), "\0"@, ""@);
        if trim(term).len() > 0 {
            before.push(term)
        } else {
            before
        }
    }
}

/// The prompt that lists the terms, where there are any.
pub open spec fn prompt_of(terms: Seq<Seq<char>>) -> Option<Seq<char>> {
    let usable = usable_terms(terms);
    if usable.len() == 0 {
        None
    } else {
        Some("DCS checklist vocabulary: "@ + join(usable, ", "@) + "."@)
    }
}

fn push_usable(out: &mut Vec<String>, terms: &Vec<String>, Ghost(before): Ghost<Seq<Seq<char>>>)
    requires
        texts(old(out)@) == usable_terms(before),
    ensures
        texts(final(out)@) == usable_terms(before + texts(terms@)),
{
    let ghost all = texts(terms@);
    let mut i: usize = 0;
    assert(before + all.take(0) =~= before);
    while i < terms.len()
        invariant
            i <= terms.len(),
            all == texts(terms@),
            texts(out@) == usable_terms(before + all.take(i as int)),
        decreases terms.len() - i,
    {
        let ghost so_far = texts(out@);
        assert((before + all.take(i + 1)).drop_last() =~= before + all.take(i as int));
        assert((before + all.take(i + 1)).last() == terms@[i as int]@);
        proof {
            reveal_strlit("\0");
        }
        let term = replace_all(terms[i].as_str(), "\0", "");
        let ghost text = term@;
        if trimmed(term.as_str()).as_str().unicode_len() > 0 {
            out.push(term);
            assert(texts(out@) =~= so_far.push(text));
        }
        i += 1;
    }
    assert(all.take(i as int) =~= all);
}

impl SttConfig {
    /// The prompt that makes speech recognition listen for the terms that apply
    /// to the aircraft. `None` where no terms apply.
    pub fn build_initial_prompt(&self, aircraft: &str) -> (r: Option<String>)
        ensures
            match r {
                Some(p) => prompt_of(
                    texts(self.vocabulary@) + terms_for(self.per_aircraft@, aircraft@),
                ) == Some(p@),
                None => prompt_of(
                    texts(self.vocabulary@) + terms_for(self.per_aircraft@, aircraft@),
                ) is None,
            },
    {
        let ghost lists = self.per_aircraft@;
        let mut usable: Vec<String> = Vec::new();
        assert(texts(usable@) =~= Seq::empty());
        push_usable(&mut usable, &self.vocabulary, Ghost(Seq::empty()));
        assert(Seq::empty() + texts(self.vocabulary@) =~= texts(self.vocabulary@));
        let mut i: usize = 0;
        assert(lists.skip(0) =~= lists);
        let mut found = false;
        while i < self.per_aircraft.len() && !found
            invariant
                i <= self.per_aircraft.len(),
                lists == self.per_aircraft@,
                !found ==> terms_for(lists, aircraft@) == terms_for(lists.skip(i as int), aircraft@)
                    && texts(usable@) == usable_terms(texts(self.vocabulary@)),
                found ==> texts(usable@) == usable_terms(
                    texts(self.vocabulary@) + terms_for(lists, aircraft@),
                ),
            decreases self.per_aircraft.len() - i,
        {
            assert(lists.skip(i as int)[0] == lists[i as int]);
            assert(lists.skip(i as int).skip(1) =~= lists.skip(i + 1));
            if same(self.per_aircraft[i].0.as_str(), aircraft) {
                push_usable(
                    &mut usable,
                    &self.per_aircraft[i].1,
                    Ghost(texts(self.vocabulary@)),
                );
                found = true;
            }
            i += 1;
        }
        if !found {
            assert(terms_for(lists, aircraft@) =~= Seq::empty());
            assert(texts(self.vocabulary@) + terms_for(lists, aircraft@) =~= texts(
                self.vocabulary@,
            ));
        }
        if usable.len() == 0 {
            assert(texts(usable@).len() == 0);
            return None;
        }
        assert(texts(usable@).len() > 0);
        let mut out = own("DCS checklist vocabulary: ");
        push_text(&mut out, joined(&usable, ", ").as_str());
        push_text(&mut out, ".");
        Some(out)
    }
}

// ---------------------------------------------------------------------------
// Paths
// ---------------------------------------------------------------------------

/// The icon of a tab that names none.
pub fn default_icon() -> (r: String)
    ensures
        r@ == "file"@,
{
    own("file")
}

impl AppConfig {
    /// The configuration where there is no file: one aircraft and one tab.
    pub fn default_config() -> (r: AppConfig)
        ensures
            r.aircraft@.len() == 1,
            r.aircraft@[0].id@ == "F-16C_50"@,
            r.aircraft@[0].label@ == "F-16C Viper"@,
            r.tabs@.len() == 1,
            r.tabs@[0].id@ == "checklists"@,
            r.tabs@[0].label@ == "Checklists"@,
            r.tabs@[0].icon@ == "clipboard-list"@,
            r.tabs@[0].source matches SourceConfig::Generator { path } && path@ == "pages-sample"@,
            r.stt.vocabulary@.len() == 0,
            r.stt.per_aircraft@.len() == 0,
            r.stt.corrections@.len() == 0,
            r.stt.fuzzy_threshold == DEFAULT_FUZZY_THRESHOLD,
    {
        let entry = AircraftEntry { id: own("F-16C_50"), label: own("F-16C Viper") };
        let tab = TabConfig {
            id: own("checklists"),
            label: own("Checklists"),
            icon: own("clipboard-list"),
            source: SourceConfig::Generator { path: own("pages-sample") },
        };
        AppConfig { aircraft: vec![entry], tabs: vec![tab], stt: SttConfig::default() }
    }
}

/// Where the configuration file is.
pub fn config_path() -> (r: String)
    ensures
        r@ == "config.toml"@,
{
    own("config.toml")
}

/// The path with the aircraft in place of each "{aircraft}".
pub fn resolve_aircraft(template: &str, aircraft: &str) -> (r: String)
    ensures
        r@ == replace(template@, "{aircraft}"@, aircraft@),
{
    proof {
        reveal_strlit("{aircraft}");
    }
    replace_all(template, "{aircraft}", aircraft)
}

/// The folders, each as the list of its path's parts, in which the kneeboards
/// of an aircraft can be, in the order in which they are tried.
pub open spec fn kneeboard_dirs(
    aircraft: Seq<char>,
    base: Option<Seq<char>>,
    user: Option<Seq<char>>,
) -> Seq<Seq<Seq<char>>> {
    let own_dir = match base {
        Some(b) => seq![seq![b, aircraft]],
        None => Seq::empty(),
    };
    let user_dirs = match user {
        Some(u) => seq![
            seq![u, "Saved Games"@, "DCS"@, "Kneeboard"@, aircraft],
            seq![u, "Saved Games"@, "DCS.openbeta"@, "Kneeboard"@, aircraft],
        ],
        None => Seq::empty(),
    };
    own_dir + user_dirs
}

/// The texts of a list of lists of strings.
pub open spec fn list_texts(v: Seq<Vec<String>>) -> Seq<Seq<Seq<char>>> {
    Seq::new(v.len(), |i: int| texts(v[i]@))
}

/// The folders in which the kneeboards of an aircraft can be: under the base
/// folder where one is set, then under the user's "Saved Games" of the release
/// and of the open beta. Each is given as the parts of its path.
pub fn kneeboard_candidates(aircraft: &str, base: Option<&str>, user: Option<&str>) -> (r: Vec<
    Vec<String>,
>)
    ensures
        list_texts(r@) == kneeboard_dirs(aircraft@, opt_text(base), opt_text(user)),
{
    let mut r: Vec<Vec<String>> = Vec::new();
    if let Some(b) = base {
        let parts: Vec<String> = vec![own(b), own(aircraft)];
        assert(texts(parts@) =~= seq![b@, aircraft@]);
        r.push(parts);
    }
    if let Some(u) = user {
        let release: Vec<String> = vec![
            own(u),
            own("Saved Games"),
            own("DCS"),
            own("Kneeboard"),
            own(aircraft),
        ];
        assert(texts(release@) =~= seq![
            u@,
            "Saved Games"@,
            "DCS"@,
            "Kneeboard"@,
            aircraft@,
        ]);
        r.push(release);
        let beta: Vec<String> = vec![
            own(u),
            own("Saved Games"),
            own("DCS.openbeta"),
            own("Kneeboard"),
            own(aircraft),
        ];
        assert(texts(beta@) =~= seq![
            u@,
            "Saved Games"@,
            "DCS.openbeta"@,
            "Kneeboard"@,
            aircraft@,
        ]);
        r.push(beta);
    }
    assert(list_texts(r@) =~= kneeboard_dirs(aircraft@, opt_text(base), opt_text(user)));
    r
}

/// The position of the first `true`.
pub open spec fn first_true(v: Seq<bool>) -> Option<int>
    decreases v.len(),
{
    if v.len() == 0 {
        None
    } else {
        match first_true(v.drop_last()) {
            Some(i) => Some(i),
            None => if v.last() {
                Some(v.len() - 1)
            } else {
                None
            },
        }
    }
}

/// Which folder to use: the first one that exists.
pub fn first_existing(exists_at: &Vec<bool>) -> (r: Option<usize>)
    ensures
        match r {
            Some(i) => first_true(exists_at@) == Some(i as int) && i < exists_at.len(),
            None => first_true(exists_at@) is None,
        },
{
    let mut i: usize = 0;
    assert(exists_at@.take(0) =~= Seq::empty());
    while i < exists_at.len()
        invariant
            i <= exists_at.len(),
            first_true(exists_at@.take(i as int)) is None,
        decreases exists_at.len() - i,
    {
        assert(exists_at@.take(i + 1).drop_last() =~= exists_at@.take(i as int));
        if exists_at[i] {
            proof {
                lemma_first_true_prefix(exists_at@, i + 1);
            }
            return Some(i);
        }
        i += 1;
    }
    assert(exists_at@.take(i as int) =~= exists_at@);
    None
}

proof fn lemma_first_true_prefix(v: Seq<bool>, n: int)
    requires
        0 <= n <= v.len(),
        first_true(v.take(n)) is Some,
    ensures
        first_true(v) == first_true(v.take(n)),
    decreases v.len() - n,
{
    if n < v.len() {
        assert(v.take(n + 1).drop_last() =~= v.take(n));
        lemma_first_true_prefix(v, n + 1);
    } else {
        assert(v.take(n) =~= v);
    }
}

/// The aircraft to start with.
pub open spec fn first_aircraft(
    current: Option<Seq<char>>,
    listed: Seq<AircraftEntry>,
) -> Seq<char> {
    match current {
        Some(id) => id,
        None => if listed.len() > 0 {
            listed[0].id@
        } else {
            "F-16C_50"@
        },
    }
}

/// The aircraft to start with: the one that the settings name, else the first
/// of the configuration, else the built-in one.
pub fn initial_aircraft(current: Option<&str>, cfg: &AppConfig) -> (r: String)
    ensures
        r@ == first_aircraft(crate::text::opt_text(current), cfg.aircraft@),
        r@ == match current {
            Some(id) => id@,
            None => if cfg.aircraft@.len() > 0 {
                cfg.aircraft@[0].id@
            } else {
                "F-16C_50"@
            },
        },
{
    match current {
        Some(id) => own(id),
        None => if cfg.aircraft.len() > 0 {
            own(cfg.aircraft[0].id.as_str())
        } else {
            own("F-16C_50")
        },
    }
}

/// The first that is true is found.
pub proof fn law_the_first_is_found(v: Seq<bool>)
    ensures
        match first_true(v) {
            Some(i) => 0 <= i < v.len() && v[i] && forall|j: int| 0 <= j < i ==> !#[trigger] v[j],
            None => forall|j: int| 0 <= j < v.len() ==> !#[trigger] v[j],
        },
    decreases v.len(),
{
    if v.len() > 0 {
        let p = v.drop_last();
        law_the_first_is_found(p);
        match first_true(p) {
            Some(i) => {
                assert forall|j: int| 0 <= j < i implies !#[trigger] v[j] by {
                    assert(!p[j]);
                }
            },
            None => {
                assert forall|j: int| 0 <= j < v.len() - 1 implies !#[trigger] v[j] by {
                    assert(!p[j]);
                }
            },
        }
    }
}

/// Terms are listed in their order: those of two lists one after the other are
/// those of the first and then those of the second.
pub proof fn law_terms_keep_their_order(a: Seq<Seq<char>>, b: Seq<Seq<char>>)
    ensures
        usable_terms(a + b) == usable_terms(a) + usable_terms(b),
    decreases b.len(),
{
    if b.len() == 0 {
        assert(a + b =~= a);
        assert(usable_terms(a) + usable_terms(b) =~= usable_terms(a));
    } else {
        law_terms_keep_their_order(a, b.drop_last());
        assert((a + b).drop_last() =~= a + b.drop_last());
        assert((a + b).last() == b.last());
        assert(usable_terms(a + b) =~= usable_terms(a) + usable_terms(b));
    }
}

/// A term that is not blank and has no NUL in it is listed as it is, and a blank
/// one is not listed.
pub proof fn law_terms_are_listed_as_they_are(t: Seq<char>)
    requires
        forall|i: int| 0 <= i < t.len() ==> (#[trigger] t[i]) != '\0',
    ensures
        trim(t).len() > 0 ==> usable_terms(seq![t]) == seq![t],
        trim(t).len() == 0 ==> usable_terms(seq![t]).len() == 0,
        trim(t).len() > 0 ==> prompt_of(seq![t]) == Some("DCS checklist vocabulary: "@ + t + "."@),
        prompt_of(Seq::empty()) is None,
{
    reveal_strlit("\0");
    assert forall|k: int| !crate::text::occurs_at(t, "\0"@, k) by {
        if crate::text::occurs_at(t, "\0"@, k) {
            assert(t.subrange(k, k + 1)[0] == t[k]);
        }
    }
    crate::text::law_replacing_absent_text_changes_nothing(t, "\0"@, ""@);
    let one = seq![t];
    assert(one.drop_last() =~= Seq::empty());
    assert(usable_terms(Seq::<Seq<char>>::empty()) =~= Seq::empty());
    if trim(t).len() > 0 {
        assert(usable_terms(one) =~= one);
        assert(join(one, ", "@) == t);
    }
}

/// The terms of the aircraft are those of its first list.
pub proof fn law_each_aircraft_has_its_terms(
    lists: Seq<(String, Vec<String>)>,
    aircraft: Seq<char>,
    i: int,
)
    requires
        0 <= i < lists.len(),
        lists[i].0@ == aircraft,
        forall|j: int| 0 <= j < i ==> (#[trigger] lists[j]).0@ != aircraft,
    ensures
        terms_for(lists, aircraft) == texts(lists[i].1@),
    decreases lists.len(),
{
    if i > 0 {
        let rest = lists.skip(1);
        assert(lists[0].0@ != aircraft);
        assert(rest[i - 1] == lists[i]);
        assert forall|j: int| 0 <= j < i - 1 implies (#[trigger] rest[j]).0@ != aircraft by {
            assert(rest[j] == lists[j + 1]);
        }
        law_each_aircraft_has_its_terms(rest, aircraft, i - 1);
    }
}

/// Kneeboards are looked for under the base folder first, then under the saved
/// games of the release, then under those of the open beta.
pub proof fn law_kneeboards_are_looked_for_in_turn(
    aircraft: Seq<char>,
    base: Seq<char>,
    user: Seq<char>,
)
    ensures
        ({
            let release = seq![user, "Saved Games"@, "DCS"@, "Kneeboard"@, aircraft];
            let beta = seq![user, "Saved Games"@, "DCS.openbeta"@, "Kneeboard"@, aircraft];
            &&& kneeboard_dirs(aircraft, Some(base), Some(user)) == seq![
                seq![base, aircraft],
                release,
                beta,
            ]
            &&& kneeboard_dirs(aircraft, None, Some(user)) == seq![release, beta]
            &&& kneeboard_dirs(aircraft, Some(base), None) == seq![seq![base, aircraft]]
            &&& kneeboard_dirs(aircraft, None, None).len() == 0
        }),
{
    let release = seq![user, "Saved Games"@, "DCS"@, "Kneeboard"@, aircraft];
    let beta = seq![user, "Saved Games"@, "DCS.openbeta"@, "Kneeboard"@, aircraft];
    assert(kneeboard_dirs(aircraft, Some(base), Some(user)) =~= seq![
        seq![base, aircraft],
        release,
        beta,
    ]);
    assert(kneeboard_dirs(aircraft, None, Some(user)) =~= seq![release, beta]);
    assert(kneeboard_dirs(aircraft, Some(base), None) =~= seq![seq![base, aircraft]]);
}

/// The aircraft that was flown last is the one to start with, else the first of the
/// list.
pub proof fn law_the_last_aircraft_is_flown_again(id: Seq<char>, listed: Seq<AircraftEntry>)
    ensures
        first_aircraft(Some(id), listed) == id,
        listed.len() > 0 ==> first_aircraft(None, listed) == listed[0].id@,
        listed.len() == 0 ==> first_aircraft(None, listed) == "F-16C_50"@,
{
}

/// Terms are listed in the prompt with commas between them.
pub proof fn law_terms_are_parted_by_commas(s: Seq<char>, t: Seq<char>)
    requires
        trim(s).len() > 0,
        trim(t).len() > 0,
        forall|i: int| 0 <= i < s.len() ==> (#[trigger] s[i]) != '\0',
        forall|i: int| 0 <= i < t.len() ==> (#[trigger] t[i]) != '\0',
    ensures
        prompt_of(seq![s, t]) == Some("DCS checklist vocabulary: "@ + (s + ", "@ + t) + "."@),
{
    law_terms_are_listed_as_they_are(s);
    law_terms_are_listed_as_they_are(t);
    law_terms_keep_their_order(seq![s], seq![t]);
    assert(seq![s] + seq![t] =~= seq![s, t]);
    assert(usable_terms(seq![s, t]) =~= seq![s, t]);
    crate::text::law_texts_are_joined_in_turn(seq![s], seq![t], s, ", "@);
    crate::text::law_texts_are_joined_in_turn(seq![s], seq![t], t, ", "@);
}

} // verus!
