use dcs_kneeboard::actions::Action;
use dcs_kneeboard::phrases::{all_rules, query_examples};
use dcs_kneeboard::voice_router::{self, apply_corrections, QueryIntent, RoutedIntent};
use dcs_kneeboard::word_map::WordMap;

/// Routes with a threshold in single precision.
fn route_with_fuzzy(transcript: &str, threshold: f32) -> RoutedIntent {
    voice_router::route_with_fuzzy(transcript, f64::from(threshold).to_bits())
}

/// Routes without fuzzy matching.
fn route(transcript: &str) -> RoutedIntent {
    route_with_fuzzy(transcript, 0.0)
}

fn action(s: &str) -> Option<Action> {
    match route(s) {
        RoutedIntent::Action(a) => Some(a),
        _ => None,
    }
}

#[test]
fn next_item() {
    assert_eq!(action("Next"), Some(Action::Next));
    assert_eq!(action("next."), Some(Action::Next));
    assert_eq!(action("Okay"), Some(Action::Next));
    assert_eq!(action("got it"), Some(Action::Next));
}

/// "start" and "go" exit the armed-after-section-jump state
/// and read the first step. They route to Next so they also work as
/// plain advance when the controller isn't armed.
#[test]
fn start_and_go_route_to_next() {
    assert_eq!(action("start"), Some(Action::Next));
    assert_eq!(action("Start."), Some(Action::Next));
    assert_eq!(action("go"), Some(Action::Next));
    assert_eq!(action("Go!"), Some(Action::Next));
}

/// The "start" / "go" short-circuit must NOT swallow phrasal commands
/// that contain those words.
#[test]
fn start_and_go_do_not_eat_phrasal_commands() {
    assert_eq!(action("go back"), Some(Action::Previous));
    assert_eq!(action("go on"), Some(Action::TogglePlay));
    assert_eq!(action("start over"), Some(Action::RestartSection));
    assert_eq!(action("start reading"), Some(Action::TogglePlay));
    // "go to page 3" is a query, not an action.
    assert_eq!(page_query("go to page 3"), Some(3));
}

#[test]
fn previous_item() {
    assert_eq!(action("Back"), Some(Action::Previous));
    assert_eq!(action("go back"), Some(Action::Previous));
    assert_eq!(action("previous step"), Some(Action::Previous));
}

#[test]
fn longer_phrase_wins() {
    assert_eq!(action("next page"), Some(Action::PageNext));
    assert_eq!(action("previous heading"), Some(Action::PrevHeading));
    assert_eq!(action("Next tab please"), Some(Action::CycleTabNext));
}

#[test]
fn word_boundary() {
    // "back" must not match "background"
    assert_eq!(route("background noise"), RoutedIntent::Unmatched);
    // "next" must not match "context"
    assert_eq!(route("the context is"), RoutedIntent::Unmatched);
}

#[test]
fn punctuation_tolerant() {
    assert_eq!(action("Repeat, please."), Some(Action::ReadCurrent));
    assert_eq!(action("CANCEL!!!"), Some(Action::Cancel));
}

#[test]
fn empty_or_garbage() {
    assert_eq!(route(""), RoutedIntent::Unmatched);
    assert_eq!(route("   "), RoutedIntent::Unmatched);
    assert_eq!(route("hmmmm"), RoutedIntent::Unmatched);
}


fn page_query(s: &str) -> Option<u32> {
    match route(s) {
        RoutedIntent::Query(QueryIntent::NavigateToPage(n)) => Some(n),
        _ => None,
    }
}

#[test]
fn page_query_digit() {
    assert_eq!(page_query("page 3"), Some(3));
    assert_eq!(page_query("go to page 5"), Some(5));
    assert_eq!(page_query("page number 2"), Some(2));
    assert_eq!(page_query("Take me to page 7, please."), Some(7));
}

#[test]
fn page_query_word_form() {
    assert_eq!(page_query("page three"), Some(3));
    assert_eq!(page_query("go to page nine"), Some(9));
    assert_eq!(page_query("page number twelve"), Some(12));
}

#[test]
fn page_query_not_a_match() {
    // "page next" / "page back" are Action fast-path matches, not queries.
    // Confirm they still route to actions, not NavigateToPage.
    assert_eq!(route("page next"), RoutedIntent::Action(Action::PageNext));
    assert_eq!(route("page back"), RoutedIntent::Action(Action::PagePrev));
    // Bare "page" with no number is Unmatched, not NavigateToPage(0).
    assert_eq!(route("page"), RoutedIntent::Unmatched);
    // Zero is rejected — voice page numbers are 1-based.
    assert_eq!(page_query("page 0"), None);
    // A non-number token after "page" doesn't trigger a page query,
    // but the section recogniser does pick it up.
    assert_eq!(page_query("page that section"), None);
}


fn section_query(s: &str) -> Option<String> {
    match route(s) {
        RoutedIntent::Query(QueryIntent::NavigateToSection(t)) => Some(t),
        _ => None,
    }
}

#[test]
fn section_query_simple_prefixes() {
    assert_eq!(section_query("go to AGM-65"), Some("agm 65".to_string()));
    assert_eq!(
        section_query("take me to the maverick section"),
        Some("maverick section".to_string()) // "the " stripped
    );
    assert_eq!(
        section_query("search for AGM-65 employment"),
        Some("agm 65 employment".to_string())
    );
    assert_eq!(
        section_query("find the JDAM section"),
        Some("jdam section".to_string())
    );
    assert_eq!(
        section_query("navigate to landing"),
        Some("landing".to_string())
    );
}

#[test]
fn section_query_how_do_i_form() {
    assert_eq!(
        section_query("how do I employ the AGM-65"),
        Some("agm 65".to_string())
    );
    assert_eq!(
        section_query("how to fire the maverick"),
        Some("maverick".to_string())
    );
    // "set up" must beat "set" so we don't get "up the ..."
    assert_eq!(
        section_query("how do I set up the JDAM"),
        Some("jdam".to_string())
    );
}

#[test]
fn section_query_not_a_match() {
    // Prefix alone with no target is not a query.
    assert_eq!(route("go to"), RoutedIntent::Unmatched);
    assert_eq!(route("find"), RoutedIntent::Unmatched);
    // "go back" is the Previous action — not a section query.
    assert_eq!(route("go back"), RoutedIntent::Action(Action::Previous));
}


fn tab_query(s: &str) -> Option<String> {
    match route(s) {
        RoutedIntent::Query(QueryIntent::NavigateToTab(t)) => Some(t),
        _ => None,
    }
}

#[test]
fn tab_query_suffix_disambiguates() {
    // "X tab" / "X checklist" suffix → NavigateToTab; otherwise it
    // stays NavigateToSection.
    assert_eq!(tab_query("go to the takeoff tab"), Some("takeoff".to_string()));
    assert_eq!(
        tab_query("take me to the JDAM checklist"),
        Some("jdam".to_string())
    );
    assert_eq!(
        tab_query("switch to scratchpad tab"),
        None // "switch to" isn't a recognised prefix; falls through.
    );
    assert_eq!(
        tab_query("navigate to the tactical tab"),
        Some("tactical".to_string())
    );
    // Plain target with no suffix → section query, not tab query.
    assert_eq!(tab_query("go to landing"), None);
    assert_eq!(
        section_query("go to landing"),
        Some("landing".to_string())
    );
}


#[test]
fn list_sections_phrases() {
    assert_eq!(
        route("what sections are in this tab"),
        RoutedIntent::Query(QueryIntent::ListSections)
    );
    assert_eq!(
        route("list sections"),
        RoutedIntent::Query(QueryIntent::ListSections)
    );
    assert_eq!(
        route("what's in this tab?"),
        RoutedIntent::Query(QueryIntent::ListSections)
    );
    assert_eq!(
        route("sections in this tab"),
        RoutedIntent::Query(QueryIntent::ListSections)
    );
}

/// Action phrases beat section-query prefixes. "what was that" → ReadCurrent. "where am
/// I" → ReadSection. "next page" → PageNext.
#[test]
fn existing_actions_still_win() {
    assert_eq!(
        route("what was that"),
        RoutedIntent::Action(Action::ReadCurrent)
    );
    assert_eq!(route("where am I"), RoutedIntent::Action(Action::ReadSection));
    assert_eq!(route("next page"), RoutedIntent::Action(Action::PageNext));
    assert_eq!(
        route("previous heading"),
        RoutedIntent::Action(Action::PrevHeading)
    );
}


fn corrections(pairs: &[(&str, &str)]) -> WordMap {
    let list: Vec<(String, String)> =
        pairs.iter().map(|(k, v)| ((*k).to_string(), (*v).to_string())).collect();
    WordMap::from_pairs(&list)
}

#[test]
fn corrections_no_rules_is_passthrough() {
    let empty = WordMap::new();
    assert_eq!(apply_corrections("home", &empty), None);
}

#[test]
fn corrections_no_match_returns_none() {
    let map = corrections(&[("home", "HARM")]);
    // "homestead" contains "home" but not as a whole word — must not fire.
    assert_eq!(apply_corrections("homestead", &map), None);
}

#[test]
fn corrections_word_boundary_match() {
    let map = corrections(&[("home", "HARM")]);
    // Input is case-insensitive (lower-cased before matching), so
    // "Home" matches the "home" key. Replacement string is kept
    // verbatim — the corrected text feeds back into route() which
    // normalises again, so the casing of the output doesn't matter
    // for behaviour but lets config authors keep tactical-style
    // capitalisation in the table.
    assert_eq!(apply_corrections("select Home", &map), Some("select HARM".to_string()));
}

#[test]
fn corrections_longest_key_first() {
    // "jay dam" beats "jay" because longest match wins, otherwise
    // "jay" would partially fire on "jay dam" leaving "harm dam".
    let map = corrections(&[("jay", "harm"), ("jay dam", "jdam")]);
    assert_eq!(apply_corrections("go to jay dam page", &map), Some("go to jdam page".to_string()));
}

#[test]
fn corrections_route_end_to_end() {
    // "next" heard as "nest".
    let map = corrections(&[("nest", "next")]);
    let corrected = apply_corrections("nest please", &map);
    assert_eq!(corrected.as_deref(), Some("next please"));
    // The corrected text routes via the substring table.
    assert_eq!(
        route_with_fuzzy(corrected.as_deref().unwrap(), 0.0),
        RoutedIntent::Action(Action::Next)
    );
}

#[test]
fn fuzzy_disabled_when_threshold_zero() {
    // "nect" doesn't substring-match anything; with the fuzzy fallback
    // off (threshold 0.0) it stays Unmatched.
    assert_eq!(route_with_fuzzy("nect", 0.0), RoutedIntent::Unmatched);
}

#[test]
fn fuzzy_recovers_misheard_action() {
    // "nect" / "nest" are jw-close to "next" (>0.85) and have no
    // substring match — exactly the misrecognition case fuzzy is
    // for. Threshold 0.85 = default.
    assert_eq!(
        route_with_fuzzy("nect", 0.85),
        RoutedIntent::Action(Action::Next)
    );
    assert_eq!(
        route_with_fuzzy("nest", 0.85),
        RoutedIntent::Action(Action::Next)
    );
}

#[test]
fn fuzzy_below_threshold_stays_unmatched() {
    // "knight" is too phonetically far from any action phrase to
    // count as a misrecognition. JW("knight", "next") < 0.85.
    assert_eq!(route_with_fuzzy("knight", 0.85), RoutedIntent::Unmatched);
}

#[test]
fn fuzzy_does_not_clobber_exact_match() {
    // "next page" has a substring hit (PageNext) AND a high-JW score
    // against multiple phrases. Exact match must win.
    assert_eq!(
        route_with_fuzzy("next page", 0.85),
        RoutedIntent::Action(Action::PageNext)
    );
}

#[test]
fn read_reads_the_current_item() {
    for t in ["read", "Read it.", "What's next?"] {
        assert_eq!(action(t), Some(Action::ReadCurrent));
    }
    assert_eq!(action("next"), Some(Action::Next));
    assert_eq!(action("play"), Some(Action::TogglePlay));
}

#[test]
fn every_phrase_leads_to_its_own_action() {
    for (phrases, own) in all_rules() {
        for p in phrases.iter() {
            assert_eq!(action(p), Some(*own), "{p}");
        }
    }
    assert_eq!(action("back to top"), Some(Action::RestartSection));
    assert_eq!(action("push back"), Some(Action::VrMoveFurther));
    assert_eq!(action("back"), Some(Action::Previous));
}

#[test]
fn every_example_is_understood_as_its_label_says() {
    for (label, examples) in query_examples() {
        for e in examples.iter() {
            let RoutedIntent::Query(q) = route(e) else {
                panic!("{e} is no query");
            };
            let said = match q {
                QueryIntent::NavigateToPage(_) => "Go to page",
                QueryIntent::NavigateToSection(_) => "Go to section",
                QueryIntent::NavigateToTab(_) => "Go to tab",
                QueryIntent::ListSections => "List sections",
                QueryIntent::PickResult(_) => "",
            };
            assert_eq!(said, *label, "{e}");
        }
    }
}

#[test]
fn corrections_ignore_case() {
    let mut table = WordMap::new();
    table.insert("HOME", "HARM");
    assert_eq!(apply_corrections("Go To Home NOW", &table).as_deref(), Some("go to HARM now"));
    table.insert("ÜBER", "over");
    assert_eq!(apply_corrections("Über", &table).as_deref(), Some("over"));
}

#[test]
fn a_rule_that_changes_nothing_still_applies() {
    let mut table = WordMap::new();
    table.insert("next", "next");
    assert_eq!(apply_corrections("Next", &table).as_deref(), Some("next"));
    assert_eq!(apply_corrections("nextdoor", &table), None);
    table.insert("", "x");
    assert_eq!(apply_corrections("a  b", &table), None);
}
