use dcs_kneeboard::pronunciation::{
    apply_phrases, expand_abbreviations, expand_page_refs, normalise_step, replace_ascii_ci,
    spoken_for, strip_context, PronunciationConfig,
};
use dcs_kneeboard::word_map::WordMap;

fn map(pairs: &[(&str, &str)]) -> WordMap {
    let pairs: Vec<(String, String)> =
        pairs.iter().map(|(k, v)| (k.to_string(), v.to_string())).collect();
    WordMap::from_pairs(&pairs)
}

#[test]
fn tts_expands_page_refs() {
    assert_eq!(normalise_step("Go to PT.2 next"), "Go to Page 2 next");
    assert_eq!(normalise_step("PT.10 reference"), "Page 10 reference");
    // Not inside another word.
    assert_eq!(normalise_step("OPT.2 stuff"), "OPT.2 stuff");
    // At least one digit is needed.
    assert_eq!(normalise_step("PT.abc"), "PT.abc");
}

#[test]
fn tts_strips_context_and_separator() {
    assert_eq!(
        normalise_step("FLCS PWR TEST | hold switch to TEST ... TEST"),
        "FLCS PWR TEST, TEST"
    );
    assert_eq!(normalise_step("MAIN PWR switch ... BATT"), "MAIN PWR switch, BATT");
}

#[test]
fn tts_expands_whole_words_only() {
    let m = map(&[("PWR", "POWER"), ("FLCS", "Flickus")]);
    assert_eq!(expand_abbreviations("FLCS PWR TEST", &m), "Flickus POWER TEST");
    // No part of a word is replaced.
    assert_eq!(expand_abbreviations("PWRX", &m), "PWRX");
}

#[test]
fn tts_preserves_punctuation_and_case() {
    let m = map(&[("PWR", "POWER")]);
    assert_eq!(expand_abbreviations("MAIN PWR, BATT", &m), "MAIN POWER, BATT");
}

#[test]
fn mod_expands_page_refs() {
    assert_eq!(normalise_step("Go to PT.2 next"), "Go to Page 2 next");
    assert_eq!(normalise_step("PT.10 reference"), "Page 10 reference");
    assert_eq!(normalise_step("OPT.2 stuff"), "OPT.2 stuff");
    assert_eq!(normalise_step("PT.abc"), "PT.abc");
}

#[test]
fn mod_strips_context_and_separator() {
    assert_eq!(
        normalise_step("FLCS PWR TEST | hold switch to TEST ... TEST"),
        "FLCS PWR TEST, TEST"
    );
    assert_eq!(normalise_step("MAIN PWR switch ... BATT"), "MAIN PWR switch, BATT");
}

#[test]
fn mod_expands_whole_words_only() {
    let m = map(&[("PWR", "POWER"), ("FLCS", "Flickus")]);
    assert_eq!(expand_abbreviations("FLCS PWR TEST", &m), "Flickus POWER TEST");
    assert_eq!(expand_abbreviations("PWRX", &m), "PWRX");
}

#[test]
fn mod_preserves_punctuation_and_case() {
    let m = map(&[("PWR", "POWER")]);
    assert_eq!(expand_abbreviations("MAIN PWR, BATT", &m), "MAIN POWER, BATT");
}

#[test]
fn letters_of_any_script_belong_to_words() {
    let m = map(&[("PWR", "POWER")]);
    assert_eq!(expand_abbreviations("PWRÄ PWR", &m), "PWRÄ POWER");
    assert_eq!(expand_abbreviations("PWR— PWR", &m), "POWER— POWER");
    assert_eq!(expand_page_refs("ÄPT.2 (PT.3)"), "ÄPT.2 (Page 3)");
}

#[test]
fn words_are_expanded_apart() {
    let m = map(&[("PWR", "POWER"), ("A", "alpha")]);
    let (a, b) = ("PWR A", "PWRX/A");
    assert_eq!(
        expand_abbreviations(&format!("{a}-{b}"), &m),
        format!("{}-{}", expand_abbreviations(a, &m), expand_abbreviations(b, &m))
    );
    assert_eq!(expand_abbreviations("PWR A-PWRX/A", &m), "POWER alpha-PWRX/alpha");
}

#[test]
fn words_without_an_entry_are_said_as_written() {
    let m = map(&[("PWR", "POWER")]);
    assert_eq!(expand_abbreviations("pwr Main, 12", &m), "pwr Main, 12");
    assert_eq!(expand_abbreviations("", &m), "");
}

#[test]
fn phrases_ignore_case() {
    let m = map(&[("jfs", "jet fuel starter")]);
    assert_eq!(apply_phrases("Start JFS now", &m), "Start jet fuel starter now");
    assert_eq!(replace_ascii_ci("aXbXc", "x", "--"), "a--b--c");
    assert_eq!(replace_ascii_ci("abc", "", "-"), "abc");
}

#[test]
fn context_ends_at_the_separator() {
    assert_eq!(strip_context("A | b ... C"), "A, C");
    assert_eq!(strip_context(" A | b"), "A");
    assert_eq!(strip_context("A ... C"), "A, C");
    assert_eq!(strip_context("no context"), "no context");
}

#[test]
fn a_spoken_form_goes_before_the_text() {
    let cfg = PronunciationConfig::default();
    assert_eq!(spoken_for("PT.2", Some("as it is"), &cfg), "as it is");
    assert_eq!(spoken_for("MAIN ... ON", None, &cfg), "MAIN, ON");
}
