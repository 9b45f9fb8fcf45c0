use dcs_kneeboard::actions::Action;
use dcs_kneeboard::config::{
    config_path, first_existing, initial_aircraft, kneeboard_candidates, resolve_aircraft,
    AppConfig, SttConfig, DEFAULT_FUZZY_THRESHOLD,
};
use dcs_kneeboard::help::{help_rows, lucide_path};
use dcs_kneeboard::phrases::{all_rules, query_examples};
use dcs_kneeboard::settings::{
    effective_click_through, safe_position_filter, settings_path, Settings,
};
use dcs_kneeboard::word_map::WordMap;

#[test]
fn prompts_list_the_terms() {
    let strings = |l: &[&str]| l.iter().map(|s| s.to_string()).collect::<Vec<String>>();
    let mut stt = SttConfig::default();
    assert_eq!(stt.build_initial_prompt("F-16C_50"), None);
    stt.vocabulary = strings(&["FLCS", " ", "J\0FS"]);
    stt.per_aircraft = vec![("F-16C_50".to_string(), strings(&["HARM"]))];
    assert_eq!(
        stt.build_initial_prompt("F-16C_50").as_deref(),
        Some("DCS checklist vocabulary: FLCS, JFS, HARM.")
    );
    assert_eq!(
        stt.build_initial_prompt("A-10C").as_deref(),
        Some("DCS checklist vocabulary: FLCS, JFS.")
    );
    stt.vocabulary = strings(&["\0", " "]);
    assert_eq!(stt.build_initial_prompt("A-10C"), None);
}

#[test]
fn the_default_threshold_is_a_rounded_number() {
    assert_eq!(DEFAULT_FUZZY_THRESHOLD, f64::from(0.85_f32).to_bits());
    assert_eq!(SttConfig::default().fuzzy_threshold, DEFAULT_FUZZY_THRESHOLD);
}

#[test]
fn the_aircraft_is_put_into_paths() {
    assert_eq!(resolve_aircraft("a/{aircraft}/{aircraft}", "F-16"), "a/F-16/F-16");
    assert_eq!(resolve_aircraft("plain", "F-16"), "plain");
    assert_eq!(config_path(), "config.toml");
    assert_eq!(settings_path(), "settings.toml");
}

#[test]
fn kneeboards_are_looked_for_in_order() {
    let all = kneeboard_candidates("F-16", Some("base"), Some("user"));
    assert_eq!(all.len(), 3);
    assert_eq!(kneeboard_candidates("F-16", None, Some("user")).len(), 2);
    assert_eq!(kneeboard_candidates("F-16", Some("base"), None).len(), 1);
    assert_eq!(first_existing(&vec![false, true, true]), Some(1));
    assert_eq!(first_existing(&vec![false]), None);
}

#[test]
fn the_first_aircraft_is_chosen_unless_one_was_before() {
    let mut config = AppConfig::default_config();
    config.aircraft[0].id = "A-10C".to_string();
    assert_eq!(initial_aircraft(Some("F-18"), &config), "F-18");
    assert_eq!(initial_aircraft(None, &config), "A-10C");
    config.aircraft.clear();
    assert_eq!(initial_aircraft(None, &config), "F-16C_50");
}

#[test]
fn opacity_stays_in_range() {
    let clamp = |x: f32| f32::from_bits(Settings::clamp_window_opacity(x.to_bits()));
    for x in [-1.0, -0.0, 0.0, 0.1, 0.3, 0.5, 1.0, 2.0, f32::INFINITY, f32::NEG_INFINITY] {
        assert_eq!(clamp(x), x.clamp(0.3, 1.0));
    }
    assert!(clamp(f32::NAN).is_nan());
}

#[test]
fn hidden_positions_are_not_remembered() {
    assert_eq!(safe_position_filter(-20000, 5), Some((-20000, 5)));
    assert_eq!(safe_position_filter(-20001, 5), None);
    assert_eq!(safe_position_filter(5, -30000), None);
    let mut s = Settings::default();
    assert!(!s.remember_position(-30000, -30000));
    assert!(s.remember_position(7, 8));
    assert_eq!((s.window_x, s.window_y), (Some(7), Some(8)));
}

#[test]
fn choosing_a_voice_chooses_the_engine() {
    let mut s = Settings::default();
    assert!(!s.set_tts_engine("winrt"));
    assert!(s.set_piper_voice("v.onnx"));
    assert_eq!(s.tts_engine, "piper");
    assert!(!s.set_piper_voice("v.onnx"));
    assert!(s.set_tts_engine("winrt"));
}

#[test]
fn clicking_the_input_again_unselects_it() {
    let mut s = Settings::default();
    assert_eq!(s.shown_input(Some("open")), "open");
    assert_eq!(s.shown_input(None), "");
    s.audio_input = s.clicked_input("mic");
    assert_eq!(s.audio_input.as_deref(), Some("mic"));
    assert_eq!(s.shown_input(Some("open")), "mic");
    assert_eq!(s.clicked_input("mic"), None);
}

#[test]
fn missing_bindings_are_filled_in() {
    let mut s = Settings::default();
    assert!(s.seed_bindings());
    assert_eq!(s.bindings.0.len(), 11);
    assert!(!s.seed_bindings());
}

#[test]
fn open_panels_take_clicks() {
    assert!(effective_click_through(true, false));
    assert!(!effective_click_through(true, true));
    assert!(!effective_click_through(false, false));
}

#[test]
fn the_help_lists_every_rule() {
    let rows = help_rows();
    assert_eq!(rows.len(), all_rules().len() + query_examples().len() + 4);
    assert_eq!((rows[0].label.as_str(), rows[0].is_header), ("COMMANDS", true));
    assert_eq!(rows[1].label, all_rules()[0].1.label());
    assert_eq!(rows[1].phrases, all_rules()[0].0.join(", "));
    assert_eq!(rows.iter().filter(|r| r.is_header).count(), 3);
    assert_ne!(lucide_path("map"), "");
    assert_eq!(lucide_path("no such icon"), "M 5 12 L 19 12");
    assert_ne!(Action::Next.label(), Action::Previous.label());
}

#[test]
fn what_was_put_last_is_read() {
    let mut m = WordMap::new();
    assert!(m.is_empty());
    m.insert("a", "1");
    m.insert("bb", "2");
    m.insert("a", "3");
    assert_eq!(m.len(), 2);
    assert_eq!(m.get("a").map(|s| s.as_str()), Some("3"));
    assert_eq!(m.get("c"), None);
    let order: Vec<String> = m.longest_first().into_iter().map(|(k, _)| k).collect();
    assert_eq!(order, ["bb", "a"]);
}
