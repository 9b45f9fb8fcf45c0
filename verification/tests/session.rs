use dcs_kneeboard::actions::Action;
use dcs_kneeboard::audio::MicStep;
use dcs_kneeboard::config::{AppConfig, SourceConfig, SttConfig, TabConfig};
use dcs_kneeboard::input::{Bindings, InputEvent, Mods, Trigger};
use dcs_kneeboard::navigation::Direction;
use dcs_kneeboard::pages::{Cursor, Item, LoadedPage, PageManifest};
use dcs_kneeboard::pills::PillMessage;
use dcs_kneeboard::player::{Cue, Player};
use dcs_kneeboard::pronunciation::PronunciationConfig;
use dcs_kneeboard::query_aliases::QueryAliases;
use dcs_kneeboard::readings::{view_page, word_count};
use dcs_kneeboard::section_search::Evidence;
use dcs_kneeboard::session::{
    label_query, understand, understand_as, Chore, EventStep, Heard, Session, Surroundings,
};
use dcs_kneeboard::settings::Settings;
use dcs_kneeboard::similarity::single_key;
use dcs_kneeboard::tabs::TabRegistry;
use dcs_kneeboard::voice_router::QueryIntent;
use dcs_kneeboard::word_map::WordMap;

fn item(idx: u32, kind: &str, group: &str, text: &str) -> Item {
    Item {
        idx,
        group: group.to_string(),
        kind: kind.to_string(),
        text: text.to_string(),
        spoken: None,
        navigable: kind == "step",
        bbox: [0; 4],
    }
}

fn page(title: &str, items: Vec<Item>) -> LoadedPage {
    let manifest = PageManifest {
        schema_version: "1".to_string(),
        title: title.to_string(),
        image: "page.png".to_string(),
        image_size: [600, 900],
        items,
    };
    LoadedPage::new(manifest, "page.png".to_string())
}

fn weapons() -> Vec<LoadedPage> {
    vec![
        page("Start", vec![
            item(0, "section-header", "", "Battery"),
            item(1, "step", "Battery", "MAIN PWR ... BATT"),
            item(2, "note-info", "Battery", "Lights come on"),
            item(3, "step", "Battery", "JFS ... START 2"),
        ]),
        page("Weapons", vec![
            item(0, "section-header", "", "Maverick"),
            item(1, "step", "Maverick", "FCR ... ON"),
            item(2, "section-header", "", "Gun"),
            item(3, "step", "Gun", "MASTER ARM ... ARM"),
        ]),
    ]
}

fn registry() -> TabRegistry {
    let mut config = AppConfig::default_config();
    config.tabs.push(TabConfig {
        id: "charts".to_string(),
        label: "Charts".to_string(),
        icon: "map".to_string(),
        source: SourceConfig::ImageFolder { path: "charts".to_string(), recursive: false },
    });
    let mut tabs = TabRegistry::new(&config, "F-16C_50".to_string());
    for tab in &mut tabs.tabs {
        tab.begin_load("F-16C_50", None);
        tab.finish_load(Ok(weapons()));
    }
    tabs.restore_active(None);
    tabs
}

fn session() -> Session {
    Session::new(
        Player::new(registry()),
        Settings::default(),
        PronunciationConfig::default(),
        QueryAliases::default(),
    )
}

const AROUND: Surroundings = Surroundings { has_mic: true, position: (40, 50), messages: true };

fn act(s: &mut Session, action: Action) -> (Chore, Vec<Cue>) {
    let mut cues = Vec::new();
    assert!(s.player.can_act(action));
    let chore = s.dispatch(action, AROUND, &mut cues);
    (chore, cues)
}

fn place(s: &Session) -> (usize, usize, usize) {
    let c = s.player.tabs.active_tab().unwrap().cursor;
    (s.player.tabs.active, c.page, c.item)
}

fn said(cues: &[Cue]) -> Vec<String> {
    cues.iter()
        .filter_map(|c| match c {
            Cue::Say(t) | Cue::Read(t) => Some(t.clone()),
            _ => None,
        })
        .collect()
}

fn score(e: &Evidence) -> u64 {
    let similarity = f64::from_bits(e.similarity) as f32;
    let share = if e.overlap.total == 0 {
        0.0
    } else {
        e.overlap.common as f32 / e.overlap.total as f32 * 0.20
    };
    let weight = if e.grouped { 1.0_f32 } else { 0.85_f32 };
    single_key(f64::from((similarity + share) * weight).to_bits())
}

fn ask(s: &mut Session, query: QueryIntent) -> Vec<Cue> {
    let scores: Vec<u64> = match &query {
        QueryIntent::NavigateToSection(t) => s.query_evidence(t).iter().map(score).collect(),
        _ => Vec::new(),
    };
    let mut cues = Vec::new();
    s.handle_query(&query, &scores, &mut cues);
    cues
}

#[test]
fn next_reads_the_next_step() {
    let mut s = session();
    assert_eq!(place(&s), (0, 0, 1));
    let (chore, cues) = act(&mut s, Action::Next);
    assert_eq!(chore, Chore::Nothing);
    assert_eq!(place(&s), (0, 0, 3));
    assert_eq!(said(&cues), ["JFS, START 2"]);
    assert!(s.player.playing);
    // A new page is announced, with the heading.
    let (_, cues) = act(&mut s, Action::Next);
    assert_eq!(said(&cues), ["Weapons. Maverick. FCR, ON"]);
    assert!(!s.player.armed);
}

#[test]
fn notes_are_read_where_they_are_wanted() {
    let mut s = session();
    let (_, cues) = act(&mut s, Action::ReadCurrent);
    assert_eq!(said(&cues), ["MAIN PWR, BATT"]);
    let (chore, _) = act(&mut s, Action::ToggleReadNotes);
    assert_eq!(chore, Chore::ReadNotes(true));
    let (_, cues) = act(&mut s, Action::ReadCurrent);
    assert_eq!(said(&cues), ["MAIN PWR, BATT. Lights come on"]);
}

#[test]
fn a_heading_jump_waits_and_previous_undoes_it() {
    let mut s = session();
    let (_, cues) = act(&mut s, Action::NextHeading);
    assert!(s.player.armed);
    assert_eq!(place(&s), (0, 1, 1));
    assert_eq!(said(&cues), ["Maverick"]);
    assert_eq!(s.pills.effective(false).unwrap().text, "Armed — say go");
    let (_, cues) = act(&mut s, Action::Previous);
    assert!(!s.player.armed && said(&cues).is_empty());
    assert_eq!(place(&s), (0, 0, 1));
    assert!(s.pills.effective(false).is_none());
}

#[test]
fn messages_are_dropped_while_waiting() {
    let mut s = session();
    act(&mut s, Action::NextHeading);
    assert!(!s.pills.push_transient(PillMessage::status("hello".to_string()), true));
    act(&mut s, Action::ToggleReadNotes);
    assert!(s.player.armed && s.settings.read_notes);
    act(&mut s, Action::Cancel);
    assert!(!s.player.armed);
    assert!(s.pills.effective(false).is_none());
}

#[test]
fn go_reads_the_waiting_step() {
    let mut s = session();
    act(&mut s, Action::NextHeading);
    let (_, cues) = act(&mut s, Action::Next);
    assert_eq!(place(&s), (0, 1, 1));
    assert_eq!(said(&cues), ["FCR, ON"]);
    assert!(!s.player.armed);
}

#[test]
fn asking_again_keeps_waiting() {
    let mut s = session();
    act(&mut s, Action::NextHeading);
    let (_, cues) = act(&mut s, Action::ReadSection);
    assert!(s.player.armed);
    assert_eq!(place(&s), (0, 1, 1));
    assert_eq!(said(&cues), ["Maverick"]);
}

#[test]
fn cancel_ends_the_waiting_in_silence() {
    let mut s = session();
    act(&mut s, Action::NextHeading);
    let (_, cues) = act(&mut s, Action::Cancel);
    assert!(!s.player.armed && said(&cues).is_empty());
    assert_eq!(place(&s), (0, 1, 1));
}

#[test]
fn nothing_advances_while_waiting() {
    let mut s = session();
    s.settings.auto_advance = true;
    act(&mut s, Action::NextHeading);
    let mut cues = Vec::new();
    s.post_speech_tick(&mut cues);
    assert!(said(&cues).is_empty());
    assert_eq!(place(&s), (0, 1, 1));
}

#[test]
fn reading_goes_on_by_itself_up_to_the_end() {
    let mut s = session();
    s.settings.auto_advance = true;
    act(&mut s, Action::ReadCurrent);
    for place_now in [(0, 0, 3), (0, 1, 1), (0, 1, 3), (0, 1, 3)] {
        s.post_speech_tick(&mut Vec::new());
        assert_eq!(place(&s), place_now);
    }
    assert!(!s.player.playing);
}

#[test]
fn restarting_a_section_reads_its_first_step() {
    let mut s = session();
    act(&mut s, Action::Next);
    let (_, cues) = act(&mut s, Action::RestartSection);
    assert_eq!(place(&s), (0, 0, 1));
    assert_eq!(said(&cues), ["Start. Battery. MAIN PWR, BATT"]);
}

#[test]
fn a_section_is_found_by_name_and_left_by_previous() {
    let mut s = session();
    let cues = ask(&mut s, QueryIntent::NavigateToSection("maverick".to_string()));
    assert!(s.player.armed);
    assert_eq!(place(&s), (0, 1, 1));
    assert_eq!(said(&cues), ["Maverick"]);
    act(&mut s, Action::Previous);
    assert_eq!(place(&s), (0, 0, 1));
    let cues = ask(&mut s, QueryIntent::NavigateToSection("xyzzy".to_string()));
    assert!(said(&cues).is_empty() && !s.player.armed);
}

#[test]
fn other_queries_end_the_waiting() {
    let mut s = session();
    act(&mut s, Action::NextHeading);
    let cues = ask(&mut s, QueryIntent::ListSections);
    assert!(!s.player.armed);
    assert_eq!(said(&cues), ["Sections: Battery; Maverick; Gun."]);
    ask(&mut s, QueryIntent::NavigateToPage(1));
    assert_eq!(place(&s), (0, 0, 1));
    ask(&mut s, QueryIntent::PickResult(3));
    assert_eq!(place(&s), (0, 0, 1));
}

#[test]
fn tabs_are_found_by_name() {
    let mut s = session();
    let cues = ask(&mut s, QueryIntent::NavigateToTab("charts".to_string()));
    assert_eq!(s.player.tabs.active, 1);
    assert!(cues.iter().any(|c| matches!(c, Cue::Switched)));
    let tabs = registry();
    let found = tabs.resolve_tab_query("Charts").unwrap();
    assert_eq!((found.target.tab_idx, found.label.as_str()), (1, "Charts"));
    assert_eq!(f64::from_bits(found.score << 29), 1.0);
    assert!(tabs.resolve_tab_query("  ").is_none());
    assert!(tabs.resolve_tab_query("xyzzy").is_none());
}

#[test]
fn cycling_back_undoes_cycling() {
    let mut s = session();
    assert_eq!(s.player.cycle_target(Direction::Backward), Some(1));
    let (_, cues) = act(&mut s, Action::CycleTabNext);
    assert!(cues.iter().any(|c| matches!(c, Cue::FlashTabs)));
    assert_eq!(s.player.tabs.active, 1);
    act(&mut s, Action::CycleTabPrev);
    assert_eq!(s.player.tabs.active, 0);
}

#[test]
fn show_undoes_hide() {
    let mut s = session();
    assert_eq!(act(&mut s, Action::ToggleVisibility).0, Chore::MoveWindow(-30000, -30000));
    assert_eq!(act(&mut s, Action::ToggleVisibility).0, Chore::MoveWindow(40, 50));
}

#[test]
fn cancel_closes_one_panel_at_a_time() {
    let mut s = session();
    act(&mut s, Action::OpenSettings);
    act(&mut s, Action::OpenVoiceCommands);
    act(&mut s, Action::Cancel);
    assert!(s.desk.settings_open && !s.desk.voice_commands_open);
    act(&mut s, Action::Cancel);
    assert!(!s.desk.settings_open);
    let (chore, cues) = act(&mut s, Action::Cancel);
    assert_eq!(chore, Chore::Nothing);
    assert!(matches!(cues[..], [Cue::Stop]));
}

#[test]
fn a_missing_microphone_is_told() {
    let mut s = session();
    let around = Surroundings { has_mic: false, ..AROUND };
    let chore = s.dispatch(Action::PushToTalk, around, &mut Vec::new());
    assert_eq!(chore, Chore::Record(MicStep::NoMicrophone));
    assert_eq!(s.pills.effective(false).unwrap().text, "No microphone — voice off");
}

#[test]
fn click_through_is_toggled_and_told() {
    let mut s = session();
    assert_eq!(act(&mut s, Action::ToggleClickThrough).0, Chore::ClickThrough(true));
    assert!(s.settings.click_through);
    assert_eq!(s.pills.effective(false).unwrap().text, "Click-through ON");
}

#[test]
fn presses_and_releases_become_steps() {
    let mut s = session();
    s.settings.bindings = Bindings::defaults();
    let key = |k: &str| Trigger::Keyboard { key: k.to_string(), mods: Mods::empty() };
    assert_eq!(
        s.handle_event(InputEvent::Press(key("Space"))),
        (EventStep::Dispatch(Action::Next), true)
    );
    s.capture = Some(Action::PushToTalk);
    assert_eq!(s.handle_event(InputEvent::Press(key("x"))), (EventStep::Save, true));
    act(&mut s, Action::PushToTalk);
    assert!(s.mic.hot);
    assert_eq!(s.handle_event(InputEvent::Release(key("x"))), (EventStep::Submit, true));
    assert!(!s.mic.hot);
    assert_eq!(s.handle_event(InputEvent::DevicesChanged), (EventStep::Refresh, false));
    s.test_mode = true;
    assert_eq!(
        s.handle_event(InputEvent::Press(key("Space"))),
        (EventStep::Flash(Action::Next), true)
    );
    assert_eq!(s.handle_event(InputEvent::Press(key("q"))), (EventStep::Nothing, false));
}

#[test]
fn transcripts_are_corrected_before_they_are_understood() {
    let mut stt = SttConfig::default();
    assert!(matches!(understand("  ", &stt), Heard::NoSpeech));
    match understand(" Next. ", &stt) {
        Heard::Action(a, label) => {
            assert_eq!(a, Action::Next);
            assert_eq!(label, format!("{} (Next.)", Action::Next.label()));
        }
        _ => panic!("no action"),
    }
    match understand("banana split", &stt) {
        Heard::Unmatched(t) => assert_eq!(t, "banana split"),
        _ => panic!("understood"),
    }
    let mut corrections = WordMap::new();
    corrections.insert("banana split", "next");
    stt.corrections = corrections;
    match understand("banana split", &stt) {
        Heard::Action(a, label) => {
            assert_eq!(a, Action::Next);
            assert_eq!(label, format!("{} (banana split)", Action::Next.label()));
        }
        _ => panic!("not corrected"),
    }
    match understand_as("as said", "page three", 0) {
        Heard::Query(_, label) => assert_eq!(label, "Go to page 3 (as said)"),
        _ => panic!("no query"),
    }
}

#[test]
fn queries_are_labelled() {
    let t = || "gun".to_string();
    assert_eq!(label_query(&QueryIntent::NavigateToPage(12)), "Go to page 12");
    assert_eq!(label_query(&QueryIntent::NavigateToSection(t())), "Find section \"gun\"");
    assert_eq!(label_query(&QueryIntent::NavigateToTab(t())), "Switch to tab \"gun\"");
    assert_eq!(label_query(&QueryIntent::ListSections), "List sections");
    assert_eq!(label_query(&QueryIntent::PickResult(2)), "Pick result 2");
}

#[test]
fn critical_messages_come_first() {
    let mut s = session();
    assert!(s.pills.push_transient(PillMessage::status("hello".to_string()), true));
    assert_eq!(s.pills.effective(true).unwrap().text, "hello");
    assert!(!s.pills.push_transient(PillMessage::status("unseen".to_string()), false));
    assert!(!s.pills.push_transient(PillMessage::status(String::new()), true));
    assert!(s.pills.show_critical("broken".to_string()));
    assert!(!s.pills.show_critical(String::new()));
    assert_eq!(s.pills.effective(true).unwrap().text, "broken");
    s.pills.expire_critical();
    assert_eq!(s.pills.effective(true).unwrap().text, "hello");
    s.pills.expire_transient();
    assert_eq!(s.pills.effective(true).unwrap().text, "Listening…");
    assert!(s.pills.effective(false).is_none());
}

#[test]
fn a_reload_keeps_the_item() {
    let mut tabs = registry();
    tabs.set_cursor(Cursor { page: 1, item: 3 });
    let tab = tabs.active_tab_mut().unwrap();
    let mark = tab.begin_reload();
    assert!(!tab.loaded && tab.pages.is_empty());
    tab.begin_load("F-16C_50", None);
    let mut pages = weapons();
    pages.swap(0, 1);
    pages[0].manifest.items.remove(0);
    tab.finish_load(Ok(pages));
    tab.restore(&mark);
    assert_eq!(tab.cursor, Cursor { page: 0, item: 2 });
    assert_eq!(tab.pages[0].manifest.items[2].text, "MASTER ARM ... ARM");
}

#[test]
fn a_load_error_is_shown() {
    let mut tabs = registry();
    assert!(!tabs.set_aircraft("F-16C_50"));
    assert!(tabs.set_aircraft("A-10C"));
    let tab = tabs.active_tab_mut().unwrap();
    assert!(tab.pages.is_empty() && !tab.loaded);
    assert_eq!(view_page(tab).text, "(Checklists is empty)");
    tab.begin_load("A-10C", None);
    tab.finish_load(Err("no such folder".to_string()));
    let view = view_page(tab);
    assert_eq!((view.title.as_str(), view.text.as_str()), ("Checklists", "no such folder"));
    assert!(tab.loaded);
}

#[test]
fn a_page_is_shown_with_its_place() {
    let tabs = registry();
    let view = view_page(tabs.active_tab().unwrap());
    assert_eq!(view.title, "Start · P1/2");
    assert_eq!(view.group, "Battery");
    assert_eq!(view.text, "MAIN PWR ... BATT");
    assert_eq!(view.counter, "2/4");
    assert_eq!((view.page, view.highlight), (Some(0), Some(1)));
    assert_eq!(word_count("MAIN PWR ... BATT"), 4);
}

#[test]
fn a_tab_without_pages_cannot_be_moved_through() {
    let mut s = session();
    s.player.tabs.set_aircraft("A-10C");
    assert!(!s.player.can_move());
    assert!(!s.player.can_act(Action::Next));
    assert!(s.player.can_act(Action::ReadCurrent));
    let (_, cues) = act(&mut s, Action::ReadCurrent);
    assert!(said(&cues).is_empty() && !s.player.playing);
}
