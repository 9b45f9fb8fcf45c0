use dcs_kneeboard::navigation::{
    clamp_cursor, find_section_start, jump_page, page_cursor, place_armed_cursor, step_cursor,
    step_to_heading, Direction,
};
use dcs_kneeboard::pages::{Cursor, Item, LoadedPage, PageManifest};

fn item(kind: &str, text: &str, navigable: bool) -> Item {
    Item {
        idx: 0,
        group: String::new(),
        kind: kind.to_string(),
        text: text.to_string(),
        spoken: None,
        navigable,
        bbox: [0; 4],
    }
}

fn heading(text: &str) -> Item {
    item("section-header", text, false)
}

fn step(text: &str) -> Item {
    item("step", text, true)
}

fn note(text: &str) -> Item {
    item("note-info", text, false)
}

fn page(items: Vec<Item>) -> LoadedPage {
    let manifest = PageManifest {
        schema_version: "1".to_string(),
        title: "Page".to_string(),
        image: "page.png".to_string(),
        image_size: [600, 900],
        items,
    };
    LoadedPage::new(manifest, "page.png".to_string())
}

fn at(page: usize, item: usize) -> Cursor {
    Cursor { page, item }
}

#[test]
fn lands_on_first_nav_after_heading_when_starting_on_heading() {
    let items = vec![
        step("step before"),
        heading("Maverick"),
        step("FCR ON"),
        step("AGM ON"),
    ];
    let (cursor, heading_idx) = place_armed_cursor(&items, 1);
    assert_eq!(cursor, 2, "cursor should advance to first navigable step");
    assert_eq!(heading_idx, Some(1), "header spoken should be the heading we landed on");
}

#[test]
fn lands_on_next_nav_when_starting_on_non_navigable_note() {
    let items = vec![heading("Maverick"), note("Optional warning"), step("FCR ON")];
    let (cursor, heading_idx) = place_armed_cursor(&items, 1);
    // A note is no heading, so the cursor waits at it.
    assert_eq!(cursor, 1);
    assert_eq!(heading_idx, Some(0));
}

#[test]
fn section_with_only_one_step() {
    let items = vec![heading("Bingo"), step("RTB")];
    let (cursor, heading_idx) = place_armed_cursor(&items, 0);
    assert_eq!(cursor, 1);
    assert_eq!(heading_idx, Some(0));
}

#[test]
fn heading_with_no_following_navigable_falls_back() {
    let items = vec![heading("Notes"), note("Just info"), note("More info")];
    let (cursor, heading_idx) = place_armed_cursor(&items, 0);
    assert_eq!(cursor, 0, "no navigable item after heading — stay put");
    assert_eq!(heading_idx, Some(0));
}

#[test]
fn cursor_already_inside_section() {
    let items = vec![heading("Maverick"), step("FCR ON"), step("AGM ON"), step("UNCAGE")];
    let (cursor, heading_idx) = place_armed_cursor(&items, 2);
    assert_eq!(cursor, 2);
    assert_eq!(heading_idx, Some(0));
}

#[test]
fn no_heading_on_page() {
    let items = vec![step("free-floating step"), step("another")];
    let (cursor, heading_idx) = place_armed_cursor(&items, 1);
    assert_eq!(cursor, 1);
    assert_eq!(heading_idx, None);
}

#[test]
fn empty_items_does_not_panic() {
    let items: Vec<Item> = vec![];
    let (cursor, heading_idx) = place_armed_cursor(&items, 0);
    assert_eq!(cursor, 0);
    assert_eq!(heading_idx, None);
}

fn two_pages() -> Vec<LoadedPage> {
    vec![
        page(vec![heading("A"), step("a"), note("n"), step("b")]),
        page(vec![heading("B"), step("c")]),
    ]
}

#[test]
fn stepping_skips_what_is_not_navigable() {
    let pages = two_pages();
    assert_eq!(step_cursor(&pages, at(0, 1), Direction::Forward), at(0, 3));
    assert_eq!(step_cursor(&pages, at(0, 3), Direction::Forward), at(1, 1));
    assert_eq!(step_cursor(&pages, at(1, 1), Direction::Backward), at(0, 3));
    assert_eq!(step_cursor(&pages, at(0, 3), Direction::Backward), at(0, 1));
}

#[test]
fn stepping_passes_over_pages_without_stops() {
    let pages = vec![
        page(vec![step("a")]),
        page(vec![heading("B")]),
        page(vec![]),
        page(vec![heading("C"), step("c")]),
        page(vec![note("n")]),
    ];
    assert_eq!(step_cursor(&pages, at(0, 0), Direction::Forward), at(3, 1));
    assert_eq!(step_cursor(&pages, at(3, 1), Direction::Backward), at(0, 0));
    assert_eq!(step_cursor(&pages, at(3, 1), Direction::Forward), at(3, 1));
    assert_eq!(step_cursor(&pages, at(1, 0), Direction::Forward), at(3, 1));
}

#[test]
fn steps_undo_each_other() {
    let pages = two_pages();
    for (a, b) in [(at(0, 1), at(0, 3)), (at(0, 3), at(1, 1))] {
        assert_eq!(step_cursor(&pages, a, Direction::Forward), b);
        assert_eq!(step_cursor(&pages, b, Direction::Backward), a);
    }
}

#[test]
fn stepping_stays_at_both_ends() {
    let pages = two_pages();
    assert_eq!(step_cursor(&pages, at(1, 1), Direction::Forward), at(1, 1));
    assert_eq!(step_cursor(&pages, at(0, 1), Direction::Backward), at(0, 1));
}

#[test]
fn headings_are_found_across_pages() {
    let pages = two_pages();
    assert_eq!(step_to_heading(&pages, at(0, 1), Direction::Forward), at(1, 0));
    assert_eq!(step_to_heading(&pages, at(1, 0), Direction::Backward), at(0, 0));
}

#[test]
fn page_numbers_count_from_one() {
    let pages = two_pages();
    assert_eq!(page_cursor(&pages, 2), at(1, 1));
    assert_eq!(page_cursor(&pages, 1), at(0, 1));
    assert_eq!(page_cursor(&pages, 99), at(1, 1));
}

#[test]
fn page_jumps_land_on_the_first_navigable_item() {
    let pages = two_pages();
    assert_eq!(jump_page(&pages, at(0, 3), Direction::Forward), at(1, 1));
    assert_eq!(jump_page(&pages, at(1, 1), Direction::Backward), at(0, 1));
}

#[test]
fn clamping_brings_a_place_back_inside() {
    let pages = two_pages();
    assert_eq!(clamp_cursor(&pages, 1, 1), at(1, 1));
    assert_eq!(clamp_cursor(&pages, 7, 9), at(1, 1));
    assert_eq!(clamp_cursor(&pages, 0, 9), at(0, 3));
}

#[test]
fn a_section_starts_after_its_heading() {
    let items = vec![heading("A"), note("n"), step("a"), step("b")];
    assert_eq!(find_section_start(&items, 3), 2);
    let free = vec![note("n"), step("a"), step("b")];
    assert_eq!(find_section_start(&free, 2), 0);
}
