//! What is read aloud at a place in the pages, and what the panel shows there.

use vstd::prelude::*;

use crate::firsts::{find_firsts, first_positions, ints, law_firsts_are_new, opt_texts};
use crate::navigation::{
    clamp_cursor, clamped, find_heading_before, heading_before, heading_item, is_heading, is_note,
    is_step, items_of, note_item, step_item,
};
use crate::numbers::{decimal, push_decimal};
use crate::pages::{Cursor, Item, LoadedPage};
use crate::pronunciation::{spoken, spoken_for, PronunciationConfig};
use crate::tabs::Tab;
use crate::text::{join, joined, lowercase, opt_string, own, push_text, same, split_words, texts, words};

verus! {

// ---------------------------------------------------------------------------
// Items
// ---------------------------------------------------------------------------

/// What is said for an item.
pub open spec fn item_speech(item: Item, cfg: PronunciationConfig) -> Seq<char> {
    spoken(item.text@, opt_string(item.spoken), cfg)
}

pub fn speak_item(item: &Item, cfg: &PronunciationConfig) -> (r: String)
    ensures
        r@ == item_speech(*item, *cfg),
{
    match &item.spoken {
        Some(s) => spoken_for(item.text.as_str(), Some(s.as_str()), cfg),
        None => spoken_for(item.text.as_str(), None, cfg),
    }
}

/// A sentence of an announcement: the text and a full stop, or nothing.
pub open spec fn sentence(s: Seq<char>) -> Seq<char> {
    if s.len() > 0 {
        s + ". "@
    } else {
        s
    }
}

fn push_sentence(out: &mut String, s: &str)
    ensures
        final(out)@ == old(out)@ + sentence(s@),
{
    if s.unicode_len() > 0 {
        push_text(out, s);
        push_text(out, ". ");
        assert(out@ =~= old(out)@ + (s@ + ". "@));
    } else {
        assert(old(out)@ + s@ =~= old(out)@);
    }
}

/// The notes that stand in a row from `i` on, each after a full stop.
pub open spec fn notes_from(items: Seq<Item>, i: int, cfg: PronunciationConfig) -> Seq<char>
    decreases items.len() - i,
{
    if 0 <= i < items.len() && note_item(items[i]) {
        ". "@ + item_speech(items[i], cfg) + notes_from(items, i + 1, cfg)
    } else {
        Seq::empty()
    }
}

fn push_notes(out: &mut String, items: &Vec<Item>, from: usize, cfg: &PronunciationConfig)
    ensures
        final(out)@ == old(out)@ + notes_from(items@, from as int, *cfg),
{
    let mut i: usize = from;
    while i < items.len() && is_note(&items[i])
        invariant
            out@ + notes_from(items@, i as int, *cfg) == old(out)@ + notes_from(
                items@,
                from as int,
                *cfg,
            ),
        decreases items.len() - i,
    {
        let ghost before = out@;
        let ghost rest = notes_from(items@, i as int, *cfg);
        let note = speak_item(&items[i], cfg);
        push_text(out, ". ");
        push_text(out, note.as_str());
        i += 1;
        assert(out@ + notes_from(items@, i as int, *cfg) =~= before + rest);
    }
    assert(out@ =~= out@ + notes_from(items@, i as int, *cfg));
}

/// The announcement of a page: its title and the heading that the item is under.
pub open spec fn announcement(page: LoadedPage, item: int, cfg: PronunciationConfig) -> Seq<char> {
    let items = page.manifest.items@;
    sentence(spoken(page.manifest.title@, None, cfg)) + match heading_before(items, item + 1) {
        Some(h) => sentence(item_speech(items[h], cfg)),
        None => Seq::empty(),
    }
}

/// What is read for an item of a page: the announcement where it is asked for,
/// the item, and the notes that follow a step where those are read too.
pub open spec fn item_reading(
    page: LoadedPage,
    item: int,
    header: bool,
    notes: bool,
    cfg: PronunciationConfig,
) -> Seq<char> {
    let items = page.manifest.items@;
    let before = if header {
        announcement(page, item, cfg)
    } else {
        Seq::empty()
    };
    let after = if notes && step_item(items[item]) {
        notes_from(items, item + 1, cfg)
    } else {
        Seq::empty()
    };
    before + item_speech(items[item], cfg) + after
}

/// There is an item to read at the place nearest to the cursor.
pub open spec fn readable(pages: Seq<LoadedPage>, cur: Cursor) -> bool {
    pages.len() > 0 && items_of(
        pages,
        clamped(pages, cur.page as int, cur.item as int).page as int,
    ).len() > 0
}

/// What is read at the cursor, or at the nearest place there is.
pub open spec fn reading(
    pages: Seq<LoadedPage>,
    cur: Cursor,
    header: bool,
    notes: bool,
    cfg: PronunciationConfig,
) -> Option<Seq<char>> {
    if readable(pages, cur) {
        let c = clamped(pages, cur.page as int, cur.item as int);
        Some(item_reading(pages[c.page as int], c.item as int, header, notes, cfg))
    } else {
        None
    }
}

/// What to read at the cursor. `None` where there is no item.
pub fn compose_reading(
    pages: &Vec<LoadedPage>,
    cur: Cursor,
    header: bool,
    notes: bool,
    cfg: &PronunciationConfig,
) -> (r: Option<String>)
    ensures
        match r {
            Some(t) => reading(pages@, cur, header, notes, *cfg) == Some(t@),
            None => reading(pages@, cur, header, notes, *cfg) is None,
        },
{
    if pages.len() == 0 {
        return None;
    }
    let c = clamp_cursor(pages.as_slice(), cur.page, cur.item);
    let page = &pages[c.page];
    let items = &page.manifest.items;
    if items.len() == 0 {
        return None;
    }
    let mut out = String::new();
    if header {
        let title = spoken_for(page.manifest.title.as_str(), None, cfg);
        push_sentence(&mut out, title.as_str());
        if let Some(h) = find_heading_before(items.as_slice(), c.item + 1) {
            let heading = speak_item(&items[h], cfg);
            push_sentence(&mut out, heading.as_str());
        }
        assert(out@ =~= announcement(*page, c.item as int, *cfg));
    }
    let ghost before = out@;
    let own_text = speak_item(&items[c.item], cfg);
    push_text(&mut out, own_text.as_str());
    if notes && is_step(&items[c.item]) {
        push_notes(&mut out, items, c.item + 1, cfg);
    }
    assert(out@ =~= item_reading(*page, c.item as int, header, notes, *cfg));
    Some(out)
}

// ---------------------------------------------------------------------------
// Sections
// ---------------------------------------------------------------------------

/// What names the section at an item of a page: its heading, or the title of
/// the page where no heading comes before.
pub open spec fn section_name(
    page: LoadedPage,
    heading: Option<int>,
    cfg: PronunciationConfig,
) -> Seq<char> {
    match heading {
        Some(h) => item_speech(page.manifest.items@[h], cfg),
        None => spoken(page.manifest.title@, None, cfg),
    }
}

pub fn name_section(page: &LoadedPage, heading: Option<usize>, cfg: &PronunciationConfig) -> (r:
    String)
    requires
        heading matches Some(h) ==> h < page.manifest.items@.len(),
    ensures
        r@ == section_name(
            *page,
            match heading {
                Some(h) => Some(h as int),
                None => None,
            },
            *cfg,
        ),
{
    match heading {
        Some(h) => speak_item(&page.manifest.items[h], cfg),
        None => spoken_for(page.manifest.title.as_str(), None, cfg),
    }
}

/// The section that the cursor is in, as it is said.
pub open spec fn section_reading(
    pages: Seq<LoadedPage>,
    cur: Cursor,
    cfg: PronunciationConfig,
) -> Option<Seq<char>> {
    if readable(pages, cur) {
        let c = clamped(pages, cur.page as int, cur.item as int);
        let name = section_name(
            pages[c.page as int],
            heading_before(items_of(pages, c.page as int), c.item + 1),
            cfg,
        );
        if name.len() > 0 {
            Some(name)
        } else {
            None
        }
    } else {
        None
    }
}

/// Which section the cursor is in, as it is said. `None` where there is nothing
/// to say.
pub fn compose_section(pages: &Vec<LoadedPage>, cur: Cursor, cfg: &PronunciationConfig) -> (r:
    Option<String>)
    ensures
        match r {
            Some(t) => section_reading(pages@, cur, *cfg) == Some(t@),
            None => section_reading(pages@, cur, *cfg) is None,
        },
{
    if pages.len() == 0 {
        return None;
    }
    let c = clamp_cursor(pages.as_slice(), cur.page, cur.item);
    let page = &pages[c.page];
    if page.manifest.items.len() == 0 {
        return None;
    }
    let heading = find_heading_before(page.manifest.items.as_slice(), c.item + 1);
    let text = name_section(page, heading, cfg);
    if text.as_str().unicode_len() == 0 {
        return None;
    }
    Some(text)
}

/// The item is the header of a section.
pub open spec fn section_header(item: Item) -> bool {
    item.kind@ == "section-header"@
}

/// The items of all pages, in their order.
pub open spec fn all_items(pages: Seq<LoadedPage>) -> Seq<Item>
    decreases pages.len(),
{
    if pages.len() == 0 {
        Seq::empty()
    } else {
        all_items(pages.drop_last()) + pages.last().manifest.items@
    }
}

/// Which items are headers of sections.
pub open spec fn header_marks(items: Seq<Item>) -> Seq<bool> {
    Seq::new(items.len(), |i: int| section_header(items[i]))
}

/// What a header is known by: its text in lower case.
pub open spec fn header_key(item: Item) -> Option<Seq<char>> {
    if section_header(item) {
        Some(lowercase(item.text@))
    } else {
        None
    }
}

pub open spec fn header_keys(items: Seq<Item>) -> Seq<Option<Seq<char>>> {
    Seq::new(items.len(), |i: int| header_key(items[i]))
}

/// The headers of which the text did not occur before, letter case aside.
pub open spec fn distinct_headers(items: Seq<Item>) -> Seq<int> {
    first_positions(header_marks(items), header_keys(items), items.len() as int)
}

/// The list of the sections of a tab, as it is said.
pub open spec fn section_list(pages: Seq<LoadedPage>, cfg: PronunciationConfig) -> Option<
    Seq<char>,
> {
    let items = all_items(pages);
    let found = distinct_headers(items);
    let parts = Seq::new(found.len(), |k: int| item_speech(items[found[k]], cfg));
    if parts.len() == 0 {
        None
    } else {
        Some("Sections: "@ + join(parts, "; "@) + "."@)
    }
}

/// The items that a list of references refers to.
pub open spec fn referred(v: Seq<&Item>) -> Seq<Item> {
    Seq::new(v.len(), |i: int| *v[i])
}

fn collect_items(pages: &Vec<LoadedPage>) -> (r: Vec<&Item>)
    ensures
        referred(r@) == all_items(pages@),
{
    let mut r: Vec<&Item> = Vec::new();
    let mut p: usize = 0;
    assert(pages@.take(0) =~= Seq::empty());
    assert(referred(r@) =~= Seq::empty());
    while p < pages.len()
        invariant
            p <= pages.len(),
            referred(r@) == all_items(pages@.take(p as int)),
        decreases pages.len() - p,
    {
        assert(pages@.take(p + 1).drop_last() =~= pages@.take(p as int));
        let items = &pages[p].manifest.items;
        let ghost done = referred(r@);
        let mut i: usize = 0;
        assert(done + items@.take(0) =~= done);
        while i < items.len()
            invariant
                i <= items.len(),
                referred(r@) == done + items@.take(i as int),
            decreases items.len() - i,
        {
            let ghost before = referred(r@);
            r.push(&items[i]);
            i += 1;
            assert(referred(r@) =~= before.push(items@[i - 1]));
            assert(before.push(items@[i - 1]) =~= done + items@.take(i as int));
        }
        assert(items@.take(i as int) =~= items@);
        p += 1;
    }
    assert(pages@.take(p as int) =~= pages@);
    r
}

fn find_headers(items: &Vec<&Item>) -> (r: Vec<usize>)
    ensures
        ints(r@) == distinct_headers(referred(items@)),
{
    let ghost all = referred(items@);
    let mut wanted: Vec<bool> = Vec::new();
    let mut keys: Vec<Option<String>> = Vec::new();
    let mut i: usize = 0;
    while i < items.len()
        invariant
            i <= items.len(),
            all == referred(items@),
            wanted.len() == i,
            keys.len() == i,
            forall|k: int| 0 <= k < i ==> #[trigger] wanted@[k] == section_header(all[k]),
            forall|k: int| 0 <= k < i ==> opt_texts(keys@)[k] == header_key(#[trigger] all[k]),
        decreases items.len() - i,
    {
        let item = items[i];
        assert(all[i as int] == *item);
        let ghost before = opt_texts(keys@);
        let header = same(item.kind.as_str(), "section-header");
        let key = if header {
            Some(item.text.as_str().to_lowercase())
        } else {
            None
        };
        wanted.push(header);
        keys.push(key);
        assert(opt_texts(keys@) =~= before.push(header_key(all[i as int])));
        i += 1;
    }
    assert(wanted@ =~= header_marks(all));
    assert(opt_texts(keys@) =~= header_keys(all));
    find_firsts(&wanted, &keys)
}

/// The list of the sections of a tab, as it is said. `None` where there are
/// none.
pub fn compose_section_list(pages: &Vec<LoadedPage>, cfg: &PronunciationConfig) -> (r: Option<
    String,
>)
    ensures
        match r {
            Some(t) => section_list(pages@, *cfg) == Some(t@),
            None => section_list(pages@, *cfg) is None,
        },
{
    let items = collect_items(pages);
    let ghost all = referred(items@);
    let found = find_headers(&items);
    let ghost places = distinct_headers(all);
    let ghost wanted = Seq::new(places.len(), |k: int| item_speech(all[places[k]], *cfg));
    proof {
        law_firsts_are_new(header_marks(all), header_keys(all), all.len() as int);
        assert(ints(found@).len() == found.len());
    }
    let mut parts: Vec<String> = Vec::new();
    let mut k: usize = 0;
    assert(texts(parts@) =~= wanted.take(0));
    while k < found.len()
        invariant
            k <= found.len(),
            all == referred(items@),
            ints(found@) == places,
            found.len() == places.len(),
            forall|x: int| 0 <= x < places.len() ==> 0 <= #[trigger] places[x] < all.len(),
            wanted == Seq::new(places.len(), |x: int| item_speech(all[places[x]], *cfg)),
            texts(parts@) == wanted.take(k as int),
        decreases found.len() - k,
    {
        assert(ints(found@)[k as int] == places[k as int]);
        let ghost before = texts(parts@);
        let item = items[found[k]];
        assert(all[places[k as int]] == *item);
        parts.push(speak_item(item, cfg));
        k += 1;
        assert(texts(parts@) =~= before.push(wanted[k - 1]));
        assert(wanted.take(k as int) =~= before.push(wanted[k - 1]));
    }
    assert(wanted.take(k as int) =~= wanted);
    if parts.len() == 0 {
        assert(wanted.len() == 0);
        return None;
    }
    assert(wanted.len() > 0);
    let mut out = own("Sections: ");
    push_text(&mut out, joined(&parts, "; ").as_str());
    push_text(&mut out, ".");
    Some(out)
}

/// How many words a text has, counted as one where it has none: the measure of
/// how long it takes to say.
pub fn word_count(text: &str) -> (r: usize)
    ensures
        r == (if words(text@).len() == 0 {
            1
        } else {
            words(text@).len()
        }),
{
    let ws = split_words(text);
    assert(texts(ws@).len() == ws.len());
    if ws.len() == 0 {
        1
    } else {
        ws.len()
    }
}

// ---------------------------------------------------------------------------
// The panel
// ---------------------------------------------------------------------------

/// What the panel shows.
#[derive(Debug)]
pub struct PageView {
    pub title: String,
    pub group: String,
    pub text: String,
    pub counter: String,
    /// The page whose image is shown.
    pub page: Option<usize>,
    /// The item that is highlighted.
    pub highlight: Option<usize>,
}

/// "n/m".
pub open spec fn ratio(n: nat, m: nat) -> Seq<char> {
    decimal(n) + "/"@ + decimal(m)
}

/// The view of a tab without pages: its label, and why it is empty.
pub open spec fn is_empty_view(v: PageView, tab: Tab) -> bool {
    &&& v.title@ == tab.label@
    &&& v.group@.len() == 0
    &&& v.text@ == match tab.load_error {
        Some(e) => e@,
        None => "("@ + tab.label@ + " is empty)"@,
    }
    &&& v.counter@.len() == 0
    &&& v.page is None
    &&& v.highlight is None
}

/// The view of the place in a tab's pages that is nearest to its cursor.
pub open spec fn is_page_view(v: PageView, tab: Tab) -> bool {
    let pages = tab.pages@;
    let c = clamped(pages, tab.cursor.page as int, tab.cursor.item as int);
    let page = pages[c.page as int].manifest;
    let items = page.items@;
    &&& v.page == Some(c.page)
    &&& v.title@ == page.title@ + " · P"@ + ratio((c.page + 1) as nat, pages.len())
    &&& v.counter@ == ratio((c.item + 1) as nat, items.len())
    &&& items.len() == 0 ==> v.group@.len() == 0 && v.text@.len() == 0 && v.highlight is None
    &&& items.len() > 0 ==> {
        let item = items[c.item as int];
        &&& v.group@ == item.group@
        &&& v.text@ == item.text@
        &&& v.highlight == (if step_item(item) || heading_item(item) || note_item(item) {
            Some(c.item)
        } else {
            None
        })
    }
}

fn push_ratio(out: &mut String, n: u64, m: u64)
    ensures
        final(out)@ == old(out)@ + ratio(n as nat, m as nat),
{
    push_decimal(out, n);
    push_text(out, "/");
    push_decimal(out, m);
    assert(out@ =~= old(out)@ + ratio(n as nat, m as nat));
}

/// What the panel shows for a tab.
pub fn view_page(tab: &Tab) -> (v: PageView)
    ensures
        tab.pages@.len() == 0 ==> is_empty_view(v, *tab),
        tab.pages@.len() > 0 ==> is_page_view(v, *tab),
{
    if tab.pages.len() == 0 {
        let text = match &tab.load_error {
            Some(e) => own(e.as_str()),
            None => {
                let mut t = own("(");
                push_text(&mut t, tab.label.as_str());
                push_text(&mut t, " is empty)");
                t
            },
        };
        return PageView {
            title: own(tab.label.as_str()),
            group: String::new(),
            text,
            counter: String::new(),
            page: None,
            highlight: None,
        };
    }
    let c = clamp_cursor(tab.pages.as_slice(), tab.cursor.page, tab.cursor.item);
    let page = &tab.pages[c.page].manifest;
    let mut title = own(page.title.as_str());
    push_text(&mut title, " · P");
    push_ratio(&mut title, c.page as u64 + 1, tab.pages.len() as u64);
    let mut counter = String::new();
    let count: usize = page.items.len();
    assert(c.item == 0 || c.item < count);
    push_ratio(&mut counter, c.item as u64 + 1, count as u64);
    assert(counter@ =~= ratio((c.item + 1) as nat, page.items@.len()));
    if page.items.len() == 0 {
        return PageView {
            title,
            group: String::new(),
            text: String::new(),
            counter,
            page: Some(c.page),
            highlight: None,
        };
    }
    let item = &page.items[c.item];
    let marked = is_step(item) || is_heading(item) || is_note(item);
    PageView {
        title,
        group: own(item.group.as_str()),
        text: own(item.text.as_str()),
        counter,
        page: Some(c.page),
        highlight: if marked {
            Some(c.item)
        } else {
            None
        },
    }
}

/// No section is listed twice, letter case aside.
pub proof fn law_no_section_is_listed_twice(items: Seq<Item>, k: int, l: int)
    requires
        0 <= k < l < distinct_headers(items).len(),
    ensures
        lowercase(items[distinct_headers(items)[k]].text@) != lowercase(
            items[distinct_headers(items)[l]].text@,
        ),
{
    let keys = header_keys(items);
    law_firsts_are_new(header_marks(items), keys, items.len() as int);
    let i = distinct_headers(items)[k];
    let j = distinct_headers(items)[l];
    assert(header_marks(items)[i] && header_marks(items)[j]);
    assert(!crate::firsts::repeats(keys, j));
    assert(keys[i] == Some(lowercase(items[i].text@)));
    assert(keys[j] == Some(lowercase(items[j].text@)));
}

/// The panel shows the item at the cursor, under the title of its page, and
/// counts pages and items from one. Steps, headings and notes are highlighted.
pub proof fn law_the_panel_shows_the_item(v: PageView, tab: Tab)
    requires
        is_page_view(v, tab),
        tab.cursor.page < tab.pages@.len(),
        tab.cursor.item < tab.pages@[tab.cursor.page as int].manifest.items@.len(),
    ensures
        ({
            let page = tab.pages@[tab.cursor.page as int].manifest;
            let item = page.items@[tab.cursor.item as int];
            &&& v.text@ == item.text@
            &&& v.group@ == item.group@
            &&& v.title@ == page.title@ + " · P"@ + (decimal((tab.cursor.page + 1) as nat) + "/"@
                + decimal(tab.pages@.len()))
            &&& v.counter@ == decimal((tab.cursor.item + 1) as nat) + "/"@ + decimal(
                page.items@.len(),
            )
            &&& v.page == Some(tab.cursor.page)
            &&& item.kind@ == "step"@ || item.kind@ == "section-header"@ || item.kind@
                == "note-warning"@ ==> v.highlight == Some(tab.cursor.item)
            &&& item.kind@ == "image"@ ==> v.highlight is None
        }),
{
    reveal_strlit("image");
    reveal_strlit("step");
    reveal_strlit("section-header");
    reveal_strlit("branch-header");
    reveal_strlit("notes-heading");
    reveal_strlit("note-info");
    reveal_strlit("note-check");
    reveal_strlit("note-optional");
    reveal_strlit("note-caution");
    reveal_strlit("note-warning");
    reveal_strlit("note-radio");
    assert("image"@.len() == 5 && "step"@.len() == 4);
    assert("section-header"@.len() == 14 && "branch-header"@.len() == 13 && "notes-heading"@.len()
        == 13);
    assert("note-info"@.len() == 9 && "note-check"@.len() == 10 && "note-optional"@.len() == 13
        && "note-caution"@.len() == 12 && "note-warning"@.len() == 12 && "note-radio"@.len() == 10);
}

/// A tab without pages shows its label and why it has none.
pub proof fn law_an_empty_tab_says_why(v: PageView, tab: Tab)
    requires
        is_empty_view(v, tab),
    ensures
        v.title@ == tab.label@,
        tab.load_error matches Some(e) ==> v.text@ == e@,
        tab.load_error is None ==> v.text@ == "("@ + tab.label@ + " is empty)"@,
        v.page is None && v.highlight is None && v.counter@.len() == 0,
{
}

} // verus!
