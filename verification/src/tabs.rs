//! Tabs, each with the pages of one kind of content, and the registry of all
//! tabs.
//!
//! A tab loads its pages when it is first shown. Reading them from disk is the
//! application's part: it asks for what to read, and hands in the outcome.

use vstd::prelude::*;

use crate::config::{resolve_aircraft, AircraftEntry, AppConfig, SourceConfig, TabConfig};
use crate::navigation::{inside, items_of};
use crate::pages::{
    first_navigable, first_stop, lemma_navigable_from, Cursor, Item, LoadedPage,
};
use crate::section_search::{
    all_entries, choose_match, entry_hits, hits, is_choice, is_evidence, match_text,
    resolve_section_in_pages, section_evidence, slice_items, Candidate, Evidence, NavMatch,
    NavTarget, MATCH_THRESHOLD,
};
use crate::rank::{ahead, best, law_ranking_exists, lemma_reaching, ranking};
use crate::similarity::{
    law_full_key, rounded, similarity, similarity_bits, single_key, FULL_KEY,
};
use crate::text::{lowercase, opt_string, own, push_text, replace, same, trim, trimmed};

verus! {

#[derive(Debug, Clone, Copy, PartialEq, Eq, Structural)]
pub enum TabKind {
    /// Pages with items: step by step navigation and reading.
    Generator,
    /// Images alone: each is one page with one item.
    ImageFolder,
}

#[derive(Debug)]
pub struct Tab {
    pub id: String,
    pub label: String,
    pub icon: String,
    pub kind: TabKind,
    /// Where the content was found. `None` until the first load.
    pub source_path: Option<String>,
    pub source: SourceConfig,
    pub pages: Vec<LoadedPage>,
    pub cursor: Cursor,
    pub loaded: bool,
    pub load_error: Option<String>,
}

/// What to read for a tab.
#[derive(Debug)]
pub struct LoadRequest {
    pub path: String,
    /// Images alone, without descriptions.
    pub images: bool,
    pub recursive: bool,
}

/// The tab has no pages, or its cursor is at a place in them.
pub open spec fn tab_ok(tab: Tab) -> bool {
    tab.pages@.len() == 0 || inside(tab.pages@, tab.cursor)
}

/// The path that a tab's content is read from, given the kneeboard folder of
/// the simulator.
pub open spec fn source_of(
    source: SourceConfig,
    aircraft: Seq<char>,
    kneeboards: Option<Seq<char>>,
) -> Option<Seq<char>> {
    match source {
        SourceConfig::Generator { path } => Some(replace(path@, "{aircraft}"@, aircraft)),
        SourceConfig::ImageFolder { path, .. } => Some(replace(path@, "{aircraft}"@, aircraft)),
        SourceConfig::DcsKneeboards { .. } => kneeboards,
    }
}

/// What a tab of the source asks to read.
pub open spec fn is_request(r: LoadRequest, source: SourceConfig, path: Seq<char>) -> bool {
    &&& r.path@ == path
    &&& r.images == !(source is Generator)
    &&& r.recursive == (source matches SourceConfig::ImageFolder { recursive, .. } && recursive)
}

/// What identifies a place across a reload: the title of its page and the
/// number of its item.
#[derive(Debug)]
pub struct Bookmark {
    pub title: Option<String>,
    pub idx: Option<u32>,
}

/// The first page with the title.
pub open spec fn page_titled(pages: Seq<LoadedPage>, title: Seq<char>) -> Option<int>
    decreases pages.len(),
{
    if pages.len() == 0 {
        None
    } else {
        match page_titled(pages.drop_last(), title) {
            Some(p) => Some(p),
            None => if pages.last().manifest.title@ == title {
                Some(pages.len() - 1)
            } else {
                None
            },
        }
    }
}

/// The first item with the number.
pub open spec fn item_numbered(items: Seq<Item>, idx: u32) -> Option<int>
    decreases items.len(),
{
    if items.len() == 0 {
        None
    } else {
        match item_numbered(items.drop_last(), idx) {
            Some(i) => Some(i),
            None => if items.last().idx == idx {
                Some(items.len() - 1)
            } else {
                None
            },
        }
    }
}

/// Where the cursor goes after a reload: to the item with the number on the
/// page with the title; to the start of that page where the item is gone; it
/// stays where it is where the page is gone.
pub open spec fn restored(
    pages: Seq<LoadedPage>,
    title: Option<Seq<char>>,
    idx: Option<u32>,
    otherwise: Cursor,
) -> Cursor {
    match title {
        None => otherwise,
        Some(t) => match page_titled(pages, t) {
            None => otherwise,
            Some(p) => {
                let items = items_of(pages, p);
                let item = match idx {
                    Some(n) => match item_numbered(items, n) {
                        Some(i) => i,
                        None => first_stop(items),
                    },
                    None => first_stop(items),
                };
                Cursor { page: p as usize, item: item as usize }
            },
        },
    }
}

fn find_page(pages: &Vec<LoadedPage>, title: &str) -> (r: Option<usize>)
    ensures
        match r {
            Some(p) => page_titled(pages@, title@) == Some(p as int) && p < pages.len()
                && pages@[p as int].manifest.title@ == title@,
            None => page_titled(pages@, title@) is None,
        },
{
    let mut p: usize = 0;
    assert(pages@.take(0) =~= Seq::empty());
    while p < pages.len()
        invariant
            p <= pages.len(),
            page_titled(pages@.take(p as int), title@) is None,
        decreases pages.len() - p,
    {
        assert(pages@.take(p + 1).drop_last() =~= pages@.take(p as int));
        if same(pages[p].manifest.title.as_str(), title) {
            proof {
                lemma_page_titled_prefix(pages@, title@, p + 1);
            }
            return Some(p);
        }
        p += 1;
    }
    assert(pages@.take(p as int) =~= pages@);
    None
}

proof fn lemma_page_titled_prefix(pages: Seq<LoadedPage>, title: Seq<char>, n: int)
    requires
        0 <= n <= pages.len(),
        page_titled(pages.take(n), title) is Some,
    ensures
        page_titled(pages, title) == page_titled(pages.take(n), title),
    decreases pages.len() - n,
{
    if n < pages.len() {
        assert(pages.take(n + 1).drop_last() =~= pages.take(n));
        lemma_page_titled_prefix(pages, title, n + 1);
    } else {
        assert(pages.take(n) =~= pages);
    }
}

fn find_item(items: &Vec<Item>, idx: u32) -> (r: Option<usize>)
    ensures
        match r {
            Some(i) => item_numbered(items@, idx) == Some(i as int) && i < items.len()
                && items@[i as int].idx == idx,
            None => item_numbered(items@, idx) is None,
        },
{
    let mut i: usize = 0;
    assert(items@.take(0) =~= Seq::empty());
    while i < items.len()
        invariant
            i <= items.len(),
            item_numbered(items@.take(i as int), idx) is None,
        decreases items.len() - i,
    {
        assert(items@.take(i + 1).drop_last() =~= items@.take(i as int));
        if items[i].idx == idx {
            proof {
                lemma_item_numbered_prefix(items@, idx, i + 1);
            }
            return Some(i);
        }
        i += 1;
    }
    assert(items@.take(i as int) =~= items@);
    None
}

proof fn lemma_item_numbered_prefix(items: Seq<Item>, idx: u32, n: int)
    requires
        0 <= n <= items.len(),
        item_numbered(items.take(n), idx) is Some,
    ensures
        item_numbered(items, idx) == item_numbered(items.take(n), idx),
    decreases items.len() - n,
{
    if n < items.len() {
        assert(items.take(n + 1).drop_last() =~= items.take(n));
        lemma_item_numbered_prefix(items, idx, n + 1);
    } else {
        assert(items.take(n) =~= items);
    }
}

/// The place at which a freshly loaded tab starts.
pub open spec fn start_of(pages: Seq<LoadedPage>) -> Cursor {
    Cursor {
        page: 0,
        item: if pages.len() > 0 {
            first_stop(items_of(pages, 0)) as usize
        } else {
            0
        },
    }
}

impl Tab {
    pub fn from_config(cfg: TabConfig) -> (r: Tab)
        ensures
            r.id == cfg.id,
            r.label == cfg.label,
            r.icon == cfg.icon,
            r.kind == (if cfg.source is Generator {
                TabKind::Generator
            } else {
                TabKind::ImageFolder
            }),
            r.source == cfg.source,
            r.source_path is None,
            r.pages@.len() == 0,
            r.cursor == (Cursor { page: 0, item: 0 }),
            !r.loaded,
            r.load_error is None,
            tab_ok(r),
    {
        let kind = match &cfg.source {
            SourceConfig::Generator { .. } => TabKind::Generator,
            SourceConfig::ImageFolder { .. } => TabKind::ImageFolder,
            SourceConfig::DcsKneeboards { .. } => TabKind::ImageFolder,
        };
        Tab {
            id: cfg.id,
            label: cfg.label,
            icon: cfg.icon,
            kind,
            source_path: None,
            source: cfg.source,
            pages: Vec::new(),
            cursor: Cursor { page: 0, item: 0 },
            loaded: false,
            load_error: None,
        }
    }

    /// Starts to load the tab, unless it is loaded, and gives what to read. A
    /// tab counts as loaded from then on, also where it fails, so that it is not
    /// tried again and again. `kneeboards` is the kneeboard folder of the
    /// simulator, where there is one.
    pub fn begin_load(&mut self, aircraft: &str, kneeboards: Option<String>) -> (r: Option<
        LoadRequest,
    >)
        ensures
            *final(self) == (Tab {
                loaded: true,
                source_path: final(self).source_path,
                load_error: final(self).load_error,
                ..*old(self)
            }),
            tab_ok(*old(self)) ==> tab_ok(*final(self)),
            old(self).loaded ==> *final(self) == *old(self) && r is None,
            !old(self).loaded ==> match source_of(
                old(self).source,
                aircraft@,
                opt_string(kneeboards),
            ) {
                Some(path) => {
                    &&& r is Some
                    &&& is_request(r->0, old(self).source, path)
                    &&& opt_string(final(self).source_path) == Some(path)
                    &&& final(self).load_error == old(self).load_error
                },
                None => {
                    &&& r is None
                    &&& final(self).source_path == old(self).source_path
                    &&& opt_string(final(self).load_error) == Some(
                        "DCS kneeboard folder not found for aircraft "@ + aircraft@,
                    )
                },
            },
    {
        if self.loaded {
            return None;
        }
        self.loaded = true;
        let images = match &self.source {
            SourceConfig::Generator { .. } => false,
            _ => true,
        };
        let recursive = match &self.source {
            SourceConfig::ImageFolder { recursive, .. } => *recursive,
            _ => false,
        };
        let path = match &self.source {
            SourceConfig::Generator { path } => Some(resolve_aircraft(path.as_str(), aircraft)),
            SourceConfig::ImageFolder { path, .. } => Some(
                resolve_aircraft(path.as_str(), aircraft),
            ),
            SourceConfig::DcsKneeboards { .. } => kneeboards,
        };
        match path {
            Some(path) => {
                self.source_path = Some(own(path.as_str()));
                Some(LoadRequest { path, images, recursive })
            },
            None => {
                let mut message = own("DCS kneeboard folder not found for aircraft ");
                push_text(&mut message, aircraft);
                self.load_error = Some(message);
                None
            },
        }
    }

    /// Takes in what was read: the pages, or what went wrong.
    pub fn finish_load(&mut self, outcome: Result<Vec<LoadedPage>, String>)
        ensures
            match outcome {
                Ok(pages) => *final(self) == (Tab {
                    pages,
                    cursor: start_of(pages@),
                    ..*old(self)
                }) && tab_ok(*final(self)),
                Err(e) => *final(self) == (Tab { load_error: Some(e), ..*old(self) }),
            },
            tab_ok(*old(self)) ==> tab_ok(*final(self)),
    {
        match outcome {
            Ok(pages) => {
                let item: usize = if pages.len() > 0 {
                    first_navigable(pages[0].manifest.items.as_slice())
                } else {
                    0
                };
                proof {
                    if pages.len() > 0 {
                        lemma_navigable_from(items_of(pages@, 0), 0);
                    }
                }
                self.pages = pages;
                self.cursor = Cursor { page: 0, item };
            },
            Err(e) => {
                self.load_error = Some(e);
            },
        }
    }

    /// Drops the pages so that they are read again, and says where the cursor
    /// was.
    pub fn begin_reload(&mut self) -> (r: Bookmark)
        ensures
            final(self).pages@.len() == 0,
            *final(self) == (Tab {
                loaded: false,
                pages: final(self).pages,
                source_path: None,
                load_error: None,
                ..*old(self)
            }),
            opt_string(r.title) == (if old(self).cursor.page < old(self).pages@.len() {
                Some(old(self).pages@[old(self).cursor.page as int].manifest.title@)
            } else {
                None
            }),
            r.idx == (if old(self).cursor.page < old(self).pages@.len() && old(self).cursor.item
                < items_of(old(self).pages@, old(self).cursor.page as int).len() {
                Some(
                    items_of(
                        old(self).pages@,
                        old(self).cursor.page as int,
                    )[old(self).cursor.item as int].idx,
                )
            } else {
                None
            }),
    {
        let cur = self.cursor;
        let mut mark = Bookmark { title: None, idx: None };
        if cur.page < self.pages.len() {
            let page = &self.pages[cur.page];
            mark.title = Some(own(page.manifest.title.as_str()));
            if cur.item < page.manifest.items.len() {
                mark.idx = Some(page.manifest.items[cur.item].idx);
            }
        }
        self.loaded = false;
        self.pages = Vec::new();
        self.source_path = None;
        self.load_error = None;
        mark
    }

    /// Puts the cursor back to where the bookmark says, where that still is.
    pub fn restore(&mut self, mark: &Bookmark)
        requires
            tab_ok(*old(self)),
        ensures
            *final(self) == (Tab {
                cursor: restored(
                    old(self).pages@,
                    opt_string(mark.title),
                    mark.idx,
                    old(self).cursor,
                ),
                ..*old(self)
            }),
            tab_ok(*final(self)),
    {
        if let Some(title) = &mark.title {
            if let Some(p) = find_page(&self.pages, title.as_str()) {
                let items = &self.pages[p].manifest.items;
                proof {
                    lemma_navigable_from(items@, 0);
                }
                let item: usize = match mark.idx {
                    Some(idx) => match find_item(items, idx) {
                        Some(i) => i,
                        None => first_navigable(items.as_slice()),
                    },
                    None => first_navigable(items.as_slice()),
                };
                self.cursor = Cursor { page: p, item };
            }
        }
    }
}

// ---------------------------------------------------------------------------
// The registry
// ---------------------------------------------------------------------------

/// All tabs, the one that is shown, and the aircraft.
#[derive(Debug)]
pub struct TabRegistry {
    pub tabs: Vec<Tab>,
    pub active: usize,
    pub aircraft: String,
    /// The id and the label of each aircraft.
    pub aircraft_list: Vec<(String, String)>,
}

/// The tabs, and which one is shown.
pub struct Deck {
    pub tabs: Seq<Tab>,
    pub active: usize,
}

impl View for TabRegistry {
    type V = Deck;

    open spec fn view(&self) -> Deck {
        Deck { tabs: self.tabs@, active: self.active }
    }
}

/// Each tab is in order, and one of the tabs is shown where there are any.
pub open spec fn deck_ok(d: Deck) -> bool {
    &&& forall|i: int| 0 <= i < d.tabs.len() ==> tab_ok(#[trigger] d.tabs[i])
    &&& d.tabs.len() > 0 ==> d.active < d.tabs.len()
}

impl Deck {
    /// A tab is shown.
    pub open spec fn has_active(self) -> bool {
        self.active < self.tabs.len()
    }

    pub open spec fn tab(self) -> Tab {
        self.tabs[self.active as int]
    }

    /// The pages of the tab that is shown.
    pub open spec fn pages(self) -> Seq<LoadedPage> {
        self.tab().pages@
    }

    pub open spec fn cursor(self) -> Cursor {
        self.tab().cursor
    }

    /// The deck with the cursor of the tab that is shown at another place.
    pub open spec fn with_cursor(self, c: Cursor) -> Deck {
        Deck {
            tabs: self.tabs.update(self.active as int, Tab { cursor: c, ..self.tab() }),
            ..self
        }
    }
}

/// The id and the label of an aircraft; the id where it has no label.
pub open spec fn named(a: AircraftEntry) -> (Seq<char>, Seq<char>) {
    (
        a.id@,
        if a.label@.len() == 0 {
            a.id@
        } else {
            a.label@
        },
    )
}

/// The list of aircraft to choose from.
pub open spec fn aircraft_choices(cfg: Seq<AircraftEntry>, aircraft: Seq<char>) -> Seq<
    (Seq<char>, Seq<char>),
> {
    if cfg.len() == 0 {
        seq![(aircraft, aircraft)]
    } else {
        Seq::new(cfg.len(), |i: int| named(cfg[i]))
    }
}

/// The tab was made from the configuration and is not loaded.
pub open spec fn is_fresh(tab: Tab, cfg: TabConfig) -> bool {
    &&& tab.id@ == cfg.id@
    &&& tab.label@ == cfg.label@
    &&& tab.icon@ == cfg.icon@
    &&& tab.kind == (if cfg.source is Generator {
        TabKind::Generator
    } else {
        TabKind::ImageFolder
    })
    &&& same_source(tab.source, cfg.source)
    &&& tab.source_path is None
    &&& tab.pages@.len() == 0
    &&& tab.cursor == (Cursor { page: 0, item: 0 })
    &&& !tab.loaded
    &&& tab.load_error is None
}

/// The sources say the same.
pub open spec fn same_source(a: SourceConfig, b: SourceConfig) -> bool {
    match (a, b) {
        (SourceConfig::Generator { path: p }, SourceConfig::Generator { path: q }) => p@ == q@,
        (
            SourceConfig::ImageFolder { path: p, recursive: r },
            SourceConfig::ImageFolder { path: q, recursive: t },
        ) => p@ == q@ && r == t,
        (
            SourceConfig::DcsKneeboards { base: p },
            SourceConfig::DcsKneeboards { base: q },
        ) => opt_string(p) == opt_string(q),
        _ => false,
    }
}

fn copy_source(s: &SourceConfig) -> (r: SourceConfig)
    ensures
        same_source(r, *s),
{
    match s {
        SourceConfig::Generator { path } => SourceConfig::Generator { path: own(path.as_str()) },
        SourceConfig::ImageFolder { path, recursive } => SourceConfig::ImageFolder {
            path: own(path.as_str()),
            recursive: *recursive,
        },
        SourceConfig::DcsKneeboards { base } => SourceConfig::DcsKneeboards {
            base: match base {
                Some(b) => Some(own(b.as_str())),
                None => None,
            },
        },
    }
}

/// Where a tab with the id stands.
pub open spec fn tab_named(tabs: Seq<Tab>, id: Seq<char>) -> Option<int>
    decreases tabs.len(),
{
    if tabs.len() == 0 {
        None
    } else {
        match tab_named(tabs.drop_last(), id) {
            Some(i) => Some(i),
            None => if tabs.last().id@ == id {
                Some(tabs.len() - 1)
            } else {
                None
            },
        }
    }
}

proof fn lemma_tab_named_prefix(tabs: Seq<Tab>, id: Seq<char>, n: int)
    requires
        0 <= n <= tabs.len(),
        tab_named(tabs.take(n), id) is Some,
    ensures
        tab_named(tabs, id) == tab_named(tabs.take(n), id),
    decreases tabs.len() - n,
{
    if n < tabs.len() {
        assert(tabs.take(n + 1).drop_last() =~= tabs.take(n));
        lemma_tab_named_prefix(tabs, id, n + 1);
    } else {
        assert(tabs.take(n) =~= tabs);
    }
}

/// The tab as it is after a change of aircraft: to be loaded anew.
pub open spec fn is_reset(new: Tab, old_tab: Tab) -> bool {
    &&& new == (Tab {
        pages: new.pages,
        loaded: false,
        cursor: (Cursor { page: 0, item: 0 }),
        source_path: None,
        load_error: None,
        ..old_tab
    })
    &&& new.pages@.len() == 0
}

/// How alike a query is to a tab: to its label or to its id, whichever is more.
pub open spec fn tab_score(query: Seq<char>, tab: Tab) -> int {
    let by_label = rounded(similarity_bits(query, lowercase(tab.label@)));
    let by_id = rounded(similarity_bits(query, lowercase(tab.id@)));
    if by_label >= by_id {
        by_label
    } else {
        by_id
    }
}

/// The tab's label or id is the text, in lower case.
pub open spec fn goes_by(tab: Tab, s: Seq<char>) -> bool {
    lowercase(tab.label@) == s || lowercase(tab.id@) == s
}

/// Some tab's label or id is the text, in lower case.
pub open spec fn some_named(tabs: Seq<Tab>, s: Seq<char>) -> bool {
    exists|i: int| 0 <= i < tabs.len() && goes_by(#[trigger] tabs[i], s)
}

/// Where some score is the highest there can be, the best one is.
proof fn lemma_best_is_found(scores: Seq<u64>, i: int)
    requires
        scores.len() <= usize::MAX,
        0 <= i < scores.len(),
        scores[i] == FULL_KEY,
        forall|k: int| 0 <= k < scores.len() ==> (#[trigger] scores[k]) <= FULL_KEY,
    ensures
        best(scores, MATCH_THRESHOLD, 5).len() > 0,
        scores[best(scores, MATCH_THRESHOLD, 5)[0] as int] == FULL_KEY,
{
    law_ranking_exists(scores);
    lemma_reaching(scores, MATCH_THRESHOLD, 5);
    let order = ranking(scores);
    assert(order.contains(i as usize));
    let p = choose|p: int| 0 <= p < order.len() && order[p] == i as usize;
    if p > 0 {
        assert(ahead(scores, order[0], order[p]));
    }
    assert(scores[order[0] as int] == FULL_KEY);
}

pub open spec fn tab_scores(query: Seq<char>, tabs: Seq<Tab>) -> Seq<u64> {
    Seq::new(tabs.len(), |i: int| tab_score(query, tabs[i]) as u64)
}

/// The start and the label of each tab.
pub open spec fn tab_hits(tabs: Seq<Tab>) -> Seq<(NavTarget, Seq<char>)> {
    Seq::new(
        tabs.len(),
        |i: int|
            (NavTarget { tab_idx: i as usize, page_idx: 0, item_idx: 0 }, tabs[i].label@),
    )
}

/// The items of each page.
pub open spec fn page_items(pages: Seq<LoadedPage>) -> Seq<Seq<Item>> {
    Seq::new(pages.len(), |p: int| items_of(pages, p))
}

pub fn item_slices(pages: &Vec<LoadedPage>) -> (r: Vec<&[Item]>)
    ensures
        slice_items(r@) == page_items(pages@),
{
    let mut r: Vec<&[Item]> = Vec::new();
    let mut p: usize = 0;
    while p < pages.len()
        invariant
            p <= pages.len(),
            r.len() == p,
            forall|k: int| 0 <= k < p ==> (#[trigger] r@[k])@ == items_of(pages@, k),
        decreases pages.len() - p,
    {
        r.push(pages[p].manifest.items.as_slice());
        p += 1;
    }
    assert(slice_items(r@) =~= page_items(pages@));
    r
}

impl TabRegistry {
    /// The tabs and aircraft of a configuration. Nothing is loaded yet.
    pub fn new(cfg: &AppConfig, aircraft: String) -> (r: TabRegistry)
        ensures
            r.tabs@.len() == cfg.tabs@.len(),
            forall|i: int|
                0 <= i < r.tabs@.len() ==> is_fresh(#[trigger] r.tabs@[i], cfg.tabs@[i]),
            r.active == 0,
            r.aircraft == aircraft,
            crate::word_map::pair_texts(r.aircraft_list@) == aircraft_choices(
                cfg.aircraft@,
                aircraft@,
            ),
            deck_ok(r@),
    {
        let mut tabs: Vec<Tab> = Vec::new();
        let mut i: usize = 0;
        while i < cfg.tabs.len()
            invariant
                i <= cfg.tabs.len(),
                tabs.len() == i,
                forall|k: int| 0 <= k < i ==> is_fresh(#[trigger] tabs@[k], cfg.tabs@[k]),
            decreases cfg.tabs.len() - i,
        {
            let c = &cfg.tabs[i];
            let copy = TabConfig {
                id: own(c.id.as_str()),
                label: own(c.label.as_str()),
                icon: own(c.icon.as_str()),
                source: copy_source(&c.source),
            };
            tabs.push(Tab::from_config(copy));
            i += 1;
        }
        let mut list: Vec<(String, String)> = Vec::new();
        let ghost wanted = aircraft_choices(cfg.aircraft@, aircraft@);
        if cfg.aircraft.len() == 0 {
            list.push((own(aircraft.as_str()), own(aircraft.as_str())));
        } else {
            let mut k: usize = 0;
            while k < cfg.aircraft.len()
                invariant
                    k <= cfg.aircraft.len(),
                    list.len() == k,
                    forall|x: int|
                        0 <= x < k ==> ((#[trigger] list@[x]).0@, list@[x].1@) == named(
                            cfg.aircraft@[x],
                        ),
                decreases cfg.aircraft.len() - k,
            {
                let a = &cfg.aircraft[k];
                let label = if a.label.as_str().unicode_len() == 0 {
                    own(a.id.as_str())
                } else {
                    own(a.label.as_str())
                };
                list.push((own(a.id.as_str()), label));
                k += 1;
            }
        }
        assert(crate::word_map::pair_texts(list@) =~= wanted);
        TabRegistry { tabs, active: 0, aircraft, aircraft_list: list }
    }

    /// The tab that is shown.
    pub fn active_tab(&self) -> (r: Option<&Tab>)
        ensures
            match r {
                Some(t) => self@.has_active() && *t == self@.tab(),
                None => !self@.has_active(),
            },
    {
        if self.active < self.tabs.len() {
            Some(&self.tabs[self.active])
        } else {
            None
        }
    }

    /// The tab that is shown, for changing it.
    pub fn active_tab_mut(&mut self) -> (r: Option<&mut Tab>)
        ensures
            match r {
                Some(t) => {
                    &&& old(self)@.has_active()
                    &&& *t == old(self)@.tab()
                    &&& final(self).tabs@ == old(self).tabs@.update(
                        old(self).active as int,
                        *final(t),
                    )
                    &&& final(self).active == old(self).active
                    &&& final(self).aircraft == old(self).aircraft
                    &&& final(self).aircraft_list == old(self).aircraft_list
                },
                None => !old(self)@.has_active() && *final(self) == *old(self),
            },
    {
        if self.active < self.tabs.len() {
            Some(&mut self.tabs[self.active])
        } else {
            None
        }
    }

    /// Puts the cursor of the tab that is shown to a place in its pages.
    pub fn set_cursor(&mut self, c: Cursor)
        requires
            old(self)@.has_active(),
        ensures
            final(self)@ == old(self)@.with_cursor(c),
            final(self).aircraft == old(self).aircraft,
            final(self).aircraft_list == old(self).aircraft_list,
            deck_ok(old(self)@) && (old(self)@.pages().len() == 0 || inside(
                old(self)@.pages(),
                c,
            )) ==> deck_ok(final(self)@),
    {
        let at: usize = self.active;
        self.tabs[at].cursor = c;
        assert(self.tabs@ =~= old(self)@.with_cursor(c).tabs);
    }

    /// Shows the tab with the id, where there is one.
    pub fn set_active_by_id(&mut self, id: &str)
        ensures
            *final(self) == (TabRegistry {
                active: match tab_named(old(self).tabs@, id@) {
                    Some(i) => i as usize,
                    None => old(self).active,
                },
                ..*old(self)
            }),
            deck_ok(old(self)@) ==> deck_ok(final(self)@),
    {
        if let Some(i) = self.find_tab(id) {
            self.active = i;
        }
    }

    pub fn find_tab(&self, id: &str) -> (r: Option<usize>)
        ensures
            match r {
                Some(i) => tab_named(self.tabs@, id@) == Some(i as int) && i < self.tabs@.len(),
                None => tab_named(self.tabs@, id@) is None,
            },
    {
        let mut i: usize = 0;
        assert(self.tabs@.take(0) =~= Seq::empty());
        while i < self.tabs.len()
            invariant
                i <= self.tabs.len(),
                tab_named(self.tabs@.take(i as int), id@) is None,
            decreases self.tabs.len() - i,
        {
            assert(self.tabs@.take(i + 1).drop_last() =~= self.tabs@.take(i as int));
            if same(self.tabs[i].id.as_str(), id) {
                proof {
                    lemma_tab_named_prefix(self.tabs@, id@, i + 1);
                }
                return Some(i);
            }
            i += 1;
        }
        assert(self.tabs@.take(i as int) =~= self.tabs@);
        None
    }

    /// Shows the tab at the position, where there is one.
    pub fn set_active(&mut self, idx: usize)
        ensures
            *final(self) == (TabRegistry {
                active: if idx < old(self).tabs@.len() {
                    idx
                } else {
                    old(self).active
                },
                ..*old(self)
            }),
            deck_ok(old(self)@) ==> deck_ok(final(self)@),
    {
        if idx < self.tabs.len() {
            self.active = idx;
        }
    }

    /// Shows the tab that was shown last, where it still exists, else the first.
    pub fn restore_active(&mut self, last_tab: Option<&str>)
        ensures
            *final(self) == (TabRegistry {
                active: match last_tab {
                    Some(id) => match tab_named(old(self).tabs@, id@) {
                        Some(i) => i as usize,
                        None => if old(self).tabs@.len() > 0 {
                            0
                        } else {
                            old(self).active
                        },
                    },
                    None => if old(self).tabs@.len() > 0 {
                        0
                    } else {
                        old(self).active
                    },
                },
                ..*old(self)
            }),
            deck_ok(old(self)@) ==> deck_ok(final(self)@),
    {
        if let Some(id) = last_tab {
            if let Some(i) = self.find_tab(id) {
                self.active = i;
                return ;
            }
        }
        self.set_active(0);
    }

    /// Changes the aircraft. All tabs are then to be loaded anew, since their
    /// content depends on it. `false` where it is the aircraft already.
    pub fn set_aircraft(&mut self, aircraft: &str) -> (r: bool)
        ensures
            r == (old(self).aircraft@ != aircraft@),
            !r ==> *final(self) == *old(self),
            r ==> {
                &&& final(self).aircraft@ == aircraft@
                &&& final(self).active == old(self).active
                &&& final(self).aircraft_list == old(self).aircraft_list
                &&& final(self).tabs@.len() == old(self).tabs@.len()
                &&& forall|i: int|
                    0 <= i < final(self).tabs@.len() ==> is_reset(
                        #[trigger] final(self).tabs@[i],
                        old(self).tabs@[i],
                    )
            },
            deck_ok(old(self)@) ==> deck_ok(final(self)@),
    {
        if same(self.aircraft.as_str(), aircraft) {
            return false;
        }
        let ghost before = self.tabs@;
        self.aircraft = own(aircraft);
        let mut i: usize = 0;
        while i < self.tabs.len()
            invariant
                i <= self.tabs@.len(),
                self.tabs@.len() == before.len(),
                self.aircraft@ == aircraft@,
                self.active == old(self).active,
                self.aircraft_list == old(self).aircraft_list,
                forall|k: int| 0 <= k < i ==> is_reset(#[trigger] self.tabs@[k], before[k]),
                forall|k: int| i <= k < before.len() ==> #[trigger] self.tabs@[k] == before[k],
            decreases self.tabs@.len() - i,
        {
            self.tabs[i].loaded = false;
            self.tabs[i].pages = Vec::new();
            self.tabs[i].cursor = Cursor { page: 0, item: 0 };
            self.tabs[i].source_path = None;
            self.tabs[i].load_error = None;
            i += 1;
        }
        true
    }

    /// The folder to follow: that of the tab that is shown, where the user wants
    /// that.
    pub fn watch_target(&self, hot_reload: bool) -> (r: Option<&String>)
        ensures
            match r {
                Some(p) => hot_reload && self@.has_active() && self@.tab().source_path == Some(*p),
                None => !hot_reload || !self@.has_active() || self@.tab().source_path is None,
            },
    {
        if !hot_reload {
            return None;
        }
        match self.active_tab() {
            Some(tab) => match &tab.source_path {
                Some(p) => Some(p),
                None => None,
            },
            None => None,
        }
    }

    /// The evidence for each section of the tab that is shown.
    pub fn active_evidence(&self, query: &str) -> (r: Vec<Evidence>)
        ensures
            !self@.has_active() ==> r@.len() == 0,
            self@.has_active() ==> {
                let pages = page_items(self@.pages());
                let places = all_entries(pages);
                &&& r@.len() == places.len()
                &&& forall|k: int|
                    0 <= k < r@.len() ==> is_evidence(
                        #[trigger] r@[k],
                        match_text(query@),
                        pages[places[k].0][places[k].1],
                    )
            },
    {
        match self.active_tab() {
            Some(tab) => {
                let slices = item_slices(&tab.pages);
                section_evidence(query, slices.as_slice())
            },
            None => Vec::new(),
        }
    }

    /// The section of the tab that is shown that a query means. `scores` holds
    /// the score of each of its sections, as a key to compare by.
    pub fn resolve_section_query(&self, query: &str, scores: &Vec<u64>) -> (r: Option<NavMatch>)
        requires
            self@.has_active() ==> scores@.len() == all_entries(
                page_items(self@.pages()),
            ).len(),
        ensures
            !self@.has_active() || match_text(query@).len() == 0 ==> r is None,
            self@.has_active() && match_text(query@).len() > 0 ==> is_choice(
                r,
                entry_hits(page_items(self@.pages()), self.active),
                scores@,
            ),
    {
        match self.active_tab() {
            Some(tab) => {
                let slices = item_slices(&tab.pages);
                resolve_section_in_pages(query, slices.as_slice(), self.active, scores)
            },
            None => None,
        }
    }

    /// The tab that a query means, by its label or its id. A tab need not be
    /// loaded to be found.
    pub fn resolve_tab_query(&self, query: &str) -> (r: Option<NavMatch>)
        ensures
            lowercase(trim(query@)).len() == 0 ==> r is None,
            lowercase(trim(query@)).len() > 0 ==> is_choice(
                r,
                tab_hits(self.tabs@),
                tab_scores(lowercase(trim(query@)), self.tabs@),
            ),
            lowercase(trim(query@)).len() > 0 && some_named(
                self.tabs@,
                lowercase(trim(query@)),
            ) ==> r is Some && (r->0).score == FULL_KEY,
    {
        let q = trimmed(query).as_str().to_lowercase();
        if q.as_str().unicode_len() == 0 {
            return None;
        }
        let scores = self.score_tabs(q.as_str());
        let r = self.choose_tab(&scores);
        proof {
            if some_named(self.tabs@, q@) {
                let i = choose|i: int| 0 <= i < self.tabs@.len() && goes_by(#[trigger] self.tabs@[i], q@);
                assert(scores@[i] == FULL_KEY);
                assert(scores@.len() == scores.len());
                lemma_best_is_found(scores@, i);
            }
        }
        r
    }

    /// How alike each tab is to a query in lower case.
    pub fn score_tabs(&self, query: &str) -> (r: Vec<u64>)
        ensures
            r@ == tab_scores(query@, self.tabs@),
            forall|i: int|
                0 <= i < r@.len() ==> (#[trigger] r@[i]) <= FULL_KEY && (goes_by(
                    self.tabs@[i],
                    query@,
                ) ==> r@[i] == FULL_KEY),
    {
        let mut r: Vec<u64> = Vec::new();
        let mut i: usize = 0;
        while i < self.tabs.len()
            invariant
                i <= self.tabs.len(),
                r.len() == i,
                forall|k: int|
                    0 <= k < i ==> (#[trigger] r@[k]) == tab_score(query@, self.tabs@[k])
                        && r@[k] <= FULL_KEY && (goes_by(self.tabs@[k], query@) ==> r@[k]
                        == FULL_KEY),
            decreases self.tabs.len() - i,
        {
            let label = self.tabs[i].label.as_str().to_lowercase();
            let id = self.tabs[i].id.as_str().to_lowercase();
            let label_bits: u64 = similarity(query, label.as_str());
            let id_bits: u64 = similarity(query, id.as_str());
            proof {
                law_full_key(label_bits);
                law_full_key(id_bits);
            }
            let by_label: u64 = single_key(label_bits);
            let by_id: u64 = single_key(id_bits);
            r.push(
                if by_label >= by_id {
                    by_label
                } else {
                    by_id
                },
            );
            i += 1;
        }
        assert(r@ =~= tab_scores(query@, self.tabs@));
        r
    }

    /// The best of the tabs by their scores.
    pub fn choose_tab(&self, scores: &Vec<u64>) -> (r: Option<NavMatch>)
        requires
            scores@.len() == self.tabs@.len(),
        ensures
            is_choice(r, tab_hits(self.tabs@), scores@),
    {
        let mut found: Vec<Candidate> = Vec::new();
        let mut i: usize = 0;
        while i < self.tabs.len()
            invariant
                i <= self.tabs.len(),
                found.len() == i,
                forall|k: int|
                    0 <= k < i ==> ((#[trigger] found@[k]).target, found@[k].label@) == tab_hits(
                        self.tabs@,
                    )[k],
            decreases self.tabs.len() - i,
        {
            found.push(
                Candidate {
                    target: NavTarget { tab_idx: i, page_idx: 0, item_idx: 0 },
                    label: own(self.tabs[i].label.as_str()),
                },
            );
            i += 1;
        }
        assert(hits(found@) =~= tab_hits(self.tabs@));
        choose_match(&found, scores)
    }
}

// ---------------------------------------------------------------------------
// Laws
// ---------------------------------------------------------------------------

proof fn lemma_first_title(pages: Seq<LoadedPage>, p: int)
    requires
        0 <= p < pages.len(),
        forall|q: int|
            0 <= q < p ==> (#[trigger] pages[q]).manifest.title@ != pages[p].manifest.title@,
    ensures
        page_titled(pages, pages[p].manifest.title@) == Some(p),
    decreases pages.len(),
{
    let title = pages[p].manifest.title@;
    let rest = pages.drop_last();
    if p < pages.len() - 1 {
        assert forall|q: int| 0 <= q < p implies (#[trigger] rest[q]).manifest.title@
            != rest[p].manifest.title@ by {
            assert(rest[q] == pages[q]);
        }
        lemma_first_title(rest, p);
    } else {
        lemma_no_title(rest, title);
    }
}

proof fn lemma_no_title(pages: Seq<LoadedPage>, title: Seq<char>)
    requires
        forall|q: int| 0 <= q < pages.len() ==> (#[trigger] pages[q]).manifest.title@ != title,
    ensures
        page_titled(pages, title) is None,
    decreases pages.len(),
{
    if pages.len() > 0 {
        let rest = pages.drop_last();
        assert forall|q: int| 0 <= q < rest.len() implies (#[trigger] rest[q]).manifest.title@
            != title by {
            assert(rest[q] == pages[q]);
        }
        lemma_no_title(rest, title);
    }
}

proof fn lemma_first_number(items: Seq<Item>, i: int)
    requires
        0 <= i < items.len(),
        forall|j: int| 0 <= j < i ==> (#[trigger] items[j]).idx != items[i].idx,
    ensures
        item_numbered(items, items[i].idx) == Some(i),
    decreases items.len(),
{
    let rest = items.drop_last();
    if i < items.len() - 1 {
        assert forall|j: int| 0 <= j < i implies (#[trigger] rest[j]).idx != rest[i].idx by {
            assert(rest[j] == items[j]);
        }
        lemma_first_number(rest, i);
    } else {
        lemma_no_number(rest, items[i].idx);
    }
}

proof fn lemma_no_number(items: Seq<Item>, idx: u32)
    requires
        forall|j: int| 0 <= j < items.len() ==> (#[trigger] items[j]).idx != idx,
    ensures
        item_numbered(items, idx) is None,
    decreases items.len(),
{
    if items.len() > 0 {
        let rest = items.drop_last();
        assert forall|j: int| 0 <= j < rest.len() implies (#[trigger] rest[j]).idx != idx by {
            assert(rest[j] == items[j]);
        }
        lemma_no_number(rest, idx);
    }
}

/// A reload keeps the cursor at its item: where a page with the same title and
/// an item with the same number are there afterwards, the first ones of that
/// title and number, the cursor is at them, wherever they are now.
pub proof fn law_reload_keeps_the_item(
    before: Seq<LoadedPage>,
    cur: Cursor,
    after: Seq<LoadedPage>,
    p: int,
    i: int,
    otherwise: Cursor,
)
    requires
        cur.page < before.len(),
        cur.item < items_of(before, cur.page as int).len(),
        0 <= p < after.len() <= usize::MAX,
        0 <= i < items_of(after, p).len() <= usize::MAX,
        after[p].manifest.title@ == before[cur.page as int].manifest.title@,
        items_of(after, p)[i].idx == items_of(before, cur.page as int)[cur.item as int].idx,
        forall|q: int|
            0 <= q < p ==> (#[trigger] after[q]).manifest.title@ != after[p].manifest.title@,
        forall|j: int|
            0 <= j < i ==> (#[trigger] items_of(after, p)[j]).idx != items_of(after, p)[i].idx,
    ensures
        restored(
            after,
            Some(before[cur.page as int].manifest.title@),
            Some(items_of(before, cur.page as int)[cur.item as int].idx),
            otherwise,
        ) == (Cursor { page: p as usize, item: i as usize }),
{
    lemma_first_title(after, p);
    lemma_first_number(items_of(after, p), i);
}

/// Where the page is gone after a reload, the cursor is where the reload put it.
pub proof fn law_reload_without_the_page(
    after: Seq<LoadedPage>,
    title: Seq<char>,
    idx: Option<u32>,
    otherwise: Cursor,
)
    requires
        forall|q: int| 0 <= q < after.len() ==> (#[trigger] after[q]).manifest.title@ != title,
    ensures
        restored(after, Some(title), idx, otherwise) == otherwise,
{
    lemma_no_title(after, title);
}

/// A tab begins at the start of its first page.
pub proof fn law_tabs_begin_at_their_first_page(pages: Seq<LoadedPage>)
    requires
        pages.len() > 0,
        crate::navigation::sized(pages),
    ensures
        start_of(pages).page == 0,
        crate::navigation::opens_page(pages, start_of(pages)),
{
    crate::navigation::law_page_numbers_count_from_one(pages, 1);
}

/// Where the item is gone after a reload, the cursor is at the start of its page.
pub proof fn law_reload_without_the_item(
    after: Seq<LoadedPage>,
    p: int,
    idx: u32,
    otherwise: Cursor,
)
    requires
        0 <= p < after.len(),
        crate::navigation::sized(after),
        forall|q: int|
            0 <= q < p ==> (#[trigger] after[q]).manifest.title@ != after[p].manifest.title@,
        forall|j: int|
            0 <= j < after[p].manifest.items@.len() ==> (
            #[trigger] after[p].manifest.items@[j]).idx != idx,
    ensures
        restored(after, Some(after[p].manifest.title@), Some(idx), otherwise).page == p,
        crate::navigation::opens_page(
            after,
            restored(after, Some(after[p].manifest.title@), Some(idx), otherwise),
        ),
{
    lemma_first_title(after, p);
    lemma_no_number(after[p].manifest.items@, idx);
    crate::navigation::law_page_numbers_count_from_one(after, p + 1);
}

/// The path of a tab is that of the configuration, with the aircraft in the place
/// that is kept for it.
pub proof fn law_paths_name_the_aircraft(
    path: String,
    recursive: bool,
    a: Seq<char>,
    b: Seq<char>,
    aircraft: Seq<char>,
    kneeboards: Option<Seq<char>>,
)
    requires
        path@ == a + "{aircraft}"@ + b,
        forall|i: int| 0 <= i < a.len() ==> (#[trigger] a[i]) != '{',
        forall|i: int| 0 <= i < b.len() ==> (#[trigger] b[i]) != '{',
    ensures
        source_of(SourceConfig::Generator { path }, aircraft, kneeboards) == Some(
            a + aircraft + b,
        ),
        source_of(SourceConfig::ImageFolder { path, recursive }, aircraft, kneeboards) == Some(
            a + aircraft + b,
        ),
{
    let s = path@;
    let n = a.len() as int;
    reveal_strlit("{aircraft}");
    assert(s.subrange(n, n + 10) =~= "{aircraft}"@);
    assert forall|k: int| 0 <= k < n implies !crate::text::occurs_at(s, "{aircraft}"@, k) by {
        if crate::text::occurs_at(s, "{aircraft}"@, k) {
            assert(s.subrange(k, k + 10)[0] == a[k]);
        }
    }
    crate::text::law_text_is_replaced_in_turn(s, "{aircraft}"@, aircraft, n);
    assert(s.take(n) =~= a);
    assert(s.skip(n + 10) =~= b);
    assert forall|k: int| !crate::text::occurs_at(b, "{aircraft}"@, k) by {
        if crate::text::occurs_at(b, "{aircraft}"@, k) {
            assert(b.subrange(k, k + 10)[0] == b[k]);
        }
    }
    crate::text::law_replacing_absent_text_changes_nothing(b, "{aircraft}"@, aircraft);
}

/// A path that keeps no place for the aircraft stays as it is, and the kneeboards
/// of the simulator are where they were found.
pub proof fn law_other_paths_stay(
    path: String,
    base: Option<String>,
    aircraft: Seq<char>,
    kneeboards: Option<Seq<char>>,
)
    requires
        forall|i: int| 0 <= i < path@.len() ==> (#[trigger] path@[i]) != '{',
    ensures
        source_of(SourceConfig::Generator { path }, aircraft, kneeboards) == Some(path@),
        source_of(SourceConfig::DcsKneeboards { base }, aircraft, kneeboards) == kneeboards,
{
    reveal_strlit("{aircraft}");
    assert forall|k: int| !crate::text::occurs_at(path@, "{aircraft}"@, k) by {
        if crate::text::occurs_at(path@, "{aircraft}"@, k) {
            assert(path@.subrange(k, k + 10)[0] == path@[k]);
        }
    }
    crate::text::law_replacing_absent_text_changes_nothing(path@, "{aircraft}"@, aircraft);
}

/// An aircraft goes by its label, and by its id where it has none.
pub proof fn law_aircraft_are_listed(
    cfg: Seq<AircraftEntry>,
    aircraft: Seq<char>,
    i: int,
)
    requires
        0 <= i < cfg.len(),
    ensures
        aircraft_choices(cfg, aircraft).len() == cfg.len(),
        aircraft_choices(cfg, aircraft)[i].0 == cfg[i].id@,
        cfg[i].label@.len() > 0 ==> aircraft_choices(cfg, aircraft)[i].1 == cfg[i].label@,
        cfg[i].label@.len() == 0 ==> aircraft_choices(cfg, aircraft)[i].1 == cfg[i].id@,
        aircraft_choices(Seq::empty(), aircraft) == seq![(aircraft, aircraft)],
{
}

/// A tab is found by its id: the first that has it.
pub proof fn law_tabs_are_found_by_their_id(tabs: Seq<Tab>, id: Seq<char>)
    ensures
        match tab_named(tabs, id) {
            Some(i) => 0 <= i < tabs.len() && tabs[i].id@ == id && forall|j: int|
                0 <= j < i ==> (#[trigger] tabs[j]).id@ != id,
            None => forall|j: int| 0 <= j < tabs.len() ==> (#[trigger] tabs[j]).id@ != id,
        },
    decreases tabs.len(),
{
    if tabs.len() > 0 {
        let p = tabs.drop_last();
        law_tabs_are_found_by_their_id(p, id);
        match tab_named(p, id) {
            Some(i) => {
                assert forall|j: int| 0 <= j < i implies (#[trigger] tabs[j]).id@ != id by {
                    assert(p[j].id@ != id);
                }
            },
            None => {
                assert forall|j: int| 0 <= j < p.len() implies (#[trigger] tabs[j]).id@ != id by {
                    assert(p[j].id@ != id);
                }
            },
        }
    }
}

/// A tab is as alike to a query as the more alike of its label and its id is.
pub proof fn law_tabs_go_by_label_and_id(query: Seq<char>, tab: Tab)
    ensures
        ({
            let by_label = rounded(similarity_bits(query, lowercase(tab.label@)));
            let by_id = rounded(similarity_bits(query, lowercase(tab.id@)));
            &&& tab_score(query, tab) >= by_label
            &&& tab_score(query, tab) >= by_id
            &&& tab_score(query, tab) == by_label || tab_score(query, tab) == by_id
        }),
{
}

/// After a change of aircraft nothing of the old pages is left, and the tab is
/// otherwise the same.
pub proof fn law_a_reset_tab_is_empty(new: Tab, before: Tab)
    requires
        is_reset(new, before),
    ensures
        new.pages@.len() == 0,
        !new.loaded,
        new.cursor.page == 0 && new.cursor.item == 0,
        new.load_error is None,
        new.source_path is None,
        new.id == before.id && new.label == before.label && new.source == before.source,
{
}

} // verus!
