//! Moving the cursor through the pages of a tab.

use vstd::prelude::*;

use crate::pages::{
    find_navigable, find_navigable_before, first_navigable, first_stop, lemma_navigable_before,
    lemma_navigable_from, navigable_before, navigable_from, Cursor, Item, LoadedPage,
};
use crate::text::same;

verus! {

// ---------------------------------------------------------------------------
// Kinds of items
// ---------------------------------------------------------------------------

pub open spec fn step_item(item: Item) -> bool {
    item.kind@ == "step"@
}

pub open spec fn heading_item(item: Item) -> bool {
    item.kind@ == "section-header"@ || item.kind@ == "branch-header"@ || item.kind@
        == "notes-heading"@
}

pub open spec fn note_item(item: Item) -> bool {
    item.kind@ == "note-info"@ || item.kind@ == "note-check"@ || item.kind@ == "note-optional"@
        || item.kind@ == "note-caution"@ || item.kind@ == "note-warning"@ || item.kind@
        == "note-radio"@
}

pub fn is_step(item: &Item) -> (r: bool)
    ensures
        r == step_item(*item),
{
    same(item.kind.as_str(), "step")
}

pub fn is_heading(item: &Item) -> (r: bool)
    ensures
        r == heading_item(*item),
{
    let kind = item.kind.as_str();
    same(kind, "section-header") || same(kind, "branch-header") || same(kind, "notes-heading")
}

/// Whether the item is a supporting note of the step before it.
pub fn is_note(item: &Item) -> (r: bool)
    ensures
        r == note_item(*item),
{
    let kind = item.kind.as_str();
    same(kind, "note-info") || same(kind, "note-check") || same(kind, "note-optional") || same(
        kind,
        "note-caution",
    ) || same(kind, "note-warning") || same(kind, "note-radio")
}

// ---------------------------------------------------------------------------
// Items and pages
// ---------------------------------------------------------------------------

/// The items of a page.
pub open spec fn items_of(pages: Seq<LoadedPage>, page: int) -> Seq<Item> {
    pages[page].manifest.items@
}

/// The cursor is at an item of a page, or at the start of a page without items.
pub open spec fn inside(pages: Seq<LoadedPage>, c: Cursor) -> bool {
    &&& c.page < pages.len()
    &&& c.item < items_of(pages, c.page as int).len() || (c.item == 0 && items_of(
        pages,
        c.page as int,
    ).len() == 0)
}

/// Towards the end, or towards the start.
#[derive(Debug, Clone, Copy, PartialEq, Eq, Structural)]
pub enum Direction {
    Forward,
    Backward,
}

/// The next item in the direction at which the cursor can stop, or `from` where
/// there is none on the page.
pub open spec fn next_in_page(items: Seq<Item>, from: int, dir: Direction) -> int {
    if items.len() == 0 {
        0
    } else {
        match dir {
            Direction::Forward => match navigable_from(items, from + 1) {
                Some(i) => i,
                None => from,
            },
            Direction::Backward => match navigable_before(items, from) {
                Some(i) => i,
                None => from,
            },
        }
    }
}

pub fn next_navigable_in_page(items: &[Item], from: usize, dir: Direction) -> (r: usize)
    ensures
        r == next_in_page(items@, from as int, dir),
{
    if items.len() == 0 {
        return 0;
    }
    let found = match dir {
        Direction::Forward => if from < items.len() {
            find_navigable(items, from + 1)
        } else {
            None
        },
        Direction::Backward => if from <= items.len() {
            find_navigable_before(items, from)
        } else {
            None
        },
    };
    match found {
        Some(i) => i,
        None => from,
    }
}

/// The first item on the pages from `page` on at which the cursor can stop.
pub open spec fn stop_on_pages_from(pages: Seq<LoadedPage>, page: int) -> Option<Cursor>
    decreases pages.len() - page,
{
    if page < 0 || page >= pages.len() {
        None
    } else {
        match navigable_from(items_of(pages, page), 0) {
            Some(i) => Some(Cursor { page: page as usize, item: i as usize }),
            None => stop_on_pages_from(pages, page + 1),
        }
    }
}

/// The last item on the pages before `page` at which the cursor can stop.
pub open spec fn stop_on_pages_before(pages: Seq<LoadedPage>, page: int) -> Option<Cursor>
    decreases page,
{
    if page <= 0 || page > pages.len() {
        None
    } else {
        let items = items_of(pages, page - 1);
        match navigable_before(items, items.len() as int) {
            Some(i) => Some(Cursor { page: (page - 1) as usize, item: i as usize }),
            None => stop_on_pages_before(pages, page - 1),
        }
    }
}

fn find_stop_on_pages(pages: &[LoadedPage], from: usize) -> (r: Option<Cursor>)
    ensures
        r == stop_on_pages_from(pages@, from as int),
{
    let mut page: usize = from;
    while page < pages.len()
        invariant
            stop_on_pages_from(pages@, from as int) == stop_on_pages_from(pages@, page as int),
        decreases pages.len() - page,
    {
        if let Some(i) = find_navigable(pages[page].manifest.items.as_slice(), 0) {
            return Some(Cursor { page, item: i });
        }
        page += 1;
    }
    None
}

fn find_stop_on_pages_before(pages: &[LoadedPage], before: usize) -> (r: Option<Cursor>)
    requires
        before <= pages.len(),
    ensures
        r == stop_on_pages_before(pages@, before as int),
{
    let mut page: usize = before;
    while page > 0
        invariant
            page <= before <= pages.len(),
            stop_on_pages_before(pages@, before as int) == stop_on_pages_before(
                pages@,
                page as int,
            ),
        decreases page,
    {
        page -= 1;
        let items = pages[page].manifest.items.as_slice();
        if let Some(i) = find_navigable_before(items, items.len()) {
            return Some(Cursor { page, item: i });
        }
    }
    None
}

/// Where a step leads: to the next item in the direction at which the cursor can
/// stop, on this page or a later one (an earlier one), else nowhere.
pub open spec fn stepped(pages: Seq<LoadedPage>, cur: Cursor, dir: Direction) -> Cursor {
    let items = items_of(pages, cur.page as int);
    let here = next_in_page(items, cur.item as int, dir);
    if items.len() > 0 && here != cur.item {
        Cursor { page: cur.page, item: here as usize }
    } else {
        let there = match dir {
            Direction::Forward => stop_on_pages_from(pages, cur.page + 1),
            Direction::Backward => stop_on_pages_before(pages, cur.page as int),
        };
        match there {
            Some(c) => c,
            None => cur,
        }
    }
}

/// Steps to the next or previous item at which the cursor can stop, across
/// pages. Pages without such an item are passed over.
pub fn step_cursor(pages: &[LoadedPage], cur: Cursor, dir: Direction) -> (r: Cursor)
    requires
        cur.page < pages.len(),
    ensures
        r == stepped(pages@, cur, dir),
{
    let items = pages[cur.page].manifest.items.as_slice();
    let here = next_navigable_in_page(items, cur.item, dir);
    if items.len() > 0 && here != cur.item {
        return Cursor { page: cur.page, item: here };
    }
    let there = match dir {
        Direction::Forward => find_stop_on_pages(pages, cur.page + 1),
        Direction::Backward => find_stop_on_pages_before(pages, cur.page),
    };
    match there {
        Some(c) => c,
        None => cur,
    }
}

// ---------------------------------------------------------------------------
// Headings
// ---------------------------------------------------------------------------

/// The first heading from `from` on.
pub open spec fn heading_from(items: Seq<Item>, from: int) -> Option<int>
    decreases items.len() - from,
{
    if from < 0 || from >= items.len() {
        None
    } else if heading_item(items[from]) {
        Some(from)
    } else {
        heading_from(items, from + 1)
    }
}

/// The last heading before `before`.
pub open spec fn heading_before(items: Seq<Item>, before: int) -> Option<int>
    decreases before,
{
    if before <= 0 || before > items.len() {
        None
    } else if heading_item(items[before - 1]) {
        Some(before - 1)
    } else {
        heading_before(items, before - 1)
    }
}

pub fn find_heading(items: &[Item], from: usize) -> (r: Option<usize>)
    ensures
        match r {
            Some(i) => heading_from(items@, from as int) == Some(i as int) && i < items.len(),
            None => heading_from(items@, from as int) is None,
        },
{
    let mut i: usize = from;
    while i < items.len()
        invariant
            heading_from(items@, from as int) == heading_from(items@, i as int),
        decreases items.len() - i,
    {
        if is_heading(&items[i]) {
            return Some(i);
        }
        i += 1;
    }
    None
}

pub fn find_heading_before(items: &[Item], before: usize) -> (r: Option<usize>)
    ensures
        match r {
            Some(i) => heading_before(items@, before as int) == Some(i as int) && i
                < items.len() && i < before,
            None => heading_before(items@, before as int) is None,
        },
{
    if before > items.len() {
        return None;
    }
    let mut i: usize = before;
    while i > 0
        invariant
            i <= before <= items.len(),
            heading_before(items@, before as int) == heading_before(items@, i as int),
        decreases i,
    {
        i -= 1;
        if is_heading(&items[i]) {
            return Some(i);
        }
    }
    None
}

/// The first heading on the pages from `page` on.
pub open spec fn heading_on_pages_from(pages: Seq<LoadedPage>, page: int) -> Option<Cursor>
    decreases pages.len() - page,
{
    if page < 0 || page >= pages.len() {
        None
    } else {
        match heading_from(items_of(pages, page), 0) {
            Some(i) => Some(Cursor { page: page as usize, item: i as usize }),
            None => heading_on_pages_from(pages, page + 1),
        }
    }
}

/// The last heading on the pages before `page`.
pub open spec fn heading_on_pages_before(pages: Seq<LoadedPage>, page: int) -> Option<Cursor>
    decreases page,
{
    if page <= 0 || page > pages.len() {
        None
    } else {
        let items = items_of(pages, page - 1);
        match heading_before(items, items.len() as int) {
            Some(i) => Some(Cursor { page: (page - 1) as usize, item: i as usize }),
            None => heading_on_pages_before(pages, page - 1),
        }
    }
}

fn find_heading_on_pages(pages: &[LoadedPage], from: usize) -> (r: Option<Cursor>)
    ensures
        r == heading_on_pages_from(pages@, from as int),
{
    let mut page: usize = from;
    while page < pages.len()
        invariant
            heading_on_pages_from(pages@, from as int) == heading_on_pages_from(
                pages@,
                page as int,
            ),
        decreases pages.len() - page,
    {
        if let Some(i) = find_heading(pages[page].manifest.items.as_slice(), 0) {
            return Some(Cursor { page, item: i });
        }
        page += 1;
    }
    None
}

fn find_heading_on_pages_before(pages: &[LoadedPage], before: usize) -> (r: Option<Cursor>)
    requires
        before <= pages.len(),
    ensures
        r == heading_on_pages_before(pages@, before as int),
{
    let mut page: usize = before;
    while page > 0
        invariant
            page <= before <= pages.len(),
            heading_on_pages_before(pages@, before as int) == heading_on_pages_before(
                pages@,
                page as int,
            ),
        decreases page,
    {
        page -= 1;
        let items = pages[page].manifest.items.as_slice();
        if let Some(i) = find_heading_before(items, items.len()) {
            return Some(Cursor { page, item: i });
        }
    }
    None
}

/// Where a jump to the next or previous heading leads; nowhere where there is
/// none.
pub open spec fn at_heading(pages: Seq<LoadedPage>, cur: Cursor, dir: Direction) -> Cursor {
    let items = items_of(pages, cur.page as int);
    let here = match dir {
        Direction::Forward => heading_from(items, cur.item + 1),
        Direction::Backward => heading_before(items, cur.item as int),
    };
    match here {
        Some(i) => Cursor { page: cur.page, item: i as usize },
        None => {
            let there = match dir {
                Direction::Forward => heading_on_pages_from(pages, cur.page + 1),
                Direction::Backward => heading_on_pages_before(pages, cur.page as int),
            };
            match there {
                Some(c) => c,
                None => cur,
            }
        },
    }
}

/// Jumps to the next or previous heading, across pages.
pub fn step_to_heading(pages: &[LoadedPage], cur: Cursor, dir: Direction) -> (r: Cursor)
    requires
        cur.page < pages.len(),
    ensures
        r == at_heading(pages@, cur, dir),
{
    let items = pages[cur.page].manifest.items.as_slice();
    let here = match dir {
        Direction::Forward => if cur.item < items.len() {
            find_heading(items, cur.item + 1)
        } else {
            None
        },
        Direction::Backward => find_heading_before(items, cur.item),
    };
    if let Some(i) = here {
        return Cursor { page: cur.page, item: i };
    }
    let there = match dir {
        Direction::Forward => find_heading_on_pages(pages, cur.page + 1),
        Direction::Backward => find_heading_on_pages_before(pages, cur.page),
    };
    match there {
        Some(c) => c,
        None => cur,
    }
}

/// Where the cursor waits after a jump into a section, and the heading of the
/// section: at a heading, the first item after it at which the cursor can stop
/// (or the heading itself), else the item, with the heading before it.
pub open spec fn armed_place(items: Seq<Item>, cursor_item: int) -> (int, Option<int>) {
    if items.len() == 0 {
        (0, None)
    } else {
        let i = if cursor_item < items.len() {
            cursor_item
        } else {
            items.len() - 1
        };
        if heading_item(items[i]) {
            match navigable_from(items, i + 1) {
                Some(n) => (n, Some(i)),
                None => (i, Some(i)),
            }
        } else {
            (i, heading_before(items, i + 1))
        }
    }
}

/// Where the cursor waits after a jump into a section, and which heading is
/// spoken.
pub fn place_armed_cursor(items: &[Item], cursor_item: usize) -> (r: (usize, Option<usize>))
    ensures
        r.0 == armed_place(items@, cursor_item as int).0,
        match r.1 {
            Some(h) => armed_place(items@, cursor_item as int).1 == Some(h as int) && h
                < items.len(),
            None => armed_place(items@, cursor_item as int).1 is None,
        },
        items.len() > 0 ==> r.0 < items.len(),
{
    if items.len() == 0 {
        return (0, None);
    }
    let i: usize = if cursor_item < items.len() {
        cursor_item
    } else {
        items.len() - 1
    };
    if is_heading(&items[i]) {
        proof {
            lemma_navigable_from(items@, i + 1);
        }
        match find_navigable(items, i + 1) {
            Some(n) => (n, Some(i)),
            None => (i, Some(i)),
        }
    } else {
        (i, find_heading_before(items, i + 1))
    }
}

// ---------------------------------------------------------------------------
// Pages
// ---------------------------------------------------------------------------

/// The start of a page.
pub open spec fn page_start(pages: Seq<LoadedPage>, page: int) -> Cursor {
    Cursor { page: page as usize, item: first_stop(items_of(pages, page)) as usize }
}

/// The start of the neighbouring page, or of this one at the first or last page.
pub open spec fn paged(pages: Seq<LoadedPage>, cur: Cursor, dir: Direction) -> Cursor {
    let page = match dir {
        Direction::Forward => if cur.page + 1 < pages.len() {
            cur.page + 1
        } else {
            pages.len() - 1
        },
        Direction::Backward => if cur.page > 0 {
            cur.page - 1
        } else {
            0
        },
    };
    page_start(pages, page)
}

/// Moves to the start of the next or previous page.
pub fn jump_page(pages: &[LoadedPage], cur: Cursor, dir: Direction) -> (r: Cursor)
    requires
        cur.page < pages.len(),
    ensures
        r == paged(pages@, cur, dir),
{
    let page: usize = match dir {
        Direction::Forward => if cur.page < pages.len() - 1 {
            cur.page + 1
        } else {
            pages.len() - 1
        },
        Direction::Backward => if cur.page > 0 {
            cur.page - 1
        } else {
            0
        },
    };
    Cursor { page, item: first_navigable(pages[page].manifest.items.as_slice()) }
}

/// The start of page `n`, counted from 1, or of the nearest page there is.
pub open spec fn numbered_page(pages: Seq<LoadedPage>, n: int) -> Cursor {
    if pages.len() == 0 {
        Cursor { page: 0, item: 0 }
    } else if n <= 1 {
        page_start(pages, 0)
    } else if n <= pages.len() {
        page_start(pages, n - 1)
    } else {
        page_start(pages, pages.len() - 1)
    }
}

/// The start of page `n`, counted from 1 as it is spoken. A number that is too
/// large leads to the last page.
pub fn page_cursor(pages: &[LoadedPage], n: u32) -> (r: Cursor)
    ensures
        r == numbered_page(pages@, n as int),
{
    if pages.len() == 0 {
        return Cursor { page: 0, item: 0 };
    }
    let wanted: usize = if n > 0 {
        n as usize - 1
    } else {
        0
    };
    let page: usize = if wanted < pages.len() {
        wanted
    } else {
        pages.len() - 1
    };
    Cursor { page, item: first_navigable(pages[page].manifest.items.as_slice()) }
}

/// The place nearest to the given page and item that exists.
pub open spec fn clamped(pages: Seq<LoadedPage>, page: int, item: int) -> Cursor {
    if pages.len() == 0 {
        Cursor { page: 0, item: 0 }
    } else {
        let p = if page < pages.len() {
            page
        } else {
            pages.len() - 1
        };
        let n = items_of(pages, p).len();
        let i = if item < n {
            item
        } else if n > 0 {
            n - 1
        } else {
            0
        };
        Cursor { page: p as usize, item: i as usize }
    }
}

/// The place nearest to the given page and item that exists.
pub fn clamp_cursor(pages: &[LoadedPage], page: usize, item: usize) -> (r: Cursor)
    ensures
        r == clamped(pages@, page as int, item as int),
{
    if pages.len() == 0 {
        return Cursor { page: 0, item: 0 };
    }
    let p: usize = if page < pages.len() {
        page
    } else {
        pages.len() - 1
    };
    let n: usize = pages[p].manifest.items.len();
    let i: usize = if item < n {
        item
    } else if n > 0 {
        n - 1
    } else {
        0
    };
    Cursor { page: p, item: i }
}

/// The start of the section that the item is in: the first item after its
/// heading at which the cursor can stop, or the heading where there is none;
/// the start of the page where no heading comes before.
pub open spec fn section_start(items: Seq<Item>, item: int) -> int {
    match heading_before(items, item + 1) {
        Some(h) => match navigable_from(items, h + 1) {
            Some(i) => i,
            None => h,
        },
        None => 0,
    }
}

pub fn find_section_start(items: &[Item], item: usize) -> (r: usize)
    requires
        item < items.len(),
    ensures
        r == section_start(items@, item as int),
        r < items.len(),
{
    match find_heading_before(items, item + 1) {
        Some(h) => {
            proof {
                lemma_navigable_from(items@, h + 1);
            }
            match find_navigable(items, h + 1) {
                Some(i) => i,
                None => h,
            }
        },
        None => 0,
    }
}

// ---------------------------------------------------------------------------
// Laws
// ---------------------------------------------------------------------------

proof fn lemma_stops(items: Seq<Item>)
    ensures
        0 <= first_stop(items),
        items.len() > 0 ==> first_stop(items) < items.len(),
        items.len() == 0 ==> first_stop(items) == 0,
{
    lemma_navigable_from(items, 0);
}

proof fn lemma_headings(items: Seq<Item>, i: int)
    ensures
        heading_from(items, i) is Some ==> 0 <= heading_from(items, i)->0 < items.len()
            && heading_from(items, i)->0 >= i && heading_item(items[heading_from(items, i)->0]),
    decreases items.len() - i,
{
    if 0 <= i < items.len() && !heading_item(items[i]) {
        lemma_headings(items, i + 1);
    }
}

pub proof fn lemma_headings_before(items: Seq<Item>, i: int)
    ensures
        heading_before(items, i) is Some ==> 0 <= heading_before(items, i)->0 < i && i
            <= items.len() && heading_item(items[heading_before(items, i)->0]),
        0 <= i <= items.len() && heading_before(items, i) is Some ==> forall|k: int|
            heading_before(items, i)->0 < k < i ==> !heading_item(#[trigger] items[k]),
        0 <= i <= items.len() && heading_before(items, i) is None ==> forall|k: int|
            0 <= k < i ==> !heading_item(#[trigger] items[k]),
    decreases i,
{
    if 0 < i <= items.len() && !heading_item(items[i - 1]) {
        lemma_headings_before(items, i - 1);
    }
}

proof fn lemma_page_headings_from(pages: Seq<LoadedPage>, page: int)
    requires
        pages.len() <= usize::MAX,
        forall|p: int| 0 <= p < pages.len() ==> items_of(pages, p).len() <= usize::MAX,
    ensures
        heading_on_pages_from(pages, page) is Some ==> {
            let c = heading_on_pages_from(pages, page)->0;
            inside(pages, c) && heading_item(items_of(pages, c.page as int)[c.item as int])
        },
    decreases pages.len() - page,
{
    if 0 <= page < pages.len() {
        lemma_headings(items_of(pages, page), 0);
        assert(items_of(pages, page).len() <= usize::MAX);
        lemma_page_headings_from(pages, page + 1);
    }
}

proof fn lemma_page_headings_before(pages: Seq<LoadedPage>, page: int)
    requires
        pages.len() <= usize::MAX,
        forall|p: int| 0 <= p < pages.len() ==> items_of(pages, p).len() <= usize::MAX,
    ensures
        heading_on_pages_before(pages, page) is Some ==> {
            let c = heading_on_pages_before(pages, page)->0;
            inside(pages, c) && heading_item(items_of(pages, c.page as int)[c.item as int])
        },
    decreases page,
{
    if 0 < page <= pages.len() {
        let items = items_of(pages, page - 1);
        lemma_headings_before(items, items.len() as int);
        assert(items.len() <= usize::MAX);
        lemma_page_headings_before(pages, page - 1);
    }
}

/// No item on the pages from `from` up to `to` is one at which the cursor can
/// stop.
spec fn no_stop_between(pages: Seq<LoadedPage>, from: int, to: int) -> bool {
    forall|p: int, i: int|
        #![trigger items_of(pages, p)[i]]
        from <= p < to && 0 <= i < items_of(pages, p).len() ==> !items_of(pages, p)[i].navigable
}

proof fn lemma_page_stops_from(pages: Seq<LoadedPage>, page: int)
    requires
        0 <= page,
        sized(pages),
    ensures
        match stop_on_pages_from(pages, page) {
            Some(c) => {
                &&& inside(pages, c)
                &&& page <= c.page
                &&& items_of(pages, c.page as int).len() > 0
                &&& items_of(pages, c.page as int)[c.item as int].navigable
                &&& no_stop_between(pages, page, c.page as int)
                &&& navigable_from(items_of(pages, c.page as int), 0) == Some(c.item as int)
            },
            None => no_stop_between(pages, page, pages.len() as int),
        },
    decreases pages.len() - page,
{
    if page < pages.len() {
        lemma_navigable_from(items_of(pages, page), 0);
        assert(items_of(pages, page).len() <= usize::MAX);
        lemma_page_stops_from(pages, page + 1);
    }
}

proof fn lemma_page_stops_before(pages: Seq<LoadedPage>, page: int)
    requires
        0 <= page <= pages.len(),
        sized(pages),
    ensures
        match stop_on_pages_before(pages, page) {
            Some(c) => {
                &&& inside(pages, c)
                &&& c.page < page
                &&& items_of(pages, c.page as int).len() > 0
                &&& items_of(pages, c.page as int)[c.item as int].navigable
                &&& no_stop_between(pages, c.page + 1, page)
                &&& navigable_before(
                    items_of(pages, c.page as int),
                    items_of(pages, c.page as int).len() as int,
                ) == Some(c.item as int)
            },
            None => no_stop_between(pages, 0, page),
        },
    decreases page,
{
    if page > 0 {
        let items = items_of(pages, page - 1);
        lemma_navigable_before(items, items.len() as int);
        assert(items.len() <= usize::MAX);
        lemma_page_stops_before(pages, page - 1);
    }
}

/// The pages are no more than a vector can hold, and so are the items of each.
pub open spec fn sized(pages: Seq<LoadedPage>) -> bool {
    pages.len() <= usize::MAX && forall|p: int|
        0 <= p < pages.len() ==> items_of(pages, p).len() <= usize::MAX
}

/// No movement leaves the pages: from a place inside, every step, jump and turn
/// of a page leads to a place inside.
pub proof fn law_moves_stay_inside(pages: Seq<LoadedPage>, cur: Cursor, dir: Direction)
    requires
        inside(pages, cur),
        sized(pages),
    ensures
        inside(pages, stepped(pages, cur, dir)),
        inside(pages, at_heading(pages, cur, dir)),
        inside(pages, paged(pages, cur, dir)),
{
    let items = items_of(pages, cur.page as int);
    assert(items.len() <= usize::MAX);
    lemma_navigable_from(items, cur.item + 1);
    lemma_navigable_before(items, cur.item as int);
    lemma_headings(items, cur.item + 1);
    lemma_headings_before(items, cur.item as int);
    lemma_page_headings_from(pages, cur.page + 1);
    lemma_page_headings_before(pages, cur.page as int);
    lemma_page_stops_from(pages, cur.page + 1);
    lemma_page_stops_before(pages, cur.page as int);
    lemma_stops(items);
    if cur.page + 1 < pages.len() {
        lemma_stops(items_of(pages, cur.page + 1));
        assert(items_of(pages, cur.page + 1).len() <= usize::MAX);
    } else {
        assert(cur.page + 1 == pages.len());
    }
    if cur.page > 0 {
        lemma_stops(items_of(pages, cur.page - 1));
        assert(items_of(pages, cur.page - 1).len() <= usize::MAX);
    }
}

/// A page number, and any place at all, leads to a place inside the pages.
pub proof fn law_targets_are_inside(pages: Seq<LoadedPage>, n: int, page: int, item: int)
    requires
        pages.len() > 0,
        sized(pages),
        0 <= page,
        0 <= item,
    ensures
        inside(pages, numbered_page(pages, n)),
        inside(pages, clamped(pages, page, item)),
{
    let a = numbered_page(pages, n).page as int;
    let at = if n <= 1 {
        0
    } else if n <= pages.len() {
        n - 1
    } else {
        pages.len() - 1
    };
    assert(items_of(pages, at).len() <= usize::MAX);
    lemma_stops(items_of(pages, at));
    let p = if page < pages.len() {
        page
    } else {
        pages.len() - 1
    };
    assert(items_of(pages, p).len() <= usize::MAX);
}

/// A place inside the pages is left as it is by clamping.
pub proof fn law_clamping_keeps_what_is_inside(pages: Seq<LoadedPage>, c: Cursor)
    requires
        inside(pages, c),
    ensures
        clamped(pages, c.page as int, c.item as int) == c,
{
}

/// A step leads to an item at which the cursor can stop, unless there is none
/// further on in the direction; then it leads nowhere.
pub proof fn law_steps_lead_to_stops(pages: Seq<LoadedPage>, cur: Cursor, dir: Direction)
    requires
        inside(pages, cur),
        sized(pages),
    ensures
        stepped(pages, cur, dir) != cur ==> {
            let c = stepped(pages, cur, dir);
            &&& items_of(pages, c.page as int).len() > 0
            &&& items_of(pages, c.page as int)[c.item as int].navigable
        },
        stepped(pages, cur, Direction::Forward) == cur ==> forall|p: int, i: int|
            #![trigger items_of(pages, p)[i]]
            (p == cur.page && cur.item < i < items_of(pages, p).len()) || (cur.page < p
                < pages.len() && 0 <= i < items_of(pages, p).len()) ==> !items_of(
                pages,
                p,
            )[i].navigable,
        stepped(pages, cur, Direction::Backward) == cur ==> forall|p: int, i: int|
            #![trigger items_of(pages, p)[i]]
            (p == cur.page && 0 <= i < cur.item && i < items_of(pages, p).len()) || (0 <= p
                < cur.page && 0 <= i < items_of(pages, p).len()) ==> !items_of(
                pages,
                p,
            )[i].navigable,
{
    let items = items_of(pages, cur.page as int);
    assert(items.len() <= usize::MAX);
    lemma_navigable_from(items, cur.item + 1);
    if items.len() > 0 {
        lemma_navigable_before(items, cur.item as int);
    }
    lemma_page_stops_from(pages, cur.page + 1);
    lemma_page_stops_before(pages, cur.page as int);
}

/// Stepping back undoes a step forward, also across pages: from an item at
/// which the cursor can stop, a step that leads somewhere else and a step back
/// lead to where they started.
pub proof fn law_step_back_undoes_step(pages: Seq<LoadedPage>, cur: Cursor)
    requires
        inside(pages, cur),
        sized(pages),
        items_of(pages, cur.page as int).len() > 0,
        items_of(pages, cur.page as int)[cur.item as int].navigable,
        stepped(pages, cur, Direction::Forward) != cur,
    ensures
        stepped(pages, stepped(pages, cur, Direction::Forward), Direction::Backward) == cur,
{
    let items = items_of(pages, cur.page as int);
    let next = stepped(pages, cur, Direction::Forward);
    assert(items.len() <= usize::MAX);
    law_moves_stay_inside(pages, cur, Direction::Forward);
    lemma_navigable_from(items, cur.item + 1);
    lemma_page_stops_from(pages, cur.page + 1);
    let there = items_of(pages, next.page as int);
    assert(there.len() <= usize::MAX);
    lemma_navigable_before(there, next.item as int);
    if next.page == cur.page {
        assert(navigable_before(items, next.item as int) == Some(cur.item as int));
    } else {
        lemma_navigable_from(there, 0);
        assert(navigable_before(there, next.item as int) is None);
        lemma_navigable_before(items, items.len() as int);
        assert(navigable_before(items, items.len() as int) == Some(cur.item as int));
        lemma_page_stops_before(pages, next.page as int);
        let back = stop_on_pages_before(pages, next.page as int);
        assert(items[cur.item as int].navigable);
        if back is None {
            assert(!items_of(pages, cur.page as int)[cur.item as int].navigable);
        } else if (back->0).page > cur.page {
            let c = back->0;
            assert(!items_of(pages, c.page as int)[c.item as int].navigable);
        } else if (back->0).page < cur.page {
            assert(!items_of(pages, cur.page as int)[cur.item as int].navigable);
        }
    }
}

/// Stepping forward undoes a step back, also across pages: from an item at which
/// the cursor can stop, a step back that leads somewhere else and a step forward
/// lead to where they started.
pub proof fn law_step_undoes_step_back(pages: Seq<LoadedPage>, cur: Cursor)
    requires
        inside(pages, cur),
        sized(pages),
        items_of(pages, cur.page as int).len() > 0,
        items_of(pages, cur.page as int)[cur.item as int].navigable,
        stepped(pages, cur, Direction::Backward) != cur,
    ensures
        stepped(pages, stepped(pages, cur, Direction::Backward), Direction::Forward) == cur,
{
    let items = items_of(pages, cur.page as int);
    let prev = stepped(pages, cur, Direction::Backward);
    assert(items.len() <= usize::MAX);
    law_moves_stay_inside(pages, cur, Direction::Backward);
    lemma_navigable_before(items, cur.item as int);
    lemma_page_stops_before(pages, cur.page as int);
    let there = items_of(pages, prev.page as int);
    assert(there.len() <= usize::MAX);
    lemma_navigable_from(there, prev.item + 1);
    if prev.page == cur.page {
        assert(navigable_from(items, prev.item + 1) == Some(cur.item as int));
    } else {
        lemma_navigable_before(there, there.len() as int);
        assert(navigable_from(there, prev.item + 1) is None);
        lemma_navigable_from(items, 0);
        assert(navigable_from(items, 0) == Some(cur.item as int));
        lemma_page_stops_from(pages, prev.page + 1);
        let back = stop_on_pages_from(pages, prev.page + 1);
        assert(items[cur.item as int].navigable);
        if back is None {
            assert(!items_of(pages, cur.page as int)[cur.item as int].navigable);
        } else if (back->0).page < cur.page {
            let c = back->0;
            assert(!items_of(pages, c.page as int)[c.item as int].navigable);
        } else if (back->0).page > cur.page {
            assert(!items_of(pages, cur.page as int)[cur.item as int].navigable);
        }
    }
}

/// Placing the waiting cursor again leaves it where it is, unless it waits at a
/// heading that has an item after it at which the cursor can stop.
pub proof fn law_placing_again_keeps_the_cursor(items: Seq<Item>, cursor_item: int)
    requires
        0 <= cursor_item,
        items.len() > 0,
        !(heading_item(items[armed_place(items, cursor_item).0]) && navigable_from(
            items,
            armed_place(items, cursor_item).0 + 1,
        ) is Some),
    ensures
        armed_place(items, armed_place(items, cursor_item).0).0 == armed_place(
            items,
            cursor_item,
        ).0,
{
    let i = if cursor_item < items.len() {
        cursor_item
    } else {
        items.len() - 1
    };
    lemma_navigable_from(items, i + 1);
}

/// The heading that is spoken after a jump comes at or before the place where
/// the cursor waits, and is a heading.
pub proof fn law_spoken_heading_is_before_the_cursor(items: Seq<Item>, cursor_item: int)
    requires
        0 <= cursor_item,
        armed_place(items, cursor_item).1 is Some,
    ensures
        armed_place(items, cursor_item).1->0 <= armed_place(items, cursor_item).0,
        heading_item(items[armed_place(items, cursor_item).1->0]),
{
    let i = if cursor_item < items.len() {
        cursor_item
    } else {
        items.len() - 1
    };
    lemma_navigable_from(items, i + 1);
    lemma_headings_before(items, i + 1);
}

// ---------------------------------------------------------------------------
// Where movements lead, by the order of places
// ---------------------------------------------------------------------------

/// One place comes before another: on an earlier page, or earlier on the page.
pub open spec fn comes_before(a: Cursor, b: Cursor) -> bool {
    a.page < b.page || (a.page == b.page && a.item < b.item)
}

/// There is an item at the place at which the cursor can stop.
pub open spec fn is_stop(pages: Seq<LoadedPage>, c: Cursor) -> bool {
    &&& c.page < pages.len()
    &&& c.item < pages[c.page as int].manifest.items@.len()
    &&& pages[c.page as int].manifest.items@[c.item as int].navigable
}

/// There is a heading at the place.
pub open spec fn is_title(pages: Seq<LoadedPage>, c: Cursor) -> bool {
    &&& c.page < pages.len()
    &&& c.item < pages[c.page as int].manifest.items@.len()
    &&& {
        let kind = pages[c.page as int].manifest.items@[c.item as int].kind@;
        kind == "section-header"@ || kind == "branch-header"@ || kind == "notes-heading"@
    }
}

/// Of the stops that come after `from`, `to` is the first; where there are none,
/// `to` is `from`.
pub open spec fn next_stop(pages: Seq<LoadedPage>, from: Cursor, to: Cursor) -> bool {
    if to == from {
        forall|d: Cursor| #[trigger] is_stop(pages, d) ==> !comes_before(from, d)
    } else {
        &&& is_stop(pages, to)
        &&& comes_before(from, to)
        &&& forall|d: Cursor|
            #[trigger] is_stop(pages, d) && comes_before(from, d) ==> d == to || comes_before(to, d)
    }
}

/// Of the stops that come before `from`, `to` is the last; where there are none,
/// `to` is `from`.
pub open spec fn previous_stop(pages: Seq<LoadedPage>, from: Cursor, to: Cursor) -> bool {
    if to == from {
        forall|d: Cursor| #[trigger] is_stop(pages, d) ==> !comes_before(d, from)
    } else {
        &&& is_stop(pages, to)
        &&& comes_before(to, from)
        &&& forall|d: Cursor|
            #[trigger] is_stop(pages, d) && comes_before(d, from) ==> d == to || comes_before(d, to)
    }
}

/// Of the headings that come after `from`, `to` is the first; where there are
/// none, `to` is `from`.
pub open spec fn next_title(pages: Seq<LoadedPage>, from: Cursor, to: Cursor) -> bool {
    if to == from {
        forall|d: Cursor| #[trigger] is_title(pages, d) ==> !comes_before(from, d)
    } else {
        &&& is_title(pages, to)
        &&& comes_before(from, to)
        &&& forall|d: Cursor|
            #[trigger] is_title(pages, d) && comes_before(from, d) ==> d == to || comes_before(
                to,
                d,
            )
    }
}

/// Of the headings that come before `from`, `to` is the last; where there are
/// none, `to` is `from`.
pub open spec fn previous_title(pages: Seq<LoadedPage>, from: Cursor, to: Cursor) -> bool {
    if to == from {
        forall|d: Cursor| #[trigger] is_title(pages, d) ==> !comes_before(d, from)
    } else {
        &&& is_title(pages, to)
        &&& comes_before(to, from)
        &&& forall|d: Cursor|
            #[trigger] is_title(pages, d) && comes_before(d, from) ==> d == to || comes_before(
                d,
                to,
            )
    }
}

/// A step forward leads to the first stop after the cursor, and a step back to
/// the last one before it, on whatever page that is.
pub proof fn law_step_leads_to_the_nearest_stop(pages: Seq<LoadedPage>, cur: Cursor)
    requires
        inside(pages, cur),
        sized(pages),
    ensures
        next_stop(pages, cur, stepped(pages, cur, Direction::Forward)),
        previous_stop(pages, cur, stepped(pages, cur, Direction::Backward)),
{
    let items = items_of(pages, cur.page as int);
    assert(items.len() <= usize::MAX);
    lemma_navigable_from(items, cur.item + 1);
    if items.len() > 0 {
        lemma_navigable_before(items, cur.item as int);
    }
    lemma_page_stops_from(pages, cur.page + 1);
    lemma_page_stops_before(pages, cur.page as int);
    let next = stepped(pages, cur, Direction::Forward);
    assert forall|d: Cursor| #[trigger]
        is_stop(pages, d) && comes_before(cur, d) implies next != cur && (d == next
        || comes_before(next, d)) by {
        assert(items_of(pages, d.page as int)[d.item as int].navigable);
        if d.page == next.page && next.page > cur.page {
            lemma_navigable_from(items_of(pages, next.page as int), 0);
        }
    }
    let prev = stepped(pages, cur, Direction::Backward);
    assert forall|d: Cursor| #[trigger]
        is_stop(pages, d) && comes_before(d, cur) implies prev != cur && (d == prev
        || comes_before(d, prev)) by {
        assert(items_of(pages, d.page as int)[d.item as int].navigable);
        if d.page == prev.page && prev.page < cur.page {
            let there = items_of(pages, prev.page as int);
            lemma_navigable_before(there, there.len() as int);
        }
    }
}

proof fn lemma_first_heading(items: Seq<Item>, from: int)
    requires
        0 <= from,
    ensures
        match heading_from(items, from) {
            Some(i) => from <= i < items.len() && heading_item(items[i]) && forall|j: int|
                from <= j < i ==> !heading_item(#[trigger] items[j]),
            None => forall|j: int| from <= j < items.len() ==> !heading_item(#[trigger] items[j]),
        },
    decreases items.len() - from,
{
    if from < items.len() && !heading_item(items[from]) {
        lemma_first_heading(items, from + 1);
    }
}

/// No item on the pages from `from` up to `to` is a heading.
spec fn no_title_between(pages: Seq<LoadedPage>, from: int, to: int) -> bool {
    forall|p: int, i: int|
        #![trigger items_of(pages, p)[i]]
        from <= p < to && 0 <= i < items_of(pages, p).len() ==> !heading_item(
            items_of(pages, p)[i],
        )
}

proof fn lemma_page_titles_from(pages: Seq<LoadedPage>, page: int)
    requires
        0 <= page,
        sized(pages),
    ensures
        match heading_on_pages_from(pages, page) {
            Some(c) => {
                &&& page <= c.page < pages.len()
                &&& c.item < items_of(pages, c.page as int).len()
                &&& heading_item(items_of(pages, c.page as int)[c.item as int])
                &&& no_title_between(pages, page, c.page as int)
                &&& heading_from(items_of(pages, c.page as int), 0) == Some(c.item as int)
            },
            None => no_title_between(pages, page, pages.len() as int),
        },
    decreases pages.len() - page,
{
    if page < pages.len() {
        lemma_first_heading(items_of(pages, page), 0);
        assert(items_of(pages, page).len() <= usize::MAX);
        lemma_page_titles_from(pages, page + 1);
    }
}

proof fn lemma_page_titles_before(pages: Seq<LoadedPage>, page: int)
    requires
        0 <= page <= pages.len(),
        sized(pages),
    ensures
        match heading_on_pages_before(pages, page) {
            Some(c) => {
                &&& c.page < page
                &&& c.item < items_of(pages, c.page as int).len()
                &&& heading_item(items_of(pages, c.page as int)[c.item as int])
                &&& no_title_between(pages, c.page + 1, page)
                &&& heading_before(
                    items_of(pages, c.page as int),
                    items_of(pages, c.page as int).len() as int,
                ) == Some(c.item as int)
            },
            None => no_title_between(pages, 0, page),
        },
    decreases page,
{
    if page > 0 {
        let items = items_of(pages, page - 1);
        lemma_headings_before(items, items.len() as int);
        assert(items.len() <= usize::MAX);
        lemma_page_titles_before(pages, page - 1);
    }
}

/// A jump forward leads to the first heading after the cursor, and a jump back to
/// the last one before it, on whatever page that is.
pub proof fn law_jump_leads_to_the_nearest_heading(pages: Seq<LoadedPage>, cur: Cursor)
    requires
        inside(pages, cur),
        sized(pages),
    ensures
        next_title(pages, cur, at_heading(pages, cur, Direction::Forward)),
        previous_title(pages, cur, at_heading(pages, cur, Direction::Backward)),
{
    let items = items_of(pages, cur.page as int);
    assert(items.len() <= usize::MAX);
    lemma_first_heading(items, cur.item + 1);
    lemma_headings_before(items, cur.item as int);
    lemma_page_titles_from(pages, cur.page + 1);
    lemma_page_titles_before(pages, cur.page as int);
    let next = at_heading(pages, cur, Direction::Forward);
    assert forall|d: Cursor| #[trigger]
        is_title(pages, d) && comes_before(cur, d) implies next != cur && (d == next
        || comes_before(next, d)) by {
        assert(heading_item(items_of(pages, d.page as int)[d.item as int]));
        if d.page == next.page && next.page > cur.page {
            lemma_first_heading(items_of(pages, next.page as int), 0);
        }
    }
    let prev = at_heading(pages, cur, Direction::Backward);
    assert forall|d: Cursor| #[trigger]
        is_title(pages, d) && comes_before(d, cur) implies prev != cur && (d == prev
        || comes_before(d, prev)) by {
        assert(heading_item(items_of(pages, d.page as int)[d.item as int]));
        if d.page == prev.page && prev.page < cur.page {
            let there = items_of(pages, prev.page as int);
            lemma_headings_before(there, there.len() as int);
        }
    }
}

/// `c` is the start of its page: the first stop on it, or its first item where
/// there is none.
pub open spec fn opens_page(pages: Seq<LoadedPage>, c: Cursor) -> bool {
    if is_stop(pages, c) {
        forall|d: Cursor| #[trigger] is_stop(pages, d) && d.page == c.page ==> c.item <= d.item
    } else {
        c.item == 0 && forall|d: Cursor| #[trigger] is_stop(pages, d) ==> d.page != c.page
    }
}

proof fn lemma_opens_page(pages: Seq<LoadedPage>, page: int)
    requires
        0 <= page < pages.len(),
        sized(pages),
    ensures
        opens_page(pages, page_start(pages, page)),
        page_start(pages, page).page == page,
{
    let items = items_of(pages, page);
    assert(items.len() <= usize::MAX);
    lemma_navigable_from(items, 0);
    let c = page_start(pages, page);
    assert forall|d: Cursor| #[trigger] is_stop(pages, d) && d.page == c.page implies is_stop(
        pages,
        c,
    ) && c.item <= d.item by {
        assert(items[d.item as int].navigable);
    }
}

/// Turning a page leads to the start of the next or previous page; at the last or
/// first page to the start of that page.
pub proof fn law_pages_turn_one_by_one(pages: Seq<LoadedPage>, cur: Cursor)
    requires
        inside(pages, cur),
        sized(pages),
    ensures
        opens_page(pages, paged(pages, cur, Direction::Forward)),
        opens_page(pages, paged(pages, cur, Direction::Backward)),
        cur.page + 1 < pages.len() ==> paged(pages, cur, Direction::Forward).page == cur.page + 1,
        cur.page + 1 == pages.len() ==> paged(pages, cur, Direction::Forward).page == cur.page,
        cur.page > 0 ==> paged(pages, cur, Direction::Backward).page == cur.page - 1,
        cur.page == 0 ==> paged(pages, cur, Direction::Backward).page == 0,
{
    lemma_opens_page(pages, paged(pages, cur, Direction::Forward).page as int);
    lemma_opens_page(pages, paged(pages, cur, Direction::Backward).page as int);
}

/// Page `n` is the one with `n - 1` pages before it; numbers outside of the pages
/// lead to the first and the last.
pub proof fn law_page_numbers_count_from_one(pages: Seq<LoadedPage>, n: int)
    requires
        pages.len() > 0,
        sized(pages),
    ensures
        opens_page(pages, numbered_page(pages, n)),
        1 <= n <= pages.len() ==> numbered_page(pages, n).page == n - 1,
        n < 1 ==> numbered_page(pages, n).page == 0,
        n > pages.len() ==> numbered_page(pages, n).page == pages.len() - 1,
{
    let at = if n <= 1 {
        0
    } else if n <= pages.len() {
        n - 1
    } else {
        pages.len() - 1
    };
    lemma_opens_page(pages, at);
}

/// `c` is where the session waits for the heading at `h`: the first stop after it
/// on its page, or the heading itself where there is none.
pub open spec fn waits_for(pages: Seq<LoadedPage>, h: Cursor, c: Cursor) -> bool {
    &&& c.page == h.page
    &&& if c == h {
        forall|d: Cursor| #[trigger] is_stop(pages, d) && d.page == h.page ==> d.item <= h.item
    } else {
        &&& is_stop(pages, c)
        &&& h.item < c.item
        &&& forall|d: Cursor|
            #[trigger] is_stop(pages, d) && d.page == h.page && h.item < d.item ==> c.item
                <= d.item
    }
}

/// `h` is the heading that the place `c` is under: the last one on the page that
/// does not come after it.
pub open spec fn heads(pages: Seq<LoadedPage>, h: Cursor, c: Cursor) -> bool {
    &&& is_title(pages, h)
    &&& h.page == c.page
    &&& h.item <= c.item
    &&& forall|d: Cursor|
        #[trigger] is_title(pages, d) && d.page == c.page && d.item <= c.item ==> d.item <= h.item
}

/// After a jump to a heading, the session waits at the first stop behind it, and
/// it is that heading that is spoken; after a jump to any other item it waits
/// there, with the heading that the item is under.
pub proof fn law_waiting_is_behind_the_heading(pages: Seq<LoadedPage>, cur: Cursor)
    requires
        inside(pages, cur),
        sized(pages),
        pages[cur.page as int].manifest.items@.len() > 0,
    ensures
        ({
            let (item, heading) = armed_place(
                pages[cur.page as int].manifest.items@,
                cur.item as int,
            );
            let c = Cursor { page: cur.page, item: item as usize };
            &&& 0 <= item < pages[cur.page as int].manifest.items@.len()
            &&& is_title(pages, cur) ==> waits_for(pages, cur, c) && heading == Some(
                cur.item as int,
            )
            &&& !is_title(pages, cur) ==> c == cur && match heading {
                Some(h) => 0 <= h <= cur.item && heads(
                    pages,
                    Cursor { page: cur.page, item: h as usize },
                    cur,
                ),
                None => forall|d: Cursor| #[trigger]
                    is_title(pages, d) && d.page == cur.page ==> d.item > cur.item,
            }
        }),
{
    let items = items_of(pages, cur.page as int);
    assert(items.len() <= usize::MAX);
    lemma_navigable_from(items, cur.item + 1);
    lemma_headings_before(items, cur.item + 1);
    let (item, heading) = armed_place(items, cur.item as int);
    let c = Cursor { page: cur.page, item: item as usize };
    assert(is_title(pages, cur) == heading_item(items[cur.item as int]));
    if is_title(pages, cur) {
        assert forall|d: Cursor| #[trigger]
            is_stop(pages, d) && d.page == cur.page && cur.item < d.item implies c != cur && c.item
            <= d.item by {
            assert(items[d.item as int].navigable);
        }
    } else {
        assert forall|d: Cursor| #[trigger]
            is_title(pages, d) && d.page == cur.page && d.item <= cur.item implies heading
            matches Some(h) && d.item <= h by {
            assert(heading_item(items[d.item as int]));
        }
        if let Some(h) = heading {
            assert(is_title(pages, Cursor { page: cur.page, item: h as usize }));
        }
    }
}

/// A section begins at the first stop behind its heading.
pub proof fn law_sections_begin_behind_their_heading(pages: Seq<LoadedPage>, cur: Cursor, h: Cursor)
    requires
        inside(pages, cur),
        sized(pages),
        heads(pages, h, cur),
    ensures
        0 <= section_start(pages[cur.page as int].manifest.items@, cur.item as int)
            < pages[cur.page as int].manifest.items@.len(),
        waits_for(
            pages,
            h,
            Cursor {
                page: cur.page,
                item: section_start(
                    pages[cur.page as int].manifest.items@,
                    cur.item as int,
                ) as usize,
            },
        ),
{
    let items = items_of(pages, cur.page as int);
    assert(items.len() <= usize::MAX);
    lemma_headings_before(items, cur.item + 1);
    assert(heading_item(items[h.item as int]));
    let found = heading_before(items, cur.item + 1)->0;
    assert(is_title(pages, Cursor { page: cur.page, item: found as usize }));
    assert(found == h.item);
    lemma_navigable_from(items, h.item + 1);
    assert forall|d: Cursor| #[trigger]
        is_stop(pages, d) && d.page == cur.page && h.item < d.item implies navigable_from(
        items,
        h.item + 1,
    ) matches Some(i) && i <= d.item by {
        assert(items[d.item as int].navigable);
    }
}

} // verus!
