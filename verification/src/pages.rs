//! Pages of a checklist, and the places in them.

use vstd::prelude::*;

verus! {

/// One line of a page.
#[derive(Debug, Clone)]
pub struct Item {
    /// The number that the page's author gave the item.
    pub idx: u32,
    /// The section that the item belongs to; empty where it has none.
    pub group: String,
    /// What the item is: "step", "section-header", "note", "image" and so on.
    pub kind: String,
    pub text: String,
    /// What to say in place of the text.
    pub spoken: Option<String>,
    /// Whether the cursor stops at the item.
    pub navigable: bool,
    /// Left, top, width and height on the page, each the bit pattern of a
    /// number in single precision.
    pub bbox: [u32; 4],
}

/// What is known of a page.
#[derive(Debug, Clone)]
pub struct PageManifest {
    pub schema_version: String,
    pub title: String,
    /// The file name of the page's image.
    pub image: String,
    pub image_size: [u32; 2],
    pub items: Vec<Item>,
}

/// A page and where its image is.
#[derive(Debug, Clone)]
pub struct LoadedPage {
    pub manifest: PageManifest,
    pub image_path: String,
}

impl LoadedPage {
    pub fn new(manifest: PageManifest, image_path: String) -> (r: LoadedPage)
        ensures
            r == (LoadedPage { manifest, image_path }),
    {
        LoadedPage { manifest, image_path }
    }
}

/// A place in the pages of a tab.
#[derive(Copy, Clone, Debug, PartialEq, Eq, Structural)]
pub struct Cursor {
    pub page: usize,
    pub item: usize,
}

/// The first position from `from` on of an item at which the cursor can stop.
pub open spec fn navigable_from(items: Seq<Item>, from: int) -> Option<int>
    decreases items.len() - from,
{
    if from < 0 || from >= items.len() {
        None
    } else if items[from].navigable {
        Some(from)
    } else {
        navigable_from(items, from + 1)
    }
}

/// The last position before `before` of an item at which the cursor can stop.
pub open spec fn navigable_before(items: Seq<Item>, before: int) -> Option<int>
    decreases before,
{
    if before <= 0 || before > items.len() {
        None
    } else if items[before - 1].navigable {
        Some(before - 1)
    } else {
        navigable_before(items, before - 1)
    }
}

/// The first item at which the cursor can stop, or 0 where there is none.
pub open spec fn first_stop(items: Seq<Item>) -> int {
    match navigable_from(items, 0) {
        Some(i) => i,
        None => 0,
    }
}

pub fn find_navigable(items: &[Item], from: usize) -> (r: Option<usize>)
    ensures
        match r {
            Some(i) => navigable_from(items@, from as int) == Some(i as int),
            None => navigable_from(items@, from as int) is None,
        },
{
    let mut i: usize = from;
    while i < items.len()
        invariant
            from <= i,
            i <= items.len() || i == from,
            navigable_from(items@, from as int) == navigable_from(items@, i as int),
        decreases items.len() - i,
    {
        if items[i].navigable {
            return Some(i);
        }
        i += 1;
    }
    None
}

pub fn find_navigable_before(items: &[Item], before: usize) -> (r: Option<usize>)
    requires
        before <= items.len(),
    ensures
        match r {
            Some(i) => navigable_before(items@, before as int) == Some(i as int),
            None => navigable_before(items@, before as int) is None,
        },
{
    let mut i: usize = before;
    while i > 0
        invariant
            i <= before <= items.len(),
            navigable_before(items@, before as int) == navigable_before(items@, i as int),
        decreases i,
    {
        i -= 1;
        if items[i].navigable {
            return Some(i);
        }
    }
    None
}

/// The first item at which the cursor can stop, or 0 where there is none.
pub fn first_navigable(items: &[Item]) -> (r: usize)
    ensures
        r == first_stop(items@),
{
    match find_navigable(items, 0) {
        Some(i) => i,
        None => 0,
    }
}

pub proof fn lemma_navigable_from(items: Seq<Item>, from: int)
    requires
        0 <= from,
    ensures
        match navigable_from(items, from) {
            Some(i) => from <= i < items.len() && items[i].navigable && forall|j: int|
                from <= j < i ==> !(#[trigger] items[j]).navigable,
            None => forall|j: int|
                from <= j < items.len() ==> !(#[trigger] items[j]).navigable,
        },
    decreases items.len() - from,
{
    if from < items.len() && !items[from].navigable {
        lemma_navigable_from(items, from + 1);
    }
}

pub proof fn lemma_navigable_before(items: Seq<Item>, before: int)
    requires
        0 <= before <= items.len(),
    ensures
        match navigable_before(items, before) {
            Some(i) => 0 <= i < before && items[i].navigable && forall|j: int|
                i < j < before ==> !(#[trigger] items[j]).navigable,
            None => forall|j: int| 0 <= j < before ==> !(#[trigger] items[j]).navigable,
        },
    decreases before,
{
    if before > 0 && !items[before - 1].navigable {
        lemma_navigable_before(items, before - 1);
    }
}

} // verus!
