//! What the actions that move through a checklist do, told by the places that
//! they lead to and the words that are said there.

use vstd::prelude::*;

use crate::actions::Action;
use crate::navigation::{
    at_heading, heads, is_stop, is_title, law_jump_leads_to_the_nearest_heading,
    law_moves_stay_inside, law_page_numbers_count_from_one, law_pages_turn_one_by_one,
    law_sections_begin_behind_their_heading, law_step_leads_to_the_nearest_stop,
    law_step_back_undoes_step, law_waiting_is_behind_the_heading, next_stop, next_title, opens_page,
    previous_stop, previous_title, sized, stepped, waits_for, Direction,
};
use crate::pages::{Cursor, Item, LoadedPage};
use crate::player::{CueView, Move, Outcome, ReadOptions};
use crate::pronunciation::{spoken, PronunciationConfig};
use crate::readings::notes_from;
use crate::section_search::NavTarget;
use crate::tabs::{Deck, Tab};
use crate::text::opt_string;

verus! {

/// A tab is shown, with its cursor at an item of its pages.
pub open spec fn on_item(o: Outcome) -> bool {
    &&& o.deck.active < o.deck.tabs.len()
    &&& sized(pages_of(o))
    &&& place_of(o).page < pages_of(o).len()
    &&& place_of(o).item < pages_of(o)[place_of(o).page as int].manifest.items@.len()
}

/// The pages of the tab that is shown.
pub open spec fn pages_of(o: Outcome) -> Seq<LoadedPage> {
    o.deck.tabs[o.deck.active as int].pages@
}

/// Where the cursor of the tab that is shown is.
pub open spec fn place_of(o: Outcome) -> Cursor {
    o.deck.tabs[o.deck.active as int].cursor
}

/// The item at the cursor.
pub open spec fn item_of(o: Outcome) -> Item {
    pages_of(o)[place_of(o).page as int].manifest.items@[place_of(o).item as int]
}

/// What an item is said as.
pub open spec fn words_for(item: Item, cfg: PronunciationConfig) -> Seq<char> {
    spoken(item.text@, opt_string(item.spoken), cfg)
}

/// Nothing but the cursor of the tab that is shown differs.
pub open spec fn only_cursor_moved(a: Deck, b: Deck) -> bool {
    &&& b.active == a.active
    &&& b.tabs.len() == a.tabs.len()
    &&& forall|i: int| 0 <= i < a.tabs.len() && i != a.active ==> #[trigger] b.tabs[i] == a.tabs[i]
    &&& b.tabs[a.active as int] == (Tab {
        cursor: b.tabs[a.active as int].cursor,
        ..a.tabs[a.active as int]
    })
}

// ---------------------------------------------------------------------------
// Item by item, and page by page
// ---------------------------------------------------------------------------

/// While nothing waits, `Next` goes to the first stop after the cursor and
/// `Previous` to the last one before it; where there is none, the cursor stays.
/// Nothing else moves, and nothing waits afterwards.
pub proof fn law_next_and_previous_go_to_the_nearest_stop(
    o: Outcome,
    opts: ReadOptions,
    cfg: PronunciationConfig,
)
    requires
        on_item(o),
        !o.armed,
    ensures
        next_stop(pages_of(o), place_of(o), place_of(o.acted(Action::Next, opts, cfg))),
        previous_stop(pages_of(o), place_of(o), place_of(o.acted(Action::Previous, opts, cfg))),
        only_cursor_moved(o.deck, o.acted(Action::Next, opts, cfg).deck),
        only_cursor_moved(o.deck, o.acted(Action::Previous, opts, cfg).deck),
        !o.acted(Action::Next, opts, cfg).armed,
        !o.acted(Action::Previous, opts, cfg).armed,
{
    law_step_leads_to_the_nearest_stop(pages_of(o), place_of(o));
}

/// From a stop that `Next` leaves, `Next` and then `Previous` lead back to it.
pub proof fn law_previous_undoes_next(o: Outcome, opts: ReadOptions, cfg: PronunciationConfig)
    requires
        on_item(o),
        !o.armed,
        is_stop(pages_of(o), place_of(o)),
        place_of(o.acted(Action::Next, opts, cfg)) != place_of(o),
    ensures
        place_of(o.acted(Action::Next, opts, cfg).acted(Action::Previous, opts, cfg)) == place_of(
            o,
        ),
{
    law_step_back_undoes_step(pages_of(o), place_of(o));
}

/// While nothing waits, `PageNext` and `PagePrev` go to the start of the
/// neighbouring page, and at the last or first page to the start of that page.
pub proof fn law_pages_are_turned(o: Outcome, opts: ReadOptions, cfg: PronunciationConfig)
    requires
        on_item(o),
        !o.armed,
    ensures
        ({
            let last = pages_of(o).len() - 1;
            let here = place_of(o).page;
            let on = o.acted(Action::PageNext, opts, cfg);
            let back = o.acted(Action::PagePrev, opts, cfg);
            &&& opens_page(pages_of(o), place_of(on))
            &&& opens_page(pages_of(o), place_of(back))
            &&& place_of(on).page == (if here < last {
                here + 1
            } else {
                here as int
            })
            &&& place_of(back).page == (if here > 0 {
                here - 1
            } else {
                0
            })
            &&& only_cursor_moved(o.deck, on.deck)
            &&& only_cursor_moved(o.deck, back.deck)
        }),
{
    law_pages_turn_one_by_one(pages_of(o), place_of(o));
}

/// Going to a page by its number leads to the start of that page, counted from
/// one; a number that is too large leads to the last page.
pub proof fn law_numbered_pages_are_reached(
    o: Outcome,
    n: u32,
    opts: ReadOptions,
    cfg: PronunciationConfig,
)
    requires
        on_item(o),
    ensures
        ({
            let there = o.moved_to(Move::ToPage(n), opts, cfg);
            &&& opens_page(pages_of(o), place_of(there))
            &&& 1 <= n <= pages_of(o).len() ==> place_of(there).page + 1 == n
            &&& n > pages_of(o).len() ==> place_of(there).page + 1 == pages_of(o).len()
            &&& only_cursor_moved(o.deck, there.deck)
        }),
{
    law_page_numbers_count_from_one(pages_of(o), n as int);
}

// ---------------------------------------------------------------------------
// Reading
// ---------------------------------------------------------------------------

/// Reading the current item moves nothing and says the item as it is pronounced.
pub proof fn law_the_current_item_is_read(o: Outcome, opts: ReadOptions, cfg: PronunciationConfig)
    requires
        on_item(o),
        !o.armed,
        !opts.read_notes,
    ensures
        o.acted(Action::ReadCurrent, opts, cfg) == (Outcome {
            playing: true,
            cues: o.cues.push(CueView::Read(words_for(item_of(o), cfg))),
            ..o
        }),
{
    assert(Seq::<char>::empty() + words_for(item_of(o), cfg) + Seq::<char>::empty() =~= words_for(
        item_of(o),
        cfg,
    ));
}

/// Where notes are read, those that follow a step in a row are said behind it,
/// each after a full stop; behind anything else none are said.
pub proof fn law_notes_are_read_behind_their_step(
    o: Outcome,
    opts: ReadOptions,
    cfg: PronunciationConfig,
)
    requires
        on_item(o),
        !o.armed,
        opts.read_notes,
    ensures
        o.acted(Action::ReadCurrent, opts, cfg) == (Outcome {
            playing: true,
            cues: o.cues.push(
                CueView::Read(
                    words_for(item_of(o), cfg) + (if item_of(o).kind@ == "step"@ {
                        notes_from(
                            pages_of(o)[place_of(o).page as int].manifest.items@,
                            place_of(o).item + 1,
                            cfg,
                        )
                    } else {
                        Seq::empty()
                    }),
                ),
            ),
            ..o
        }),
{
    let after = if item_of(o).kind@ == "step"@ {
        notes_from(
            pages_of(o)[place_of(o).page as int].manifest.items@,
            place_of(o).item + 1,
            cfg,
        )
    } else {
        Seq::empty()
    };
    assert(Seq::<char>::empty() + words_for(item_of(o), cfg) + after =~= words_for(
        item_of(o),
        cfg,
    ) + after);
}

/// The item is a supporting note.
pub open spec fn is_remark(item: Item) -> bool {
    let kind = item.kind@;
    ||| kind == "note-info"@
    ||| kind == "note-check"@
    ||| kind == "note-optional"@
    ||| kind == "note-caution"@
    ||| kind == "note-warning"@
    ||| kind == "note-radio"@
}

/// Notes are said one after the other, up to the first item that is none.
pub proof fn law_notes_end_at_the_first_other_item(
    items: Seq<Item>,
    i: int,
    cfg: PronunciationConfig,
)
    requires
        0 <= i <= items.len(),
    ensures
        i < items.len() && is_remark(items[i]) ==> notes_from(items, i, cfg) == ". "@ + words_for(
            items[i],
            cfg,
        ) + notes_from(items, i + 1, cfg),
        i == items.len() || !is_remark(items[i]) ==> notes_from(items, i, cfg).len() == 0,
{
}

/// The play button stops what is playing, and else reads the current item.
pub proof fn law_the_play_button_toggles(o: Outcome, opts: ReadOptions, cfg: PronunciationConfig)
    requires
        on_item(o),
        !o.armed,
    ensures
        o.playing ==> o.acted(Action::TogglePlay, opts, cfg) == (Outcome {
            playing: false,
            cues: o.cues.push(CueView::Stop),
            ..o
        }),
        !o.playing ==> o.acted(Action::TogglePlay, opts, cfg) == o.acted(
            Action::ReadCurrent,
            opts,
            cfg,
        ),
        o.acted(Action::TogglePlay, opts, cfg).playing != o.playing,
{
}

/// A sentence ends in a full stop; nothing is no sentence.
pub open spec fn as_sentence(s: Seq<char>) -> Seq<char> {
    if s.len() == 0 {
        s
    } else {
        s + ". "@
    }
}

/// What announces the place of the cursor: the title of the page, and the heading
/// `h` that the place is under.
pub open spec fn announces(o: Outcome, h: Cursor, cfg: PronunciationConfig) -> Seq<char> {
    let page = pages_of(o)[place_of(o).page as int];
    as_sentence(spoken(page.manifest.title@, None, cfg)) + as_sentence(
        words_for(page.manifest.items@[h.item as int], cfg),
    )
}

/// A movement stops speech and shows the new place. Where items are read as the
/// cursor comes to them, it then reads the new item; on a new page that comes
/// after the announcement of the page.
pub proof fn law_movements_read_the_new_item(
    o: Outcome,
    m: Move,
    opts: ReadOptions,
    cfg: PronunciationConfig,
    h: Cursor,
)
    requires
        on_item(o),
        on_item(o.moved_to(m, opts, cfg)),
        !opts.read_notes,
    ensures
        ({
            let there = o.moved_to(m, opts, cfg);
            let quiet = o.cues.push(CueView::Stop).push(CueView::Show);
            let item = words_for(item_of(there), cfg);
            &&& !opts.auto_read ==> there.cues == quiet && !there.playing
            &&& opts.auto_read ==> there.playing
            &&& opts.auto_read && place_of(there).page == place_of(o).page ==> there.cues
                == quiet.push(CueView::Read(item))
            &&& opts.auto_read && place_of(there).page != place_of(o).page && heads(
                pages_of(there),
                h,
                place_of(there),
            ) ==> there.cues == quiet.push(CueView::Read(announces(there, h, cfg) + item))
        }),
{
    let there = o.moved_to(m, opts, cfg);
    let item = words_for(item_of(there), cfg);
    let none = Seq::<char>::empty();
    assert(none + item + none =~= item);
    if heads(pages_of(there), h, place_of(there)) {
        lemma_heading_of(there, h);
        assert(announces(there, h, cfg) + item + none =~= announces(there, h, cfg) + item);
    }
}

proof fn lemma_heading_of(o: Outcome, h: Cursor)
    requires
        on_item(o),
        heads(pages_of(o), h, place_of(o)),
    ensures
        crate::navigation::heading_before(
            pages_of(o)[place_of(o).page as int].manifest.items@,
            place_of(o).item + 1,
        ) == Some(h.item as int),
{
    let pages = pages_of(o);
    let items = pages[place_of(o).page as int].manifest.items@;
    crate::navigation::lemma_headings_before(items, place_of(o).item + 1);
    assert(crate::navigation::heading_item(items[h.item as int]));
    let found = crate::navigation::heading_before(items, place_of(o).item + 1)->0;
    assert(items.len() <= usize::MAX) by {
        assert(crate::navigation::items_of(pages, place_of(o).page as int).len() <= usize::MAX);
    }
    assert(is_title(pages, Cursor { page: place_of(o).page, item: found as usize }));
}

/// Asked for the section, the session says the heading that the cursor is under.
pub proof fn law_the_section_is_named(
    o: Outcome,
    opts: ReadOptions,
    cfg: PronunciationConfig,
    h: Cursor,
)
    requires
        on_item(o),
        !o.armed,
        heads(pages_of(o), h, place_of(o)),
        words_for(pages_of(o)[h.page as int].manifest.items@[h.item as int], cfg).len() > 0,
    ensures
        o.acted(Action::ReadSection, opts, cfg) == (Outcome {
            playing: true,
            cues: o.cues.push(CueView::Stop).push(
                CueView::Read(
                    words_for(pages_of(o)[h.page as int].manifest.items@[h.item as int], cfg),
                ),
            ),
            ..o
        }),
{
    lemma_heading_of(o, h);
}

/// Where the cursor is under no heading, the title of the page names the section.
pub proof fn law_the_title_names_what_has_no_heading(
    o: Outcome,
    opts: ReadOptions,
    cfg: PronunciationConfig,
)
    requires
        on_item(o),
        !o.armed,
        forall|d: Cursor| #[trigger]
            is_title(pages_of(o), d) && d.page == place_of(o).page ==> d.item > place_of(o).item,
        spoken(pages_of(o)[place_of(o).page as int].manifest.title@, None, cfg).len() > 0,
    ensures
        o.acted(Action::ReadSection, opts, cfg).cues == o.cues.push(CueView::Stop).push(
            CueView::Read(spoken(pages_of(o)[place_of(o).page as int].manifest.title@, None, cfg)),
        ),
        o.acted(Action::ReadSection, opts, cfg).deck == o.deck,
{
    let items = pages_of(o)[place_of(o).page as int].manifest.items@;
    crate::navigation::lemma_headings_before(items, place_of(o).item + 1);
    if let Some(i) = crate::navigation::heading_before(items, place_of(o).item + 1) {
        assert(items.len() <= usize::MAX) by {
            assert(crate::navigation::items_of(pages_of(o), place_of(o).page as int).len()
                <= usize::MAX);
        }
        assert(is_title(pages_of(o), Cursor { page: place_of(o).page, item: i as usize }));
    }
}

/// Restarting a section goes to the first stop behind its heading and reads from
/// there, with the page and the heading announced.
pub proof fn law_restarting_goes_behind_the_heading(
    o: Outcome,
    opts: ReadOptions,
    cfg: PronunciationConfig,
    h: Cursor,
)
    requires
        on_item(o),
        heads(pages_of(o), h, place_of(o)),
    ensures
        waits_for(pages_of(o), h, place_of(o.acted(Action::RestartSection, opts, cfg))),
        only_cursor_moved(o.deck, o.acted(Action::RestartSection, opts, cfg).deck),
        !o.acted(Action::RestartSection, opts, cfg).armed,
        o.acted(Action::RestartSection, opts, cfg).playing,
{
    law_sections_begin_behind_their_heading(pages_of(o), place_of(o), h);
}

/// Restarting where no heading comes before goes to the first item of the page.
pub proof fn law_restarting_without_a_heading_goes_to_the_top(
    o: Outcome,
    opts: ReadOptions,
    cfg: PronunciationConfig,
)
    requires
        on_item(o),
        forall|d: Cursor| #[trigger]
            is_title(pages_of(o), d) && d.page == place_of(o).page ==> d.item > place_of(o).item,
    ensures
        place_of(o.acted(Action::RestartSection, opts, cfg)) == (Cursor {
            page: place_of(o).page,
            item: 0,
        }),
{
    let items = pages_of(o)[place_of(o).page as int].manifest.items@;
    crate::navigation::lemma_headings_before(items, place_of(o).item + 1);
    if let Some(i) = crate::navigation::heading_before(items, place_of(o).item + 1) {
        assert(items.len() <= usize::MAX) by {
            assert(crate::navigation::items_of(pages_of(o), place_of(o).page as int).len()
                <= usize::MAX);
        }
        assert(is_title(pages_of(o), Cursor { page: place_of(o).page, item: i as usize }));
    }
}

// ---------------------------------------------------------------------------
// Jumps
// ---------------------------------------------------------------------------

/// `h` is where a jump in the direction of the action leads: the nearest heading.
pub open spec fn nearest_title(o: Outcome, action: Action, h: Cursor) -> bool {
    if action is NextHeading {
        next_title(pages_of(o), place_of(o), h)
    } else {
        previous_title(pages_of(o), place_of(o), h)
    }
}

/// `NextHeading` and `PrevHeading` go to the nearest heading after or before the
/// cursor, say that heading and nothing else, and wait at the first stop behind
/// it.
pub proof fn law_heading_jumps_wait_behind_the_nearest_heading(
    o: Outcome,
    action: Action,
    opts: ReadOptions,
    cfg: PronunciationConfig,
    h: Cursor,
)
    requires
        on_item(o),
        action is NextHeading || action is PrevHeading,
        h != place_of(o),
        nearest_title(o, action, h),
    ensures
        ({
            let there = o.acted(action, opts, cfg);
            let name = words_for(pages_of(o)[h.page as int].manifest.items@[h.item as int], cfg);
            &&& waits_for(pages_of(o), h, place_of(there))
            &&& only_cursor_moved(o.deck, there.deck)
            &&& there.armed
            &&& !there.playing
            &&& there.pre_jump == Some((o.deck.active, place_of(o)))
            &&& name.len() > 0 ==> there.cues.last() == CueView::Say(name)
        }),
{
    let pages = pages_of(o);
    let cur = place_of(o);
    let dir = if action is NextHeading {
        Direction::Forward
    } else {
        Direction::Backward
    };
    law_jump_leads_to_the_nearest_heading(pages, cur);
    law_moves_stay_inside(pages, cur, dir);
    let c = at_heading(pages, cur, dir);
    assert(is_title(pages, h));
    if c != cur {
        assert(is_title(pages, c));
    }
    assert(c == h);
    law_waiting_is_behind_the_heading(pages, h);
    let there = o.acted(action, opts, cfg);
    assert(only_cursor_moved(o.deck, there.deck));
}

/// A jump that has no heading to go to stays where it is, and waits there.
pub proof fn law_without_a_heading_a_jump_stays(
    o: Outcome,
    action: Action,
    opts: ReadOptions,
    cfg: PronunciationConfig,
)
    requires
        on_item(o),
        action is NextHeading || action is PrevHeading,
        nearest_title(o, action, place_of(o)),
        !is_title(pages_of(o), place_of(o)),
    ensures
        place_of(o.acted(action, opts, cfg)) == place_of(o),
        o.acted(action, opts, cfg).armed,
{
    let pages = pages_of(o);
    let cur = place_of(o);
    let dir = if action is NextHeading {
        Direction::Forward
    } else {
        Direction::Backward
    };
    law_jump_leads_to_the_nearest_heading(pages, cur);
    let c = at_heading(pages, cur, dir);
    if c != cur {
        assert(is_title(pages, c));
    }
    law_waiting_is_behind_the_heading(pages, cur);
}

/// While the session waits and it is not known where the jump started, `Previous`
/// goes to the last stop before the cursor.
pub proof fn law_previous_steps_back_without_a_jump(
    o: Outcome,
    opts: ReadOptions,
    cfg: PronunciationConfig,
)
    requires
        on_item(o),
        o.armed,
        o.pre_jump is None,
    ensures
        previous_stop(pages_of(o), place_of(o), place_of(o.acted(Action::Previous, opts, cfg))),
        !o.acted(Action::Previous, opts, cfg).armed,
{
    law_step_leads_to_the_nearest_stop(pages_of(o), place_of(o));
}

/// An action that moves away ends the waiting and then does what it does when
/// nothing waits.
pub proof fn law_moving_away_ends_the_waiting(
    o: Outcome,
    action: Action,
    opts: ReadOptions,
    cfg: PronunciationConfig,
)
    requires
        o.armed,
        action is NextHeading || action is PrevHeading || action is PageNext || action is PagePrev
            || action is CycleTabPrev || action is CycleTabNext || action is RestartSection,
    ensures
        o.acted(action, opts, cfg) == (Outcome {
            armed: false,
            cues: o.cues.push(CueView::Armed(false)),
            ..o
        }).acted(action, opts, cfg),
{
}

/// A jump to what a query found goes to that place, or the nearest there is, and
/// waits there as a jump to a heading does.
pub proof fn law_query_jumps_wait_at_their_target(
    o: Outcome,
    target: NavTarget,
    cfg: PronunciationConfig,
)
    requires
        on_item(o),
        target.tab_idx == o.deck.active,
        target.page_idx < pages_of(o).len(),
        target.item_idx < pages_of(o)[target.page_idx as int].manifest.items@.len(),
    ensures
        ({
            let there = o.jumped_to(target, cfg);
            let goal = Cursor { page: target.page_idx, item: target.item_idx };
            &&& there.armed
            &&& !there.playing
            &&& there.pre_jump == Some((o.deck.active, place_of(o)))
            &&& only_cursor_moved(o.deck, there.deck)
            &&& is_title(pages_of(o), goal) ==> waits_for(pages_of(o), goal, place_of(there))
            &&& !is_title(pages_of(o), goal) ==> place_of(there) == goal
        }),
{
    let goal = Cursor { page: target.page_idx, item: target.item_idx };
    law_waiting_is_behind_the_heading(pages_of(o), goal);
    assert(only_cursor_moved(o.deck, o.jumped_to(target, cfg).deck));
}

/// A jump to what a query found says the heading that the place is under, last of
/// all.
pub proof fn law_query_jumps_say_the_heading(
    o: Outcome,
    target: NavTarget,
    cfg: PronunciationConfig,
    h: Cursor,
)
    requires
        on_item(o),
        target.tab_idx == o.deck.active,
        target.page_idx < pages_of(o).len(),
        target.item_idx < pages_of(o)[target.page_idx as int].manifest.items@.len(),
        heads(pages_of(o), h, Cursor { page: target.page_idx, item: target.item_idx }),
        words_for(pages_of(o)[h.page as int].manifest.items@[h.item as int], cfg).len() > 0,
    ensures
        o.jumped_to(target, cfg).cues.last() == CueView::Say(
            words_for(pages_of(o)[h.page as int].manifest.items@[h.item as int], cfg),
        ),
{
    let goal = Cursor { page: target.page_idx, item: target.item_idx };
    let there = o.at(goal);
    assert(pages_of(there) == pages_of(o));
    assert(place_of(there) == goal);
    assert(on_item(there));
    lemma_heading_of(there, h);
}

/// A jump to a place in another tab shows that tab, waits there, and remembers the
/// tab and the place that it came from. The cursor that was left stays where it was.
pub proof fn law_query_jumps_go_to_other_tabs(
    o: Outcome,
    target: NavTarget,
    cfg: PronunciationConfig,
)
    requires
        on_item(o),
        target.tab_idx != o.deck.active,
        target.tab_idx < o.deck.tabs.len(),
        sized(o.deck.tabs[target.tab_idx as int].pages@),
        target.page_idx < o.deck.tabs[target.tab_idx as int].pages@.len(),
        target.item_idx < o.deck.tabs[target.tab_idx as int].pages@[target.page_idx as int].manifest.items@.len(),
    ensures
        ({
            let there = o.jumped_to(target, cfg);
            let goal = Cursor { page: target.page_idx, item: target.item_idx };
            &&& there.deck.active == target.tab_idx
            &&& there.deck.tabs[o.deck.active as int] == o.deck.tabs[o.deck.active as int]
            &&& there.armed
            &&& there.pre_jump == Some((o.deck.active, place_of(o)))
            &&& pages_of(there) == o.deck.tabs[target.tab_idx as int].pages@
            &&& is_title(pages_of(there), goal) ==> waits_for(pages_of(there), goal, place_of(there))
            &&& !is_title(pages_of(there), goal) ==> place_of(there) == goal
        }),
{
    let goal = Cursor { page: target.page_idx, item: target.item_idx };
    law_waiting_is_behind_the_heading(o.deck.tabs[target.tab_idx as int].pages@, goal);
}

// ---------------------------------------------------------------------------
// Tabs, and going on by itself
// ---------------------------------------------------------------------------

/// Turning the tab strip shows the neighbouring tab, and from the last tab the
/// first, from the first the last. No cursor moves.
pub proof fn law_tabs_turn_one_by_one(o: Outcome, opts: ReadOptions, cfg: PronunciationConfig)
    requires
        o.deck.active < o.deck.tabs.len(),
        o.deck.tabs.len() > 1,
        o.deck.tabs.len() <= usize::MAX,
        !o.armed,
    ensures
        ({
            let last = o.deck.tabs.len() - 1;
            let on = o.acted(Action::CycleTabNext, opts, cfg);
            let back = o.acted(Action::CycleTabPrev, opts, cfg);
            &&& on.deck.tabs == o.deck.tabs
            &&& back.deck.tabs == o.deck.tabs
            &&& on.deck.active == (if o.deck.active < last {
                o.deck.active + 1
            } else {
                0
            })
            &&& back.deck.active == (if o.deck.active > 0 {
                o.deck.active - 1
            } else {
                last
            })
            &&& !on.playing && !back.playing
        }),
{
    let n = o.deck.tabs.len() as int;
    let a = o.deck.active as int;
    assert((a + 1) % n == (if a + 1 < n {
        a + 1
    } else {
        0
    }) && (a - 1) % n == (if a > 0 {
        a - 1
    } else {
        n - 1
    })) by (nonlinear_arith)
        requires
            0 <= a < n,
            n > 1,
    {
        if a + 1 == n {
            assert(n % n == 0);
        }
        if a == 0 {
            assert(-1 == -1 * n + (n - 1));
        }
    }
}

/// When what was read is over and the session goes on by itself, it goes to the
/// first stop after the cursor and reads there; after the last stop it is done.
pub proof fn law_reading_goes_on_stop_by_stop(
    o: Outcome,
    opts: ReadOptions,
    cfg: PronunciationConfig,
)
    requires
        on_item(o),
        !o.armed,
        opts.auto_advance,
    ensures
        next_stop(pages_of(o), place_of(o), place_of(o.ticked(opts, cfg))),
        only_cursor_moved(o.deck, o.ticked(opts, cfg).deck),
        place_of(o.ticked(opts, cfg)) == place_of(o) ==> o.ticked(opts, cfg) == (Outcome {
            playing: false,
            ..o
        }),
        place_of(o.ticked(opts, cfg)) != place_of(o) ==> o.ticked(opts, cfg).playing,
{
    law_step_leads_to_the_nearest_stop(pages_of(o), place_of(o));
    law_moves_stay_inside(pages_of(o), place_of(o), Direction::Forward);
    let next = stepped(pages_of(o), place_of(o), Direction::Forward);
    assert(only_cursor_moved(o.deck, o.ticked(opts, cfg).deck));
    if next == place_of(o) {
        assert(o.ticked(opts, cfg).deck == o.deck);
    }
}

/// What is read when the session goes on by itself is what `Next` reads there.
pub proof fn law_going_on_reads_as_next_does(
    o: Outcome,
    opts: ReadOptions,
    cfg: PronunciationConfig,
)
    requires
        on_item(o),
        !o.armed,
        opts.auto_advance,
        opts.auto_read,
        place_of(o.ticked(opts, cfg)) != place_of(o),
    ensures
        o.ticked(opts, cfg).cues.last() == o.acted(Action::Next, opts, cfg).cues.last(),
        o.ticked(opts, cfg).cues.last() is Read,
        o.ticked(opts, cfg).deck == o.acted(Action::Next, opts, cfg).deck,
{
    law_moves_stay_inside(pages_of(o), place_of(o), Direction::Forward);
    law_step_leads_to_the_nearest_stop(pages_of(o), place_of(o));
}

/// Without going on by itself, the end of speech only ends the playing.
pub proof fn law_reading_stops_where_it_does_not_go_on(
    o: Outcome,
    opts: ReadOptions,
    cfg: PronunciationConfig,
)
    requires
        !opts.auto_advance,
    ensures
        o.ticked(opts, cfg) == (Outcome { playing: false, ..o }),
{
}

} // verus!
