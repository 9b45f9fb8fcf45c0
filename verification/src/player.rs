//! Moving through the checklists and reading them aloud.
//!
//! The player keeps the tabs, whether something is being read, and whether the
//! session is armed. What the application has to do for it (speak, stop, redraw)
//! comes back as a list of cues, in the order in which they are to be done.

use vstd::prelude::*;

use crate::actions::Action;
use crate::controller::{armed_decision, decision, ArmedDecision};
use crate::navigation::{
    armed_place, at_heading, clamp_cursor, clamped, find_section_start, inside, items_of,
    jump_page, law_moves_stay_inside, law_targets_are_inside, numbered_page, page_cursor, paged,
    place_armed_cursor, section_start, sized, step_cursor, step_to_heading, stepped, Direction,
};
use crate::pages::{Cursor, LoadedPage};
use crate::pronunciation::PronunciationConfig;
use crate::readings::{
    compose_reading, compose_section, compose_section_list, name_section, readable, reading,
    section_list, section_name, section_reading,
};
use crate::section_search::NavTarget;
use crate::tabs::{deck_ok, is_reset, tab_ok, Deck, TabRegistry};

verus! {

// ---------------------------------------------------------------------------
// State and cues
// ---------------------------------------------------------------------------

/// How the user wants to be read to.
#[derive(Debug, Clone, Copy, PartialEq, Eq, Structural)]
pub struct ReadOptions {
    /// Read an item when the cursor moves to it.
    pub auto_read: bool,
    /// Go on to the next item after one was read.
    pub auto_advance: bool,
    /// Read the notes after a step too.
    pub read_notes: bool,
}

/// What the application has to do.
#[derive(Debug)]
pub enum Cue {
    /// Stop speaking, and forget the tick that was due after it.
    Stop,
    /// Say a text and leave it at that.
    Say(String),
    /// Say a text, with a tick due when it is over.
    Read(String),
    /// Draw the place that the cursor is at.
    Show,
    /// Show whether the session is armed.
    Armed(bool),
    /// Another tab is shown: mark it, watch its folder and remember it.
    Switched,
    /// Show the tab strip for a moment.
    FlashTabs,
}

/// What a cue says.
pub enum CueView {
    Stop,
    Say(Seq<char>),
    Read(Seq<char>),
    Show,
    Armed(bool),
    Switched,
    FlashTabs,
}

impl View for Cue {
    type V = CueView;

    open spec fn view(&self) -> CueView {
        match *self {
            Cue::Stop => CueView::Stop,
            Cue::Say(t) => CueView::Say(t@),
            Cue::Read(t) => CueView::Read(t@),
            Cue::Show => CueView::Show,
            Cue::Armed(b) => CueView::Armed(b),
            Cue::Switched => CueView::Switched,
            Cue::FlashTabs => CueView::FlashTabs,
        }
    }
}

pub open spec fn cue_views(cues: Seq<Cue>) -> Seq<CueView> {
    Seq::new(cues.len(), |i: int| cues[i]@)
}

/// The player.
#[derive(Debug)]
pub struct Player {
    pub tabs: TabRegistry,
    pub armed: bool,
    /// Something is being read.
    pub playing: bool,
    /// The tab and the place from which the last jump to a section started.
    pub pre_jump: Option<(usize, Cursor)>,
}

/// What the player's state is, and what it asked for so far.
#[verifier::ext_equal]
pub struct Outcome {
    pub deck: Deck,
    pub armed: bool,
    pub playing: bool,
    pub pre_jump: Option<(usize, Cursor)>,
    pub cues: Seq<CueView>,
}

/// The outcome of a player's work so far.
pub open spec fn so_far(p: Player, cues: Seq<Cue>) -> Outcome {
    Outcome {
        deck: p.tabs@,
        armed: p.armed,
        playing: p.playing,
        pre_jump: p.pre_jump,
        cues: cue_views(cues),
    }
}

/// The parts of the registry that the player never changes.
pub open spec fn same_setting(a: Player, b: Player) -> bool {
    a.tabs.aircraft == b.tabs.aircraft && a.tabs.aircraft_list == b.tabs.aircraft_list
}

/// Where to move.
#[derive(Debug, Clone, Copy, PartialEq, Eq, Structural)]
pub enum Move {
    /// To the next or previous item.
    Step(Direction),
    /// To the next or previous page.
    Page(Direction),
    /// To the next or previous heading.
    Heading(Direction),
    /// To a page, counted from 1.
    ToPage(u32),
    /// To a page and item.
    To(Cursor),
}

/// Where a move leads.
pub open spec fn moved(pages: Seq<LoadedPage>, cur: Cursor, m: Move) -> Cursor {
    match m {
        Move::Step(dir) => stepped(pages, cur, dir),
        Move::Page(dir) => paged(pages, cur, dir),
        Move::Heading(dir) => at_heading(pages, cur, dir),
        Move::ToPage(n) => numbered_page(pages, n as int),
        Move::To(c) => clamped(pages, c.page as int, c.item as int),
    }
}

/// The move starts from where the cursor is.
pub open spec fn is_relative(m: Move) -> bool {
    m is Step || m is Page || m is Heading
}

impl Outcome {
    pub open spec fn with(self, cue: CueView) -> Outcome {
        Outcome { cues: self.cues.push(cue), ..self }
    }

    /// Speech is stopped.
    pub open spec fn stopped(self) -> Outcome {
        Outcome { playing: false, ..self.with(CueView::Stop) }
    }

    /// The place is drawn, where a tab is shown.
    pub open spec fn shown(self) -> Outcome {
        if self.deck.has_active() {
            self.with(CueView::Show)
        } else {
            self
        }
    }

    /// The session is armed or not.
    pub open spec fn set_armed(self, armed: bool) -> Outcome {
        Outcome { armed, ..self.with(CueView::Armed(armed)) }
    }

    /// The cursor is at a place.
    pub open spec fn at(self, c: Cursor) -> Outcome {
        Outcome { deck: self.deck.with_cursor(c), ..self }
    }

    /// A text is read.
    pub open spec fn read(self, text: Seq<char>) -> Outcome {
        Outcome { playing: true, ..self.with(CueView::Read(text)) }
    }

    /// The current item is read, where there is one.
    pub open spec fn started(
        self,
        header: bool,
        opts: ReadOptions,
        cfg: PronunciationConfig,
    ) -> Outcome {
        if !self.deck.has_active() {
            self
        } else {
            match reading(self.deck.pages(), self.deck.cursor(), header, opts.read_notes, cfg) {
                Some(text) => self.read(text),
                None => self,
            }
        }
    }

    /// The cursor moves without reading.
    pub open spec fn moved_silently(self, m: Move) -> Outcome {
        let o = self.stopped();
        if !o.deck.has_active() {
            o
        } else {
            o.at(moved(o.deck.pages(), o.deck.cursor(), m)).shown()
        }
    }

    /// The cursor moves, and the item there is read where the user wants that,
    /// with an announcement on a new page.
    pub open spec fn moved_to(self, m: Move, opts: ReadOptions, cfg: PronunciationConfig) -> Outcome {
        let o = self.moved_silently(m);
        if !self.deck.has_active() || !opts.auto_read {
            o
        } else {
            o.started(o.deck.cursor().page != self.deck.cursor().page, opts, cfg)
        }
    }

    /// Another tab is shown.
    pub open spec fn switched(self, idx: usize) -> Outcome {
        let o = self.stopped();
        let deck = Deck {
            active: if idx < o.deck.tabs.len() {
                idx
            } else {
                o.deck.active
            },
            ..o.deck
        };
        Outcome { deck, ..o }.with(CueView::Switched).shown()
    }

    /// The place before a jump is remembered.
    pub open spec fn marked(self) -> Outcome {
        if self.deck.has_active() {
            Outcome { pre_jump: Some((self.deck.active, self.deck.cursor())), ..self }
        } else {
            self
        }
    }

    /// The session waits at the section that the cursor is in, with its heading
    /// spoken.
    pub open spec fn waiting(self, cfg: PronunciationConfig) -> Outcome {
        let o = self.stopped();
        if !o.deck.has_active() || !readable(o.deck.pages(), o.deck.cursor()) {
            o
        } else {
            let pages = o.deck.pages();
            let cur = o.deck.cursor();
            let page = clamped(pages, cur.page as int, cur.item as int).page;
            let (item, heading) = armed_place(items_of(pages, page as int), cur.item as int);
            let name = section_name(pages[page as int], heading, cfg);
            let waits = o.at(Cursor { page, item: item as usize }).shown().set_armed(true);
            if name.len() > 0 {
                waits.with(CueView::Say(name))
            } else {
                waits
            }
        }
    }

    /// The cursor jumps to another heading and waits there.
    pub open spec fn jumped(self, dir: Direction, cfg: PronunciationConfig) -> Outcome {
        self.marked().moved_silently(Move::Heading(dir)).waiting(cfg)
    }

    /// The cursor jumps to what a query found and waits there.
    pub open spec fn jumped_to(self, target: NavTarget, cfg: PronunciationConfig) -> Outcome {
        let o = self.marked();
        let there = if target.tab_idx != o.deck.active {
            o.switched(target.tab_idx)
        } else {
            o
        };
        there.moved_silently(
            Move::To(Cursor { page: target.page_idx, item: target.item_idx }),
        ).waiting(cfg)
    }

    /// The cursor goes back to where the last jump started, where that is known;
    /// else it steps back.
    pub open spec fn returned(self, opts: ReadOptions, cfg: PronunciationConfig) -> Outcome {
        match self.pre_jump {
            None => self.moved_to(Move::Step(Direction::Backward), opts, cfg),
            Some((tab, cursor)) => {
                let o = Outcome { pre_jump: None, ..self }.stopped();
                let there = if o.deck.active != tab {
                    o.switched(tab)
                } else {
                    o
                };
                if !there.deck.has_active() {
                    there.moved_to(Move::Step(Direction::Backward), opts, cfg)
                } else {
                    there.at(
                        clamped(there.deck.pages(), cursor.page as int, cursor.item as int),
                    ).shown()
                }
            },
        }
    }

    /// The section is read from its start.
    pub open spec fn restarted(self, opts: ReadOptions, cfg: PronunciationConfig) -> Outcome {
        let o = self.set_armed(false).stopped();
        if !o.deck.has_active() || !readable(o.deck.pages(), o.deck.cursor()) {
            o
        } else {
            let pages = o.deck.pages();
            let cur = o.deck.cursor();
            let c = clamped(pages, cur.page as int, cur.item as int);
            let item = section_start(items_of(pages, c.page as int), c.item as int);
            o.at(Cursor { page: c.page, item: item as usize }).shown().started(true, opts, cfg)
        }
    }

    /// The name of the section is read.
    pub open spec fn named(self, cfg: PronunciationConfig) -> Outcome {
        if !self.deck.has_active() {
            self
        } else {
            match section_reading(self.deck.pages(), self.deck.cursor(), cfg) {
                Some(text) => self.stopped().read(text),
                None => self,
            }
        }
    }

    /// The list of the sections is read.
    pub open spec fn listed(self, cfg: PronunciationConfig) -> Outcome {
        if !self.deck.has_active() {
            self
        } else {
            match section_list(self.deck.pages(), cfg) {
                Some(text) => self.stopped().read(text),
                None => self,
            }
        }
    }

    /// The next or previous tab is shown, around the ends, where there is more
    /// than one.
    pub open spec fn cycled(self, dir: Direction) -> Outcome {
        if self.deck.tabs.len() <= 1 {
            self
        } else {
            let step = if dir is Forward {
                1int
            } else {
                -1int
            };
            let idx = (self.deck.active + step) % (self.deck.tabs.len() as int);
            self.switched(idx as usize).with(CueView::FlashTabs)
        }
    }

    /// What is read ended.
    pub open spec fn ticked(self, opts: ReadOptions, cfg: PronunciationConfig) -> Outcome {
        if self.armed || !opts.auto_advance {
            Outcome { playing: false, ..self }
        } else if !self.deck.has_active() {
            self
        } else {
            let next = stepped(self.deck.pages(), self.deck.cursor(), Direction::Forward);
            if next == self.deck.cursor() {
                Outcome { playing: false, ..self }
            } else {
                self.at(next).shown().started(next.page != self.deck.cursor().page, opts, cfg)
            }
        }
    }
}

/// A move from where the cursor is has pages to go through, where a tab is shown.
pub open spec fn can_move(d: Deck) -> bool {
    d.has_active() ==> d.pages().len() > 0
}

proof fn lemma_sized(pages: &Vec<LoadedPage>)
    ensures
        sized(pages@),
{
    assert(pages@.len() == pages.len());
    assert forall|p: int| 0 <= p < pages@.len() implies items_of(pages@, p).len()
        <= usize::MAX by {
        assert(pages@[p].manifest.items@.len() == pages@[p].manifest.items.len());
    }
}

impl Player {
    pub fn new(tabs: TabRegistry) -> (r: Player)
        ensures
            r == (Player { tabs, armed: false, playing: false, pre_jump: None }),
    {
        Player { tabs, armed: false, playing: false, pre_jump: None }
    }

    /// Stops speaking.
    pub fn stop_speaking(&mut self, cues: &mut Vec<Cue>)
        ensures
            so_far(*final(self), final(cues)@) == so_far(*old(self), old(cues)@).stopped(),
            same_setting(*final(self), *old(self)),
            final(self).tabs == old(self).tabs,
    {
        self.playing = false;
        push_cue(cues, Cue::Stop);
    }

    fn show(&self, cues: &mut Vec<Cue>)
        ensures
            so_far(*self, final(cues)@) == so_far(*self, old(cues)@).shown(),
    {
        if self.tabs.active < self.tabs.tabs.len() {
            push_cue(cues, Cue::Show);
        }
    }

    /// Arms the session, or stops waiting.
    pub fn set_armed_state(&mut self, armed: bool, cues: &mut Vec<Cue>)
        ensures
            so_far(*final(self), final(cues)@) == so_far(*old(self), old(cues)@).set_armed(armed),
            same_setting(*final(self), *old(self)),
    {
        self.armed = armed;
        push_cue(cues, Cue::Armed(armed));
    }

    /// Reads the current item, with an announcement where it is asked for.
    pub fn start_speaking_with_header(
        &mut self,
        header: bool,
        opts: ReadOptions,
        cfg: &PronunciationConfig,
        cues: &mut Vec<Cue>,
    )
        ensures
            so_far(*final(self), final(cues)@) == so_far(*old(self), old(cues)@).started(
                header,
                opts,
                *cfg,
            ),
            same_setting(*final(self), *old(self)),
    {
        let text = match self.tabs.active_tab() {
            Some(tab) => compose_reading(&tab.pages, tab.cursor, header, opts.read_notes, cfg),
            None => None,
        };
        if let Some(text) = text {
            self.playing = true;
            push_cue(cues, Cue::Read(text));
        }
    }

    /// Whether a move from where the cursor is has pages to go through.
    pub fn can_move(&self) -> (r: bool)
        ensures
            r == can_move(self.tabs@),
    {
        match self.tabs.active_tab() {
            Some(tab) => tab.pages.len() > 0,
            None => true,
        }
    }

    fn place_after(&self, m: Move) -> (r: Cursor)
        requires
            deck_ok(self.tabs@),
            self.tabs@.has_active(),
            is_relative(m) ==> self.tabs@.pages().len() > 0,
        ensures
            r == moved(self.tabs@.pages(), self.tabs@.cursor(), m),
            self.tabs@.pages().len() == 0 || inside(self.tabs@.pages(), r),
    {
        let tab = &self.tabs.tabs[self.tabs.active];
        let pages = tab.pages.as_slice();
        let cur = tab.cursor;
        proof {
            assert(tab_ok(self.tabs@.tabs[self.tabs.active as int]));
            lemma_sized(&tab.pages);
            if tab.pages@.len() > 0 {
                law_moves_stay_inside(tab.pages@, cur, Direction::Forward);
                law_moves_stay_inside(tab.pages@, cur, Direction::Backward);
                match m {
                    Move::ToPage(n) => law_targets_are_inside(tab.pages@, n as int, 0, 0),
                    Move::To(c) => law_targets_are_inside(
                        tab.pages@,
                        0,
                        c.page as int,
                        c.item as int,
                    ),
                    _ => {},
                }
            }
        }
        match m {
            Move::Step(dir) => step_cursor(pages, cur, dir),
            Move::Page(dir) => jump_page(pages, cur, dir),
            Move::Heading(dir) => step_to_heading(pages, cur, dir),
            Move::ToPage(n) => page_cursor(pages, n),
            Move::To(c) => clamp_cursor(pages, c.page, c.item),
        }
    }

    /// Moves the cursor without reading.
    pub fn nav_silent(&mut self, m: Move, cues: &mut Vec<Cue>)
        requires
            deck_ok(old(self).tabs@),
            is_relative(m) ==> can_move(old(self).tabs@),
        ensures
            so_far(*final(self), final(cues)@) == so_far(*old(self), old(cues)@).moved_silently(m),
            same_setting(*final(self), *old(self)),
            deck_ok(final(self).tabs@),
    {
        self.stop_speaking(cues);
        if self.tabs.active < self.tabs.tabs.len() {
            let c = self.place_after(m);
            self.tabs.set_cursor(c);
            self.show(cues);
        }
    }

    /// Moves the cursor, and reads the item there where the user wants that.
    pub fn nav(
        &mut self,
        m: Move,
        opts: ReadOptions,
        cfg: &PronunciationConfig,
        cues: &mut Vec<Cue>,
    )
        requires
            deck_ok(old(self).tabs@),
            is_relative(m) ==> can_move(old(self).tabs@),
        ensures
            so_far(*final(self), final(cues)@) == so_far(*old(self), old(cues)@).moved_to(
                m,
                opts,
                *cfg,
            ),
            same_setting(*final(self), *old(self)),
            deck_ok(final(self).tabs@),
    {
        if self.tabs.active < self.tabs.tabs.len() {
            let old_page: usize = self.tabs.tabs[self.tabs.active].cursor.page;
            self.nav_silent(m, cues);
            if opts.auto_read {
                let new_page: usize = self.tabs.tabs[self.tabs.active].cursor.page;
                self.start_speaking_with_header(new_page != old_page, opts, cfg, cues);
            }
        } else {
            self.nav_silent(m, cues);
        }
    }

    /// Shows another tab.
    pub fn switch_tab(&mut self, idx: usize, cues: &mut Vec<Cue>)
        requires
            deck_ok(old(self).tabs@),
        ensures
            so_far(*final(self), final(cues)@) == so_far(*old(self), old(cues)@).switched(idx),
            same_setting(*final(self), *old(self)),
            deck_ok(final(self).tabs@),
    {
        self.stop_speaking(cues);
        self.tabs.set_active(idx);
        push_cue(cues, Cue::Switched);
        self.show(cues);
    }

    /// Changes the aircraft. `false` where it is the aircraft already. The tab
    /// that is shown is then to be loaded and drawn.
    pub fn set_aircraft(&mut self, aircraft: &str, cues: &mut Vec<Cue>) -> (r: bool)
        requires
            deck_ok(old(self).tabs@),
        ensures
            r == (old(self).tabs.aircraft@ != aircraft@),
            cue_views(final(cues)@) == cue_views(old(cues)@).push(CueView::Stop),
            final(self).armed == old(self).armed,
            !final(self).playing,
            final(self).pre_jump == old(self).pre_jump,
            final(self).tabs.aircraft@ == aircraft@,
            final(self).tabs.active == old(self).tabs.active,
            final(self).tabs.aircraft_list == old(self).tabs.aircraft_list,
            !r ==> final(self).tabs == old(self).tabs,
            r ==> final(self).tabs.tabs@.len() == old(self).tabs.tabs@.len() && forall|i: int|
                0 <= i < final(self).tabs.tabs@.len() ==> is_reset(
                    #[trigger] final(self).tabs.tabs@[i],
                    old(self).tabs.tabs@[i],
                ),
            deck_ok(final(self).tabs@),
    {
        self.stop_speaking(cues);
        self.tabs.set_aircraft(aircraft)
    }

    /// The tab that a turn of the tab strip leads to.
    pub fn cycle_target(&self, dir: Direction) -> (r: Option<usize>)
        requires
            deck_ok(self.tabs@),
        ensures
            self.tabs@.tabs.len() <= 1 ==> r is None,
            self.tabs@.tabs.len() > 1 ==> r is Some && r->0 == (self.tabs.active + (if dir
                is Forward {
                1int
            } else {
                -1int
            })) % (self.tabs@.tabs.len() as int),
    {
        let n: usize = self.tabs.tabs.len();
        if n <= 1 {
            return None;
        }
        let cur: usize = self.tabs.active;
        let idx: usize = match dir {
            Direction::Forward => if cur + 1 < n {
                cur + 1
            } else {
                0
            },
            Direction::Backward => if cur > 0 {
                cur - 1
            } else {
                n - 1
            },
        };
        proof {
            let step = if dir is Forward {
                1int
            } else {
                -1int
            };
            assert((cur + step) % (n as int) == idx) by (nonlinear_arith)
                requires
                    0 <= cur < n,
                    n > 1,
                    step == 1 || step == -1,
                    step == 1 ==> idx == (if cur + 1 < n {
                        cur + 1
                    } else {
                        0
                    }),
                    step == -1 ==> idx == (if cur > 0 {
                        cur - 1
                    } else {
                        n - 1
                    }),
            ;
        }
        Some(idx)
    }

    /// Shows the next or previous tab, around the ends.
    pub fn cycle_tab(&mut self, dir: Direction, cues: &mut Vec<Cue>)
        requires
            deck_ok(old(self).tabs@),
        ensures
            so_far(*final(self), final(cues)@) == so_far(*old(self), old(cues)@).cycled(dir),
            same_setting(*final(self), *old(self)),
            deck_ok(final(self).tabs@),
    {
        if let Some(idx) = self.cycle_target(dir) {
            self.switch_tab(idx, cues);
            push_cue(cues, Cue::FlashTabs);
        }
    }

    fn save_pre_jump_cursor(&mut self)
        ensures
            forall|cues: Seq<Cue>|
                #[trigger] so_far(*final(self), cues) == so_far(*old(self), cues).marked(),
            final(self).tabs == old(self).tabs,
    {
        if let Some(tab) = self.tabs.active_tab() {
            let cursor = tab.cursor;
            self.pre_jump = Some((self.tabs.active, cursor));
        }
    }

    /// Waits at the section that the cursor is in, and says its heading.
    pub fn arm_after_section_jump(&mut self, cfg: &PronunciationConfig, cues: &mut Vec<Cue>)
        requires
            deck_ok(old(self).tabs@),
        ensures
            so_far(*final(self), final(cues)@) == so_far(*old(self), old(cues)@).waiting(*cfg),
            same_setting(*final(self), *old(self)),
            deck_ok(final(self).tabs@),
    {
        self.stop_speaking(cues);
        if self.tabs.active >= self.tabs.tabs.len() {
            return ;
        }
        let tab = &self.tabs.tabs[self.tabs.active];
        if tab.pages.len() == 0 {
            return ;
        }
        let c = clamp_cursor(tab.pages.as_slice(), tab.cursor.page, tab.cursor.item);
        let page = &tab.pages[c.page];
        if page.manifest.items.len() == 0 {
            return ;
        }
        let (item, heading) = place_armed_cursor(page.manifest.items.as_slice(), tab.cursor.item);
        let name = name_section(page, heading, cfg);
        self.tabs.set_cursor(Cursor { page: c.page, item });
        self.show(cues);
        self.set_armed_state(true, cues);
        if name.as_str().unicode_len() > 0 {
            push_cue(cues, Cue::Say(name));
        }
    }

    /// Jumps to the next or previous heading and waits there.
    pub fn jump_heading(&mut self, dir: Direction, cfg: &PronunciationConfig, cues: &mut Vec<Cue>)
        requires
            deck_ok(old(self).tabs@),
            can_move(old(self).tabs@),
        ensures
            so_far(*final(self), final(cues)@) == so_far(*old(self), old(cues)@).jumped(dir, *cfg),
            same_setting(*final(self), *old(self)),
            deck_ok(final(self).tabs@),
    {
        self.save_pre_jump_cursor();
        self.nav_silent(Move::Heading(dir), cues);
        self.arm_after_section_jump(cfg, cues);
    }

    /// Jumps to what a query found and waits there. The tab of the target has to
    /// be loaded before.
    pub fn goto_target_armed(
        &mut self,
        target: NavTarget,
        cfg: &PronunciationConfig,
        cues: &mut Vec<Cue>,
    )
        requires
            deck_ok(old(self).tabs@),
        ensures
            so_far(*final(self), final(cues)@) == so_far(*old(self), old(cues)@).jumped_to(
                target,
                *cfg,
            ),
            same_setting(*final(self), *old(self)),
            deck_ok(final(self).tabs@),
    {
        self.save_pre_jump_cursor();
        if target.tab_idx != self.tabs.active {
            self.switch_tab(target.tab_idx, cues);
        }
        self.nav_silent(
            Move::To(Cursor { page: target.page_idx, item: target.item_idx }),
            cues,
        );
        self.arm_after_section_jump(cfg, cues);
    }

    /// Goes back to where the last jump started, or a step back where that is
    /// not known. The tab in which it started has to be loaded before.
    pub fn return_to_pre_jump(
        &mut self,
        opts: ReadOptions,
        cfg: &PronunciationConfig,
        cues: &mut Vec<Cue>,
    )
        requires
            deck_ok(old(self).tabs@),
            old(self).pre_jump is None ==> can_move(old(self).tabs@),
        ensures
            so_far(*final(self), final(cues)@) == so_far(*old(self), old(cues)@).returned(
                opts,
                *cfg,
            ),
            same_setting(*final(self), *old(self)),
            deck_ok(final(self).tabs@),
    {
        let saved = self.pre_jump;
        match saved {
            None => {
                self.nav(Move::Step(Direction::Backward), opts, cfg, cues);
            },
            Some((tab, cursor)) => {
                self.pre_jump = None;
                self.stop_speaking(cues);
                if self.tabs.active != tab {
                    self.switch_tab(tab, cues);
                }
                if self.tabs.active >= self.tabs.tabs.len() {
                    self.nav(Move::Step(Direction::Backward), opts, cfg, cues);
                } else {
                    let c = self.place_after(Move::To(cursor));
                    self.tabs.set_cursor(c);
                    self.show(cues);
                }
            },
        }
    }

    /// Reads the section from its start, with an announcement.
    pub fn restart_section(
        &mut self,
        opts: ReadOptions,
        cfg: &PronunciationConfig,
        cues: &mut Vec<Cue>,
    )
        requires
            deck_ok(old(self).tabs@),
        ensures
            so_far(*final(self), final(cues)@) == so_far(*old(self), old(cues)@).restarted(
                opts,
                *cfg,
            ),
            same_setting(*final(self), *old(self)),
            deck_ok(final(self).tabs@),
    {
        self.set_armed_state(false, cues);
        self.stop_speaking(cues);
        if self.tabs.active >= self.tabs.tabs.len() {
            return ;
        }
        let tab = &self.tabs.tabs[self.tabs.active];
        if tab.pages.len() == 0 {
            return ;
        }
        let c = clamp_cursor(tab.pages.as_slice(), tab.cursor.page, tab.cursor.item);
        let items = tab.pages[c.page].manifest.items.as_slice();
        if items.len() == 0 {
            return ;
        }
        let item = find_section_start(items, c.item);
        self.tabs.set_cursor(Cursor { page: c.page, item });
        self.show(cues);
        self.start_speaking_with_header(true, opts, cfg, cues);
    }

    /// Says which section the cursor is in.
    pub fn speak_section(&mut self, cfg: &PronunciationConfig, cues: &mut Vec<Cue>)
        ensures
            so_far(*final(self), final(cues)@) == so_far(*old(self), old(cues)@).named(*cfg),
            same_setting(*final(self), *old(self)),
            final(self).tabs == old(self).tabs,
    {
        let text = match self.tabs.active_tab() {
            Some(tab) => compose_section(&tab.pages, tab.cursor, cfg),
            None => None,
        };
        if let Some(text) = text {
            self.stop_speaking(cues);
            self.playing = true;
            push_cue(cues, Cue::Read(text));
        }
    }

    /// Reads the list of the sections.
    pub fn speak_section_list(&mut self, cfg: &PronunciationConfig, cues: &mut Vec<Cue>)
        ensures
            so_far(*final(self), final(cues)@) == so_far(*old(self), old(cues)@).listed(*cfg),
            same_setting(*final(self), *old(self)),
            final(self).tabs == old(self).tabs,
    {
        let text = match self.tabs.active_tab() {
            Some(tab) => compose_section_list(&tab.pages, cfg),
            None => None,
        };
        if let Some(text) = text {
            self.stop_speaking(cues);
            self.playing = true;
            push_cue(cues, Cue::Read(text));
        }
    }

    /// What was read is over: goes on to the next item where the user wants
    /// that and the session does not wait.
    pub fn post_speech_tick(
        &mut self,
        opts: ReadOptions,
        cfg: &PronunciationConfig,
        cues: &mut Vec<Cue>,
    )
        requires
            deck_ok(old(self).tabs@),
            opts.auto_advance && !old(self).armed ==> can_move(old(self).tabs@),
        ensures
            so_far(*final(self), final(cues)@) == so_far(*old(self), old(cues)@).ticked(
                opts,
                *cfg,
            ),
            same_setting(*final(self), *old(self)),
            deck_ok(final(self).tabs@),
    {
        if self.armed || !opts.auto_advance {
            self.playing = false;
            return ;
        }
        if self.tabs.active >= self.tabs.tabs.len() {
            return ;
        }
        let cur = self.tabs.tabs[self.tabs.active].cursor;
        let next = self.place_after(Move::Step(Direction::Forward));
        if next == cur {
            self.playing = false;
            return ;
        }
        self.tabs.set_cursor(next);
        self.show(cues);
        self.start_speaking_with_header(next.page != cur.page, opts, cfg, cues);
    }
}

// ---------------------------------------------------------------------------
// Actions
// ---------------------------------------------------------------------------

/// The action is one of the player's.
pub open spec fn is_players(action: Action) -> bool {
    ||| action is Next
    ||| action is Previous
    ||| action is TogglePlay
    ||| action is ReadCurrent
    ||| action is ReadSection
    ||| action is RestartSection
    ||| action is NextHeading
    ||| action is PrevHeading
    ||| action is PageNext
    ||| action is PagePrev
    ||| action is CycleTabPrev
    ||| action is CycleTabNext
}

/// The action moves from where the cursor is, so that there have to be pages.
pub open spec fn needs_pages(action: Action) -> bool {
    ||| action is Next
    ||| action is Previous
    ||| action is NextHeading
    ||| action is PrevHeading
    ||| action is PageNext
    ||| action is PagePrev
}

impl Outcome {
    /// What an action of the player does when nothing intercepts it.
    pub open spec fn ran(
        self,
        action: Action,
        opts: ReadOptions,
        cfg: PronunciationConfig,
    ) -> Outcome {
        match action {
            Action::Next => self.moved_to(Move::Step(Direction::Forward), opts, cfg),
            Action::Previous => self.moved_to(Move::Step(Direction::Backward), opts, cfg),
            Action::TogglePlay => if self.playing {
                self.stopped()
            } else {
                self.started(false, opts, cfg)
            },
            Action::ReadCurrent => self.started(false, opts, cfg),
            Action::ReadSection => self.named(cfg),
            Action::RestartSection => self.restarted(opts, cfg),
            Action::NextHeading => self.jumped(Direction::Forward, cfg),
            Action::PrevHeading => self.jumped(Direction::Backward, cfg),
            Action::PageNext => self.moved_to(Move::Page(Direction::Forward), opts, cfg),
            Action::PagePrev => self.moved_to(Move::Page(Direction::Backward), opts, cfg),
            Action::CycleTabPrev => self.cycled(Direction::Backward),
            Action::CycleTabNext => self.cycled(Direction::Forward),
            _ => self,
        }
    }

    /// What becomes of the waiting when an action comes, and what the action
    /// then does to the player.
    pub open spec fn acted(
        self,
        action: Action,
        opts: ReadOptions,
        cfg: PronunciationConfig,
    ) -> Outcome {
        match decision(action, self.armed) {
            ArmedDecision::SpeakCurrent => self.set_armed(false).started(false, opts, cfg),
            ArmedDecision::RereadHeader => self.waiting(cfg),
            ArmedDecision::SilentDisarm => self.set_armed(false).stopped(),
            ArmedDecision::ReturnToPreJump => self.set_armed(false).returned(opts, cfg),
            ArmedDecision::DisarmThenRun => self.set_armed(false).ran(action, opts, cfg),
            ArmedDecision::PassThrough => self.ran(action, opts, cfg),
        }
    }
}

/// The action can be done: where it moves from where the cursor is, there are
/// pages. While armed, `Next` reads, and `Previous` goes back to where the jump
/// started, where that is known.
pub open spec fn can_act(p: Player, action: Action) -> bool {
    needs_pages(action) ==> can_move(p.tabs@) || (p.armed && (action is Next || (action is Previous
        && p.pre_jump is Some)))
}

impl Player {
    /// Whether the action can be done.
    pub fn can_act(&self, action: Action) -> (r: bool)
        ensures
            r == can_act(*self, action),
    {
        match action {
            Action::Next => self.can_move() || self.armed,
            Action::Previous => self.can_move() || (self.armed && self.pre_jump.is_some()),
            Action::NextHeading
            | Action::PrevHeading
            | Action::PageNext
            | Action::PagePrev => self.can_move(),
            _ => true,
        }
    }

    fn run_action(
        &mut self,
        action: Action,
        opts: ReadOptions,
        cfg: &PronunciationConfig,
        cues: &mut Vec<Cue>,
    )
        requires
            deck_ok(old(self).tabs@),
            needs_pages(action) ==> can_move(old(self).tabs@),
        ensures
            so_far(*final(self), final(cues)@) == so_far(*old(self), old(cues)@).ran(
                action,
                opts,
                *cfg,
            ),
            same_setting(*final(self), *old(self)),
            deck_ok(final(self).tabs@),
    {
        match action {
            Action::Next => self.nav(Move::Step(Direction::Forward), opts, cfg, cues),
            Action::Previous => self.nav(Move::Step(Direction::Backward), opts, cfg, cues),
            Action::TogglePlay => {
                if self.playing {
                    self.stop_speaking(cues);
                } else {
                    self.start_speaking_with_header(false, opts, cfg, cues);
                }
            },
            Action::ReadCurrent => self.start_speaking_with_header(false, opts, cfg, cues),
            Action::ReadSection => self.speak_section(cfg, cues),
            Action::RestartSection => self.restart_section(opts, cfg, cues),
            Action::NextHeading => self.jump_heading(Direction::Forward, cfg, cues),
            Action::PrevHeading => self.jump_heading(Direction::Backward, cfg, cues),
            Action::PageNext => self.nav(Move::Page(Direction::Forward), opts, cfg, cues),
            Action::PagePrev => self.nav(Move::Page(Direction::Backward), opts, cfg, cues),
            Action::CycleTabPrev => self.cycle_tab(Direction::Backward, cues),
            Action::CycleTabNext => self.cycle_tab(Direction::Forward, cues),
            _ => {},
        }
    }

    /// Does what an action means for the player. The decision says whether the
    /// action is to be carried on with elsewhere.
    pub fn act(
        &mut self,
        action: Action,
        opts: ReadOptions,
        cfg: &PronunciationConfig,
        cues: &mut Vec<Cue>,
    ) -> (r: ArmedDecision)
        requires
            deck_ok(old(self).tabs@),
            can_act(*old(self), action),
        ensures
            r == decision(action, old(self).armed),
            so_far(*final(self), final(cues)@) == so_far(*old(self), old(cues)@).acted(
                action,
                opts,
                *cfg,
            ),
            same_setting(*final(self), *old(self)),
            deck_ok(final(self).tabs@),
    {
        let what = armed_decision(action, self.armed);
        match what {
            ArmedDecision::SpeakCurrent => {
                self.set_armed_state(false, cues);
                self.start_speaking_with_header(false, opts, cfg, cues);
            },
            ArmedDecision::RereadHeader => {
                self.arm_after_section_jump(cfg, cues);
            },
            ArmedDecision::SilentDisarm => {
                self.set_armed_state(false, cues);
                self.stop_speaking(cues);
            },
            ArmedDecision::ReturnToPreJump => {
                self.set_armed_state(false, cues);
                self.return_to_pre_jump(opts, cfg, cues);
            },
            ArmedDecision::DisarmThenRun => {
                self.set_armed_state(false, cues);
                self.run_action(action, opts, cfg, cues);
            },
            ArmedDecision::PassThrough => {
                self.run_action(action, opts, cfg, cues);
            },
        }
        what
    }

    /// The tab that an action will show, where it will show another one. The
    /// application loads it before the action is done.
    pub fn destination(&self, action: Action) -> (r: Option<usize>)
        requires
            deck_ok(self.tabs@),
        ensures
            r == (match action {
                Action::Previous => match self.pre_jump {
                    Some((tab, _)) => if self.armed {
                        Some(tab)
                    } else {
                        None
                    },
                    None => None,
                },
                Action::CycleTabPrev | Action::CycleTabNext => if self.tabs@.tabs.len() > 1 {
                    Some(
                        ((self.tabs.active + (if action is CycleTabNext {
                            1int
                        } else {
                            -1int
                        })) % (self.tabs@.tabs.len() as int)) as usize,
                    )
                } else {
                    None
                },
                _ => None,
            }),
    {
        match action {
            Action::Previous => if self.armed {
                match self.pre_jump {
                    Some((tab, _cursor)) => Some(tab),
                    None => None,
                }
            } else {
                None
            },
            Action::CycleTabPrev => self.cycle_target(Direction::Backward),
            Action::CycleTabNext => self.cycle_target(Direction::Forward),
            _ => None,
        }
    }
}

fn push_cue(cues: &mut Vec<Cue>, cue: Cue)
    ensures
        cue_views(final(cues)@) == cue_views(old(cues)@).push(cue@),
{
    cues.push(cue);
    assert(cue_views(cues@) =~= cue_views(old(cues)@).push(cue@));
}

// ---------------------------------------------------------------------------
// Laws
// ---------------------------------------------------------------------------

/// A jump to a heading that ends with waiting is undone by `Previous`: every
/// tab's cursor is then where it was before the jump, and nothing waits.
pub proof fn law_previous_undoes_a_heading_jump(
    o: Outcome,
    dir: Direction,
    opts: ReadOptions,
    cfg: PronunciationConfig,
)
    requires
        deck_ok(o.deck),
        o.deck.has_active(),
        inside(o.deck.pages(), o.deck.cursor()),
        !o.armed,
        o.jumped(dir, cfg).armed,
    ensures
        o.jumped(dir, cfg).acted(Action::Previous, opts, cfg).deck == o.deck,
        !o.jumped(dir, cfg).acted(Action::Previous, opts, cfg).armed,
{
    let j = o.jumped(dir, cfg);
    let back = j.acted(Action::Previous, opts, cfg);
    assert(back.deck.tabs =~= o.deck.tabs);
}

/// A jump to what a query found, also in another tab, is undone by `Previous`
/// in the same way: the tab that was shown is shown again, with its cursor where
/// it was.
pub proof fn law_previous_undoes_a_query_jump(
    o: Outcome,
    target: NavTarget,
    opts: ReadOptions,
    cfg: PronunciationConfig,
)
    requires
        deck_ok(o.deck),
        o.deck.has_active(),
        inside(o.deck.pages(), o.deck.cursor()),
        target.tab_idx < o.deck.tabs.len(),
        !o.armed,
        o.jumped_to(target, cfg).armed,
    ensures
        o.jumped_to(target, cfg).acted(Action::Previous, opts, cfg).deck.active == o.deck.active,
        o.jumped_to(target, cfg).acted(Action::Previous, opts, cfg).deck.cursor()
            == o.deck.cursor(),
        !o.jumped_to(target, cfg).acted(Action::Previous, opts, cfg).armed,
{
}

/// Moving item by item or page by page never arms the session.
pub proof fn law_plain_moves_never_arm(
    o: Outcome,
    m: Move,
    opts: ReadOptions,
    cfg: PronunciationConfig,
)
    ensures
        o.moved_to(m, opts, cfg).armed == o.armed,
        o.moved_silently(m).armed == o.armed,
{
}

/// While the session waits, `Next` and the play button read the item that it
/// waits at: the cursor stays, and the waiting ends.
pub proof fn law_go_reads_the_waiting_item(
    o: Outcome,
    action: Action,
    opts: ReadOptions,
    cfg: PronunciationConfig,
)
    requires
        o.armed,
        action is Next || action is TogglePlay,
    ensures
        o.acted(action, opts, cfg).deck == o.deck,
        !o.acted(action, opts, cfg).armed,
        o.deck.has_active() && readable(o.deck.pages(), o.deck.cursor()) ==> o.acted(
            action,
            opts,
            cfg,
        ).playing,
{
}

/// While the session waits, asking again says the heading again and goes on
/// waiting; nothing starts to play.
pub proof fn law_asking_again_keeps_waiting(
    o: Outcome,
    action: Action,
    opts: ReadOptions,
    cfg: PronunciationConfig,
)
    requires
        o.armed,
        action is ReadCurrent || action is ReadSection,
    ensures
        o.acted(action, opts, cfg).armed,
        !o.acted(action, opts, cfg).playing,
{
}

/// `Cancel` while the session waits ends the waiting in silence: speech is
/// stopped, nothing is said, and the cursor stays.
pub proof fn law_cancel_ends_waiting_in_silence(
    o: Outcome,
    opts: ReadOptions,
    cfg: PronunciationConfig,
)
    requires
        o.armed,
    ensures
        o.acted(Action::Cancel, opts, cfg) == (Outcome {
            armed: false,
            playing: false,
            cues: o.cues.push(CueView::Armed(false)).push(CueView::Stop),
            ..o
        }),
{
}

/// An action that is none of the player's leaves it as it is, waiting or not;
/// `Cancel` while waiting is the one exception.
pub proof fn law_other_actions_leave_the_player(
    o: Outcome,
    action: Action,
    opts: ReadOptions,
    cfg: PronunciationConfig,
)
    requires
        !is_players(action),
        !(o.armed && action is Cancel),
    ensures
        o.acted(action, opts, cfg) == o,
{
}

/// While the session waits nothing goes on by itself: the end of speech moves
/// no cursor and reads nothing.
pub proof fn law_no_advance_while_waiting(
    o: Outcome,
    opts: ReadOptions,
    cfg: PronunciationConfig,
)
    requires
        o.armed,
    ensures
        o.ticked(opts, cfg) == (Outcome { playing: false, ..o }),
{
}

/// Turning the tab strip forward and back shows the same tab again.
pub proof fn law_cycling_back_undoes_cycling(o: Outcome)
    requires
        deck_ok(o.deck),
        o.deck.tabs.len() <= usize::MAX,
    ensures
        o.cycled(Direction::Forward).cycled(Direction::Backward).deck == o.deck,
{
    let n = o.deck.tabs.len() as int;
    if n > 1 {
        let a = o.deck.active as int;
        let f = (a + 1) % n;
        assert(0 <= f < n && (f - 1) % n == a) by (nonlinear_arith)
            requires
                0 <= a < n,
                n > 1,
                f == (a + 1) % n,
        {
            if a + 1 < n {
                assert(f == a + 1);
            } else {
                assert(f == 0);
            }
        }
    }
}

} // verus!
