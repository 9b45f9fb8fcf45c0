//! The whole of a session: what an action, a transcript or a query does to it.

use vstd::prelude::*;

use crate::actions::{label_of, Action};
use crate::audio::{Mic, MicStep};
use crate::config::SttConfig;
use crate::controller::{decision, ArmedDecision};
use crate::input::{
    bound_action, handle_press, handle_release, press_outcome, rebound, InputEvent, PressOutcome,
    TriggerView,
};
use crate::numbers::{decimal, push_decimal};
use crate::pills::{armed_pill, status_pill, PillMessage, Pills, PillsView};
use crate::player::{
    can_act, same_setting, so_far, Cue, Move, Outcome, Player, ReadOptions,
};
use crate::pronunciation::PronunciationConfig;
use crate::query_aliases::QueryAliases;
use crate::rank::best;
use crate::section_search::{
    all_entries, entry_hits, match_text, Evidence, NavTarget, MATCH_THRESHOLD,
};
use crate::settings::Settings;
use crate::tabs::{deck_ok, page_items, tab_hits, tab_scores};
use crate::text::{lowercase, own, push_text, trim, trimmed};
use crate::voice_router::{
    apply_corrections, meaning, route_with_fuzzy, Meaning, QueryIntent,
    QueryMeaning, RoutedIntent,
};
use crate::word_map::{fires, ordered_rules, rewrite};

verus! {

// ---------------------------------------------------------------------------
// Panels and the window
// ---------------------------------------------------------------------------

/// Which panels are open, and where the window is.
#[derive(Debug, Clone, Copy, PartialEq, Eq)]
pub struct Desk {
    pub settings_open: bool,
    pub voice_commands_open: bool,
    pub click_through: bool,
    /// The window is off the screen.
    pub window_hidden: bool,
    /// Where it was before.
    pub saved_pos: Option<(i32, i32)>,
}

/// What is known of the surroundings when an action comes.
#[derive(Debug, Clone, Copy, PartialEq, Eq)]
pub struct Surroundings {
    /// There is a microphone.
    pub has_mic: bool,
    /// Where the window is.
    pub position: (i32, i32),
    /// Passing messages are shown.
    pub messages: bool,
}

/// What is left to do for an action.
#[derive(Debug, Clone, Copy, PartialEq, Eq, Structural)]
pub enum Chore {
    Nothing,
    /// Show the panels as they are now.
    Panels,
    /// Read the files with pronunciations and aliases again.
    Reload,
    /// Do something with the microphone.
    Record(MicStep),
    /// Show whether notes are read, and save the settings.
    ReadNotes(bool),
    /// Let the mouse pass through the window or not, and save the settings.
    ClickThrough(bool),
    /// Move the window.
    MoveWindow(i32, i32),
    /// Move or resize the board in virtual reality.
    Board(Action),
}

/// Where a window is put that is not to be seen.
pub const OFF_SCREEN: i32 = -30000;

/// Where a window is put whose place is not known.
pub const FALLBACK: i32 = 100;

/// The action is about the board in virtual reality.
pub open spec fn is_board_action(action: Action) -> bool {
    ||| action is VrPlaceHere
    ||| action is VrMoveCloser
    ||| action is VrMoveFurther
    ||| action is VrMoveLeft
    ||| action is VrMoveRight
    ||| action is VrMoveUp
    ||| action is VrMoveDown
    ||| action is VrSizeUp
    ||| action is VrSizeDown
    ||| action is VrResetPose
}

/// The panels and the window after an action.
pub open spec fn desk_after(d: Desk, action: Action, position: (i32, i32)) -> Desk {
    match action {
        Action::OpenSettings => Desk { settings_open: !d.settings_open, ..d },
        Action::OpenVoiceCommands => Desk { voice_commands_open: !d.voice_commands_open, ..d },
        Action::Cancel => if d.voice_commands_open {
            Desk { voice_commands_open: false, ..d }
        } else {
            Desk { settings_open: false, ..d }
        },
        Action::ToggleClickThrough => Desk { click_through: !d.click_through, ..d },
        Action::ToggleVisibility => if d.window_hidden {
            Desk { window_hidden: false, ..d }
        } else {
            Desk { window_hidden: true, saved_pos: Some(position), ..d }
        },
        _ => d,
    }
}

impl Desk {
    fn act(&mut self, action: Action, position: (i32, i32))
        ensures
            *final(self) == desk_after(*old(self), action, position),
    {
        match action {
            Action::OpenSettings => {
                self.settings_open = !self.settings_open;
            },
            Action::OpenVoiceCommands => {
                self.voice_commands_open = !self.voice_commands_open;
            },
            Action::Cancel => {
                if self.voice_commands_open {
                    self.voice_commands_open = false;
                } else {
                    self.settings_open = false;
                }
            },
            Action::ToggleClickThrough => {
                self.click_through = !self.click_through;
            },
            Action::ToggleVisibility => {
                if self.window_hidden {
                    self.window_hidden = false;
                } else {
                    self.saved_pos = Some(position);
                    self.window_hidden = true;
                }
            },
            _ => {},
        }
    }
}

/// What a press on a microphone key asks for.
pub open spec fn mic_step(m: Mic, action: Action, has_mic: bool) -> MicStep {
    if action is PushToTalk {
        if m.locked {
            MicStep::Ignore
        } else if has_mic {
            MicStep::Start
        } else {
            MicStep::NoMicrophone
        }
    } else {
        if m.locked {
            MicStep::StopAndSubmit
        } else if has_mic {
            MicStep::StartPolling
        } else {
            MicStep::NoMicrophone
        }
    }
}

/// The microphone after an action.
pub open spec fn mic_after(m: Mic, action: Action, has_mic: bool) -> Mic {
    if action is PushToTalk || action is HotMicToggle {
        match mic_step(m, action, has_mic) {
            MicStep::Start => Mic { hot: true, locked: false },
            MicStep::StartPolling => Mic { hot: true, locked: true },
            MicStep::StopAndSubmit => Mic { hot: false, locked: false },
            _ => m,
        }
    } else {
        m
    }
}

/// What is left to do for an action.
pub open spec fn chore_for(s: Session, action: Action, around: Surroundings) -> Chore {
    match action {
        Action::OpenSettings | Action::OpenVoiceCommands => Chore::Panels,
        Action::Cancel => if s.desk.voice_commands_open || s.desk.settings_open {
            Chore::Panels
        } else {
            Chore::Nothing
        },
        Action::ReloadPronunciation => Chore::Reload,
        Action::PushToTalk | Action::HotMicToggle => Chore::Record(
            mic_step(s.mic, action, around.has_mic),
        ),
        Action::ToggleReadNotes => Chore::ReadNotes(!s.settings.read_notes),
        Action::ToggleClickThrough => Chore::ClickThrough(!s.desk.click_through),
        Action::ToggleVisibility => if s.desk.window_hidden {
            match s.desk.saved_pos {
                Some((x, y)) => Chore::MoveWindow(x, y),
                None => Chore::MoveWindow(FALLBACK, FALLBACK),
            }
        } else {
            Chore::MoveWindow(OFF_SCREEN, OFF_SCREEN)
        },
        _ => if is_board_action(action) {
            Chore::Board(action)
        } else {
            Chore::Nothing
        },
    }
}

/// What is shown about a chore.
pub open spec fn message_about(c: Chore) -> Option<Seq<char>> {
    match c {
        Chore::Record(step) => if step is NoMicrophone {
            Some("No microphone — voice off"@)
        } else {
            None
        },
        Chore::ReadNotes(on) => Some(
            if on {
                "More info ON"@
            } else {
                "More info OFF"@
            },
        ),
        Chore::ClickThrough(on) => Some(
            if on {
                "Click-through ON"@
            } else {
                "Click-through OFF"@
            },
        ),
        _ => None,
    }
}

/// The settings after an action.
pub open spec fn settings_after(s: Session, action: Action) -> Settings {
    match action {
        Action::ToggleReadNotes => Settings { read_notes: !s.settings.read_notes, ..s.settings },
        Action::ToggleClickThrough => Settings {
            click_through: !s.desk.click_through,
            ..s.settings
        },
        _ => s.settings,
    }
}

// ---------------------------------------------------------------------------
// The session
// ---------------------------------------------------------------------------

#[derive(Debug)]
pub struct Session {
    pub player: Player,
    pub desk: Desk,
    pub mic: Mic,
    pub pills: Pills,
    pub settings: Settings,
    pub pronunciation: PronunciationConfig,
    pub aliases: QueryAliases,
    /// The action that waits for a trigger to be bound to.
    pub capture: Option<Action>,
    /// Presses show what they are bound to and do nothing else.
    pub test_mode: bool,
}

/// How the user wants to be read to.
pub open spec fn options_of(s: Settings) -> ReadOptions {
    ReadOptions {
        auto_read: s.auto_read_on_next,
        auto_advance: s.auto_advance,
        read_notes: s.read_notes,
    }
}

/// The cue that the session waits is there exactly while it does, and the tabs
/// are in order.
pub open spec fn session_ok(s: Session) -> bool {
    &&& deck_ok(s.player.tabs@)
    &&& s.pills@.sticky == (if s.player.armed {
        Some(armed_pill())
    } else {
        None
    })
}

/// The action goes on to its own work, waiting or not.
pub open spec fn runs(s: Session, action: Action) -> bool {
    let d = decision(action, s.player.armed);
    d is PassThrough || d is DisarmThenRun
}

/// The action stops speech: `Cancel` does where no panel is open to be closed.
pub open spec fn only_stops(s: Session, action: Action) -> bool {
    action is Cancel && runs(s, action) && !s.desk.voice_commands_open && !s.desk.settings_open
}

/// What an action does to the player.
pub open spec fn player_after(s: Session, action: Action, o: Outcome) -> Outcome {
    let acted = o.acted(action, options_of(s.settings), s.pronunciation);
    if only_stops(s, action) {
        acted.stopped()
    } else {
        acted
    }
}

/// The messages after an action, given whether the session then waits.
pub open spec fn pills_after(
    p: PillsView,
    armed: bool,
    about: Option<Seq<char>>,
    messages: bool,
) -> PillsView {
    PillsView {
        sticky: if armed {
            Some(armed_pill())
        } else {
            None
        },
        transient: match about {
            Some(text) => if messages && text.len() > 0 && !armed {
                Some(status_pill(text))
            } else {
                p.transient
            },
            None => p.transient,
        },
        ..p
    }
}

impl Session {
    pub fn new(
        player: Player,
        settings: Settings,
        pronunciation: PronunciationConfig,
        aliases: QueryAliases,
    ) -> (r: Session)
        requires
            deck_ok(player.tabs@),
            !player.armed,
        ensures
            r.player == player,
            r.settings == settings,
            r.pronunciation == pronunciation,
            r.aliases == aliases,
            r.capture is None,
            !r.test_mode,
            r.desk == (Desk {
                settings_open: false,
                voice_commands_open: false,
                click_through: settings.click_through,
                window_hidden: false,
                saved_pos: None,
            }),
            r.mic == (Mic { hot: false, locked: false }),
            r.pills@ == (PillsView { critical: None, sticky: None, transient: None }),
            session_ok(r),
    {
        let click_through = settings.click_through;
        Session {
            player,
            desk: Desk {
                settings_open: false,
                voice_commands_open: false,
                click_through,
                window_hidden: false,
                saved_pos: None,
            },
            mic: Mic::new(),
            pills: Pills::new(),
            settings,
            pronunciation,
            aliases,
            capture: None,
            test_mode: false,
        }
    }

    fn name_chore(&self, action: Action, around: Surroundings) -> (r: Chore)
        ensures
            r == chore_for(*self, action, around),
    {
        match action {
            Action::OpenSettings | Action::OpenVoiceCommands => Chore::Panels,
            Action::Cancel => if self.desk.voice_commands_open || self.desk.settings_open {
                Chore::Panels
            } else {
                Chore::Nothing
            },
            Action::ReloadPronunciation => Chore::Reload,
            Action::PushToTalk => {
                let mut m = self.mic;
                Chore::Record(m.press_to_talk(around.has_mic))
            },
            Action::HotMicToggle => {
                let mut m = self.mic;
                Chore::Record(m.toggle_hot_mic(around.has_mic))
            },
            Action::ToggleReadNotes => Chore::ReadNotes(!self.settings.read_notes),
            Action::ToggleClickThrough => Chore::ClickThrough(!self.desk.click_through),
            Action::ToggleVisibility => if self.desk.window_hidden {
                match self.desk.saved_pos {
                    Some((x, y)) => Chore::MoveWindow(x, y),
                    None => Chore::MoveWindow(FALLBACK, FALLBACK),
                }
            } else {
                Chore::MoveWindow(OFF_SCREEN, OFF_SCREEN)
            },
            Action::VrPlaceHere
            | Action::VrMoveCloser
            | Action::VrMoveFurther
            | Action::VrMoveLeft
            | Action::VrMoveRight
            | Action::VrMoveUp
            | Action::VrMoveDown
            | Action::VrSizeUp
            | Action::VrSizeDown
            | Action::VrResetPose => Chore::Board(action),
            _ => Chore::Nothing,
        }
    }

    fn do_chore(&mut self, action: Action, around: Surroundings) -> (r: Chore)
        ensures
            r == chore_for(*old(self), action, around),
            final(self).desk == desk_after(old(self).desk, action, around.position),
            final(self).mic == mic_after(old(self).mic, action, around.has_mic),
            final(self).settings == settings_after(*old(self), action),
            final(self).player == old(self).player,
            final(self).pills == old(self).pills,
            final(self).pronunciation == old(self).pronunciation,
            final(self).aliases == old(self).aliases,
            final(self).capture == old(self).capture,
            final(self).test_mode == old(self).test_mode,
    {
        let chore = self.name_chore(action, around);
        match action {
            Action::PushToTalk => {
                let _step = self.mic.press_to_talk(around.has_mic);
            },
            Action::HotMicToggle => {
                let _step = self.mic.toggle_hot_mic(around.has_mic);
            },
            Action::ToggleReadNotes => {
                self.settings.read_notes = !self.settings.read_notes;
            },
            Action::ToggleClickThrough => {
                self.settings.click_through = !self.desk.click_through;
            },
            _ => {},
        }
        self.desk.act(action, around.position);
        chore
    }

    fn tell_about(&mut self, c: Chore, messages: bool)
        ensures
            final(self).pills@ == pills_after(
                old(self).pills@,
                old(self).player.armed,
                message_about(c),
                messages,
            ),
            final(self).player == old(self).player,
            final(self).desk == old(self).desk,
            final(self).mic == old(self).mic,
            final(self).settings == old(self).settings,
            final(self).pronunciation == old(self).pronunciation,
            final(self).aliases == old(self).aliases,
            final(self).capture == old(self).capture,
            final(self).test_mode == old(self).test_mode,
    {
        let armed = self.player.armed;
        self.pills.set_armed(armed);
        let text = match c {
            Chore::Record(MicStep::NoMicrophone) => Some(own("No microphone — voice off")),
            Chore::ReadNotes(on) => Some(
                own(
                    if on {
                        "More info ON"
                    } else {
                        "More info OFF"
                    },
                ),
            ),
            Chore::ClickThrough(on) => Some(
                own(
                    if on {
                        "Click-through ON"
                    } else {
                        "Click-through OFF"
                    },
                ),
            ),
            _ => None,
        };
        if let Some(text) = text {
            let _shown = self.pills.push_transient(PillMessage::status(text), messages);
        }
    }

    /// Does an action: what it means for the player goes to the cues, and what
    /// else is to be done comes back. A tab that the action shows has to be
    /// loaded before (see `Player::destination`).
    pub fn dispatch(&mut self, action: Action, around: Surroundings, cues: &mut Vec<Cue>) -> (r:
        Chore)
        requires
            session_ok(*old(self)),
            can_act(old(self).player, action),
        ensures
            session_ok(*final(self)),
            so_far(final(self).player, final(cues)@) == player_after(
                *old(self),
                action,
                so_far(old(self).player, old(cues)@),
            ),
            same_setting(final(self).player, old(self).player),
            r == (if runs(*old(self), action) {
                chore_for(*old(self), action, around)
            } else {
                Chore::Nothing
            }),
            final(self).desk == (if runs(*old(self), action) {
                desk_after(old(self).desk, action, around.position)
            } else {
                old(self).desk
            }),
            final(self).mic == (if runs(*old(self), action) {
                mic_after(old(self).mic, action, around.has_mic)
            } else {
                old(self).mic
            }),
            final(self).settings == (if runs(*old(self), action) {
                settings_after(*old(self), action)
            } else {
                old(self).settings
            }),
            final(self).pills@ == pills_after(
                old(self).pills@,
                final(self).player.armed,
                message_about(r),
                around.messages,
            ),
            final(self).pronunciation == old(self).pronunciation,
            final(self).aliases == old(self).aliases,
            final(self).capture == old(self).capture,
            final(self).test_mode == old(self).test_mode,
    {
        let opts = self.settings.read_options();
        let no_panel = !self.desk.voice_commands_open && !self.desk.settings_open;
        let what = self.player.act(action, opts, &self.pronunciation, cues);
        let goes_on = match what {
            ArmedDecision::PassThrough | ArmedDecision::DisarmThenRun => true,
            _ => false,
        };
        let chore = if goes_on {
            if let Action::Cancel = action {
                if no_panel {
                    self.player.stop_speaking(cues);
                }
            }
            self.do_chore(action, around)
        } else {
            Chore::Nothing
        };
        self.tell_about(chore, around.messages);
        chore
    }

    /// What was read is over.
    pub fn post_speech_tick(&mut self, cues: &mut Vec<Cue>)
        requires
            session_ok(*old(self)),
            old(self).settings.auto_advance && !old(self).player.armed ==> crate::player::can_move(
                old(self).player.tabs@,
            ),
        ensures
            session_ok(*final(self)),
            so_far(final(self).player, final(cues)@) == so_far(
                old(self).player,
                old(cues)@,
            ).ticked(options_of(old(self).settings), old(self).pronunciation),
            *final(self) == (Session { player: final(self).player, ..*old(self) }),
            same_setting(final(self).player, old(self).player),
    {
        let opts = self.settings.read_options();
        self.player.post_speech_tick(opts, &self.pronunciation, cues);
    }
}

// ---------------------------------------------------------------------------
// Input
// ---------------------------------------------------------------------------

/// What is left to do for an input event.
#[derive(Debug, Clone, Copy, PartialEq, Eq, Structural)]
pub enum EventStep {
    Nothing,
    /// Show the bindings as they are now.
    Refresh,
    /// Save the bindings, and show them as they are now.
    Save,
    /// Flash the row of the action.
    Flash(Action),
    /// Do the action.
    Dispatch(Action),
    /// Stop to record, and submit what was recorded.
    Submit,
}

/// What is left to do for a press, and whether the press was of any use.
pub open spec fn press_step(o: PressOutcome) -> (EventStep, bool) {
    match o {
        PressOutcome::CaptureCancelled => (EventStep::Refresh, true),
        PressOutcome::Captured(_) => (EventStep::Save, true),
        PressOutcome::Flash(a) => (EventStep::Flash(a), true),
        PressOutcome::Dispatch(a) => (EventStep::Dispatch(a), true),
        PressOutcome::Unbound => (EventStep::Nothing, false),
    }
}

/// A release of the trigger ends push-to-talk.
pub open spec fn ends_talk(s: Session, t: TriggerView) -> bool {
    s.capture is None && bound_action(s.settings.bindings@, t) == Some(Action::PushToTalk)
        && !s.mic.locked
}

impl Session {
    /// Takes an input event. Presses are captured or looked up in the bindings;
    /// releases count for push-to-talk only. Says what is left to do, and
    /// whether the event was of any use.
    pub fn handle_event(&mut self, event: InputEvent) -> (r: (EventStep, bool))
        ensures
            match event {
                InputEvent::Press(t) => {
                    let o = press_outcome(
                        old(self).settings.bindings@,
                        old(self).capture,
                        old(self).test_mode,
                        t@,
                    );
                    &&& r == press_step(o)
                    &&& final(self).capture is None
                    &&& final(self).settings.bindings@ == (match o {
                        PressOutcome::Captured(a) => rebound(
                            old(self).settings.bindings@,
                            a,
                            t@,
                        ),
                        _ => old(self).settings.bindings@,
                    })
                    &&& final(self).mic == old(self).mic
                },
                InputEvent::Release(t) => {
                    &&& r == (if ends_talk(*old(self), t@) {
                        (EventStep::Submit, true)
                    } else {
                        (EventStep::Nothing, false)
                    })
                    &&& final(self).mic == (if ends_talk(*old(self), t@) {
                        Mic { hot: false, ..old(self).mic }
                    } else {
                        old(self).mic
                    })
                    &&& final(self).capture == old(self).capture
                    &&& final(self).settings == old(self).settings
                },
                InputEvent::DevicesChanged => r == (EventStep::Refresh, false) && *final(self)
                    == *old(self),
            },
            *final(self) == (Session {
                settings: Settings {
                    bindings: final(self).settings.bindings,
                    ..old(self).settings
                },
                capture: final(self).capture,
                mic: final(self).mic,
                ..*old(self)
            }),
    {
        match event {
            InputEvent::Press(t) => {
                let test_mode = self.test_mode;
                let o = handle_press(
                    &mut self.settings.bindings,
                    &mut self.capture,
                    test_mode,
                    t,
                );
                match o {
                    PressOutcome::CaptureCancelled => (EventStep::Refresh, true),
                    PressOutcome::Captured(_) => (EventStep::Save, true),
                    PressOutcome::Flash(a) => (EventStep::Flash(a), true),
                    PressOutcome::Dispatch(a) => (EventStep::Dispatch(a), true),
                    PressOutcome::Unbound => (EventStep::Nothing, false),
                }
            },
            InputEvent::Release(t) => {
                if handle_release(&self.settings.bindings, self.capture, self.mic.locked, &t) {
                    self.mic.release();
                    (EventStep::Submit, true)
                } else {
                    (EventStep::Nothing, false)
                }
            },
            InputEvent::DevicesChanged => (EventStep::Refresh, false),
        }
    }
}

// ---------------------------------------------------------------------------
// Queries
// ---------------------------------------------------------------------------

/// The best of what was found, where it reaches the threshold.
pub open spec fn chosen(found: Seq<(NavTarget, Seq<char>)>, scores: Seq<u64>) -> Option<NavTarget> {
    let order = best(scores, MATCH_THRESHOLD, 5);
    if order.len() > 0 {
        Some(found[order[0] as int].0)
    } else {
        None
    }
}

/// The query after aliases were replaced.
pub open spec fn rewritten(s: Session, query: Seq<char>) -> Seq<char> {
    rewrite(query, ordered_rules(s.aliases.rewrites@))
}

/// Where a query for a section leads, given the scores of the sections of the
/// tab that is shown.
pub open spec fn section_found(s: Session, query: Seq<char>, scores: Seq<u64>) -> Option<
    NavTarget,
> {
    if !s.player.tabs@.has_active() || match_text(rewritten(s, query)).len() == 0 {
        None
    } else {
        chosen(entry_hits(page_items(s.player.tabs@.pages()), s.player.tabs.active), scores)
    }
}

/// Where a query for a tab leads.
pub open spec fn tab_found(s: Session, query: Seq<char>) -> Option<NavTarget> {
    let q = lowercase(trim(rewritten(s, query)));
    if q.len() == 0 {
        None
    } else {
        chosen(tab_hits(s.player.tabs@.tabs), tab_scores(q, s.player.tabs@.tabs))
    }
}

/// What a query does to the player. The waiting ends first; a query for a
/// section that is found begins it anew.
pub open spec fn queried(s: Session, q: QueryMeaning, scores: Seq<u64>, o: Outcome) -> Outcome {
    let opts = options_of(s.settings);
    let cfg = s.pronunciation;
    let free = o.set_armed(false);
    match q {
        QueryMeaning::Page(n) => free.moved_to(Move::ToPage(n), opts, cfg),
        QueryMeaning::Section(t) => match section_found(s, t, scores) {
            Some(target) => free.jumped_to(target, cfg),
            None => free,
        },
        QueryMeaning::Tab(t) => match tab_found(s, t) {
            Some(target) => free.switched(target.tab_idx),
            None => free,
        },
        QueryMeaning::Sections => free.listed(cfg),
        QueryMeaning::Pick(_) => free,
    }
}

impl Session {
    /// What the scores of the sections are computed from, for a query for a
    /// section.
    pub fn query_evidence(&self, query: &str) -> (r: Vec<Evidence>)
        ensures
            !self.player.tabs@.has_active() ==> r@.len() == 0,
            self.player.tabs@.has_active() ==> {
                let pages = page_items(self.player.tabs@.pages());
                let places = all_entries(pages);
                &&& r@.len() == places.len()
                &&& forall|k: int|
                    0 <= k < r@.len() ==> crate::section_search::is_evidence(
                        #[trigger] r@[k],
                        match_text(rewritten(*self, query@)),
                        pages[places[k].0][places[k].1],
                    )
            },
    {
        let q = self.aliases.rewrite(query);
        self.player.tabs.active_evidence(q.as_str())
    }

    fn find_section(&self, query: &str, scores: &Vec<u64>) -> (r: Option<NavTarget>)
        requires
            self.player.tabs@.has_active() ==> scores@.len() == all_entries(
                page_items(self.player.tabs@.pages()),
            ).len(),
        ensures
            r == section_found(*self, query@, scores@),
    {
        let q = self.aliases.rewrite(query);
        match self.player.tabs.resolve_section_query(q.as_str(), scores) {
            Some(m) => Some(m.target),
            None => None,
        }
    }

    fn find_tab(&self, query: &str) -> (r: Option<NavTarget>)
        ensures
            r == tab_found(*self, query@),
    {
        let q = self.aliases.rewrite(query);
        match self.player.tabs.resolve_tab_query(q.as_str()) {
            Some(m) => Some(m.target),
            None => None,
        }
    }

    /// Does what a query asks for. `scores` holds, for a query for a section,
    /// the scores of the sections of the tab that is shown, in the order of
    /// their evidence.
    pub fn handle_query(&mut self, q: &QueryIntent, scores: &Vec<u64>, cues: &mut Vec<Cue>)
        requires
            session_ok(*old(self)),
            q is NavigateToSection && old(self).player.tabs@.has_active() ==> scores@.len()
                == all_entries(page_items(old(self).player.tabs@.pages())).len(),
        ensures
            session_ok(*final(self)),
            so_far(final(self).player, final(cues)@) == queried(
                *old(self),
                q@,
                scores@,
                so_far(old(self).player, old(cues)@),
            ),
            same_setting(final(self).player, old(self).player),
            final(self).pills@ == pills_after(
                old(self).pills@,
                final(self).player.armed,
                None,
                false,
            ),
            *final(self) == (Session {
                player: final(self).player,
                pills: final(self).pills,
                ..*old(self)
            }),
    {
        let opts = self.settings.read_options();
        let section = match q {
            QueryIntent::NavigateToSection(t) => self.find_section(t.as_str(), scores),
            _ => None,
        };
        let tab = match q {
            QueryIntent::NavigateToTab(t) => self.find_tab(t.as_str()),
            _ => None,
        };
        self.player.set_armed_state(false, cues);
        match q {
            QueryIntent::NavigateToPage(n) => {
                self.player.nav(Move::ToPage(*n), opts, &self.pronunciation, cues);
            },
            QueryIntent::NavigateToSection(_) => {
                if let Some(target) = section {
                    self.player.goto_target_armed(target, &self.pronunciation, cues);
                }
            },
            QueryIntent::NavigateToTab(_) => {
                if let Some(target) = tab {
                    self.player.switch_tab(target.tab_idx, cues);
                }
            },
            QueryIntent::ListSections => {
                self.player.speak_section_list(&self.pronunciation, cues);
            },
            QueryIntent::PickResult(_) => {},
        }
        let armed = self.player.armed;
        self.pills.set_armed(armed);
    }
}

// ---------------------------------------------------------------------------
// Transcripts
// ---------------------------------------------------------------------------

/// What was heard.
#[derive(Debug)]
pub enum Heard {
    /// Nothing.
    NoSpeech,
    /// An action, and what to show for it.
    Action(Action, String),
    /// A query, and what to show for it.
    Query(QueryIntent, String),
    /// Something that means nothing, as it was said.
    Unmatched(String),
}

/// The transcript that is routed: as it was corrected, or as it is.
pub open spec fn corrected(said: Seq<char>, stt: SttConfig) -> Seq<char> {
    let low = lowercase(said);
    let table = ordered_rules(stt.corrections@);
    if fires(low, table) {
        rewrite(low, table)
    } else {
        said
    }
}

/// What a query asks for, as it is shown.
pub open spec fn query_label(q: QueryMeaning) -> Seq<char> {
    match q {
        QueryMeaning::Page(n) => "Go to page "@ + decimal(n as nat),
        QueryMeaning::Section(t) => "Find section \""@ + t + "\""@,
        QueryMeaning::Tab(t) => "Switch to tab \""@ + t + "\""@,
        QueryMeaning::Sections => "List sections"@,
        QueryMeaning::Pick(n) => "Pick result "@ + decimal(n as nat),
    }
}

/// A label with what was said behind it in brackets.
pub open spec fn with_words(label: Seq<char>, said: Seq<char>) -> Seq<char> {
    label + " ("@ + said + ")"@
}

fn add_words(label: String, said: &str) -> (r: String)
    ensures
        r@ == with_words(label@, said@),
{
    let mut out = label;
    push_text(&mut out, " (");
    push_text(&mut out, said);
    push_text(&mut out, ")");
    out
}

/// What a query asks for, as it is shown.
pub fn label_query(q: &QueryIntent) -> (r: String)
    ensures
        r@ == query_label(q@),
{
    match q {
        QueryIntent::NavigateToPage(n) => {
            let mut s = own("Go to page ");
            push_decimal(&mut s, *n as u64);
            s
        },
        QueryIntent::NavigateToSection(t) => {
            let mut s = own("Find section \"");
            push_text(&mut s, t.as_str());
            push_text(&mut s, "\"");
            s
        },
        QueryIntent::NavigateToTab(t) => {
            let mut s = own("Switch to tab \"");
            push_text(&mut s, t.as_str());
            push_text(&mut s, "\"");
            s
        },
        QueryIntent::ListSections => own("List sections"),
        QueryIntent::PickResult(n) => {
            let mut s = own("Pick result ");
            push_decimal(&mut s, *n as u64);
            s
        },
    }
}

/// What was heard is what was said, taken as `routed`.
pub open spec fn is_heard(r: Heard, said: Seq<char>, routed: Seq<char>, threshold: u64) -> bool {
    match r {
        Heard::NoSpeech => said.len() == 0,
        Heard::Action(a, label) => {
            &&& said.len() > 0
            &&& meaning(routed, threshold) == Meaning::Action(a)
            &&& label@ == with_words(label_of(a), said)
        },
        Heard::Query(q, label) => {
            &&& said.len() > 0
            &&& meaning(routed, threshold) == Meaning::Query(q@)
            &&& label@ == with_words(query_label(q@), said)
        },
        Heard::Unmatched(text) => {
            &&& said.len() > 0
            &&& meaning(routed, threshold) is Unmatched
            &&& text@ == said
        },
    }
}

/// Understands a transcript: it is corrected and routed, and what is shown names
/// what was understood and what was said.
pub fn understand(transcript: &str, stt: &SttConfig) -> (r: Heard)
    ensures
        is_heard(
            r,
            trim(transcript@),
            corrected(trim(transcript@), *stt),
            stt.fuzzy_threshold,
        ),
{
    let said = trimmed(transcript);
    match apply_corrections(said.as_str(), &stt.corrections) {
        Some(c) => understand_as(said.as_str(), c.as_str(), stt.fuzzy_threshold),
        None => understand_as(said.as_str(), said.as_str(), stt.fuzzy_threshold),
    }
}

/// Understands what was said, given how it was corrected.
pub fn understand_as(said: &str, routed: &str, threshold: u64) -> (r: Heard)
    ensures
        is_heard(r, said@, routed@, threshold),
{
    if said.unicode_len() == 0 {
        return Heard::NoSpeech;
    }
    match route_with_fuzzy(routed, threshold) {
        RoutedIntent::Action(a) => {
            let label = add_words(own(a.label()), said);
            Heard::Action(a, label)
        },
        RoutedIntent::Query(q) => {
            let label = add_words(label_query(&q), said);
            Heard::Query(q, label)
        },
        RoutedIntent::Unmatched => Heard::Unmatched(own(said)),
    }
}

// ---------------------------------------------------------------------------
// Laws
// ---------------------------------------------------------------------------

/// Hiding the window and showing it again puts it back where it was.
pub proof fn law_show_undoes_hide(s: Session, t: Session, around: Surroundings)
    requires
        !s.desk.window_hidden,
        t.desk == desk_after(s.desk, Action::ToggleVisibility, around.position),
    ensures
        t.desk.window_hidden,
        chore_for(t, Action::ToggleVisibility, around) == Chore::MoveWindow(
            around.position.0,
            around.position.1,
        ),
        !desk_after(t.desk, Action::ToggleVisibility, around.position).window_hidden,
{
}

/// `Cancel` closes one panel at a time, the voice commands first, and stops
/// speech only where none is open.
pub proof fn law_cancel_closes_one_panel(s: Session)
    requires
        !s.player.armed,
    ensures
        s.desk.voice_commands_open ==> desk_after(s.desk, Action::Cancel, (0, 0)) == (Desk {
            voice_commands_open: false,
            ..s.desk
        }) && !only_stops(s, Action::Cancel),
        !s.desk.voice_commands_open && s.desk.settings_open ==> desk_after(
            s.desk,
            Action::Cancel,
            (0, 0),
        ) == (Desk { settings_open: false, ..s.desk }) && !only_stops(s, Action::Cancel),
        !s.desk.voice_commands_open && !s.desk.settings_open ==> desk_after(
            s.desk,
            Action::Cancel,
            (0, 0),
        ) == s.desk && only_stops(s, Action::Cancel),
{
}

/// Pressing push-to-talk while the hot mic is on does nothing.
pub proof fn law_hot_mic_wins_over_push_to_talk(m: Mic, has_mic: bool)
    requires
        m.locked,
    ensures
        mic_step(m, Action::PushToTalk, has_mic) is Ignore,
        mic_after(m, Action::PushToTalk, has_mic) == m,
{
}

/// Pressing the key of the hot mic twice closes the microphone again.
pub proof fn law_hot_mic_toggles(m: Mic)
    requires
        !m.locked,
    ensures
        mic_after(m, Action::HotMicToggle, true) == (Mic { hot: true, locked: true }),
        mic_after(mic_after(m, Action::HotMicToggle, true), Action::HotMicToggle, true) == (Mic {
            hot: false,
            locked: false,
        }),
{
}

/// A query for a page, a tab or the list of sections, and one that finds
/// nothing, always ends the waiting.
pub proof fn law_other_queries_end_the_waiting(
    s: Session,
    q: QueryMeaning,
    scores: Seq<u64>,
    o: Outcome,
)
    requires
        q is Section ==> section_found(s, q->Section_0, scores) is None,
    ensures
        !queried(s, q, scores, o).armed,
{
}

/// Each toggle turns its own setting to the other value, says which it is now,
/// and leaves all other settings alone.
pub proof fn law_toggles_turn_their_setting(s: Session, around: Surroundings)
    ensures
        settings_after(s, Action::ToggleReadNotes).read_notes != s.settings.read_notes,
        settings_after(s, Action::ToggleReadNotes) == (Settings {
            read_notes: settings_after(s, Action::ToggleReadNotes).read_notes,
            ..s.settings
        }),
        chore_for(s, Action::ToggleReadNotes, around) == Chore::ReadNotes(
            settings_after(s, Action::ToggleReadNotes).read_notes,
        ),
        settings_after(s, Action::ToggleClickThrough).click_through != s.desk.click_through,
        settings_after(s, Action::ToggleClickThrough) == (Settings {
            click_through: settings_after(s, Action::ToggleClickThrough).click_through,
            ..s.settings
        }),
        desk_after(s.desk, Action::ToggleClickThrough, around.position).click_through
            == settings_after(s, Action::ToggleClickThrough).click_through,
        chore_for(s, Action::ToggleClickThrough, around) == Chore::ClickThrough(
            settings_after(s, Action::ToggleClickThrough).click_through,
        ),
        message_about(Chore::ReadNotes(true)) == Some("More info ON"@),
        message_about(Chore::ReadNotes(false)) == Some("More info OFF"@),
        message_about(Chore::ClickThrough(true)) == Some("Click-through ON"@),
        message_about(Chore::ClickThrough(false)) == Some("Click-through OFF"@),
{
}

/// No other action changes a setting.
pub proof fn law_other_actions_keep_the_settings(s: Session, action: Action)
    requires
        action != Action::ToggleReadNotes,
        action != Action::ToggleClickThrough,
    ensures
        settings_after(s, action) == s.settings,
{
}

/// The keys of the two panels open and close their own panel, and nothing else on
/// the desk changes.
pub proof fn law_panel_keys_toggle_their_panel(s: Session, around: Surroundings)
    ensures
        ({
            let one = desk_after(s.desk, Action::OpenSettings, around.position);
            let two = desk_after(s.desk, Action::OpenVoiceCommands, around.position);
            &&& one.settings_open != s.desk.settings_open
            &&& one == (Desk { settings_open: one.settings_open, ..s.desk })
            &&& two.voice_commands_open != s.desk.voice_commands_open
            &&& two == (Desk { voice_commands_open: two.voice_commands_open, ..s.desk })
            &&& chore_for(s, Action::OpenSettings, around) is Panels
            &&& chore_for(s, Action::OpenVoiceCommands, around) is Panels
        }),
{
}

/// An action that is about neither a panel nor the window leaves the desk as it
/// is.
pub proof fn law_other_actions_keep_the_desk(d: Desk, action: Action, position: (i32, i32))
    requires
        !(action is OpenSettings) && !(action is OpenVoiceCommands) && !(action is Cancel)
            && !(action is ToggleClickThrough) && !(action is ToggleVisibility),
    ensures
        desk_after(d, action, position) == d,
{
}

/// A hidden window is out of sight: below every place that is remembered. One
/// whose place is not known is shown near the corner.
pub proof fn law_hiding_puts_the_window_out_of_sight(s: Session, around: Surroundings)
    requires
        !s.desk.window_hidden,
    ensures
        chore_for(s, Action::ToggleVisibility, around) matches Chore::MoveWindow(x, y)
            && !crate::settings::on_screen(x, y),
        desk_after(s.desk, Action::ToggleVisibility, around.position).saved_pos == Some(
            around.position,
        ),
{
}

/// `Reload` asks for the files to be read again, and the actions of the board are
/// handed on as they are.
pub proof fn law_chores_are_handed_on(s: Session, around: Surroundings, action: Action)
    ensures
        chore_for(s, Action::ReloadPronunciation, around) is Reload,
        is_board_action(action) ==> chore_for(s, action, around) == Chore::Board(action),
        action is Next || action is Previous || action is TogglePlay || action is ReadCurrent
            || action is ReadSection || action is RestartSection || action is NextHeading || action
            is PrevHeading || action is PageNext || action is PagePrev || action is CycleTabPrev
            || action is CycleTabNext ==> chore_for(s, action, around) is Nothing,
{
}

/// Push-to-talk opens the microphone while it is held, where there is one; without
/// one the user is told.
pub proof fn law_push_to_talk_opens_the_microphone(s: Session, around: Surroundings)
    requires
        !s.mic.locked,
    ensures
        around.has_mic ==> mic_after(s.mic, Action::PushToTalk, true) == (Mic {
            hot: true,
            locked: false,
        }) && chore_for(s, Action::PushToTalk, around) == Chore::Record(MicStep::Start),
        !around.has_mic ==> mic_after(s.mic, Action::PushToTalk, false) == s.mic && chore_for(
            s,
            Action::PushToTalk,
            around,
        ) == Chore::Record(MicStep::NoMicrophone),
        message_about(Chore::Record(MicStep::NoMicrophone)) == Some(
            "No microphone — voice off"@,
        ),
{
}

/// The key of the hot mic opens the microphone and has it listened to; pressed
/// again, what was recorded is submitted.
pub proof fn law_the_hot_mic_is_listened_to(s: Session, around: Surroundings)
    ensures
        !s.mic.locked && around.has_mic ==> chore_for(s, Action::HotMicToggle, around)
            == Chore::Record(MicStep::StartPolling),
        !s.mic.locked && !around.has_mic ==> chore_for(s, Action::HotMicToggle, around)
            == Chore::Record(MicStep::NoMicrophone) && mic_after(
            s.mic,
            Action::HotMicToggle,
            false,
        ) == s.mic,
        s.mic.locked ==> chore_for(s, Action::HotMicToggle, around) == Chore::Record(
            MicStep::StopAndSubmit,
        ),
{
}

/// What a chore has to tell is shown, unless messages are turned off, the session
/// waits, or something critical is shown.
pub proof fn law_messages_are_shown(p: PillsView, text: Seq<char>, messages: bool, mic_hot: bool)
    requires
        text.len() > 0,
        p.critical is None,
    ensures
        messages ==> (crate::pills::shown_pill(pills_after(p, false, Some(text), messages), mic_hot)
            matches Some(m) && m.text == text),
        !messages ==> pills_after(p, false, Some(text), messages).transient == p.transient,
        pills_after(p, true, Some(text), messages).transient == p.transient,
        crate::pills::shown_pill(pills_after(p, true, Some(text), messages), mic_hot) == Some(
            armed_pill(),
        ),
{
}

/// While the session waits, an action that goes on, asks again, cancels or goes
/// back is for the player alone; all others do their own work too.
pub proof fn law_what_the_waiting_takes(s: Session, action: Action)
    ensures
        !s.player.armed ==> runs(s, action),
        s.player.armed ==> runs(s, action) == !(action is Next || action is TogglePlay || action
            is ReadCurrent || action is ReadSection || action is Cancel || action is Previous),
{
}

/// For the player an action of the session is what it is for the player; `Cancel`
/// with no panel open and nothing waiting stops speech besides.
pub proof fn law_actions_reach_the_player(s: Session, action: Action, o: Outcome)
    requires
        o.armed == s.player.armed,
    ensures
        !(action is Cancel) ==> player_after(s, action, o) == o.acted(
            action,
            options_of(s.settings),
            s.pronunciation,
        ),
        action is Cancel && !s.player.armed && !s.desk.settings_open && !s.desk.voice_commands_open
            ==> player_after(s, action, o) == (Outcome {
            playing: false,
            cues: o.cues.push(crate::player::CueView::Stop),
            ..o
        }),
        action is Cancel && !s.player.armed && (s.desk.settings_open
            || s.desk.voice_commands_open) ==> player_after(s, action, o) == o,
        options_of(s.settings).auto_read == s.settings.auto_read_on_next,
        options_of(s.settings).auto_advance == s.settings.auto_advance,
        options_of(s.settings).read_notes == s.settings.read_notes,
{
}

/// A press does what its trigger is for: it acts, flashes or is bound, and only
/// an unbound one is of no use.
pub proof fn law_presses_lead_on(a: Action)
    ensures
        press_step(PressOutcome::Dispatch(a)) == (EventStep::Dispatch(a), true),
        press_step(PressOutcome::Flash(a)) == (EventStep::Flash(a), true),
        press_step(PressOutcome::Captured(a)) == (EventStep::Save, true),
        press_step(PressOutcome::CaptureCancelled) == (EventStep::Refresh, true),
        press_step(PressOutcome::Unbound) == (EventStep::Nothing, false),
{
}

/// What is heard is shown with what was said: the label of what was understood
/// and the words in brackets behind it.
pub proof fn law_labels_show_what_was_said(label: Seq<char>, said: Seq<char>, n: u32)
    ensures
        with_words(label, said) == label + " ("@ + said + ")"@,
        query_label(QueryMeaning::Page(n)) == "Go to page "@ + decimal(n as nat),
        query_label(QueryMeaning::Section(said)) == "Find section \""@ + said + "\""@,
        query_label(QueryMeaning::Tab(said)) == "Switch to tab \""@ + said + "\""@,
        query_label(QueryMeaning::Sections) == "List sections"@,
        query_label(QueryMeaning::Pick(n)) == "Pick result "@ + decimal(n as nat),
{
}

/// What is heard follows from what was said: nothing where nothing was said, else
/// what the corrected words mean, shown together with the words that were said.
pub proof fn law_what_is_heard_is_what_was_meant(
    r: Heard,
    said: Seq<char>,
    routed: Seq<char>,
    threshold: u64,
)
    requires
        is_heard(r, said, routed, threshold),
    ensures
        said.len() == 0 <==> r is NoSpeech,
        said.len() > 0 ==> match meaning(routed, threshold) {
            Meaning::Action(a) => r matches Heard::Action(b, label) && b == a && label@
                == with_words(label_of(a), said),
            Meaning::Query(q) => r matches Heard::Query(p, label) && p@ == q && label@
                == with_words(query_label(q), said),
            Meaning::Unmatched => r matches Heard::Unmatched(text) && text@ == said,
        },
{
}

/// Every action about the board is handed on, and nothing else is.
pub proof fn law_the_board_is_handed_its_actions(s: Session, around: Surroundings, action: Action)
    ensures
        (chore_for(s, action, around) is Board) == (action is VrPlaceHere || action is VrMoveCloser
            || action is VrMoveFurther || action is VrMoveLeft || action is VrMoveRight || action
            is VrMoveUp || action is VrMoveDown || action is VrSizeUp || action is VrSizeDown
            || action is VrResetPose),
        chore_for(s, action, around) matches Chore::Board(a) ==> a == action,
{
}

/// A window whose place is not known is shown near the corner.
pub proof fn law_windows_without_a_place_go_near_the_corner(s: Session, around: Surroundings)
    requires
        s.desk.window_hidden,
        s.desk.saved_pos is None,
    ensures
        chore_for(s, Action::ToggleVisibility, around) == Chore::MoveWindow(100, 100),
{
}

/// The release of its trigger ends push-to-talk; that of another trigger does not,
/// nor does any while a trigger is being captured or the hot mic is on.
pub proof fn law_push_to_talk_ends_with_its_trigger(s: Session, t: TriggerView)
    ensures
        s.capture is None && !s.mic.locked && bound_action(s.settings.bindings@, t) == Some(
            Action::PushToTalk,
        ) ==> ends_talk(s, t),
        s.capture is Some ==> !ends_talk(s, t),
        s.mic.locked ==> !ends_talk(s, t),
        bound_action(s.settings.bindings@, t) != Some(Action::PushToTalk) ==> !ends_talk(s, t),
{
}

} // verus!
