//! What the user can ask for.
//!
//! Every interactive thing the user can trigger, by keyboard, game controller,
//! voice or an on-screen button, is one `Action`, so that the bindings and the
//! voice router target the same set.

use vstd::prelude::*;

verus! {

#[derive(Debug, Clone, Copy, PartialEq, Eq, Hash, Structural)]
pub enum Action {
    /// Advance to the next navigable item (cross-page).
    Next,
    /// Step to the previous navigable item (cross-page).
    Previous,
    /// Toggle play/pause on the current item's readout.
    TogglePlay,
    /// Speak the current item without toggling (idempotent re-read).
    ReadCurrent,
    /// Speak the nearest preceding heading, so that the user can hear which
    /// section they are in. Voice: "what section".
    ReadSection,
    /// Jump back to the start of the current section and begin reading.
    /// Voice: "restart section", "from the top".
    RestartSection,
    /// Jump to the next heading.
    NextHeading,
    /// Jump to the previous heading.
    PrevHeading,
    /// Move to the first item of the next page.
    PageNext,
    /// Move to the first item of the previous page.
    PagePrev,
    /// Cycle the tab strip backwards.
    CycleTabPrev,
    /// Cycle the tab strip forwards.
    CycleTabNext,
    /// Open or close the settings panel.
    OpenSettings,
    /// Open or close the voice-commands help panel.
    OpenVoiceCommands,
    /// Read the pronunciation file again.
    ReloadPronunciation,
    /// Begin voice capture (press) and submit the utterance (release).
    PushToTalk,
    /// Press once to start capturing, press again to stop and submit. Unlike
    /// `PushToTalk` this does not need to be held.
    HotMicToggle,
    /// Toggle the reading of supporting notes.
    ToggleReadNotes,
    /// Close the voice commands if they are shown, else the settings if they are
    /// open, else stop speaking.
    Cancel,
    /// Let mouse clicks pass through the window, or stop doing so.
    ToggleClickThrough,
    /// Hide or show the window.
    ToggleVisibility,
    /// Put the VR board where the user is looking.
    VrPlaceHere,
    /// Bring the VR board closer.
    VrMoveCloser,
    /// Push the VR board away.
    VrMoveFurther,
    /// Shift the VR board left.
    VrMoveLeft,
    /// Shift the VR board right.
    VrMoveRight,
    /// Raise the VR board.
    VrMoveUp,
    /// Lower the VR board.
    VrMoveDown,
    /// Make the VR board bigger.
    VrSizeUp,
    /// Make the VR board smaller.
    VrSizeDown,
    /// Put the VR board back to its default place and size.
    VrResetPose,
}

/// The label of an action in the settings panel.
pub open spec fn label_of(action: Action) -> Seq<char> {
    match action {
        Action::Next => "Next item"@,
        Action::Previous => "Previous item"@,
        Action::TogglePlay => "Play / pause"@,
        Action::ReadCurrent => "Read current item"@,
        Action::ReadSection => "Read current section"@,
        Action::RestartSection => "Restart current section"@,
        Action::NextHeading => "Next heading"@,
        Action::PrevHeading => "Previous heading"@,
        Action::PageNext => "Next page"@,
        Action::PagePrev => "Previous page"@,
        Action::CycleTabPrev => "Previous tab"@,
        Action::CycleTabNext => "Next tab"@,
        Action::OpenSettings => "Open settings"@,
        Action::OpenVoiceCommands => "Open voice commands"@,
        Action::ReloadPronunciation => "Reload pronunciation"@,
        Action::PushToTalk => "Push-to-talk"@,
        Action::HotMicToggle => "Hot mic (toggle)"@,
        Action::ToggleReadNotes => "Toggle read-notes"@,
        Action::Cancel => "Cancel"@,
        Action::ToggleClickThrough => "Toggle click-through"@,
        Action::ToggleVisibility => "Toggle visibility"@,
        Action::VrPlaceHere => "VR: place here"@,
        Action::VrMoveCloser => "VR: move closer"@,
        Action::VrMoveFurther => "VR: move further"@,
        Action::VrMoveLeft => "VR: move left"@,
        Action::VrMoveRight => "VR: move right"@,
        Action::VrMoveUp => "VR: move up"@,
        Action::VrMoveDown => "VR: move down"@,
        Action::VrSizeUp => "VR: bigger"@,
        Action::VrSizeDown => "VR: smaller"@,
        Action::VrResetPose => "VR: reset position"@,
    }
}

/// All actions, in the order in which the bindings panel lists them.
pub open spec fn all_actions() -> Seq<Action> {
    seq![
        Action::Next,
        Action::Previous,
        Action::TogglePlay,
        Action::ReadCurrent,
        Action::ReadSection,
        Action::RestartSection,
        Action::NextHeading,
        Action::PrevHeading,
        Action::PageNext,
        Action::PagePrev,
        Action::CycleTabPrev,
        Action::CycleTabNext,
        Action::PushToTalk,
        Action::HotMicToggle,
        Action::ToggleReadNotes,
        Action::OpenSettings,
        Action::OpenVoiceCommands,
        Action::ReloadPronunciation,
        Action::Cancel,
        Action::ToggleClickThrough,
        Action::ToggleVisibility,
        Action::VrPlaceHere,
        Action::VrMoveCloser,
        Action::VrMoveFurther,
        Action::VrMoveLeft,
        Action::VrMoveRight,
        Action::VrMoveUp,
        Action::VrMoveDown,
        Action::VrSizeUp,
        Action::VrSizeDown,
        Action::VrResetPose,
    ]
}

impl Action {
    /// Human-readable label for the settings panel.
    pub fn label(self) -> (r: &'static str)
        ensures
            r@ == label_of(self),
    {
        match self {
            Action::Next => "Next item",
            Action::Previous => "Previous item",
            Action::TogglePlay => "Play / pause",
            Action::ReadCurrent => "Read current item",
            Action::ReadSection => "Read current section",
            Action::RestartSection => "Restart current section",
            Action::NextHeading => "Next heading",
            Action::PrevHeading => "Previous heading",
            Action::PageNext => "Next page",
            Action::PagePrev => "Previous page",
            Action::CycleTabPrev => "Previous tab",
            Action::CycleTabNext => "Next tab",
            Action::OpenSettings => "Open settings",
            Action::OpenVoiceCommands => "Open voice commands",
            Action::ReloadPronunciation => "Reload pronunciation",
            Action::PushToTalk => "Push-to-talk",
            Action::HotMicToggle => "Hot mic (toggle)",
            Action::ToggleReadNotes => "Toggle read-notes",
            Action::Cancel => "Cancel",
            Action::ToggleClickThrough => "Toggle click-through",
            Action::ToggleVisibility => "Toggle visibility",
            Action::VrPlaceHere => "VR: place here",
            Action::VrMoveCloser => "VR: move closer",
            Action::VrMoveFurther => "VR: move further",
            Action::VrMoveLeft => "VR: move left",
            Action::VrMoveRight => "VR: move right",
            Action::VrMoveUp => "VR: move up",
            Action::VrMoveDown => "VR: move down",
            Action::VrSizeUp => "VR: bigger",
            Action::VrSizeDown => "VR: smaller",
            Action::VrResetPose => "VR: reset position",
        }
    }

    /// All actions, in the order in which the bindings panel lists them.
    pub fn all() -> (r: &'static [Action])
        ensures
            r@ == all_actions(),
    {
        let all: &'static [Action] = &[
            Action::Next,
            Action::Previous,
            Action::TogglePlay,
            Action::ReadCurrent,
            Action::ReadSection,
            Action::RestartSection,
            Action::NextHeading,
            Action::PrevHeading,
            Action::PageNext,
            Action::PagePrev,
            Action::CycleTabPrev,
            Action::CycleTabNext,
            Action::PushToTalk,
            Action::HotMicToggle,
            Action::ToggleReadNotes,
            Action::OpenSettings,
            Action::OpenVoiceCommands,
            Action::ReloadPronunciation,
            Action::Cancel,
            Action::ToggleClickThrough,
            Action::ToggleVisibility,
            Action::VrPlaceHere,
            Action::VrMoveCloser,
            Action::VrMoveFurther,
            Action::VrMoveLeft,
            Action::VrMoveRight,
            Action::VrMoveUp,
            Action::VrMoveDown,
            Action::VrSizeUp,
            Action::VrSizeDown,
            Action::VrResetPose,
        ];
        assert(all@ =~= all_actions());
        all
    }
}

impl Action {
    /// Where the action stands in the list of all actions.
    pub fn index(self) -> (r: usize)
        ensures
            r == place_of(self),
    {
        let all = Action::all();
        let mut i: usize = 0;
        proof {
            law_all_actions_lists_each_once(self);
        }
        while i < all.len()
            invariant
                i <= all.len(),
                all@ == all_actions(),
                0 <= place_of(self) < all_actions().len(),
                all_actions()[place_of(self)] == self,
                forall|k: int|
                    0 <= k < all_actions().len() && #[trigger] all_actions()[k] == self ==> k
                        == place_of(self),
                forall|k: int| 0 <= k < i ==> #[trigger] all_actions()[k] != self,
            decreases all.len() - i,
        {
            if all[i] == self {
                assert(all_actions()[i as int] == self);
                return i;
            }
            i += 1;
        }
        i
    }

    /// The action at a position of the list of all actions. A negative position
    /// counts as the first.
    pub fn at(id: i32) -> (r: Option<Action>)
        ensures
            r == (if id < 0 {
                Some(all_actions()[0])
            } else if id < all_actions().len() {
                Some(all_actions()[id as int])
            } else {
                None
            }),
    {
        let all = Action::all();
        let i: usize = if id > 0 {
            id as usize
        } else {
            0
        };
        if i < all.len() {
            Some(all[i])
        } else {
            None
        }
    }
}

/// Where an action stands in the list of all actions.
pub open spec fn place_of(action: Action) -> int {
    match action {
        Action::Next => 0,
        Action::Previous => 1,
        Action::TogglePlay => 2,
        Action::ReadCurrent => 3,
        Action::ReadSection => 4,
        Action::RestartSection => 5,
        Action::NextHeading => 6,
        Action::PrevHeading => 7,
        Action::PageNext => 8,
        Action::PagePrev => 9,
        Action::CycleTabPrev => 10,
        Action::CycleTabNext => 11,
        Action::PushToTalk => 12,
        Action::HotMicToggle => 13,
        Action::ToggleReadNotes => 14,
        Action::OpenSettings => 15,
        Action::OpenVoiceCommands => 16,
        Action::ReloadPronunciation => 17,
        Action::Cancel => 18,
        Action::ToggleClickThrough => 19,
        Action::ToggleVisibility => 20,
        Action::VrPlaceHere => 21,
        Action::VrMoveCloser => 22,
        Action::VrMoveFurther => 23,
        Action::VrMoveLeft => 24,
        Action::VrMoveRight => 25,
        Action::VrMoveUp => 26,
        Action::VrMoveDown => 27,
        Action::VrSizeUp => 28,
        Action::VrSizeDown => 29,
        Action::VrResetPose => 30,
    }
}

/// The list of all actions holds every action once.
pub proof fn law_all_actions_lists_each_once(action: Action)
    ensures
        0 <= place_of(action) < all_actions().len(),
        all_actions()[place_of(action)] == action,
        forall|i: int|
            0 <= i < all_actions().len() && #[trigger] all_actions()[i] == action ==> i == place_of(
                action,
            ),
{
    assert forall|i: int| 0 <= i < all_actions().len() implies place_of(
        #[trigger] all_actions()[i],
    ) == i by {}
}

/// What each action is called where the user sees it.
pub proof fn law_actions_are_called_by_what_they_do()
    ensures
        label_of(Action::Next) == "Next item"@,
        label_of(Action::Previous) == "Previous item"@,
        label_of(Action::TogglePlay) == "Play / pause"@,
        label_of(Action::ReadCurrent) == "Read current item"@,
        label_of(Action::ReadSection) == "Read current section"@,
        label_of(Action::RestartSection) == "Restart current section"@,
        label_of(Action::NextHeading) == "Next heading"@,
        label_of(Action::PrevHeading) == "Previous heading"@,
        label_of(Action::PageNext) == "Next page"@,
        label_of(Action::PagePrev) == "Previous page"@,
        label_of(Action::CycleTabPrev) == "Previous tab"@,
        label_of(Action::CycleTabNext) == "Next tab"@,
        label_of(Action::OpenSettings) == "Open settings"@,
        label_of(Action::OpenVoiceCommands) == "Open voice commands"@,
        label_of(Action::ReloadPronunciation) == "Reload pronunciation"@,
        label_of(Action::PushToTalk) == "Push-to-talk"@,
        label_of(Action::HotMicToggle) == "Hot mic (toggle)"@,
        label_of(Action::ToggleReadNotes) == "Toggle read-notes"@,
        label_of(Action::Cancel) == "Cancel"@,
        label_of(Action::ToggleClickThrough) == "Toggle click-through"@,
        label_of(Action::ToggleVisibility) == "Toggle visibility"@,
        label_of(Action::VrPlaceHere) == "VR: place here"@,
        label_of(Action::VrMoveCloser) == "VR: move closer"@,
        label_of(Action::VrMoveFurther) == "VR: move further"@,
        label_of(Action::VrMoveLeft) == "VR: move left"@,
        label_of(Action::VrMoveRight) == "VR: move right"@,
        label_of(Action::VrMoveUp) == "VR: move up"@,
        label_of(Action::VrMoveDown) == "VR: move down"@,
        label_of(Action::VrSizeUp) == "VR: bigger"@,
        label_of(Action::VrSizeDown) == "VR: smaller"@,
        label_of(Action::VrResetPose) == "VR: reset position"@,
{
}

} // verus!
