//! The phrases that the voice router recognises.

use vstd::prelude::*;

use crate::actions::Action;

verus! {

/// The texts of a list of string slices.
pub open spec fn str_texts(v: Seq<&'static str>) -> Seq<Seq<char>> {
    Seq::new(v.len(), |i: int| v[i]@)
}

/// The texts and the action of each entry of a phrase table.
pub open spec fn rule_texts(
    v: Seq<(&'static [&'static str], Action)>,
) -> Seq<(Seq<Seq<char>>, Action)> {
    Seq::new(v.len(), |i: int| (str_texts(v[i].0@), v[i].1))
}

/// The phrase table. Order matters: the more specific phrases come first, so
/// that "next page" beats the bare "next".
pub open spec fn rules() -> Seq<(Seq<Seq<char>>, Action)> {
    seq![
        // Page navigation.
        (
            seq![
                "next page"@,
                "page next"@,
                "page down"@,
                "page forward"@,
            ],
            Action::PageNext,
        ),
        (
            seq![
                "previous page"@,
                "prev page"@,
                "page previous"@,
                "page up"@,
                "page back"@,
            ],
            Action::PagePrev,
        ),
        // Heading and section navigation.
        (
            seq![
                "next heading"@,
                "next section"@,
                "next group"@,
                "skip section"@,
                "skip heading"@,
            ],
            Action::NextHeading,
        ),
        (
            seq![
                "previous heading"@,
                "previous section"@,
                "prev heading"@,
                "prev section"@,
                "back section"@,
            ],
            Action::PrevHeading,
        ),
        // Tab cycling.
        (
            seq![
                "next tab"@,
                "tab next"@,
                "tab forward"@,
            ],
            Action::CycleTabNext,
        ),
        (
            seq![
                "previous tab"@,
                "prev tab"@,
                "tab back"@,
                "tab previous"@,
            ],
            Action::CycleTabPrev,
        ),
        // These hold a shorter phrase of the rows for single items, and so come before.
        (
            seq![
                "back to top"@,
            ],
            Action::RestartSection,
        ),
        (
            seq![
                "push back"@,
            ],
            Action::VrMoveFurther,
        ),
        (
            seq![
                "whats next"@,
            ],
            Action::ReadCurrent,
        ),
        // Item navigation. "go back" belongs to Previous; the single word "go" is left
        // out of Next so that it does not mask phrasal commands.
        (
            seq![
                "previous item"@,
                "previous step"@,
                "previous line"@,
                "go back"@,
                "previous"@,
                "prev"@,
                "back"@,
                "undo"@,
            ],
            Action::Previous,
        ),
        (
            seq![
                "next item"@,
                "next step"@,
                "next line"@,
                "next"@,
                "advance"@,
                "continue"@,
                "proceed"@,
                "okay"@,
                "ok"@,
                "done"@,
                "got it"@,
                "check"@,
                "yup"@,
                "yep"@,
                "yeah"@,
                "yes"@,
            ],
            Action::Next,
        ),
        // Restart before ReadSection, so that "start section over" is not taken for a
        // section query.
        (
            seq![
                "restart section"@,
                "restart this section"@,
                "start section over"@,
                "restart heading"@,
                "from the top"@,
                "start over"@,
                "again from start"@,
            ],
            Action::RestartSection,
        ),
        // Before ReadCurrent, so that "what section" beats "what was that".
        (
            seq![
                "what section"@,
                "which section"@,
                "current section"@,
                "what heading"@,
                "which heading"@,
                "where am i"@,
            ],
            Action::ReadSection,
        ),
        // Read, repeat, play and pause.
        (
            seq![
                "read it again"@,
                "read again"@,
                "say again"@,
                "repeat"@,
                "again"@,
                "what was that"@,
                "read it"@,
                "read"@,
            ],
            Action::ReadCurrent,
        ),
        (
            seq![
                "play"@,
                "start reading"@,
                "speak"@,
                "go on"@,
                "pause"@,
                "stop reading"@,
            ],
            Action::TogglePlay,
        ),
        // Toggles.
        (
            seq![
                "more info on"@,
                "more info off"@,
                "more info"@,
                "toggle notes"@,
                "toggle info"@,
                "extra info"@,
                "extra detail"@,
                "details on"@,
                "details off"@,
            ],
            Action::ToggleReadNotes,
        ),
        (
            seq![
                "click through"@,
                "toggle click through"@,
                "pass through"@,
                "ghost mode"@,
            ],
            Action::ToggleClickThrough,
        ),
        (
            seq![
                "hot mic"@,
                "open mic"@,
                "mic on"@,
                "mic off"@,
                "toggle mic"@,
                "listen mode"@,
            ],
            Action::HotMicToggle,
        ),
        // Panels and cancel.
        (
            seq![
                "voice commands"@,
                "list commands"@,
                "help commands"@,
                "what can i say"@,
                "show commands"@,
                "command help"@,
            ],
            Action::OpenVoiceCommands,
        ),
        (
            seq![
                "settings"@,
                "open settings"@,
                "preferences"@,
            ],
            Action::OpenSettings,
        ),
        (
            seq![
                "cancel"@,
                "stop"@,
                "never mind"@,
                "nevermind"@,
                "shut up"@,
                "quiet"@,
            ],
            Action::Cancel,
        ),
        // VR board placement, last so that "place", "move", "reset", "bigger" and
        // "smaller" are not taken from other commands.
        (
            seq![
                "place kneeboard here"@,
                "place board here"@,
                "kneeboard here"@,
                "place here"@,
                "snap here"@,
                "reposition here"@,
            ],
            Action::VrPlaceHere,
        ),
        (
            seq![
                "move kneeboard closer"@,
                "move board closer"@,
                "kneeboard closer"@,
                "move closer"@,
                "bring closer"@,
                "closer to me"@,
            ],
            Action::VrMoveCloser,
        ),
        (
            seq![
                "move kneeboard further"@,
                "move kneeboard farther"@,
                "kneeboard further"@,
                "move further"@,
                "move farther"@,
                "further away"@,
            ],
            Action::VrMoveFurther,
        ),
        (
            seq![
                "move kneeboard left"@,
                "kneeboard left"@,
                "move left"@,
                "shift left"@,
            ],
            Action::VrMoveLeft,
        ),
        (
            seq![
                "move kneeboard right"@,
                "kneeboard right"@,
                "move right"@,
                "shift right"@,
            ],
            Action::VrMoveRight,
        ),
        (
            seq![
                "move kneeboard up"@,
                "kneeboard up"@,
                "move up"@,
                "raise kneeboard"@,
            ],
            Action::VrMoveUp,
        ),
        (
            seq![
                "move kneeboard down"@,
                "kneeboard down"@,
                "move down"@,
                "lower kneeboard"@,
            ],
            Action::VrMoveDown,
        ),
        (
            seq![
                "kneeboard bigger"@,
                "make bigger"@,
                "make it bigger"@,
                "make larger"@,
                "bigger kneeboard"@,
                "scale up"@,
            ],
            Action::VrSizeUp,
        ),
        (
            seq![
                "kneeboard smaller"@,
                "make smaller"@,
                "make it smaller"@,
                "smaller kneeboard"@,
                "scale down"@,
            ],
            Action::VrSizeDown,
        ),
        (
            seq![
                "reset kneeboard"@,
                "reset position"@,
                "default position"@,
                "kneeboard default"@,
            ],
            Action::VrResetPose,
        ),
    ]
}

/// The phrase table, for the help panel.
pub fn all_rules() -> (r: &'static [(&'static [&'static str], Action)])
    ensures
        rule_texts(r@) == rules(),
{
    let all: &'static [(&'static [&'static str], Action)] = &[
        (
            &[
                "next page",
                "page next",
                "page down",
                "page forward",
            ],
            Action::PageNext,
        ),
        (
            &[
                "previous page",
                "prev page",
                "page previous",
                "page up",
                "page back",
            ],
            Action::PagePrev,
        ),
        (
            &[
                "next heading",
                "next section",
                "next group",
                "skip section",
                "skip heading",
            ],
            Action::NextHeading,
        ),
        (
            &[
                "previous heading",
                "previous section",
                "prev heading",
                "prev section",
                "back section",
            ],
            Action::PrevHeading,
        ),
        (
            &[
                "next tab",
                "tab next",
                "tab forward",
            ],
            Action::CycleTabNext,
        ),
        (
            &[
                "previous tab",
                "prev tab",
                "tab back",
                "tab previous",
            ],
            Action::CycleTabPrev,
        ),
        (
            &[
                "back to top",
            ],
            Action::RestartSection,
        ),
        (
            &[
                "push back",
            ],
            Action::VrMoveFurther,
        ),
        (
            &[
                "whats next",
            ],
            Action::ReadCurrent,
        ),
        (
            &[
                "previous item",
                "previous step",
                "previous line",
                "go back",
                "previous",
                "prev",
                "back",
                "undo",
            ],
            Action::Previous,
        ),
        (
            &[
                "next item",
                "next step",
                "next line",
                "next",
                "advance",
                "continue",
                "proceed",
                "okay",
                "ok",
                "done",
                "got it",
                "check",
                "yup",
                "yep",
                "yeah",
                "yes",
            ],
            Action::Next,
        ),
        (
            &[
                "restart section",
                "restart this section",
                "start section over",
                "restart heading",
                "from the top",
                "start over",
                "again from start",
            ],
            Action::RestartSection,
        ),
        (
            &[
                "what section",
                "which section",
                "current section",
                "what heading",
                "which heading",
                "where am i",
            ],
            Action::ReadSection,
        ),
        (
            &[
                "read it again",
                "read again",
                "say again",
                "repeat",
                "again",
                "what was that",
                "read it",
                "read",
            ],
            Action::ReadCurrent,
        ),
        (
            &[
                "play",
                "start reading",
                "speak",
                "go on",
                "pause",
                "stop reading",
            ],
            Action::TogglePlay,
        ),
        (
            &[
                "more info on",
                "more info off",
                "more info",
                "toggle notes",
                "toggle info",
                "extra info",
                "extra detail",
                "details on",
                "details off",
            ],
            Action::ToggleReadNotes,
        ),
        (
            &[
                "click through",
                "toggle click through",
                "pass through",
                "ghost mode",
            ],
            Action::ToggleClickThrough,
        ),
        (
            &[
                "hot mic",
                "open mic",
                "mic on",
                "mic off",
                "toggle mic",
                "listen mode",
            ],
            Action::HotMicToggle,
        ),
        (
            &[
                "voice commands",
                "list commands",
                "help commands",
                "what can i say",
                "show commands",
                "command help",
            ],
            Action::OpenVoiceCommands,
        ),
        (
            &[
                "settings",
                "open settings",
                "preferences",
            ],
            Action::OpenSettings,
        ),
        (
            &[
                "cancel",
                "stop",
                "never mind",
                "nevermind",
                "shut up",
                "quiet",
            ],
            Action::Cancel,
        ),
        (
            &[
                "place kneeboard here",
                "place board here",
                "kneeboard here",
                "place here",
                "snap here",
                "reposition here",
            ],
            Action::VrPlaceHere,
        ),
        (
            &[
                "move kneeboard closer",
                "move board closer",
                "kneeboard closer",
                "move closer",
                "bring closer",
                "closer to me",
            ],
            Action::VrMoveCloser,
        ),
        (
            &[
                "move kneeboard further",
                "move kneeboard farther",
                "kneeboard further",
                "move further",
                "move farther",
                "further away",
            ],
            Action::VrMoveFurther,
        ),
        (
            &[
                "move kneeboard left",
                "kneeboard left",
                "move left",
                "shift left",
            ],
            Action::VrMoveLeft,
        ),
        (
            &[
                "move kneeboard right",
                "kneeboard right",
                "move right",
                "shift right",
            ],
            Action::VrMoveRight,
        ),
        (
            &[
                "move kneeboard up",
                "kneeboard up",
                "move up",
                "raise kneeboard",
            ],
            Action::VrMoveUp,
        ),
        (
            &[
                "move kneeboard down",
                "kneeboard down",
                "move down",
                "lower kneeboard",
            ],
            Action::VrMoveDown,
        ),
        (
            &[
                "kneeboard bigger",
                "make bigger",
                "make it bigger",
                "make larger",
                "bigger kneeboard",
                "scale up",
            ],
            Action::VrSizeUp,
        ),
        (
            &[
                "kneeboard smaller",
                "make smaller",
                "make it smaller",
                "smaller kneeboard",
                "scale down",
            ],
            Action::VrSizeDown,
        ),
        (
            &[
                "reset kneeboard",
                "reset position",
                "default position",
                "kneeboard default",
            ],
            Action::VrResetPose,
        ),
    ];
    assert(rule_texts(all@) =~~= rules());
    all
}

/// The texts of a list of labelled groups of string slices.
pub open spec fn group_texts(
    v: Seq<(&'static str, &'static [&'static str])>,
) -> Seq<(Seq<char>, Seq<Seq<char>>)> {
    Seq::new(v.len(), |i: int| (v[i].0@, str_texts(v[i].1@)))
}

/// Example phrasings for the queries that are not fixed phrases.
pub open spec fn query_example_texts() -> Seq<(Seq<char>, Seq<Seq<char>>)> {
    seq![
        (
            "Go to page"@,
            seq![
                "go to page 3"@,
                "page 5"@,
                "page number 2"@,
                "page three"@,
            ],
        ),
        (
            "Go to section"@,
            seq![
                "go to AGM-65"@,
                "take me to the maverick section"@,
                "find the JDAM section"@,
                "how do I employ the AGM-65"@,
                "search for AGM-65 employment"@,
            ],
        ),
        (
            "Go to tab"@,
            seq![
                "go to the takeoff tab"@,
                "go to the JDAM checklist"@,
            ],
        ),
        (
            "List sections"@,
            seq![
                "what sections are in this tab"@,
                "list sections"@,
                "what's in this tab"@,
            ],
        ),
    ]
}

/// Example phrasings for the queries that are not fixed phrases, for the help
/// panel.
pub fn query_examples() -> (r: &'static [(&'static str, &'static [&'static str])])
    ensures
        group_texts(r@) == query_example_texts(),
{
    let all: &'static [(&'static str, &'static [&'static str])] = &[
        (
            "Go to page",
            &[
                "go to page 3",
                "page 5",
                "page number 2",
                "page three",
            ],
        ),
        (
            "Go to section",
            &[
                "go to AGM-65",
                "take me to the maverick section",
                "find the JDAM section",
                "how do I employ the AGM-65",
                "search for AGM-65 employment",
            ],
        ),
        (
            "Go to tab",
            &[
                "go to the takeoff tab",
                "go to the JDAM checklist",
            ],
        ),
        (
            "List sections",
            &[
                "what sections are in this tab",
                "list sections",
                "what's in this tab",
            ],
        ),
    ];
    assert(group_texts(all@) =~~= query_example_texts());
    all
}

} // verus!
