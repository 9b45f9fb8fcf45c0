//! Which words stand for which action.
//!
//! Each law lists the words by which an action is asked for, whatever the threshold
//! of the fuzzy match.

use vstd::prelude::*;

use crate::actions::Action;
use crate::phrase_order::law_phrases_lead_to_their_actions;
use crate::phrases::rules;
use crate::voice_router::{meaning, Meaning};

verus! {

/// All the words of a row of the phrase table mean the action.
proof fn lemma_row(row: int, phrases: Seq<Seq<char>>, p: Seq<char>, threshold: u64)
    requires
        0 <= row < rules().len(),
        rules()[row].0 == phrases,
        phrases.contains(p),
    ensures
        meaning(p, threshold) == Meaning::Action(rules()[row].1),
{
    let k = choose|k: int| 0 <= k < phrases.len() && phrases[k] == p;
    law_phrases_lead_to_their_actions(row, k, threshold);
}

/// The next page is asked for by these words.
pub proof fn law_words_for_the_next_page(p: Seq<char>, threshold: u64)
    requires
        seq![
            "next page"@,
            "page next"@,
            "page down"@,
            "page forward"@,
        ].contains(p),
    ensures
        meaning(p, threshold) == Meaning::Action(Action::PageNext),
{
    let phrases = seq![
        "next page"@,
        "page next"@,
        "page down"@,
        "page forward"@,
    ];
    assert(rules()[0].0 =~= phrases);
    lemma_row(0, phrases, p, threshold);
}

/// The previous page is asked for by these words.
pub proof fn law_words_for_the_previous_page(p: Seq<char>, threshold: u64)
    requires
        seq![
            "previous page"@,
            "prev page"@,
            "page previous"@,
            "page up"@,
            "page back"@,
        ].contains(p),
    ensures
        meaning(p, threshold) == Meaning::Action(Action::PagePrev),
{
    let phrases = seq![
        "previous page"@,
        "prev page"@,
        "page previous"@,
        "page up"@,
        "page back"@,
    ];
    assert(rules()[1].0 =~= phrases);
    lemma_row(1, phrases, p, threshold);
}

/// The next heading is asked for by these words.
pub proof fn law_words_for_the_next_heading(p: Seq<char>, threshold: u64)
    requires
        seq![
            "next heading"@,
            "next section"@,
            "next group"@,
            "skip section"@,
            "skip heading"@,
        ].contains(p),
    ensures
        meaning(p, threshold) == Meaning::Action(Action::NextHeading),
{
    let phrases = seq![
        "next heading"@,
        "next section"@,
        "next group"@,
        "skip section"@,
        "skip heading"@,
    ];
    assert(rules()[2].0 =~= phrases);
    lemma_row(2, phrases, p, threshold);
}

/// The previous heading is asked for by these words.
pub proof fn law_words_for_the_previous_heading(p: Seq<char>, threshold: u64)
    requires
        seq![
            "previous heading"@,
            "previous section"@,
            "prev heading"@,
            "prev section"@,
            "back section"@,
        ].contains(p),
    ensures
        meaning(p, threshold) == Meaning::Action(Action::PrevHeading),
{
    let phrases = seq![
        "previous heading"@,
        "previous section"@,
        "prev heading"@,
        "prev section"@,
        "back section"@,
    ];
    assert(rules()[3].0 =~= phrases);
    lemma_row(3, phrases, p, threshold);
}

/// The next tab is asked for by these words.
pub proof fn law_words_for_the_next_tab(p: Seq<char>, threshold: u64)
    requires
        seq![
            "next tab"@,
            "tab next"@,
            "tab forward"@,
        ].contains(p),
    ensures
        meaning(p, threshold) == Meaning::Action(Action::CycleTabNext),
{
    let phrases = seq![
        "next tab"@,
        "tab next"@,
        "tab forward"@,
    ];
    assert(rules()[4].0 =~= phrases);
    lemma_row(4, phrases, p, threshold);
}

/// The previous tab is asked for by these words.
pub proof fn law_words_for_the_previous_tab(p: Seq<char>, threshold: u64)
    requires
        seq![
            "previous tab"@,
            "prev tab"@,
            "tab back"@,
            "tab previous"@,
        ].contains(p),
    ensures
        meaning(p, threshold) == Meaning::Action(Action::CycleTabPrev),
{
    let phrases = seq![
        "previous tab"@,
        "prev tab"@,
        "tab back"@,
        "tab previous"@,
    ];
    assert(rules()[5].0 =~= phrases);
    lemma_row(5, phrases, p, threshold);
}

/// The start of the section is asked for by these words.
pub proof fn law_words_for_the_start_of_the_section(p: Seq<char>, threshold: u64)
    requires
        seq![
            "back to top"@,
            "restart section"@,
            "restart this section"@,
            "start section over"@,
            "restart heading"@,
            "from the top"@,
            "start over"@,
            "again from start"@,
        ].contains(p),
    ensures
        meaning(p, threshold) == Meaning::Action(Action::RestartSection),
{
    let all = seq![
        "back to top"@,
        "restart section"@,
        "restart this section"@,
        "start section over"@,
        "restart heading"@,
        "from the top"@,
        "start over"@,
        "again from start"@,
    ];
    let k = choose|k: int| 0 <= k < all.len() && all[k] == p;
    if k < 1 {
        let phrases = seq![
            "back to top"@,
        ];
        assert(rules()[6].0 =~= phrases);
        assert(phrases[k] == p);
        lemma_row(6, phrases, p, threshold);
    } else {
        let phrases = seq![
            "restart section"@,
            "restart this section"@,
            "start section over"@,
            "restart heading"@,
            "from the top"@,
            "start over"@,
            "again from start"@,
        ];
        assert(rules()[11].0 =~= phrases);
        assert(phrases[k - 1] == p);
        lemma_row(11, phrases, p, threshold);
    }
}

/// The board is pushed away by these words.
pub proof fn law_words_for_the_board_further_away(p: Seq<char>, threshold: u64)
    requires
        seq![
            "push back"@,
            "move kneeboard further"@,
            "move kneeboard farther"@,
            "kneeboard further"@,
            "move further"@,
            "move farther"@,
            "further away"@,
        ].contains(p),
    ensures
        meaning(p, threshold) == Meaning::Action(Action::VrMoveFurther),
{
    let all = seq![
        "push back"@,
        "move kneeboard further"@,
        "move kneeboard farther"@,
        "kneeboard further"@,
        "move further"@,
        "move farther"@,
        "further away"@,
    ];
    let k = choose|k: int| 0 <= k < all.len() && all[k] == p;
    if k < 1 {
        let phrases = seq![
            "push back"@,
        ];
        assert(rules()[7].0 =~= phrases);
        assert(phrases[k] == p);
        lemma_row(7, phrases, p, threshold);
    } else {
        let phrases = seq![
            "move kneeboard further"@,
            "move kneeboard farther"@,
            "kneeboard further"@,
            "move further"@,
            "move farther"@,
            "further away"@,
        ];
        assert(rules()[23].0 =~= phrases);
        assert(phrases[k - 1] == p);
        lemma_row(23, phrases, p, threshold);
    }
}

/// The current item is read again on these words.
pub proof fn law_words_for_reading_again(p: Seq<char>, threshold: u64)
    requires
        seq![
            "whats next"@,
            "read it again"@,
            "read again"@,
            "say again"@,
            "repeat"@,
            "again"@,
            "what was that"@,
            "read it"@,
            "read"@,
        ].contains(p),
    ensures
        meaning(p, threshold) == Meaning::Action(Action::ReadCurrent),
{
    let all = seq![
        "whats next"@,
        "read it again"@,
        "read again"@,
        "say again"@,
        "repeat"@,
        "again"@,
        "what was that"@,
        "read it"@,
        "read"@,
    ];
    let k = choose|k: int| 0 <= k < all.len() && all[k] == p;
    if k < 1 {
        let phrases = seq![
            "whats next"@,
        ];
        assert(rules()[8].0 =~= phrases);
        assert(phrases[k] == p);
        lemma_row(8, phrases, p, threshold);
    } else {
        let phrases = seq![
            "read it again"@,
            "read again"@,
            "say again"@,
            "repeat"@,
            "again"@,
            "what was that"@,
            "read it"@,
            "read"@,
        ];
        assert(rules()[13].0 =~= phrases);
        assert(phrases[k - 1] == p);
        lemma_row(13, phrases, p, threshold);
    }
}

/// The previous item is asked for by these words.
pub proof fn law_words_for_the_previous_item(p: Seq<char>, threshold: u64)
    requires
        seq![
            "previous item"@,
            "previous step"@,
            "previous line"@,
            "go back"@,
            "previous"@,
            "prev"@,
            "back"@,
            "undo"@,
        ].contains(p),
    ensures
        meaning(p, threshold) == Meaning::Action(Action::Previous),
{
    let phrases = seq![
        "previous item"@,
        "previous step"@,
        "previous line"@,
        "go back"@,
        "previous"@,
        "prev"@,
        "back"@,
        "undo"@,
    ];
    assert(rules()[9].0 =~= phrases);
    lemma_row(9, phrases, p, threshold);
}

/// The next item is asked for by these words.
pub proof fn law_words_for_the_next_item(p: Seq<char>, threshold: u64)
    requires
        seq![
            "next item"@,
            "next step"@,
            "next line"@,
            "next"@,
            "advance"@,
            "continue"@,
            "proceed"@,
            "okay"@,
            "ok"@,
            "done"@,
            "got it"@,
            "check"@,
            "yup"@,
            "yep"@,
            "yeah"@,
            "yes"@,
        ].contains(p),
    ensures
        meaning(p, threshold) == Meaning::Action(Action::Next),
{
    let phrases = seq![
        "next item"@,
        "next step"@,
        "next line"@,
        "next"@,
        "advance"@,
        "continue"@,
        "proceed"@,
        "okay"@,
        "ok"@,
        "done"@,
        "got it"@,
        "check"@,
        "yup"@,
        "yep"@,
        "yeah"@,
        "yes"@,
    ];
    assert(rules()[10].0 =~= phrases);
    lemma_row(10, phrases, p, threshold);
}

/// The name of the section is asked for by these words.
pub proof fn law_words_for_the_name_of_the_section(p: Seq<char>, threshold: u64)
    requires
        seq![
            "what section"@,
            "which section"@,
            "current section"@,
            "what heading"@,
            "which heading"@,
            "where am i"@,
        ].contains(p),
    ensures
        meaning(p, threshold) == Meaning::Action(Action::ReadSection),
{
    let phrases = seq![
        "what section"@,
        "which section"@,
        "current section"@,
        "what heading"@,
        "which heading"@,
        "where am i"@,
    ];
    assert(rules()[12].0 =~= phrases);
    lemma_row(12, phrases, p, threshold);
}

/// Reading starts and stops on these words.
pub proof fn law_words_for_playing_and_pausing(p: Seq<char>, threshold: u64)
    requires
        seq![
            "play"@,
            "start reading"@,
            "speak"@,
            "go on"@,
            "pause"@,
            "stop reading"@,
        ].contains(p),
    ensures
        meaning(p, threshold) == Meaning::Action(Action::TogglePlay),
{
    let phrases = seq![
        "play"@,
        "start reading"@,
        "speak"@,
        "go on"@,
        "pause"@,
        "stop reading"@,
    ];
    assert(rules()[14].0 =~= phrases);
    lemma_row(14, phrases, p, threshold);
}

/// The reading of notes is turned on and off by these words.
pub proof fn law_words_for_reading_notes(p: Seq<char>, threshold: u64)
    requires
        seq![
            "more info on"@,
            "more info off"@,
            "more info"@,
            "toggle notes"@,
            "toggle info"@,
            "extra info"@,
            "extra detail"@,
            "details on"@,
            "details off"@,
        ].contains(p),
    ensures
        meaning(p, threshold) == Meaning::Action(Action::ToggleReadNotes),
{
    let phrases = seq![
        "more info on"@,
        "more info off"@,
        "more info"@,
        "toggle notes"@,
        "toggle info"@,
        "extra info"@,
        "extra detail"@,
        "details on"@,
        "details off"@,
    ];
    assert(rules()[15].0 =~= phrases);
    lemma_row(15, phrases, p, threshold);
}

/// Clicks pass through the window, or no longer do, on these words.
pub proof fn law_words_for_clicking_through(p: Seq<char>, threshold: u64)
    requires
        seq![
            "click through"@,
            "toggle click through"@,
            "pass through"@,
            "ghost mode"@,
        ].contains(p),
    ensures
        meaning(p, threshold) == Meaning::Action(Action::ToggleClickThrough),
{
    let phrases = seq![
        "click through"@,
        "toggle click through"@,
        "pass through"@,
        "ghost mode"@,
    ];
    assert(rules()[16].0 =~= phrases);
    lemma_row(16, phrases, p, threshold);
}

/// The hot mic is turned on and off by these words.
pub proof fn law_words_for_the_hot_mic(p: Seq<char>, threshold: u64)
    requires
        seq![
            "hot mic"@,
            "open mic"@,
            "mic on"@,
            "mic off"@,
            "toggle mic"@,
            "listen mode"@,
        ].contains(p),
    ensures
        meaning(p, threshold) == Meaning::Action(Action::HotMicToggle),
{
    let phrases = seq![
        "hot mic"@,
        "open mic"@,
        "mic on"@,
        "mic off"@,
        "toggle mic"@,
        "listen mode"@,
    ];
    assert(rules()[17].0 =~= phrases);
    lemma_row(17, phrases, p, threshold);
}

/// The list of commands is asked for by these words.
pub proof fn law_words_for_the_list_of_commands(p: Seq<char>, threshold: u64)
    requires
        seq![
            "voice commands"@,
            "list commands"@,
            "help commands"@,
            "what can i say"@,
            "show commands"@,
            "command help"@,
        ].contains(p),
    ensures
        meaning(p, threshold) == Meaning::Action(Action::OpenVoiceCommands),
{
    let phrases = seq![
        "voice commands"@,
        "list commands"@,
        "help commands"@,
        "what can i say"@,
        "show commands"@,
        "command help"@,
    ];
    assert(rules()[18].0 =~= phrases);
    lemma_row(18, phrases, p, threshold);
}

/// The settings are asked for by these words.
pub proof fn law_words_for_the_settings(p: Seq<char>, threshold: u64)
    requires
        seq![
            "settings"@,
            "open settings"@,
            "preferences"@,
        ].contains(p),
    ensures
        meaning(p, threshold) == Meaning::Action(Action::OpenSettings),
{
    let phrases = seq![
        "settings"@,
        "open settings"@,
        "preferences"@,
    ];
    assert(rules()[19].0 =~= phrases);
    lemma_row(19, phrases, p, threshold);
}

/// What goes on is cancelled by these words.
pub proof fn law_words_for_cancelling(p: Seq<char>, threshold: u64)
    requires
        seq![
            "cancel"@,
            "stop"@,
            "never mind"@,
            "nevermind"@,
            "shut up"@,
            "quiet"@,
        ].contains(p),
    ensures
        meaning(p, threshold) == Meaning::Action(Action::Cancel),
{
    let phrases = seq![
        "cancel"@,
        "stop"@,
        "never mind"@,
        "nevermind"@,
        "shut up"@,
        "quiet"@,
    ];
    assert(rules()[20].0 =~= phrases);
    lemma_row(20, phrases, p, threshold);
}

/// The board is placed before the user on these words.
pub proof fn law_words_for_the_board_here(p: Seq<char>, threshold: u64)
    requires
        seq![
            "place kneeboard here"@,
            "place board here"@,
            "kneeboard here"@,
            "place here"@,
            "snap here"@,
            "reposition here"@,
        ].contains(p),
    ensures
        meaning(p, threshold) == Meaning::Action(Action::VrPlaceHere),
{
    let phrases = seq![
        "place kneeboard here"@,
        "place board here"@,
        "kneeboard here"@,
        "place here"@,
        "snap here"@,
        "reposition here"@,
    ];
    assert(rules()[21].0 =~= phrases);
    lemma_row(21, phrases, p, threshold);
}

/// The board is brought closer by these words.
pub proof fn law_words_for_the_board_closer(p: Seq<char>, threshold: u64)
    requires
        seq![
            "move kneeboard closer"@,
            "move board closer"@,
            "kneeboard closer"@,
            "move closer"@,
            "bring closer"@,
            "closer to me"@,
        ].contains(p),
    ensures
        meaning(p, threshold) == Meaning::Action(Action::VrMoveCloser),
{
    let phrases = seq![
        "move kneeboard closer"@,
        "move board closer"@,
        "kneeboard closer"@,
        "move closer"@,
        "bring closer"@,
        "closer to me"@,
    ];
    assert(rules()[22].0 =~= phrases);
    lemma_row(22, phrases, p, threshold);
}

/// The board is moved to the left by these words.
pub proof fn law_words_for_the_board_to_the_left(p: Seq<char>, threshold: u64)
    requires
        seq![
            "move kneeboard left"@,
            "kneeboard left"@,
            "move left"@,
            "shift left"@,
        ].contains(p),
    ensures
        meaning(p, threshold) == Meaning::Action(Action::VrMoveLeft),
{
    let phrases = seq![
        "move kneeboard left"@,
        "kneeboard left"@,
        "move left"@,
        "shift left"@,
    ];
    assert(rules()[24].0 =~= phrases);
    lemma_row(24, phrases, p, threshold);
}

/// The board is moved to the right by these words.
pub proof fn law_words_for_the_board_to_the_right(p: Seq<char>, threshold: u64)
    requires
        seq![
            "move kneeboard right"@,
            "kneeboard right"@,
            "move right"@,
            "shift right"@,
        ].contains(p),
    ensures
        meaning(p, threshold) == Meaning::Action(Action::VrMoveRight),
{
    let phrases = seq![
        "move kneeboard right"@,
        "kneeboard right"@,
        "move right"@,
        "shift right"@,
    ];
    assert(rules()[25].0 =~= phrases);
    lemma_row(25, phrases, p, threshold);
}

/// The board is raised by these words.
pub proof fn law_words_for_the_board_up(p: Seq<char>, threshold: u64)
    requires
        seq![
            "move kneeboard up"@,
            "kneeboard up"@,
            "move up"@,
            "raise kneeboard"@,
        ].contains(p),
    ensures
        meaning(p, threshold) == Meaning::Action(Action::VrMoveUp),
{
    let phrases = seq![
        "move kneeboard up"@,
        "kneeboard up"@,
        "move up"@,
        "raise kneeboard"@,
    ];
    assert(rules()[26].0 =~= phrases);
    lemma_row(26, phrases, p, threshold);
}

/// The board is lowered by these words.
pub proof fn law_words_for_the_board_down(p: Seq<char>, threshold: u64)
    requires
        seq![
            "move kneeboard down"@,
            "kneeboard down"@,
            "move down"@,
            "lower kneeboard"@,
        ].contains(p),
    ensures
        meaning(p, threshold) == Meaning::Action(Action::VrMoveDown),
{
    let phrases = seq![
        "move kneeboard down"@,
        "kneeboard down"@,
        "move down"@,
        "lower kneeboard"@,
    ];
    assert(rules()[27].0 =~= phrases);
    lemma_row(27, phrases, p, threshold);
}

/// The board is made bigger by these words.
pub proof fn law_words_for_a_bigger_board(p: Seq<char>, threshold: u64)
    requires
        seq![
            "kneeboard bigger"@,
            "make bigger"@,
            "make it bigger"@,
            "make larger"@,
            "bigger kneeboard"@,
            "scale up"@,
        ].contains(p),
    ensures
        meaning(p, threshold) == Meaning::Action(Action::VrSizeUp),
{
    let phrases = seq![
        "kneeboard bigger"@,
        "make bigger"@,
        "make it bigger"@,
        "make larger"@,
        "bigger kneeboard"@,
        "scale up"@,
    ];
    assert(rules()[28].0 =~= phrases);
    lemma_row(28, phrases, p, threshold);
}

/// The board is made smaller by these words.
pub proof fn law_words_for_a_smaller_board(p: Seq<char>, threshold: u64)
    requires
        seq![
            "kneeboard smaller"@,
            "make smaller"@,
            "make it smaller"@,
            "smaller kneeboard"@,
            "scale down"@,
        ].contains(p),
    ensures
        meaning(p, threshold) == Meaning::Action(Action::VrSizeDown),
{
    let phrases = seq![
        "kneeboard smaller"@,
        "make smaller"@,
        "make it smaller"@,
        "smaller kneeboard"@,
        "scale down"@,
    ];
    assert(rules()[29].0 =~= phrases);
    lemma_row(29, phrases, p, threshold);
}

/// The board is put back to its place by these words.
pub proof fn law_words_for_the_board_at_its_place(p: Seq<char>, threshold: u64)
    requires
        seq![
            "reset kneeboard"@,
            "reset position"@,
            "default position"@,
            "kneeboard default"@,
        ].contains(p),
    ensures
        meaning(p, threshold) == Meaning::Action(Action::VrResetPose),
{
    let phrases = seq![
        "reset kneeboard"@,
        "reset position"@,
        "default position"@,
        "kneeboard default"@,
    ];
    assert(rules()[30].0 =~= phrases);
    lemma_row(30, phrases, p, threshold);
}

} // verus!
