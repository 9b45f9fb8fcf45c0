//! What an action does while the cursor waits at a section.
//!
//! After a jump to a section its heading is spoken and the cursor waits at the
//! first item, unread, until the user says to go on: the session is armed.

use vstd::prelude::*;

use crate::actions::Action;

verus! {

/// What to do with an action, given whether the session is armed.
#[derive(Debug, Clone, Copy, PartialEq, Eq, Structural)]
pub enum ArmedDecision {
    /// Stop waiting and read the current item.
    SpeakCurrent,
    /// Read the heading again and go on waiting.
    RereadHeader,
    /// Stop waiting and stop speaking.
    SilentDisarm,
    /// Stop waiting and go back to where the jump started.
    ReturnToPreJump,
    /// Stop waiting, then do the action. It may arm again.
    DisarmThenRun,
    /// Do the action and leave the waiting as it is.
    PassThrough,
}

/// The action reads the item that the cursor waits at.
pub open spec fn goes_on(action: Action) -> bool {
    action is Next || action is TogglePlay
}

/// The action asks what is being read.
pub open spec fn asks_again(action: Action) -> bool {
    action is ReadCurrent || action is ReadSection
}

/// The action moves elsewhere.
pub open spec fn moves_away(action: Action) -> bool {
    ||| action is NextHeading
    ||| action is PrevHeading
    ||| action is PageNext
    ||| action is PagePrev
    ||| action is CycleTabPrev
    ||| action is CycleTabNext
    ||| action is RestartSection
}

/// What to do with an action while armed.
pub open spec fn decision_when_armed(action: Action) -> ArmedDecision {
    if goes_on(action) {
        ArmedDecision::SpeakCurrent
    } else if asks_again(action) {
        ArmedDecision::RereadHeader
    } else if action is Cancel {
        ArmedDecision::SilentDisarm
    } else if action is Previous {
        ArmedDecision::ReturnToPreJump
    } else if moves_away(action) {
        ArmedDecision::DisarmThenRun
    } else {
        ArmedDecision::PassThrough
    }
}

/// What to do with an action.
pub open spec fn decision(action: Action, armed: bool) -> ArmedDecision {
    if armed {
        decision_when_armed(action)
    } else {
        ArmedDecision::PassThrough
    }
}

/// Decides what to do with an action. Actions that neither move the cursor nor
/// replace what is read leave the waiting alone: pressing push-to-talk comes
/// before the word that ends it.
pub fn armed_decision(action: Action, armed: bool) -> (r: ArmedDecision)
    ensures
        r == decision(action, armed),
{
    if !armed {
        return ArmedDecision::PassThrough;
    }
    match action {
        Action::Next | Action::TogglePlay => ArmedDecision::SpeakCurrent,
        Action::ReadCurrent | Action::ReadSection => ArmedDecision::RereadHeader,
        Action::Cancel => ArmedDecision::SilentDisarm,
        Action::Previous => ArmedDecision::ReturnToPreJump,
        Action::NextHeading
        | Action::PrevHeading
        | Action::PageNext
        | Action::PagePrev
        | Action::CycleTabPrev
        | Action::CycleTabNext
        | Action::RestartSection => ArmedDecision::DisarmThenRun,
        Action::PushToTalk
        | Action::HotMicToggle
        | Action::OpenSettings
        | Action::OpenVoiceCommands
        | Action::ReloadPronunciation
        | Action::ToggleReadNotes
        | Action::ToggleClickThrough
        | Action::ToggleVisibility
        | Action::VrPlaceHere
        | Action::VrMoveCloser
        | Action::VrMoveFurther
        | Action::VrMoveLeft
        | Action::VrMoveRight
        | Action::VrMoveUp
        | Action::VrMoveDown
        | Action::VrSizeUp
        | Action::VrSizeDown
        | Action::VrResetPose => ArmedDecision::PassThrough,
    }
}

/// Nothing is intercepted unless the session is armed.
pub proof fn law_not_armed_passes_through(action: Action)
    ensures
        decision(action, false) == ArmedDecision::PassThrough,
{
}

} // verus!
