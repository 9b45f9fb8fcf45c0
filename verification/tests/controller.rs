use dcs_kneeboard::actions::Action;
use dcs_kneeboard::controller::{armed_decision, ArmedDecision};

/// When not armed every action is a pass-through — the existing
/// non-armed code path runs untouched.
#[test]
fn not_armed_always_passes_through() {
    for &action in Action::all() {
        assert_eq!(
            armed_decision(action, false),
            ArmedDecision::PassThrough,
            "{action:?} should pass through when not armed",
        );
    }
}

#[test]
fn next_and_toggleplay_speak_current_while_armed() {
    assert_eq!(armed_decision(Action::Next, true), ArmedDecision::SpeakCurrent);
    assert_eq!(armed_decision(Action::TogglePlay, true), ArmedDecision::SpeakCurrent);
}

#[test]
fn read_current_and_read_section_reread_header_while_armed() {
    assert_eq!(armed_decision(Action::ReadCurrent, true), ArmedDecision::RereadHeader);
    assert_eq!(armed_decision(Action::ReadSection, true), ArmedDecision::RereadHeader);
}

#[test]
fn cancel_silent_disarms() {
    assert_eq!(armed_decision(Action::Cancel, true), ArmedDecision::SilentDisarm);
}

#[test]
fn previous_returns_to_pre_jump() {
    assert_eq!(armed_decision(Action::Previous, true), ArmedDecision::ReturnToPreJump);
}

/// Explicit navigation away — heading jumps re-arm at the end of
/// their handlers; the page/tab jumps and RestartSection don't.
#[test]
fn navigation_actions_disarm_then_run() {
    for action in [
        Action::NextHeading,
        Action::PrevHeading,
        Action::PageNext,
        Action::PagePrev,
        Action::CycleTabPrev,
        Action::CycleTabNext,
        Action::RestartSection,
    ] {
        assert_eq!(
            armed_decision(action, true),
            ArmedDecision::DisarmThenRun,
            "{action:?} should disarm-then-run while armed",
        );
    }
}

/// PTT is the load-bearing test here: the user pressing the
/// push-to-talk button is *about to* say the disarm word. If
/// dispatch greedily dropped the flag on that keypress the
/// resulting "ok" / "go" transcript would route as a fresh Next
/// and advance past the armed step.
#[test]
fn neutral_actions_pass_through_while_armed() {
    for action in [
        Action::PushToTalk,
        Action::HotMicToggle,
        Action::OpenSettings,
        Action::OpenVoiceCommands,
        Action::ReloadPronunciation,
        Action::ToggleReadNotes,
        Action::ToggleClickThrough,
        Action::ToggleVisibility,
    ] {
        assert_eq!(
            armed_decision(action, true),
            ArmedDecision::PassThrough,
            "{action:?} should pass through while armed",
        );
    }
}

/// Regression guard: every action listed in `Action::all()` must
/// appear in the armed match arm above. If a new variant is added
/// to the enum without a classification in `armed_decision`, this
/// test won't catch it (the match would fail to compile) — but
/// this test catches the inverse: `Action::all()` going out of
/// sync with the enum.
#[test]
fn every_action_in_all_has_a_decision() {
    for &action in Action::all() {
        // Just calling armed_decision is enough — if it ever
        // panicked on an unhandled variant we'd see it here.
        let _ = armed_decision(action, true);
        let _ = armed_decision(action, false);
    }
}
