//! The one-line messages over the page.
//!
//! There is room for one message at a time. A critical one comes first, then
//! the cue that the session waits, then a passing one, then the cue that the
//! microphone is open.

use vstd::prelude::*;

use crate::text::own;

verus! {

/// A message to show.
#[derive(Debug)]
pub struct PillMessage {
    pub text: String,
    /// The drawing left of the text; empty for none.
    pub icon_d: &'static str,
    /// The colour of the drawing and of the dot, as alpha, red, green and blue.
    pub icon_tint: u32,
    /// The colour of the border, in the same form.
    pub border_color: u32,
    /// A pulsing dot takes the place of the drawing.
    pub pulse: bool,
}

/// What a message shows.
pub struct PillView {
    pub text: Seq<char>,
    pub icon_d: Seq<char>,
    pub icon_tint: u32,
    pub border_color: u32,
    pub pulse: bool,
}

impl View for PillMessage {
    type V = PillView;

    open spec fn view(&self) -> PillView {
        PillView {
            text: self.text@,
            icon_d: self.icon_d@,
            icon_tint: self.icon_tint,
            border_color: self.border_color,
            pulse: self.pulse,
        }
    }
}

pub const AMBER: u32 = 0xffff_aa33;

pub const YELLOW: u32 = 0xffff_cc33;

pub const RED: u32 = 0xffff_7777;

pub const DEEP_RED: u32 = 0xffff_5555;

pub const CLEAR: u32 = 0;

/// The cue that the session waits at a section.
pub open spec fn armed_pill() -> PillView {
    PillView {
        text: "Armed — say go"@,
        icon_d: ""@,
        icon_tint: AMBER,
        border_color: AMBER,
        pulse: true,
    }
}

/// A command that was understood, with a check mark.
pub open spec fn match_pill(text: Seq<char>) -> PillView {
    PillView {
        text,
        icon_d: "M 20 6 L 9 17 L 4 12"@,
        icon_tint: YELLOW,
        border_color: CLEAR,
        pulse: false,
    }
}

/// A transcript that nothing matched, with a cross.
pub open spec fn unmatched_pill(text: Seq<char>) -> PillView {
    PillView {
        text,
        icon_d: "M 18 6 L 6 18 M 6 6 L 18 18"@,
        icon_tint: RED,
        border_color: CLEAR,
        pulse: false,
    }
}

/// A plain message.
pub open spec fn status_pill(text: Seq<char>) -> PillView {
    PillView { text, icon_d: ""@, icon_tint: YELLOW, border_color: CLEAR, pulse: false }
}

/// The cue that the microphone is open.
pub open spec fn listening_pill() -> PillView {
    PillView {
        text: "Listening…"@,
        icon_d: ""@,
        icon_tint: YELLOW,
        border_color: CLEAR,
        pulse: true,
    }
}

/// Something that does not work, with a warning sign.
pub open spec fn critical_pill(text: Seq<char>) -> PillView {
    PillView {
        text,
        icon_d: "M 10.29 3.86 L 1.82 18 a 2 2 0 0 0 1.71 3 h 16.94 a 2 2 0 0 0 1.71 -3 L 13.71 3.86 a 2 2 0 0 0 -3.42 0 z M 12 9 v 4 M 12 17 h 0.01"@,
        icon_tint: RED,
        border_color: DEEP_RED,
        pulse: false,
    }
}

impl PillMessage {
    pub fn armed_cue() -> (r: PillMessage)
        ensures
            r@ == armed_pill(),
    {
        PillMessage {
            text: own("Armed — say go"),
            icon_d: "",
            icon_tint: AMBER,
            border_color: AMBER,
            pulse: true,
        }
    }

    pub fn transcript_match(text: String) -> (r: PillMessage)
        ensures
            r@ == match_pill(text@),
    {
        PillMessage {
            text,
            icon_d: "M 20 6 L 9 17 L 4 12",
            icon_tint: YELLOW,
            border_color: CLEAR,
            pulse: false,
        }
    }

    pub fn transcript_unmatched(text: String) -> (r: PillMessage)
        ensures
            r@ == unmatched_pill(text@),
    {
        PillMessage {
            text,
            icon_d: "M 18 6 L 6 18 M 6 6 L 18 18",
            icon_tint: RED,
            border_color: CLEAR,
            pulse: false,
        }
    }

    pub fn status(text: String) -> (r: PillMessage)
        ensures
            r@ == status_pill(text@),
    {
        PillMessage { text, icon_d: "", icon_tint: YELLOW, border_color: CLEAR, pulse: false }
    }

    pub fn listening() -> (r: PillMessage)
        ensures
            r@ == listening_pill(),
    {
        PillMessage {
            text: own("Listening…"),
            icon_d: "",
            icon_tint: YELLOW,
            border_color: CLEAR,
            pulse: true,
        }
    }

    pub fn critical(text: String) -> (r: PillMessage)
        ensures
            r@ == critical_pill(text@),
    {
        PillMessage {
            text,
            icon_d: "M 10.29 3.86 L 1.82 18 a 2 2 0 0 0 1.71 3 h 16.94 a 2 2 0 0 0 1.71 -3 L 13.71 3.86 a 2 2 0 0 0 -3.42 0 z M 12 9 v 4 M 12 17 h 0.01",
            icon_tint: RED,
            border_color: DEEP_RED,
            pulse: false,
        }
    }
}

impl Clone for PillMessage {
    fn clone(&self) -> (r: PillMessage)
        ensures
            r@ == self@,
    {
        PillMessage {
            text: own(self.text.as_str()),
            icon_d: self.icon_d,
            icon_tint: self.icon_tint,
            border_color: self.border_color,
            pulse: self.pulse,
        }
    }
}

/// The messages that wait for their turn, one of each kind.
#[derive(Debug)]
pub struct Pills {
    pub critical: Option<PillMessage>,
    pub sticky: Option<PillMessage>,
    pub transient: Option<PillMessage>,
}

/// What the messages show.
pub struct PillsView {
    pub critical: Option<PillView>,
    pub sticky: Option<PillView>,
    pub transient: Option<PillView>,
}

pub open spec fn opt_pill(m: Option<PillMessage>) -> Option<PillView> {
    match m {
        Some(m) => Some(m@),
        None => None,
    }
}

impl View for Pills {
    type V = PillsView;

    open spec fn view(&self) -> PillsView {
        PillsView {
            critical: opt_pill(self.critical),
            sticky: opt_pill(self.sticky),
            transient: opt_pill(self.transient),
        }
    }
}

/// The message that is shown.
pub open spec fn shown_pill(p: PillsView, mic_hot: bool) -> Option<PillView> {
    if p.critical is Some {
        p.critical
    } else if p.sticky is Some {
        p.sticky
    } else if p.transient is Some {
        p.transient
    } else if mic_hot {
        Some(listening_pill())
    } else {
        None
    }
}

impl Pills {
    pub fn new() -> (r: Pills)
        ensures
            r@ == (PillsView { critical: None, sticky: None, transient: None }),
    {
        Pills { critical: None, sticky: None, transient: None }
    }

    /// The message to show.
    pub fn effective(&self, mic_hot: bool) -> (r: Option<PillMessage>)
        ensures
            opt_pill(r) == shown_pill(self@, mic_hot),
    {
        if let Some(m) = &self.critical {
            return Some(m.clone());
        }
        if let Some(m) = &self.sticky {
            return Some(m.clone());
        }
        if let Some(m) = &self.transient {
            return Some(m.clone());
        }
        if mic_hot {
            Some(PillMessage::listening())
        } else {
            None
        }
    }

    /// Shows that something does not work, for a while. An empty text is
    /// ignored. Says whether there is a message to take back later.
    pub fn show_critical(&mut self, text: String) -> (r: bool)
        ensures
            r == (text@.len() > 0),
            final(self)@ == (if r {
                PillsView { critical: Some(critical_pill(text@)), ..old(self)@ }
            } else {
                old(self)@
            }),
    {
        if text.as_str().unicode_len() == 0 {
            return false;
        }
        self.critical = Some(PillMessage::critical(text));
        true
    }

    /// Shows a passing message, unless it is empty or such messages are turned
    /// off. While the cue that the session waits is shown, the message is dropped,
    /// and does not appear later either. Says whether there is a message to take
    /// back later.
    pub fn push_transient(&mut self, message: PillMessage, enabled: bool) -> (r: bool)
        ensures
            r == (enabled && message@.text.len() > 0 && old(self)@.sticky is None),
            final(self)@ == (if r {
                PillsView { transient: Some(message@), ..old(self)@ }
            } else {
                old(self)@
            }),
    {
        if !enabled || message.text.as_str().unicode_len() == 0 || self.sticky.is_some() {
            return false;
        }
        self.transient = Some(message);
        true
    }

    /// Shows, or takes back, the cue that the session waits.
    pub fn set_armed(&mut self, armed: bool)
        ensures
            final(self)@ == (PillsView {
                sticky: if armed {
                    Some(armed_pill())
                } else {
                    None
                },
                ..old(self)@
            }),
    {
        self.sticky = if armed {
            Some(PillMessage::armed_cue())
        } else {
            None
        };
    }

    /// Takes back the critical message.
    pub fn expire_critical(&mut self)
        ensures
            final(self)@ == (PillsView { critical: None, ..old(self)@ }),
    {
        self.critical = None;
    }

    /// Takes back the passing message.
    pub fn expire_transient(&mut self)
        ensures
            final(self)@ == (PillsView { transient: None, ..old(self)@ }),
    {
        self.transient = None;
    }
}

/// A passing message never displaces a critical one, nor the cue that the
/// session waits.
pub proof fn law_passing_message_displaces_nothing(p: PillsView, m: PillView, mic_hot: bool)
    requires
        p.critical is Some || p.sticky is Some,
    ensures
        shown_pill(PillsView { transient: Some(m), ..p }, mic_hot) == shown_pill(p, mic_hot),
{
}

/// A critical message is shown whatever else there is.
pub proof fn law_critical_comes_first(p: PillsView, m: PillView, mic_hot: bool)
    ensures
        shown_pill(PillsView { critical: Some(m), ..p }, mic_hot) == Some(m),
{
}

/// Without a critical message the cue that the session waits is shown, without
/// that the passing message, and without that the cue that the microphone is open,
/// where it is.
pub proof fn law_messages_take_turns(p: PillsView, mic_hot: bool)
    ensures
        p.critical is None && p.sticky is Some ==> shown_pill(p, mic_hot) == p.sticky,
        p.critical is None && p.sticky is None && p.transient is Some ==> shown_pill(p, mic_hot)
            == p.transient,
        p.critical is None && p.sticky is None && p.transient is None ==> (shown_pill(p, true)
            matches Some(m) && m.text == "Listening…"@ && m.pulse) && shown_pill(p, false) is None,
{
}

/// A message shows the text that it is given. A match is told from a miss by the
/// drawing and its colour, and only something that does not work has a border.
pub proof fn law_messages_show_their_text(text: Seq<char>)
    ensures
        match_pill(text).text == text,
        unmatched_pill(text).text == text,
        status_pill(text).text == text,
        critical_pill(text).text == text,
        match_pill(text).icon_tint != unmatched_pill(text).icon_tint,
        match_pill(text).icon_d == "M 20 6 L 9 17 L 4 12"@,
        unmatched_pill(text).icon_d == "M 18 6 L 6 18 M 6 6 L 18 18"@,
        status_pill(text).icon_d == ""@,
        critical_pill(text).border_color != 0,
        match_pill(text).border_color == 0,
        unmatched_pill(text).border_color == 0,
        status_pill(text).border_color == 0,
        armed_pill().text == "Armed — say go"@ && armed_pill().pulse && armed_pill().border_color
            == armed_pill().icon_tint,
{
}

} // verus!
