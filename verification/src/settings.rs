//! What the user can set.

use vstd::prelude::*;

use crate::input::{default_bindings, Bindings};
use crate::player::ReadOptions;
use crate::text::{own, same};

verus! {

/// The settings. Numbers that are not whole are held as bit patterns of numbers
/// in single precision.
#[derive(Debug)]
pub struct Settings {
    pub auto_read_on_next: bool,
    pub auto_advance: bool,
    /// Pause between the end of speech and the next item, in seconds.
    pub advance_delay_sec: u32,
    /// Read the notes after a step too.
    pub read_notes: bool,
    pub window_x: Option<i32>,
    pub window_y: Option<i32>,
    pub window_w: Option<u32>,
    pub window_h: Option<u32>,
    pub current_aircraft: Option<String>,
    pub last_tab: Option<String>,
    pub bindings: Bindings,
    /// The microphone by its name. `None` for the system's default.
    pub audio_input: Option<String>,
    /// How long a transcript stays in view, in seconds; 0 for not at all.
    pub transcript_pill_seconds: u32,
    /// Reload pages when their files change.
    pub hot_reload: bool,
    /// Drop what the hot mic hears while something is read.
    pub mute_mic_during_speech: bool,
    pub click_through: bool,
    /// From 0.3 to 1.
    pub window_opacity: u32,
    /// "winrt" or "piper".
    pub tts_engine: String,
    /// The path of the chosen voice.
    pub tts_piper_voice: Option<String>,
    pub tts_rate: u32,
    pub tts_volume: u32,
    pub welcome_shown: bool,
    pub dispatch_log: bool,
    /// "auto", "vr" or "desktop".
    pub vr_mode: String,
}

/// The bit pattern of 0.3 in single precision.
pub const LOWEST_OPACITY: u32 = 0x3e99_999a;

/// The bit pattern of 1 in single precision.
pub const ONE: u32 = 0x3f80_0000;

/// The bit pattern of 1.5 in single precision.
pub const ONE_AND_A_HALF: u32 = 0x3fc0_0000;

/// The bit pattern of 5 in single precision.
pub const FIVE: u32 = 0x40a0_0000;

/// The bit pattern of infinity in single precision. Above it, up to the sign
/// bit, are the patterns that stand for no number.
pub const INFINITE: u32 = 0x7f80_0000;

/// The lowest pattern with the sign bit.
pub const NEGATIVE: u32 = 0x8000_0000;

/// The pattern stands for no number.
pub open spec fn is_nan(bits: u32) -> bool {
    INFINITE < bits < NEGATIVE || bits > NEGATIVE + INFINITE
}

/// The opacity brought into its range. What is no number stays as it is.
pub open spec fn clamped_opacity(bits: u32) -> u32 {
    if is_nan(bits) {
        bits
    } else if bits >= NEGATIVE || bits < LOWEST_OPACITY {
        LOWEST_OPACITY
    } else if bits > ONE {
        ONE
    } else {
        bits
    }
}

impl Default for Settings {
    fn default() -> (r: Settings)
        ensures
            r.auto_read_on_next,
            !r.auto_advance,
            r.advance_delay_sec == ONE_AND_A_HALF,
            !r.read_notes,
            r.window_x is None && r.window_y is None && r.window_w is None && r.window_h is None,
            r.current_aircraft is None,
            r.last_tab is None,
            r.bindings@.len() == 0,
            r.audio_input is None,
            r.transcript_pill_seconds == FIVE,
            !r.hot_reload,
            r.mute_mic_during_speech,
            !r.click_through,
            r.window_opacity == ONE,
            r.tts_engine@ == "winrt"@,
            r.tts_piper_voice is None,
            r.tts_rate == ONE,
            r.tts_volume == ONE,
            r.welcome_shown,
            !r.dispatch_log,
            r.vr_mode@ == "auto"@,
    {
        Settings {
            auto_read_on_next: true,
            auto_advance: false,
            advance_delay_sec: ONE_AND_A_HALF,
            read_notes: false,
            window_x: None,
            window_y: None,
            window_w: None,
            window_h: None,
            current_aircraft: None,
            last_tab: None,
            bindings: Bindings::default(),
            audio_input: None,
            transcript_pill_seconds: FIVE,
            hot_reload: false,
            mute_mic_during_speech: true,
            click_through: false,
            window_opacity: ONE,
            tts_engine: own("winrt"),
            tts_piper_voice: None,
            tts_rate: ONE,
            tts_volume: ONE,
            welcome_shown: true,
            dispatch_log: false,
            vr_mode: own("auto"),
        }
    }
}

impl Settings {
    /// Brings an opacity into its range, so that the window can always be seen.
    pub fn clamp_window_opacity(bits: u32) -> (r: u32)
        ensures
            r == clamped_opacity(bits),
    {
        if (INFINITE < bits && bits < NEGATIVE) || bits > NEGATIVE + INFINITE {
            bits
        } else if bits >= NEGATIVE || bits < LOWEST_OPACITY {
            LOWEST_OPACITY
        } else if bits > ONE {
            ONE
        } else {
            bits
        }
    }

    /// Gives settings without bindings the bindings that there are at first.
    /// Says whether it did, so that the settings are saved.
    pub fn seed_bindings(&mut self) -> (r: bool)
        ensures
            r == (old(self).bindings@.len() == 0),
            r ==> final(self).bindings@ == default_bindings(),
            !r ==> *final(self) == *old(self),
            *final(self) == (Settings { bindings: final(self).bindings, ..*old(self) }),
    {
        if self.bindings.0.len() == 0 {
            self.bindings = Bindings::defaults();
            true
        } else {
            false
        }
    }

    /// How the user wants to be read to.
    pub fn read_options(&self) -> (r: ReadOptions)
        ensures
            r == (ReadOptions {
                auto_read: self.auto_read_on_next,
                auto_advance: self.auto_advance,
                read_notes: self.read_notes,
            }),
    {
        ReadOptions {
            auto_read: self.auto_read_on_next,
            auto_advance: self.auto_advance,
            read_notes: self.read_notes,
        }
    }

    /// Chooses the speech engine. `false` where it is chosen already.
    pub fn set_tts_engine(&mut self, name: &str) -> (r: bool)
        ensures
            r == (old(self).tts_engine@ != name@),
            final(self).tts_engine@ == name@,
            *final(self) == (Settings { tts_engine: final(self).tts_engine, ..*old(self) }),
    {
        if same(self.tts_engine.as_str(), name) {
            return false;
        }
        self.tts_engine = own(name);
        true
    }

    /// Chooses a Piper voice by the path of its file, and with it the Piper
    /// engine. `false` where the voice is chosen already.
    pub fn set_piper_voice(&mut self, path: &str) -> (r: bool)
        ensures
            r == !(old(self).tts_piper_voice matches Some(v) && v@ == path@),
            !r ==> *final(self) == *old(self),
            r ==> final(self).tts_piper_voice is Some && (final(self).tts_piper_voice->0)@ == path@
                && final(self).tts_engine@ == "piper"@,
            *final(self) == (Settings {
                tts_engine: final(self).tts_engine,
                tts_piper_voice: final(self).tts_piper_voice,
                ..*old(self)
            }),
    {
        if let Some(v) = &self.tts_piper_voice {
            if same(v.as_str(), path) {
                return false;
            }
        }
        self.tts_piper_voice = Some(own(path));
        if !same(self.tts_engine.as_str(), "piper") {
            self.tts_engine = own("piper");
        }
        true
    }

    /// The microphone to use after a click on a name: that one, or the system's
    /// default where it was in use already.
    pub fn clicked_input(&self, name: &str) -> (r: Option<String>)
        ensures
            match r {
                None => self.audio_input matches Some(n) && n@ == name@,
                Some(n) => n@ == name@ && !(self.audio_input matches Some(m) && m@ == name@),
            },
    {
        if let Some(n) = &self.audio_input {
            if same(n.as_str(), name) {
                return None;
            }
        }
        Some(own(name))
    }

    /// The microphone to mark in the list: the chosen one, else the open one.
    pub fn shown_input(&self, open: Option<&str>) -> (r: String)
        ensures
            r@ == match self.audio_input {
                Some(n) => n@,
                None => match open {
                    Some(o) => o@,
                    None => Seq::<char>::empty(),
                },
            },
    {
        match &self.audio_input {
            Some(n) => own(n.as_str()),
            None => match open {
                Some(o) => own(o),
                None => String::new(),
            },
        }
    }

    /// Remembers where the window is, unless it is hidden off the screen.
    pub fn remember_position(&mut self, x: i32, y: i32) -> (r: bool)
        ensures
            r == on_screen(x, y),
            r ==> *final(self) == (Settings {
                window_x: Some(x),
                window_y: Some(y),
                ..*old(self)
            }),
            !r ==> *final(self) == *old(self),
    {
        match safe_position_filter(x, y) {
            Some((px, py)) => {
                self.window_x = Some(px);
                self.window_y = Some(py);
                true
            },
            None => false,
        }
    }
}

/// The position is one that a window in view can have.
pub open spec fn on_screen(x: i32, y: i32) -> bool {
    x >= -20000 && y >= -20000
}

/// The position, unless it is the one of a window hidden off the screen.
pub fn safe_position_filter(x: i32, y: i32) -> (r: Option<(i32, i32)>)
    ensures
        r == (if on_screen(x, y) {
            Some((x, y))
        } else {
            None
        }),
{
    if x < -20000 || y < -20000 {
        None
    } else {
        Some((x, y))
    }
}

/// Where the settings file is.
pub fn settings_path() -> (r: String)
    ensures
        r@ == "settings.toml"@,
{
    own("settings.toml")
}

/// Whether the mouse passes through the window: as the user set it, but not
/// while a panel is open.
pub fn effective_click_through(setting: bool, any_panel_open: bool) -> (r: bool)
    ensures
        r == (setting && !any_panel_open),
{
    setting && !any_panel_open
}

/// The opacity is always in its range, and one that is in it stays.
pub proof fn law_opacity_in_range(bits: u32)
    requires
        !is_nan(bits),
    ensures
        LOWEST_OPACITY <= clamped_opacity(bits) <= ONE,
        LOWEST_OPACITY <= bits <= ONE ==> clamped_opacity(bits) == bits,
        clamped_opacity(clamped_opacity(bits)) == clamped_opacity(bits),
{
}

/// The opacity goes from 0.3 to 1, here as bit patterns; what lies below becomes
/// the lowest and what lies above the highest.
pub proof fn law_opacity_is_brought_into_range(bits: u32)
    ensures
        bits < 0x3e99_999a ==> clamped_opacity(bits) == 0x3e99_999a,
        0x3f80_0000 < bits <= 0x7f80_0000 ==> clamped_opacity(bits) == 0x3f80_0000,
        0x3e99_999a <= bits <= 0x3f80_0000 ==> clamped_opacity(bits) == bits,
        0x8000_0000 <= bits <= 0xff80_0000 ==> clamped_opacity(bits) == 0x3e99_999a,
{
}

/// A window is taken to be hidden where it is far to the left or far above, and
/// nowhere else.
pub proof fn law_hidden_windows_are_far_out(x: i32, y: i32)
    ensures
        x < -20000 ==> !on_screen(x, y),
        y < -20000 ==> !on_screen(x, y),
        x >= -20000 && y >= -20000 ==> on_screen(x, y),
{
}

} // verus!
