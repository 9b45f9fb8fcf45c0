//! From physical input to actions: triggers, the table of bindings, and the
//! capture of a new binding.

use vstd::prelude::*;

use crate::actions::{all_actions, Action};
use crate::numbers::{decimal, hex, push_decimal, push_hex};
use crate::text::{
    byte_len, from_chars, is_letter, letter, lower_all, own, push_text, same, slice, to_chars,
    to_lower, to_upper, upper_all,
};
use crate::word_map::{lookup, WordMap};

verus! {

// ---------------------------------------------------------------------------
// Modifiers
// ---------------------------------------------------------------------------

/// The modifier keys that are held, one bit for each.
#[derive(Debug, Clone, Copy, PartialEq, Eq, Hash, Structural)]
pub struct Mods {
    pub bits: u8,
}

/// The bit of the control key.
pub const CTRL: u8 = 1;

/// The bit of the shift key.
pub const SHIFT: u8 = 2;

/// The bit of the alt key.
pub const ALT: u8 = 4;

/// The bit of the Windows key.
pub const META: u8 = 8;

impl Mods {
    pub fn empty() -> (r: Mods)
        ensures
            r == (Mods { bits: 0 }),
    {
        Mods { bits: 0 }
    }

    /// Whether the key with the bit is held.
    pub fn contains(&self, bit: u8) -> (r: bool)
        ensures
            r == (self.bits & bit == bit),
    {
        self.bits & bit == bit
    }

    /// With the key with the bit held too.
    pub fn with(&self, bit: u8) -> (r: Mods)
        ensures
            r == (Mods { bits: self.bits | bit }),
    {
        Mods { bits: self.bits | bit }
    }
}

impl Default for Mods {
    fn default() -> (r: Mods)
        ensures
            r == (Mods { bits: 0 }),
    {
        Mods { bits: 0 }
    }
}

/// The bit, or nothing.
pub open spec fn bit_if(held: bool, bit: u8) -> u8 {
    if held {
        bit
    } else {
        0
    }
}

/// Packs the states of the modifier keys.
pub fn pack_mods(ctrl: bool, shift: bool, alt: bool, meta: bool) -> (r: Mods)
    ensures
        r.bits == bit_if(ctrl, CTRL) | bit_if(shift, SHIFT) | bit_if(alt, ALT) | bit_if(meta, META),
        (r.bits & CTRL == CTRL) == ctrl,
        (r.bits & SHIFT == SHIFT) == shift,
        (r.bits & ALT == ALT) == alt,
        (r.bits & META == META) == meta,
{
    let a: u8 = if ctrl {
        CTRL
    } else {
        0
    };
    let b: u8 = if shift {
        SHIFT
    } else {
        0
    };
    let c: u8 = if alt {
        ALT
    } else {
        0
    };
    let d: u8 = if meta {
        META
    } else {
        0
    };
    let bits: u8 = a | b | c | d;
    assert((bits & 1 == 1) == (a == 1) && (bits & 2 == 2) == (b == 2) && (bits & 4 == 4) == (c == 4)
        && (bits & 8 == 8) == (d == 8)) by (bit_vector)
        requires
            bits == a | b | c | d,
            a == 0 || a == 1,
            b == 0 || b == 2,
            c == 0 || c == 4,
            d == 0 || d == 8,
    ;
    Mods { bits }
}

// ---------------------------------------------------------------------------
// Triggers
// ---------------------------------------------------------------------------

/// A physical input that an action can be bound to.
#[derive(Debug, PartialEq, Eq, Hash)]
pub enum Trigger {
    /// A key with modifiers. Letters are in lower case; other keys go by name:
    /// "Space", "Backspace", "Escape", "F5", "PageUp", "PageDown".
    Keyboard { key: String, mods: Mods },
    /// A button of a game controller, which goes by its stable id.
    Gamepad { guid: String, code: String },
    /// A button of a raw HID device.
    Hid { vid: u16, pid: u16, usage: u32 },
}

/// What a trigger is.
pub enum TriggerView {
    Keyboard(Seq<char>, Mods),
    Gamepad(Seq<char>, Seq<char>),
    Hid(u16, u16, u32),
}

impl View for Trigger {
    type V = TriggerView;

    open spec fn view(&self) -> TriggerView {
        match *self {
            Trigger::Keyboard { key, mods } => TriggerView::Keyboard(key@, mods),
            Trigger::Gamepad { guid, code } => TriggerView::Gamepad(guid@, code@),
            Trigger::Hid { vid, pid, usage } => TriggerView::Hid(vid, pid, usage),
        }
    }
}

impl Clone for Trigger {
    fn clone(&self) -> (r: Trigger)
        ensures
            r@ == self@,
    {
        match self {
            Trigger::Keyboard { key, mods } => Trigger::Keyboard {
                key: own(key.as_str()),
                mods: *mods,
            },
            Trigger::Gamepad { guid, code } => Trigger::Gamepad {
                guid: own(guid.as_str()),
                code: own(code.as_str()),
            },
            Trigger::Hid { vid, pid, usage } => Trigger::Hid { vid: *vid, pid: *pid, usage: *usage },
        }
    }
}

/// A physical input event.
#[derive(Debug, Clone)]
pub enum InputEvent {
    Press(Trigger),
    Release(Trigger),
    /// Controllers came or went, so that their names may have changed.
    DevicesChanged,
}

/// Whether two triggers are the same.
pub fn same_trigger(a: &Trigger, b: &Trigger) -> (r: bool)
    ensures
        r == (a@ == b@),
{
    match (a, b) {
        (Trigger::Keyboard { key: k, mods: m }, Trigger::Keyboard { key: l, mods: n }) => same(
            k.as_str(),
            l.as_str(),
        ) && m.bits == n.bits,
        (Trigger::Gamepad { guid: g, code: c }, Trigger::Gamepad { guid: h, code: d }) => same(
            g.as_str(),
            h.as_str(),
        ) && same(c.as_str(), d.as_str()),
        (
            Trigger::Hid { vid: v, pid: p, usage: u },
            Trigger::Hid { vid: w, pid: q, usage: x },
        ) => *v == *w && *p == *q && *u == *x,
        _ => false,
    }
}

/// The names of the controllers seen so far, by id.
#[derive(Debug, Clone)]
pub struct DeviceNames {
    pub names: WordMap,
}

impl DeviceNames {
    pub fn new() -> (r: DeviceNames)
        ensures
            r.names@.len() == 0,
    {
        DeviceNames { names: WordMap::new() }
    }

    /// Notes the name of a controller.
    pub fn remember(&mut self, guid: &str, name: &str)
        ensures
            final(self).names@ == crate::word_map::put(old(self).names@, guid@, name@),
    {
        self.names.insert(guid, name);
    }
}

/// The name of a controller, where it was seen.
pub fn device_name(names: &DeviceNames, guid: &str) -> (r: Option<String>)
    ensures
        match r {
            Some(n) => lookup(names.names@, guid@) == Some(n@),
            None => lookup(names.names@, guid@) is None,
        },
{
    match names.names.get(guid) {
        Some(n) => Some(own(n.as_str())),
        None => None,
    }
}

/// The name of a key as it is shown.
pub open spec fn key_label(k: Seq<char>) -> Seq<char> {
    if k == " "@ || k == "Space"@ {
        "Space"@
    } else if k == "Escape"@ {
        "Esc"@
    } else if k == "Backspace"@ || k == "PageUp"@ || k == "PageDown"@ {
        k
    } else if byte_len(k) == 1 {
        upper_all(k)
    } else {
        k
    }
}

fn display_key(k: &str) -> (r: String)
    ensures
        r@ == key_label(k@),
{
    if same(k, " ") || same(k, "Space") {
        return own("Space");
    }
    if same(k, "Escape") {
        return own("Esc");
    }
    if same(k, "Backspace") || same(k, "PageUp") || same(k, "PageDown") {
        return own(k);
    }
    if k.len() == 1 {
        raised(k)
    } else {
        own(k)
    }
}

fn raised(s: &str) -> (r: String)
    ensures
        r@ == upper_all(s@),
{
    let v = to_chars(s);
    let mut out = String::new();
    let mut i: usize = 0;
    while i < v.len()
        invariant
            i <= v.len(),
            v@ == s@,
            out@ == upper_all(v@).take(i as int),
        decreases v.len() - i,
    {
        out.push(to_upper(v[i]));
        i += 1;
        assert(upper_all(v@).take(i as int) =~= upper_all(v@).take(i - 1).push(
            upper_all(v@)[i - 1],
        ));
    }
    assert(upper_all(v@).take(i as int) =~= upper_all(v@));
    out
}

/// The modifiers as they are shown before a key.
pub open spec fn mods_label(m: Mods) -> Seq<char> {
    (if m.bits & CTRL == CTRL {
        "Ctrl+"@
    } else {
        ""@
    }) + (if m.bits & ALT == ALT {
        "Alt+"@
    } else {
        ""@
    }) + (if m.bits & SHIFT == SHIFT {
        "Shift+"@
    } else {
        ""@
    }) + (if m.bits & META == META {
        "Win+"@
    } else {
        ""@
    })
}

/// The first six characters, or all where there are fewer.
pub open spec fn short_id(guid: Seq<char>) -> Seq<char> {
    if guid.len() <= 6 {
        guid
    } else {
        guid.take(6)
    }
}

/// A trigger as it is shown, given the names of the controllers.
pub open spec fn trigger_label(t: TriggerView, names: Seq<(Seq<char>, Seq<char>)>) -> Seq<char> {
    match t {
        TriggerView::Keyboard(key, mods) => mods_label(mods) + key_label(key),
        TriggerView::Gamepad(guid, code) => match lookup(names, guid) {
            Some(name) => name + " "@ + code,
            None => "Pad["@ + short_id(guid) + "…] "@ + code,
        },
        TriggerView::Hid(vid, pid, usage) => "HID "@ + hex(vid as nat, 4, false) + ":"@ + hex(
            pid as nat,
            4,
            false,
        ) + "/"@ + decimal(usage as nat),
    }
}

impl Trigger {
    /// The trigger as it is shown in the settings.
    pub fn display(&self, names: &DeviceNames) -> (r: String)
        ensures
            r@ == trigger_label(self@, names.names@),
    {
        let mut s = String::new();
        match self {
            Trigger::Keyboard { key, mods } => {
                push_text(
                    &mut s,
                    if mods.contains(CTRL) {
                        "Ctrl+"
                    } else {
                        ""
                    },
                );
                push_text(
                    &mut s,
                    if mods.contains(ALT) {
                        "Alt+"
                    } else {
                        ""
                    },
                );
                push_text(
                    &mut s,
                    if mods.contains(SHIFT) {
                        "Shift+"
                    } else {
                        ""
                    },
                );
                push_text(
                    &mut s,
                    if mods.contains(META) {
                        "Win+"
                    } else {
                        ""
                    },
                );
                push_text(&mut s, display_key(key.as_str()).as_str());
                assert(s@ =~= mods_label(*mods) + key_label(key@));
            },
            Trigger::Gamepad { guid, code } => match device_name(names, guid.as_str()) {
                Some(name) => {
                    push_text(&mut s, name.as_str());
                    push_text(&mut s, " ");
                    push_text(&mut s, code.as_str());
                    assert(s@ =~= name@ + " "@ + code@);
                },
                None => {
                    let v = to_chars(guid.as_str());
                    let n: usize = if v.len() <= 6 {
                        v.len()
                    } else {
                        6
                    };
                    let short = slice(&v, 0, n);
                    assert(short@ =~= short_id(guid@));
                    push_text(&mut s, "Pad[");
                    push_text(&mut s, from_chars(&short).as_str());
                    push_text(&mut s, "…] ");
                    push_text(&mut s, code.as_str());
                    assert(s@ =~= "Pad["@ + short_id(guid@) + "…] "@ + code@);
                },
            },
            Trigger::Hid { vid, pid, usage } => {
                push_text(&mut s, "HID ");
                push_hex(&mut s, *vid as u64, 4, false);
                push_text(&mut s, ":");
                push_hex(&mut s, *pid as u64, 4, false);
                push_text(&mut s, "/");
                push_decimal(&mut s, *usage as u64);
                assert(s@ =~= trigger_label(self@, names.names@));
            },
        }
        s
    }
}

/// The name of a key from the text of a key event: a single ASCII letter in
/// lower case, anything else as it is.
pub open spec fn key_name(text: Seq<char>) -> Seq<char> {
    if byte_len(text) == 1 && text.len() > 0 && is_letter(text[0]) {
        lower_all(text)
    } else {
        text
    }
}

/// The text of the key event of a modifier key alone: shift, control, alt, caps
/// lock or the Windows key, left or right.
pub open spec fn is_modifier_key(text: Seq<char>) -> bool {
    text.len() == 1 && '\u{10}' <= text[0] <= '\u{18}'
}

/// The trigger of a key event. `None` where the event has no text, or is that of
/// a modifier key alone.
pub fn key_event_to_trigger(text: &str, mods: Mods) -> (r: Option<Trigger>)
    ensures
        text@.len() == 0 || is_modifier_key(text@) ==> r is None,
        text@.len() > 0 && !is_modifier_key(text@) ==> r is Some && (r->0)@
            == TriggerView::Keyboard(key_name(text@), mods),
{
    let v = to_chars(text);
    if v.len() == 0 {
        return None;
    }
    if v.len() == 1 && '\u{10}' <= v[0] && v[0] <= '\u{18}' {
        return None;
    }
    let key = if text.len() == 1 && letter(v[0]) {
        let mut out = String::new();
        let mut i: usize = 0;
        while i < v.len()
            invariant
                i <= v.len(),
                out@ == lower_all(v@).take(i as int),
            decreases v.len() - i,
        {
            out.push(to_lower(v[i]));
            i += 1;
            assert(lower_all(v@).take(i as int) =~= lower_all(v@).take(i - 1).push(
                lower_all(v@)[i - 1],
            ));
        }
        assert(lower_all(v@).take(i as int) =~= lower_all(v@));
        out
    } else {
        own(text)
    };
    Some(Trigger::Keyboard { key, mods })
}

// ---------------------------------------------------------------------------
// Bindings
// ---------------------------------------------------------------------------

/// An action and what triggers it.
#[derive(Debug, Clone)]
pub struct Binding {
    pub action: Action,
    pub trigger: Trigger,
}

/// All bindings. An action may have several triggers.
#[derive(Debug, Clone)]
pub struct Bindings(pub Vec<Binding>);

/// The actions and triggers of a list of bindings.
pub open spec fn binding_views(v: Seq<Binding>) -> Seq<(Action, TriggerView)> {
    Seq::new(v.len(), |i: int| (v[i].action, v[i].trigger@))
}

impl View for Bindings {
    type V = Seq<(Action, TriggerView)>;

    open spec fn view(&self) -> Seq<(Action, TriggerView)> {
        binding_views(self.0@)
    }
}

/// The action of the first binding with the trigger.
pub open spec fn bound_action(bs: Seq<(Action, TriggerView)>, t: TriggerView) -> Option<Action>
    decreases bs.len(),
{
    if bs.len() == 0 {
        None
    } else if bs[0].1 == t {
        Some(bs[0].0)
    } else {
        bound_action(bs.skip(1), t)
    }
}

/// The triggers of an action, in their order.
pub open spec fn triggers_of(bs: Seq<(Action, TriggerView)>, a: Action) -> Seq<TriggerView>
    decreases bs.len(),
{
    if bs.len() == 0 {
        Seq::empty()
    } else if bs.last().0 == a {
        triggers_of(bs.drop_last(), a).push(bs.last().1)
    } else {
        triggers_of(bs.drop_last(), a)
    }
}

/// The bindings of other actions, in their order.
pub open spec fn without_action(
    bs: Seq<(Action, TriggerView)>,
    a: Action,
) -> Seq<(Action, TriggerView)>
    decreases bs.len(),
{
    if bs.len() == 0 {
        Seq::empty()
    } else if bs.last().0 == a {
        without_action(bs.drop_last(), a)
    } else {
        without_action(bs.drop_last(), a).push(bs.last())
    }
}

/// The bindings with other triggers, in their order.
pub open spec fn without_trigger(
    bs: Seq<(Action, TriggerView)>,
    t: TriggerView,
) -> Seq<(Action, TriggerView)>
    decreases bs.len(),
{
    if bs.len() == 0 {
        Seq::empty()
    } else if bs.last().1 == t {
        without_trigger(bs.drop_last(), t)
    } else {
        without_trigger(bs.drop_last(), t).push(bs.last())
    }
}

/// The views of a list of triggers.
pub open spec fn trigger_views(v: Seq<Trigger>) -> Seq<TriggerView> {
    Seq::new(v.len(), |i: int| v[i]@)
}

pub open spec fn trigger_ref_views(v: Seq<&Trigger>) -> Seq<TriggerView> {
    Seq::new(v.len(), |i: int| v[i]@)
}

/// Each trigger bound to the action.
pub open spec fn bound_all(a: Action, ts: Seq<TriggerView>) -> Seq<(Action, TriggerView)> {
    Seq::new(ts.len(), |i: int| (a, ts[i]))
}

/// The bindings that there are at first.
pub open spec fn default_bindings() -> Seq<(Action, TriggerView)> {
    let plain = Mods { bits: 0 };
    seq![
        (Action::Next, TriggerView::Keyboard("Space"@, plain)),
        (Action::Previous, TriggerView::Keyboard("Backspace"@, plain)),
        (Action::TogglePlay, TriggerView::Keyboard("r"@, plain)),
        (Action::NextHeading, TriggerView::Keyboard("h"@, plain)),
        (Action::PrevHeading, TriggerView::Keyboard("h"@, Mods { bits: SHIFT })),
        (Action::PageNext, TriggerView::Keyboard("PageDown"@, plain)),
        (Action::PagePrev, TriggerView::Keyboard("PageUp"@, plain)),
        (Action::ReloadPronunciation, TriggerView::Keyboard("F5"@, plain)),
        (Action::Cancel, TriggerView::Keyboard("Escape"@, plain)),
        (Action::ToggleClickThrough, TriggerView::Keyboard("k"@, Mods { bits: CTRL | ALT })),
        (Action::ToggleVisibility, TriggerView::Keyboard("h"@, Mods { bits: CTRL | ALT })),
    ]
}

fn key_binding(key: &str, mods: Mods, action: Action) -> (r: Binding)
    ensures
        r.action == action,
        r.trigger@ == TriggerView::Keyboard(key@, mods),
{
    Binding { action, trigger: Trigger::Keyboard { key: own(key), mods } }
}

impl Default for Bindings {
    fn default() -> (r: Bindings)
        ensures
            r@.len() == 0,
    {
        Bindings(Vec::new())
    }
}

impl Bindings {
    /// The bindings that there are at first. Push-to-talk has none: the user
    /// binds it to a controller.
    pub fn defaults() -> (r: Bindings)
        ensures
            r@ == default_bindings(),
    {
        let plain = Mods::empty();
        let ctrl_alt = Mods { bits: CTRL | ALT };
        let all = vec![
            key_binding("Space", plain, Action::Next),
            key_binding("Backspace", plain, Action::Previous),
            key_binding("r", plain, Action::TogglePlay),
            key_binding("h", plain, Action::NextHeading),
            key_binding("h", Mods { bits: SHIFT }, Action::PrevHeading),
            key_binding("PageDown", plain, Action::PageNext),
            key_binding("PageUp", plain, Action::PagePrev),
            key_binding("F5", plain, Action::ReloadPronunciation),
            key_binding("Escape", plain, Action::Cancel),
            key_binding("k", ctrl_alt, Action::ToggleClickThrough),
            key_binding("h", ctrl_alt, Action::ToggleVisibility),
        ];
        assert(binding_views(all@) =~= default_bindings());
        Bindings(all)
    }

    /// The first action that is bound to the trigger.
    pub fn action_for(&self, trigger: &Trigger) -> (r: Option<Action>)
        ensures
            r == bound_action(self@, trigger@),
    {
        let mut i: usize = 0;
        assert(self@.skip(0) =~= self@);
        while i < self.0.len()
            invariant
                i <= self.0.len(),
                bound_action(self@, trigger@) == bound_action(self@.skip(i as int), trigger@),
            decreases self.0.len() - i,
        {
            assert(self@.skip(i as int)[0] == self@[i as int]);
            assert(self@.skip(i as int).skip(1) =~= self@.skip(i + 1));
            if same_trigger(&self.0[i].trigger, trigger) {
                return Some(self.0[i].action);
            }
            i += 1;
        }
        None
    }

    /// All triggers that are bound to the action.
    pub fn triggers_for(&self, action: Action) -> (r: Vec<&Trigger>)
        ensures
            trigger_ref_views(r@) == triggers_of(self@, action),
    {
        let mut r: Vec<&Trigger> = Vec::new();
        let mut i: usize = 0;
        assert(self@.take(0) =~= Seq::empty());
        assert(trigger_ref_views(r@) =~= Seq::empty());
        while i < self.0.len()
            invariant
                i <= self.0.len(),
                trigger_ref_views(r@) == triggers_of(self@.take(i as int), action),
            decreases self.0.len() - i,
        {
            assert(self@.take(i + 1).drop_last() =~= self@.take(i as int));
            let ghost before = trigger_ref_views(r@);
            let b = &self.0[i];
            if b.action == action {
                r.push(&b.trigger);
                assert(trigger_ref_views(r@) =~= before.push(b.trigger@));
            }
            i += 1;
        }
        assert(self@.take(i as int) =~= self@);
        r
    }

    /// Replaces the triggers of the action.
    pub fn set_triggers(&mut self, action: Action, triggers: Vec<Trigger>)
        ensures
            final(self)@ == without_action(old(self)@, action) + bound_all(
                action,
                trigger_views(triggers@),
            ),
    {
        let mut kept: Vec<Binding> = Vec::new();
        let mut i: usize = 0;
        assert(self@.take(0) =~= Seq::empty());
        assert(binding_views(kept@) =~= Seq::empty());
        while i < self.0.len()
            invariant
                i <= self.0.len(),
                binding_views(kept@) == without_action(self@.take(i as int), action),
                self@ == old(self)@,
            decreases self.0.len() - i,
        {
            assert(self@.take(i + 1).drop_last() =~= self@.take(i as int));
            let ghost before = binding_views(kept@);
            if self.0[i].action != action {
                kept.push(
                    Binding { action: self.0[i].action, trigger: self.0[i].trigger.clone() },
                );
                assert(binding_views(kept@) =~= before.push(self@[i as int]));
            }
            i += 1;
        }
        assert(self@.take(i as int) =~= self@);
        let ghost others = binding_views(kept@);
        let ghost ts = trigger_views(triggers@);
        let mut k: usize = 0;
        assert(others + bound_all(action, ts).take(0) =~= others);
        while k < triggers.len()
            invariant
                k <= triggers.len(),
                ts == trigger_views(triggers@),
                binding_views(kept@) == others + bound_all(action, ts).take(k as int),
            decreases triggers.len() - k,
        {
            let ghost before = binding_views(kept@);
            kept.push(Binding { action, trigger: triggers[k].clone() });
            k += 1;
            assert(binding_views(kept@) =~= before.push((action, ts[k - 1])));
            assert(others + bound_all(action, ts).take(k as int) =~= before.push(
                (action, ts[k - 1]),
            ));
        }
        assert(bound_all(action, ts).take(k as int) =~= bound_all(action, ts));
        self.0 = kept;
    }

    /// Removes every binding with the trigger.
    pub fn unbind_trigger(&mut self, trigger: &Trigger)
        ensures
            final(self)@ == without_trigger(old(self)@, trigger@),
    {
        let mut kept: Vec<Binding> = Vec::new();
        let mut i: usize = 0;
        assert(self@.take(0) =~= Seq::empty());
        assert(binding_views(kept@) =~= Seq::empty());
        while i < self.0.len()
            invariant
                i <= self.0.len(),
                binding_views(kept@) == without_trigger(self@.take(i as int), trigger@),
                self@ == old(self)@,
            decreases self.0.len() - i,
        {
            assert(self@.take(i + 1).drop_last() =~= self@.take(i as int));
            let ghost before = binding_views(kept@);
            if !same_trigger(&self.0[i].trigger, trigger) {
                kept.push(
                    Binding { action: self.0[i].action, trigger: self.0[i].trigger.clone() },
                );
                assert(binding_views(kept@) =~= before.push(self@[i as int]));
            }
            i += 1;
        }
        assert(self@.take(i as int) =~= self@);
        self.0 = kept;
    }

    /// Binds the trigger to the action, in place of all other triggers of the
    /// action and of all other actions of the trigger.
    pub fn rebind(&mut self, action: Action, trigger: Trigger)
        ensures
            final(self)@ == rebound(old(self)@, action, trigger@),
    {
        self.unbind_trigger(&trigger);
        let ghost t = trigger@;
        let one = vec![trigger];
        assert(trigger_views(one@) =~= seq![t]);
        self.set_triggers(action, one);
    }
}

/// The bindings after a trigger was captured for an action.
pub open spec fn rebound(
    bs: Seq<(Action, TriggerView)>,
    a: Action,
    t: TriggerView,
) -> Seq<(Action, TriggerView)> {
    without_action(without_trigger(bs, t), a) + bound_all(a, seq![t])
}

// ---------------------------------------------------------------------------
// Capturing
// ---------------------------------------------------------------------------

/// What becomes of a press.
#[derive(Debug, Clone, Copy, PartialEq, Eq, Structural)]
pub enum PressOutcome {
    /// The capture was called off.
    CaptureCancelled,
    /// The trigger was bound to the action that was waiting for one.
    Captured(Action),
    /// The row of the action is flashed, to show what the trigger is bound to.
    Flash(Action),
    /// The action is done.
    Dispatch(Action),
    /// Nothing is bound to the trigger.
    Unbound,
}

/// The trigger is the escape key, whatever modifiers are held.
pub open spec fn is_escape(t: TriggerView) -> bool {
    t matches TriggerView::Keyboard(key, _) && key == "Escape"@
}

/// What becomes of a press: while an action waits for a trigger it is bound, or
/// the capture called off by escape; else the action of the trigger is done, or
/// flashed in test mode.
pub open spec fn press_outcome(
    bs: Seq<(Action, TriggerView)>,
    capture: Option<Action>,
    test_mode: bool,
    t: TriggerView,
) -> PressOutcome {
    match capture {
        Some(a) => if is_escape(t) {
            PressOutcome::CaptureCancelled
        } else {
            PressOutcome::Captured(a)
        },
        None => match bound_action(bs, t) {
            Some(a) => if test_mode {
                PressOutcome::Flash(a)
            } else {
                PressOutcome::Dispatch(a)
            },
            None => PressOutcome::Unbound,
        },
    }
}

/// Takes a press. A capture ends with it; a captured trigger is bound.
pub fn handle_press(
    bindings: &mut Bindings,
    capture: &mut Option<Action>,
    test_mode: bool,
    trigger: Trigger,
) -> (r: PressOutcome)
    ensures
        r == press_outcome(old(bindings)@, *old(capture), test_mode, trigger@),
        *final(capture) is None,
        match r {
            PressOutcome::Captured(a) => final(bindings)@ == rebound(
                old(bindings)@,
                a,
                trigger@,
            ),
            _ => final(bindings)@ == old(bindings)@,
        },
{
    let waiting = *capture;
    match waiting {
        Some(action) => {
            let escape = match &trigger {
                Trigger::Keyboard { key, .. } => same(key.as_str(), "Escape"),
                _ => false,
            };
            *capture = None;
            if escape {
                PressOutcome::CaptureCancelled
            } else {
                bindings.rebind(action, trigger);
                PressOutcome::Captured(action)
            }
        },
        None => match bindings.action_for(&trigger) {
            Some(action) => if test_mode {
                PressOutcome::Flash(action)
            } else {
                PressOutcome::Dispatch(action)
            },
            None => PressOutcome::Unbound,
        },
    }
}

/// Whether a release ends push-to-talk: only the release of its trigger does,
/// not during a capture, and not while the hot mic is on.
pub fn handle_release(
    bindings: &Bindings,
    capture: Option<Action>,
    mic_locked: bool,
    trigger: &Trigger,
) -> (r: bool)
    ensures
        r == (capture is None && bound_action(bindings@, trigger@) == Some(Action::PushToTalk)
            && !mic_locked),
{
    if capture.is_some() {
        return false;
    }
    match bindings.action_for(trigger) {
        Some(Action::PushToTalk) => !mic_locked,
        _ => false,
    }
}

/// What the bindings panel shows for an action's triggers: the first, and how
/// many more there are.
pub open spec fn triggers_label(
    ts: Seq<TriggerView>,
    names: Seq<(Seq<char>, Seq<char>)>,
) -> Seq<char> {
    if ts.len() == 0 {
        "(unbound)"@
    } else if ts.len() == 1 {
        trigger_label(ts[0], names)
    } else {
        trigger_label(ts[0], names) + " (+"@ + decimal((ts.len() - 1) as nat) + ")"@
    }
}

/// What the bindings panel shows for an action's triggers.
pub fn trigger_text(bindings: &Bindings, action: Action, names: &DeviceNames) -> (r: String)
    ensures
        r@ == triggers_label(triggers_of(bindings@, action), names.names@),
{
    let ts = bindings.triggers_for(action);
    let ghost views = trigger_ref_views(ts@);
    assert(views.len() == ts.len());
    if ts.len() == 0 {
        return own("(unbound)");
    }
    let mut out = ts[0].display(names);
    if ts.len() > 1 {
        push_text(&mut out, " (+");
        push_decimal(&mut out, ts.len() as u64 - 1);
        push_text(&mut out, ")");
    }
    out
}

/// A row of the bindings panel.
#[derive(Debug)]
pub struct BindingRow {
    pub action: Action,
    pub trigger_text: String,
    /// The action waits for a trigger.
    pub capturing: bool,
}

/// The row shows the action.
pub open spec fn is_row(
    row: BindingRow,
    action: Action,
    bs: Seq<(Action, TriggerView)>,
    capture: Option<Action>,
    names: Seq<(Seq<char>, Seq<char>)>,
) -> bool {
    &&& row.action == action
    &&& row.trigger_text@ == triggers_label(triggers_of(bs, action), names)
    &&& row.capturing == (capture == Some(action))
}

/// The rows of the bindings panel, one for each action.
pub fn binding_rows(bindings: &Bindings, capture: Option<Action>, names: &DeviceNames) -> (r: Vec<
    BindingRow,
>)
    ensures
        r@.len() == all_actions().len(),
        forall|i: int|
            0 <= i < r@.len() ==> is_row(
                #[trigger] r@[i],
                all_actions()[i],
                bindings@,
                capture,
                names.names@,
            ),
{
    let all = Action::all();
    let mut r: Vec<BindingRow> = Vec::new();
    let mut i: usize = 0;
    while i < all.len()
        invariant
            i <= all.len(),
            all@ == all_actions(),
            r@.len() == i,
            forall|k: int|
                0 <= k < i ==> is_row(
                    #[trigger] r@[k],
                    all_actions()[k],
                    bindings@,
                    capture,
                    names.names@,
                ),
        decreases all.len() - i,
    {
        let action = all[i];
        let capturing = match capture {
            Some(a) => a == action,
            None => false,
        };
        r.push(
            BindingRow { action, trigger_text: trigger_text(bindings, action, names), capturing },
        );
        i += 1;
    }
    r
}

// ---------------------------------------------------------------------------
// Laws
// ---------------------------------------------------------------------------

proof fn lemma_without_trigger(bs: Seq<(Action, TriggerView)>, t: TriggerView)
    ensures
        forall|i: int|
            0 <= i < without_trigger(bs, t).len() ==> (#[trigger] without_trigger(bs, t)[i]).1 != t,
    decreases bs.len(),
{
    if bs.len() > 0 {
        lemma_without_trigger(bs.drop_last(), t);
    }
}

proof fn lemma_without_action(bs: Seq<(Action, TriggerView)>, a: Action)
    ensures
        forall|i: int|
            0 <= i < without_action(bs, a).len() ==> {
                let b = #[trigger] without_action(bs, a)[i];
                b.0 != a && bs.contains(b)
            },
    decreases bs.len(),
{
    if bs.len() > 0 {
        let p = bs.drop_last();
        lemma_without_action(p, a);
        let kept = without_action(p, a);
        let all = without_action(bs, a);
        assert forall|i: int| 0 <= i < all.len() implies {
            let b = #[trigger] all[i];
            b.0 != a && bs.contains(b)
        } by {
            if i < kept.len() {
                assert(all[i] == kept[i]);
                assert(p.contains(kept[i]));
                let k = choose|k: int| 0 <= k < p.len() && p[k] == kept[i];
                assert(bs[k] == kept[i]);
            } else {
                assert(bs[bs.len() - 1] == all[i]);
            }
        }
    }
}

proof fn lemma_bound_action_skips(
    bs: Seq<(Action, TriggerView)>,
    more: Seq<(Action, TriggerView)>,
    t: TriggerView,
)
    requires
        forall|i: int| 0 <= i < bs.len() ==> (#[trigger] bs[i]).1 != t,
    ensures
        bound_action(bs + more, t) == bound_action(more, t),
    decreases bs.len(),
{
    if bs.len() > 0 {
        let rest = bs.skip(1);
        assert((bs + more).skip(1) =~= rest + more);
        assert((bs + more)[0] == bs[0]);
        assert forall|i: int| 0 <= i < rest.len() implies (#[trigger] rest[i]).1 != t by {
            assert(rest[i] == bs[i + 1]);
        }
        lemma_bound_action_skips(rest, more, t);
    } else {
        assert(bs + more =~= more);
    }
}

proof fn lemma_triggers_of_concat(
    bs: Seq<(Action, TriggerView)>,
    ts: Seq<TriggerView>,
    a: Action,
)
    ensures
        triggers_of(bs + bound_all(a, ts), a) == triggers_of(bs, a) + ts,
    decreases ts.len(),
{
    let all = bs + bound_all(a, ts);
    if ts.len() == 0 {
        assert(all =~= bs);
        assert(triggers_of(bs, a) + ts =~= triggers_of(bs, a));
    } else {
        lemma_triggers_of_concat(bs, ts.drop_last(), a);
        assert(all.drop_last() =~= bs + bound_all(a, ts.drop_last()));
        assert(triggers_of(bs, a) + ts =~= (triggers_of(bs, a) + ts.drop_last()).push(ts.last()));
    }
}

proof fn lemma_no_triggers_left(bs: Seq<(Action, TriggerView)>, a: Action)
    ensures
        triggers_of(without_action(bs, a), a) =~= Seq::<TriggerView>::empty(),
    decreases bs.len(),
{
    if bs.len() > 0 {
        let p = bs.drop_last();
        lemma_no_triggers_left(p, a);
        if bs.last().0 != a {
            assert(without_action(bs, a).drop_last() =~= without_action(p, a));
        }
    }
}

/// Setting the triggers of an action and reading them gives them back, in their
/// order.
pub proof fn law_triggers_read_back(
    bs: Seq<(Action, TriggerView)>,
    a: Action,
    ts: Seq<TriggerView>,
)
    ensures
        triggers_of(without_action(bs, a) + bound_all(a, ts), a) == ts,
{
    lemma_triggers_of_concat(without_action(bs, a), ts, a);
    lemma_no_triggers_left(bs, a);
    assert(Seq::<TriggerView>::empty() + ts =~= ts);
}

/// The last capture wins: a trigger that was captured for an action does that
/// action, whatever it did before, and it is the action's one trigger.
pub proof fn law_last_capture_wins(bs: Seq<(Action, TriggerView)>, a: Action, t: TriggerView)
    ensures
        bound_action(rebound(bs, a, t), t) == Some(a),
        triggers_of(rebound(bs, a, t), a) == seq![t],
{
    let free = without_trigger(bs, t);
    let others = without_action(free, a);
    lemma_without_trigger(bs, t);
    lemma_without_action(free, a);
    assert forall|i: int| 0 <= i < others.len() implies (#[trigger] others[i]).1 != t by {
        assert(free.contains(others[i]));
        let k = choose|k: int| 0 <= k < free.len() && free[k] == others[i];
        assert(free[k].1 != t);
    }
    lemma_bound_action_skips(others, bound_all(a, seq![t]), t);
    law_triggers_read_back(free, a, seq![t]);
}

/// A trigger that was unbound does nothing.
pub proof fn law_unbound_trigger_does_nothing(bs: Seq<(Action, TriggerView)>, t: TriggerView)
    ensures
        bound_action(without_trigger(bs, t), t) is None,
{
    lemma_without_trigger(bs, t);
    let left = without_trigger(bs, t);
    lemma_bound_action_skips(left, Seq::empty(), t);
    assert(left + Seq::<(Action, TriggerView)>::empty() =~= left);
}

/// The first binding with a trigger that is none of those left out stays the
/// first.
proof fn lemma_filters_keep_the_first(
    bs: Seq<(Action, TriggerView)>,
    a: Action,
    t: TriggerView,
    other: TriggerView,
)
    requires
        other != t,
    ensures
        bound_action(without_trigger(bs, t), other) == bound_action(bs, other),
        bound_action(bs, other) is Some && bound_action(bs, other) != Some(a) ==> bound_action(
            without_action(bs, a),
            other,
        ) == bound_action(bs, other),
    decreases bs.len(),
{
    if bs.len() > 0 {
        let p = bs.drop_last();
        let last = bs.last();
        lemma_filters_keep_the_first(p, a, t, other);
        lemma_bound_action_push(p, last, other);
        lemma_bound_action_push(without_trigger(p, t), last, other);
        lemma_bound_action_push(without_action(p, a), last, other);
        assert(p.push(last) =~= bs);
        if bound_action(p, other) is None && last.1 == other && last.0 != a {
            lemma_nothing_bound(p, a, other);
        }
    }
}

proof fn lemma_bound_action_push(
    bs: Seq<(Action, TriggerView)>,
    last: (Action, TriggerView),
    t: TriggerView,
)
    ensures
        bound_action(bs.push(last), t) == (match bound_action(bs, t) {
            Some(a) => Some(a),
            None => if last.1 == t {
                Some(last.0)
            } else {
                None
            },
        }),
    decreases bs.len(),
{
    let all = bs.push(last);
    if bs.len() == 0 {
        assert(all.skip(1) =~= Seq::empty());
        assert(bound_action(all.skip(1), t) is None);
        assert(all[0] == last);
    } else {
        assert(all[0] == bs[0]);
        assert(all.skip(1) =~= bs.skip(1).push(last));
        lemma_bound_action_push(bs.skip(1), last, t);
    }
}

proof fn lemma_nothing_bound(bs: Seq<(Action, TriggerView)>, a: Action, t: TriggerView)
    requires
        bound_action(bs, t) is None,
    ensures
        bound_action(without_action(bs, a), t) is None,
    decreases bs.len(),
{
    if bs.len() > 0 {
        let p = bs.drop_last();
        assert(p.push(bs.last()) =~= bs);
        lemma_bound_action_push(p, bs.last(), t);
        lemma_nothing_bound(p, a, t);
        lemma_bound_action_push(without_action(p, a), bs.last(), t);
    }
}

/// A capture leaves the rest alone: another trigger that does another action
/// still does it.
pub proof fn law_capture_leaves_the_rest(
    bs: Seq<(Action, TriggerView)>,
    a: Action,
    t: TriggerView,
    other: TriggerView,
)
    requires
        other != t,
        bound_action(bs, other) is Some,
        bound_action(bs, other) != Some(a),
    ensures
        bound_action(rebound(bs, a, t), other) == bound_action(bs, other),
{
    let free = without_trigger(bs, t);
    lemma_filters_keep_the_first(bs, a, t, other);
    lemma_filters_keep_the_first(free, a, t, other);
    let kept = without_action(free, a);
    assert(rebound(bs, a, t) =~= kept.push((a, t)));
    lemma_bound_action_push(kept, (a, t), other);
}

/// The first binding of a trigger counts.
pub proof fn law_the_first_binding_counts(
    bs: Seq<(Action, TriggerView)>,
    t: TriggerView,
    i: int,
    test_mode: bool,
)
    requires
        0 <= i < bs.len(),
        bs[i].1 == t,
        forall|j: int| 0 <= j < i ==> (#[trigger] bs[j]).1 != t,
    ensures
        bound_action(bs, t) == Some(bs[i].0),
        press_outcome(bs, None, test_mode, t) == (if test_mode {
            PressOutcome::Flash(bs[i].0)
        } else {
            PressOutcome::Dispatch(bs[i].0)
        }),
    decreases bs.len(),
{
    if i > 0 {
        let rest = bs.skip(1);
        assert(bs[0].1 != t);
        assert(rest[i - 1] == bs[i]);
        assert forall|j: int| 0 <= j < i - 1 implies (#[trigger] rest[j]).1 != t by {
            assert(rest[j] == bs[j + 1]);
        }
        law_the_first_binding_counts(rest, t, i - 1, test_mode);
    }
}

/// While an action waits for a trigger, a press of anything but escape is bound
/// to it, and escape calls the waiting off.
pub proof fn law_a_waiting_action_takes_the_next_press(
    bs: Seq<(Action, TriggerView)>,
    a: Action,
    test_mode: bool,
    t: TriggerView,
    mods: Mods,
)
    ensures
        press_outcome(
            bs,
            Some(a),
            test_mode,
            TriggerView::Keyboard("Escape"@, mods),
        ) == PressOutcome::CaptureCancelled,
        !(t is Keyboard) || t->Keyboard_0 != "Escape"@ ==> press_outcome(bs, Some(a), test_mode, t)
            == PressOutcome::Captured(a),
        bound_action(rebound(bs, a, t), t) == Some(a),
{
    law_last_capture_wins(bs, a, t);
}

/// The keys that are bound at first.
pub proof fn law_the_first_keys()
    ensures
        ({
            let bs = default_bindings();
            let plain = Mods { bits: 0 };
            let shift = Mods { bits: 2 };
            let ctrl_alt = Mods { bits: 5 };
            &&& bound_action(bs, TriggerView::Keyboard("Space"@, plain)) == Some(Action::Next)
            &&& bound_action(bs, TriggerView::Keyboard("Backspace"@, plain)) == Some(
                Action::Previous,
            )
            &&& bound_action(bs, TriggerView::Keyboard("r"@, plain)) == Some(Action::TogglePlay)
            &&& bound_action(bs, TriggerView::Keyboard("h"@, plain)) == Some(Action::NextHeading)
            &&& bound_action(bs, TriggerView::Keyboard("h"@, shift)) == Some(Action::PrevHeading)
            &&& bound_action(bs, TriggerView::Keyboard("PageDown"@, plain)) == Some(
                Action::PageNext,
            )
            &&& bound_action(bs, TriggerView::Keyboard("PageUp"@, plain)) == Some(Action::PagePrev)
            &&& bound_action(bs, TriggerView::Keyboard("F5"@, plain)) == Some(
                Action::ReloadPronunciation,
            )
            &&& bound_action(bs, TriggerView::Keyboard("Escape"@, plain)) == Some(Action::Cancel)
            &&& bound_action(bs, TriggerView::Keyboard("k"@, ctrl_alt)) == Some(
                Action::ToggleClickThrough,
            )
            &&& bound_action(bs, TriggerView::Keyboard("h"@, ctrl_alt)) == Some(
                Action::ToggleVisibility,
            )
        }),
{
    let bs = default_bindings();
    reveal_strlit("Space");
    reveal_strlit("Backspace");
    reveal_strlit("r");
    reveal_strlit("h");
    reveal_strlit("PageDown");
    reveal_strlit("PageUp");
    reveal_strlit("F5");
    reveal_strlit("Escape");
    reveal_strlit("k");
    assert(CTRL | ALT == 5u8) by (bit_vector);
    let keys = seq![
        "Space"@,
        "Backspace"@,
        "r"@,
        "h"@,
        "h"@,
        "PageDown"@,
        "PageUp"@,
        "F5"@,
        "Escape"@,
        "k"@,
        "h"@,
    ];
    assert(keys[0].len() == 5 && keys[1].len() == 9 && keys[2].len() == 1 && keys[3].len() == 1
        && keys[5].len() == 8 && keys[6].len() == 6 && keys[7].len() == 2 && keys[8].len() == 6
        && keys[9].len() == 1);
    assert(keys[2][0] == 'r' && keys[3][0] == 'h' && keys[6][0] == 'P' && keys[8][0] == 'E'
        && keys[9][0] == 'k');
    assert forall|i: int| 0 <= i < 11 implies bound_action(bs, (#[trigger] bs[i]).1) == Some(
        bs[i].0,
    ) by {
        assert(bs[i].1->Keyboard_0 == keys[i]);
        assert forall|j: int| 0 <= j < i implies (#[trigger] bs[j]).1 != bs[i].1 by {
            assert(bs[j].1->Keyboard_0 == keys[j]);
            assert(keys[j].len() != keys[i].len() || keys[j][0] != keys[i][0] || bs[j].1->Keyboard_1
                != bs[i].1->Keyboard_1);
        }
        law_the_first_binding_counts(bs, bs[i].1, i, false);
    }
    assert(bs[0].1 == TriggerView::Keyboard("Space"@, Mods { bits: 0 }));
    assert(bs[1].1 == TriggerView::Keyboard("Backspace"@, Mods { bits: 0 }));
    assert(bs[2].1 == TriggerView::Keyboard("r"@, Mods { bits: 0 }));
    assert(bs[3].1 == TriggerView::Keyboard("h"@, Mods { bits: 0 }));
    assert(bs[4].1 == TriggerView::Keyboard("h"@, Mods { bits: 2 }));
    assert(bs[5].1 == TriggerView::Keyboard("PageDown"@, Mods { bits: 0 }));
    assert(bs[6].1 == TriggerView::Keyboard("PageUp"@, Mods { bits: 0 }));
    assert(bs[7].1 == TriggerView::Keyboard("F5"@, Mods { bits: 0 }));
    assert(bs[8].1 == TriggerView::Keyboard("Escape"@, Mods { bits: 0 }));
    assert(bs[9].1 == TriggerView::Keyboard("k"@, Mods { bits: 5 }));
    assert(bs[10].1 == TriggerView::Keyboard("h"@, Mods { bits: 5 }));
}

/// A letter is the same key in either case; a key that begins with none goes by its
/// name.
pub proof fn law_letters_are_one_key(c: char, name: Seq<char>)
    ensures
        'a' <= c <= 'z' ==> key_name(seq![c]) == seq![c],
        'A' <= c <= 'Z' ==> key_name(seq![c]) == seq![(c as int + 32) as char],
        name.len() > 0 && !crate::text::is_letter(name[0]) ==> key_name(name) == name,
{
    let s = seq![c];
    if 'a' <= c <= 'z' || 'A' <= c <= 'Z' {
        assert(s.drop_first() =~= Seq::empty());
        reveal_with_fuel(vstd::utf8::encode_utf8, 2);
        assert(byte_len(s) == 1);
        assert(lower_all(s) =~= seq![crate::text::lower(c)]);
    }
}

/// Each modifier is named, and nothing is said of one that is not held.
pub proof fn law_modifiers_are_named()
    ensures
        mods_label(Mods { bits: 0 }).len() == 0,
        mods_label(Mods { bits: 1 }) == "Ctrl+"@,
        mods_label(Mods { bits: 2 }) == "Shift+"@,
        mods_label(Mods { bits: 4 }) == "Alt+"@,
        mods_label(Mods { bits: 8 }) == "Win+"@,
        mods_label(Mods { bits: 15 }) == "Ctrl+"@ + "Alt+"@ + "Shift+"@ + "Win+"@,
{
    reveal_strlit("");
    assert(0u8 & 1 == 0 && 0u8 & 2 == 0 && 0u8 & 4 == 0 && 0u8 & 8 == 0) by (bit_vector);
    assert(1u8 & 1 == 1 && 1u8 & 2 == 0 && 1u8 & 4 == 0 && 1u8 & 8 == 0) by (bit_vector);
    assert(2u8 & 1 == 0 && 2u8 & 2 == 2 && 2u8 & 4 == 0 && 2u8 & 8 == 0) by (bit_vector);
    assert(4u8 & 1 == 0 && 4u8 & 2 == 0 && 4u8 & 4 == 4 && 4u8 & 8 == 0) by (bit_vector);
    assert(8u8 & 1 == 0 && 8u8 & 2 == 0 && 8u8 & 4 == 0 && 8u8 & 8 == 8) by (bit_vector);
    assert(15u8 & 1 == 1 && 15u8 & 2 == 2 && 15u8 & 4 == 4 && 15u8 & 8 == 8) by (bit_vector);
    assert(mods_label(Mods { bits: 0 }) =~= Seq::empty());
    assert(mods_label(Mods { bits: 1 }) =~= "Ctrl+"@);
    assert(mods_label(Mods { bits: 2 }) =~= "Shift+"@);
    assert(mods_label(Mods { bits: 4 }) =~= "Alt+"@);
    assert(mods_label(Mods { bits: 8 }) =~= "Win+"@);
    assert(mods_label(Mods { bits: 15 }) =~= "Ctrl+"@ + "Alt+"@ + "Shift+"@ + "Win+"@);
}

/// A controller's button is shown with the controller's name, or with the start of
/// its id where it has none; other devices by their numbers.
pub proof fn law_buttons_are_shown_with_their_device(
    names: Seq<(Seq<char>, Seq<char>)>,
    guid: Seq<char>,
    code: Seq<char>,
    vid: u16,
    pid: u16,
    usage: u32,
)
    ensures
        lookup(names, guid) matches Some(n) ==> trigger_label(
            TriggerView::Gamepad(guid, code),
            names,
        ) == n + " "@ + code,
        lookup(names, guid) is None && guid.len() > 6 ==> trigger_label(
            TriggerView::Gamepad(guid, code),
            names,
        ) == "Pad["@ + guid.take(6) + "…] "@ + code,
        lookup(names, guid) is None && guid.len() <= 6 ==> trigger_label(
            TriggerView::Gamepad(guid, code),
            names,
        ) == "Pad["@ + guid + "…] "@ + code,
{
}

/// A letter is shown as a capital behind the modifiers, and a key with a name by
/// its name.
pub proof fn law_keys_are_shown_behind_modifiers(
    c: char,
    name: Seq<char>,
    mods: Mods,
    names: Seq<(Seq<char>, Seq<char>)>,
)
    ensures
        'a' <= c <= 'z' ==> trigger_label(TriggerView::Keyboard(seq![c], mods), names)
            == mods_label(mods) + seq![(c as int - 32) as char],
        trigger_label(TriggerView::Keyboard("Escape"@, mods), names) == mods_label(mods) + "Esc"@,
        trigger_label(TriggerView::Keyboard("Space"@, mods), names) == mods_label(mods) + "Space"@,
        name.len() > 1 && byte_len(name) > 1 && name != "Escape"@ ==> trigger_label(
            TriggerView::Keyboard(name, mods),
            names,
        ) == mods_label(mods) + name,
{
    reveal_strlit(" ");
    reveal_strlit("Space");
    reveal_strlit("Escape");
    reveal_strlit("Backspace");
    reveal_strlit("PageUp");
    reveal_strlit("PageDown");
    assert("Escape"@[0] == 'E' && "Space"@[0] == 'S');
    assert(" "@.len() == 1 && " "@[0] == ' ');
    assert("Space"@.len() == 5 && "Escape"@.len() == 6 && "Backspace"@.len() == 9);
    let s = seq![c];
    if 'a' <= c <= 'z' {
        assert(s.drop_first() =~= Seq::empty());
        reveal_with_fuel(vstd::utf8::encode_utf8, 2);
        assert(byte_len(s) == 1);
        assert(s[0] == c);
        assert(upper_all(s) =~= seq![(c as int - 32) as char]);
    }
}

/// The panel shows the first trigger of an action and how many more there are.
pub proof fn law_the_first_trigger_is_shown(
    ts: Seq<TriggerView>,
    names: Seq<(Seq<char>, Seq<char>)>,
)
    ensures
        ts.len() == 0 ==> triggers_label(ts, names) == "(unbound)"@,
        ts.len() == 1 ==> triggers_label(ts, names) == trigger_label(ts[0], names),
        ts.len() > 1 ==> triggers_label(ts, names) == triggers_label(ts.take(1), names) + " (+"@
            + decimal((ts.len() - 1) as nat) + ")"@,
{
}

} // verus!
