//! Naming and identifying game controllers.

use vstd::prelude::*;

use crate::input::{InputEvent, Trigger, TriggerView};
use crate::numbers::{hex, push_hex};
use crate::text::{own, push_text, trim, trimmed};

verus! {

/// The bytes in hexadecimal, two digits each.
pub open spec fn hex_bytes(bytes: Seq<u8>) -> Seq<char>
    decreases bytes.len(),
{
    if bytes.len() == 0 {
        Seq::empty()
    } else {
        hex_bytes(bytes.drop_last()) + hex(bytes.last() as nat, 2, false)
    }
}

/// The id of a controller: its 16 bytes as 32 hexadecimal digits.
pub fn fmt_uuid(bytes: [u8; 16]) -> (r: String)
    ensures
        r@ == hex_bytes(bytes@),
{
    let mut s = String::new();
    let mut i: usize = 0;
    assert(bytes@.take(0) =~= Seq::empty());
    while i < 16
        invariant
            i <= 16,
            s@ == hex_bytes(bytes@.take(i as int)),
        decreases 16 - i,
    {
        assert(bytes@.take(i + 1).drop_last() =~= bytes@.take(i as int));
        push_hex(&mut s, bytes[i] as u64, 2, false);
        i += 1;
    }
    assert(bytes@.take(16) =~= bytes@);
    s
}

/// The text of an optional name, unless it is blank.
pub open spec fn usable_name(name: Option<&str>) -> Option<Seq<char>> {
    match name {
        Some(n) => if trim(n@).len() > 0 {
            Some(n@)
        } else {
            None
        },
        None => None,
    }
}

/// What to call a controller.
pub open spec fn name_for(
    numbered: bool,
    panel_name: Option<Seq<char>>,
    product_name: Option<Seq<char>>,
    own_name: Seq<char>,
) -> Seq<char> {
    match (numbered, panel_name, product_name) {
        (true, Some(n), _) => n,
        (true, None, Some(n)) => n,
        _ => own_name,
    }
}

/// What to call a controller: what the control panel calls it, else its product
/// name, else its own name. The first two are known only of controllers with a
/// vendor and a product number.
pub fn friendly_name(
    vid: Option<u16>,
    pid: Option<u16>,
    panel_name: Option<&str>,
    product_name: Option<&str>,
    own_name: &str,
) -> (r: String)
    ensures
        r@ == name_for(
            vid is Some && pid is Some,
            usable_name(panel_name),
            usable_name(product_name),
            own_name@,
        ),
        r@ == (if vid is None || pid is None {
            own_name@
        } else {
            match usable_name(panel_name) {
                Some(n) => n,
                None => match usable_name(product_name) {
                    Some(n) => n,
                    None => own_name@,
                },
            }
        }),
{
    if vid.is_none() || pid.is_none() {
        return own(own_name);
    }
    if let Some(n) = panel_name {
        if trimmed(n).as_str().unicode_len() > 0 {
            return own(n);
        }
    }
    if let Some(n) = product_name {
        if trimmed(n).as_str().unicode_len() > 0 {
            return own(n);
        }
    }
    own(own_name)
}

/// A HID device of the system.
#[derive(Debug)]
pub struct HidDevice {
    pub vid: u16,
    pub pid: u16,
    pub product: Option<String>,
}

/// The device has the numbers and a product name.
pub open spec fn names_product(d: HidDevice, vid: u16, pid: u16) -> bool {
    d.vid == vid && d.pid == pid && d.product is Some
}

/// The product name of the first device with the numbers that has one.
pub fn hid_product_string(devices: &Vec<HidDevice>, vid: u16, pid: u16) -> (r: Option<String>)
    ensures
        match r {
            None => forall|i: int|
                0 <= i < devices@.len() ==> !names_product(#[trigger] devices@[i], vid, pid),
            Some(name) => exists|i: int|
                {
                    &&& 0 <= i < devices@.len()
                    &&& names_product(#[trigger] devices@[i], vid, pid)
                    &&& (devices@[i].product->0)@ == name@
                    &&& forall|j: int|
                        0 <= j < i ==> !names_product(#[trigger] devices@[j], vid, pid)
                },
        },
{
    let mut i: usize = 0;
    while i < devices.len()
        invariant
            i <= devices.len(),
            forall|j: int| 0 <= j < i ==> !names_product(#[trigger] devices@[j], vid, pid),
        decreases devices.len() - i,
    {
        let d = &devices[i];
        if d.vid == vid && d.pid == pid {
            if let Some(p) = &d.product {
                assert(names_product(devices@[i as int], vid, pid));
                return Some(own(p.as_str()));
            }
        }
        i += 1;
    }
    None
}

/// The registry key under which the control panel keeps the name of a
/// controller.
pub fn oem_subkey(vid: u16, pid: u16) -> (r: String)
    ensures
        r@
            == "SYSTEM\\CurrentControlSet\\Control\\MediaProperties\\PrivateProperties\\Joystick\\OEM\\VID_"@
            + hex(vid as nat, 4, true) + "&PID_"@ + hex(pid as nat, 4, true),
{
    let mut s = own(
        "SYSTEM\\CurrentControlSet\\Control\\MediaProperties\\PrivateProperties\\Joystick\\OEM\\VID_",
    );
    push_hex(&mut s, vid as u64, 4, true);
    push_text(&mut s, "&PID_");
    push_hex(&mut s, pid as u64, 4, true);
    s
}

/// The 16-bit units of a text in little-endian bytes, up to the first zero.
pub open spec fn units(bytes: Seq<u8>, i: int) -> Seq<u16>
    decreases bytes.len() - i,
{
    if i < 0 || i + 1 >= bytes.len() {
        Seq::empty()
    } else {
        let unit = (bytes[i] + 256 * bytes[i + 1]) as u16;
        if unit == 0 {
            Seq::empty()
        } else {
            seq![unit] + units(bytes, i + 2)
        }
    }
}

fn wide_units(bytes: &Vec<u8>) -> (r: Vec<u16>)
    ensures
        r@ == units(bytes@, 0),
{
    let mut r: Vec<u16> = Vec::new();
    let mut i: usize = 0;
    while i < bytes.len() && bytes.len() - i >= 2
        invariant
            i <= bytes.len(),
            r@ + units(bytes@, i as int) == units(bytes@, 0),
        decreases bytes.len() - i,
    {
        let unit: u16 = bytes[i] as u16 + 256 * bytes[i + 1] as u16;
        let ghost before = r@;
        let ghost rest = units(bytes@, i as int);
        if unit == 0 {
            assert(r@ =~= r@ + units(bytes@, i as int));
            return r;
        }
        r.push(unit);
        i += 2;
        assert(r@ + units(bytes@, i as int) =~= before + rest);
    }
    assert(r@ =~= r@ + units(bytes@, i as int));
    r
}

/// The unit is the first of a pair that stands for one character.
pub open spec fn is_high(unit: u16) -> bool {
    0xd800 <= unit <= 0xdbff
}

/// The unit is the second of a pair that stands for one character.
pub open spec fn is_low(unit: u16) -> bool {
    0xdc00 <= unit <= 0xdfff
}

/// The text that 16-bit units from `i` on stand for: a character for each pair,
/// for each unit that belongs to no pair its own character, and the replacement
/// character for half of a pair.
pub open spec fn utf16_from(units: Seq<u16>, i: int) -> Seq<char>
    decreases units.len() - i,
{
    if i < 0 || i >= units.len() {
        Seq::empty()
    } else if is_high(units[i]) && i + 1 < units.len() && is_low(units[i + 1]) {
        let code = 0x1_0000 + (units[i] - 0xd800) * 0x400 + (units[i + 1] - 0xdc00);
        seq![code as char] + utf16_from(units, i + 2)
    } else if is_high(units[i]) || is_low(units[i]) {
        seq!['\u{fffd}'] + utf16_from(units, i + 1)
    } else {
        seq![units[i] as char] + utf16_from(units, i + 1)
    }
}

/// The text that 16-bit units stand for.
pub open spec fn utf16_text(units: Seq<u16>) -> Seq<char> {
    utf16_from(units, 0)
}

/// `String::from_utf16_lossy` decodes UTF-16: a surrogate pair gives one
/// character, any other unit its own, and the replacement character stands for
/// each surrogate that has no partner.
pub assume_specification[ String::from_utf16_lossy ](v: &[u16]) -> (r: String)
    ensures
        r@ == utf16_text(v@),
;

/// The text of a registry value: UTF-16 in little-endian bytes, up to the first
/// zero; an odd byte at the end is dropped.
pub fn decode_wide(bytes: &Vec<u8>) -> (r: String)
    ensures
        r@ == utf16_text(units(bytes@, 0)),
{
    let wide = wide_units(bytes);
    String::from_utf16_lossy(wide.as_slice())
}

/// The event of a button that was pressed or released.
pub fn button_event(guid: &str, code: &str, pressed: bool) -> (r: InputEvent)
    ensures
        match r {
            InputEvent::Press(t) => pressed && t@ == TriggerView::Gamepad(guid@, code@),
            InputEvent::Release(t) => !pressed && t@ == TriggerView::Gamepad(guid@, code@),
            InputEvent::DevicesChanged => false,
        },
{
    let trigger = Trigger::Gamepad { guid: own(guid), code: own(code) };
    if pressed {
        InputEvent::Press(trigger)
    } else {
        InputEvent::Release(trigger)
    }
}

/// The bytes of units, the lower byte of each first.
pub open spec fn little_endian(us: Seq<u16>) -> Seq<u8>
    decreases us.len(),
{
    if us.len() == 0 {
        Seq::empty()
    } else {
        seq![(us[0] % 256) as u8, (us[0] / 256) as u8] + little_endian(us.skip(1))
    }
}

proof fn lemma_units_at(us: Seq<u16>, bytes: Seq<u8>, at: int)
    requires
        0 <= at,
        at + 2 * us.len() <= bytes.len(),
        bytes.subrange(at, at + 2 * us.len()) == little_endian(us),
        forall|i: int| 0 <= i < us.len() ==> (#[trigger] us[i]) != 0,
        at + 2 * us.len() + 1 >= bytes.len() || (bytes[at + 2 * us.len()] == 0 && bytes[at + 2
            * us.len() + 1] == 0),
    ensures
        units(bytes, at) == us,
    decreases us.len(),
{
    if us.len() > 0 {
        let part = bytes.subrange(at, at + 2 * us.len());
        let rest = us.skip(1);
        assert(part[0] == bytes[at] && part[1] == bytes[at + 1]);
        assert(us[0] != 0);
        lemma_little_endian_len(rest);
        assert(part.skip(2) =~= little_endian(rest));
        assert(bytes.subrange(at + 2, at + 2 + 2 * rest.len()) =~= part.skip(2));
        assert forall|i: int| 0 <= i < rest.len() implies (#[trigger] rest[i]) != 0 by {
            assert(rest[i] == us[i + 1]);
        }
        lemma_units_at(rest, bytes, at + 2);
        assert(seq![us[0]] + rest =~= us);
    } else {
        assert(us =~= Seq::empty());
    }
}

proof fn lemma_little_endian_len(us: Seq<u16>)
    ensures
        little_endian(us).len() == 2 * us.len(),
    decreases us.len(),
{
    if us.len() > 0 {
        lemma_little_endian_len(us.skip(1));
    }
}

/// Units are read back from their bytes, up to the zero behind them.
pub proof fn law_units_are_read_back(us: Seq<u16>, rest: Seq<u8>)
    requires
        forall|i: int| 0 <= i < us.len() ==> (#[trigger] us[i]) != 0,
    ensures
        units(little_endian(us), 0) == us,
        units(little_endian(us) + seq![0u8, 0u8] + rest, 0) == us,
{
    lemma_little_endian_len(us);
    let a = little_endian(us);
    let b = little_endian(us) + seq![0u8, 0u8] + rest;
    let n = (2 * us.len()) as int;
    assert(a.subrange(0, n) =~= a);
    assert(b.subrange(0, n) =~= a);
    assert(b[n] == 0 && b[n + 1] == 0);
    lemma_units_at(us, a, 0);
    lemma_units_at(us, b, 0);
}

proof fn lemma_utf16_part(us: Seq<u16>, a: Seq<u16>, at: int, i: int)
    requires
        0 <= at,
        at + a.len() <= us.len(),
        us.subrange(at, at + a.len()) == a,
        0 <= i <= a.len(),
        at + a.len() == us.len() || a.len() == 0 || !is_high(a.last()) || !is_low(us[at + a.len()]),
    ensures
        utf16_from(us, at + i) == utf16_from(a, i) + utf16_from(us, at + a.len()) || i > a.len(),
    decreases a.len() - i,
{
    if i < a.len() {
        assert(us.subrange(at, at + a.len())[i] == us[at + i]);
        if i + 1 < a.len() {
            assert(us.subrange(at, at + a.len())[i + 1] == us[at + i + 1]);
        }
        let tail = utf16_from(us, at + a.len());
        if is_high(a[i]) && i + 1 < a.len() && is_low(a[i + 1]) {
            lemma_utf16_part(us, a, at, i + 2);
        } else {
            lemma_utf16_part(us, a, at, i + 1);
        }
        assert(utf16_from(us, at + i) =~= utf16_from(a, i) + tail);
    } else {
        assert(utf16_from(a, i) + utf16_from(us, at + a.len()) =~= utf16_from(us, at + a.len()));
    }
}

/// Text is decoded part by part, unless a pair is parted.
pub proof fn law_text_is_decoded_part_by_part(a: Seq<u16>, b: Seq<u16>)
    requires
        a.len() == 0 || b.len() == 0 || !is_high(a.last()) || !is_low(b[0]),
    ensures
        utf16_text(a + b) == utf16_text(a) + utf16_text(b),
{
    let us = a + b;
    assert(us.subrange(0, a.len() as int) =~= a);
    assert(us.subrange(a.len() as int, us.len() as int) =~= b);
    if b.len() > 0 {
        assert(us[a.len() as int] == b[0]);
    }
    lemma_utf16_part(us, a, 0, 0);
    lemma_utf16_part(us, b, a.len() as int, 0);
    assert(utf16_from(us, us.len() as int) =~= Seq::empty());
    assert(utf16_from(b, 0) + Seq::<char>::empty() =~= utf16_from(b, 0));
}

/// Every character is decoded from its own units: one for those up to U+FFFF, two
/// for all others. Half of a pair on its own is decoded as the replacement
/// character.
pub proof fn law_characters_are_decoded(c: char, half: u16)
    ensures
        c as int <= 0xffff ==> utf16_text(seq![c as u16]) == seq![c],
        c as int > 0xffff ==> utf16_text(
            seq![
                (0xd800 + (c as int - 0x1_0000) / 0x400) as u16,
                (0xdc00 + (c as int - 0x1_0000) % 0x400) as u16,
            ],
        ) == seq![c],
        0xd800 <= half <= 0xdfff ==> utf16_text(seq![half]) == seq!['\u{fffd}'],
{
    reveal_with_fuel(utf16_from, 3);
    if c as int <= 0xffff {
        assert(utf16_text(seq![c as u16]) =~= seq![c]);
    } else {
        let us = seq![
            (0xd800 + (c as int - 0x1_0000) / 0x400) as u16,
            (0xdc00 + (c as int - 0x1_0000) % 0x400) as u16,
        ];
        assert(is_high(us[0]) && is_low(us[1]));
        assert(utf16_text(us) =~= seq![c]);
    }
    if 0xd800 <= half <= 0xdfff {
        assert(utf16_text(seq![half]) =~= seq!['\u{fffd}']);
    }
}

/// Bytes are written one after the other, two digits each.
pub proof fn law_bytes_are_written_in_turn(a: Seq<u8>, b: Seq<u8>, c: u8)
    ensures
        hex_bytes(a + b) == hex_bytes(a) + hex_bytes(b),
        hex_bytes(seq![c]) == hex(c as nat, 2, false),
        hex_bytes(Seq::empty()).len() == 0,
    decreases b.len(),
{
    assert(seq![c].drop_last() =~= Seq::empty());
    assert(hex_bytes(Seq::empty()) =~= Seq::empty());
    assert(hex_bytes(seq![c]) =~= hex(c as nat, 2, false));
    if b.len() == 0 {
        assert(a + b =~= a);
        assert(hex_bytes(a) + hex_bytes(b) =~= hex_bytes(a));
    } else {
        law_bytes_are_written_in_turn(a, b.drop_last(), c);
        assert((a + b).drop_last() =~= a + b.drop_last());
        assert(hex_bytes(a + b) =~= hex_bytes(a) + hex_bytes(b));
    }
}

/// The name of the control panel comes first, then that of the product, then the
/// controller's own; a blank name does not count.
pub proof fn law_controllers_go_by_their_best_name(
    panel: Seq<char>,
    product: Option<Seq<char>>,
    other: Seq<char>,
    name: &str,
)
    ensures
        name_for(true, Some(panel), product, other) == panel,
        product matches Some(n) ==> name_for(true, None, product, other) == n,
        name_for(true, None, None, other) == other,
        name_for(false, Some(panel), product, other) == other,
        trim(name@).len() > 0 ==> usable_name(Some(name)) == Some(name@),
        trim(name@).len() == 0 ==> usable_name(Some(name)) is None,
{
}

} // verus!
