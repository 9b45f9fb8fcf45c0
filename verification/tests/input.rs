use dcs_kneeboard::actions::Action;
use dcs_kneeboard::gamepad::{
    button_event, decode_wide, fmt_uuid, friendly_name, hid_product_string, oem_subkey, HidDevice,
};
use dcs_kneeboard::input::{
    binding_rows, device_name, handle_press, handle_release, key_event_to_trigger, pack_mods,
    same_trigger, trigger_text, Bindings, DeviceNames, InputEvent, Mods, PressOutcome, Trigger,
    CTRL, SHIFT,
};

fn key(key: &str, mods: Mods) -> Trigger {
    Trigger::Keyboard { key: key.to_string(), mods }
}

fn pad(guid: &str, code: &str) -> Trigger {
    Trigger::Gamepad { guid: guid.to_string(), code: code.to_string() }
}

#[test]
fn every_action_is_listed_once() {
    for (i, &a) in Action::all().iter().enumerate() {
        assert_eq!(a.index(), i);
        assert_eq!(Action::at(i as i32), Some(a));
        assert_eq!(Action::all().iter().filter(|&&b| a == b).count(), 1);
    }
    assert_eq!(Action::at(-1), Some(Action::all()[0]));
    assert_eq!(Action::at(Action::all().len() as i32), None);
}

#[test]
fn triggers_are_shown_in_words() {
    let mut names = DeviceNames::new();
    assert_eq!(key("h", pack_mods(true, true, true, true)).display(&names), "Ctrl+Alt+Shift+Win+H");
    assert_eq!(key("Escape", Mods::empty()).display(&names), "Esc");
    assert_eq!(key(" ", Mods::empty()).display(&names), "Space");
    assert_eq!(key("F5", Mods::empty()).display(&names), "F5");
    assert_eq!(pad("0123456789", "South").display(&names), "Pad[012345…] South");
    names.remember("0123456789", "F16 ICP");
    assert_eq!(pad("0123456789", "South").display(&names), "F16 ICP South");
    let hid = Trigger::Hid { vid: 0x4d, pid: 0x1234, usage: 17 };
    assert_eq!(hid.display(&names), "HID 004d:1234/17");
}

#[test]
fn the_last_name_of_a_device_counts() {
    let mut names = DeviceNames::new();
    assert_eq!(device_name(&names, "a"), None);
    names.remember("a", "one");
    names.remember("a", "two");
    assert_eq!(device_name(&names, "a").as_deref(), Some("two"));
    assert_eq!(device_name(&names, "b"), None);
}

#[test]
fn letters_go_by_lower_case() {
    let t = key_event_to_trigger("H", pack_mods(false, true, false, false)).unwrap();
    assert!(same_trigger(&t, &key("h", Mods::empty().with(SHIFT))));
    let t = key_event_to_trigger("PageUp", Mods::empty()).unwrap();
    assert!(same_trigger(&t, &key("PageUp", Mods::empty())));
    assert!(key_event_to_trigger("", Mods::empty()).is_none());
}

#[test]
fn modifier_keys_alone_are_no_triggers() {
    for c in '\u{10}'..='\u{18}' {
        assert!(key_event_to_trigger(&c.to_string(), Mods::empty().with(SHIFT)).is_none());
    }
    assert!(key_event_to_trigger("\u{1b}", Mods::empty()).is_some());
    assert!(key_event_to_trigger("\u{f}", Mods::empty()).is_some());
    assert!(key_event_to_trigger("\u{19}", Mods::empty()).is_some());
}

#[test]
fn modifiers_are_told_apart() {
    let m = pack_mods(true, false, false, false);
    assert!(m.contains(CTRL) && !m.contains(SHIFT));
    assert!(!same_trigger(&key("h", m), &key("h", Mods::empty())));
}

#[test]
fn the_defaults_bind_keys() {
    let b = Bindings::defaults();
    assert_eq!(b.0.len(), 11);
    assert_eq!(b.action_for(&key("Space", Mods::empty())), Some(Action::Next));
    assert_eq!(b.action_for(&key("h", Mods::empty())), Some(Action::NextHeading));
    assert_eq!(b.action_for(&key("h", Mods::empty().with(SHIFT))), Some(Action::PrevHeading));
    assert_eq!(
        b.action_for(&key("h", pack_mods(true, false, true, false))),
        Some(Action::ToggleVisibility)
    );
    assert!(b.triggers_for(Action::PushToTalk).is_empty());
}

#[test]
fn triggers_read_back() {
    let mut b = Bindings::defaults();
    b.set_triggers(Action::Next, vec![pad("a", "1"), pad("a", "2")]);
    assert_eq!(b.triggers_for(Action::Next).len(), 2);
    assert_eq!(b.action_for(&pad("a", "2")), Some(Action::Next));
    assert_eq!(b.action_for(&key("Space", Mods::empty())), None);
    assert_eq!(b.action_for(&key("r", Mods::empty())), Some(Action::TogglePlay));
}

#[test]
fn the_last_capture_wins() {
    let mut b = Bindings::defaults();
    let mut waiting = Some(Action::PushToTalk);
    let r = handle_press(&mut b, &mut waiting, false, key("Space", Mods::empty()));
    assert_eq!(r, PressOutcome::Captured(Action::PushToTalk));
    assert_eq!(waiting, None);
    assert_eq!(b.action_for(&key("Space", Mods::empty())), Some(Action::PushToTalk));
    assert!(b.triggers_for(Action::Next).is_empty());
}

#[test]
fn escape_calls_a_capture_off() {
    let mut b = Bindings::defaults();
    let mut waiting = Some(Action::PushToTalk);
    let r = handle_press(&mut b, &mut waiting, false, key("Escape", Mods::empty()));
    assert_eq!(r, PressOutcome::CaptureCancelled);
    assert_eq!(waiting, None);
    assert_eq!(b.action_for(&key("Escape", Mods::empty())), Some(Action::Cancel));
}

#[test]
fn presses_act_flash_or_do_nothing() {
    let mut b = Bindings::defaults();
    let mut none = None;
    let space = || key("Space", Mods::empty());
    assert_eq!(
        handle_press(&mut b, &mut none, false, space()),
        PressOutcome::Dispatch(Action::Next)
    );
    assert_eq!(handle_press(&mut b, &mut none, true, space()), PressOutcome::Flash(Action::Next));
    assert_eq!(handle_press(&mut b, &mut none, true, pad("a", "1")), PressOutcome::Unbound);
}

#[test]
fn only_push_to_talk_acts_on_release() {
    let mut b = Bindings::defaults();
    b.set_triggers(Action::PushToTalk, vec![pad("a", "1")]);
    assert!(handle_release(&b, None, false, &pad("a", "1")));
    assert!(!handle_release(&b, None, true, &pad("a", "1")));
    assert!(!handle_release(&b, Some(Action::Next), false, &pad("a", "1")));
    assert!(!handle_release(&b, None, false, &key("Space", Mods::empty())));
}

#[test]
fn rows_show_the_first_trigger_and_how_many_more() {
    let names = DeviceNames::new();
    let mut b = Bindings::defaults();
    b.set_triggers(Action::Previous, vec![key("a", Mods::empty()), key("b", Mods::empty())]);
    assert_eq!(trigger_text(&b, Action::Previous, &names), "A (+1)");
    assert_eq!(trigger_text(&b, Action::Next, &names), "Space");
    assert_eq!(trigger_text(&b, Action::PushToTalk, &names), "(unbound)");
    let rows = binding_rows(&b, Some(Action::Next), &names);
    assert_eq!(rows.len(), Action::all().len());
    for row in rows {
        assert_eq!(row.capturing, row.action == Action::Next);
    }
}

#[test]
fn controllers_are_named_by_what_is_known_best() {
    let name = |panel, product| friendly_name(Some(1), Some(2), panel, product, "pad");
    assert_eq!(name(Some("F16 MFD 3"), Some("MFD")), "F16 MFD 3");
    assert_eq!(name(Some("  "), Some("MFD")), "MFD");
    assert_eq!(name(None, Some("")), "pad");
    assert_eq!(friendly_name(None, Some(2), Some("F16 MFD 3"), None, "pad"), "pad");
}

#[test]
fn the_first_device_with_a_product_name_counts() {
    let device = |vid, pid, product: Option<&str>| HidDevice {
        vid,
        pid,
        product: product.map(|p| p.to_string()),
    };
    let all = vec![
        device(1, 3, Some("other")),
        device(1, 2, None),
        device(1, 2, Some("first")),
        device(1, 2, Some("second")),
    ];
    assert_eq!(hid_product_string(&all, 1, 2).as_deref(), Some("first"));
    assert_eq!(hid_product_string(&all, 9, 9), None);
}

#[test]
fn ids_are_written_in_hexadecimal() {
    let mut bytes = [0_u8; 16];
    bytes[0] = 0x03;
    bytes[15] = 0xfe;
    assert_eq!(fmt_uuid(bytes), "030000000000000000000000000000fe");
    assert!(oem_subkey(0x4d, 0xabcd).ends_with("\\OEM\\VID_004D&PID_ABCD"));
}

#[test]
fn wide_text_ends_at_the_first_zero() {
    let bytes = |t: &str| -> Vec<u8> { t.encode_utf16().flat_map(|u| u.to_le_bytes()).collect() };
    assert_eq!(decode_wide(&bytes("F16 ÄÖ 🎮\0rest")), "F16 ÄÖ 🎮");
    // Two halves in the wrong order, a half before a pair, and one at the end.
    let units = [0xdc00_u16, 0xd800, 0xd83c, 0xdfae, 0xdbff];
    let wide: Vec<u8> = units.iter().flat_map(|u| u.to_le_bytes()).collect();
    assert_eq!(decode_wide(&wide), "\u{fffd}\u{fffd}🎮\u{fffd}");
    assert_eq!(decode_wide(&bytes("\u{10000}\u{10ffff}\u{d7ff}")), "\u{10000}\u{10ffff}\u{d7ff}");
    // Half of a pair, and an odd byte at the end.
    assert_eq!(decode_wide(&vec![0x00, 0xd8, 0x41, 0x00, 0x42]), "\u{fffd}A");
}

#[test]
fn buttons_become_events() {
    match button_event("g", "South", true) {
        InputEvent::Press(t) => assert!(same_trigger(&t, &pad("g", "South"))),
        _ => panic!("no press"),
    }
    match button_event("g", "South", false) {
        InputEvent::Release(t) => assert!(same_trigger(&t, &pad("g", "South"))),
        _ => panic!("no release"),
    }
}
