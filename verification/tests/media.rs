use dcs_kneeboard::audio::{
    default_first, device_named, find_end_frame, find_utterance_boundary, frame_samples,
    poll_step, Mic, MicStep, PollStep, Recording,
};
use dcs_kneeboard::sources::{
    click_through_style, empty_folder_error, is_image_extension, is_png_extension, layered_style,
    page_size, plan_watch, read_png_dims, WatchStep,
};
use dcs_kneeboard::speech::{
    cache_file_name, check_install, fallback_warning, file_uri, fnv1a64, is_usable_voice,
    pick_best_voice, plan_engine, test_phrase, CheckStep, ChildStatus, EnginePlan, NoopTts,
    PiperWorker, Voice,
};
use dcs_kneeboard::vr::{
    blend, build_test_pattern, render_kneeboard_frame, should_be_active, Frame, Rgba,
};

fn frames(parts: &[(bool, usize)]) -> Vec<bool> {
    parts.iter().flat_map(|&(loud, n)| vec![loud; n]).collect()
}

#[test]
fn an_utterance_ends_with_a_pause() {
    assert_eq!(find_end_frame(&frames(&[(false, 5), (true, 4), (false, 18)])), Some(26));
    assert_eq!(find_end_frame(&frames(&[(true, 4), (false, 17)])), None);
    assert_eq!(find_end_frame(&frames(&[(true, 3), (false, 40)])), None);
    assert_eq!(find_end_frame(&frames(&[(false, 400)])), None);
}

#[test]
fn a_long_utterance_is_cut() {
    assert_eq!(find_end_frame(&frames(&[(false, 2), (true, 300)])), Some(252));
}

#[test]
fn the_cut_is_after_the_last_frame() {
    let loud = frames(&[(true, 4), (false, 18)]);
    assert_eq!(find_utterance_boundary(&loud, 220, 10), Some(220));
    assert_eq!(find_utterance_boundary(&frames(&[(true, 3)]), 30, 10), None);
    assert_eq!(frame_samples(48_000, 2), 1_920);
    assert_eq!(frame_samples(10, 1), 1);
}

#[test]
fn taking_an_utterance_keeps_every_sample() {
    let mut r: Recording<i32> = Recording::new();
    r.append(&[1, 2, 3]);
    assert!(r.samples.is_empty());
    r.start();
    let data: Vec<i32> = (0..50).collect();
    r.append(&data);
    let loud = frames(&[(true, 4), (false, 21)]);
    let taken = r.try_take_utterance(&loud, 2).unwrap();
    assert_eq!(taken, (0..44).collect::<Vec<_>>());
    assert_eq!(r.stop(), (44..50).collect::<Vec<_>>());
    assert!(!r.enabled);
}

#[test]
fn pending_samples_can_be_dropped() {
    let mut r: Recording<u8> = Recording::new();
    r.start();
    r.append(&[1, 2]);
    r.discard_pending();
    r.append(&[3]);
    assert_eq!(r.stop(), vec![3]);
}

#[test]
fn the_default_device_goes_first() {
    let names: Vec<String> = ["a", "b", "c", "b"].iter().map(|n| n.to_string()).collect();
    assert_eq!(default_first(&names, Some("b")), ["b", "a", "c", "b"]);
    assert_eq!(default_first(&names, Some("x")), ["a", "b", "c", "b"]);
    assert_eq!(default_first(&names, None), ["a", "b", "c", "b"]);
    assert_eq!(device_named(&names, "b"), Some(1));
    assert_eq!(device_named(&names, "x"), None);
}

#[test]
fn a_hot_mic_is_not_cut_by_push_to_talk() {
    let mut m = Mic::new();
    assert_eq!(m.press_to_talk(false), MicStep::NoMicrophone);
    assert_eq!(m.toggle_hot_mic(true), MicStep::StartPolling);
    assert_eq!(m.press_to_talk(true), MicStep::Ignore);
    assert!(m.hot && m.locked);
    assert_eq!(m.toggle_hot_mic(true), MicStep::StopAndSubmit);
    assert!(!m.hot && !m.locked);
    assert_eq!(m.press_to_talk(true), MicStep::Start);
    m.release();
    assert!(!m.hot);
}

#[test]
fn speech_of_the_board_is_not_recorded() {
    let hot = Mic { hot: true, locked: true };
    assert_eq!(poll_step(hot, true, true), PollStep::Discard);
    assert_eq!(poll_step(hot, true, false), PollStep::Take);
    assert_eq!(poll_step(hot, false, true), PollStep::Take);
    assert_eq!(poll_step(Mic::new(), false, false), PollStep::Nothing);
}

fn voice(name: &str, language: &str) -> Voice {
    Voice { name: Some(name.to_string()), language: Some(language.to_string()) }
}

#[test]
fn natural_voices_are_the_best() {
    let david = || voice("Microsoft David", "en-US");
    let mark = || voice("Microsoft Mark", "en-US");
    let jenny = || voice("Microsoft Jenny", "en-GB");
    let natural = || voice("Microsoft Ana Natural", "en-US");
    let german = || voice("Microsoft Katja Natural", "de-DE");
    assert_eq!(pick_best_voice(&vec![david(), mark(), jenny(), natural()]), Some(3));
    assert_eq!(pick_best_voice(&vec![german(), david(), mark(), jenny()]), Some(3));
    assert_eq!(pick_best_voice(&vec![german(), david(), mark()]), Some(2));
    assert_eq!(pick_best_voice(&vec![german(), david()]), Some(1));
    assert_eq!(pick_best_voice(&vec![german()]), Some(0));
    assert_eq!(pick_best_voice(&Vec::new()), None);
}

#[test]
fn engines_fall_back_to_the_system() {
    match plan_engine("piper", Some("v.onnx")) {
        EnginePlan::Piper(v) => assert_eq!(v, "v.onnx"),
        EnginePlan::System(_) => panic!("no Piper"),
    }
    match plan_engine("piper", None) {
        EnginePlan::System(w) => assert_eq!(
            w.as_deref(),
            Some("Piper selected but no voice configured — using WinRT")
        ),
        EnginePlan::Piper(_) => panic!("Piper without a voice"),
    }
    assert!(matches!(plan_engine("winrt", Some("v.onnx")), EnginePlan::System(None)));
    assert_eq!(fallback_warning("gone"), "Piper init failed — using WinRT (gone)");
    assert_eq!(test_phrase(Some("piper")), "Piper voice ready.");
    assert_eq!(test_phrase(Some("winrt")), "Windows speech engine ready.");
    assert_eq!(test_phrase(Some(NoopTts::new().name())), "Speech engine ready.");
    assert_eq!(test_phrase(None), "No speech engine loaded.");
}

#[test]
fn recordings_are_named_by_their_hash() {
    assert_eq!(fnv1a64(""), 0xcbf2_9ce4_8422_2325);
    assert_eq!(fnv1a64("a"), 0xaf63_dc4c_8601_ec8c);
    assert_eq!(fnv1a64("foobar"), 0x8594_4171_f739_67e8);
    assert_eq!(cache_file_name("1.000", "hi"), format!("{:016x}.wav", fnv1a64("ls=1.000|hi")));
}

#[test]
fn what_an_installation_lacks_is_named() {
    let check = |p, v, d| check_install(("p", p), ("v", v), ("d", d));
    assert_eq!(check(true, true, true), Ok(()));
    assert_eq!(check(false, false, true).unwrap_err(), "piper.exe not found at p");
    assert_eq!(check(true, false, false).unwrap_err(), "voice model not found at v");
    assert_eq!(
        check(true, true, false).unwrap_err(),
        "voice config not found at d — pair the .onnx with its .onnx.json"
    );
    assert!(is_usable_voice(Some("onnx"), true));
    assert!(!is_usable_voice(Some("onnx"), false));
    assert!(!is_usable_voice(Some("json"), true));
    assert_eq!(file_uri("\\\\?\\C:\\a\\b.wav"), "file:///C:/a/b.wav");
}

#[test]
fn a_new_text_ends_the_recording_before_it() {
    let mut w = PiperWorker::new();
    let first = w.on_speak("a.wav", false);
    assert!(!first.kill && !first.play && first.remove.is_none());
    w.on_started("a.wav", true);
    assert!(w.active);
    let second = w.on_speak("b.wav", true);
    assert!(second.kill && second.play);
    assert_eq!(second.remove.as_deref(), Some("a.wav"));
    assert!(!w.active && w.pending.is_none());
}

#[test]
fn a_half_written_recording_is_never_played() {
    let mut w = PiperWorker::new();
    w.on_speak("a.wav", false);
    w.on_started("a.wav", true);
    // The file is there, but it is the one that is being written.
    let again = w.on_speak("a.wav", true);
    assert!(again.kill && !again.play);
    assert_eq!(again.remove.as_deref(), Some("a.wav"));
    w.on_started("a.wav", true);
    match w.on_check(ChildStatus::Failed) {
        CheckStep::Remove(f) => assert_eq!(f, "a.wav"),
        _ => panic!("nothing to remove"),
    }
    assert!(!w.active);
}

#[test]
fn a_recording_of_which_nothing_is_known_is_forgotten() {
    let mut w = PiperWorker::new();
    w.on_started("a.wav", true);
    assert!(matches!(w.on_check(ChildStatus::Unknown), CheckStep::Nothing));
    assert!(!w.active && w.pending.is_none());
}

#[test]
fn a_recording_is_played_when_it_is_done() {
    let mut w = PiperWorker::new();
    w.on_speak("a.wav", false);
    w.on_started("a.wav", true);
    assert!(matches!(w.on_check(ChildStatus::Running), CheckStep::Nothing));
    match w.on_check(ChildStatus::Done) {
        CheckStep::Play(f) => assert_eq!(f, "a.wav"),
        _ => panic!("nothing to play"),
    }
    assert!(!w.active);
}

#[test]
fn a_recording_that_failed_is_removed() {
    let mut w = PiperWorker::new();
    assert_eq!(w.wait_millis(), 500);
    w.on_started("a.wav", true);
    assert_eq!(w.wait_millis(), 30);
    match w.on_check(ChildStatus::Failed) {
        CheckStep::Remove(f) => assert_eq!(f, "a.wav"),
        _ => panic!("nothing to remove"),
    }
    w.on_started("b.wav", true);
    assert_eq!(w.on_stop(), (true, Some("b.wav".to_string())));
    assert_eq!(w.on_stop(), (false, None));
}

#[test]
fn images_are_known_by_their_ending() {
    for e in ["png", "PNG", "jpg", "JPEG"] {
        assert!(is_image_extension(Some(e)));
    }
    assert!(!is_image_extension(Some("txt")) && !is_image_extension(None));
    assert!(is_png_extension(Some("Png")) && !is_png_extension(Some("jpg")));
}

#[test]
fn the_size_of_an_image_is_in_its_first_bytes() {
    let mut header = vec![0x89, 0x50, 0x4e, 0x47, 0x0d, 0x0a, 0x1a, 0x0a];
    header.extend([0, 0, 0, 13, b'I', b'H', b'D', b'R', 0, 0, 5, 0x4e, 0, 0, 7, 0xf5]);
    assert_eq!(read_png_dims(&header), Some((1358, 2037)));
    assert_eq!(read_png_dims(&header[..23]), None);
    header[0] = 0;
    assert_eq!(read_png_dims(&header), None);
    assert_eq!(page_size(Some((0, 7))), (1, 7));
    assert_eq!(page_size(None), (1, 1));
    assert_eq!(empty_folder_error(true, "d"), "no images in d");
}

#[test]
fn a_folder_is_watched_once() {
    assert_eq!(plan_watch(true, true, true), WatchStep::Keep);
    assert_eq!(plan_watch(false, false, false), WatchStep::Stop);
    assert_eq!(plan_watch(false, true, false), WatchStep::Missing);
    assert_eq!(plan_watch(false, true, true), WatchStep::Watch);
}

#[test]
fn window_styles_are_set_bit_by_bit() {
    assert_eq!(click_through_style(1, true), 0x8_0021);
    assert_eq!(click_through_style(0x8_0021, false) & 0x20, 0);
    assert_eq!(layered_style(1), 0x8_0001);
}

#[test]
fn colours_are_blended_by_alpha() {
    let c = |r, g, b, a| Rgba { r, g, b, a };
    assert_eq!(blend(c(0, 100, 255, 255), c(255, 204, 51, 0x22)), c(34, 113, 227, 255));
    assert_eq!(blend(c(1, 2, 3, 4), c(9, 8, 7, 255)), c(9, 8, 7, 255));
}

#[test]
fn the_highlight_stays_inside_its_box() {
    let white = Rgba { r: 255, g: 255, b: 255, a: 255 };
    let yellow = Rgba { r: 0xff, g: 0xcc, b: 0x33, a: 0xff };
    let page = || Frame { width: 10, height: 10, pixels: vec![white; 100] };
    let drawn = render_kneeboard_frame(page(), Some([1, 1, 6, 20]));
    let at = |x: usize, y: usize| drawn.pixels[y * 10 + x];
    for y in 0..10 {
        for x in 0..10 {
            if x < 1 || x >= 7 || y < 1 {
                assert_eq!(at(x, y), white);
            }
        }
    }
    assert_eq!(at(1, 1), yellow);
    assert_eq!(at(2, 5), yellow);
    assert_eq!(at(3, 5), Rgba { r: 255, g: 248, b: 227, a: 255 });
    assert_eq!(at(4, 8), yellow);
    assert_eq!(render_kneeboard_frame(page(), None).pixels, page().pixels);
    // However far it reaches, it is clipped to the image.
    let far = render_kneeboard_frame(page(), Some([8, 8, u32::MAX, u32::MAX]));
    assert_eq!(far.pixels[88], yellow);
    assert_eq!(far.pixels[99], yellow);
    assert_eq!(far.pixels[77], white);
    assert_eq!(render_kneeboard_frame(page(), Some([10, 0, 5, 5])).pixels, page().pixels);
}

#[test]
fn the_test_picture_has_a_frame_and_a_cross() {
    let p = build_test_pattern();
    assert_eq!(p.len(), 256 * 256 * 4);
    let at = |x: usize, y: usize| p[(y * 256 + x) * 4..][..4].to_vec();
    assert_eq!(at(0, 128), [0xff, 0x33, 0x33, 0xff]);
    assert_eq!(at(252, 20), [0xff, 0x33, 0x33, 0xff]);
    assert_eq!(at(124, 20), [0, 0, 0, 0xff]);
    assert_eq!(at(131, 20), [0, 0, 0, 0xff]);
    assert_eq!(at(132, 20), [0xff, 0xcc, 0x33, 0xff]);
}

#[test]
fn the_board_follows_its_mode() {
    assert!(should_be_active("vr", false, false));
    assert!(!should_be_active("desktop", true, true));
    assert!(should_be_active("auto", true, true));
    assert!(!should_be_active("auto", true, false) && !should_be_active("auto", false, true));
}
