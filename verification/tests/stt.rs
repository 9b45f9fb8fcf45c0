use dcs_kneeboard::stt::{
    check_cpu_features, find_default_model, finish_transcript, gate_recording,
    inference_threads, is_known_hallucination, model_candidates, pad, Gate,
};

#[test]
fn known_hallucinations_caught() {
    assert!(is_known_hallucination("you"));
    assert!(is_known_hallucination("You"));
    assert!(is_known_hallucination("You."));
    assert!(is_known_hallucination(" You "));
    assert!(is_known_hallucination("Thank you"));
    assert!(is_known_hallucination("Thanks for watching"));
    assert!(is_known_hallucination("♪"));
}

#[test]
fn real_speech_passes() {
    assert!(!is_known_hallucination("next page"));
    assert!(!is_known_hallucination("go to AGM-65"));
    assert!(!is_known_hallucination("read it again"));
    // Only the whole text counts.
    assert!(!is_known_hallucination("are you ready"));
}

#[test]
fn short_and_quiet_recordings_are_dropped() {
    assert_eq!(gate_recording(0, true), Gate::Empty);
    assert_eq!(gate_recording(16_000, false), Gate::Silent);
    assert_eq!(gate_recording(7_999, true), Gate::TooShort);
    assert_eq!(gate_recording(8_000, true), Gate::Recognise(16_000));
    assert_eq!(gate_recording(20_000, true), Gate::Recognise(20_000));
}

#[test]
fn padding_adds_silence_at_the_end() {
    assert_eq!(pad(&[1, 2], 0, 4), vec![1, 2, 0, 0]);
    assert_eq!(pad(&[1, 2, 3], 0, 3), vec![1, 2, 3]);
}

#[test]
fn transcripts_are_joined_and_trimmed() {
    let segments = vec![" next".to_string(), " page ".to_string()];
    assert_eq!(finish_transcript(&segments), "next page");
    assert_eq!(finish_transcript(&vec![" You.".to_string()]), "");
    assert_eq!(finish_transcript(&Vec::new()), "");
}

#[test]
fn the_best_model_that_is_there_is_used() {
    assert_eq!(model_candidates().len(), 5);
    assert_eq!(
        find_default_model(&vec![false, true, true, false, false]).as_deref(),
        Some("models/ggml-small.en.bin")
    );
    assert_eq!(
        find_default_model(&vec![true; 5]).as_deref(),
        Some("models/ggml-base.en.bin")
    );
    assert_eq!(find_default_model(&vec![false; 5]), None);
}

#[test]
fn missing_processor_features_are_named() {
    assert_eq!(check_cpu_features(true, true, true), Ok(()));
    assert_eq!(
        check_cpu_features(false, false, false).unwrap_err(),
        "STT requires AVX2 + FMA + F16C; this CPU lacks AVX2 + FMA + F16C. \
         Use a CPU from 2014 (Haswell) or newer."
    );
    assert_eq!(
        check_cpu_features(true, false, true).unwrap_err(),
        "STT requires AVX2 + FMA + F16C; this CPU lacks FMA. \
         Use a CPU from 2014 (Haswell) or newer."
    );
}

#[test]
fn half_of_the_threads_recognise() {
    assert_eq!(inference_threads(None), 2);
    assert_eq!(inference_threads(Some(1)), 1);
    assert_eq!(inference_threads(Some(64)), 32);
}
