use typr::audio::RecordingSaveResult;
use typr::recorder::{transcription_request, TranscriptionRequest, dictation_step, hotkey_response, Dictation, DictationAction, DictationEvent, DictationStage, HotkeyResponse};
use typr::settings::Settings;
use typr::history::TranscriptTransformHistory;
use typr::hotkey::ShortcutTransition;
use typr::recorder::{
    cleanup_text, dictation_result, hotkey_action, needs_paste, overlay_state_script, paste_status,
    recording_state_name, resolve_transform, select_engine, toggle_action, wants_transform,
    HotkeyAction, Recorder, RecordingState, ToggleAction, TranscriptionEngine,
    ALREADY_BUSY_ERROR, NOT_RECORDING_ERROR, STILL_TRANSCRIBING_ERROR,
};
use typr::transforms::TextTransform;

fn polish() -> TextTransform {
    TextTransform {
        id: "polish".to_string(),
        name: "Polish".to_string(),
        icon: "sparkles".to_string(),
        system_prompt: "Polish text.".to_string(),
    }
}

#[test]
fn test_initial_state_is_ready() {
    let recorder = Recorder::new();
    assert_eq!(recorder.get_state(), RecordingState::Ready);
}

#[test]
fn a_dictation_goes_ready_recording_transcribing_ready() {
    let mut recorder = Recorder::new();
    assert_eq!(recorder.check_start(), Ok(()));
    assert_eq!(recorder.start_recording(Ok(())), Ok(()));
    assert_eq!(recorder.get_state(), RecordingState::Recording);
    assert_eq!(recorder.check_start(), Err(ALREADY_BUSY_ERROR.to_string()));
    assert_eq!(recorder.begin_stop(), Ok(()));
    assert_eq!(recorder.get_state(), RecordingState::Transcribing);
    assert_eq!(recorder.cancel_recording(), Err(NOT_RECORDING_ERROR.to_string()));
    assert_eq!(recorder.begin_stop(), Err(NOT_RECORDING_ERROR.to_string()));
    recorder.finish_stop();
    assert_eq!(recorder.get_state(), RecordingState::Ready);
}

#[test]
fn a_failed_audio_start_stays_ready_with_its_error() {
    let mut recorder = Recorder::new();
    assert_eq!(
        recorder.start_recording(Err("No default input device found".to_string())),
        Err("No default input device found".to_string())
    );
    assert_eq!(recorder.get_state(), RecordingState::Ready);
}

#[test]
fn cancel_returns_a_recording_to_ready() {
    let mut recorder = Recorder::new();
    assert_eq!(recorder.cancel_recording(), Err(NOT_RECORDING_ERROR.to_string()));
    recorder.start_recording(Ok(())).unwrap();
    assert_eq!(recorder.cancel_recording(), Ok(()));
    assert_eq!(recorder.get_state(), RecordingState::Ready);
}

#[test]
fn starting_twice_is_refused() {
    let mut recorder = Recorder::new();
    recorder.start_recording(Ok(())).unwrap();
    assert_eq!(recorder.start_recording(Ok(())), Err(ALREADY_BUSY_ERROR.to_string()));
    assert_eq!(recorder.get_state(), RecordingState::Recording);
}

#[test]
fn state_names_and_overlay_script() {
    assert_eq!(recording_state_name(RecordingState::Ready), "ready");
    assert_eq!(recording_state_name(RecordingState::Recording), "recording");
    assert_eq!(recording_state_name(RecordingState::Transcribing), "transcribing");
    assert_eq!(
        overlay_state_script("polishing"),
        "window.setTyprState && window.setTyprState('polishing');"
    );
}

#[test]
fn toggle_follows_the_state() {
    assert_eq!(toggle_action(RecordingState::Ready), ToggleAction::Start);
    assert_eq!(toggle_action(RecordingState::Recording), ToggleAction::StopAndTranscribe);
    assert_eq!(
        toggle_action(RecordingState::Transcribing),
        ToggleAction::Busy(STILL_TRANSCRIBING_ERROR.to_string())
    );
}

#[test]
fn hotkey_actions_depend_on_the_recording_mode() {
    assert_eq!(hotkey_action("toggle", ShortcutTransition::Pressed), HotkeyAction::Toggle);
    assert_eq!(hotkey_action("toggle", ShortcutTransition::Released), HotkeyAction::Ignore);
    assert_eq!(
        hotkey_action("push-to-talk", ShortcutTransition::Pressed),
        HotkeyAction::StartIfReady
    );
    assert_eq!(
        hotkey_action("push-to-talk", ShortcutTransition::Released),
        HotkeyAction::StopIfRecording
    );
    assert_eq!(hotkey_action("other", ShortcutTransition::Pressed), HotkeyAction::Ignore);
}

#[test]
fn engines_are_local_or_cloud() {
    assert_eq!(select_engine("local"), Ok(TranscriptionEngine::Local));
    assert_eq!(select_engine("cloud"), Ok(TranscriptionEngine::Cloud));
    assert_eq!(select_engine("edge"), Err("Unknown engine: edge".to_string()));
}

#[test]
fn transcripts_are_cleaned_and_transformed_only_when_not_empty() {
    assert_eq!(cleanup_text("  hello \n"), "hello");
    assert!(wants_transform(true, "hello"));
    assert!(!wants_transform(true, ""));
    assert!(!wants_transform(false, "hello"));
}

#[test]
fn an_applied_transform_keeps_its_cleaned_output() {
    let resolution = resolve_transform(
        &polish(),
        "openai/gpt-oss-120b".to_string(),
        "raw words".to_string(),
        Ok("  Final words.  ".to_string()),
    );
    assert_eq!(resolution.final_text, "Final words.");
    assert_eq!(
        resolution.record,
        TranscriptTransformHistory {
            id: "polish".to_string(),
            name: "Polish".to_string(),
            icon: "sparkles".to_string(),
            model: "openai/gpt-oss-120b".to_string(),
            system_prompt: "Polish text.".to_string(),
            input_text: "raw words".to_string(),
            output_text: "Final words.".to_string(),
            status: "applied".to_string(),
            error: String::new(),
        }
    );
}

#[test]
fn a_blank_transform_output_keeps_the_input() {
    let resolution =
        resolve_transform(&polish(), "m".to_string(), "raw".to_string(), Ok("   ".to_string()));
    assert_eq!(resolution.final_text, "raw");
    assert_eq!(resolution.record.output_text, "raw");
    assert_eq!(resolution.record.status, "applied");
}

#[test]
fn a_failed_transform_keeps_the_input_and_records_the_error() {
    let resolution = resolve_transform(
        &polish(),
        "m".to_string(),
        "raw".to_string(),
        Err("Groq polish error (500): x".to_string()),
    );
    assert_eq!(resolution.final_text, "raw");
    assert_eq!(resolution.record.output_text, "");
    assert_eq!(resolution.record.status, "failed");
    assert_eq!(resolution.record.error, "Groq polish error (500): x");
}

#[test]
fn paste_status_and_result() {
    assert!(!needs_paste(""));
    assert!(needs_paste("x"));
    assert_eq!(paste_status("", &Ok(())), "skipped");
    assert_eq!(paste_status("x", &Ok(())), "pasted");
    assert_eq!(paste_status("x", &Err("no".to_string())), "failed");
    assert_eq!(dictation_result("x".to_string(), Ok(())), Ok("x".to_string()));
    assert_eq!(
        dictation_result("x".to_string(), Err("no".to_string())),
        Err("no".to_string())
    );
}


fn saved(silent: bool) -> DictationEvent {
    DictationEvent::Saved(Ok(RecordingSaveResult { should_cancel_transcription: silent }))
}

#[test]
fn hotkey_responses_follow_mode_and_state() {
    let (pressed, released) = (ShortcutTransition::Pressed, ShortcutTransition::Released);
    assert_eq!(hotkey_response("toggle", pressed, RecordingState::Ready), HotkeyResponse::Start);
    assert_eq!(
        hotkey_response("toggle", pressed, RecordingState::Recording),
        HotkeyResponse::StopAndTranscribe
    );
    assert_eq!(
        hotkey_response("toggle", pressed, RecordingState::Transcribing),
        HotkeyResponse::Busy(STILL_TRANSCRIBING_ERROR.to_string())
    );
    assert_eq!(hotkey_response("toggle", released, RecordingState::Recording), HotkeyResponse::Nothing);
    assert_eq!(hotkey_response("push-to-talk", pressed, RecordingState::Ready), HotkeyResponse::Start);
    assert_eq!(hotkey_response("push-to-talk", pressed, RecordingState::Recording), HotkeyResponse::Nothing);
    assert_eq!(
        hotkey_response("push-to-talk", released, RecordingState::Recording),
        HotkeyResponse::StopAndTranscribe
    );
    assert_eq!(hotkey_response("push-to-talk", released, RecordingState::Ready), HotkeyResponse::Nothing);
}

#[test]
fn a_silent_take_is_not_transcribed_or_kept() {
    let settings = Settings::default();
    let mut d = Dictation::new();
    match dictation_step(&mut d, &settings, saved(true)) {
        DictationAction::Finish { entry, result } => {
            assert!(entry.is_none());
            assert_eq!(result, Ok(String::new()));
        }
        _ => panic!("expected the dictation to finish"),
    }
    assert_eq!(d.stage, DictationStage::Done);
}

#[test]
fn a_failed_save_ends_with_its_error() {
    let settings = Settings::default();
    let mut d = Dictation::new();
    match dictation_step(&mut d, &settings, DictationEvent::Saved(Err("No audio captured".to_string()))) {
        DictationAction::Finish { entry, result } => {
            assert!(entry.is_none());
            assert_eq!(result, Err("No audio captured".to_string()));
        }
        _ => panic!("expected the dictation to finish"),
    }
}

#[test]
fn an_unknown_engine_ends_the_dictation() {
    let mut settings = Settings::default();
    settings.engine = "edge".to_string();
    let mut d = Dictation::new();
    match dictation_step(&mut d, &settings, saved(false)) {
        DictationAction::Finish { entry, result } => {
            assert!(entry.is_none());
            assert_eq!(result, Err("Unknown engine: edge".to_string()));
        }
        _ => panic!("expected the dictation to finish"),
    }
}

#[test]
fn a_full_dictation_transcribes_transforms_pastes_and_keeps_history() {
    let mut settings = Settings::default();
    settings.engine = "cloud".to_string();
    let mut d = Dictation::new();
    match dictation_step(&mut d, &settings, saved(false)) {
        DictationAction::Transcribe(TranscriptionRequest::Cloud { api_key, model, languages }) => {
            assert_eq!(api_key, "");
            assert_eq!(model, "whisper-large-v3-turbo");
            assert_eq!(languages, vec!["en"]);
        }
        _ => panic!("expected a cloud transcription"),
    }
    match dictation_step(&mut d, &settings, DictationEvent::Transcribed(Ok("  raw words ".to_string()))) {
        DictationAction::Transform { transform, model, input } => {
            assert_eq!(transform.id, "polish");
            assert_eq!(model, "openai/gpt-oss-120b");
            assert_eq!(input, "raw words");
        }
        _ => panic!("expected a transform"),
    }
    // A wrong event changes nothing.
    assert!(matches!(
        dictation_step(&mut d, &settings, DictationEvent::Pasted(Ok(()))),
        DictationAction::Wait
    ));
    assert_eq!(d.stage, DictationStage::Transforming);
    match dictation_step(&mut d, &settings, DictationEvent::Transformed(Ok(" Final words. ".to_string()))) {
        DictationAction::Paste(text) => assert_eq!(text, "Final words."),
        _ => panic!("expected a paste"),
    }
    match dictation_step(&mut d, &settings, DictationEvent::Pasted(Err("no access".to_string()))) {
        DictationAction::Finish { entry, result } => {
            assert_eq!(result, Err("no access".to_string()));
            let entry = entry.expect("an entry is kept when the paste fails");
            assert_eq!(entry.engine, "cloud");
            assert_eq!(entry.raw_transcript, "  raw words ");
            assert_eq!(entry.cleaned_transcript, "raw words");
            assert_eq!(entry.final_text, "Final words.");
            assert_eq!(entry.paste_status, "failed");
            assert_eq!(entry.transcript_languages, vec!["en"]);
            assert_eq!(entry.transform.unwrap().status, "applied");
            assert_eq!(entry.id, format!("history-{}", entry.created_at));
        }
        _ => panic!("expected the dictation to finish"),
    }
    assert_eq!(d.stage, DictationStage::Done);
}

#[test]
fn an_empty_transcript_is_not_pasted_but_kept() {
    let settings = Settings::default();
    let mut d = Dictation::new();
    match dictation_step(&mut d, &settings, saved(false)) {
        DictationAction::Transcribe(TranscriptionRequest::Local { model_file, languages }) => {
            assert_eq!(model_file, "ggml-small.bin");
            assert_eq!(languages, vec!["en"]);
        }
        _ => panic!("expected a local transcription"),
    }
    match dictation_step(&mut d, &settings, DictationEvent::Transcribed(Ok("   ".to_string()))) {
        DictationAction::Finish { entry, result } => {
            assert_eq!(result, Ok(String::new()));
            let entry = entry.unwrap();
            assert_eq!(entry.paste_status, "skipped");
            assert!(entry.transform.is_none());
        }
        _ => panic!("expected the dictation to finish"),
    }
}

#[test]
fn without_transforms_the_transcript_is_pasted_as_cleaned() {
    let mut settings = Settings::default();
    settings.auto_polish = false;
    let mut d = Dictation::new();
    dictation_step(&mut d, &settings, saved(false));
    match dictation_step(&mut d, &settings, DictationEvent::Transcribed(Ok(" hi ".to_string()))) {
        DictationAction::Paste(text) => assert_eq!(text, "hi"),
        _ => panic!("expected a paste"),
    }
    match dictation_step(&mut d, &settings, DictationEvent::Pasted(Ok(()))) {
        DictationAction::Finish { entry, result } => {
            assert_eq!(result, Ok("hi".to_string()));
            assert_eq!(entry.unwrap().paste_status, "pasted");
        }
        _ => panic!("expected the dictation to finish"),
    }
}

#[test]
fn a_failed_transform_pastes_the_cleaned_transcript() {
    let mut settings = Settings::default();
    settings.engine = "cloud".to_string();
    let mut d = Dictation::new();
    dictation_step(&mut d, &settings, saved(false));
    dictation_step(&mut d, &settings, DictationEvent::Transcribed(Ok("raw".to_string())));
    match dictation_step(&mut d, &settings, DictationEvent::Transformed(Err("down".to_string()))) {
        DictationAction::Paste(text) => assert_eq!(text, "raw"),
        _ => panic!("expected a paste"),
    }
    assert_eq!(d.transform_record.as_ref().unwrap().error, "down");
}

#[test]
fn transcription_requests_follow_the_settings() {
    let mut settings = Settings::default();
    settings.whisper_model = "medium".to_string();
    settings.transcript_languages = vec!["ur".to_string(), "en".to_string()];
    match transcription_request(&settings) {
        Ok(TranscriptionRequest::Local { model_file, languages }) => {
            assert_eq!(model_file, "ggml-medium.bin");
            assert_eq!(languages, vec!["ur", "en"]);
        }
        _ => panic!("expected a local request"),
    }
    settings.engine = "cloud".to_string();
    settings.groq_api_key = "k".to_string();
    settings.transcript_model_mode = "custom".to_string();
    settings.transcript_model_id = "whisper-large-v3".to_string();
    match transcription_request(&settings) {
        Ok(TranscriptionRequest::Cloud { api_key, model, languages }) => {
            assert_eq!(api_key, "k");
            assert_eq!(model, "whisper-large-v3");
            assert_eq!(languages, vec!["ur", "en"]);
        }
        _ => panic!("expected a cloud request"),
    }
    settings.engine = "edge".to_string();
    assert!(matches!(transcription_request(&settings), Err(e) if e == "Unknown engine: edge"));
}
