use typr::history::{
    append_history, audio_filename_for_entry, audio_path_for_filename, history_audio_dir,
    history_audio_destination, history_audio_path, history_from_stored, history_path, sort_newest_first, wav_audio_record,
    TranscriptAudioHistory, TranscriptHistoryEntry, TranscriptTransformHistory,
    ENTRY_NOT_FOUND_ERROR, INVALID_AUDIO_FILE_ERROR, INVALID_ENTRY_ID_ERROR, NO_AUDIO_ERROR,
};
use typr::clock::now_millis;

fn sample_entry(created_at: u64) -> TranscriptHistoryEntry {
    TranscriptHistoryEntry::new_at(
        created_at,
        "cloud".to_string(),
        "default".to_string(),
        "whisper-large-v3-turbo".to_string(),
        "small".to_string(),
        vec!["en".to_string(), "ur".to_string()],
        "raw words".to_string(),
        "Raw words.".to_string(),
        "Final words.".to_string(),
        Some(TranscriptTransformHistory {
            id: "polish".to_string(),
            name: "Polish".to_string(),
            icon: "sparkles".to_string(),
            model: "openai/gpt-oss-120b".to_string(),
            system_prompt: "Polish text.".to_string(),
            input_text: "Raw words.".to_string(),
            output_text: "Final words.".to_string(),
            status: "applied".to_string(),
            error: String::new(),
        }),
        "pasted".to_string(),
    )
}

#[test]
fn entries_are_named_by_their_creation_time() {
    let entry = sample_entry(1234567);
    assert_eq!(entry.id, "history-1234567");
    assert_eq!(entry.created_at, 1234567);
    assert_eq!(entry.audio, None);
    assert_eq!(sample_entry(0).id, "history-0");
    assert_eq!(sample_entry(u64::MAX).id, format!("history-{}", u64::MAX));
}

#[test]
fn new_entries_use_the_current_time() {
    let before = now_millis();
    let entry = TranscriptHistoryEntry::new(
        "local".to_string(),
        "default".to_string(),
        "whisper-large-v3-turbo".to_string(),
        "small".to_string(),
        vec!["en".to_string()],
        "raw".to_string(),
        "raw".to_string(),
        "raw".to_string(),
        None,
        "skipped".to_string(),
    );
    let after = now_millis();
    assert!(before > 1_600_000_000_000);
    assert!(before <= entry.created_at && entry.created_at <= after);
    assert_eq!(entry.id, format!("history-{}", entry.created_at));
}

#[test]
fn appended_and_loaded_history_is_newest_first() {
    let mut history = Vec::new();
    append_history(&mut history, sample_entry(100));
    append_history(&mut history, sample_entry(200));
    let loaded = history_from_stored(Some(history));
    assert_eq!(loaded.len(), 2);
    assert_eq!(loaded[0].created_at, 200);
    assert_eq!(loaded[1].created_at, 100);
    assert_eq!(loaded[0].transform.as_ref().unwrap().output_text, "Final words.");
}

#[test]
fn sorting_is_newest_first_and_stable() {
    let mut a = sample_entry(5);
    a.final_text = "first five".to_string();
    let mut b = sample_entry(5);
    b.final_text = "second five".to_string();
    let sorted = sort_newest_first(vec![sample_entry(1), a, sample_entry(9), b, sample_entry(3)]);
    let times: Vec<u64> = sorted.iter().map(|e| e.created_at).collect();
    assert_eq!(times, vec![9, 5, 5, 3, 1]);
    assert_eq!(sorted[1].final_text, "first five");
    assert_eq!(sorted[2].final_text, "second five");
}

#[test]
fn unreadable_history_loads_as_empty() {
    assert!(history_from_stored(None).is_empty());
}

#[test]
fn history_files_live_in_the_app_dir() {
    assert_eq!(history_path("/data/typr"), "/data/typr/history.json");
    assert_eq!(history_audio_dir("/data/typr/"), "/data/typr/history-audio");
}

#[test]
fn audio_file_names_need_safe_entry_ids() {
    assert_eq!(audio_filename_for_entry("history-300"), Ok("history-300.wav".to_string()));
    assert_eq!(audio_filename_for_entry("a_B-9"), Ok("a_B-9.wav".to_string()));
    assert_eq!(audio_filename_for_entry(""), Err(INVALID_ENTRY_ID_ERROR.to_string()));
    assert_eq!(audio_filename_for_entry("../x"), Err(INVALID_ENTRY_ID_ERROR.to_string()));
    assert_eq!(audio_filename_for_entry("é"), Err(INVALID_ENTRY_ID_ERROR.to_string()));
}

#[test]
fn audio_paths_accept_plain_wav_names_only() {
    assert_eq!(
        audio_path_for_filename("/data", "history-300.wav"),
        Ok("/data/history-audio/history-300.wav".to_string())
    );
    assert_eq!(
        audio_path_for_filename("/data", "../secret.wav"),
        Err(INVALID_AUDIO_FILE_ERROR.to_string())
    );
    assert_eq!(
        audio_path_for_filename("/data", "clip.mp3"),
        Err(INVALID_AUDIO_FILE_ERROR.to_string())
    );
    assert_eq!(audio_path_for_filename("/data", ""), Err(INVALID_AUDIO_FILE_ERROR.to_string()));
}

#[test]
fn history_audio_is_looked_up_by_entry_id() {
    let mut with_audio = sample_entry(300);
    with_audio.audio = Some(wav_audio_record("history-300.wav".to_string(), 8));
    let mut bad_audio = sample_entry(400);
    bad_audio.audio = Some(TranscriptAudioHistory {
        file_name: "../x.wav".to_string(),
        mime_type: "audio/wav".to_string(),
        size_bytes: 1,
    });
    let history = vec![with_audio, sample_entry(200), bad_audio];

    assert_eq!(
        history_audio_path("/d", &history, "history-300"),
        Ok("/d/history-audio/history-300.wav".to_string())
    );
    assert_eq!(
        history_audio_path("/d", &history, "history-200"),
        Err(NO_AUDIO_ERROR.to_string())
    );
    assert_eq!(
        history_audio_path("/d", &history, "history-400"),
        Err(INVALID_AUDIO_FILE_ERROR.to_string())
    );
    assert_eq!(
        history_audio_path("/d", &history, "history-999"),
        Err(ENTRY_NOT_FOUND_ERROR.to_string())
    );
}

#[test]
fn wav_records_carry_the_wav_mime_type() {
    let record = wav_audio_record("history-1.wav".to_string(), 42);
    assert_eq!(record.mime_type, "audio/wav");
    assert_eq!(record.size_bytes, 42);
}

#[test]
fn an_appended_entry_comes_before_older_and_same_time_entries() {
    let mut older_same = sample_entry(200);
    older_same.final_text = "already there".to_string();
    let mut history = history_from_stored(Some(vec![sample_entry(100), older_same, sample_entry(300)]));
    let mut new_entry = sample_entry(200);
    new_entry.final_text = "new".to_string();
    append_history(&mut history, new_entry);
    let loaded = history_from_stored(Some(history));
    let texts: Vec<(u64, String)> =
        loaded.iter().map(|e| (e.created_at, e.final_text.clone())).collect();
    assert_eq!(
        texts,
        vec![
            (300, "Final words.".to_string()),
            (200, "new".to_string()),
            (200, "already there".to_string()),
            (100, "Final words.".to_string()),
        ]
    );
}

#[test]
fn a_stored_recording_is_looked_up_where_it_was_stored() {
    let (name, path) = history_audio_destination("/d", "history-300").unwrap();
    assert_eq!(name, "history-300.wav");
    assert_eq!(path, "/d/history-audio/history-300.wav");
    let mut entry = sample_entry(300);
    entry.audio = Some(wav_audio_record(name, 8));
    assert_eq!(history_audio_path("/d", &vec![entry], "history-300"), Ok(path));
    assert_eq!(
        history_audio_destination("/d", "../x"),
        Err(INVALID_ENTRY_ID_ERROR.to_string())
    );
}
