use typr::settings::{
    default_auto_polish, default_dock_color, default_dock_height_offset, default_dock_inset,
    default_dock_position, default_dock_shape, default_dock_size, default_dock_width_offset,
    default_model_mode, default_start_on_login, default_transcript_languages, default_transform,
    Settings, DEFAULT_HOTKEY, DEFAULT_TRANSCRIPT_MODEL_ID, DEFAULT_TRANSFORM_MODEL_ID,
    LEGACY_DEFAULT_HOTKEY,
};
use typr::transforms::{
    default_transforms, TextTransform, LEGACY_POLISH_PROMPT, LEGACY_PROMPT_ENGINEER_PROMPT,
    POLISH_PROMPT, PROMPT_ENGINEER_PROMPT,
};

fn transform(id: &str, name: &str, icon: &str, prompt: &str) -> TextTransform {
    TextTransform {
        id: id.to_string(),
        name: name.to_string(),
        icon: icon.to_string(),
        system_prompt: prompt.to_string(),
    }
}

#[test]
fn test_default_settings() {
    let settings = Settings::default();
    assert_eq!(settings.microphone, "default");
    assert_eq!(settings.engine, "local");
    assert_eq!(settings.whisper_model, "small");
    assert_eq!(settings.groq_api_key, "");
    assert_eq!(settings.transcript_model_mode, "default");
    assert_eq!(settings.transcript_model_id, "");
    assert_eq!(settings.transcript_model(), DEFAULT_TRANSCRIPT_MODEL_ID);
    assert_eq!(settings.transcript_languages, vec!["en"]);
    assert_eq!(settings.transform_model_mode, "default");
    assert_eq!(settings.transform_model_id, "");
    assert_eq!(settings.transform_model(), DEFAULT_TRANSFORM_MODEL_ID);
    assert!(settings.auto_polish);
    assert_eq!(settings.default_transform, "polish");
    assert_eq!(settings.transforms.len(), 2);
    assert_eq!(settings.transforms[0].name, "Polish");
    assert!(settings.transforms[0]
        .system_prompt
        .starts_with("Rewrite the selected text"));
    assert_eq!(settings.transforms[1].name, "Prompt Engineer");
    assert!(settings.transforms[1]
        .system_prompt
        .contains("Role & stance:"));
    assert_eq!(settings.recording_mode, "toggle");
    assert!(!settings.start_on_login);
    assert_eq!(settings.dock_size, "regular");
    assert_eq!(settings.dock_shape, "pill");
    assert_eq!(settings.dock_color, "charcoal");
    assert_eq!(settings.dock_position, "bottom-center");
    assert_eq!(settings.dock_inset, 0);
    assert_eq!(settings.dock_width_offset, 0);
    assert_eq!(settings.dock_height_offset, 0);
    assert_eq!(settings.hotkey, "Ctrl+Option+Space");
}

#[test]
fn test_normalize_transforms_repairs_missing_default() {
    let mut settings = Settings::default();
    settings.default_transform = "missing".to_string();
    settings.transforms = vec![transform("custom", "Custom", "pen", "Rewrite clearly.")];

    settings.normalize_transforms();

    assert_eq!(settings.default_transform, "custom");
    assert_eq!(settings.selected_transform().unwrap().name, "Custom");
}

#[test]
fn test_normalize_transforms_migrates_legacy_default_prompts() {
    let mut settings = Settings::default();
    settings.transforms = vec![
        transform("polish", "Polish", "sparkles", LEGACY_POLISH_PROMPT),
        transform("promptEngineer", "Prompt Engineer", "blocks", LEGACY_PROMPT_ENGINEER_PROMPT),
        transform("custom", "Custom", "pen", "Custom prompt."),
    ];

    settings.normalize_transforms();

    assert_eq!(settings.transforms[0].system_prompt, POLISH_PROMPT);
    assert_eq!(settings.transforms[1].system_prompt, PROMPT_ENGINEER_PROMPT);
    assert_eq!(settings.transforms[2].system_prompt, "Custom prompt.");
}

#[test]
fn test_normalize_dock_preferences_repairs_invalid_values() {
    let mut settings = Settings::default();
    settings.dock_size = "huge".to_string();
    settings.dock_shape = "blob".to_string();
    settings.dock_color = "neon".to_string();
    settings.dock_position = "middle".to_string();
    settings.dock_inset = 87;
    settings.dock_width_offset = 83;
    settings.dock_height_offset = -15;

    settings.normalize_dock_preferences();

    assert_eq!(settings.dock_size, "regular");
    assert_eq!(settings.dock_shape, "pill");
    assert_eq!(settings.dock_color, "charcoal");
    assert_eq!(settings.dock_position, "bottom-center");
    assert_eq!(settings.dock_inset, 80);
    assert_eq!(settings.dock_width_offset, 80);
    assert_eq!(settings.dock_height_offset, -12);
}

#[test]
fn test_normalize_language_preferences_repairs_invalid_values() {
    let mut settings = Settings::default();
    settings.transcript_languages = vec![
        "UR".to_string(),
        "invalid".to_string(),
        "en".to_string(),
        "ur".to_string(),
        " yue ".to_string(),
    ];

    settings.normalize_language_preferences();

    assert_eq!(settings.transcript_languages, vec!["ur", "en", "yue"]);
}

#[test]
fn test_normalize_language_preferences_falls_back_to_english() {
    let mut settings = Settings::default();
    settings.transcript_languages = vec!["invalid".to_string()];

    settings.normalize_language_preferences();

    assert_eq!(settings.transcript_languages, vec!["en"]);
}

#[test]
fn test_normalize_dock_preferences_allows_outward_offset() {
    let mut settings = Settings::default();
    settings.dock_inset = -34;

    settings.normalize_dock_preferences();

    assert_eq!(settings.dock_inset, -30);
}

#[test]
fn test_normalize_model_preferences_repairs_invalid_values() {
    let mut settings = Settings::default();
    settings.transcript_model_mode = "manual".to_string();
    settings.transcript_model_id = "  whisper-large-v3  ".to_string();
    settings.transform_model_mode = "manual".to_string();
    settings.transform_model_id = "  llama-3.1-8b-instant  ".to_string();

    settings.normalize_model_preferences();

    assert_eq!(settings.transcript_model_mode, "default");
    assert_eq!(settings.transcript_model_id, "whisper-large-v3");
    assert_eq!(settings.transcript_model(), DEFAULT_TRANSCRIPT_MODEL_ID);
    assert_eq!(settings.transform_model_mode, "default");
    assert_eq!(settings.transform_model_id, "llama-3.1-8b-instant");
    assert_eq!(settings.transform_model(), DEFAULT_TRANSFORM_MODEL_ID);
}

#[test]
fn custom_model_mode_selects_trimmed_custom_ids() {
    let mut settings = Settings::default();
    settings.transcript_model_mode = "custom".to_string();
    settings.transcript_model_id = "  whisper-large-v3  ".to_string();
    settings.transform_model_mode = "custom".to_string();
    settings.transform_model_id = "llama-3.3-70b-versatile".to_string();

    settings.normalize_model_preferences();

    assert_eq!(settings.transcript_model(), "whisper-large-v3");
    assert_eq!(settings.transform_model(), "llama-3.3-70b-versatile");
}

#[test]
fn custom_model_mode_with_blank_id_falls_back_to_default_model() {
    let mut settings = Settings::default();
    settings.transcript_model_mode = "custom".to_string();
    settings.transcript_model_id = "   ".to_string();
    assert_eq!(settings.transcript_model(), DEFAULT_TRANSCRIPT_MODEL_ID);
}

#[test]
fn dock_offsets_are_clamped_and_rounded_to_their_steps() {
    let mut settings = Settings::default();
    settings.dock_inset = 15;
    settings.dock_width_offset = -100;
    settings.dock_height_offset = 41;

    settings.normalize_dock_preferences();

    assert_eq!(settings.dock_inset, 20);
    assert_eq!(settings.dock_width_offset, -20);
    assert_eq!(settings.dock_height_offset, 24);

    settings.dock_inset = -25;
    settings.dock_height_offset = 6;
    settings.normalize_dock_preferences();
    assert_eq!(settings.dock_inset, -30);
    assert_eq!(settings.dock_height_offset, 8);
}

#[test]
fn known_dock_values_are_kept() {
    let mut settings = Settings::default();
    settings.dock_size = "large".to_string();
    settings.dock_shape = "rounded".to_string();
    settings.dock_color = "moss".to_string();
    settings.dock_position = "top-right".to_string();

    settings.normalize_dock_preferences();

    assert_eq!(settings.dock_size, "large");
    assert_eq!(settings.dock_shape, "rounded");
    assert_eq!(settings.dock_color, "moss");
    assert_eq!(settings.dock_position, "top-right");
}

#[test]
fn blank_transform_fields_take_the_default_at_their_position() {
    let mut settings = Settings::default();
    settings.transforms = vec![
        transform("  ", "Gone", "x", "Dropped."),
        transform(" mine ", "  ", " ", "  "),
    ];
    settings.default_transform = "mine".to_string();

    settings.normalize_transforms();

    assert_eq!(settings.transforms.len(), 1);
    assert_eq!(settings.transforms[0].id, "mine");
    assert_eq!(settings.transforms[0].name, "Prompt Engineer");
    assert_eq!(settings.transforms[0].icon, "blocks");
    assert_eq!(settings.transforms[0].system_prompt, PROMPT_ENGINEER_PROMPT);
    assert_eq!(settings.default_transform, "mine");
}

#[test]
fn empty_transform_list_is_replaced_by_the_defaults() {
    let mut settings = Settings::default();
    settings.transforms = vec![];
    settings.default_transform = "promptEngineer".to_string();

    settings.normalize_transforms();

    assert_eq!(settings.transforms, default_transforms());
    assert_eq!(settings.default_transform, "promptEngineer");
    assert_eq!(settings.selected_transform().unwrap().name, "Prompt Engineer");
}

#[test]
fn normalize_is_idempotent_on_a_messy_settings_value() {
    let mut settings = Settings::default();
    settings.transcript_languages = vec!["FR".to_string(), "xx".to_string(), "fr".to_string()];
    settings.dock_inset = 99;
    settings.dock_color = "neon".to_string();
    settings.transcript_model_mode = "weird".to_string();
    settings.transforms = vec![transform(" a ", "", "", "")];

    settings.normalize();
    let once = settings.clone();
    settings.normalize();

    assert_eq!(settings, once);
    assert_eq!(once.transcript_languages, vec!["fr"]);
    assert_eq!(once.dock_inset, 80);
    assert_eq!(once.default_transform, "a");
}

#[test]
fn default_settings_are_already_normalized() {
    let mut settings = Settings::default();
    settings.normalize();
    assert_eq!(settings, Settings::default());
}

#[test]
fn legacy_default_hotkey_is_migrated_and_others_kept() {
    let mut settings = Settings::default();
    settings.hotkey = LEGACY_DEFAULT_HOTKEY.to_string();
    settings.migrate_legacy_hotkey();
    assert_eq!(settings.hotkey, DEFAULT_HOTKEY);

    settings.hotkey = "Cmd+K".to_string();
    settings.migrate_legacy_hotkey();
    assert_eq!(settings.hotkey, "Cmd+K");
}

#[test]
fn missing_stored_settings_load_as_defaults() {
    assert_eq!(Settings::from_stored(None), Settings::default());
}

#[test]
fn stored_settings_load_normalized_with_hotkey_migrated() {
    let mut stored = Settings::default();
    stored.hotkey = LEGACY_DEFAULT_HOTKEY.to_string();
    stored.dock_size = "huge".to_string();
    stored.groq_api_key = "test-key-123".to_string();

    let loaded = Settings::from_stored(Some(stored));

    assert_eq!(loaded.hotkey, DEFAULT_HOTKEY);
    assert_eq!(loaded.dock_size, "regular");
    assert_eq!(loaded.groq_api_key, "test-key-123");
}

#[test]
fn saved_normalized_settings_load_back_unchanged() {
    let mut settings = Settings::default();
    settings.engine = "cloud".to_string();
    settings.dock_size = "large".to_string();
    settings.dock_inset = 12;
    settings.transcript_languages = vec!["ur".to_string(), "en".to_string()];
    settings.normalize();

    assert_eq!(Settings::from_stored(Some(settings.clone())), settings);
}

#[test]
fn config_path_is_config_json_in_the_app_dir() {
    assert_eq!(Settings::config_path("/tmp/typr"), "/tmp/typr/config.json");
}

#[test]
fn default_value_functions_match_the_defaults() {
    assert!(default_auto_polish());
    assert!(!default_start_on_login());
    assert_eq!(default_transform(), "polish");
    assert_eq!(default_dock_size(), "regular");
    assert_eq!(default_dock_shape(), "pill");
    assert_eq!(default_dock_color(), "charcoal");
    assert_eq!(default_dock_position(), "bottom-center");
    assert_eq!(default_dock_inset(), 0);
    assert_eq!(default_dock_width_offset(), 0);
    assert_eq!(default_dock_height_offset(), 0);
    assert_eq!(default_model_mode(), "default");
    assert_eq!(default_transcript_languages(), vec!["en"]);
}

#[test]
fn selected_transform_falls_back_to_the_first_transform() {
    let mut settings = Settings::default();
    settings.default_transform = "nothing".to_string();
    assert_eq!(settings.selected_transform().unwrap().id, "polish");
    settings.transforms = vec![];
    assert!(settings.selected_transform().is_none());
}
