use typr::transcribe_groq::{
    check_groq_api_key, transcription_form_fields, transcription_language_hint,
    transcription_response_text, transform_request_body, transform_request_plan,
    transform_response_text, transform_user_message, TranscriptionLanguageHint, TransformPlan,
    GROQ_KEY_MISSING_ERROR,
};
use typr::transcribe_local::{
    model_download_url, model_filename, transcription_args, transcription_language_code,
    transcription_language_prompt, whisper_output_text,
};

fn strings(v: &[&str]) -> Vec<String> {
    v.iter().map(|s| s.to_string()).collect()
}

#[test]
fn test_transcription_language_hint_single_language() {
    assert_eq!(
        transcription_language_hint(&["ur".to_string()]),
        TranscriptionLanguageHint {
            language: Some("ur".to_string()),
        }
    );
}

#[test]
fn test_transcription_language_hint_multiple_languages() {
    let hint = transcription_language_hint(&["en".to_string(), "ur".to_string()]);
    assert_eq!(hint.language, None);
}

#[test]
fn test_transform_user_message_wraps_input() {
    let message = transform_user_message("hi");
    assert!(message.starts_with("Text to transform:"));
    assert!(message.contains("Transformed text:"));
}

#[test]
fn test_model_filename() {
    assert_eq!(model_filename("small"), "ggml-small.bin");
    assert_eq!(model_filename("medium"), "ggml-medium.bin");
}

#[test]
fn test_model_download_url() {
    assert_eq!(
        model_download_url("small"),
        "https://huggingface.co/ggerganov/whisper.cpp/resolve/main/ggml-small.bin"
    );
}

#[test]
fn test_transcription_language_code_single_language() {
    assert_eq!(transcription_language_code(&["ur".to_string()]), "ur");
}

#[test]
fn test_transcription_args_use_auto_and_prompt_for_multiple_languages() {
    let args = transcription_args(
        "/models/ggml-small.bin",
        "/audio.wav",
        &["en".to_string(), "ur".to_string()],
    );

    assert!(args.windows(2).any(|pair| pair == ["-l", "auto"]));
    assert!(args.iter().any(|arg| arg.contains("en, ur")));
}

#[test]
fn test_empty_api_key() {
    let result = check_groq_api_key("");
    assert!(result.is_err());
    assert!(result.unwrap_err().contains("API key not set"));
}

#[test]
fn test_transform_empty_api_key() {
    let plan = transform_request_plan("", "I have to go there correction I want to go there");
    match plan {
        TransformPlan::Rejected(e) => assert!(e.contains("API key not set")),
        other => panic!("expected a rejection, got {:?}", other),
    }
}

#[test]
fn test_transform_empty_transcript_short_circuits() {
    let plan = transform_request_plan("test-key", "   ");
    assert_eq!(plan, TransformPlan::Finished(String::new()));
}

#[test]
fn transform_plan_sends_the_trimmed_transcript() {
    let plan = transform_request_plan("test-key", "  hello there \n");
    assert_eq!(
        plan,
        TransformPlan::Send("Text to transform:\nhello there\n\nTransformed text:".to_string())
    );
}

#[test]
fn api_key_check_accepts_any_non_empty_key() {
    assert_eq!(check_groq_api_key("k"), Ok(()));
    assert_eq!(check_groq_api_key(""), Err(GROQ_KEY_MISSING_ERROR.to_string()));
}

#[test]
fn language_hint_defaults_to_english_and_normalizes_codes() {
    assert_eq!(transcription_language_hint(&[]).language, Some("en".to_string()));
    assert_eq!(
        transcription_language_hint(&strings(&["  ", " UR "])).language,
        Some("ur".to_string())
    );
}

#[test]
fn local_language_code_covers_each_count() {
    assert_eq!(transcription_language_code(&[]), "en");
    assert_eq!(transcription_language_code(&strings(&[" FR "])), "fr");
    assert_eq!(transcription_language_code(&strings(&["en", "ur"])), "auto");
}

#[test]
fn language_prompt_names_the_codes_only_for_several_languages() {
    assert_eq!(transcription_language_prompt(&strings(&["en"])), None);
    assert_eq!(
        transcription_language_prompt(&strings(&["en", " UR ", ""])),
        Some(
            "Possible spoken language codes: en, ur. Transcribe in the spoken language and preserve the original language."
                .to_string()
        )
    );
}

#[test]
fn transcription_args_for_one_language_have_no_prompt() {
    let args = transcription_args("/m.bin", "/a.wav", &strings(&["de"]));
    assert_eq!(
        args,
        strings(&["-m", "/m.bin", "-f", "/a.wav", "--no-timestamps", "-l", "de"])
    );
}

#[test]
fn transcription_args_for_several_languages_end_with_the_prompt() {
    let args = transcription_args("/m.bin", "/a.wav", &strings(&["en", "ur"]));
    assert_eq!(args.len(), 9);
    assert_eq!(args[7], "--prompt");
    assert!(args[8].starts_with("Possible spoken language codes: en, ur."));
}

#[test]
fn form_fields_name_the_model_format_and_single_language() {
    let fields = transcription_form_fields("whisper-large-v3-turbo", &strings(&["ur"]));
    assert_eq!(
        fields,
        vec![
            ("model".to_string(), "whisper-large-v3-turbo".to_string()),
            ("response_format".to_string(), "json".to_string()),
            ("language".to_string(), "ur".to_string()),
        ]
    );
    let detected = transcription_form_fields("m", &strings(&["en", "ur"]));
    assert_eq!(detected.len(), 2);
}

#[test]
fn transform_request_body_is_the_json_payload() {
    let body = transform_request_body("openai/gpt-oss-120b", "Polish \"this\".", "line\nnext");
    assert_eq!(
        body,
        "{\"max_tokens\":2048,\"messages\":[{\"content\":\"Polish \\\"this\\\".\",\"role\":\"system\"},{\"content\":\"line\\nnext\",\"role\":\"user\"}],\"model\":\"openai/gpt-oss-120b\",\"temperature\":0.1}"
    );
    let parsed: serde_json::Value = serde_json::from_str(&body).unwrap();
    assert_eq!(parsed["messages"][1]["content"], "line\nnext");
    assert_eq!(parsed["max_tokens"], 2048);
}

#[test]
fn transcription_response_reads_the_text_field() {
    assert_eq!(
        transcription_response_text(200, "200 OK", "{\"text\":\" hi \"}"),
        Ok(" hi ".to_string())
    );
    assert_eq!(
        transcription_response_text(200, "200 OK", "{\"other\":1}"),
        Err("No 'text' field in Groq response".to_string())
    );
    assert_eq!(
        transcription_response_text(401, "401 Unauthorized", "bad key"),
        Err("Groq API error (401 Unauthorized): bad key".to_string())
    );
    assert_eq!(
        transcription_response_text(200, "200 OK", "not json"),
        Err("Failed to parse Groq response: error decoding response body".to_string())
    );
}

#[test]
fn transform_response_reads_and_trims_the_first_choice() {
    let body = "{\"choices\":[{\"message\":{\"content\":\"  Polished.  \"}}]}";
    assert_eq!(transform_response_text(200, "200 OK", body), Ok("Polished.".to_string()));
    let blank = "{\"choices\":[{\"message\":{\"content\":\"   \"}}]}";
    assert_eq!(
        transform_response_text(200, "200 OK", blank),
        Err("No polished text in Groq response".to_string())
    );
    assert_eq!(
        transform_response_text(500, "500 Internal Server Error", "oops"),
        Err("Groq polish error (500 Internal Server Error): oops".to_string())
    );
    assert_eq!(
        transform_response_text(200, "200 OK", "{"),
        Err("Failed to parse Groq polish response: error decoding response body".to_string())
    );
}

#[test]
fn whisper_output_is_trimmed_on_success() {
    assert_eq!(whisper_output_text(Some(0), "  text \n", ""), Ok("text".to_string()));
    assert_eq!(
        whisper_output_text(Some(1), "", "boom"),
        Err("whisper.cpp failed: boom".to_string())
    );
    assert_eq!(
        whisper_output_text(None, "x", "killed"),
        Err("whisper.cpp failed: killed".to_string())
    );
}

#[test]
fn the_first_choice_is_found_by_array_position_only() {
    let object_choices = "{\"choices\":{\"0\":{\"message\":{\"content\":\"x\"}}}}";
    assert_eq!(
        transform_response_text(200, "200 OK", object_choices),
        Err("No polished text in Groq response".to_string())
    );
    let second = "{\"choices\":[{\"message\":{\"content\":\"first\"}},{\"message\":{\"content\":\"second\"}}]}";
    assert_eq!(transform_response_text(200, "200 OK", second), Ok("first".to_string()));
    assert_eq!(
        transcription_response_text(200, "200 OK", "[\"text\"]"),
        Err("No 'text' field in Groq response".to_string())
    );
}
