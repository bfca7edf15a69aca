use vstd::prelude::*;
use crate::json::{
    json_parses, json_string_at, json_string_literal, json_string_text, path_view, read_json_string,
    JsonStep, JsonStepView,
};
use crate::languages::{language_codes, transcription_codes};
use crate::text::{error_with, result_texts, slice_texts, trim, trim_text};
use crate::transcribe_local::{language_prompt, local_language_code};

verus! {

pub const GROQ_KEY_MISSING_ERROR: &'static str =
    "Groq API key not set. Please enter your API key in settings.";
/// What a body that does not parse as JSON is reported as.
pub const DECODE_ERROR: &'static str = "error decoding response body";

/// Where a transcription answer holds the transcript: `text`.
pub open spec fn transcription_text_path() -> Seq<JsonStepView> {
    seq![JsonStepView::Key("text"@)]
}

/// Where a chat answer holds the transformed text: the content of the first choice's message.
pub open spec fn transform_text_path() -> Seq<JsonStepView> {
    seq![
        JsonStepView::Key("choices"@),
        JsonStepView::Index(0),
        JsonStepView::Key("message"@),
        JsonStepView::Key("content"@),
    ]
}

fn transcription_path() -> (r: Vec<JsonStep>)
    ensures
        path_view(r@) == transcription_text_path(),
{
    let r = vec![JsonStep::Key(String::from_str("text"))];
    assert(path_view(r@) =~= transcription_text_path());
    r
}

fn transform_path() -> (r: Vec<JsonStep>)
    ensures
        path_view(r@) == transform_text_path(),
{
    let r = vec![
        JsonStep::Key(String::from_str("choices")),
        JsonStep::Index(0),
        JsonStep::Key(String::from_str("message")),
        JsonStep::Key(String::from_str("content")),
    ];
    assert(path_view(r@) =~= transform_text_path());
    r
}

/// The language hint sent with a cloud transcription.
#[derive(Debug, PartialEq)]
pub struct TranscriptionLanguageHint {
    pub language: Option<String>,
}

/// The language to name in a cloud transcription request: the one code when exactly one is
/// configured, none (detection) for several, English for none.
pub open spec fn language_hint(languages: Seq<Seq<char>>) -> Option<Seq<char>> {
    let codes = language_codes(languages);
    if codes.len() == 1 {
        Some(codes[0])
    } else if codes.len() > 1 {
        None
    } else {
        Some("en"@)
    }
}

/// The language hint for a cloud transcription.
pub fn transcription_language_hint(languages: &[String]) -> (r: TranscriptionLanguageHint)
    ensures
        match r.language {
            Some(l) => language_hint(slice_texts(languages@)) == Some(l@),
            None => language_hint(slice_texts(languages@)) is None,
        },
{
    let codes = transcription_codes(languages);
    if codes.len() == 1 {
        TranscriptionLanguageHint { language: Some(codes[0].clone()) }
    } else if codes.len() > 1 {
        TranscriptionLanguageHint { language: None }
    } else {
        TranscriptionLanguageHint { language: Some(String::from_str("en")) }
    }
}

/// Cloud and local transcription read the configured languages alike: the cloud request names a
/// language exactly when the local run is given that code, the cloud request lets the language be
/// detected exactly when several codes are configured, and then the local run is told `auto` and
/// prompted with the codes.
pub proof fn lemma_cloud_and_local_languages_agree(languages: Seq<Seq<char>>)
    ensures
        language_hint(languages) matches Some(code) ==> local_language_code(languages) == code
            && language_prompt(languages) is None,
        language_hint(languages) is None ==> local_language_code(languages) == "auto"@
            && language_prompt(languages) is Some,
        language_hint(languages) is None <==> language_codes(languages).len() > 1,
{
}

/// The user message that asks for a transform of the (trimmed) transcript.
pub fn transform_user_message(trimmed: &str) -> (r: String)
    ensures
        r@ == "Text to transform:\n"@ + trimmed@ + "\n\nTransformed text:"@,
{
    let mut r = String::from_str("Text to transform:\n");
    r.append(trimmed);
    r.append("\n\nTransformed text:");
    r
}

/// A cloud request needs an API key.
pub fn check_groq_api_key(api_key: &str) -> (r: Result<(), String>)
    ensures
        r is Ok <==> api_key@.len() > 0,
        r matches Err(e) ==> e@ == GROQ_KEY_MISSING_ERROR@,
{
    if api_key.unicode_len() == 0 {
        Err(String::from_str(GROQ_KEY_MISSING_ERROR))
    } else {
        Ok(())
    }
}

/// An HTTP status in the success class (200 to 299).
pub open spec fn is_success_status(status: u16) -> bool {
    200 <= status <= 299
}

/// What a cloud transcription answer gives: an error naming the status and body when the status
/// is not a success; else the `text` string of the JSON body, or an error when the body does not
/// parse (reported as a decoding error) or has no such string.
pub open spec fn transcription_outcome(status: u16, status_text: Seq<char>, body: Seq<char>) -> Result<
    Seq<char>,
    Seq<char>,
> {
    if !is_success_status(status) {
        Err("Groq API error ("@ + status_text + "): "@ + body)
    } else if !json_parses(body) {
        Err("Failed to parse Groq response: "@ + DECODE_ERROR@)
    } else {
        match json_string_at(body, transcription_text_path()) {
            Some(text) => Ok(text),
            None => Err("No 'text' field in Groq response"@),
        }
    }
}

fn status_error(prefix: &str, status_text: &str, body: &str) -> (r: Result<String, String>)
    ensures
        result_texts(r) == Err::<Seq<char>, Seq<char>>(prefix@ + status_text@ + "): "@ + body@),
{
    let mut e = String::from_str(prefix);
    e.append(status_text);
    e.append("): ");
    e.append(body);
    Err(e)
}

/// The transcript in a cloud transcription answer.
pub fn transcription_response_text(status: u16, status_text: &str, body: &str) -> (r: Result<
    String,
    String,
>)
    ensures
        result_texts(r) == transcription_outcome(status, status_text@, body@),
{
    if !(200 <= status && status <= 299) {
        return status_error("Groq API error (", status_text, body);
    }
    let path = transcription_path();
    match read_json_string(body, path.as_slice()) {
        Err(()) => error_with("Failed to parse Groq response: ", DECODE_ERROR),
        Ok(None) => Err(String::from_str("No 'text' field in Groq response")),
        Ok(Some(text)) => Ok(text),
    }
}

/// What the app does with a transcript to transform.
#[derive(Debug, PartialEq)]
pub enum TransformPlan {
    /// The request cannot be made; the error to return.
    Rejected(String),
    /// Nothing to transform; the result to return.
    Finished(String),
    /// Send the request with this user message.
    Send(String),
}

/// The plan for a transform: rejected without an API key, an empty result for a blank
/// transcript, else a request carrying the trimmed transcript.
pub fn transform_request_plan(api_key: &str, transcript: &str) -> (r: TransformPlan)
    ensures
        api_key@.len() == 0 ==> (r matches TransformPlan::Rejected(e) && e@ == GROQ_KEY_MISSING_ERROR@),
        api_key@.len() > 0 && trim(transcript@).len() == 0 ==> (r matches TransformPlan::Finished(s)
            && s@.len() == 0),
        api_key@.len() > 0 && trim(transcript@).len() > 0 ==> (r matches TransformPlan::Send(m) && m@
            == "Text to transform:\n"@ + trim(transcript@) + "\n\nTransformed text:"@),
{
    if api_key.unicode_len() == 0 {
        return TransformPlan::Rejected(String::from_str(GROQ_KEY_MISSING_ERROR));
    }
    let trimmed = trim_text(transcript);
    if trimmed.as_str().unicode_len() == 0 {
        return TransformPlan::Finished(String::new());
    }
    TransformPlan::Send(transform_user_message(trimmed.as_str()))
}

/// What a cloud transform answer gives: an error naming the status and body when the status is
/// not a success; else the trimmed message content of the first choice, or an error when the body
/// does not parse or the content is missing or blank.
pub open spec fn transform_outcome(status: u16, status_text: Seq<char>, body: Seq<char>) -> Result<
    Seq<char>,
    Seq<char>,
> {
    if !is_success_status(status) {
        Err("Groq polish error ("@ + status_text + "): "@ + body)
    } else if !json_parses(body) {
        Err("Failed to parse Groq polish response: "@ + DECODE_ERROR@)
    } else {
        match json_string_at(body, transform_text_path()) {
            Some(text) => if trim(text).len() > 0 {
                Ok(trim(text))
            } else {
                Err("No polished text in Groq response"@)
            },
            None => Err("No polished text in Groq response"@),
        }
    }
}

/// The transformed text in a cloud transform answer.
pub fn transform_response_text(status: u16, status_text: &str, body: &str) -> (r: Result<
    String,
    String,
>)
    ensures
        result_texts(r) == transform_outcome(status, status_text@, body@),
{
    if !(200 <= status && status <= 299) {
        return status_error("Groq polish error (", status_text, body);
    }
    let path = transform_path();
    match read_json_string(body, path.as_slice()) {
        Err(()) => error_with("Failed to parse Groq polish response: ", DECODE_ERROR),
        Ok(None) => Err(String::from_str("No polished text in Groq response")),
        Ok(Some(text)) => {
            let trimmed = trim_text(text.as_str());
            if trimmed.as_str().unicode_len() == 0 {
                Err(String::from_str("No polished text in Groq response"))
            } else {
                Ok(trimmed)
            }
        },
    }
}

/// The text fields of a cloud transcription form, in order: the model, the JSON response format,
/// and the language when the configured languages name one.
pub open spec fn transcription_fields(model: Seq<char>, languages: Seq<Seq<char>>) -> Seq<
    (Seq<char>, Seq<char>),
> {
    let base = seq![("model"@, model), ("response_format"@, "json"@)];
    match language_hint(languages) {
        Some(code) => base.push(("language"@, code)),
        None => base,
    }
}

/// The views of a list of named text fields.
pub open spec fn field_texts(v: Seq<(String, String)>) -> Seq<(Seq<char>, Seq<char>)> {
    v.map_values(|f: (String, String)| (f.0@, f.1@))
}

/// The text fields sent with the audio file in a cloud transcription request.
pub fn transcription_form_fields(model: &str, languages: &[String]) -> (r: Vec<(String, String)>)
    ensures
        field_texts(r@) == transcription_fields(model@, slice_texts(languages@)),
{
    let mut fields: Vec<(String, String)> = Vec::new();
    fields.push((String::from_str("model"), String::from_str(model)));
    fields.push((String::from_str("response_format"), String::from_str("json")));
    let hint = transcription_language_hint(languages);
    let ghost base = field_texts(fields@);
    match hint.language {
        Some(code) => {
            fields.push((String::from_str("language"), code));
            assert(field_texts(fields@) =~= base.push(("language"@, language_hint(slice_texts(languages@))->0)));
        },
        None => {},
    }
    assert(field_texts(fields@) =~= transcription_fields(model@, slice_texts(languages@)));
    fields
}

/// The JSON body of a cloud transform request, with its keys in sorted order: at most 2048
/// tokens, the system prompt and the user message, the model, and temperature 0.1.
pub open spec fn transform_request_text(model: Seq<char>, system_prompt: Seq<char>, user_message: Seq<
    char,
>) -> Seq<char> {
    "{\"max_tokens\":2048,\"messages\":[{\"content\":"@ + json_string_literal(system_prompt)
        + ",\"role\":\"system\"},{\"content\":"@ + json_string_literal(user_message)
        + ",\"role\":\"user\"}],\"model\":"@ + json_string_literal(model) + ",\"temperature\":0.1}"@
}

/// The JSON body of a cloud transform request.
pub fn transform_request_body(model: &str, system_prompt: &str, user_message: &str) -> (r: String)
    ensures
        r@ == transform_request_text(model@, system_prompt@, user_message@),
{
    let prompt = json_string_text(system_prompt);
    let message = json_string_text(user_message);
    let model_text = json_string_text(model);
    let mut body = String::from_str("{\"max_tokens\":2048,\"messages\":[{\"content\":");
    body.append(prompt.as_str());
    body.append(",\"role\":\"system\"},{\"content\":");
    body.append(message.as_str());
    body.append(",\"role\":\"user\"}],\"model\":");
    body.append(model_text.as_str());
    body.append(",\"temperature\":0.1}");
    body
}

} // verus!
