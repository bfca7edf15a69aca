use vstd::prelude::*;
use crate::languages::{language_codes, transcription_codes};
use crate::text::{error_with, join_strings, join_texts, result_texts, slice_texts, trim, trim_text};

verus! {

pub const WHISPER_MODEL_MISSING_ERROR: &'static str =
    "Whisper model not found. Please download a model first.";

/// The language argument for local transcription: the one code when exactly one is configured,
/// `auto` for several, `en` for none.
pub open spec fn local_language_code(languages: Seq<Seq<char>>) -> Seq<char> {
    let codes = language_codes(languages);
    if codes.len() == 1 {
        codes[0]
    } else if codes.len() > 1 {
        "auto"@
    } else {
        "en"@
    }
}

/// The language argument for local transcription.
pub fn transcription_language_code(languages: &[String]) -> (r: String)
    ensures
        r@ == local_language_code(slice_texts(languages@)),
{
    let codes = transcription_codes(languages);
    if codes.len() == 1 {
        codes[0].clone()
    } else if codes.len() > 1 {
        String::from_str("auto")
    } else {
        String::from_str("en")
    }
}

/// The prompt that names the possible languages when several are configured.
pub open spec fn language_prompt(languages: Seq<Seq<char>>) -> Option<Seq<char>> {
    let codes = language_codes(languages);
    if codes.len() > 1 {
        Some(
            "Possible spoken language codes: "@ + join_texts(codes, ", "@)
                + ". Transcribe in the spoken language and preserve the original language."@,
        )
    } else {
        None
    }
}

/// The prompt for local transcription that names the possible languages.
pub fn transcription_language_prompt(languages: &[String]) -> (r: Option<String>)
    ensures
        match r {
            Some(p) => language_prompt(slice_texts(languages@)) == Some(p@),
            None => language_prompt(slice_texts(languages@)) is None,
        },
{
    let codes = transcription_codes(languages);
    if codes.len() > 1 {
        let joined = join_strings(&codes, ", ");
        let mut prompt = String::from_str("Possible spoken language codes: ");
        prompt.append(joined.as_str());
        prompt.append(". Transcribe in the spoken language and preserve the original language.");
        Some(prompt)
    } else {
        None
    }
}

/// The arguments of a local transcription run.
pub open spec fn local_transcription_args(
    model_path: Seq<char>,
    audio_path: Seq<char>,
    languages: Seq<Seq<char>>,
) -> Seq<Seq<char>> {
    let base = seq![
        "-m"@,
        model_path,
        "-f"@,
        audio_path,
        "--no-timestamps"@,
        "-l"@,
        local_language_code(languages),
    ];
    match language_prompt(languages) {
        Some(p) => base + seq!["--prompt"@, p],
        None => base,
    }
}

/// The arguments of a local transcription run of the model on the audio file.
pub fn transcription_args(model_path: &str, audio_path: &str, languages: &[String]) -> (r: Vec<
    String,
>)
    ensures
        slice_texts(r@) == local_transcription_args(
            model_path@,
            audio_path@,
            slice_texts(languages@),
        ),
{
    let mut args: Vec<String> = Vec::new();
    args.push(String::from_str("-m"));
    args.push(String::from_str(model_path));
    args.push(String::from_str("-f"));
    args.push(String::from_str(audio_path));
    args.push(String::from_str("--no-timestamps"));
    args.push(String::from_str("-l"));
    args.push(transcription_language_code(languages));
    let ghost base = slice_texts(args@);
    match transcription_language_prompt(languages) {
        Some(prompt) => {
            args.push(String::from_str("--prompt"));
            args.push(prompt);
            assert(slice_texts(args@) =~= base + seq!["--prompt"@, language_prompt(slice_texts(languages@))->0]);
        },
        None => {},
    }
    args
}

/// The file name of a local transcription model.
pub fn model_filename(model_size: &str) -> (r: String)
    ensures
        r@ == "ggml-"@ + model_size@ + ".bin"@,
{
    let mut r = String::from_str("ggml-");
    r.append(model_size);
    r.append(".bin");
    r
}

/// The address a local transcription model is downloaded from.
pub fn model_download_url(model_size: &str) -> (r: String)
    ensures
        r@ == "https://huggingface.co/ggerganov/whisper.cpp/resolve/main/ggml-"@ + model_size@
            + ".bin"@,
{
    let mut r = String::from_str("https://huggingface.co/ggerganov/whisper.cpp/resolve/main/ggml-");
    r.append(model_size);
    r.append(".bin");
    r
}

/// What a local transcription run gives: its trimmed output when it exits with status 0, else an
/// error carrying its error output.
pub open spec fn whisper_outcome(exit_code: Option<i32>, stdout: Seq<char>, stderr: Seq<char>) -> Result<
    Seq<char>,
    Seq<char>,
> {
    if exit_code == Some(0i32) {
        Ok(trim(stdout))
    } else {
        Err("whisper.cpp failed: "@ + stderr)
    }
}

/// The transcript of a local transcription run.
pub fn whisper_output_text(exit_code: Option<i32>, stdout: &str, stderr: &str) -> (r: Result<
    String,
    String,
>)
    ensures
        result_texts(r) == whisper_outcome(exit_code, stdout@, stderr@),
{
    match exit_code {
        Some(0) => Ok(trim_text(stdout)),
        _ => error_with("whisper.cpp failed: ", stderr),
    }
}

} // verus!
