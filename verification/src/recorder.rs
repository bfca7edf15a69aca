use vstd::prelude::*;
use crate::audio::RecordingSaveResult;
use crate::history::{entry_id_at, TranscriptHistoryEntry, TranscriptTransformHistory};
use crate::settings::{selected_model, texts, Settings, DEFAULT_TRANSCRIPT_MODEL_ID, DEFAULT_TRANSFORM_MODEL_ID};
use crate::transforms::{first_with_id, transform_views};
use crate::transcribe_local::model_filename;
use crate::hotkey::ShortcutTransition;
use crate::text::{concat_text, text_eq, trim, trim_text};
use crate::text::result_texts;
use crate::transforms::TextTransform;

verus! {

pub const ALREADY_BUSY_ERROR: &'static str = "Already recording or transcribing";
pub const NOT_RECORDING_ERROR: &'static str = "Not currently recording";
pub const STILL_TRANSCRIBING_ERROR: &'static str = "Currently transcribing, please wait";

/// Where a dictation stands.
#[derive(Debug, Clone, Copy, PartialEq, Eq, Structural)]
pub enum RecordingState {
    Ready,
    Recording,
    Transcribing,
}

/// The name of a state as the overlay shows it.
pub open spec fn state_name(state: RecordingState) -> Seq<char> {
    match state {
        RecordingState::Ready => "ready"@,
        RecordingState::Recording => "recording"@,
        RecordingState::Transcribing => "transcribing"@,
    }
}

/// The name of a state as the overlay shows it.
pub fn recording_state_name(state: RecordingState) -> (r: String)
    ensures
        r@ == state_name(state),
{
    match state {
        RecordingState::Ready => String::from_str("ready"),
        RecordingState::Recording => String::from_str("recording"),
        RecordingState::Transcribing => String::from_str("transcribing"),
    }
}

/// The script that shows the named state in the overlay window.
pub open spec fn overlay_state_text(state_name: Seq<char>) -> Seq<char> {
    "window.setTyprState && window.setTyprState('"@ + state_name + "');"@
}

/// The script that shows the named state (a recording state's name, or `polishing`) in the
/// overlay window.
pub fn overlay_state_script(state_name: &str) -> (r: String)
    ensures
        r@ == overlay_state_text(state_name@),
{
    let mut js = String::from_str("window.setTyprState && window.setTyprState('");
    js.append(state_name);
    js.append("');");
    js
}

/// The state after a start attempt from `state` whose audio capture gave `started`.
pub open spec fn after_start(state: RecordingState, started: bool) -> RecordingState {
    if state == RecordingState::Ready && started {
        RecordingState::Recording
    } else {
        state
    }
}

/// The state after a cancel request in `state`.
pub open spec fn after_cancel(state: RecordingState) -> RecordingState {
    if state == RecordingState::Recording {
        RecordingState::Ready
    } else {
        state
    }
}

/// The state after a stop request in `state`.
pub open spec fn after_stop_request(state: RecordingState) -> RecordingState {
    if state == RecordingState::Recording {
        RecordingState::Transcribing
    } else {
        state
    }
}

/// The recording state of the app: at most one dictation runs at a time.
pub struct Recorder {
    state: RecordingState,
}

impl Recorder {
    pub closed spec fn current(&self) -> RecordingState {
        self.state
    }

    /// A recorder that is ready.
    pub fn new() -> (r: Self)
        ensures
            r.current() == RecordingState::Ready,
    {
        Recorder { state: RecordingState::Ready }
    }

    /// The current state.
    pub fn get_state(&self) -> (r: RecordingState)
        ensures
            r == self.current(),
    {
        self.state
    }

    /// Whether a recording may start: only when ready.
    pub fn check_start(&self) -> (r: Result<(), String>)
        ensures
            r is Ok <==> self.current() == RecordingState::Ready,
            r matches Err(e) ==> e@ == ALREADY_BUSY_ERROR@,
    {
        if self.state == RecordingState::Ready {
            Ok(())
        } else {
            Err(String::from_str(ALREADY_BUSY_ERROR))
        }
    }

    /// Records the outcome of starting the audio capture: recording when it started, else
    /// still ready with the capture's error.
    pub fn start_recording(&mut self, audio: Result<(), String>) -> (r: Result<(), String>)
        ensures
            final(self).current() == after_start(old(self).current(), audio is Ok),
            old(self).current() == RecordingState::Ready ==> r == audio,
            old(self).current() != RecordingState::Ready ==> (r matches Err(e) && e@
                == ALREADY_BUSY_ERROR@),
    {
        if self.state != RecordingState::Ready {
            return Err(String::from_str(ALREADY_BUSY_ERROR));
        }
        if audio.is_ok() {
            self.state = RecordingState::Recording;
        }
        audio
    }

    /// Cancels a recording: ready again when recording, else an error.
    pub fn cancel_recording(&mut self) -> (r: Result<(), String>)
        ensures
            final(self).current() == after_cancel(old(self).current()),
            r is Ok <==> old(self).current() == RecordingState::Recording,
            r matches Err(e) ==> e@ == NOT_RECORDING_ERROR@,
    {
        if self.state != RecordingState::Recording {
            return Err(String::from_str(NOT_RECORDING_ERROR));
        }
        self.state = RecordingState::Ready;
        Ok(())
    }

    /// Stops a recording for transcription: transcribing when recording, else an error.
    pub fn begin_stop(&mut self) -> (r: Result<(), String>)
        ensures
            final(self).current() == after_stop_request(old(self).current()),
            r is Ok <==> old(self).current() == RecordingState::Recording,
            r matches Err(e) ==> e@ == NOT_RECORDING_ERROR@,
    {
        if self.state != RecordingState::Recording {
            return Err(String::from_str(NOT_RECORDING_ERROR));
        }
        self.state = RecordingState::Transcribing;
        Ok(())
    }

    /// Ends a transcription, whatever its outcome: ready again.
    pub fn finish_stop(&mut self)
        ensures
            final(self).current() == RecordingState::Ready,
    {
        self.state = RecordingState::Ready;
    }
}

/// A recording that starts and is then canceled leaves the recorder ready, as it was; a stop
/// request that is accepted leads, once the transcription ends, back to ready.
pub proof fn lemma_recorder_returns_to_ready(started: bool)
    ensures
        after_cancel(after_start(RecordingState::Ready, started)) == RecordingState::Ready,
        after_stop_request(after_start(RecordingState::Ready, true)) == RecordingState::Transcribing,
{
}

/// A start request is refused unless the recorder is ready, and a stop or cancel request unless
/// it is recording: no second dictation can begin while one runs.
pub proof fn lemma_one_dictation_at_a_time(state: RecordingState, started: bool)
    requires
        state != RecordingState::Ready,
    ensures
        after_start(state, started) == state,
        state == RecordingState::Transcribing ==> after_cancel(state) == state
            && after_stop_request(state) == state,
{
}

/// What a toggle request does in a state.
#[derive(Debug, Clone, PartialEq)]
pub enum ToggleAction {
    /// Start recording.
    Start,
    /// Stop recording and transcribe.
    StopAndTranscribe,
    /// Refuse with this error.
    Busy(String),
}

/// The toggle request: start when ready, stop and transcribe when recording, refuse while
/// transcribing.
pub fn toggle_action(state: RecordingState) -> (r: ToggleAction)
    ensures
        state == RecordingState::Ready ==> r == ToggleAction::Start,
        state == RecordingState::Recording ==> r == ToggleAction::StopAndTranscribe,
        state == RecordingState::Transcribing ==> (r matches ToggleAction::Busy(e) && e@
            == STILL_TRANSCRIBING_ERROR@),
{
    match state {
        RecordingState::Ready => ToggleAction::Start,
        RecordingState::Recording => ToggleAction::StopAndTranscribe,
        RecordingState::Transcribing => ToggleAction::Busy(String::from_str(STILL_TRANSCRIBING_ERROR)),
    }
}

/// What a hotkey event asks for.
#[derive(Debug, Clone, Copy, PartialEq, Eq, Structural)]
pub enum HotkeyAction {
    /// Toggle recording.
    Toggle,
    /// Start recording when ready.
    StartIfReady,
    /// Stop and transcribe when recording.
    StopIfRecording,
    /// Nothing.
    Ignore,
}

/// What a hotkey event asks for in a recording mode: a press toggles in `toggle` mode and
/// starts in `push-to-talk` mode; a release stops in `push-to-talk` mode; nothing else.
pub fn hotkey_action(mode: &str, transition: ShortcutTransition) -> (r: HotkeyAction)
    ensures
        r == (match transition {
            ShortcutTransition::Pressed => if mode@ == "toggle"@ {
                HotkeyAction::Toggle
            } else if mode@ == "push-to-talk"@ {
                HotkeyAction::StartIfReady
            } else {
                HotkeyAction::Ignore
            },
            ShortcutTransition::Released => if mode@ == "push-to-talk"@ {
                HotkeyAction::StopIfRecording
            } else {
                HotkeyAction::Ignore
            },
        }),
{
    match transition {
        ShortcutTransition::Pressed => {
            if text_eq(mode, "toggle") {
                HotkeyAction::Toggle
            } else if text_eq(mode, "push-to-talk") {
                HotkeyAction::StartIfReady
            } else {
                HotkeyAction::Ignore
            }
        },
        ShortcutTransition::Released => {
            if text_eq(mode, "push-to-talk") {
                HotkeyAction::StopIfRecording
            } else {
                HotkeyAction::Ignore
            }
        },
    }
}

/// The transcription engines.
/// What a hotkey change does, given the recording mode and the recorder's state.
#[derive(Debug, Clone, PartialEq)]
pub enum HotkeyResponse {
    /// Start recording.
    Start,
    /// Stop recording and transcribe.
    StopAndTranscribe,
    /// Nothing can be done now; the error to report.
    Busy(String),
    /// Nothing.
    Nothing,
}

/// A hotkey response as a kind and an error text: 0 start, 1 stop and transcribe, 2 busy with
/// its error, 3 nothing.
pub open spec fn response_view(r: HotkeyResponse) -> (int, Seq<char>) {
    match r {
        HotkeyResponse::Start => (0, seq![]),
        HotkeyResponse::StopAndTranscribe => (1, seq![]),
        HotkeyResponse::Busy(e) => (2, e@),
        HotkeyResponse::Nothing => (3, seq![]),
    }
}

/// What a hotkey change does: in toggle mode a press toggles (start when ready, stop when
/// recording, busy while transcribing); in push-to-talk mode a press starts when ready and a
/// release stops when recording; anything else does nothing.
pub open spec fn hotkey_response_for(
    mode: Seq<char>,
    transition: ShortcutTransition,
    state: RecordingState,
) -> (int, Seq<char>) {
    match transition {
        ShortcutTransition::Pressed => if mode == "toggle"@ {
            match state {
                RecordingState::Ready => (0, seq![]),
                RecordingState::Recording => (1, seq![]),
                RecordingState::Transcribing => (2, STILL_TRANSCRIBING_ERROR@),
            }
        } else if mode == "push-to-talk"@ && state == RecordingState::Ready {
            (0, seq![])
        } else {
            (3, seq![])
        },
        ShortcutTransition::Released => if mode == "push-to-talk"@ && state
            == RecordingState::Recording {
            (1, seq![])
        } else {
            (3, seq![])
        },
    }
}

/// What a hotkey change does in the recorder's current state.
pub fn hotkey_response(mode: &str, transition: ShortcutTransition, state: RecordingState) -> (r:
    HotkeyResponse)
    ensures
        response_view(r) == hotkey_response_for(mode@, transition, state),
{
    match hotkey_action(mode, transition) {
        HotkeyAction::Toggle => match toggle_action(state) {
            ToggleAction::Start => HotkeyResponse::Start,
            ToggleAction::StopAndTranscribe => HotkeyResponse::StopAndTranscribe,
            ToggleAction::Busy(e) => HotkeyResponse::Busy(e),
        },
        HotkeyAction::StartIfReady => if state == RecordingState::Ready {
            HotkeyResponse::Start
        } else {
            HotkeyResponse::Nothing
        },
        HotkeyAction::StopIfRecording => if state == RecordingState::Recording {
            HotkeyResponse::StopAndTranscribe
        } else {
            HotkeyResponse::Nothing
        },
        HotkeyAction::Ignore => HotkeyResponse::Nothing,
    }
}

#[derive(Debug, Clone, Copy, PartialEq, Eq, Structural)]
pub enum TranscriptionEngine {
    Local,
    Cloud,
}

/// The engine a setting names: `local` or `cloud`, else an error naming it.
pub fn select_engine(engine: &str) -> (r: Result<TranscriptionEngine, String>)
    ensures
        engine@ == "local"@ ==> r == Ok::<TranscriptionEngine, String>(TranscriptionEngine::Local),
        engine@ == "cloud"@ ==> r == Ok::<TranscriptionEngine, String>(TranscriptionEngine::Cloud),
        engine@ != "local"@ && engine@ != "cloud"@ ==> (r matches Err(e) && e@ == "Unknown engine: "@
            + engine@),
{
    proof {
        reveal_strlit("local");
        reveal_strlit("cloud");
        assert("local"@[0] != "cloud"@[0]);
    }
    if text_eq(engine, "local") {
        Ok(TranscriptionEngine::Local)
    } else if text_eq(engine, "cloud") {
        Ok(TranscriptionEngine::Cloud)
    } else {
        Err(concat_text("Unknown engine: ", engine))
    }
}

/// A transcript cleaned for use: without surrounding white space.
pub fn cleanup_text(raw: &str) -> (r: String)
    ensures
        r@ == trim(raw@),
{
    trim_text(raw)
}

/// A transform runs when transforms are on and the cleaned transcript is not empty.
pub fn wants_transform(auto_polish: bool, cleaned: &str) -> (r: bool)
    ensures
        r == (auto_polish && cleaned@.len() > 0),
{
    auto_polish && cleaned.unicode_len() > 0
}

/// The text kept and the record made once a transform has answered.
pub struct TransformResolution {
    pub final_text: String,
    pub record: TranscriptTransformHistory,
}

/// The text kept once a transform has answered: its cleaned output when that is not empty,
/// else the input; the input when the transform failed.
pub open spec fn transform_final_text(input: Seq<char>, outcome: Result<Seq<char>, Seq<char>>) -> Seq<char> {
    match outcome {
        Ok(output) => if trim(output).len() > 0 {
            trim(output)
        } else {
            input
        },
        Err(_) => input,
    }
}

/// The text kept and the history record of a transform, given how the transform answered.
pub fn resolve_transform(
    transform: &TextTransform,
    model: String,
    input: String,
    outcome: Result<String, String>,
) -> (r: TransformResolution)
    ensures
        r.final_text@ == transform_final_text(input@, result_texts(outcome)),
        r.record.id == transform.id,
        r.record.name == transform.name,
        r.record.icon == transform.icon,
        r.record.model == model,
        r.record.system_prompt == transform.system_prompt,
        r.record.input_text == input,
        match outcome {
            Ok(_) => {
                &&& r.record.output_text@ == r.final_text@
                &&& r.record.status@ == "applied"@
                &&& r.record.error@.len() == 0
            },
            Err(e) => {
                &&& r.record.output_text@.len() == 0
                &&& r.record.status@ == "failed"@
                &&& r.record.error == e
            },
        },
{
    match outcome {
        Ok(polished) => {
            let cleaned = cleanup_text(polished.as_str());
            let output = if cleaned.as_str().unicode_len() == 0 {
                input.clone()
            } else {
                cleaned
            };
            let record = TranscriptTransformHistory {
                id: transform.id.clone(),
                name: transform.name.clone(),
                icon: transform.icon.clone(),
                model,
                system_prompt: transform.system_prompt.clone(),
                input_text: input,
                output_text: output.clone(),
                status: String::from_str("applied"),
                error: String::new(),
            };
            TransformResolution { final_text: output, record }
        },
        Err(e) => {
            let record = TranscriptTransformHistory {
                id: transform.id.clone(),
                name: transform.name.clone(),
                icon: transform.icon.clone(),
                model,
                system_prompt: transform.system_prompt.clone(),
                input_text: input.clone(),
                output_text: String::new(),
                status: String::from_str("failed"),
                error: e,
            };
            TransformResolution { final_text: input, record }
        },
    }
}

/// The final text is pasted only when it is not empty.
pub fn needs_paste(final_text: &str) -> (r: bool)
    ensures
        r == (final_text@.len() > 0),
{
    final_text.unicode_len() > 0
}

/// The paste status recorded in the history: `skipped` for an empty text, else `pasted` or
/// `failed` after the paste.
pub fn paste_status(final_text: &str, paste: &Result<(), String>) -> (r: String)
    ensures
        final_text@.len() == 0 ==> r@ == "skipped"@,
        final_text@.len() > 0 && paste is Ok ==> r@ == "pasted"@,
        final_text@.len() > 0 && paste is Err ==> r@ == "failed"@,
{
    if final_text.unicode_len() == 0 {
        String::from_str("skipped")
    } else if paste.is_ok() {
        String::from_str("pasted")
    } else {
        String::from_str("failed")
    }
}

/// The outcome of a dictation: the final text, unless the paste failed.
pub fn dictation_result(final_text: String, paste: Result<(), String>) -> (r: Result<String, String>)
    ensures
        match paste {
            Ok(()) => r == Ok::<String, String>(final_text),
            Err(e) => r == Err::<String, String>(e),
        },
{
    match paste {
        Ok(()) => Ok(final_text),
        Err(e) => Err(e),
    }
}

/// Where a dictation stands once its recording has stopped.
#[derive(Debug, Clone, Copy, PartialEq, Eq, Structural)]
pub enum DictationStage {
    /// The recording is being saved.
    Saving,
    /// The engine is transcribing.
    Transcribing,
    /// The transform is running.
    Transforming,
    /// The final text is being pasted.
    Pasting,
    /// The dictation is over.
    Done,
}

/// The call that transcribes a saved take.
pub enum TranscriptionRequest {
    /// Run whisper.cpp with the model file (in the app's config directory) on the languages.
    Local { model_file: String, languages: Vec<String> },
    /// Send the take to Groq with the API key and the model, with the languages.
    Cloud { api_key: String, model: String, languages: Vec<String> },
}

/// The request transcribes with the settings' engine: locally with the Whisper model's file, or
/// in the cloud with the API key and the selected transcription model; either way on the
/// configured languages.
pub open spec fn is_transcription_request(req: TranscriptionRequest, s: Settings) -> bool {
    match req {
        TranscriptionRequest::Local { model_file, languages } => {
            &&& s.engine@ == "local"@
            &&& model_file@ == "ggml-"@ + s.whisper_model@ + ".bin"@
            &&& languages@ == s.transcript_languages@
        },
        TranscriptionRequest::Cloud { api_key, model, languages } => {
            &&& s.engine@ == "cloud"@
            &&& api_key == s.groq_api_key
            &&& model@ == selected_model(
                s.transcript_model_mode@,
                s.transcript_model_id@,
                DEFAULT_TRANSCRIPT_MODEL_ID@,
            )
            &&& languages@ == s.transcript_languages@
        },
    }
}

/// The transcription call the settings ask for, or an error naming an unknown engine.
pub fn transcription_request(s: &Settings) -> (r: Result<TranscriptionRequest, String>)
    ensures
        match r {
            Ok(req) => is_transcription_request(req, *s),
            Err(e) => s.engine@ != "local"@ && s.engine@ != "cloud"@ && e@ == "Unknown engine: "@
                + s.engine@,
        },
{
    match select_engine(s.engine.as_str()) {
        Ok(TranscriptionEngine::Local) => Ok(
            TranscriptionRequest::Local {
                model_file: model_filename(s.whisper_model.as_str()),
                languages: copy_texts(&s.transcript_languages),
            },
        ),
        Ok(TranscriptionEngine::Cloud) => Ok(
            TranscriptionRequest::Cloud {
                api_key: s.groq_api_key.clone(),
                model: s.transcript_model(),
                languages: copy_texts(&s.transcript_languages),
            },
        ),
        Err(e) => Err(e),
    }
}

/// What the app reports back after carrying out a dictation's action.
pub enum DictationEvent {
    /// The recording was saved (with what saving found out), or could not be.
    Saved(Result<RecordingSaveResult, String>),
    /// The engine answered.
    Transcribed(Result<String, String>),
    /// The transform answered.
    Transformed(Result<String, String>),
    /// The paste is over.
    Pasted(Result<(), String>),
}

/// What the app is to do next in a dictation.
pub enum DictationAction {
    /// Transcribe the saved recording as the request says.
    Transcribe(TranscriptionRequest),
    /// Apply the transform, with the model, to the input text.
    Transform { transform: TextTransform, model: String, input: String },
    /// Paste the text.
    Paste(String),
    /// Keep the entry (when there is one) in the history, with its recording, and end the
    /// dictation with the result.
    Finish { entry: Option<TranscriptHistoryEntry>, result: Result<String, String> },
    /// The event does not belong to this stage: nothing to do.
    Wait,
}

/// A dictation once its recording has stopped: its stage and the texts gathered so far.
pub struct Dictation {
    pub stage: DictationStage,
    pub raw_text: String,
    pub cleaned_text: String,
    pub final_text: String,
    pub transform: Option<TextTransform>,
    pub transform_model: String,
    pub transform_record: Option<TranscriptTransformHistory>,
}

/// The transform a dictation applies: the settings' default transform, else the first one.
pub open spec fn dictation_transform(s: Settings) -> Option<TextTransform> {
    match first_with_id(transform_views(s.transforms@), s.default_transform@) {
        Some(i) => Some(s.transforms@[i]),
        None => if s.transforms@.len() > 0 {
            Some(s.transforms@[0])
        } else {
            None
        },
    }
}

/// The history entry of a dictation records the settings it ran with, its texts, its transform
/// and the paste status, made at `created_at` and without a recording yet.
pub open spec fn records_dictation(e: TranscriptHistoryEntry, s: Settings, d: Dictation, status: Seq<
    char,
>) -> bool {
    &&& e.id@ == entry_id_at(e.created_at)
    &&& e.engine == s.engine
    &&& e.microphone == s.microphone
    &&& e.transcript_model@ == selected_model(
        s.transcript_model_mode@,
        s.transcript_model_id@,
        DEFAULT_TRANSCRIPT_MODEL_ID@,
    )
    &&& e.whisper_model == s.whisper_model
    &&& texts(e.transcript_languages@) == texts(s.transcript_languages@)
    &&& e.raw_transcript == d.raw_text
    &&& e.cleaned_transcript == d.cleaned_text
    &&& e.final_text == d.final_text
    &&& e.transform == d.transform_record
    &&& e.paste_status@ == status
    &&& e.audio is None
}

/// The action ends the dictation without a history entry and with the result.
pub open spec fn finishes_without_entry(r: DictationAction, result: Result<Seq<char>, Seq<char>>) -> bool {
    r matches DictationAction::Finish { entry, result: res } && entry is None && result_texts(res)
        == result
}

/// The action ends the dictation with the history entry of `d` and the result.
pub open spec fn finishes_with_entry(
    r: DictationAction,
    s: Settings,
    d: Dictation,
    status: Seq<char>,
    result: Result<Seq<char>, Seq<char>>,
) -> bool {
    &&& r matches DictationAction::Finish { entry, result: res }
    &&& entry matches Some(e) && records_dictation(e, s, d, status)
    &&& result_texts(res) == result
}

/// Once the final text is known: paste it when it is not empty; else end the dictation with an
/// empty result, keeping a history entry whose paste was skipped.
pub open spec fn after_final_text(r: DictationAction, s: Settings, d: Dictation) -> bool {
    if d.final_text@.len() > 0 {
        &&& d.stage == DictationStage::Pasting
        &&& r matches DictationAction::Paste(t) && t@ == d.final_text@
    } else {
        &&& d.stage == DictationStage::Done
        &&& finishes_with_entry(r, s, d, "skipped"@, Ok(seq![]))
    }
}

impl Dictation {
    /// A dictation whose recording is being saved.
    pub fn new() -> (r: Self)
        ensures
            r.stage == DictationStage::Saving,
            r.transform is None,
            r.transform_record is None,
    {
        Dictation {
            stage: DictationStage::Saving,
            raw_text: String::new(),
            cleaned_text: String::new(),
            final_text: String::new(),
            transform: None,
            transform_model: String::new(),
            transform_record: None,
        }
    }
}

fn copy_transform(t: &TextTransform) -> (r: TextTransform)
    ensures
        r == *t,
{
    TextTransform {
        id: t.id.clone(),
        name: t.name.clone(),
        icon: t.icon.clone(),
        system_prompt: t.system_prompt.clone(),
    }
}

fn copy_record(r: &Option<TranscriptTransformHistory>) -> (c: Option<TranscriptTransformHistory>)
    ensures
        c == *r,
{
    match r {
        None => None,
        Some(t) => Some(
            TranscriptTransformHistory {
                id: t.id.clone(),
                name: t.name.clone(),
                icon: t.icon.clone(),
                model: t.model.clone(),
                system_prompt: t.system_prompt.clone(),
                input_text: t.input_text.clone(),
                output_text: t.output_text.clone(),
                status: t.status.clone(),
                error: t.error.clone(),
            },
        ),
    }
}

fn copy_texts(v: &Vec<String>) -> (r: Vec<String>)
    ensures
        r@ == v@,
{
    let mut r: Vec<String> = Vec::new();
    let mut i: usize = 0;
    while i < v.len()
        invariant
            i <= v.len(),
            r@ == v@.take(i as int),
        decreases v.len() - i,
    {
        r.push(v[i].clone());
        assert(r@ =~= v@.take(i + 1));
        i = i + 1;
    }
    assert(v@.take(v.len() as int) =~= v@);
    r
}

/// The history entry of a dictation with the paste status.
fn dictation_entry(s: &Settings, d: &Dictation, status: String) -> (e: TranscriptHistoryEntry)
    ensures
        records_dictation(e, *s, *d, status@),
{
    let languages = copy_texts(&s.transcript_languages);
    TranscriptHistoryEntry::new(
        s.engine.clone(),
        s.microphone.clone(),
        s.transcript_model(),
        s.whisper_model.clone(),
        languages,
        d.raw_text.clone(),
        d.cleaned_text.clone(),
        d.final_text.clone(),
        copy_record(&d.transform_record),
        status,
    )
}

/// The step after the final text is known.
fn after_final(d: &mut Dictation, s: &Settings) -> (r: DictationAction)
    ensures
        after_final_text(r, *s, *final(d)),
        final(d).raw_text == old(d).raw_text,
        final(d).cleaned_text == old(d).cleaned_text,
        final(d).final_text == old(d).final_text,
        final(d).transform == old(d).transform,
        final(d).transform_model == old(d).transform_model,
        final(d).transform_record == old(d).transform_record,
{
    if d.final_text.unicode_len() > 0 {
        d.stage = DictationStage::Pasting;
        DictationAction::Paste(d.final_text.clone())
    } else {
        d.stage = DictationStage::Done;
        let entry = dictation_entry(s, d, String::from_str("skipped"));
        DictationAction::Finish { entry: Some(entry), result: Ok(String::new()) }
    }
}

/// One step of a dictation: given what the last action gave, moves the dictation on and says
/// what to do next.
/// - A recording that could not be saved ends the dictation with the error, and a silent take
///   ends it with an empty text; neither is transcribed, transformed, pasted or kept in the
///   history.
/// - A saved take is transcribed with the configured engine (an unknown engine ends the
///   dictation with an error); a failed transcription ends it with the engine's error.
/// - The transcript is cleaned; when transforms are on, the text is not empty and a transform is
///   selected, it is transformed, and the transform's outcome decides the final text.
/// - A final text that is not empty is pasted; the dictation then ends with the text, or with
///   the paste's error, and in both cases keeps its history entry. An empty final text is not
///   pasted and ends the dictation with an empty text and a history entry.
/// - An event that does not belong to the stage changes nothing.
#[verifier::rlimit(50)]
pub fn dictation_step(d: &mut Dictation, s: &Settings, event: DictationEvent) -> (r: DictationAction)
    ensures
        ({
            let before = *old(d);
            let after = *final(d);
            match (before.stage, event) {
                (DictationStage::Saving, DictationEvent::Saved(Err(e))) => {
                    &&& after.stage == DictationStage::Done
                    &&& finishes_without_entry(r, Err(e@))
                },
                (DictationStage::Saving, DictationEvent::Saved(Ok(saved))) => {
                    if saved.should_cancel_transcription {
                        &&& after.stage == DictationStage::Done
                        &&& finishes_without_entry(r, Ok(seq![]))
                    } else if s.engine@ == "local"@ || s.engine@ == "cloud"@ {
                        &&& after.stage == DictationStage::Transcribing
                        &&& r matches DictationAction::Transcribe(request)
                        &&& is_transcription_request(request, *s)
                    } else {
                        &&& after.stage == DictationStage::Done
                        &&& finishes_without_entry(r, Err("Unknown engine: "@ + s.engine@))
                    }
                },
                (DictationStage::Transcribing, DictationEvent::Transcribed(Err(e))) => {
                    &&& after.stage == DictationStage::Done
                    &&& finishes_without_entry(r, Err(e@))
                },
                (DictationStage::Transcribing, DictationEvent::Transcribed(Ok(raw))) => {
                    &&& after.raw_text == raw
                    &&& after.cleaned_text@ == trim(raw@)
                    &&& after.transform_record == before.transform_record
                    &&& if s.auto_polish && trim(raw@).len() > 0 && dictation_transform(*s) is Some {
                        &&& after.stage == DictationStage::Transforming
                        &&& after.final_text@ == trim(raw@)
                        &&& after.transform == dictation_transform(*s)
                        &&& after.transform_model@ == selected_model(
                            s.transform_model_mode@,
                            s.transform_model_id@,
                            DEFAULT_TRANSFORM_MODEL_ID@,
                        )
                        &&& r matches DictationAction::Transform { transform, model, input }
                        &&& Some(transform) == dictation_transform(*s)
                        &&& model@ == after.transform_model@
                        &&& input@ == trim(raw@)
                    } else {
                        &&& after.final_text@ == trim(raw@)
                        &&& after_final_text(r, *s, after)
                    }
                },
                (DictationStage::Transforming, DictationEvent::Transformed(outcome)) => {
                    if before.transform is Some {
                        &&& after.raw_text == before.raw_text
                        &&& after.cleaned_text == before.cleaned_text
                        &&& after.final_text@ == transform_final_text(
                            before.cleaned_text@,
                            result_texts(outcome),
                        )
                        &&& after.transform_record matches Some(record)
                        &&& record.id == before.transform->0.id
                        &&& record.name == before.transform->0.name
                        &&& record.icon == before.transform->0.icon
                        &&& record.model == before.transform_model
                        &&& record.system_prompt == before.transform->0.system_prompt
                        &&& record.input_text == before.cleaned_text
                        &&& match outcome {
                            Ok(_) => {
                                &&& record.output_text@ == after.final_text@
                                &&& record.status@ == "applied"@
                                &&& record.error@.len() == 0
                            },
                            Err(e) => {
                                &&& record.output_text@.len() == 0
                                &&& record.status@ == "failed"@
                                &&& record.error == e
                            },
                        }
                        &&& after_final_text(r, *s, after)
                    } else {
                        &&& after == before
                        &&& r is Wait
                    }
                },
                (DictationStage::Pasting, DictationEvent::Pasted(paste)) => {
                    &&& after.stage == DictationStage::Done
                    &&& after.raw_text == before.raw_text
                    &&& after.cleaned_text == before.cleaned_text
                    &&& after.final_text == before.final_text
                    &&& after.transform_record == before.transform_record
                    &&& finishes_with_entry(
                        r,
                        *s,
                        after,
                        if before.final_text@.len() == 0 {
                            "skipped"@
                        } else if paste is Ok {
                            "pasted"@
                        } else {
                            "failed"@
                        },
                        match paste {
                            Ok(()) => Ok(before.final_text@),
                            Err(e) => Err(e@),
                        },
                    )
                },
                _ => {
                    &&& after == before
                    &&& r is Wait
                },
            }
        }),
{
    match (d.stage, event) {
        (DictationStage::Saving, DictationEvent::Saved(Err(e))) => {
            d.stage = DictationStage::Done;
            DictationAction::Finish { entry: None, result: Err(e) }
        },
        (DictationStage::Saving, DictationEvent::Saved(Ok(saved))) => {
            if saved.should_cancel_transcription {
                d.stage = DictationStage::Done;
                return DictationAction::Finish { entry: None, result: Ok(String::new()) };
            }
            match transcription_request(s) {
                Ok(request) => {
                    d.stage = DictationStage::Transcribing;
                    DictationAction::Transcribe(request)
                },
                Err(e) => {
                    d.stage = DictationStage::Done;
                    DictationAction::Finish { entry: None, result: Err(e) }
                },
            }
        },
        (DictationStage::Transcribing, DictationEvent::Transcribed(Err(e))) => {
            d.stage = DictationStage::Done;
            DictationAction::Finish { entry: None, result: Err(e) }
        },
        (DictationStage::Transcribing, DictationEvent::Transcribed(Ok(raw))) => {
            let cleaned = cleanup_text(raw.as_str());
            d.raw_text = raw;
            d.final_text = cleaned.clone();
            d.cleaned_text = cleaned;
            if wants_transform(s.auto_polish, d.cleaned_text.as_str()) {
                match s.selected_transform() {
                    Some(t) => {
                        let transform = copy_transform(t);
                        let model = s.transform_model();
                        d.stage = DictationStage::Transforming;
                        d.transform = Some(copy_transform(t));
                        d.transform_model = model.clone();
                        return DictationAction::Transform {
                            transform,
                            model,
                            input: d.cleaned_text.clone(),
                        };
                    },
                    None => {},
                }
            }
            after_final(d, s)
        },
        (DictationStage::Transforming, DictationEvent::Transformed(outcome)) => {
            match &d.transform {
                Some(t) => {
                    let resolution = resolve_transform(
                        t,
                        d.transform_model.clone(),
                        d.cleaned_text.clone(),
                        outcome,
                    );
                    d.final_text = resolution.final_text;
                    d.transform_record = Some(resolution.record);
                    after_final(d, s)
                },
                None => DictationAction::Wait,
            }
        },
        (DictationStage::Pasting, DictationEvent::Pasted(paste)) => {
            d.stage = DictationStage::Done;
            let status = paste_status(d.final_text.as_str(), &paste);
            let entry = dictation_entry(s, d, status);
            let result = dictation_result(d.final_text.clone(), paste);
            DictationAction::Finish { entry: Some(entry), result }
        },
        _ => DictationAction::Wait,
    }
}

} // verus!
