use vstd::prelude::*;
use crate::text::{
    is_trimmed, lemma_trim_is_trimmed, lemma_trimmed_is_fixed, is_blank, is_blank_text, text_eq, to_lowercase_text, trim, trim_text, unicode_lowercase,
};
use crate::paths::join_path;
use crate::transforms::{
    default_transforms, default_transform_views, lemma_default_transforms_normalized, has_transform_id,
    first_with_id, normalize_transform_list, normalized_default_transform,
    normalized_transforms, position_of_transform, transform_views, lemma_first_with_id,
    transforms_are_normalized, lemma_normalized_transforms_valid, lemma_normalized_transforms_fixed,
};
pub use crate::transforms::TextTransform;
use crate::languages::{
    is_lowercase_word, is_supported_language, lemma_language_codes_are_lowercase_words, lemma_lowercase_word_is_fixed,
    supported_language_codes,
};

verus! {

pub const DEFAULT_HOTKEY: &'static str = "Ctrl+Option+Space";
pub const LEGACY_DEFAULT_HOTKEY: &'static str = "CmdOrCtrl+Shift+Space";
pub const DEFAULT_TRANSCRIPT_MODEL_ID: &'static str = "whisper-large-v3-turbo";
pub const DEFAULT_TRANSFORM_MODEL_ID: &'static str = "openai/gpt-oss-120b";
pub const DEFAULT_MODEL_MODE: &'static str = "default";
pub const CUSTOM_MODEL_MODE: &'static str = "custom";

/// The user's preferences.
#[derive(Debug, Clone, PartialEq)]
pub struct Settings {
    pub microphone: String,
    pub engine: String,
    pub whisper_model: String,
    pub groq_api_key: String,
    pub transcript_model_mode: String,
    pub transcript_model_id: String,
    pub transcript_languages: Vec<String>,
    pub transform_model_mode: String,
    pub transform_model_id: String,
    pub auto_polish: bool,
    pub default_transform: String,
    pub transforms: Vec<TextTransform>,
    pub recording_mode: String,
    pub start_on_login: bool,
    pub dock_size: String,
    pub dock_shape: String,
    pub dock_color: String,
    pub dock_position: String,
    pub dock_inset: i32,
    pub dock_width_offset: i32,
    pub dock_height_offset: i32,
    pub hotkey: String,
}

/// The texts of a list of strings.
pub open spec fn texts(v: Seq<String>) -> Seq<Seq<char>> {
    v.map_values(|s: String| s@)
}

/// A model mode is either the default one or a custom model id.
pub open spec fn is_model_mode(mode: Seq<char>) -> bool {
    mode == DEFAULT_MODEL_MODE@ || mode == CUSTOM_MODEL_MODE@
}

/// The model that a mode and an id select: the trimmed id when the mode is custom and the id is
/// not blank, else the given default.
pub open spec fn selected_model(mode: Seq<char>, id: Seq<char>, default: Seq<char>) -> Seq<char> {
    if mode == CUSTOM_MODEL_MODE@ && !is_blank(id) {
        trim(id)
    } else {
        default
    }
}

/// The fields that no normalization touches are equal.
pub open spec fn same_identity(a: Settings, b: Settings) -> bool {
    &&& a.microphone == b.microphone
    &&& a.engine == b.engine
    &&& a.whisper_model == b.whisper_model
    &&& a.groq_api_key == b.groq_api_key
    &&& a.auto_polish == b.auto_polish
    &&& a.recording_mode == b.recording_mode
    &&& a.start_on_login == b.start_on_login
    &&& a.hotkey == b.hotkey
}

/// The model preferences are equal.
pub open spec fn same_models(a: Settings, b: Settings) -> bool {
    &&& a.transcript_model_mode == b.transcript_model_mode
    &&& a.transcript_model_id == b.transcript_model_id
    &&& a.transform_model_mode == b.transform_model_mode
    &&& a.transform_model_id == b.transform_model_id
}

/// The transcription languages are equal.
pub open spec fn same_languages(a: Settings, b: Settings) -> bool {
    a.transcript_languages == b.transcript_languages
}

/// The transforms and the default transform are equal.
pub open spec fn same_transforms(a: Settings, b: Settings) -> bool {
    &&& a.transforms == b.transforms
    &&& a.default_transform == b.default_transform
}

/// The dock preferences are equal.
pub open spec fn same_dock(a: Settings, b: Settings) -> bool {
    &&& a.dock_size == b.dock_size
    &&& a.dock_shape == b.dock_shape
    &&& a.dock_color == b.dock_color
    &&& a.dock_position == b.dock_position
    &&& a.dock_inset == b.dock_inset
    &&& a.dock_width_offset == b.dock_width_offset
    &&& a.dock_height_offset == b.dock_height_offset
}

/// The dock sizes that the overlay knows.
pub open spec fn is_dock_size(v: Seq<char>) -> bool {
    v == "compact"@ || v == "regular"@ || v == "large"@
}

/// The dock shapes that the overlay knows.
pub open spec fn is_dock_shape(v: Seq<char>) -> bool {
    v == "pill"@ || v == "rounded"@ || v == "square"@
}

/// The dock colors that the overlay knows.
pub open spec fn is_dock_color(v: Seq<char>) -> bool {
    v == "charcoal"@ || v == "graphite"@ || v == "plum"@ || v == "moss"@ || v == "rose"@
}

/// The dock positions that the overlay knows.
pub open spec fn is_dock_position(v: Seq<char>) -> bool {
    ||| v == "bottom-center"@
    ||| v == "bottom-left"@
    ||| v == "bottom-right"@
    ||| v == "top-center"@
    ||| v == "top-left"@
    ||| v == "top-right"@
}

/// The value when it is known, else the default.
pub open spec fn known_or(known: bool, v: Seq<char>, default: Seq<char>) -> Seq<char> {
    if known {
        v
    } else {
        default
    }
}

/// `x` limited to `[lo, hi]`.
pub open spec fn clamp_int(x: int, lo: int, hi: int) -> int {
    if x < lo {
        lo
    } else if x > hi {
        hi
    } else {
        x
    }
}

/// The multiple of `step` nearest to `x`, halves rounded away from zero.
pub open spec fn round_to_step(x: int, step: int) -> int {
    if x >= 0 {
        ((2 * x + step) / (2 * step)) * step
    } else {
        -(((-2 * x + step) / (2 * step)) * step)
    }
}

/// A dock offset limited to `[lo, hi]` and rounded to a multiple of `step`.
pub open spec fn dock_offset(x: int, lo: int, hi: int, step: int) -> int {
    round_to_step(clamp_int(x, lo, hi), step)
}

fn is_dock_size_text(v: &str) -> (r: bool)
    ensures
        r == is_dock_size(v@),
{
    text_eq(v, "compact") || text_eq(v, "regular") || text_eq(v, "large")
}

fn is_dock_shape_text(v: &str) -> (r: bool)
    ensures
        r == is_dock_shape(v@),
{
    text_eq(v, "pill") || text_eq(v, "rounded") || text_eq(v, "square")
}

fn is_dock_color_text(v: &str) -> (r: bool)
    ensures
        r == is_dock_color(v@),
{
    text_eq(v, "charcoal") || text_eq(v, "graphite") || text_eq(v, "plum") || text_eq(v, "moss")
        || text_eq(v, "rose")
}

fn is_dock_position_text(v: &str) -> (r: bool)
    ensures
        r == is_dock_position(v@),
{
    text_eq(v, "bottom-center") || text_eq(v, "bottom-left") || text_eq(v, "bottom-right")
        || text_eq(v, "top-center") || text_eq(v, "top-left") || text_eq(v, "top-right")
}

fn dock_offset_value(x: i32, lo: i32, hi: i32, step: i32) -> (r: i32)
    requires
        -1000 <= lo <= hi <= 1000,
        0 < step <= 100,
    ensures
        r == dock_offset(x as int, lo as int, hi as int, step as int),
{
    let c = if x < lo {
        lo
    } else if x > hi {
        hi
    } else {
        x
    };
    if c >= 0 {
        let q = (2 * c + step) / (2 * step);
        assert(0 <= q <= 2000) by (nonlinear_arith)
            requires
                q == (2 * c + step) / (2 * step),
                0 <= c <= 1000,
                0 < step <= 100,
        ;
        assert(q * step <= 200000) by (nonlinear_arith)
            requires
                0 <= q <= 2000,
                0 < step <= 100,
        ;
        q * step
    } else {
        let q = (-2 * c + step) / (2 * step);
        assert(0 <= q <= 2000) by (nonlinear_arith)
            requires
                q == (-2 * c + step) / (2 * step),
                -1000 <= c < 0,
                0 < step <= 100,
        ;
        assert(q * step <= 200000) by (nonlinear_arith)
            requires
                0 <= q <= 2000,
                0 < step <= 100,
        ;
        -(q * step)
    }
}

/// The code that a language entry stands for: trimmed and lowercased.
pub open spec fn language_code(entry: Seq<char>) -> Seq<char> {
    unicode_lowercase(trim(entry))
}

/// The accepted codes of the entries, first occurrence kept, in order.
pub open spec fn collect_languages(entries: Seq<Seq<char>>) -> Seq<Seq<char>>
    decreases entries.len(),
{
    if entries.len() == 0 {
        seq![]
    } else {
        let acc = collect_languages(entries.drop_last());
        let code = language_code(entries.last());
        if supported_language_codes().contains(code) && !acc.contains(code) {
            acc.push(code)
        } else {
            acc
        }
    }
}

/// The accepted codes of the entries, or English alone when none is accepted.
pub open spec fn normalized_languages(entries: Seq<Seq<char>>) -> Seq<Seq<char>> {
    if collect_languages(entries).len() == 0 {
        seq!["en"@]
    } else {
        collect_languages(entries)
    }
}

/// A list of language codes as normalization leaves it: not empty, every code accepted, none
/// twice.
pub open spec fn languages_are_normalized(codes: Seq<Seq<char>>) -> bool {
    &&& codes.len() > 0
    &&& forall|i: int| 0 <= i < codes.len() ==> supported_language_codes().contains(#[trigger] codes[i])
    &&& codes.no_duplicates()
}

proof fn lemma_collect_languages_valid(entries: Seq<Seq<char>>)
    ensures
        forall|i: int|
            0 <= i < collect_languages(entries).len() ==> supported_language_codes().contains(
                #[trigger] collect_languages(entries)[i],
            ),
        collect_languages(entries).no_duplicates(),
    decreases entries.len(),
{
    if entries.len() > 0 {
        lemma_collect_languages_valid(entries.drop_last());
    }
}

/// English is an accepted code.
pub proof fn lemma_english_is_supported()
    ensures
        supported_language_codes().contains("en"@),
{
    assert(supported_language_codes()[18] == "en"@);
}

/// The normalized language list is a normalized list of codes.
pub proof fn lemma_normalized_languages_valid(entries: Seq<Seq<char>>)
    ensures
        languages_are_normalized(normalized_languages(entries)),
{
    lemma_collect_languages_valid(entries);
    lemma_english_is_supported();
    if collect_languages(entries).len() == 0 {
        let l = seq!["en"@];
        assert(l[0] == "en"@);
    }
}

/// The languages of whisper.cpp that dictation offers, in the order of its language list.
pub open spec fn whisper_language_codes() -> Seq<Seq<char>> {
    seq![
        "af"@, "am"@, "ar"@, "as"@, "az"@, "ba"@, "be"@, "bg"@, "bn"@, "bo"@, "br"@, "bs"@,
        "ca"@, "cs"@, "cy"@, "da"@, "de"@, "el"@, "en"@, "es"@, "et"@, "eu"@, "fa"@, "fi"@,
        "fo"@, "fr"@, "gl"@, "gu"@, "ha"@, "haw"@, "he"@, "hi"@, "hr"@, "ht"@, "hu"@, "hy"@,
        "id"@, "is"@, "it"@, "ja"@, "jw"@, "ka"@, "kk"@, "km"@, "kn"@, "ko"@, "la"@, "lb"@,
        "ln"@, "lo"@, "lt"@, "lv"@, "mg"@, "mi"@, "mk"@, "ml"@, "mn"@, "mr"@, "ms"@, "mt"@,
        "my"@, "ne"@, "nl"@, "nn"@, "no"@, "oc"@, "pa"@, "pl"@, "ps"@, "pt"@, "ro"@, "ru"@,
        "sa"@, "sd"@, "si"@, "sk"@, "sl"@, "sn"@, "so"@, "sq"@, "sr"@, "su"@, "sv"@, "sw"@,
        "ta"@, "te"@, "tg"@, "th"@, "tk"@, "tl"@, "tr"@, "tt"@, "uk"@, "ur"@, "uz"@, "vi"@,
        "yi"@, "yo"@, "zh"@, "yue"@,
    ]
}

/// The accepted language codes are exactly the languages of whisper.cpp: every one of them, and
/// no other code, is accepted.
pub proof fn lemma_accepted_languages_are_whisper_languages()
    ensures
        forall|c: Seq<char>| #[trigger] supported_language_codes().contains(c)
            <==> whisper_language_codes().contains(c),
{
    assert(supported_language_codes() =~= whisper_language_codes());
}

/// Normalizing keeps a language list made of one whisper.cpp language code: e.g. Spanish (`es`)
/// stays Spanish.
pub proof fn lemma_whisper_language_is_kept(a: Settings, b: Settings, c: Seq<char>)
    requires
        languages_normalized_from(a, b),
        texts(a.transcript_languages@) == seq![c],
        whisper_language_codes().contains(c),
    ensures
        texts(b.transcript_languages@) == seq![c],
{
    lemma_accepted_languages_are_whisper_languages();
    assert(seq![c].no_duplicates());
    assert(seq![c][0] == c);
}

/// The model preferences as normalization leaves them: known modes, trimmed ids.
pub open spec fn models_are_normalized(s: Settings) -> bool {
    &&& is_model_mode(s.transcript_model_mode@)
    &&& is_model_mode(s.transform_model_mode@)
    &&& is_trimmed(s.transcript_model_id@)
    &&& is_trimmed(s.transform_model_id@)
}

/// The model preferences of `b` are those of `a` once normalized.
pub open spec fn models_normalized_from(a: Settings, b: Settings) -> bool {
    &&& b.transcript_model_mode@ == known_or(
        is_model_mode(a.transcript_model_mode@),
        a.transcript_model_mode@,
        DEFAULT_MODEL_MODE@,
    )
    &&& b.transform_model_mode@ == known_or(
        is_model_mode(a.transform_model_mode@),
        a.transform_model_mode@,
        DEFAULT_MODEL_MODE@,
    )
    &&& b.transcript_model_id@ == trim(a.transcript_model_id@)
    &&& b.transform_model_id@ == trim(a.transform_model_id@)
    &&& models_are_normalized(b)
    &&& models_are_normalized(a) ==> same_model_texts(a, b)
}

/// The model preferences read the same.
pub open spec fn same_model_texts(a: Settings, b: Settings) -> bool {
    &&& a.transcript_model_mode@ == b.transcript_model_mode@
    &&& a.transcript_model_id@ == b.transcript_model_id@
    &&& a.transform_model_mode@ == b.transform_model_mode@
    &&& a.transform_model_id@ == b.transform_model_id@
}

/// A dock offset as normalization leaves it: within `[lo, hi]` and a multiple of `step`.
pub open spec fn offset_is_normalized(x: int, lo: int, hi: int, step: int) -> bool {
    lo <= x <= hi && x % step == 0
}

/// The dock preferences as normalization leaves them.
pub open spec fn dock_is_normalized(s: Settings) -> bool {
    &&& is_dock_size(s.dock_size@)
    &&& is_dock_shape(s.dock_shape@)
    &&& is_dock_color(s.dock_color@)
    &&& is_dock_position(s.dock_position@)
    &&& offset_is_normalized(s.dock_inset as int, -80, 80, 10)
    &&& offset_is_normalized(s.dock_width_offset as int, -20, 80, 10)
    &&& offset_is_normalized(s.dock_height_offset as int, -12, 24, 4)
}

/// The dock preferences read the same.
pub open spec fn same_dock_texts(a: Settings, b: Settings) -> bool {
    &&& a.dock_size@ == b.dock_size@
    &&& a.dock_shape@ == b.dock_shape@
    &&& a.dock_color@ == b.dock_color@
    &&& a.dock_position@ == b.dock_position@
    &&& a.dock_inset == b.dock_inset
    &&& a.dock_width_offset == b.dock_width_offset
    &&& a.dock_height_offset == b.dock_height_offset
}

/// The dock preferences of `b` are those of `a` once normalized.
pub open spec fn dock_normalized_from(a: Settings, b: Settings) -> bool {
    &&& b.dock_size@ == known_or(is_dock_size(a.dock_size@), a.dock_size@, "regular"@)
    &&& b.dock_shape@ == known_or(is_dock_shape(a.dock_shape@), a.dock_shape@, "pill"@)
    &&& b.dock_color@ == known_or(is_dock_color(a.dock_color@), a.dock_color@, "charcoal"@)
    &&& b.dock_position@ == known_or(is_dock_position(a.dock_position@), a.dock_position@, "bottom-center"@)
    &&& b.dock_inset == dock_offset(a.dock_inset as int, -80, 80, 10)
    &&& b.dock_width_offset == dock_offset(a.dock_width_offset as int, -20, 80, 10)
    &&& b.dock_height_offset == dock_offset(a.dock_height_offset as int, -12, 24, 4)
    &&& dock_is_normalized(b)
    &&& dock_is_normalized(a) ==> same_dock_texts(a, b)
}

/// The language list of `b` is that of `a` once normalized.
pub open spec fn languages_normalized_from(a: Settings, b: Settings) -> bool {
    &&& texts(b.transcript_languages@) == normalized_languages(texts(a.transcript_languages@))
    &&& languages_are_normalized(texts(b.transcript_languages@))
    &&& languages_are_normalized(texts(a.transcript_languages@)) ==> texts(b.transcript_languages@)
        == texts(a.transcript_languages@)
}

/// The transforms and default transform of `b` are those of `a` once normalized.
pub open spec fn transforms_normalized_from(a: Settings, b: Settings) -> bool {
    &&& transform_views(b.transforms@) == normalized_transforms(transform_views(a.transforms@))
    &&& b.default_transform@ == normalized_default_transform(
        transform_views(a.transforms@),
        a.default_transform@,
    )
    &&& transforms_are_normalized(transform_views(b.transforms@), b.default_transform@)
    &&& transforms_are_normalized(transform_views(a.transforms@), a.default_transform@) ==> (
    transform_views(b.transforms@) == transform_views(a.transforms@) && b.default_transform@
        == a.default_transform@)
}

/// Settings as normalization leaves them.
pub open spec fn settings_are_normalized(s: Settings) -> bool {
    &&& models_are_normalized(s)
    &&& languages_are_normalized(texts(s.transcript_languages@))
    &&& transforms_are_normalized(transform_views(s.transforms@), s.default_transform@)
    &&& dock_is_normalized(s)
}

/// The normalized preferences read the same.
pub open spec fn same_preference_texts(a: Settings, b: Settings) -> bool {
    &&& same_model_texts(a, b)
    &&& texts(a.transcript_languages@) == texts(b.transcript_languages@)
    &&& transform_views(a.transforms@) == transform_views(b.transforms@)
    &&& a.default_transform@ == b.default_transform@
    &&& same_dock_texts(a, b)
}

/// `b` holds the preferences of `a` once normalized.
pub open spec fn normalized_from(a: Settings, b: Settings) -> bool {
    &&& models_normalized_from(a, b)
    &&& languages_normalized_from(a, b)
    &&& transforms_normalized_from(a, b)
    &&& dock_normalized_from(a, b)
}

proof fn lemma_round_tens(c: int)
    requires
        -80 <= c <= 80,
    ensures
        round_to_step(c, 10) == (if c >= 0 { ((2 * c + 10) / 20) * 10 } else { -(((-2 * c + 10) / 20) * 10) }),
        -80 <= round_to_step(c, 10) <= 80,
        round_to_step(c, 10) % 10 == 0,
        c % 10 == 0 ==> round_to_step(c, 10) == c,
{
    assert(2 * 10 == 20);
    if c >= 0 {
        let q = (2 * c + 10) / 20;
        assert(0 <= q <= 8);
        assert((q * 10) % 10 == 0);
        if c % 10 == 0 {
            assert(q * 10 == c);
        }
    } else {
        let q = (-2 * c + 10) / 20;
        assert(0 <= q <= 8);
        assert((-(q * 10)) % 10 == 0);
        if c % 10 == 0 {
            assert(-(q * 10) == c);
        }
    }
}

proof fn lemma_round_fours(c: int)
    requires
        -12 <= c <= 24,
    ensures
        -12 <= round_to_step(c, 4) <= 24,
        round_to_step(c, 4) % 4 == 0,
        c % 4 == 0 ==> round_to_step(c, 4) == c,
{
    assert(2 * 4 == 8);
    if c >= 0 {
        let q = (2 * c + 4) / 8;
        assert(0 <= q <= 6);
        assert((q * 4) % 4 == 0);
        if c % 4 == 0 {
            assert(q * 4 == c);
        }
    } else {
        let q = (-2 * c + 4) / 8;
        assert(0 <= q <= 3);
        assert((-(q * 4)) % 4 == 0);
        if c % 4 == 0 {
            assert(-(q * 4) == c);
        }
    }
}

proof fn lemma_dock_offsets(x: int)
    ensures
        offset_is_normalized(dock_offset(x, -80, 80, 10), -80, 80, 10),
        offset_is_normalized(dock_offset(x, -20, 80, 10), -20, 80, 10),
        offset_is_normalized(dock_offset(x, -12, 24, 4), -12, 24, 4),
        offset_is_normalized(x, -80, 80, 10) ==> dock_offset(x, -80, 80, 10) == x,
        offset_is_normalized(x, -20, 80, 10) ==> dock_offset(x, -20, 80, 10) == x,
        offset_is_normalized(x, -12, 24, 4) ==> dock_offset(x, -12, 24, 4) == x,
{
    lemma_round_tens(clamp_int(x, -80, 80));
    lemma_round_tens(clamp_int(x, -20, 80));
    lemma_round_fours(clamp_int(x, -12, 24));
}

/// True when the text occurs in the list.
pub fn contains_text(v: &Vec<String>, s: &str) -> (r: bool)
    ensures
        r == texts(v@).contains(s@),
{
    let mut k: usize = 0;
    while k < v.len()
        invariant
            k <= v.len(),
            forall|m: int| 0 <= m < k ==> v@[m]@ != s@,
        decreases v.len() - k,
    {
        if text_eq(v[k].as_str(), s) {
            assert(texts(v@)[k as int] == s@);
            return true;
        }
        k = k + 1;
    }
    proof {
        if texts(v@).contains(s@) {
            let m = choose|m: int| 0 <= m < texts(v@).len() && texts(v@)[m] == s@;
            assert(v@[m]@ == s@);
        }
    }
    false
}

fn chosen_model(mode: &String, id: &String, default: &str) -> (r: String)
    ensures
        r@ == selected_model(mode@, id@, default@),
{
    if text_eq(mode.as_str(), CUSTOM_MODEL_MODE) && !is_blank_text(id.as_str()) {
        trim_text(id.as_str())
    } else {
        String::from_str(default)
    }
}

/// The built-in transcription language list: English alone.
pub fn default_transcript_languages() -> (r: Vec<String>)
    ensures
        texts(r@) == seq!["en"@],
{
    let mut r: Vec<String> = Vec::new();
    r.push(String::from_str("en"));
    assert(texts(r@) =~= seq!["en"@]);
    r
}

/// Transforms are applied unless turned off.
pub fn default_auto_polish() -> (r: bool)
    ensures
        r,
{
    true
}

/// Start on login is off unless turned on.
pub fn default_start_on_login() -> (r: bool)
    ensures
        !r,
{
    false
}

/// The built-in default transform id.
pub fn default_transform() -> (r: String)
    ensures
        r@ == "polish"@,
{
    String::from_str("polish")
}

/// The built-in dock size.
pub fn default_dock_size() -> (r: String)
    ensures
        r@ == "regular"@,
{
    String::from_str("regular")
}

/// The built-in dock shape.
pub fn default_dock_shape() -> (r: String)
    ensures
        r@ == "pill"@,
{
    String::from_str("pill")
}

/// The built-in dock color.
pub fn default_dock_color() -> (r: String)
    ensures
        r@ == "charcoal"@,
{
    String::from_str("charcoal")
}

/// The built-in dock position.
pub fn default_dock_position() -> (r: String)
    ensures
        r@ == "bottom-center"@,
{
    String::from_str("bottom-center")
}

/// The built-in dock inset.
pub fn default_dock_inset() -> (r: i32)
    ensures
        r == 0,
{
    0
}

/// The built-in dock width offset.
pub fn default_dock_width_offset() -> (r: i32)
    ensures
        r == 0,
{
    0
}

/// The built-in dock height offset.
pub fn default_dock_height_offset() -> (r: i32)
    ensures
        r == 0,
{
    0
}

/// The built-in model mode.
pub fn default_model_mode() -> (r: String)
    ensures
        r@ == DEFAULT_MODEL_MODE@,
{
    String::from_str(DEFAULT_MODEL_MODE)
}

/// The settings of a first start.
pub open spec fn is_default_settings(s: Settings) -> bool {
    &&& s.microphone@ == "default"@
    &&& s.engine@ == "local"@
    &&& s.whisper_model@ == "small"@
    &&& s.groq_api_key@ == Seq::<char>::empty()
    &&& s.transcript_model_mode@ == DEFAULT_MODEL_MODE@
    &&& s.transcript_model_id@ == Seq::<char>::empty()
    &&& texts(s.transcript_languages@) == seq!["en"@]
    &&& s.transform_model_mode@ == DEFAULT_MODEL_MODE@
    &&& s.transform_model_id@ == Seq::<char>::empty()
    &&& s.auto_polish
    &&& s.default_transform@ == "polish"@
    &&& transform_views(s.transforms@) == default_transform_views()
    &&& s.recording_mode@ == "toggle"@
    &&& !s.start_on_login
    &&& s.dock_size@ == "regular"@
    &&& s.dock_shape@ == "pill"@
    &&& s.dock_color@ == "charcoal"@
    &&& s.dock_position@ == "bottom-center"@
    &&& s.dock_inset == 0
    &&& s.dock_width_offset == 0
    &&& s.dock_height_offset == 0
    &&& s.hotkey@ == DEFAULT_HOTKEY@
}

impl Default for Settings {
    fn default() -> (r: Self)
        ensures
            is_default_settings(r),
    {
        Settings {
            microphone: String::from_str("default"),
            engine: String::from_str("local"),
            whisper_model: String::from_str("small"),
            groq_api_key: String::new(),
            transcript_model_mode: default_model_mode(),
            transcript_model_id: String::new(),
            transcript_languages: default_transcript_languages(),
            transform_model_mode: default_model_mode(),
            transform_model_id: String::new(),
            auto_polish: default_auto_polish(),
            default_transform: default_transform(),
            transforms: default_transforms(),
            recording_mode: String::from_str("toggle"),
            start_on_login: default_start_on_login(),
            dock_size: default_dock_size(),
            dock_shape: default_dock_shape(),
            dock_color: default_dock_color(),
            dock_position: default_dock_position(),
            dock_inset: default_dock_inset(),
            dock_width_offset: default_dock_width_offset(),
            dock_height_offset: default_dock_height_offset(),
            hotkey: String::from_str(DEFAULT_HOTKEY),
        }
    }
}

/// The hotkey kept when stored settings are read: the former default hotkey becomes the current
/// default hotkey.
pub open spec fn migrated_hotkey(hotkey: Seq<char>) -> Seq<char> {
    if hotkey == LEGACY_DEFAULT_HOTKEY@ {
        DEFAULT_HOTKEY@
    } else {
        hotkey
    }
}

/// The fields that no normalization touches, but for the hotkey, are equal.
pub open spec fn same_identity_but_hotkey(a: Settings, b: Settings) -> bool {
    &&& a.microphone == b.microphone
    &&& a.engine == b.engine
    &&& a.whisper_model == b.whisper_model
    &&& a.groq_api_key == b.groq_api_key
    &&& a.auto_polish == b.auto_polish
    &&& a.recording_mode == b.recording_mode
    &&& a.start_on_login == b.start_on_login
}

/// `r` holds the stored settings `s` as they are read: the former default hotkey migrated and
/// every preference normalized.
pub open spec fn loaded_from(s: Settings, r: Settings) -> bool {
    &&& r.hotkey@ == migrated_hotkey(s.hotkey@)
    &&& same_identity_but_hotkey(s, r)
    &&& normalized_from(s, r)
}

/// Saving settings and reading them back gives what was saved: once `b` holds the normalized
/// preferences of `a` (as saving writes them), reading `b` back into `c` leaves every preference
/// and every other field as it is in `b`, the former default hotkey aside.
pub proof fn lemma_save_then_load_round_trip(a: Settings, b: Settings, c: Settings)
    requires
        normalized_from(a, b),
        same_identity(a, b),
        loaded_from(b, c),
    ensures
        same_preference_texts(b, c),
        same_identity_but_hotkey(b, c),
        c.hotkey@ == migrated_hotkey(b.hotkey@),
        b.hotkey@ != LEGACY_DEFAULT_HOTKEY@ ==> c.hotkey@ == b.hotkey@,
{
}

/// Once the transforms are normalized, the selected transform is the default transform.
pub proof fn lemma_normalized_selection_is_default(ts: Seq<crate::transforms::TransformView>, default: Seq<char>)
    requires
        transforms_are_normalized(ts, default),
    ensures
        first_with_id(ts, default) matches Some(i) && 0 <= i < ts.len() && ts[i].id == default,
{
    lemma_first_with_id(ts, default);
}

/// Normalizing settings twice gives what normalizing them once gave: once `b` holds the
/// normalized preferences of `a`, normalizing `b` into `c` leaves every preference as it reads
/// in `b`.
pub proof fn lemma_normalize_is_idempotent(a: Settings, b: Settings, c: Settings)
    requires
        normalized_from(a, b),
        normalized_from(b, c),
    ensures
        settings_are_normalized(b),
        same_preference_texts(b, c),
{
}

/// The settings of a first start are already normalized, so normalizing them changes nothing.
pub proof fn lemma_default_settings_are_normalized(s: Settings)
    requires
        is_default_settings(s),
    ensures
        settings_are_normalized(s),
{
    lemma_english_is_supported();
    let l = texts(s.transcript_languages@);
    assert(l[0] == "en"@);
    lemma_default_transforms_normalized();
    let ts = transform_views(s.transforms@);
    assert(ts[0].id == "polish"@);
    assert(has_transform_id(ts, "polish"@));
    crate::transforms::lemma_builtin_texts();
    reveal_strlit("default");
    reveal_strlit("custom");
}

impl Settings {
    /// The path of the settings file in the app's config directory.
    pub fn config_path(app_dir: &str) -> (r: String)
        ensures
            r@ == crate::paths::joined_path(app_dir@, "config.json"@),
    {
        join_path(app_dir, "config.json")
    }

    /// Normalizes every preference group: models, languages, dock and transforms.
    pub fn normalize(&mut self)
        ensures
            normalized_from(*old(self), *final(self)),
            same_identity(*old(self), *final(self)),
    {
        let ghost start = *self;
        self.normalize_model_preferences();
        let ghost after_models = *self;
        self.normalize_language_preferences();
        let ghost after_languages = *self;
        self.normalize_dock_preferences();
        let ghost after_dock = *self;
        self.normalize_transforms();
        assert(models_normalized_from(start, after_models));
        assert(same_models(after_models, *self));
        assert(same_languages(start, after_models));
        assert(same_transforms(start, after_dock));
        assert(same_dock(start, after_languages));
    }

    /// Replaces the former default hotkey with the current one.
    pub fn migrate_legacy_hotkey(&mut self)
        ensures
            final(self).hotkey@ == migrated_hotkey(old(self).hotkey@),
            same_identity_but_hotkey(*old(self), *final(self)),
            same_models(*old(self), *final(self)),
            same_languages(*old(self), *final(self)),
            same_transforms(*old(self), *final(self)),
            same_dock(*old(self), *final(self)),
    {
        if text_eq(self.hotkey.as_str(), LEGACY_DEFAULT_HOTKEY) {
            self.hotkey = String::from_str(DEFAULT_HOTKEY);
        }
    }

    /// The settings to run with, given what was read from the settings file: the defaults when
    /// nothing could be read; else the stored settings with the former default hotkey migrated
    /// and every preference normalized.
    pub fn from_stored(stored: Option<Settings>) -> (r: Settings)
        ensures
            match stored {
                None => is_default_settings(r),
                Some(s) => loaded_from(s, r),
            },
    {
        match stored {
            None => Settings::default(),
            Some(s) => {
                let mut settings = s;
                settings.migrate_legacy_hotkey();
                let ghost migrated = settings;
                settings.normalize();
                assert(normalized_from(migrated, settings));
                settings
            },
        }
    }

    /// The transcription model to use.
    pub fn transcript_model(&self) -> (r: String)
        ensures
            r@ == selected_model(
                self.transcript_model_mode@,
                self.transcript_model_id@,
                DEFAULT_TRANSCRIPT_MODEL_ID@,
            ),
    {
        chosen_model(&self.transcript_model_mode, &self.transcript_model_id, DEFAULT_TRANSCRIPT_MODEL_ID)
    }

    /// The transform model to use.
    pub fn transform_model(&self) -> (r: String)
        ensures
            r@ == selected_model(
                self.transform_model_mode@,
                self.transform_model_id@,
                DEFAULT_TRANSFORM_MODEL_ID@,
            ),
    {
        chosen_model(&self.transform_model_mode, &self.transform_model_id, DEFAULT_TRANSFORM_MODEL_ID)
    }

    /// Repairs the transform list (see `normalize_transform_list`) and points the default
    /// transform at the first transform when no transform has its id.
    pub fn normalize_transforms(&mut self)
        ensures
            transforms_normalized_from(*old(self), *final(self)),
            same_identity(*old(self), *final(self)),
            same_models(*old(self), *final(self)),
            same_languages(*old(self), *final(self)),
            same_dock(*old(self), *final(self)),
    {
        proof {
            lemma_normalized_transforms_valid(transform_views(self.transforms@), self.default_transform@);
            if transforms_are_normalized(transform_views(self.transforms@), self.default_transform@) {
                lemma_normalized_transforms_fixed(transform_views(self.transforms@), self.default_transform@);
            }
        }
        let normalized = normalize_transform_list(&self.transforms);
        let ghost n = transform_views(normalized@);
        match position_of_transform(&normalized, self.default_transform.as_str()) {
            Some(_) => {},
            None => {
                assert(n.len() == normalized@.len());
                assert(normalized@.len() > 0);
                let first = normalized[0].id.clone();
                assert(n[0].id == first@);
                self.default_transform = first;
            },
        }
        self.transforms = normalized;
    }

    /// The transform to apply: the one whose id is the default transform, else the first one.
    pub fn selected_transform(&self) -> (r: Option<&TextTransform>)
        ensures
            match first_with_id(transform_views(self.transforms@), self.default_transform@) {
                Some(i) => r == Some(&self.transforms@[i]),
                None => if self.transforms@.len() > 0 {
                    r == Some(&self.transforms@[0])
                } else {
                    r is None
                },
            },
    {
        proof {
            lemma_first_with_id(transform_views(self.transforms@), self.default_transform@);
        }
        match position_of_transform(&self.transforms, self.default_transform.as_str()) {
            Some(i) => Some(&self.transforms[i]),
            None => {
                if self.transforms.len() > 0 {
                    Some(&self.transforms[0])
                } else {
                    None
                }
            },
        }
    }

    /// Keeps the accepted language codes (trimmed, lowercased, first occurrence, in order), or
    /// English alone when none is accepted.
    pub fn normalize_language_preferences(&mut self)
        ensures
            languages_normalized_from(*old(self), *final(self)),
            same_identity(*old(self), *final(self)),
            same_models(*old(self), *final(self)),
            same_transforms(*old(self), *final(self)),
            same_dock(*old(self), *final(self)),
    {
        let ghost entries = texts(self.transcript_languages@);
        let mut normalized: Vec<String> = Vec::new();
        let mut i: usize = 0;
        while i < self.transcript_languages.len()
            invariant
                i <= self.transcript_languages.len(),
                entries == texts(self.transcript_languages@),
                texts(normalized@) == collect_languages(entries.take(i as int)),
                languages_are_normalized(entries) ==> texts(normalized@) == entries.take(i as int),
            decreases self.transcript_languages.len() - i,
        {
            let trimmed = trim_text(self.transcript_languages[i].as_str());
            let code = to_lowercase_text(trimmed.as_str());
            proof {
                assert(entries.take(i + 1).drop_last() =~= entries.take(i as int));
                assert(entries.take(i + 1).last() == entries[i as int]);
                if languages_are_normalized(entries) {
                    let e = entries[i as int];
                    lemma_language_codes_are_lowercase_words();
                    let k = choose|k: int| 0 <= k < supported_language_codes().len() && supported_language_codes()[k] == e;
                    assert(is_lowercase_word(supported_language_codes()[k]));
                    lemma_lowercase_word_is_fixed(e);
                    assert(code@ == e);
                    assert(!entries.take(i as int).contains(e)) by {
                        if entries.take(i as int).contains(e) {
                            let j = choose|j: int| 0 <= j < i && entries.take(i as int)[j] == e;
                            assert(entries[j] == entries[i as int]);
                        }
                    }
                    assert(entries.take(i + 1) =~= entries.take(i as int).push(e));
                }
            }
            if is_supported_language(code.as_str()) && !contains_text(&normalized, code.as_str()) {
                normalized.push(code);
                assert(texts(normalized@) =~= collect_languages(entries.take(i as int)).push(
                    language_code(entries[i as int]),
                ));
            }
            i = i + 1;
        }
        assert(entries.take(entries.len() as int) =~= entries);
        proof {
            lemma_normalized_languages_valid(entries);
        }
        if normalized.len() == 0 {
            let mut english: Vec<String> = Vec::new();
            english.push(String::from_str("en"));
            assert(texts(english@) =~= seq!["en"@]);
            normalized = english;
        }
        self.transcript_languages = normalized;
    }

    /// Repairs unknown dock choices to their defaults; limits the inset to [-80, 80] and the
    /// width offset to [-20, 80], rounded to tens, and the height offset to [-12, 24], rounded
    /// to fours (halves away from zero).
    pub fn normalize_dock_preferences(&mut self)
        ensures
            dock_normalized_from(*old(self), *final(self)),
            same_identity(*old(self), *final(self)),
            same_models(*old(self), *final(self)),
            same_languages(*old(self), *final(self)),
            same_transforms(*old(self), *final(self)),
    {
        proof {
            lemma_dock_offsets(self.dock_inset as int);
            lemma_dock_offsets(self.dock_width_offset as int);
            lemma_dock_offsets(self.dock_height_offset as int);
        }
        if !is_dock_size_text(self.dock_size.as_str()) {
            self.dock_size = String::from_str("regular");
        }
        if !is_dock_shape_text(self.dock_shape.as_str()) {
            self.dock_shape = String::from_str("pill");
        }
        if !is_dock_color_text(self.dock_color.as_str()) {
            self.dock_color = String::from_str("charcoal");
        }
        if !is_dock_position_text(self.dock_position.as_str()) {
            self.dock_position = String::from_str("bottom-center");
        }
        self.dock_inset = dock_offset_value(self.dock_inset, -80, 80, 10);
        self.dock_width_offset = dock_offset_value(self.dock_width_offset, -20, 80, 10);
        self.dock_height_offset = dock_offset_value(self.dock_height_offset, -12, 24, 4);
    }

    /// Repairs an unknown model mode to the default mode and trims both model ids.
    pub fn normalize_model_preferences(&mut self)
        ensures
            models_normalized_from(*old(self), *final(self)),
            same_identity(*old(self), *final(self)),
            same_languages(*old(self), *final(self)),
            same_transforms(*old(self), *final(self)),
            same_dock(*old(self), *final(self)),
    {
        if !(text_eq(self.transcript_model_mode.as_str(), DEFAULT_MODEL_MODE) || text_eq(
            self.transcript_model_mode.as_str(),
            CUSTOM_MODEL_MODE,
        )) {
            self.transcript_model_mode = String::from_str(DEFAULT_MODEL_MODE);
        }
        if !(text_eq(self.transform_model_mode.as_str(), DEFAULT_MODEL_MODE) || text_eq(
            self.transform_model_mode.as_str(),
            CUSTOM_MODEL_MODE,
        )) {
            self.transform_model_mode = String::from_str(DEFAULT_MODEL_MODE);
        }
        proof {
            lemma_trim_is_trimmed(self.transcript_model_id@);
            lemma_trim_is_trimmed(self.transform_model_id@);
            if is_trimmed(self.transcript_model_id@) {
                lemma_trimmed_is_fixed(self.transcript_model_id@);
            }
            if is_trimmed(self.transform_model_id@) {
                lemma_trimmed_is_fixed(self.transform_model_id@);
            }
        }
        self.transcript_model_id = trim_text(self.transcript_model_id.as_str());
        self.transform_model_id = trim_text(self.transform_model_id.as_str());
    }
}

} // verus!
