use vstd::prelude::*;
use crate::text::{
    all_ascii, ascii_lower_char, is_white_space, slice_texts, text_eq, to_lowercase_text, trim, trim_end,
    trim_start, trim_text, unicode_lowercase,
};

verus! {

/// The language codes that transcription accepts.
pub open spec fn supported_language_codes() -> Seq<Seq<char>> {
    seq![
        "af"@, "am"@, "ar"@, "as"@, "az"@, "ba"@, "be"@, "bg"@, "bn"@, "bo"@, "br"@, "bs"@,
        "ca"@, "cs"@, "cy"@, "da"@, "de"@, "el"@, "en"@, "es"@, "et"@, "eu"@, "fa"@, "fi"@,
        "fo"@, "fr"@, "gl"@, "gu"@, "ha"@, "haw"@, "he"@, "hi"@, "hr"@, "ht"@, "hu"@, "hy"@,
        "id"@, "is"@, "it"@, "ja"@, "jw"@, "ka"@, "kk"@, "km"@, "kn"@, "ko"@, "la"@, "lb"@,
        "ln"@, "lo"@, "lt"@, "lv"@, "mg"@, "mi"@, "mk"@, "ml"@, "mn"@, "mr"@, "ms"@, "mt"@,
        "my"@, "ne"@, "nl"@, "nn"@, "no"@, "oc"@, "pa"@, "pl"@, "ps"@, "pt"@, "ro"@, "ru"@,
        "sa"@, "sd"@, "si"@, "sk"@, "sl"@, "sn"@, "so"@, "sq"@, "sr"@, "su"@, "sv"@, "sw"@,
        "ta"@, "te"@, "tg"@, "th"@, "tk"@, "tl"@, "tr"@, "tt"@, "uk"@, "ur"@, "uz"@, "vi"@,
        "yi"@, "yo"@, "zh"@, "yue"@
    ]
}

/// A text made of the letters `a` to `z` only, at least one of them.
pub open spec fn is_lowercase_word(s: Seq<char>) -> bool {
    s.len() > 0 && forall|j: int| 0 <= j < s.len() ==> 'a' <= #[trigger] s[j] <= 'z'
}

fn language_code_table() -> (v: Vec<&'static str>)
    ensures
        v@.map_values(|c: &str| c@) == supported_language_codes(),
{
    let v = vec![
        "af", "am", "ar", "as", "az", "ba", "be", "bg", "bn", "bo", "br", "bs", "ca", "cs",
        "cy", "da", "de", "el", "en", "es", "et", "eu", "fa", "fi", "fo", "fr", "gl", "gu",
        "ha", "haw", "he", "hi", "hr", "ht", "hu", "hy", "id", "is", "it", "ja", "jw", "ka",
        "kk", "km", "kn", "ko", "la", "lb", "ln", "lo", "lt", "lv", "mg", "mi", "mk", "ml",
        "mn", "mr", "ms", "mt", "my", "ne", "nl", "nn", "no", "oc", "pa", "pl", "ps", "pt",
        "ro", "ru", "sa", "sd", "si", "sk", "sl", "sn", "so", "sq", "sr", "su", "sv", "sw",
        "ta", "te", "tg", "th", "tk", "tl", "tr", "tt", "uk", "ur", "uz", "vi", "yi", "yo",
        "zh", "yue"
    ];
    assert(v@.map_values(|c: &str| c@) =~= supported_language_codes());
    v
}

/// True when the code is one that transcription accepts.
pub fn is_supported_language(code: &str) -> (r: bool)
    ensures
        r == supported_language_codes().contains(code@),
{
    let table = language_code_table();
    let mut k: usize = 0;
    while k < table.len()
        invariant
            k <= table@.len(),
            table@.map_values(|c: &str| c@) == supported_language_codes(),
            forall|m: int| 0 <= m < k ==> supported_language_codes()[m] != code@,
        decreases table@.len() - k,
    {
        if text_eq(table[k], code) {
            assert(supported_language_codes()[k as int] == code@);
            return true;
        }
        k = k + 1;
    }
    false
}

/// Every accepted language code is a lowercase ASCII word.
pub proof fn lemma_language_codes_are_lowercase_words()
    ensures
        forall|i: int|
            0 <= i < supported_language_codes().len() ==> is_lowercase_word(
                #[trigger] supported_language_codes()[i],
            ),
{
    reveal_strlit("af");
    reveal_strlit("am");
    reveal_strlit("ar");
    reveal_strlit("as");
    reveal_strlit("az");
    reveal_strlit("ba");
    reveal_strlit("be");
    reveal_strlit("bg");
    reveal_strlit("bn");
    reveal_strlit("bo");
    reveal_strlit("br");
    reveal_strlit("bs");
    reveal_strlit("ca");
    reveal_strlit("cs");
    reveal_strlit("cy");
    reveal_strlit("da");
    reveal_strlit("de");
    reveal_strlit("el");
    reveal_strlit("en");
    reveal_strlit("es");
    reveal_strlit("et");
    reveal_strlit("eu");
    reveal_strlit("fa");
    reveal_strlit("fi");
    reveal_strlit("fo");
    reveal_strlit("fr");
    reveal_strlit("gl");
    reveal_strlit("gu");
    reveal_strlit("ha");
    reveal_strlit("haw");
    reveal_strlit("he");
    reveal_strlit("hi");
    reveal_strlit("hr");
    reveal_strlit("ht");
    reveal_strlit("hu");
    reveal_strlit("hy");
    reveal_strlit("id");
    reveal_strlit("is");
    reveal_strlit("it");
    reveal_strlit("ja");
    reveal_strlit("jw");
    reveal_strlit("ka");
    reveal_strlit("kk");
    reveal_strlit("km");
    reveal_strlit("kn");
    reveal_strlit("ko");
    reveal_strlit("la");
    reveal_strlit("lb");
    reveal_strlit("ln");
    reveal_strlit("lo");
    reveal_strlit("lt");
    reveal_strlit("lv");
    reveal_strlit("mg");
    reveal_strlit("mi");
    reveal_strlit("mk");
    reveal_strlit("ml");
    reveal_strlit("mn");
    reveal_strlit("mr");
    reveal_strlit("ms");
    reveal_strlit("mt");
    reveal_strlit("my");
    reveal_strlit("ne");
    reveal_strlit("nl");
    reveal_strlit("nn");
    reveal_strlit("no");
    reveal_strlit("oc");
    reveal_strlit("pa");
    reveal_strlit("pl");
    reveal_strlit("ps");
    reveal_strlit("pt");
    reveal_strlit("ro");
    reveal_strlit("ru");
    reveal_strlit("sa");
    reveal_strlit("sd");
    reveal_strlit("si");
    reveal_strlit("sk");
    reveal_strlit("sl");
    reveal_strlit("sn");
    reveal_strlit("so");
    reveal_strlit("sq");
    reveal_strlit("sr");
    reveal_strlit("su");
    reveal_strlit("sv");
    reveal_strlit("sw");
    reveal_strlit("ta");
    reveal_strlit("te");
    reveal_strlit("tg");
    reveal_strlit("th");
    reveal_strlit("tk");
    reveal_strlit("tl");
    reveal_strlit("tr");
    reveal_strlit("tt");
    reveal_strlit("uk");
    reveal_strlit("ur");
    reveal_strlit("uz");
    reveal_strlit("vi");
    reveal_strlit("yi");
    reveal_strlit("yo");
    reveal_strlit("zh");
    reveal_strlit("yue");
}

/// A lowercase ASCII word is all ASCII, has no surrounding white space and is its own ASCII
/// lowercase form.
pub proof fn lemma_lowercase_word_is_fixed(s: Seq<char>)
    requires
        is_lowercase_word(s),
    ensures
        all_ascii(s),
        trim(s) == s,
        s.map_values(|c: char| ascii_lower_char(c)) == s,
{
    assert(!is_white_space(s[0]));
    assert(!is_white_space(s[s.len() - 1]));
    assert(trim_start(s) == s);
    assert(s.last() == s[s.len() - 1]);
    assert(trim_end(s) == s);
    assert(s.map_values(|c: char| ascii_lower_char(c)) =~= s);
}

/// The language code that a configured language stands for: trimmed and lowercased.
pub open spec fn hint_code(language: Seq<char>) -> Seq<char> {
    unicode_lowercase(trim(language))
}

/// The non-empty codes of the configured languages, in order.
pub open spec fn language_codes(languages: Seq<Seq<char>>) -> Seq<Seq<char>>
    decreases languages.len(),
{
    if languages.len() == 0 {
        seq![]
    } else {
        let acc = language_codes(languages.drop_last());
        let code = hint_code(languages.last());
        if code.len() == 0 {
            acc
        } else {
            acc.push(code)
        }
    }
}

/// The code of a configured language, as a function.
pub open spec fn code_of_entry() -> spec_fn(Seq<char>) -> Seq<char> {
    |l: Seq<char>| hint_code(l)
}

/// A code that is not empty, as a predicate.
pub open spec fn is_code() -> spec_fn(Seq<char>) -> bool {
    |c: Seq<char>| c.len() > 0
}

/// The codes of the configured languages are the codes of all the entries that are not blank,
/// in order: none is dropped, none is added; every entry that is not blank has its code among
/// them.
pub proof fn lemma_language_codes_keep_every_entry(languages: Seq<Seq<char>>)
    ensures
        language_codes(languages) == languages.map(|_i: int, l: Seq<char>| code_of_entry()(l)).filter(
            is_code(),
        ),
        forall|i: int|
            0 <= i < languages.len() && #[trigger] hint_code(languages[i]).len() > 0
                ==> language_codes(languages).contains(hint_code(languages[i])),
    decreases languages.len(),
{
    reveal(Seq::filter);
    let codes = languages.map(|_i: int, l: Seq<char>| code_of_entry()(l));
    if languages.len() > 0 {
        let init = languages.drop_last();
        lemma_language_codes_keep_every_entry(init);
        assert(codes.len() == languages.len());
        assert(codes.drop_last() =~= init.map(|_i: int, l: Seq<char>| code_of_entry()(l)));
        assert(codes.last() == hint_code(languages.last()));
        assert(codes.filter(is_code()) == (if is_code()(codes.last()) {
            codes.drop_last().filter(is_code()).push(codes.last())
        } else {
            codes.drop_last().filter(is_code())
        }));
    } else {
        assert(codes =~= Seq::<Seq<char>>::empty());
    }
    assert forall|i: int|
        0 <= i < languages.len() && #[trigger] hint_code(languages[i]).len() > 0 implies language_codes(
        languages,
    ).contains(hint_code(languages[i])) by {
        assert(codes[i] == hint_code(languages[i]));
        assert(is_code()(codes[i]));
        codes.lemma_filter_contains(is_code(), i);
    }
}

/// The codes of the configured languages.
pub fn transcription_codes(languages: &[String]) -> (r: Vec<String>)
    ensures
        slice_texts(r@) == language_codes(slice_texts(languages@)),
{
    let ghost ls = slice_texts(languages@);
    let mut codes: Vec<String> = Vec::new();
    let mut i: usize = 0;
    while i < languages.len()
        invariant
            i <= languages@.len(),
            ls == slice_texts(languages@),
            slice_texts(codes@) == language_codes(ls.take(i as int)),
        decreases languages@.len() - i,
    {
        let trimmed = trim_text(languages[i].as_str());
        let code = to_lowercase_text(trimmed.as_str());
        proof {
            assert(ls.take(i + 1).drop_last() =~= ls.take(i as int));
            assert(ls.take(i + 1).last() == languages@[i as int]@);
        }
        if code.as_str().unicode_len() != 0 {
            codes.push(code);
            assert(slice_texts(codes@) =~= language_codes(ls.take(i as int)).push(
                hint_code(languages@[i as int]@),
            ));
        }
        i = i + 1;
    }
    assert(ls.take(languages@.len() as int) =~= ls);
    codes
}

} // verus!
