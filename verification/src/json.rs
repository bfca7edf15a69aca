use vstd::prelude::*;

verus! {

/// One step into a JSON value: a key of an object, or a position in an array.
#[derive(Debug, Clone, PartialEq)]
pub enum JsonStep {
    Key(String),
    Index(usize),
}

/// A step into a JSON value, as text and number.
pub enum JsonStepView {
    Key(Seq<char>),
    Index(usize),
}

/// The view of a step.
pub open spec fn step_view(step: JsonStep) -> JsonStepView {
    match step {
        JsonStep::Key(k) => JsonStepView::Key(k@),
        JsonStep::Index(i) => JsonStepView::Index(i),
    }
}

/// The views of a path of steps.
pub open spec fn path_view(path: Seq<JsonStep>) -> Seq<JsonStepView> {
    path.map_values(|step: JsonStep| step_view(step))
}

/// Whether `serde_json` parses `document` as a JSON value.
pub uninterp spec fn json_parses(document: Seq<char>) -> bool;

/// The string that the parsed JSON document holds where the path leads, when it leads to a string.
/// Each step indexes the value as `serde_json`'s `Index` does: a key of an object, a position in an
/// array; a step that does not fit the value leads to null.
pub uninterp spec fn json_string_at(document: Seq<char>, path: Seq<JsonStepView>) -> Option<Seq<char>>;

/// Parses `document` with `serde_json::from_str` into a `serde_json::Value`, indexes it along
/// `path` with `Value`'s `Index` (by `&str` for a key, by `usize` for a position) and reads the
/// string there with `Value::as_str`. It fails exactly when the document does not parse (named
/// `json_parses`); otherwise it gives the string found, if any (named `json_string_at`). Both
/// depend on the texts and the path alone.
#[verifier::external_body]
pub(crate) fn read_json_string(document: &str, path: &[JsonStep]) -> (r: Result<Option<String>, ()>)
    ensures
        r is Err <==> !json_parses(document@),
        r matches Ok(found) ==> match found {
            Some(s) => json_string_at(document@, path_view(path@)) == Some(s@),
            None => json_string_at(document@, path_view(path@)) is None,
        },
{
    let value: serde_json::Value = match serde_json::from_str(document) {
        Ok(value) => value,
        Err(_) => return Err(()),
    };
    let mut current = &value;
    for step in path {
        current = match step {
            JsonStep::Key(key) => &current[key.as_str()],
            JsonStep::Index(position) => &current[*position],
        };
    }
    Ok(current.as_str().map(|s| s.to_string()))
}

/// A lowercase hexadecimal digit.
pub open spec fn hex_digit(d: u32) -> char {
    if d < 10 {
        ('0' as u32 + d) as char
    } else {
        ('a' as u32 + d - 10) as char
    }
}

/// A character as a JSON string writes it: `"` and `\` after a backslash, the controls with a
/// short escape as `\b \t \n \f \r`, the other controls below 0x20 as `\u00XX` with lowercase hex
/// digits, every other character as it is.
pub open spec fn json_escaped_char(c: char) -> Seq<char> {
    if c == '"' {
        seq!['\\', '"']
    } else if c == '\\' {
        seq!['\\', '\\']
    } else if c == '\x08' {
        seq!['\\', 'b']
    } else if c == '\t' {
        seq!['\\', 't']
    } else if c == '\n' {
        seq!['\\', 'n']
    } else if c == '\x0C' {
        seq!['\\', 'f']
    } else if c == '\r' {
        seq!['\\', 'r']
    } else if (c as u32) < 0x20 {
        seq!['\\', 'u', '0', '0', hex_digit((c as u32) / 16), hex_digit((c as u32) % 16)]
    } else {
        seq![c]
    }
}

/// A text with each character written as a JSON string writes it.
pub open spec fn json_escaped(s: Seq<char>) -> Seq<char>
    decreases s.len(),
{
    if s.len() == 0 {
        seq![]
    } else {
        json_escaped(s.drop_last()) + json_escaped_char(s.last())
    }
}

/// The JSON text of the string `s`: quoted, with its characters escaped.
pub open spec fn json_string_literal(s: Seq<char>) -> Seq<char> {
    seq!['"'] + json_escaped(s) + seq!['"']
}

/// Writes `s` as a JSON string with `serde_json`, by the `Display` of `Value::String`, which
/// writes compact JSON and escapes each character as `json_escaped_char` says (the `ESCAPE` table
/// and `write_char_escape` of `serde_json`'s serializer).
#[verifier::external_body]
pub(crate) fn json_string_text(s: &str) -> (r: String)
    ensures
        r@ == json_string_literal(s@),
{
    serde_json::Value::String(s.to_string()).to_string()
}

} // verus!
