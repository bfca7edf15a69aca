use vstd::prelude::*;
use crate::text::{
    is_trimmed, lemma_trim_is_trimmed, lemma_trimmed_is_fixed, text_eq, trim, trim_text,
};

verus! {

pub const POLISH_PROMPT: &'static str = "Rewrite the selected text to make it clearer, more concise, and easier to read. Remove filler words, repetition, awkward phrasing, and unnecessary complexity. Reorder sentences if needed for readability. Add light structure only when it improves clarity. Preserve the original meaning, intent, technical terms, URLs, markdown, and the writer's natural tone. Do not make it sound overly formal or AI-generated. Return only the rewritten text.";

pub const PROMPT_ENGINEER_PROMPT: &'static str = "Transform the selected text into a clear, high-quality prompt for an AI assistant.\n\nStructure the output with these sections:\n\nTitle:\nA short, descriptive title for the prompt.\n\nRole & stance:\nDefine what role the AI should take and how it should behave.\n\nTask:\nClearly state what the AI needs to do.\n\nContext:\nInclude all relevant background details, constraints, examples, and assumptions from the original text.\n\nOutput format:\nSpecify the desired structure, tone, length, and formatting of the answer.\n\nKeep the user's original intent intact. Do not add unsupported requirements. Make the prompt specific, actionable, and easy for an AI model to follow. Return only the improved prompt.";

pub const LEGACY_POLISH_PROMPT: &'static str = "You polish dictated speech-to-text transcripts. Return only the final corrected text. Preserve the speaker's meaning and do not add new facts. Apply explicit self-corrections, for example when the speaker says correction, I mean, rather, or sorry, keep the corrected wording and remove the abandoned wording. Remove filler words and accidental repetitions only when they are not meaningful. Restore punctuation and capitalization.";

pub const LEGACY_PROMPT_ENGINEER_PROMPT: &'static str = "You turn dictated speech into a clear, well-structured prompt for an AI assistant. Return only the final prompt text with no commentary. Preserve the speaker's intent, constraints, and details; do not invent requirements. Apply explicit self-corrections, for example when the speaker says correction, I mean, rather, or sorry, keep the corrected wording and remove the abandoned wording. Remove filler words and false starts. State the goal first, then context, then specific requirements as a short list when it helps, then the desired output format if one was mentioned. Restore punctuation and capitalization.";

/// A named rewrite that can be applied to a transcript.
#[derive(Debug, Clone, PartialEq)]
pub struct TextTransform {
    pub id: String,
    pub name: String,
    pub icon: String,
    pub system_prompt: String,
}

/// The texts of a transform.
#[verifier::ext_equal]
pub struct TransformView {
    pub id: Seq<char>,
    pub name: Seq<char>,
    pub icon: Seq<char>,
    pub system_prompt: Seq<char>,
}

impl View for TextTransform {
    type V = TransformView;

    open spec fn view(&self) -> TransformView {
        TransformView {
            id: self.id@,
            name: self.name@,
            icon: self.icon@,
            system_prompt: self.system_prompt@,
        }
    }
}

/// The views of a list of transforms.
pub open spec fn transform_views(v: Seq<TextTransform>) -> Seq<TransformView> {
    v.map_values(|t: TextTransform| t@)
}

/// The built-in "Polish" transform.
pub open spec fn polish_transform() -> TransformView {
    TransformView {
        id: "polish"@,
        name: "Polish"@,
        icon: "sparkles"@,
        system_prompt: POLISH_PROMPT@,
    }
}

/// The built-in "Prompt Engineer" transform.
pub open spec fn prompt_engineer_transform() -> TransformView {
    TransformView {
        id: "promptEngineer"@,
        name: "Prompt Engineer"@,
        icon: "blocks"@,
        system_prompt: PROMPT_ENGINEER_PROMPT@,
    }
}

/// The built-in transforms, in order.
pub open spec fn default_transform_views() -> Seq<TransformView> {
    seq![polish_transform(), prompt_engineer_transform()]
}

/// The built-in transform that stands in for the entry at `index`: the one at the same
/// position, or the first.
pub open spec fn fallback_transform(index: int) -> TransformView {
    if 0 <= index < default_transform_views().len() {
        default_transform_views()[index]
    } else {
        default_transform_views()[0]
    }
}

/// A trimmed text, or the fallback when it is blank.
pub open spec fn filled(v: Seq<char>, fallback: Seq<char>) -> Seq<char> {
    if trim(v).len() == 0 {
        fallback
    } else {
        trim(v)
    }
}

/// The system prompt kept for a transform: trimmed; the fallback's prompt when blank; the current
/// built-in prompt in place of the former built-in prompt of the same transform id.
pub open spec fn normalized_prompt(id: Seq<char>, prompt: Seq<char>, fallback: TransformView) -> Seq<
    char,
> {
    let p = trim(prompt);
    if p.len() == 0 {
        fallback.system_prompt
    } else if id == "polish"@ && p == LEGACY_POLISH_PROMPT@ {
        POLISH_PROMPT@
    } else if id == "promptEngineer"@ && p == LEGACY_PROMPT_ENGINEER_PROMPT@ {
        PROMPT_ENGINEER_PROMPT@
    } else {
        p
    }
}

/// The entry at `index` once repaired.
pub open spec fn normalized_transform(t: TransformView, index: int) -> TransformView {
    let fallback = fallback_transform(index);
    TransformView {
        id: trim(t.id),
        name: filled(t.name, fallback.name),
        icon: filled(t.icon, fallback.icon),
        system_prompt: normalized_prompt(trim(t.id), t.system_prompt, fallback),
    }
}

/// The entries with a non-blank id, each repaired, in order.
pub open spec fn kept_transforms(ts: Seq<TransformView>) -> Seq<TransformView>
    decreases ts.len(),
{
    if ts.len() == 0 {
        seq![]
    } else {
        let acc = kept_transforms(ts.drop_last());
        if trim(ts.last().id).len() == 0 {
            acc
        } else {
            acc.push(normalized_transform(ts.last(), ts.len() - 1))
        }
    }
}

/// The repaired transforms, or the built-in ones when none is kept.
pub open spec fn normalized_transforms(ts: Seq<TransformView>) -> Seq<TransformView> {
    if kept_transforms(ts).len() == 0 {
        default_transform_views()
    } else {
        kept_transforms(ts)
    }
}

/// Some transform of the list has the id.
pub open spec fn has_transform_id(ts: Seq<TransformView>, id: Seq<char>) -> bool {
    exists|i: int| 0 <= i < ts.len() && #[trigger] ts[i].id == id
}

/// The default transform id once the list is repaired: kept when some repaired transform has
/// it, else the id of the first repaired transform.
pub open spec fn normalized_default_transform(ts: Seq<TransformView>, default: Seq<char>) -> Seq<
    char,
> {
    let n = normalized_transforms(ts);
    if has_transform_id(n, default) {
        default
    } else {
        n[0].id
    }
}

/// The position of the first transform with the id.
pub open spec fn first_with_id(ts: Seq<TransformView>, id: Seq<char>) -> Option<int> {
    if has_transform_id(ts, id) {
        Some(choose|i: int| 0 <= i < ts.len() && ts[i].id == id && forall|j: int| 0 <= j < i ==> #[trigger] ts[j].id != id)
    } else {
        None
    }
}

/// What `first_with_id` picks: the first position with the id.
pub proof fn lemma_first_with_id(ts: Seq<TransformView>, id: Seq<char>)
    ensures
        first_with_id(ts, id) is Some <==> has_transform_id(ts, id),
        first_with_id(ts, id) matches Some(i) ==> 0 <= i < ts.len() && ts[i].id == id && forall|j: int|
            0 <= j < i ==> #[trigger] ts[j].id != id,
{
    if has_transform_id(ts, id) {
        let w = choose|i: int| 0 <= i < ts.len() && #[trigger] ts[i].id == id;
        lemma_least_position(ts, id, w);
    }
}

proof fn lemma_least_position(ts: Seq<TransformView>, id: Seq<char>, w: int)
    requires
        0 <= w < ts.len(),
        ts[w].id == id,
    ensures
        exists|i: int| 0 <= i < ts.len() && ts[i].id == id && forall|j: int| 0 <= j < i ==> #[trigger] ts[j].id != id,
    decreases w,
{
    if exists|j: int| 0 <= j < w && #[trigger] ts[j].id == id {
        let j = choose|j: int| 0 <= j < w && #[trigger] ts[j].id == id;
        lemma_least_position(ts, id, j);
    } else {
        assert(forall|j: int| 0 <= j < w ==> #[trigger] ts[j].id != id);
    }
}

/// A text that is not empty and has no white space at either end.
pub open spec fn is_filled(v: Seq<char>) -> bool {
    v.len() > 0 && is_trimmed(v)
}

/// A transform as normalization leaves it: every text filled, and no former built-in prompt
/// under its own transform id.
pub open spec fn transform_is_normalized(t: TransformView) -> bool {
    &&& is_filled(t.id)
    &&& is_filled(t.name)
    &&& is_filled(t.icon)
    &&& is_filled(t.system_prompt)
    &&& !(t.id == "polish"@ && t.system_prompt == LEGACY_POLISH_PROMPT@)
    &&& !(t.id == "promptEngineer"@ && t.system_prompt == LEGACY_PROMPT_ENGINEER_PROMPT@)
}

/// A transform list and default as normalization leaves them: at least one transform, each
/// normalized, and the default naming one of them.
pub open spec fn transforms_are_normalized(ts: Seq<TransformView>, default: Seq<char>) -> bool {
    &&& ts.len() > 0
    &&& forall|i: int| 0 <= i < ts.len() ==> transform_is_normalized(#[trigger] ts[i])
    &&& has_transform_id(ts, default)
}

/// Facts on the built-in prompts and texts.
pub proof fn lemma_builtin_texts()
    ensures
        is_filled(POLISH_PROMPT@),
        is_filled(PROMPT_ENGINEER_PROMPT@),
        POLISH_PROMPT@ != LEGACY_POLISH_PROMPT@,
        POLISH_PROMPT@ != LEGACY_PROMPT_ENGINEER_PROMPT@,
        PROMPT_ENGINEER_PROMPT@ != LEGACY_POLISH_PROMPT@,
        PROMPT_ENGINEER_PROMPT@ != LEGACY_PROMPT_ENGINEER_PROMPT@,
        is_filled("polish"@),
        is_filled("Polish"@),
        is_filled("sparkles"@),
        is_filled("promptEngineer"@),
        is_filled("Prompt Engineer"@),
        is_filled("blocks"@),
        "polish"@ != "promptEngineer"@,
{
    reveal_strlit("Rewrite the selected text to make it clearer, more concise, and easier to read. Remove filler words, repetition, awkward phrasing, and unnecessary complexity. Reorder sentences if needed for readability. Add light structure only when it improves clarity. Preserve the original meaning, intent, technical terms, URLs, markdown, and the writer's natural tone. Do not make it sound overly formal or AI-generated. Return only the rewritten text.");
    reveal_strlit("Transform the selected text into a clear, high-quality prompt for an AI assistant.\n\nStructure the output with these sections:\n\nTitle:\nA short, descriptive title for the prompt.\n\nRole & stance:\nDefine what role the AI should take and how it should behave.\n\nTask:\nClearly state what the AI needs to do.\n\nContext:\nInclude all relevant background details, constraints, examples, and assumptions from the original text.\n\nOutput format:\nSpecify the desired structure, tone, length, and formatting of the answer.\n\nKeep the user's original intent intact. Do not add unsupported requirements. Make the prompt specific, actionable, and easy for an AI model to follow. Return only the improved prompt.");
    reveal_strlit("You polish dictated speech-to-text transcripts. Return only the final corrected text. Preserve the speaker's meaning and do not add new facts. Apply explicit self-corrections, for example when the speaker says correction, I mean, rather, or sorry, keep the corrected wording and remove the abandoned wording. Remove filler words and accidental repetitions only when they are not meaningful. Restore punctuation and capitalization.");
    reveal_strlit("You turn dictated speech into a clear, well-structured prompt for an AI assistant. Return only the final prompt text with no commentary. Preserve the speaker's intent, constraints, and details; do not invent requirements. Apply explicit self-corrections, for example when the speaker says correction, I mean, rather, or sorry, keep the corrected wording and remove the abandoned wording. Remove filler words and false starts. State the goal first, then context, then specific requirements as a short list when it helps, then the desired output format if one was mentioned. Restore punctuation and capitalization.");
    reveal_strlit("polish");
    reveal_strlit("Polish");
    reveal_strlit("sparkles");
    reveal_strlit("promptEngineer");
    reveal_strlit("Prompt Engineer");
    reveal_strlit("blocks");
    assert(POLISH_PROMPT@[0] != LEGACY_POLISH_PROMPT@[0]);
    assert(POLISH_PROMPT@[0] != LEGACY_PROMPT_ENGINEER_PROMPT@[0]);
    assert(PROMPT_ENGINEER_PROMPT@[0] != LEGACY_POLISH_PROMPT@[0]);
    assert(PROMPT_ENGINEER_PROMPT@[0] != LEGACY_PROMPT_ENGINEER_PROMPT@[0]);
    assert("polish"@[0] != "promptEngineer"@[1]);
    assert("polish"@.len() != "promptEngineer"@.len());
}

/// The built-in transforms are normalized.
pub proof fn lemma_default_transforms_normalized()
    ensures
        forall|i: int|
            0 <= i < default_transform_views().len() ==> transform_is_normalized(
                #[trigger] default_transform_views()[i],
            ),
{
    lemma_builtin_texts();
    assert(transform_is_normalized(default_transform_views()[0]));
    assert(transform_is_normalized(default_transform_views()[1]));
}

/// A kept entry is normalized.
pub proof fn lemma_normalized_transform_valid(t: TransformView, index: int)
    requires
        trim(t.id).len() > 0,
    ensures
        transform_is_normalized(normalized_transform(t, index)),
{
    lemma_default_transforms_normalized();
    lemma_builtin_texts();
    let fallback = fallback_transform(index);
    assert(transform_is_normalized(fallback));
    lemma_trim_is_trimmed(t.id);
    lemma_trim_is_trimmed(t.name);
    lemma_trim_is_trimmed(t.icon);
    lemma_trim_is_trimmed(t.system_prompt);
}

/// A normalized entry is left as it is, at any position.
pub proof fn lemma_normalized_transform_fixed(t: TransformView, index: int)
    requires
        transform_is_normalized(t),
    ensures
        normalized_transform(t, index) == t,
{
    lemma_trimmed_is_fixed(t.id);
    lemma_trimmed_is_fixed(t.name);
    lemma_trimmed_is_fixed(t.icon);
    lemma_trimmed_is_fixed(t.system_prompt);
    assert(normalized_transform(t, index) =~= t);
}

proof fn lemma_kept_transforms_valid(ts: Seq<TransformView>)
    ensures
        forall|i: int|
            0 <= i < kept_transforms(ts).len() ==> transform_is_normalized(
                #[trigger] kept_transforms(ts)[i],
            ),
    decreases ts.len(),
{
    if ts.len() > 0 {
        lemma_kept_transforms_valid(ts.drop_last());
        let acc = kept_transforms(ts.drop_last());
        if trim(ts.last().id).len() > 0 {
            lemma_normalized_transform_valid(ts.last(), ts.len() - 1);
            let k = kept_transforms(ts);
            assert forall|i: int| 0 <= i < k.len() implies transform_is_normalized(#[trigger] k[i]) by {
                if i < acc.len() {
                    assert(k[i] == acc[i]);
                }
            }
        }
    }
}

proof fn lemma_kept_transforms_fixed(ts: Seq<TransformView>)
    requires
        forall|i: int| 0 <= i < ts.len() ==> transform_is_normalized(#[trigger] ts[i]),
    ensures
        kept_transforms(ts) == ts,
    decreases ts.len(),
{
    if ts.len() > 0 {
        let init = ts.drop_last();
        assert forall|i: int| 0 <= i < init.len() implies transform_is_normalized(#[trigger] init[i]) by {
            assert(init[i] == ts[i]);
        }
        lemma_kept_transforms_fixed(init);
        assert(transform_is_normalized(ts[ts.len() - 1]));
        lemma_normalized_transform_fixed(ts.last(), ts.len() - 1);
        assert(init.push(ts.last()) =~= ts);
    }
}

/// Normalizing a transform list and default gives a normalized list and default.
pub proof fn lemma_normalized_transforms_valid(ts: Seq<TransformView>, default: Seq<char>)
    ensures
        transforms_are_normalized(
            normalized_transforms(ts),
            normalized_default_transform(ts, default),
        ),
{
    lemma_kept_transforms_valid(ts);
    lemma_default_transforms_normalized();
    let n = normalized_transforms(ts);
    if !has_transform_id(n, default) {
        assert(n[0].id == n[0].id);
        assert(has_transform_id(n, n[0].id));
    }
}

/// A normalized transform list and default are left as they are.
pub proof fn lemma_normalized_transforms_fixed(ts: Seq<TransformView>, default: Seq<char>)
    requires
        transforms_are_normalized(ts, default),
    ensures
        normalized_transforms(ts) == ts,
        normalized_default_transform(ts, default) == default,
{
    lemma_kept_transforms_fixed(ts);
}

fn make_transform(id: &str, name: &str, icon: &str, system_prompt: &str) -> (r: TextTransform)
    ensures
        r@ == (TransformView { id: id@, name: name@, icon: icon@, system_prompt: system_prompt@ }),
{
    TextTransform {
        id: String::from_str(id),
        name: String::from_str(name),
        icon: String::from_str(icon),
        system_prompt: String::from_str(system_prompt),
    }
}

/// The built-in transforms: "Polish" and "Prompt Engineer".
pub fn default_transforms() -> (r: Vec<TextTransform>)
    ensures
        transform_views(r@) == default_transform_views(),
{
    let mut r: Vec<TextTransform> = Vec::new();
    r.push(make_transform("polish", "Polish", "sparkles", POLISH_PROMPT));
    r.push(make_transform("promptEngineer", "Prompt Engineer", "blocks", PROMPT_ENGINEER_PROMPT));
    assert(transform_views(r@) =~= default_transform_views());
    r
}

/// The system prompt kept for a transform with the (trimmed) id.
pub fn normalized_system_prompt(id: &str, system_prompt: &str, fallback: &TextTransform) -> (r:
    String)
    ensures
        r@ == normalized_prompt(id@, system_prompt@, fallback@),
{
    let p = trim_text(system_prompt);
    if p.as_str().unicode_len() == 0 {
        fallback.system_prompt.clone()
    } else if text_eq(id, "polish") && text_eq(p.as_str(), LEGACY_POLISH_PROMPT) {
        String::from_str(POLISH_PROMPT)
    } else if text_eq(id, "promptEngineer") && text_eq(p.as_str(), LEGACY_PROMPT_ENGINEER_PROMPT) {
        String::from_str(PROMPT_ENGINEER_PROMPT)
    } else {
        p
    }
}

fn filled_text(v: &str, fallback: &String) -> (r: String)
    ensures
        r@ == filled(v@, fallback@),
{
    let t = trim_text(v);
    if t.as_str().unicode_len() == 0 {
        fallback.clone()
    } else {
        t
    }
}

/// The repaired transform list: entries with a blank id dropped, the others trimmed and filled
/// from the built-in transform at the same position; the built-in transforms when none is left.
pub fn normalize_transform_list(transforms: &Vec<TextTransform>) -> (r: Vec<TextTransform>)
    ensures
        transform_views(r@) == normalized_transforms(transform_views(transforms@)),
{
    let defaults = default_transforms();
    let ghost views = transform_views(transforms@);
    let mut normalized: Vec<TextTransform> = Vec::new();
    let mut index: usize = 0;
    while index < transforms.len()
        invariant
            index <= transforms.len(),
            views == transform_views(transforms@),
            transform_views(defaults@) == default_transform_views(),
            transform_views(normalized@) == kept_transforms(views.take(index as int)),
        decreases transforms.len() - index,
    {
        let transform = &transforms[index];
        let fallback = if index < defaults.len() {
            &defaults[index]
        } else {
            &defaults[0]
        };
        assert(fallback@ == fallback_transform(index as int));
        proof {
            assert(views.take(index + 1).drop_last() =~= views.take(index as int));
            assert(views.take(index + 1).last() == transform@);
        }
        let id = trim_text(transform.id.as_str());
        if id.as_str().unicode_len() != 0 {
            let name = filled_text(transform.name.as_str(), &fallback.name);
            let icon = filled_text(transform.icon.as_str(), &fallback.icon);
            let system_prompt = normalized_system_prompt(
                id.as_str(),
                transform.system_prompt.as_str(),
                fallback,
            );
            let entry = TextTransform { id, name, icon, system_prompt };
            assert(entry@ == normalized_transform(transform@, index as int));
            normalized.push(entry);
            assert(transform_views(normalized@) =~= kept_transforms(views.take(index as int)).push(
                normalized_transform(transform@, index as int),
            ));
        }
        index = index + 1;
    }
    assert(views.take(views.len() as int) =~= views);
    if normalized.len() == 0 {
        defaults
    } else {
        normalized
    }
}

/// The position of the first transform with the id, if any.
pub fn position_of_transform(transforms: &Vec<TextTransform>, id: &str) -> (r: Option<usize>)
    ensures
        match r {
            Some(i) => i < transforms@.len() && first_with_id(transform_views(transforms@), id@) == Some(i as int),
            None => first_with_id(transform_views(transforms@), id@) is None,
        },
{
    let ghost views = transform_views(transforms@);
    let mut k: usize = 0;
    while k < transforms.len()
        invariant
            k <= transforms.len(),
            views == transform_views(transforms@),
            forall|j: int| 0 <= j < k ==> #[trigger] views[j].id != id@,
        decreases transforms.len() - k,
    {
        if text_eq(transforms[k].id.as_str(), id) {
            assert(views[k as int].id == id@);
            assert(has_transform_id(views, id@));
            proof {
                lemma_first_with_id(views, id@);
                let c = first_with_id(views, id@)->0;
                if c < k {
                    assert(views[c].id != id@);
                }
                if c > k {
                    assert(views[k as int].id != id@);
                }
            }
            return Some(k);
        }
        k = k + 1;
    }
    assert(!has_transform_id(views, id@));
    None
}

} // verus!
