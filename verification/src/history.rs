use vstd::prelude::*;
use crate::paths::{join_path, joined_path};
use crate::text::{chars_of, concat_text, contains_char, ends_with_text, result_texts, text_eq};
use crate::decimal::{decimal_string, decimal_text};
pub use crate::clock::now_millis;

verus! {

pub const INVALID_ENTRY_ID_ERROR: &'static str = "Invalid history entry id";
pub const INVALID_AUDIO_FILE_ERROR: &'static str = "Invalid history audio file";
pub const ENTRY_NOT_FOUND_ERROR: &'static str = "History entry not found";
pub const NO_AUDIO_ERROR: &'static str = "History entry has no audio recording";

/// The transform applied to a transcript, as recorded in the history.
#[derive(Debug, Clone, PartialEq)]
pub struct TranscriptTransformHistory {
    pub id: String,
    pub name: String,
    pub icon: String,
    pub model: String,
    pub system_prompt: String,
    pub input_text: String,
    pub output_text: String,
    pub status: String,
    pub error: String,
}

/// The recording kept with a history entry.
#[derive(Debug, Clone, PartialEq)]
pub struct TranscriptAudioHistory {
    pub file_name: String,
    pub mime_type: String,
    pub size_bytes: u64,
}

/// One dictation, as recorded in the history.
#[derive(Debug, Clone, PartialEq)]
pub struct TranscriptHistoryEntry {
    pub id: String,
    pub created_at: u64,
    pub engine: String,
    pub microphone: String,
    pub transcript_model: String,
    pub whisper_model: String,
    pub transcript_languages: Vec<String>,
    pub raw_transcript: String,
    pub cleaned_transcript: String,
    pub final_text: String,
    pub transform: Option<TranscriptTransformHistory>,
    pub paste_status: String,
    pub audio: Option<TranscriptAudioHistory>,
}

/// The path of the history file in the app's config directory.
pub fn history_path(app_dir: &str) -> (r: String)
    ensures
        r@ == joined_path(app_dir@, "history.json"@),
{
    join_path(app_dir, "history.json")
}

/// The directory of the recordings kept with the history.
pub fn history_audio_dir(app_dir: &str) -> (r: String)
    ensures
        r@ == joined_path(app_dir@, "history-audio"@),
{
    join_path(app_dir, "history-audio")
}

/// The id of the entry made at `created_at` (milliseconds since the Unix epoch).
pub open spec fn entry_id_at(created_at: u64) -> Seq<char> {
    "history-"@ + decimal_text(created_at as nat)
}

impl TranscriptHistoryEntry {
    /// An entry made at `created_at`, without a recording.
    pub fn new_at(
        created_at: u64,
        engine: String,
        microphone: String,
        transcript_model: String,
        whisper_model: String,
        transcript_languages: Vec<String>,
        raw_transcript: String,
        cleaned_transcript: String,
        final_text: String,
        transform: Option<TranscriptTransformHistory>,
        paste_status: String,
    ) -> (r: Self)
        ensures
            r.id@ == entry_id_at(created_at),
            r.created_at == created_at,
            r.engine == engine,
            r.microphone == microphone,
            r.transcript_model == transcript_model,
            r.whisper_model == whisper_model,
            r.transcript_languages == transcript_languages,
            r.raw_transcript == raw_transcript,
            r.cleaned_transcript == cleaned_transcript,
            r.final_text == final_text,
            r.transform == transform,
            r.paste_status == paste_status,
            r.audio is None,
    {
        let digits = decimal_string(created_at);
        TranscriptHistoryEntry {
            id: concat_text("history-", digits.as_str()),
            created_at,
            engine,
            microphone,
            transcript_model,
            whisper_model,
            transcript_languages,
            raw_transcript,
            cleaned_transcript,
            final_text,
            transform,
            paste_status,
            audio: None,
        }
    }

    /// An entry made now, without a recording.
    pub fn new(
        engine: String,
        microphone: String,
        transcript_model: String,
        whisper_model: String,
        transcript_languages: Vec<String>,
        raw_transcript: String,
        cleaned_transcript: String,
        final_text: String,
        transform: Option<TranscriptTransformHistory>,
        paste_status: String,
    ) -> (r: Self)
        ensures
            r.id@ == entry_id_at(r.created_at),
            r.engine == engine,
            r.microphone == microphone,
            r.transcript_model == transcript_model,
            r.whisper_model == whisper_model,
            r.transcript_languages == transcript_languages,
            r.raw_transcript == raw_transcript,
            r.cleaned_transcript == cleaned_transcript,
            r.final_text == final_text,
            r.transform == transform,
            r.paste_status == paste_status,
            r.audio is None,
    {
        let created_at = now_millis();
        Self::new_at(
            created_at,
            engine,
            microphone,
            transcript_model,
            whisper_model,
            transcript_languages,
            raw_transcript,
            cleaned_transcript,
            final_text,
            transform,
            paste_status,
        )
    }
}

/// A character allowed in an entry id used as a file name.
pub open spec fn is_entry_id_char(c: char) -> bool {
    ||| '0' <= c <= '9'
    ||| 'a' <= c <= 'z'
    ||| 'A' <= c <= 'Z'
    ||| c == '-'
    ||| c == '_'
}

/// An entry id that can name a recording file: not empty, ASCII letters, digits, `-` and `_`.
pub open spec fn is_file_safe_entry_id(id: Seq<char>) -> bool {
    id.len() > 0 && forall|i: int| 0 <= i < id.len() ==> is_entry_id_char(#[trigger] id[i])
}

/// A plain recording file name: not empty, without `/`, ending in `.wav`.
pub open spec fn is_audio_file_name(name: Seq<char>) -> bool {
    &&& name.len() > 0
    &&& !name.contains('/')
    &&& ".wav"@.is_suffix_of(name)
}

/// The recording file name of an entry: its id followed by `.wav`.
pub fn audio_filename_for_entry(entry_id: &str) -> (r: Result<String, String>)
    ensures
        match r {
            Ok(name) => is_file_safe_entry_id(entry_id@) && name@ == entry_id@ + ".wav"@,
            Err(e) => !is_file_safe_entry_id(entry_id@) && e@ == INVALID_ENTRY_ID_ERROR@,
        },
{
    let v = chars_of(entry_id);
    if v.len() == 0 {
        return Err(String::from_str(INVALID_ENTRY_ID_ERROR));
    }
    let mut k: usize = 0;
    while k < v.len()
        invariant
            k <= v.len(),
            v@ == entry_id@,
            forall|i: int| 0 <= i < k ==> is_entry_id_char(#[trigger] v@[i]),
        decreases v.len() - k,
    {
        let c = v[k];
        if !(('0' <= c && c <= '9') || ('a' <= c && c <= 'z') || ('A' <= c && c <= 'Z') || c == '-'
            || c == '_') {
            assert(!is_entry_id_char(v@[k as int]));
            return Err(String::from_str(INVALID_ENTRY_ID_ERROR));
        }
        k = k + 1;
    }
    Ok(concat_text(entry_id, ".wav"))
}

/// The path of a recording file in the history's recording directory, when the name is a plain
/// recording file name.
pub fn audio_path_for_filename(app_dir: &str, file_name: &str) -> (r: Result<String, String>)
    ensures
        match r {
            Ok(path) => is_audio_file_name(file_name@) && path@ == joined_path(
                joined_path(app_dir@, "history-audio"@),
                file_name@,
            ),
            Err(e) => !is_audio_file_name(file_name@) && e@ == INVALID_AUDIO_FILE_ERROR@,
        },
{
    let v = chars_of(file_name);
    if v.len() == 0 || contains_char(file_name, '/') || !ends_with_text(file_name, ".wav") {
        return Err(String::from_str(INVALID_AUDIO_FILE_ERROR));
    }
    let dir = history_audio_dir(app_dir);
    Ok(join_path(dir.as_str(), file_name))
}

/// A recording file name made from an entry id is one that reading accepts.
pub proof fn lemma_entry_audio_name_is_readable(entry_id: Seq<char>)
    requires
        is_file_safe_entry_id(entry_id),
    ensures
        is_audio_file_name(entry_id + ".wav"@),
{
    reveal_strlit(".wav");
    let name = entry_id + ".wav"@;
    assert(!name.contains('/')) by {
        if name.contains('/') {
            let i = choose|i: int| 0 <= i < name.len() && name[i] == '/';
            if i < entry_id.len() {
                assert(is_entry_id_char(entry_id[i]));
            }
        }
    }
    assert(name.subrange(name.len() - 4, name.len() as int) =~= ".wav"@);
}

/// The record of a recording stored as a WAV file.
pub fn wav_audio_record(file_name: String, size_bytes: u64) -> (r: TranscriptAudioHistory)
    ensures
        r.file_name == file_name,
        r.mime_type@ == "audio/wav"@,
        r.size_bytes == size_bytes,
{
    TranscriptAudioHistory { file_name, mime_type: String::from_str("audio/wav"), size_bytes }
}

/// The history with `entry` placed among `sorted` after every entry that is at least as new.
pub open spec fn insert_newest(entry: TranscriptHistoryEntry, sorted: Seq<TranscriptHistoryEntry>) -> Seq<
    TranscriptHistoryEntry,
>
    decreases sorted.len(),
{
    if sorted.len() == 0 {
        seq![entry]
    } else if sorted[0].created_at < entry.created_at {
        seq![entry] + sorted
    } else {
        seq![sorted[0]] + insert_newest(entry, sorted.drop_first())
    }
}

/// The history, newest entry first; entries made at the same time keep their order.
pub open spec fn newest_first(history: Seq<TranscriptHistoryEntry>) -> Seq<TranscriptHistoryEntry>
    decreases history.len(),
{
    if history.len() == 0 {
        seq![]
    } else {
        insert_newest(history.last(), newest_first(history.drop_last()))
    }
}

/// No entry is newer than one before it.
pub open spec fn is_newest_first(history: Seq<TranscriptHistoryEntry>) -> bool {
    forall|i: int, j: int| 0 <= i < j < history.len() ==> history[j].created_at <= history[i].created_at
}

proof fn lemma_insert_at(entry: TranscriptHistoryEntry, sorted: Seq<TranscriptHistoryEntry>, j: int)
    requires
        0 <= j <= sorted.len(),
        forall|m: int| 0 <= m < j ==> sorted[m].created_at >= entry.created_at,
        j < sorted.len() ==> sorted[j].created_at < entry.created_at,
    ensures
        insert_newest(entry, sorted) == sorted.insert(j, entry),
    decreases j,
{
    if j == 0 {
        if sorted.len() == 0 {
            assert(sorted.insert(0, entry) =~= seq![entry]);
        } else {
            assert(sorted.insert(0, entry) =~= seq![entry] + sorted);
        }
    } else {
        let rest = sorted.drop_first();
        assert forall|m: int| 0 <= m < j - 1 implies rest[m].created_at >= entry.created_at by {
            assert(rest[m] == sorted[m + 1]);
        }
        lemma_insert_at(entry, rest, j - 1);
        assert(sorted.insert(j, entry) =~= seq![sorted[0]] + rest.insert(j - 1, entry));
    }
}

/// The history ordered newest first, entries made at the same time keeping their order.
pub fn sort_newest_first(history: Vec<TranscriptHistoryEntry>) -> (r: Vec<TranscriptHistoryEntry>)
    ensures
        r@ == newest_first(history@),
{
    let ghost given = history@;
    let n = history.len();
    let mut rest = history;
    let mut sorted: Vec<TranscriptHistoryEntry> = Vec::new();
    let mut k: usize = 0;
    while rest.len() > 0
        invariant
            k + rest@.len() == given.len(),
            given.len() == n,
            rest@ == given.subrange(k as int, given.len() as int),
            sorted@ == newest_first(given.take(k as int)),
        decreases rest@.len(),
    {
        let entry = rest.remove(0);
        let mut j: usize = 0;
        while j < sorted.len() && sorted[j].created_at >= entry.created_at
            invariant
                j <= sorted.len(),
                forall|m: int| 0 <= m < j ==> sorted@[m].created_at >= entry.created_at,
            decreases sorted.len() - j,
        {
            j = j + 1;
        }
        proof {
            lemma_insert_at(entry, sorted@, j as int);
            assert(given.take(k + 1).drop_last() =~= given.take(k as int));
            assert(given.take(k + 1).last() == entry);
        }
        sorted.insert(j, entry);
        k = k + 1;
        assert(rest@ =~= given.subrange(k as int, given.len() as int));
    }
    assert(given.take(k as int) =~= given);
    sorted
}

proof fn lemma_insert_newest_is_insert(entry: TranscriptHistoryEntry, sorted: Seq<TranscriptHistoryEntry>) -> (j: int)
    ensures
        0 <= j <= sorted.len(),
        insert_newest(entry, sorted) == sorted.insert(j, entry),
    decreases sorted.len(),
{
    if sorted.len() == 0 {
        assert(sorted.insert(0, entry) =~= seq![entry]);
        0
    } else if sorted[0].created_at < entry.created_at {
        assert(sorted.insert(0, entry) =~= seq![entry] + sorted);
        0
    } else {
        let rest = sorted.drop_first();
        let j = lemma_insert_newest_is_insert(entry, rest);
        assert(sorted.insert(j + 1, entry) =~= seq![sorted[0]] + rest.insert(j, entry));
        j + 1
    }
}

proof fn lemma_insert_newest_keeps_order(entry: TranscriptHistoryEntry, sorted: Seq<TranscriptHistoryEntry>)
    requires
        is_newest_first(sorted),
    ensures
        is_newest_first(insert_newest(entry, sorted)),
    decreases sorted.len(),
{
    if sorted.len() > 0 && sorted[0].created_at >= entry.created_at {
        let rest = sorted.drop_first();
        lemma_insert_newest_keeps_order(entry, rest);
        let j = lemma_insert_newest_is_insert(entry, rest);
        let r = insert_newest(entry, sorted);
        let t = insert_newest(entry, rest);
        assert forall|a: int, b: int| 0 <= a < b < r.len() implies r[b].created_at <= r[a].created_at by {
            if a == 0 {
                if b - 1 == j {
                    assert(r[b] == entry);
                } else if b - 1 < j {
                    assert(r[b] == rest[b - 1]);
                } else {
                    assert(r[b] == rest[b - 2]);
                }
            } else {
                assert(r[a] == t[a - 1]);
                assert(r[b] == t[b - 1]);
            }
        }
    }
}

proof fn lemma_insert_oldest(entry: TranscriptHistoryEntry, sorted: Seq<TranscriptHistoryEntry>)
    requires
        forall|m: int| 0 <= m < sorted.len() ==> sorted[m].created_at >= entry.created_at,
    ensures
        insert_newest(entry, sorted) == sorted.push(entry),
    decreases sorted.len(),
{
    if sorted.len() > 0 {
        let rest = sorted.drop_first();
        assert forall|m: int| 0 <= m < rest.len() implies rest[m].created_at >= entry.created_at by {
            assert(rest[m] == sorted[m + 1]);
        }
        lemma_insert_oldest(entry, rest);
        assert(seq![sorted[0]] + rest.push(entry) =~= sorted.push(entry));
    } else {
        assert(seq![entry] =~= sorted.push(entry));
    }
}

/// Ordering the history newest first gives an ordered history holding the same entries.
pub proof fn lemma_newest_first_orders(history: Seq<TranscriptHistoryEntry>)
    ensures
        is_newest_first(newest_first(history)),
        newest_first(history).to_multiset() == history.to_multiset(),
    decreases history.len(),
{
    broadcast use vstd::seq_lib::group_to_multiset_ensures;

    if history.len() > 0 {
        let init = history.drop_last();
        lemma_newest_first_orders(init);
        lemma_insert_newest_keeps_order(history.last(), newest_first(init));
        let j = lemma_insert_newest_is_insert(history.last(), newest_first(init));
        assert(init.push(history.last()) =~= history);
    }
}

/// A history already ordered newest first is left as it is: reading the history twice gives
/// what reading it once gave.
pub proof fn lemma_newest_first_keeps_ordered(history: Seq<TranscriptHistoryEntry>)
    requires
        is_newest_first(history),
    ensures
        newest_first(history) == history,
    decreases history.len(),
{
    if history.len() > 0 {
        let init = history.drop_last();
        lemma_newest_first_keeps_ordered(init);
        assert forall|m: int| 0 <= m < init.len() implies init[m].created_at >= history.last().created_at by {
            assert(init[m] == history[m]);
        }
        lemma_insert_oldest(history.last(), init);
        assert(init.push(history.last()) =~= history);
    }
}

/// An entry at least as new as every entry of the history, put in front of the history as it was
/// read, comes first when the history is read again, followed by the history as it was read.
pub proof fn lemma_appended_newest_entry_comes_first(
    history: Seq<TranscriptHistoryEntry>,
    entry: TranscriptHistoryEntry,
)
    requires
        forall|i: int| 0 <= i < history.len() ==> #[trigger] history[i].created_at <= entry.created_at,
    ensures
        newest_first(seq![entry] + newest_first(history)) == seq![entry] + newest_first(history),
{
    broadcast use vstd::seq_lib::group_to_multiset_ensures;

    lemma_newest_first_orders(history);
    let sorted = newest_first(history);
    let all = seq![entry] + sorted;
    assert forall|i: int| 0 <= i < sorted.len() implies #[trigger] sorted[i].created_at <= entry.created_at by {
        assert(sorted.to_multiset().count(sorted[i]) > 0);
        assert(history.to_multiset().count(sorted[i]) > 0);
        assert(history.contains(sorted[i]));
    }
    assert forall|a: int, b: int| 0 <= a < b < all.len() implies all[b].created_at <= all[a].created_at by {
        if a > 0 {
            assert(all[a] == sorted[a - 1]);
        }
        assert(all[b] == sorted[b - 1]);
    }
    lemma_newest_first_keeps_ordered(all);
}

/// Inserting an entry keeps the entry at position `k` ahead of every entry made at its time or
/// before: when only newer entries come before it, that stays so.
proof fn lemma_insert_keeps_first_at_its_time(
    x: TranscriptHistoryEntry,
    sorted: Seq<TranscriptHistoryEntry>,
    k: int,
) -> (k2: int)
    requires
        0 <= k < sorted.len(),
        forall|m: int| 0 <= m < k ==> #[trigger] sorted[m].created_at > sorted[k].created_at,
    ensures
        0 <= k2 < insert_newest(x, sorted).len(),
        insert_newest(x, sorted)[k2] == sorted[k],
        forall|m: int| 0 <= m < k2 ==> #[trigger] insert_newest(x, sorted)[m].created_at
            > sorted[k].created_at,
    decreases sorted.len(),
{
    let r = insert_newest(x, sorted);
    if sorted[0].created_at < x.created_at {
        assert forall|m: int| 0 <= m < k + 1 implies #[trigger] r[m].created_at > sorted[k].created_at by {
            if m > 0 {
                assert(r[m] == sorted[m - 1]);
            } else if k > 0 {
                assert(sorted[0].created_at > sorted[k].created_at);
            }
        }
        assert(r[k + 1] == sorted[k]);
        k + 1
    } else if k == 0 {
        assert(r[0] == sorted[0]);
        0
    } else {
        let rest = sorted.drop_first();
        assert forall|m: int| 0 <= m < k - 1 implies #[trigger] rest[m].created_at > rest[k - 1].created_at by {
            assert(rest[m] == sorted[m + 1]);
        }
        let k3 = lemma_insert_keeps_first_at_its_time(x, rest, k - 1);
        let t = insert_newest(x, rest);
        assert(r == seq![sorted[0]] + t);
        assert forall|m: int| 0 <= m < k3 + 1 implies #[trigger] r[m].created_at > sorted[k].created_at by {
            if m > 0 {
                assert(r[m] == t[m - 1]);
            }
        }
        k3 + 1
    }
}

/// Ordering a history newest first puts its first entry ahead of every other entry made at its
/// time or before.
proof fn lemma_first_entry_stays_first_at_its_time(all: Seq<TranscriptHistoryEntry>) -> (k: int)
    requires
        all.len() > 0,
    ensures
        0 <= k < newest_first(all).len(),
        newest_first(all)[k] == all[0],
        forall|m: int| 0 <= m < k ==> #[trigger] newest_first(all)[m].created_at > all[0].created_at,
    decreases all.len(),
{
    if all.len() == 1 {
        assert(all.drop_last().len() == 0);
        assert(newest_first(all.drop_last()).len() == 0);
        assert(all.last() == all[0]);
        assert(newest_first(all) == insert_newest(all.last(), newest_first(all.drop_last())));
        assert(newest_first(all)[0] == all[0]);
        0
    } else {
        let init = all.drop_last();
        let k1 = lemma_first_entry_stays_first_at_its_time(init);
        assert(init[0] == all[0]);
        lemma_insert_keeps_first_at_its_time(all.last(), newest_first(init), k1)
    }
}

/// Appending an entry and reading the history back gives the entries of the history and the new
/// entry, newest first, with the new entry ahead of every entry made at its time or before; an
/// entry newer than all of them comes first.
pub proof fn lemma_appended_entry_is_first_at_its_time(
    history: Seq<TranscriptHistoryEntry>,
    entry: TranscriptHistoryEntry,
)
    ensures
        is_newest_first(newest_first(seq![entry] + newest_first(history))),
        newest_first(seq![entry] + newest_first(history)).to_multiset() == (seq![entry]
            + history).to_multiset(),
        exists|k: int|
            0 <= k < newest_first(seq![entry] + newest_first(history)).len()
                && #[trigger] newest_first(seq![entry] + newest_first(history))[k] == entry
                && forall|m: int|
                0 <= m < k ==> #[trigger] newest_first(seq![entry] + newest_first(history))[m].created_at
                    > entry.created_at,
{
    broadcast use vstd::seq_lib::group_to_multiset_ensures;

    let all = seq![entry] + newest_first(history);
    lemma_newest_first_orders(history);
    lemma_newest_first_orders(all);
    vstd::seq_lib::lemma_multiset_commutative(seq![entry], newest_first(history));
    vstd::seq_lib::lemma_multiset_commutative(seq![entry], history);
    let k = lemma_first_entry_stays_first_at_its_time(all);
    assert(all[0] == entry);
    assert(newest_first(all)[k] == entry);
}

/// The history to show, given what was read from the history file: empty when nothing could be
/// read, else the stored entries newest first.
pub fn history_from_stored(stored: Option<Vec<TranscriptHistoryEntry>>) -> (r: Vec<TranscriptHistoryEntry>)
    ensures
        match stored {
            None => r@.len() == 0,
            Some(h) => r@ == newest_first(h@),
        },
{
    match stored {
        None => Vec::new(),
        Some(h) => sort_newest_first(h),
    }
}

/// Puts a new entry in front of the history.
pub fn append_history(history: &mut Vec<TranscriptHistoryEntry>, entry: TranscriptHistoryEntry)
    ensures
        final(history)@ == seq![entry] + old(history)@,
{
    history.insert(0, entry);
    assert(final(history)@ =~= seq![entry] + old(history)@);
}

/// The position of the first entry with the id.
pub open spec fn entry_position(history: Seq<TranscriptHistoryEntry>, id: Seq<char>) -> Option<int> {
    if exists|i: int| 0 <= i < history.len() && #[trigger] history[i].id@ == id {
        Some(choose|i: int| 0 <= i < history.len() && history[i].id@ == id && forall|j: int| 0 <= j < i ==> #[trigger] history[j].id@ != id)
    } else {
        None
    }
}

proof fn lemma_least_entry(history: Seq<TranscriptHistoryEntry>, id: Seq<char>, w: int)
    requires
        0 <= w < history.len(),
        history[w].id@ == id,
    ensures
        exists|i: int| 0 <= i < history.len() && history[i].id@ == id && forall|j: int| 0 <= j < i ==> #[trigger] history[j].id@ != id,
    decreases w,
{
    if exists|j: int| 0 <= j < w && #[trigger] history[j].id@ == id {
        let j = choose|j: int| 0 <= j < w && #[trigger] history[j].id@ == id;
        lemma_least_entry(history, id, j);
    } else {
        assert(forall|j: int| 0 <= j < w ==> #[trigger] history[j].id@ != id);
    }
}

/// What `entry_position` picks: the first position with the id.
pub proof fn lemma_entry_position(history: Seq<TranscriptHistoryEntry>, id: Seq<char>)
    ensures
        entry_position(history, id) matches Some(i) ==> 0 <= i < history.len() && history[i].id@ == id
            && forall|j: int| 0 <= j < i ==> #[trigger] history[j].id@ != id,
        entry_position(history, id) is None <==> forall|i: int| 0 <= i < history.len() ==> #[trigger] history[i].id@ != id,
{
    if exists|i: int| 0 <= i < history.len() && #[trigger] history[i].id@ == id {
        let w = choose|i: int| 0 <= i < history.len() && #[trigger] history[i].id@ == id;
        lemma_least_entry(history, id, w);
    }
}

/// Where the recording of the entry `entry_id` is stored: `<id>.wav` in the recording directory.
pub open spec fn stored_audio_path(app_dir: Seq<char>, entry_id: Seq<char>) -> Seq<char> {
    joined_path(joined_path(app_dir, "history-audio"@), entry_id + ".wav"@)
}

/// What looking up the recording of the entry `entry_id` gives: the path of the recording of
/// the first entry with that id, or an error when there is no such entry, when it has no
/// recording, or when the recording's file name is not a plain recording file name.
pub open spec fn audio_lookup(
    app_dir: Seq<char>,
    history: Seq<TranscriptHistoryEntry>,
    entry_id: Seq<char>,
) -> Result<Seq<char>, Seq<char>> {
    match entry_position(history, entry_id) {
        None => Err(ENTRY_NOT_FOUND_ERROR@),
        Some(i) => match history[i].audio {
            None => Err(NO_AUDIO_ERROR@),
            Some(audio) => if is_audio_file_name(audio.file_name@) {
                Ok(joined_path(joined_path(app_dir, "history-audio"@), audio.file_name@))
            } else {
                Err(INVALID_AUDIO_FILE_ERROR@)
            },
        },
    }
}

/// The file name and path under which the recording of the entry `entry_id` is stored.
pub fn history_audio_destination(app_dir: &str, entry_id: &str) -> (r: Result<(String, String), String>)
    ensures
        match r {
            Ok((name, path)) => {
                &&& is_file_safe_entry_id(entry_id@)
                &&& name@ == entry_id@ + ".wav"@
                &&& path@ == stored_audio_path(app_dir@, entry_id@)
            },
            Err(e) => !is_file_safe_entry_id(entry_id@) && e@ == INVALID_ENTRY_ID_ERROR@,
        },
{
    let name = audio_filename_for_entry(entry_id)?;
    let dir = history_audio_dir(app_dir);
    let path = join_path(dir.as_str(), name.as_str());
    Ok((name, path))
}

/// A recording stored for an entry is read from where it was stored: when the first entry with
/// the id records the file that storing named, looking the entry up gives the path the recording
/// was stored at.
pub proof fn lemma_stored_recording_is_found(
    app_dir: Seq<char>,
    history: Seq<TranscriptHistoryEntry>,
    entry_id: Seq<char>,
    i: int,
)
    requires
        is_file_safe_entry_id(entry_id),
        0 <= i < history.len(),
        history[i].id@ == entry_id,
        forall|j: int| 0 <= j < i ==> #[trigger] history[j].id@ != entry_id,
        history[i].audio matches Some(audio) && audio.file_name@ == entry_id + ".wav"@,
    ensures
        audio_lookup(app_dir, history, entry_id) == Ok::<Seq<char>, Seq<char>>(
            stored_audio_path(app_dir, entry_id),
        ),
{
    lemma_entry_position(history, entry_id);
    lemma_entry_audio_name_is_readable(entry_id);
    let p = entry_position(history, entry_id)->0;
    if p < i {
        assert(history[p].id@ != entry_id);
    }
    if p > i {
        assert(history[i].id@ != entry_id);
    }
}

/// The path of the recording kept with the entry `entry_id`, looked up in the history.
pub fn history_audio_path(app_dir: &str, history: &Vec<TranscriptHistoryEntry>, entry_id: &str) -> (r:
    Result<String, String>)
    ensures
        result_texts(r) == audio_lookup(app_dir@, history@, entry_id@),
{
    proof {
        lemma_entry_position(history@, entry_id@);
    }
    let mut k: usize = 0;
    while k < history.len()
        invariant
            k <= history.len(),
            forall|j: int| 0 <= j < k ==> #[trigger] history@[j].id@ != entry_id@,
        decreases history.len() - k,
    {
        if text_eq(history[k].id.as_str(), entry_id) {
            proof {
                let p = entry_position(history@, entry_id@)->0;
                if p < k {
                    assert(history@[p].id@ != entry_id@);
                }
                if p > k {
                    assert(history@[k as int].id@ != entry_id@);
                }
            }
            return match &history[k].audio {
                None => Err(String::from_str(NO_AUDIO_ERROR)),
                Some(audio) => audio_path_for_filename(app_dir, audio.file_name.as_str()),
            };
        }
        k = k + 1;
    }
    Err(String::from_str(ENTRY_NOT_FOUND_ERROR))
}

} // verus!
