//! Records of past dictations as stored in the history database, and the
//! word count kept with each.
use vstd::prelude::*;
use crate::text::{append_chars, append_str, chars_of, split_whitespace, string_of, trim, trimmed, views, words};

verus! {

#[derive(Debug, Clone)]
pub struct HistoryEntry {
    pub id: i64,
    pub created_at: i64,
    pub duration_ms: i64,
    pub raw_text: String,
    pub cleaned_text: Option<String>,
    pub provider: String,
    pub model: String,
    pub language: String,
    pub source_file: Option<String>,
    pub segments_json: Option<String>,
    pub word_count: i64,
}

/// A dictation about to be stored.
#[derive(Debug, Clone)]
pub struct NewEntry {
    pub duration_ms: i64,
    pub raw_text: String,
    pub cleaned_text: Option<String>,
    pub provider: String,
    pub model: String,
    pub language: String,
    pub source_file: Option<String>,
    pub segments_json: Option<String>,
}

/// Words and sessions of one calendar day.
#[derive(Debug, Clone)]
pub struct DayStat {
    pub day: String,
    pub words: i64,
    pub sessions: i64,
}

/// The number of whitespace-separated words in `text`.
pub fn count_words(text: &str) -> (n: i64)
    requires
        text@.len() <= i64::MAX,
    ensures
        n == words(text@).len(),
{
    let cs = chars_of(text);
    let ws = split_whitespace(cs.as_slice());
    proof {
        crate::text::lemma_words_count_bound(text@);
        assert(views(ws@).len() == ws@.len());
    }
    ws.len() as i64
}

/// The text whose words a stored entry counts: the cleaned text when it
/// holds any, else the raw text.
pub open spec fn counted_text(entry: NewEntry) -> Seq<char> {
    match entry.cleaned_text {
        Some(c) => if trimmed(c@).len() > 0 {
            c@
        } else {
            entry.raw_text@
        },
        None => entry.raw_text@,
    }
}

/// The number of words a stored entry counts.
pub open spec fn spec_entry_word_count(entry: NewEntry) -> nat {
    words(counted_text(entry)).len()
}

/// An entry with a non-blank cleaned text counts the words of the cleaned
/// text, whatever its raw text; one without counts the words of its raw
/// text. So two entries with the same non-blank cleaned text count alike.
pub proof fn lemma_cleaned_words_are_counted(entry: NewEntry, other: NewEntry)
    ensures
        entry.cleaned_text matches Some(c) ==> (trimmed(c@).len() > 0 ==> spec_entry_word_count(
            entry,
        ) == words(c@).len()),
        entry.cleaned_text matches Some(c) ==> (trimmed(c@).len() == 0 ==> spec_entry_word_count(
            entry,
        ) == words(entry.raw_text@).len()),
        entry.cleaned_text is None ==> spec_entry_word_count(entry) == words(entry.raw_text@).len(),
        entry.cleaned_text matches Some(c) ==> (trimmed(c@).len() > 0 && other.cleaned_text
            == entry.cleaned_text ==> spec_entry_word_count(entry) == spec_entry_word_count(other)),
{
}

pub fn entry_word_count(entry: &NewEntry) -> (n: i64)
    requires
        entry.raw_text@.len() <= i64::MAX,
        entry.cleaned_text matches Some(c) ==> c@.len() <= i64::MAX,
    ensures
        n == spec_entry_word_count(*entry),
{
    match &entry.cleaned_text {
        Some(c) => {
            let cc = chars_of(c.as_str());
            let t = trim(cc.as_slice());
            if t.len() > 0 {
                return count_words(c.as_str());
            }
            count_words(entry.raw_text.as_str())
        },
        None => count_words(entry.raw_text.as_str()),
    }
}

/// The `LIKE` pattern a history search uses: the trimmed query between
/// wildcards; none for a blank query, which lists everything.
pub fn search_pattern(search: &str) -> (r: Option<String>)
    ensures
        match r {
            Some(p) => trimmed(search@).len() > 0 && p@ == "%"@ + trimmed(search@) + "%"@,
            None => trimmed(search@).len() == 0,
        },
{
    let cs = chars_of(search);
    let t = trim(cs.as_slice());
    if t.len() == 0 {
        return None;
    }
    let mut p = chars_of("%");
    append_chars(&mut p, t.as_slice());
    append_str(&mut p, "%");
    Some(string_of(p.as_slice()))
}

} // verus!
