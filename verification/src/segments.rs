//! Incremental transcript segments and their assembly into one transcript:
//! ordering by time, de-duplicating the words that overlapping audio slices
//! transcribe twice, and replacing a hyphenated partial word at a seam.
use vstd::prelude::*;
use crate::text::{
    append_chars, ascii_upper_seq, ascii_uppercase, chars_eq, chars_eq_str, chars_of, join,
    join_words, lowercase_str, slice_to_vec, split_whitespace, str_lowercase, string_of,
    trim, trim_end, trim_end_of, trim_non_alnum, trim_non_alphanumeric, trimmed, utf8_len,
    utf8_size, views, words,
};

verus! {

broadcast use vstd::string::group_string_axioms;

#[derive(Debug, Clone, Copy, PartialEq, Eq, Structural)]
pub enum TranscriptSegmentStatus {
    Recording,
    Transcribing,
    RawReady,
    Cleaning,
    Cleaned,
    Provisional,
    Failed,
}

#[derive(Debug, Clone, PartialEq, Eq)]
pub struct TranscriptSegment {
    pub id: u64,
    pub start_ms: u64,
    pub end_ms: u64,
    pub status: TranscriptSegmentStatus,
    pub raw_text: String,
    pub cleaned_text: Option<String>,
    pub error: Option<String>,
}

pub fn copy_opt_string(s: &Option<String>) -> (r: Option<String>)
    ensures
        r == *s,
{
    match s {
        Some(t) => Some(t.clone()),
        None => None,
    }
}

/// The mathematical content of a segment: its fields, strings as characters.
pub struct SegmentView {
    pub id: u64,
    pub start_ms: u64,
    pub end_ms: u64,
    pub status: TranscriptSegmentStatus,
    pub raw_text: Seq<char>,
    pub cleaned_text: Option<Seq<char>>,
    pub error: Option<Seq<char>>,
}

pub open spec fn opt_view(o: Option<String>) -> Option<Seq<char>> {
    match o {
        Some(s) => Some(s@),
        None => None,
    }
}

impl View for TranscriptSegment {
    type V = SegmentView;

    open spec fn view(&self) -> SegmentView {
        SegmentView {
            id: self.id,
            start_ms: self.start_ms,
            end_ms: self.end_ms,
            status: self.status,
            raw_text: self.raw_text@,
            cleaned_text: opt_view(self.cleaned_text),
            error: opt_view(self.error),
        }
    }
}

pub open spec fn seg_views(s: Seq<TranscriptSegment>) -> Seq<SegmentView> {
    s.map_values(|x: TranscriptSegment| x@)
}

impl TranscriptSegment {
    pub fn raw_ready(id: u64, start_ms: u64, end_ms: u64, raw_text: &str) -> (s: Self)
        ensures
            s.id == id,
            s.start_ms == start_ms,
            s.end_ms == end_ms,
            s.status == TranscriptSegmentStatus::RawReady,
            s.raw_text@ == raw_text@,
            s.cleaned_text.is_none(),
            s.error.is_none(),
    {
        TranscriptSegment {
            id,
            start_ms,
            end_ms,
            status: TranscriptSegmentStatus::RawReady,
            raw_text: raw_text.to_owned(),
            cleaned_text: None,
            error: None,
        }
    }

    pub fn failed(id: u64, start_ms: u64, end_ms: u64, error: &str) -> (s: Self)
        ensures
            s.id == id,
            s.start_ms == start_ms,
            s.end_ms == end_ms,
            s.status == TranscriptSegmentStatus::Failed,
            s.raw_text@ == Seq::<char>::empty(),
            s.cleaned_text.is_none(),
            s.error.is_some() && s.error->0@ == error@,
    {
        TranscriptSegment {
            id,
            start_ms,
            end_ms,
            status: TranscriptSegmentStatus::Failed,
            raw_text: String::new(),
            cleaned_text: None,
            error: Some(error.to_owned()),
        }
    }

    /// A field-by-field copy.
    pub fn duplicate(&self) -> (r: Self)
        ensures
            r == *self,
    {
        TranscriptSegment {
            id: self.id,
            start_ms: self.start_ms,
            end_ms: self.end_ms,
            status: self.status,
            raw_text: self.raw_text.clone(),
            cleaned_text: copy_opt_string(&self.cleaned_text),
            error: copy_opt_string(&self.error),
        }
    }
}

// ---------------------------------------------------------------------------
// Ordering by (start_ms, end_ms, id), stable
// ---------------------------------------------------------------------------

pub open spec fn key_le(a: SegmentView, b: SegmentView) -> bool {
    ||| a.start_ms < b.start_ms
    ||| (a.start_ms == b.start_ms && a.end_ms < b.end_ms)
    ||| (a.start_ms == b.start_ms && a.end_ms == b.end_ms && a.id <= b.id)
}

pub fn segment_key_le(a: &TranscriptSegment, b: &TranscriptSegment) -> (r: bool)
    ensures
        r == key_le(a@, b@),
{
    a.start_ms < b.start_ms || (a.start_ms == b.start_ms && a.end_ms < b.end_ms) || (a.start_ms
        == b.start_ms && a.end_ms == b.end_ms && a.id <= b.id)
}

/// `s` with `x` inserted after the last element whose key is at most `x`'s.
pub open spec fn insert_by_key(s: Seq<SegmentView>, x: SegmentView) -> Seq<SegmentView>
    decreases s.len(),
{
    if s.len() == 0 || key_le(s.last(), x) {
        s.push(x)
    } else {
        insert_by_key(s.drop_last(), x).push(s.last())
    }
}

/// `s` stably sorted by `(start_ms, end_ms, id)`.
pub open spec fn sort_by_key(s: Seq<SegmentView>) -> Seq<SegmentView>
    decreases s.len(),
{
    if s.len() == 0 {
        s
    } else {
        insert_by_key(sort_by_key(s.drop_last()), s.last())
    }
}

pub proof fn lemma_insert_by_key_at(s: Seq<SegmentView>, x: SegmentView, p: int)
    requires
        0 <= p <= s.len(),
        forall|k: int| p <= k < s.len() ==> !key_le(#[trigger] s[k], x),
        p == 0 || key_le(s[p - 1], x),
    ensures
        insert_by_key(s, x) == s.insert(p, x),
    decreases s.len() - p,
{
    if p == s.len() {
        assert(s.insert(p, x) =~= s.push(x));
    } else {
        let t = s.drop_last();
        assert forall|k: int| p <= k < t.len() implies !key_le(#[trigger] t[k], x) by {
            assert(t[k] == s[k]);
        }
        lemma_insert_by_key_at(t, x, p);
        assert(!key_le(s[s.len() - 1], x));
        assert(t.insert(p, x).push(s.last()) =~= s.insert(p, x));
    }
}

/// Ordered by `(start_ms, end_ms, id)`.
pub open spec fn sorted_by_key(s: Seq<SegmentView>) -> bool {
    forall|i: int, j: int| 0 <= i < j < s.len() ==> key_le(#[trigger] s[i], #[trigger] s[j])
}

proof fn lemma_insert_by_key_sorted(s: Seq<SegmentView>, x: SegmentView) -> (p: int)
    requires
        sorted_by_key(s),
    ensures
        0 <= p <= s.len(),
        insert_by_key(s, x) == s.insert(p, x),
        sorted_by_key(insert_by_key(s, x)),
    decreases s.len(),
{
    if s.len() == 0 || key_le(s.last(), x) {
        let r = s.push(x);
        assert(s.insert(s.len() as int, x) =~= r);
        assert forall|i: int, j: int| 0 <= i < j < r.len() implies key_le(#[trigger] r[i], #[trigger] r[j]) by {
            if j == s.len() {
                assert(r[j] == x);
                assert(r[i] == s[i]);
                if i < s.len() - 1 {
                    assert(key_le(s[i], s[s.len() - 1]));
                }
            } else {
                assert(r[i] == s[i] && r[j] == s[j]);
            }
        }
        s.len() as int
    } else {
        let t = s.drop_last();
        assert forall|i: int, j: int| 0 <= i < j < t.len() implies key_le(#[trigger] t[i], #[trigger] t[j]) by {
            assert(t[i] == s[i] && t[j] == s[j]);
        }
        let q = lemma_insert_by_key_sorted(t, x);
        let inner = insert_by_key(t, x);
        let r = inner.push(s.last());
        assert(r =~= s.insert(q, x));
        assert forall|i: int, j: int| 0 <= i < j < r.len() implies key_le(#[trigger] r[i], #[trigger] r[j]) by {
            if j == r.len() - 1 {
                assert(r[j] == s.last());
                if i < q {
                    assert(r[i] == s[i]);
                    assert(key_le(s[i], s[s.len() - 1]));
                } else if i == q {
                    assert(r[i] == x);
                } else {
                    assert(r[i] == s[i - 1]);
                    assert(key_le(s[i - 1], s[s.len() - 1]));
                }
            } else {
                assert(r[i] == inner[i] && r[j] == inner[j]);
            }
        }
        q
    }
}

/// `sort_by_key` orders its input and keeps its elements.
pub proof fn lemma_sort_by_key_sorted(s: Seq<SegmentView>)
    ensures
        sorted_by_key(sort_by_key(s)),
        sort_by_key(s).len() == s.len(),
        forall|k: int| 0 <= k < s.len() ==> sort_by_key(s).contains(#[trigger] s[k]),
    decreases s.len(),
{
    if s.len() > 0 {
        let t = s.drop_last();
        lemma_sort_by_key_sorted(t);
        let st = sort_by_key(t);
        let p = lemma_insert_by_key_sorted(st, s.last());
        let r = sort_by_key(s);
        assert(r == st.insert(p, s.last()));
        assert forall|k: int| 0 <= k < s.len() implies r.contains(#[trigger] s[k]) by {
            if k == s.len() - 1 {
                assert(r[p] == s.last());
            } else {
                assert(t[k] == s[k]);
                assert(st.contains(t[k]));
                let m = choose|m: int| 0 <= m < st.len() && st[m] == t[k];
                if m < p {
                    assert(r[m] == st[m]);
                } else {
                    assert(r[m + 1] == st[m]);
                }
            }
        }
    }
}

/// After an upsert the session's segments are in time order, the new
/// segment is among them, and a segment whose id was already present is
/// replaced rather than added again.
pub proof fn lemma_upsert_keeps_order(s: Seq<SegmentView>, seg: SegmentView)
    ensures
        sorted_by_key(sort_by_key(upserted(s, seg))),
        sort_by_key(upserted(s, seg)).contains(seg),
        (exists|i: int| first_with_id(s, seg.id, i)) ==> sort_by_key(upserted(s, seg)).len()
            == s.len(),
        !(exists|i: int| first_with_id(s, seg.id, i)) ==> sort_by_key(upserted(s, seg)).len()
            == s.len() + 1,
{
    let u = upserted(s, seg);
    lemma_sort_by_key_sorted(u);
    if exists|i: int| first_with_id(s, seg.id, i) {
        let i = choose|i: int| first_with_id(s, seg.id, i);
        assert(u[i] == seg);
    } else {
        assert(u[s.len() as int] == seg);
    }
}

/// Position at which `insert_by_key` puts `x`.
fn insert_position(s: &Vec<TranscriptSegment>, x: &TranscriptSegment) -> (p: usize)
    ensures
        p <= s@.len(),
        insert_by_key(seg_views(s@), x@) == seg_views(s@).insert(p as int, x@),
{
    let mut p = s.len();
    while p > 0 && !segment_key_le(&s[p - 1], x)
        invariant
            p <= s@.len(),
            forall|k: int| p <= k < s@.len() ==> !key_le(#[trigger] seg_views(s@)[k], x@),
        decreases p,
    {
        p = p - 1;
    }
    proof {
        lemma_insert_by_key_at(seg_views(s@), x@, p as int);
    }
    p
}

/// Copies of `segments`, stably sorted by `(start_ms, end_ms, id)`.
pub fn sorted_segments(segments: &[TranscriptSegment]) -> (r: Vec<TranscriptSegment>)
    ensures
        seg_views(r@) == sort_by_key(seg_views(segments@)),
{
    let mut sorted: Vec<TranscriptSegment> = Vec::new();
    for i in 0..segments.len()
        invariant
            seg_views(sorted@) == sort_by_key(seg_views(segments@).take(i as int)),
    {
        let x = segments[i].duplicate();
        assert(seg_views(segments@).take(i + 1).drop_last() =~= seg_views(segments@).take(
            i as int,
        ));
        assert(seg_views(segments@).take(i + 1).last() == x@);
        let p = insert_position(&sorted, &x);
        let ghost before = sorted@;
        sorted.insert(p, x);
        assert(seg_views(sorted@) =~= seg_views(before).insert(p as int, x@));
    }
    assert(seg_views(segments@).take(segments@.len() as int) =~= seg_views(segments@));
    sorted
}

// ---------------------------------------------------------------------------
// Word-level merging of overlapping transcripts
// ---------------------------------------------------------------------------

/// A whole-line whisper marker such as `[BLANK_AUDIO]` or `(music)`.
pub open spec fn is_non_speech_marker(t: Seq<char>) -> bool {
    let u = ascii_upper_seq(t);
    ||| u == "[BLANK_AUDIO]"@
    ||| u == "[MUSIC]"@
    ||| u == "[SILENCE]"@
    ||| u == "[NO SPEECH]"@
    ||| u == "[INAUDIBLE]"@
    ||| u == "(BLANK_AUDIO)"@
    ||| u == "(MUSIC)"@
    ||| u == "(SILENCE)"@
    ||| u == "(NO SPEECH)"@
    ||| u == "(INAUDIBLE)"@
}

pub fn non_speech_marker(t: &[char]) -> (b: bool)
    ensures
        b == is_non_speech_marker(t@),
{
    let u = ascii_uppercase(t);
    let u = u.as_slice();
    chars_eq_str(u, "[BLANK_AUDIO]") || chars_eq_str(u, "[MUSIC]") || chars_eq_str(u, "[SILENCE]")
        || chars_eq_str(u, "[NO SPEECH]") || chars_eq_str(u, "[INAUDIBLE]") || chars_eq_str(
        u,
        "(BLANK_AUDIO)",
    ) || chars_eq_str(u, "(MUSIC)") || chars_eq_str(u, "(SILENCE)") || chars_eq_str(
        u,
        "(NO SPEECH)",
    ) || chars_eq_str(u, "(INAUDIBLE)")
}

/// The words a text contributes: none for blank text or a whole-text marker.
pub open spec fn text_words(t: Seq<char>) -> Seq<Seq<char>> {
    if is_non_speech_marker(trimmed(t)) {
        Seq::empty()
    } else {
        words(trimmed(t))
    }
}

fn split_words(t: &[char]) -> (r: Vec<Vec<char>>)
    ensures
        views(r@) == text_words(t@),
{
    let tr = trim(t);
    if non_speech_marker(tr.as_slice()) {
        let r: Vec<Vec<char>> = Vec::new();
        assert(views(r@) =~= Seq::<Seq<char>>::empty());
        return r;
    }
    split_whitespace(tr.as_slice())
}

/// A word compared case-insensitively, ignoring surrounding punctuation.
pub open spec fn normalize_word(w: Seq<char>) -> Seq<char> {
    str_lowercase(trim_non_alnum(w))
}

fn normalize(w: &[char]) -> (r: Vec<char>)
    ensures
        r@ == normalize_word(w@),
{
    let t = trim_non_alphanumeric(w);
    let s = string_of(t.as_slice());
    let l = lowercase_str(s.as_str());
    chars_of(l.as_str())
}

/// The first `min(len)` words agree after normalization, and none of them
/// normalizes to nothing.
pub open spec fn words_match(l: Seq<Seq<char>>, r: Seq<Seq<char>>) -> bool {
    forall|i: int|
        0 <= i < l.len() && i < r.len() ==> normalize_word(#[trigger] l[i]).len() > 0
            && normalize_word(l[i]) == normalize_word(r[i])
}

/// The last `size` words of `l` match the first `size` words of `r`.
pub open spec fn overlap_at(l: Seq<Seq<char>>, r: Seq<Seq<char>>, size: int) -> bool {
    words_match(l.skip(l.len() - size), r.take(size))
}

/// The largest overlap no larger than `size`, or 0.
pub open spec fn overlap_from(l: Seq<Seq<char>>, r: Seq<Seq<char>>, size: int) -> int
    decreases size,
{
    if size <= 0 {
        0
    } else if overlap_at(l, r, size) {
        size
    } else {
        overlap_from(l, r, size - 1)
    }
}

/// The number of words at the end of `l` repeated at the start of `r`.
pub open spec fn overlap_count(l: Seq<Seq<char>>, r: Seq<Seq<char>>) -> int {
    overlap_from(l, r, if l.len() < r.len() { l.len() as int } else { r.len() as int })
}

fn words_match_at(left: &Vec<Vec<char>>, right: &Vec<Vec<char>>, size: usize) -> (b: bool)
    requires
        1 <= size <= left@.len(),
        size <= right@.len(),
    ensures
        b == overlap_at(views(left@), views(right@), size as int),
{
    let n = left.len();
    let off = n - size;
    let ghost l = views(left@).skip(off as int);
    let ghost r = views(right@).take(size as int);
    for i in 0..size
        invariant
            n == left@.len(),
            off + size == n,
            size <= right@.len(),
            l == views(left@).skip(off as int),
            r == views(right@).take(size as int),
            l.len() == size && r.len() == size,
            forall|k: int|
                0 <= k < i ==> normalize_word(#[trigger] l[k]).len() > 0 && normalize_word(l[k])
                    == normalize_word(r[k]),
    {
        let a = normalize(left[off + i].as_slice());
        let b = normalize(right[i].as_slice());
        assert(l[i as int] == left@[off + i]@);
        assert(r[i as int] == right@[i as int]@);
        if a.len() == 0 || !chars_eq(a.as_slice(), b.as_slice()) {
            assert(!(normalize_word(l[i as int]).len() > 0 && normalize_word(l[i as int])
                == normalize_word(r[i as int])));
            return false;
        }
    }
    true
}

fn overlap_word_count(left: &Vec<Vec<char>>, right: &Vec<Vec<char>>) -> (n: usize)
    ensures
        n == overlap_count(views(left@), views(right@)),
        n <= left@.len() && n <= right@.len(),
{
    let max = if left.len() < right.len() {
        left.len()
    } else {
        right.len()
    };
    let mut size = max;
    while size > 0
        invariant
            size <= max,
            max <= left@.len() && max <= right@.len(),
            max == (if left@.len() < right@.len() {
                left@.len()
            } else {
                right@.len()
            }),
            overlap_count(views(left@), views(right@)) == overlap_from(
                views(left@),
                views(right@),
                size as int,
            ),
        decreases size,
    {
        if words_match_at(left, right, size) {
            return size;
        }
        size = size - 1;
    }
    0
}

/// The last word of `l` is a hyphenated fragment that the first word of `r`
/// completes (for instance `increm-` followed by `incremental`).
pub open spec fn should_replace_partial_tail(l: Seq<Seq<char>>, r: Seq<Seq<char>>) -> bool {
    &&& l.len() > 0
    &&& trim_end(l.last()).len() > 0
    &&& trim_end(l.last()).last() == '-'
    &&& r.len() > 0
    &&& utf8_size(normalize_word(l.last())) >= 5
    &&& utf8_size(normalize_word(r[0])) > utf8_size(normalize_word(l.last()))
    &&& normalize_word(l.last()).is_prefix_of(normalize_word(r[0]))
}

fn replace_partial_tail(left: &Vec<Vec<char>>, right: &Vec<Vec<char>>) -> (b: bool)
    ensures
        b == should_replace_partial_tail(views(left@), views(right@)),
{
    if left.len() == 0 {
        return false;
    }
    let last = &left[left.len() - 1];
    assert(views(left@).last() == last@);
    let te = trim_end_of(last.as_slice());
    if te.len() == 0 || te[te.len() - 1] != '-' {
        return false;
    }
    if right.len() == 0 {
        return false;
    }
    assert(views(right@)[0] == right@[0]@);
    let a = normalize(last.as_slice());
    let b = normalize(right[0].as_slice());
    let la = utf8_len(a.as_slice());
    let lb = utf8_len(b.as_slice());
    la >= 5 && lb > la && crate::text::starts_with(b.as_slice(), a.as_slice())
}

/// One merge step: append `incoming`, dropping the words it repeats from the
/// end of `merged`, or replacing a hyphenated fragment it completes.
pub open spec fn merge_step(merged: Seq<Seq<char>>, incoming: Seq<Seq<char>>) -> Seq<Seq<char>> {
    if incoming.len() == 0 {
        merged
    } else if merged.len() == 0 {
        incoming
    } else if overlap_count(merged, incoming) > 0 {
        merged + incoming.skip(overlap_count(merged, incoming))
    } else if should_replace_partial_tail(merged, incoming) {
        merged.drop_last() + incoming
    } else {
        merged + incoming
    }
}

/// The words of `texts` merged left to right.
pub open spec fn merge_all(texts: Seq<Seq<char>>) -> Seq<Seq<char>>
    decreases texts.len(),
{
    if texts.len() == 0 {
        Seq::empty()
    } else {
        merge_step(merge_all(texts.drop_last()), text_words(texts.last()))
    }
}

/// The merged transcript: merged words joined by single spaces.
pub open spec fn merged_text(texts: Seq<Seq<char>>) -> Seq<char> {
    trimmed(join(merge_all(texts), " "@))
}

fn push_words_from(dst: &mut Vec<Vec<char>>, src: &Vec<Vec<char>>, from: usize)
    requires
        from <= src@.len(),
    ensures
        views(final(dst)@) == views(old(dst)@) + views(src@).skip(from as int),
{
    let ghost start = views(dst@);
    let mut i = from;
    while i < src.len()
        invariant
            from <= i <= src@.len(),
            views(dst@) == start + views(src@).subrange(from as int, i as int),
        decreases src@.len() - i,
    {
        let w = slice_to_vec(src[i].as_slice(), 0, src[i].len());
        assert(src[i as int]@.subrange(0, src[i as int]@.len() as int) =~= src[i as int]@);
        let ghost before = dst@;
        dst.push(w);
        assert(views(dst@) =~= views(before).push(src@[i as int]@));
        assert(views(src@).subrange(from as int, i + 1) =~= views(src@).subrange(
            from as int,
            i as int,
        ).push(src@[i as int]@));
        i = i + 1;
    }
    assert(views(src@).subrange(from as int, src@.len() as int) =~= views(src@).skip(
        from as int,
    ));
}

/// Merges transcripts (as character vectors) left to right.
pub fn merge_char_texts(texts: &Vec<Vec<char>>) -> (r: Vec<char>)
    ensures
        r@ == merged_text(views(texts@)),
{
    let mut merged: Vec<Vec<char>> = Vec::new();
    for t in 0..texts.len()
        invariant
            views(merged@) == merge_all(views(texts@).take(t as int)),
    {
        let ghost ts = views(texts@).take(t + 1);
        assert(ts.drop_last() =~= views(texts@).take(t as int));
        assert(ts.last() == texts@[t as int]@);
        let incoming = split_words(texts[t].as_slice());
        if incoming.len() == 0 {
        } else if merged.len() == 0 {
            push_words_from(&mut merged, &incoming, 0);
            assert(views(incoming@).skip(0) =~= views(incoming@));
        } else {
            let overlap = overlap_word_count(&merged, &incoming);
            if overlap > 0 {
                push_words_from(&mut merged, &incoming, overlap);
            } else {
                if replace_partial_tail(&merged, &incoming) {
                    let ghost before = views(merged@);
                    merged.pop();
                    assert(views(merged@) =~= before.drop_last());
                }
                push_words_from(&mut merged, &incoming, 0);
                assert(views(incoming@).skip(0) =~= views(incoming@));
            }
        }
    }
    assert(views(texts@).take(texts@.len() as int) =~= views(texts@));
    let joined = join_words(&merged, " ");
    trim(joined.as_slice())
}

pub open spec fn str_views(texts: Seq<&str>) -> Seq<Seq<char>> {
    texts.map_values(|t: &str| t@)
}

/// Merges transcript chunks, de-duplicating overlapping words.
pub fn merge_texts(texts: &[&str]) -> (r: String)
    ensures
        r@ == merged_text(str_views(texts@)),
{
    let mut cs: Vec<Vec<char>> = Vec::new();
    for i in 0..texts.len()
        invariant
            views(cs@) == str_views(texts@).take(i as int),
    {
        let ghost before = cs@;
        cs.push(chars_of(texts[i]));
        assert(views(cs@) =~= views(before).push(texts@[i as int]@));
        assert(str_views(texts@).take(i + 1) =~= str_views(texts@).take(i as int).push(
            texts@[i as int]@,
        ));
    }
    assert(str_views(texts@).take(texts@.len() as int) =~= str_views(texts@));
    let r = merge_char_texts(&cs);
    string_of(r.as_slice())
}

// ---------------------------------------------------------------------------
// Assembling a session's segments
// ---------------------------------------------------------------------------

pub open spec fn raw_texts(s: Seq<SegmentView>) -> Seq<Seq<char>> {
    s.map_values(|x: SegmentView| x.raw_text)
}

/// The non-blank-ness test behind `has_text`: something is left after trimming.
pub open spec fn has_text(t: Seq<char>) -> bool {
    trimmed(t).len() > 0
}

fn has_text_chars(t: &[char]) -> (b: bool)
    ensures
        b == has_text(t@),
{
    let tr = trim(t);
    tr.len() > 0
}

/// The text a segment contributes to the cleaned transcript: its cleaned
/// text when that is non-blank, else its raw text when non-blank.
pub open spec fn cleaned_choice(x: SegmentView) -> Option<Seq<char>> {
    if x.cleaned_text.is_some() && has_text(x.cleaned_text->0) {
        Some(x.cleaned_text->0)
    } else if has_text(x.raw_text) {
        Some(x.raw_text)
    } else {
        None
    }
}

pub open spec fn cleaned_texts(s: Seq<SegmentView>) -> Seq<Seq<char>>
    decreases s.len(),
{
    if s.len() == 0 {
        Seq::empty()
    } else {
        let prev = cleaned_texts(s.drop_last());
        match cleaned_choice(s.last()) {
            Some(t) => prev.push(t),
            None => prev,
        }
    }
}

/// Some segment carries non-blank cleaned text.
pub open spec fn has_cleaned(s: Seq<SegmentView>) -> bool {
    exists|i: int|
        0 <= i < s.len() && (#[trigger] s[i]).cleaned_text.is_some() && has_text(
            s[i].cleaned_text->0,
        )
}

/// The raw transcript of `segments`, merged in time order.
pub fn assemble_raw_text(segments: &[TranscriptSegment]) -> (r: String)
    ensures
        r@ == merged_text(raw_texts(sort_by_key(seg_views(segments@)))),
{
    let ordered = sorted_segments(segments);
    let ghost ov = seg_views(ordered@);
    let mut texts: Vec<Vec<char>> = Vec::new();
    for i in 0..ordered.len()
        invariant
            ov == seg_views(ordered@),
            views(texts@) == raw_texts(ov).take(i as int),
    {
        let ghost before = texts@;
        texts.push(chars_of(ordered[i].raw_text.as_str()));
        assert(views(texts@) =~= views(before).push(ordered@[i as int].raw_text@));
        assert(raw_texts(ov).take(i + 1) =~= raw_texts(ov).take(i as int).push(
            ordered@[i as int].raw_text@,
        ));
    }
    assert(raw_texts(ov).take(ordered@.len() as int) =~= raw_texts(ov));
    let r = merge_char_texts(&texts);
    string_of(r.as_slice())
}

/// The cleaned transcript of `segments`, merged in time order, or `None`
/// when no segment has non-blank cleaned text.
pub fn assemble_cleaned_text(segments: &[TranscriptSegment]) -> (r: Option<String>)
    ensures
        r.is_some() == has_cleaned(sort_by_key(seg_views(segments@))),
        r.is_some() ==> r->0@ == merged_text(cleaned_texts(sort_by_key(seg_views(segments@)))),
{
    let ordered = sorted_segments(segments);
    let ghost ov = seg_views(ordered@);
    let mut any = false;
    let mut texts: Vec<Vec<char>> = Vec::new();
    for i in 0..ordered.len()
        invariant
            ov == seg_views(ordered@),
            views(texts@) == cleaned_texts(ov.take(i as int)),
            any == has_cleaned(ov.take(i as int)),
    {
        let ghost pre = ov.take(i as int);
        let ghost cur = ov.take(i + 1);
        assert(cur.drop_last() =~= pre);
        assert(cur.last() == ordered@[i as int]@);
        let seg = &ordered[i];
        let raw = chars_of(seg.raw_text.as_str());
        let mut used = false;
        let ghost before = texts@;
        match &seg.cleaned_text {
            Some(c) => {
                let cc = chars_of(c.as_str());
                if has_text_chars(cc.as_slice()) {
                    any = true;
                    texts.push(cc);
                    used = true;
                    assert(has_cleaned(cur)) by {
                        assert(cur[i as int] == ordered@[i as int]@);
                    }
                }
            },
            None => {},
        }
        if !used && has_text_chars(raw.as_slice()) {
            texts.push(raw);
        }
        assert(views(texts@) =~= cleaned_texts(cur));
        assert(any == has_cleaned(cur)) by {
            if has_cleaned(cur) && !has_cleaned(pre) {
                let k = choose|k: int|
                    0 <= k < cur.len() && (#[trigger] cur[k]).cleaned_text.is_some() && has_text(
                        cur[k].cleaned_text->0,
                    );
                if k < i {
                    assert(pre[k] == cur[k]);
                }
            }
            if has_cleaned(pre) {
                let k = choose|k: int|
                    0 <= k < pre.len() && (#[trigger] pre[k]).cleaned_text.is_some() && has_text(
                        pre[k].cleaned_text->0,
                    );
                assert(cur[k] == pre[k]);
            }
        }
    }
    assert(ov.take(ordered@.len() as int) =~= ov);
    if !any {
        return None;
    }
    let r = merge_char_texts(&texts);
    Some(string_of(r.as_slice()))
}

/// A recording session: its id and its segments in time order.
#[derive(Debug, Clone, PartialEq, Eq)]
pub struct RecordingSession {
    pub id: String,
    pub segments: Vec<TranscriptSegment>,
}

/// `i` is the first position in `s` holding a segment with this id.
pub open spec fn first_with_id(s: Seq<SegmentView>, id: u64, i: int) -> bool {
    &&& 0 <= i < s.len()
    &&& s[i].id == id
    &&& forall|k: int| 0 <= k < i ==> s[k].id != id
}

/// `s` with `seg` replacing the first segment of the same id, or appended.
pub open spec fn upserted(s: Seq<SegmentView>, seg: SegmentView) -> Seq<SegmentView> {
    if exists|i: int| first_with_id(s, seg.id, i) {
        s.update(choose|i: int| first_with_id(s, seg.id, i), seg)
    } else {
        s.push(seg)
    }
}

/// No two segments share an id.
pub open spec fn ids_distinct(s: Seq<SegmentView>) -> bool {
    forall|i: int, j: int| 0 <= i < j < s.len() ==> #[trigger] s[i].id != #[trigger] s[j].id
}

proof fn lemma_insert_by_key_ids(t: Seq<SegmentView>, x: SegmentView)
    requires
        ids_distinct(t),
        forall|k: int| 0 <= k < t.len() ==> #[trigger] t[k].id != x.id,
    ensures
        ids_distinct(insert_by_key(t, x)),
        insert_by_key(t, x).len() == t.len() + 1,
        forall|k: int|
            0 <= k < insert_by_key(t, x).len() ==> #[trigger] insert_by_key(t, x)[k] == x
                || t.contains(insert_by_key(t, x)[k]),
    decreases t.len(),
{
    let r = insert_by_key(t, x);
    if t.len() == 0 || key_le(t.last(), x) {
        assert forall|k: int| 0 <= k < r.len() implies #[trigger] r[k] == x || t.contains(r[k]) by {
            if k < t.len() {
                assert(r[k] == t[k]);
            }
        }
    } else {
        let d = t.drop_last();
        assert forall|k: int| 0 <= k < d.len() implies #[trigger] d[k].id != x.id by {
            assert(d[k] == t[k]);
        }
        assert forall|i: int, j: int| 0 <= i < j < d.len() implies #[trigger] d[i].id
            != #[trigger] d[j].id by {
            assert(d[i] == t[i] && d[j] == t[j]);
        }
        lemma_insert_by_key_ids(d, x);
        let q = insert_by_key(d, x);
        assert(r == q.push(t.last()));
        assert forall|k: int| 0 <= k < q.len() implies #[trigger] q[k].id != t.last().id by {
            if q[k] != x {
                let m = choose|m: int| 0 <= m < d.len() && d[m] == q[k];
                assert(d[m] == t[m]);
                assert(t[m].id != t[t.len() - 1].id);
            }
        }
        assert forall|i: int, j: int| 0 <= i < j < r.len() implies #[trigger] r[i].id
            != #[trigger] r[j].id by {
            if j == r.len() - 1 {
                assert(r[i] == q[i]);
            } else {
                assert(r[i] == q[i] && r[j] == q[j]);
            }
        }
        assert forall|k: int| 0 <= k < r.len() implies #[trigger] r[k] == x || t.contains(r[k]) by {
            if k < q.len() {
                assert(r[k] == q[k]);
                if q[k] != x {
                    let m = choose|m: int| 0 <= m < d.len() && d[m] == q[k];
                    assert(t[m] == d[m]);
                }
            } else {
                assert(r[k] == t[t.len() - 1]);
            }
        }
    }
}

proof fn lemma_sort_by_key_ids(s: Seq<SegmentView>)
    requires
        ids_distinct(s),
    ensures
        ids_distinct(sort_by_key(s)),
        sort_by_key(s).len() == s.len(),
        forall|k: int| 0 <= k < sort_by_key(s).len() ==> s.contains(#[trigger] sort_by_key(s)[k]),
    decreases s.len(),
{
    if s.len() > 0 {
        let d = s.drop_last();
        assert forall|i: int, j: int| 0 <= i < j < d.len() implies #[trigger] d[i].id
            != #[trigger] d[j].id by {
            assert(d[i] == s[i] && d[j] == s[j]);
        }
        lemma_sort_by_key_ids(d);
        let sd = sort_by_key(d);
        assert forall|k: int| 0 <= k < sd.len() implies #[trigger] sd[k].id != s.last().id by {
            let m = choose|m: int| 0 <= m < d.len() && d[m] == sd[k];
            assert(d[m] == s[m]);
        }
        lemma_insert_by_key_ids(sd, s.last());
        let r = sort_by_key(s);
        assert forall|k: int| 0 <= k < r.len() implies s.contains(#[trigger] r[k]) by {
            if r[k] == s.last() {
                assert(s[s.len() - 1] == r[k]);
            } else {
                let n = choose|n: int| 0 <= n < sd.len() && sd[n] == r[k];
                let m = choose|m: int| 0 <= m < d.len() && d[m] == sd[n];
                assert(s[m] == d[m]);
            }
        }
    }
}

/// The key segments are ordered by.
pub open spec fn seg_key(x: SegmentView) -> (u64, u64, u64) {
    (x.start_ms, x.end_ms, x.id)
}

/// No two segments share a key `(start_ms, end_ms, id)`.
pub open spec fn keys_distinct(s: Seq<SegmentView>) -> bool {
    forall|i: int, j: int| 0 <= i < j < s.len() ==> seg_key(#[trigger] s[i]) != seg_key(#[trigger] s[j])
}

proof fn lemma_insert_by_key_keys(t: Seq<SegmentView>, x: SegmentView)
    requires
        keys_distinct(t),
        forall|k: int| 0 <= k < t.len() ==> #[trigger] seg_key(t[k]) != seg_key(x),
    ensures
        keys_distinct(insert_by_key(t, x)),
        insert_by_key(t, x).len() == t.len() + 1,
        forall|k: int|
            0 <= k < insert_by_key(t, x).len() ==> #[trigger] insert_by_key(t, x)[k] == x
                || t.contains(insert_by_key(t, x)[k]),
    decreases t.len(),
{
    let r = insert_by_key(t, x);
    if t.len() == 0 || key_le(t.last(), x) {
        assert forall|k: int| 0 <= k < r.len() implies #[trigger] r[k] == x || t.contains(r[k]) by {
            if k < t.len() {
                assert(r[k] == t[k]);
            }
        }
    } else {
        let d = t.drop_last();
        assert forall|k: int| 0 <= k < d.len() implies #[trigger] seg_key(d[k]) != seg_key(x) by {
            assert(d[k] == t[k]);
        }
        assert forall|i: int, j: int| 0 <= i < j < d.len() implies #[trigger] seg_key(d[i])
            != #[trigger] seg_key(d[j]) by {
            assert(d[i] == t[i] && d[j] == t[j]);
        }
        lemma_insert_by_key_keys(d, x);
        let q = insert_by_key(d, x);
        assert(r == q.push(t.last()));
        assert forall|k: int| 0 <= k < q.len() implies #[trigger] seg_key(q[k]) != seg_key(t.last()) by {
            if q[k] != x {
                let m = choose|m: int| 0 <= m < d.len() && d[m] == q[k];
                assert(d[m] == t[m]);
                assert(seg_key(t[m]) != seg_key(t[t.len() - 1]));
            }
        }
        assert forall|i: int, j: int| 0 <= i < j < r.len() implies #[trigger] seg_key(r[i])
            != #[trigger] seg_key(r[j]) by {
            if j == r.len() - 1 {
                assert(r[i] == q[i]);
            } else {
                assert(r[i] == q[i] && r[j] == q[j]);
            }
        }
        assert forall|k: int| 0 <= k < r.len() implies #[trigger] r[k] == x || t.contains(r[k]) by {
            if k < q.len() {
                assert(r[k] == q[k]);
                if q[k] != x {
                    let m = choose|m: int| 0 <= m < d.len() && d[m] == q[k];
                    assert(t[m] == d[m]);
                }
            } else {
                assert(r[k] == t[t.len() - 1]);
            }
        }
    }
}

proof fn lemma_sort_by_key_keys(s: Seq<SegmentView>)
    requires
        keys_distinct(s),
    ensures
        keys_distinct(sort_by_key(s)),
        sort_by_key(s).len() == s.len(),
        forall|k: int| 0 <= k < sort_by_key(s).len() ==> s.contains(#[trigger] sort_by_key(s)[k]),
    decreases s.len(),
{
    if s.len() > 0 {
        let d = s.drop_last();
        assert forall|i: int, j: int| 0 <= i < j < d.len() implies #[trigger] seg_key(d[i])
            != #[trigger] seg_key(d[j]) by {
            assert(d[i] == s[i] && d[j] == s[j]);
        }
        lemma_sort_by_key_keys(d);
        let sd = sort_by_key(d);
        assert forall|k: int| 0 <= k < sd.len() implies #[trigger] seg_key(sd[k]) != seg_key(s.last()) by {
            let m = choose|m: int| 0 <= m < d.len() && d[m] == sd[k];
            assert(d[m] == s[m]);
        }
        lemma_insert_by_key_keys(sd, s.last());
        let r = sort_by_key(s);
        assert forall|k: int| 0 <= k < r.len() implies s.contains(#[trigger] r[k]) by {
            if r[k] == s.last() {
                assert(s[s.len() - 1] == r[k]);
            } else {
                let n = choose|n: int| 0 <= n < sd.len() && sd[n] == r[k];
                let m = choose|m: int| 0 <= m < d.len() && d[m] == sd[n];
                assert(s[m] == d[m]);
            }
        }
    }
}

/// An upsert into segments with distinct ids keeps the ids distinct.
pub proof fn lemma_upsert_keeps_ids_distinct(s: Seq<SegmentView>, seg: SegmentView)
    requires
        ids_distinct(s),
    ensures
        ids_distinct(sort_by_key(upserted(s, seg))),
{
    let u = upserted(s, seg);
    if exists|i: int| first_with_id(s, seg.id, i) {
        let p = choose|i: int| first_with_id(s, seg.id, i);
        assert forall|i: int, j: int| 0 <= i < j < u.len() implies #[trigger] u[i].id
            != #[trigger] u[j].id by {
            if i == p {
                assert(s[j].id != s[p].id);
            } else if j == p {
                assert(s[i].id != s[p].id);
            }
        }
    } else {
        assert forall|i: int, j: int| 0 <= i < j < u.len() implies #[trigger] u[i].id
            != #[trigger] u[j].id by {
            if j == s.len() {
                assert(!first_with_id(s, seg.id, i));
            }
        }
    }
    lemma_sort_by_key_ids(u);
}

proof fn lemma_sorted_unique(a: Seq<SegmentView>, b: Seq<SegmentView>)
    requires
        sorted_by_key(a),
        sorted_by_key(b),
        keys_distinct(a),
        keys_distinct(b),
        a.len() == b.len(),
        forall|k: int| 0 <= k < a.len() ==> b.contains(#[trigger] a[k]),
        forall|k: int| 0 <= k < b.len() ==> a.contains(#[trigger] b[k]),
    ensures
        a == b,
    decreases a.len(),
{
    if a.len() > 0 {
        let n = a.len() - 1;
        let x = a[n];
        let y = b[n];
        assert(b.contains(x));
        assert(a.contains(y));
        let i = choose|i: int| 0 <= i < b.len() && b[i] == x;
        let j = choose|j: int| 0 <= j < a.len() && a[j] == y;
        if i < n {
            assert(key_le(b[i], b[n]));
        }
        if j < n {
            assert(key_le(a[j], a[n]));
        }
        assert(key_le(x, y) && key_le(y, x));
        assert(seg_key(x) == seg_key(y));
        if j != n {
            assert(seg_key(a[j]) != seg_key(a[n]));
        }
        assert(x == y);
        let a2 = a.drop_last();
        let b2 = b.drop_last();
        assert forall|k: int| 0 <= k < a2.len() implies b2.contains(#[trigger] a2[k]) by {
            assert(a2[k] == a[k]);
            let m = choose|m: int| 0 <= m < b.len() && b[m] == a[k];
            assert(seg_key(a[k]) != seg_key(a[n]));
            assert(m != n);
            assert(b2[m] == b[m]);
        }
        assert forall|k: int| 0 <= k < b2.len() implies a2.contains(#[trigger] b2[k]) by {
            assert(b2[k] == b[k]);
            let m = choose|m: int| 0 <= m < a.len() && a[m] == b[k];
            assert(seg_key(b[k]) != seg_key(b[n]));
            assert(m != n);
            assert(a2[m] == a[m]);
        }
        assert forall|p: int, q: int| 0 <= p < q < a2.len() implies key_le(#[trigger] a2[p], #[trigger] a2[q]) by {
            assert(a2[p] == a[p] && a2[q] == a[q]);
        }
        assert forall|p: int, q: int| 0 <= p < q < b2.len() implies key_le(#[trigger] b2[p], #[trigger] b2[q]) by {
            assert(b2[p] == b[p] && b2[q] == b[q]);
        }
        assert forall|p: int, q: int| 0 <= p < q < a2.len() implies seg_key(#[trigger] a2[p]) != seg_key(#[trigger] a2[q]) by {
            assert(a2[p] == a[p] && a2[q] == a[q]);
        }
        assert forall|p: int, q: int| 0 <= p < q < b2.len() implies seg_key(#[trigger] b2[p]) != seg_key(#[trigger] b2[q]) by {
            assert(b2[p] == b[p] && b2[q] == b[q]);
        }
        lemma_sorted_unique(a2, b2);
        assert(a =~= a2.push(x));
        assert(b =~= b2.push(y));
    }
}

/// Segments with distinct keys `(start_ms, end_ms, id)` are put in the same
/// order whatever order they arrive in, so the assembled raw and cleaned texts do not depend on it.
pub proof fn lemma_order_of_arrival_does_not_matter(s: Seq<SegmentView>, p: Seq<SegmentView>)
    requires
        keys_distinct(s),
        keys_distinct(p),
        p.len() == s.len(),
        forall|k: int| 0 <= k < p.len() ==> s.contains(#[trigger] p[k]),
        forall|k: int| 0 <= k < s.len() ==> p.contains(#[trigger] s[k]),
    ensures
        sort_by_key(p) == sort_by_key(s),
        merged_text(raw_texts(sort_by_key(p))) == merged_text(raw_texts(sort_by_key(s))),
        merged_text(cleaned_texts(sort_by_key(p))) == merged_text(cleaned_texts(sort_by_key(s))),
{
    lemma_sort_by_key_sorted(s);
    lemma_sort_by_key_sorted(p);
    lemma_sort_by_key_keys(s);
    lemma_sort_by_key_keys(p);
    let a = sort_by_key(s);
    let b = sort_by_key(p);
    assert forall|k: int| 0 <= k < a.len() implies b.contains(#[trigger] a[k]) by {
        let m = choose|m: int| 0 <= m < s.len() && s[m] == a[k];
        let q = choose|q: int| 0 <= q < p.len() && p[q] == s[m];
        assert(b.contains(p[q]));
    }
    assert forall|k: int| 0 <= k < b.len() implies a.contains(#[trigger] b[k]) by {
        let m = choose|m: int| 0 <= m < p.len() && p[m] == b[k];
        let q = choose|q: int| 0 <= q < s.len() && s[q] == p[m];
        assert(a.contains(s[q]));
    }
    lemma_sorted_unique(a, b);
}

impl RecordingSession {
    pub fn new(id: &str) -> (s: Self)
        ensures
            s.id@ == id@,
            s.segments@.len() == 0,
    {
        RecordingSession { id: id.to_owned(), segments: Vec::new() }
    }

    /// Replaces the segment with the same id (or adds it), then re-sorts
    /// by `(start_ms, end_ms, id)`.
    pub fn upsert_segment(&mut self, segment: TranscriptSegment)
        ensures
            final(self).id == old(self).id,
            seg_views(final(self).segments@) == sort_by_key(
                upserted(seg_views(old(self).segments@), segment@),
            ),
    {
        let ghost old_segments = seg_views(self.segments@);
        let mut i: usize = 0;
        let n = self.segments.len();
        while i < n && self.segments[i].id != segment.id
            invariant
                n == self.segments@.len(),
                seg_views(self.segments@) == old_segments,
                i <= n,
                forall|k: int| 0 <= k < i ==> self.segments@[k].id != segment.id,
            decreases n - i,
        {
            i = i + 1;
        }
        if i < n {
            assert(first_with_id(old_segments, segment.id, i as int));
            assert forall|j: int| first_with_id(old_segments, segment.id, j) implies j
                == i by {
                if j < i {
                } else if j > i {
                    assert(old_segments[i as int].id == segment.id);
                }
            }
            let ghost sv = segment@;
            let ghost c = choose|j: int| first_with_id(old_segments, segment.id, j);
            assert(first_with_id(old_segments, segment.id, c));
            assert(c == i);
            self.segments.set(i, segment);
            assert(seg_views(self.segments@) =~= old_segments.update(i as int, sv));
            assert(first_with_id(old_segments, sv.id, i as int));
            assert(seg_views(self.segments@) == upserted(old_segments, sv));
        } else {
            assert(!exists|j: int| first_with_id(old_segments, segment.id, j));
            let ghost sv = segment@;
            self.segments.push(segment);
            assert(seg_views(self.segments@) =~= old_segments.push(sv));
            assert(seg_views(self.segments@) == upserted(old_segments, sv));
        }
        let sorted = sorted_segments(self.segments.as_slice());
        self.segments = sorted;
    }

    pub fn final_raw_text(&self) -> (r: String)
        ensures
            r@ == merged_text(raw_texts(sort_by_key(seg_views(self.segments@)))),
    {
        assemble_raw_text(self.segments.as_slice())
    }

    pub fn final_cleaned_text(&self) -> (r: Option<String>)
        ensures
            r.is_some() == has_cleaned(sort_by_key(seg_views(self.segments@))),
            r.is_some() ==> r->0@ == merged_text(cleaned_texts(sort_by_key(seg_views(self.segments@)))),
    {
        assemble_cleaned_text(self.segments.as_slice())
    }
}


// ---------------------------------------------------------------------------
// The finished start of a session that fell back
// ---------------------------------------------------------------------------

/// The finished start of a session whose worker fell back: its transcript,
/// and where the audio still to transcribe begins.
#[derive(Debug, Clone, PartialEq, Eq)]
pub struct SalvagedPrefix {
    pub raw_text: String,
    pub resume_from_ms: u64,
}

/// A segment whose transcription finished.
pub open spec fn transcribed(x: SegmentView) -> bool {
    x.status == TranscriptSegmentStatus::RawReady || x.status == TranscriptSegmentStatus::Cleaning
        || x.status == TranscriptSegmentStatus::Cleaned
}

/// Segment `i` of the time-ordered `s` carries the run on: it finished, and
/// it starts at the recording's start (the first) or no later than the one
/// before it ended.
pub open spec fn continues_run(s: Seq<SegmentView>, i: int) -> bool {
    &&& transcribed(s[i])
    &&& if i == 0 {
        s[i].start_ms == 0
    } else {
        s[i].start_ms <= s[i - 1].end_ms
    }
}

/// How many segments from `i` on carry the run on.
pub open spec fn run_len_from(s: Seq<SegmentView>, i: int) -> nat
    decreases s.len() - i,
{
    if i < 0 || i >= s.len() || !continues_run(s, i) {
        0
    } else {
        1 + run_len_from(s, i + 1)
    }
}

fn continues_at(ordered: &Vec<TranscriptSegment>, k: usize) -> (b: bool)
    requires
        k < ordered@.len(),
    ensures
        b == continues_run(seg_views(ordered@), k as int),
{
    let x = &ordered[k];
    let done = x.status == TranscriptSegmentStatus::RawReady || x.status
        == TranscriptSegmentStatus::Cleaning || x.status == TranscriptSegmentStatus::Cleaned;
    if k == 0 {
        done && x.start_ms == 0
    } else {
        done && x.start_ms <= ordered[k - 1].end_ms
    }
}

/// The finished start of `segments` in time order: the longest run of
/// finished segments that begins at the recording's start with no gap
/// between one segment's end and the next one's start. Its transcript is the
/// run's raw texts merged, and the audio left begins where the run ends.
/// `None` when no such run exists.
pub fn salvage_completed_prefix(segments: &[TranscriptSegment]) -> (r: Option<SalvagedPrefix>)
    ensures
        ({
            let s = sort_by_key(seg_views(segments@));
            let k = run_len_from(s, 0) as int;
            &&& (r is None <==> k == 0)
            &&& r is Some ==> r->0.raw_text@ == merged_text(raw_texts(s.take(k)))
            &&& r is Some ==> r->0.resume_from_ms == s[k - 1].end_ms
        }),
{
    let ordered = sorted_segments(segments);
    let ghost s = seg_views(ordered@);
    let mut k: usize = 0;
    while k < ordered.len() && continues_at(&ordered, k)
        invariant
            s == seg_views(ordered@),
            k <= ordered@.len(),
            run_len_from(s, 0) == k + run_len_from(s, k as int),
        decreases ordered@.len() - k,
    {
        k = k + 1;
    }
    assert(run_len_from(s, k as int) == 0);
    if k == 0 {
        return None;
    }
    let mut texts: Vec<Vec<char>> = Vec::new();
    for i in 0..k
        invariant
            s == seg_views(ordered@),
            k <= ordered@.len(),
            views(texts@) == raw_texts(s).take(i as int),
    {
        let ghost before = texts@;
        texts.push(chars_of(ordered[i].raw_text.as_str()));
        assert(views(texts@) =~= views(before).push(ordered@[i as int].raw_text@));
        assert(raw_texts(s).take(i + 1) =~= raw_texts(s).take(i as int).push(
            ordered@[i as int].raw_text@,
        ));
    }
    assert(raw_texts(s).take(k as int) =~= raw_texts(s.take(k as int)));
    let merged = merge_char_texts(&texts);
    assert(ordered@[k - 1]@ == s[k - 1]);
    Some(SalvagedPrefix { raw_text: string_of(merged.as_slice()), resume_from_ms: ordered[k - 1].end_ms })
}

} // verus!
