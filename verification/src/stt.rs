//! What is read from whisper.cpp's output: the transcript text without
//! timestamps and non-speech markers, and the progress it reports.
use vstd::prelude::*;
use crate::text::{is_white, trim_end, trim_start};
use crate::text::{
    append_str, chars_eq, chars_of, find_first, find_sub, first_index_of, first_match, join, lines_of,
    parse_unsigned, slice_to_vec, spec_parse_unsigned, split_lines, starts_with, string_of, trim,
    trimmed, views,
};
use crate::text::{lemma_lex_total, lemma_lex_transitive, lex_less, lex_lt};
use crate::paths::{extension_of, path_extension};
use crate::recorder::string_views;
use crate::segments::opt_view;
use crate::transcript::{is_marker, non_speech_marker};

verus! {

broadcast use vstd::string::group_string_axioms;

/// The whisper program and model a transcription runs with.
#[derive(Debug, Clone)]
pub struct WhisperSetup {
    pub program: String,
    pub model: String,
}

pub open spec fn arrow_at(s: Seq<char>, i: int) -> bool {
    0 <= i && i + 2 < s.len() && s[i] == '-' && s[i + 1] == '-' && s[i + 2] == '>'
}

/// Whether `s` contains `-->`.
pub open spec fn has_arrow(s: Seq<char>) -> bool {
    exists|i: int| #[trigger] arrow_at(s, i)
}

pub fn contains_arrow(s: &[char]) -> (b: bool)
    ensures
        b == has_arrow(s@),
{
    let n = s.len();
    let mut i: usize = 0;
    while i < n && n - i > 2
        invariant
            n == s@.len(),
            i <= n,
            forall|k: int| 0 <= k < i ==> !#[trigger] arrow_at(s@, k),
        decreases n - i,
    {
        if s[i] == '-' && s[i + 1] == '-' && s[i + 2] == '>' {
            assert(arrow_at(s@, i as int));
            return true;
        }
        i = i + 1;
    }
    assert forall|k: int| !#[trigger] arrow_at(s@, k) by {
        if 0 <= k && k < i {
        }
    }
    false
}

/// A line without a leading `[… --> …]` timestamp, trimmed again after it.
pub open spec fn strip_timestamp(t: Seq<char>) -> Seq<char> {
    let end = first_index_of(t, ']');
    if t.len() > 0 && t[0] == '[' && end < t.len() && has_arrow(t.take(end)) {
        trimmed(t.skip(end + 1))
    } else {
        t
    }
}

pub fn strip_leading_timestamp(t: &[char]) -> (r: Vec<char>)
    ensures
        r@ == strip_timestamp(t@),
{
    let n = t.len();
    let end = find_first(t, ']');
    if n > 0 && t[0] == '[' && end < n {
        let head = slice_to_vec(t, 0, end);
        assert(head@ =~= t@.take(end as int));
        if contains_arrow(head.as_slice()) {
            let rest = slice_to_vec(t, end + 1, n);
            assert(rest@ =~= t@.skip(end + 1));
            return trim(rest.as_slice());
        }
    }
    slice_to_vec(t, 0, n)
}

/// What one line of whisper's text output contributes.
pub open spec fn transcript_line(line: Seq<char>) -> Option<Seq<char>> {
    let t = trimmed(line);
    if t.len() == 0 {
        None
    } else {
        let t = strip_timestamp(t);
        if t.len() == 0 || is_marker(t) {
            None
        } else {
            Some(t)
        }
    }
}

pub open spec fn transcript_parts(lines: Seq<Seq<char>>) -> Seq<Seq<char>>
    decreases lines.len(),
{
    if lines.len() == 0 {
        Seq::empty()
    } else {
        let rest = transcript_parts(lines.drop_last());
        match transcript_line(lines.last()) {
            Some(t) => rest.push(t),
            None => rest,
        }
    }
}

fn transcript_line_of(line: &[char]) -> (r: Option<Vec<char>>)
    ensures
        match r {
            Some(t) => transcript_line(line@) == Some(t@),
            None => transcript_line(line@) is None,
        },
{
    let t = trim(line);
    if t.len() == 0 {
        return None;
    }
    let t = strip_leading_timestamp(t.as_slice());
    if t.len() == 0 || non_speech_marker(t.as_slice()) {
        None
    } else {
        Some(t)
    }
}

/// A line of plain text: not blank, and not beginning (once trimmed) with
/// `[` or `(`, so it carries no timestamp and is no marker.
pub open spec fn plain_line(line: Seq<char>) -> bool {
    trimmed(line).len() > 0 && trimmed(line)[0] != '[' && trimmed(line)[0] != '('
}

/// A plain line contributes its text, trimmed.
pub proof fn lemma_plain_line_is_kept(line: Seq<char>)
    requires
        plain_line(line),
    ensures
        transcript_line(line) == Some(trimmed(line)),
{
}

/// A blank line contributes nothing.
pub proof fn lemma_blank_line_is_dropped(line: Seq<char>)
    requires
        trimmed(line).len() == 0,
    ensures
        transcript_line(line) is None,
{
}

proof fn lemma_first_index_nonneg(s: Seq<char>, c: char)
    ensures
        0 <= first_index_of(s, c) <= s.len(),
    decreases s.len(),
{
    if s.len() > 0 && s[0] != c {
        lemma_first_index_nonneg(s.drop_first(), c);
    }
}

/// A non-speech marker line, such as `(laughs)` or `[MUSIC]` (one holding
/// no `-->`), contributes nothing.
pub proof fn lemma_marker_line_is_dropped(line: Seq<char>)
    requires
        trimmed(line).len() > 0,
        (trimmed(line)[0] == '(' && trimmed(line).last() == ')') || (trimmed(line)[0] == '['
            && trimmed(line).last() == ']' && !has_arrow(trimmed(line))),
    ensures
        transcript_line(line) is None,
{
    let t = trimmed(line);
    if t[0] == '[' {
        let end = first_index_of(t, ']');
        lemma_first_index_nonneg(t, ']');
        if end < t.len() && has_arrow(t.take(end)) {
            let i = choose|i: int| #[trigger] arrow_at(t.take(end), i);
            let h = t.take(end);
            assert(arrow_at(h, i));
            assert(h[i] == t[i] && h[i + 1] == t[i + 1] && h[i + 2] == t[i + 2]);
            assert(arrow_at(t, i));
        }
    }
}

/// A line `[stamp] text` whose stamp holds `-->` contributes the text after
/// the stamp, trimmed, when that text is plain.
pub proof fn lemma_timestamp_is_dropped(line: Seq<char>, stamp: Seq<char>, text: Seq<char>)
    requires
        trimmed(line) == seq!['['] + stamp + seq![']'] + text,
        forall|k: int| 0 <= k < stamp.len() ==> stamp[k] != ']',
        has_arrow(stamp),
        plain_line(text),
    ensures
        transcript_line(line) == Some(trimmed(text)),
{
    let t = trimmed(line);
    let end: int = (stamp.len() + 1) as int;
    assert forall|k: int| 0 <= k < end implies #[trigger] t[k] != ']' by {
        if k > 0 {
            assert(t[k] == stamp[k - 1]);
        }
    }
    assert(t[end] == ']');
    crate::text::lemma_first_index(t, ']', end);
    let i = choose|i: int| #[trigger] arrow_at(stamp, i);
    let head = t.take(end);
    assert(head[i + 1] == stamp[i] && head[i + 2] == stamp[i + 1] && head[i + 3] == stamp[i + 2]);
    assert(arrow_at(head, i + 1));
    assert(t.skip(end + 1) =~= text);
}

/// Text made of plain and blank lines is kept whole: the transcript's parts
/// are its non-blank lines, trimmed, in order.
pub proof fn lemma_plain_lines_are_kept(lines: Seq<Seq<char>>)
    requires
        forall|i: int|
            0 <= i < lines.len() ==> trimmed(#[trigger] lines[i]).len() == 0 || plain_line(
                lines[i],
            ),
    ensures
        transcript_parts(lines) == lines.filter_map(
            |l: Seq<char>|
                if trimmed(l).len() > 0 {
                    Some(trimmed(l))
                } else {
                    None
                },
        ),
    decreases lines.len(),
{
    if lines.len() > 0 {
        let rest = lines.drop_last();
        assert forall|i: int|
            0 <= i < rest.len() implies trimmed(#[trigger] rest[i]).len() == 0 || plain_line(
            rest[i],
        ) by {
            assert(rest[i] == lines[i]);
        }
        lemma_plain_lines_are_kept(rest);
        let l = lines.last();
        assert(l == lines[lines.len() - 1]);
        if trimmed(l).len() > 0 {
            lemma_plain_line_is_kept(l);
            let f = |l: Seq<char>|
                if trimmed(l).len() > 0 {
                    Some(trimmed(l))
                } else {
                    None
                };
            assert(transcript_parts(rest).push(trimmed(l)) =~= rest.filter_map(f) + seq![
                trimmed(l),
            ]);
        }
    }
}

/// The transcript of whisper's text output: the parts its lines contribute,
/// joined by single spaces.
pub open spec fn spec_clean_transcript(raw: Seq<char>) -> Seq<char> {
    trimmed(join(transcript_parts(split_lines(raw)), " "@))
}

proof fn lemma_trim_start_first(s: Seq<char>)
    ensures
        trim_start(s).len() > 0 ==> !is_white(trim_start(s)[0]),
    decreases s.len(),
{
    if s.len() > 0 && is_white(s[0]) {
        lemma_trim_start_first(s.drop_first());
    }
}

proof fn lemma_trim_end_prefix(s: Seq<char>)
    ensures
        trim_end(s).len() <= s.len(),
        trim_end(s) == s.take(trim_end(s).len() as int),
        trim_end(s).len() > 0 ==> !is_white(trim_end(s).last()),
    decreases s.len(),
{
    if s.len() > 0 && is_white(s.last()) {
        lemma_trim_end_prefix(s.drop_last());
        assert(s.drop_last().take(trim_end(s).len() as int) =~= s.take(trim_end(s).len() as int));
    } else {
        assert(s.take(s.len() as int) =~= s);
    }
}

/// A non-blank text, trimmed, begins and ends with a non-space character.
proof fn lemma_trimmed_ends(s: Seq<char>)
    ensures
        trimmed(s).len() > 0 ==> !is_white(trimmed(s)[0]) && !is_white(trimmed(s).last()),
{
    lemma_trim_start_first(s);
    lemma_trim_end_prefix(trim_start(s));
    if trimmed(s).len() > 0 {
        assert(trimmed(s)[0] == trim_start(s)[0]);
    }
}

proof fn lemma_split_lines_append(p: Seq<char>, b: Seq<char>)
    requires
        forall|k: int| 0 <= k < b.len() ==> b[k] != '\n',
    ensures
        split_lines(p + b) == split_lines(p).drop_last().push(split_lines(p).last() + b),
    decreases b.len(),
{
    crate::text::lemma_split_lines_nonempty(p);
    if b.len() == 0 {
        assert(p + b =~= p);
        assert(split_lines(p).last() + b =~= split_lines(p).last());
        assert(split_lines(p).drop_last().push(split_lines(p).last()) =~= split_lines(p));
    } else {
        let b0 = b.drop_last();
        lemma_split_lines_append(p, b0);
        assert((p + b).drop_last() =~= p + b0);
        assert((p + b).last() == b.last());
        crate::text::lemma_split_lines_nonempty(p + b0);
        assert(split_lines(p).last() + b =~= (split_lines(p).last() + b0).push(b.last()));
        assert(split_lines(p + b0).drop_last() =~= split_lines(p).drop_last());
    }
}

/// Two plain lines give their texts, trimmed, joined by one space: a
/// dictation without timestamps is kept whole.
pub proof fn lemma_two_plain_lines(a: Seq<char>, b: Seq<char>)
    requires
        plain_line(a),
        plain_line(b),
        forall|k: int| 0 <= k < a.len() ==> a[k] != '\n',
        forall|k: int| 0 <= k < b.len() ==> b[k] != '\n',
    ensures
        spec_clean_transcript(a + seq!['\n'] + b) == trimmed(a) + seq![' '] + trimmed(b),
{
    reveal_strlit(" ");
    lemma_split_lines_append(Seq::empty(), a);
    assert(Seq::<char>::empty() + a =~= a);
    assert(split_lines(Seq::<char>::empty()) == seq![Seq::<char>::empty()]);
    assert(Seq::<char>::empty() + a =~= a);
    assert(split_lines(a) =~= seq![a]);
    let p = a + seq!['\n'];
    assert(p.drop_last() =~= a);
    assert(split_lines(p) =~= seq![a, Seq::<char>::empty()]);
    lemma_split_lines_append(p, b);
    assert(Seq::<char>::empty() + b =~= b);
    assert(split_lines(p + b) =~= seq![a, b]);
    assert(a + seq!['\n'] + b =~= p + b);
    let lines = seq![a, b];
    lemma_plain_line_is_kept(a);
    lemma_plain_line_is_kept(b);
    assert(lines.drop_last() =~= seq![a]);
    assert(seq![a].drop_last() =~= Seq::<Seq<char>>::empty());
    assert(seq![a].last() == a);
    assert(transcript_parts(Seq::<Seq<char>>::empty()) == Seq::<Seq<char>>::empty());
    assert(Seq::<Seq<char>>::empty().push(trimmed(a)) =~= seq![trimmed(a)]);
    assert(transcript_parts(seq![a]) =~= seq![trimmed(a)]);
    assert(lines.last() == b);
    assert(transcript_parts(lines) =~= seq![trimmed(a), trimmed(b)]);
    let parts = seq![trimmed(a), trimmed(b)];
    assert(parts.drop_last() =~= seq![trimmed(a)]);
    assert(parts.last() == trimmed(b));
    assert(join(seq![trimmed(a)], " "@) == trimmed(a));
    let j = join(parts, " "@);
    assert(j =~= trimmed(a) + seq![' '] + trimmed(b));
    lemma_trimmed_ends(a);
    lemma_trimmed_ends(b);
    assert(j[0] == trimmed(a)[0]);
    assert(j.last() == trimmed(b).last());
}

/// Text made of plain and blank lines is kept whole: its non-blank lines,
/// trimmed, joined by single spaces.
pub proof fn lemma_plain_text_is_kept(raw: Seq<char>)
    requires
        forall|i: int|
            0 <= i < split_lines(raw).len() ==> trimmed(#[trigger] split_lines(raw)[i]).len() == 0
                || plain_line(split_lines(raw)[i]),
    ensures
        spec_clean_transcript(raw) == trimmed(
            join(
                split_lines(raw).filter_map(
                    |l: Seq<char>|
                        if trimmed(l).len() > 0 {
                            Some(trimmed(l))
                        } else {
                            None
                        },
                ),
                seq![' '],
            ),
        ),
{
    reveal_strlit(" ");
    assert(" "@ =~= seq![' ']);
    lemma_plain_lines_are_kept(split_lines(raw));
}

/// Strip whisper timestamps and non-speech markers like [MUSIC], (laughs):
/// the remaining lines joined by spaces.
pub fn clean_transcript(raw: &str) -> (r: String)
    ensures
        r@ == spec_clean_transcript(raw@),
{
    let cs = chars_of(raw);
    let lines = lines_of(cs.as_slice());
    let mut out: Vec<char> = Vec::new();
    let mut count: usize = 0;
    let ghost parts: Seq<Seq<char>> = Seq::empty();
    for i in 0..lines.len()
        invariant
            views(lines@) == split_lines(raw@),
            parts == transcript_parts(views(lines@).take(i as int)),
            out@ == join(parts, " "@),
            count == parts.len(),
            count <= i,
    {
        assert(views(lines@).take(i + 1).drop_last() =~= views(lines@).take(i as int));
        assert(views(lines@).take(i + 1).last() == lines@[i as int]@);
        match transcript_line_of(lines[i].as_slice()) {
            Some(t) => {
                proof {
                    assert(parts.push(t@).drop_last() =~= parts);
                }
                if count > 0 {
                    append_str(&mut out, " ");
                }
                crate::text::append_chars(&mut out, t.as_slice());
                proof {
                    parts = parts.push(t@);
                }
                count = count + 1;
            },
            None => {},
        }
    }
    assert(views(lines@).take(lines@.len() as int) =~= views(lines@));
    let r = trim(out.as_slice());
    string_of(r.as_slice())
}

/// The percentage on a `progress = N%` line of whisper's log, when it is a
/// number from 0 to 100.
pub open spec fn spec_progress(line: Seq<char>) -> Option<nat> {
    let i = first_match(line, "progress ="@);
    if i < 0 {
        None
    } else {
        let rest = line.skip(i + "progress ="@.len());
        let j = first_index_of(rest, '%');
        if j == rest.len() {
            None
        } else {
            match spec_parse_unsigned(trimmed(rest.take(j)), 255) {
                Some(v) => if v <= 100 {
                    Some(v)
                } else {
                    None
                },
                None => None,
            }
        }
    }
}

pub fn parse_progress_percentage(line: &str) -> (r: Option<u8>)
    ensures
        match r {
            Some(v) => spec_progress(line@) == Some(v as nat),
            None => spec_progress(line@) is None,
        },
{
    let cs = chars_of(line);
    let pat = chars_of("progress =");
    let i = match find_sub(cs.as_slice(), pat.as_slice()) {
        Some(i) => i,
        None => return None,
    };
    let rest = slice_to_vec(cs.as_slice(), i + pat.len(), cs.len());
    assert(rest@ =~= line@.skip(i + "progress ="@.len()));
    let j = find_first(rest.as_slice(), '%');
    if j == rest.len() {
        return None;
    }
    let head = slice_to_vec(rest.as_slice(), 0, j);
    assert(head@ =~= rest@.take(j as int));
    let number = trim(head.as_slice());
    match parse_unsigned(number.as_slice(), 255) {
        Some(v) => if v <= 100 {
            Some(v as u8)
        } else {
            None
        },
        None => None,
    }
}

/// The `--language` whisper is given: "auto" when none is configured, as
/// whisper-cli would otherwise assume English and translate.
pub fn whisper_language(language: &str) -> (r: String)
    ensures
        r@ == if language@.len() == 0 {
            "auto"@
        } else {
            language@
        },
{
    if language.is_empty() {
        "auto".to_owned()
    } else {
        language.to_owned()
    }
}

/// A configured path with a leading `~/` replaced by the home directory.
pub fn shellexpand_home(path: &str, home: Option<&str>) -> (r: String)
    ensures
        r@ == match home {
            Some(h) => if "~/"@.is_prefix_of(path@) {
                h@ + "/"@ + path@.skip(2)
            } else {
                path@
            },
            None => path@,
        },
{
    let cs = chars_of(path);
    let tilde = chars_of("~/");
    proof {
        reveal_strlit("~/");
    }
    match home {
        Some(h) => if starts_with(cs.as_slice(), tilde.as_slice()) {
            let mut out = chars_of(h);
            append_str(&mut out, "/");
            let rest = slice_to_vec(cs.as_slice(), 2, cs.len());
            crate::text::append_chars(&mut out, rest.as_slice());
            assert(rest@ =~= path@.skip(2));
            string_of(out.as_slice())
        } else {
            path.to_owned()
        },
        None => path.to_owned(),
    }
}

// ---------------------------------------------------------------------------
// Which model file to use
// ---------------------------------------------------------------------------

/// The model files looked for first, best first.
pub open spec fn preferred_models() -> Seq<Seq<char>> {
    seq![
        "ggml-large-v3-turbo.bin"@,
        "ggml-large-v3-turbo-q5_0.bin"@,
        "ggml-small.bin"@,
        "ggml-small.en.bin"@,
        "ggml-base.bin"@,
        "ggml-base.en.bin"@,
        "ggml-tiny.bin"@,
        "ggml-tiny.en.bin"@,
    ]
}

pub fn preferred_model_names() -> (r: Vec<String>)
    ensures
        string_views(r@) == preferred_models(),
{
    let r = vec![
        "ggml-large-v3-turbo.bin".to_owned(),
        "ggml-large-v3-turbo-q5_0.bin".to_owned(),
        "ggml-small.bin".to_owned(),
        "ggml-small.en.bin".to_owned(),
        "ggml-base.bin".to_owned(),
        "ggml-base.en.bin".to_owned(),
        "ggml-tiny.bin".to_owned(),
        "ggml-tiny.en.bin".to_owned(),
    ];
    assert(string_views(r@) =~= preferred_models());
    r
}

/// The first preferred model, from the `k`-th on, among `names`.
pub open spec fn first_preferred_from(names: Seq<Seq<char>>, k: nat) -> Option<Seq<char>>
    decreases preferred_models().len() - k,
{
    if k >= preferred_models().len() {
        None
    } else if names.contains(preferred_models()[k as int]) {
        Some(preferred_models()[k as int])
    } else {
        first_preferred_from(names, k + 1)
    }
}

/// A file that looks like a whisper.cpp model: `ggml-*.bin`.
pub open spec fn is_model_file(name: Seq<char>) -> bool {
    "ggml-"@.is_prefix_of(name) && path_extension(name) == Some("bin"@)
}

fn contains_name(names: &[String], name: &str) -> (b: bool)
    ensures
        b == string_views(names@).contains(name@),
{
    let nc = chars_of(name);
    let mut i: usize = 0;
    while i < names.len()
        invariant
            i <= names@.len(),
            nc@ == name@,
            forall|j: int| 0 <= j < i ==> string_views(names@)[j] != name@,
        decreases names@.len() - i,
    {
        if chars_eq(chars_of(names[i].as_str()).as_slice(), nc.as_slice()) {
            assert(string_views(names@)[i as int] == name@);
            return true;
        }
        i = i + 1;
    }
    false
}

fn is_model_name(name: &str) -> (b: bool)
    ensures
        b == is_model_file(name@),
{
    let nc = chars_of(name);
    let prefix = chars_of("ggml-");
    if !starts_with(nc.as_slice(), prefix.as_slice()) {
        return false;
    }
    match extension_of(name) {
        Some(ext) => chars_eq(chars_of(ext.as_str()).as_slice(), chars_of("bin").as_slice()),
        None => false,
    }
}

/// The model to use among the regular files named `names` in the model
/// directory: the first preferred one present; else the `ggml-*.bin` file
/// whose name sorts first; none when there is no such file.
pub fn choose_model_file(names: &[String]) -> (r: Option<String>)
    ensures
        first_preferred_from(string_views(names@), 0) is Some ==> opt_view(r) == first_preferred_from(
            string_views(names@),
            0,
        ),
        first_preferred_from(string_views(names@), 0) is None ==> match r {
            Some(m) => {
                &&& string_views(names@).contains(m@)
                &&& is_model_file(m@)
                &&& forall|x: Seq<char>|
                    string_views(names@).contains(x) && is_model_file(x) ==> x == m@ || lex_lt(
                        m@,
                        x,
                    )
            },
            None => forall|x: Seq<char>| string_views(names@).contains(x) ==> !is_model_file(x),
        },
{
    let ghost nv = string_views(names@);
    let prefs = preferred_model_names();
    let mut k: usize = 0;
    while k < prefs.len()
        invariant
            k <= prefs@.len() == preferred_models().len(),
            string_views(prefs@) == preferred_models(),
            nv == string_views(names@),
            first_preferred_from(nv, 0) == first_preferred_from(nv, k as nat),
        decreases prefs@.len() - k,
    {
        assert(string_views(prefs@)[k as int] == prefs@[k as int]@);
        if contains_name(names, prefs[k].as_str()) {
            return Some(prefs[k].clone());
        }
        k = k + 1;
    }
    let mut best: Option<usize> = None;
    let mut i: usize = 0;
    while i < names.len()
        invariant
            i <= names@.len(),
            nv == string_views(names@),
            first_preferred_from(nv, 0) is None,
            best is None ==> forall|j: int| 0 <= j < i ==> !is_model_file(#[trigger] nv[j]),
            best matches Some(b) ==> {
                &&& b < i
                &&& is_model_file(nv[b as int])
                &&& forall|j: int|
                    0 <= j < i && is_model_file(#[trigger] nv[j]) ==> nv[j] == nv[b as int]
                        || lex_lt(nv[b as int], nv[j])
            },
        decreases names@.len() - i,
    {
        assert(nv[i as int] == names@[i as int]@);
        if is_model_name(names[i].as_str()) {
            match best {
                None => {
                    best = Some(i);
                },
                Some(b) => {
                    assert(nv[b as int] == names@[b as int]@);
                    let x = chars_of(names[i].as_str());
                    let y = chars_of(names[b].as_str());
                    if lex_less(x.as_slice(), y.as_slice()) {
                        proof {
                            assert forall|j: int|
                                0 <= j < i + 1 && is_model_file(#[trigger] nv[j]) implies nv[j]
                                == nv[i as int] || lex_lt(nv[i as int], nv[j]) by {
                                if j < i {
                                    if nv[j] != nv[b as int] {
                                        lemma_lex_transitive(nv[i as int], nv[b as int], nv[j]);
                                    }
                                }
                            }
                        }
                        best = Some(i);
                    } else {
                        proof {
                            if nv[i as int] != nv[b as int] {
                                lemma_lex_total(nv[i as int], nv[b as int]);
                            }
                        }
                    }
                },
            }
        }
        i = i + 1;
    }
    match best {
        Some(b) => {
            proof {
                assert(nv[b as int] == names@[b as int]@);
                assert forall|x: Seq<char>|
                    nv.contains(x) && is_model_file(x) implies x == nv[b as int] || lex_lt(
                        nv[b as int],
                        x,
                    ) by {
                    let j = choose|j: int| 0 <= j < nv.len() && nv[j] == x;
                    assert(is_model_file(nv[j]));
                }
            }
            Some(names[b].clone())
        },
        None => {
            proof {
                assert forall|x: Seq<char>| nv.contains(x) implies !is_model_file(x) by {
                    let j = choose|j: int| 0 <= j < nv.len() && nv[j] == x;
                    assert(!is_model_file(nv[j]));
                }
            }
            None
        },
    }
}

} // verus!
