//! Character-level text utilities shared by the transcript, cleanup and
//! configuration logic: whitespace classification, trimming, splitting on
//! whitespace, joining, and the few Unicode case/alphanumeric queries that
//! come from the standard library.
use vstd::prelude::*;

verus! {

broadcast use vstd::string::group_string_axioms;

// ---------------------------------------------------------------------------
// Character classes
// ---------------------------------------------------------------------------

/// Unicode `White_Space`, the class `char::is_whitespace` tests.
pub open spec fn is_white(c: char) -> bool {
    let u = c as u32;
    ||| 0x09 <= u <= 0x0D
    ||| u == 0x20
    ||| u == 0x85
    ||| u == 0xA0
    ||| u == 0x1680
    ||| 0x2000 <= u <= 0x200A
    ||| u == 0x2028
    ||| u == 0x2029
    ||| u == 0x202F
    ||| u == 0x205F
    ||| u == 0x3000
}

pub fn is_whitespace(c: char) -> (b: bool)
    ensures
        b == is_white(c),
{
    let u = c as u32;
    (0x09 <= u && u <= 0x0D) || u == 0x20 || u == 0x85 || u == 0xA0 || u == 0x1680 || (0x2000
        <= u && u <= 0x200A) || u == 0x2028 || u == 0x2029 || u == 0x202F || u == 0x205F || u
        == 0x3000
}

/// ASCII upper-casing of one character (`char::to_ascii_uppercase`).
pub open spec fn ascii_upper(c: char) -> char {
    if 'a' <= c && c <= 'z' {
        ((c as u32) - 32) as char
    } else {
        c
    }
}

pub fn to_ascii_upper(c: char) -> (r: char)
    ensures
        r == ascii_upper(c),
{
    if 'a' <= c && c <= 'z' {
        let b = (c as u32 - 32) as u8;
        b as char
    } else {
        c
    }
}

/// ASCII lower-casing of one character (`char::to_ascii_lowercase`).
pub open spec fn ascii_lower(c: char) -> char {
    if 'A' <= c && c <= 'Z' {
        ((c as u32) + 32) as char
    } else {
        c
    }
}

pub fn to_ascii_lower(c: char) -> (r: char)
    ensures
        r == ascii_lower(c),
{
    if 'A' <= c && c <= 'Z' {
        let b = (c as u32 + 32) as u8;
        b as char
    } else {
        c
    }
}

pub open spec fn ascii_lowercase_seq(s: Seq<char>) -> Seq<char> {
    s.map_values(|c: char| ascii_lower(c))
}

pub fn ascii_lowercase(s: &[char]) -> (r: Vec<char>)
    ensures
        r@ == ascii_lowercase_seq(s@),
{
    let mut r: Vec<char> = Vec::new();
    for i in 0..s.len()
        invariant
            r@ == ascii_lowercase_seq(s@.take(i as int)),
    {
        r.push(to_ascii_lower(s[i]));
        assert(ascii_lowercase_seq(s@.take(i + 1)) =~= ascii_lowercase_seq(s@.take(i as int)).push(
            ascii_lower(s@[i as int]),
        ));
    }
    assert(s@.take(s@.len() as int) =~= s@);
    r
}

pub open spec fn ascii_upper_seq(s: Seq<char>) -> Seq<char> {
    s.map_values(|c: char| ascii_upper(c))
}

pub fn ascii_uppercase(s: &[char]) -> (r: Vec<char>)
    ensures
        r@ == ascii_upper_seq(s@),
{
    let mut r: Vec<char> = Vec::new();
    for i in 0..s.len()
        invariant
            r@ == ascii_upper_seq(s@.take(i as int)),
    {
        r.push(to_ascii_upper(s[i]));
        assert(ascii_upper_seq(s@.take(i + 1)) =~= ascii_upper_seq(s@.take(i as int)).push(
            ascii_upper(s@[i as int]),
        ));
    }
    assert(s@.take(s@.len() as int) =~= s@);
    r
}

/// What `char::is_alphanumeric` answers for `c` (Unicode `Alphabetic` or
/// `Numeric`).
pub uninterp spec fn alphanumeric(c: char) -> bool;

/// `char::is_alphanumeric`. The contract claims only that the answer is the
/// one named by `alphanumeric`, a function of the character alone.
#[verifier::external_body]
pub(crate) fn is_alphanumeric(c: char) -> (b: bool)
    ensures
        b == alphanumeric(c),
{
    c.is_alphanumeric()
}

/// The characters `char::to_lowercase` yields for `c`.
pub uninterp spec fn char_lowercase(c: char) -> Seq<char>;

/// `char::to_lowercase`, collected. The contract claims only that the
/// characters are those named by `char_lowercase`, a function of `c` alone.
#[verifier::external_body]
pub(crate) fn lowercase_char(c: char) -> (out: Vec<char>)
    ensures
        out@ == char_lowercase(c),
{
    c.to_lowercase().collect()
}

/// What `str::to_lowercase` returns for a string with characters `s`
/// (context-sensitive, e.g. for a final Greek sigma).
pub uninterp spec fn str_lowercase(s: Seq<char>) -> Seq<char>;

/// `str::to_lowercase`. The contract claims only that the result is the one
/// named by `str_lowercase`, a function of the characters alone.
#[verifier::external_body]
pub(crate) fn lowercase_str(s: &str) -> (out: String)
    ensures
        out@ == str_lowercase(s@),
{
    s.to_lowercase()
}

/// What `str::to_uppercase` gives for `s`: its Unicode upper case.
pub uninterp spec fn str_uppercase(s: Seq<char>) -> Seq<char>;

/// `str::to_uppercase`. The contract claims only that the result is the one
/// named by `str_uppercase`, a function of the characters alone.
#[verifier::external_body]
pub(crate) fn uppercase_str(s: &str) -> (out: String)
    ensures
        out@ == str_uppercase(s@),
{
    s.to_uppercase()
}

// ---------------------------------------------------------------------------
// Conversions between `str`/`String` and character vectors
// ---------------------------------------------------------------------------

/// `String::push`: appends one character.
#[verifier::external_body]
fn push_char(s: &mut String, c: char)
    ensures
        final(s)@ == old(s)@.push(c),
{
    s.push(c);
}

/// The characters of `s`, in order.
pub fn chars_of(s: &str) -> (out: Vec<char>)
    ensures
        out@ == s@,
{
    let mut out: Vec<char> = Vec::new();
    for c in it: s.chars()
        invariant
            out@ == it.seq().take(it.index() as int),
            it.seq() == s@,
    {
        out.push(c);
    }
    out
}

/// A string made of the characters `cs`.
pub fn string_of(cs: &[char]) -> (s: String)
    ensures
        s@ == cs@,
{
    let mut s = String::new();
    for i in 0..cs.len()
        invariant
            s@ == cs@.take(i as int),
    {
        push_char(&mut s, cs[i]);
        assert(cs@.take(i + 1) =~= cs@.take(i as int).push(cs@[i as int]));
    }
    assert(cs@.take(cs@.len() as int) =~= cs@);
    s
}

pub fn chars_eq(a: &[char], b: &[char]) -> (r: bool)
    ensures
        r == (a@ == b@),
{
    if a.len() != b.len() {
        return false;
    }
    for i in 0..a.len()
        invariant
            a@.len() == b@.len(),
            forall|k: int| 0 <= k < i ==> a@[k] == b@[k],
    {
        if a[i] != b[i] {
            return false;
        }
    }
    assert(a@ =~= b@);
    true
}

/// Whether `s` equals the literal `lit`.
pub fn chars_eq_str(s: &[char], lit: &str) -> (r: bool)
    ensures
        r == (s@ == lit@),
{
    let l = chars_of(lit);
    chars_eq(s, l.as_slice())
}

pub fn starts_with(s: &[char], prefix: &[char]) -> (r: bool)
    ensures
        r == prefix@.is_prefix_of(s@),
{
    if prefix.len() > s.len() {
        return false;
    }
    for i in 0..prefix.len()
        invariant
            prefix@.len() <= s@.len(),
            forall|k: int| 0 <= k < i ==> prefix@[k] == s@[k],
    {
        if prefix[i] != s[i] {
            return false;
        }
    }
    true
}

pub fn ends_with(s: &[char], suffix: &[char]) -> (r: bool)
    ensures
        r == suffix@.is_suffix_of(s@),
{
    if suffix.len() > s.len() {
        return false;
    }
    let n = s.len();
    let off = n - suffix.len();
    let mut i: usize = 0;
    while i < suffix.len()
        invariant
            n == s@.len(),
            suffix@.len() <= s@.len(),
            off + suffix@.len() == s@.len(),
            i <= suffix@.len(),
            forall|k: int| 0 <= k < i ==> suffix@[k] == s@[off + k],
        decreases suffix@.len() - i,
    {
        if suffix[i] != s[off + i] {
            return false;
        }
        i = i + 1;
    }
    true
}

pub fn slice_to_vec(s: &[char], from: usize, to: usize) -> (r: Vec<char>)
    requires
        from <= to <= s@.len(),
    ensures
        r@ == s@.subrange(from as int, to as int),
{
    let mut r: Vec<char> = Vec::new();
    let mut i = from;
    while i < to
        invariant
            from <= i <= to <= s@.len(),
            r@ == s@.subrange(from as int, i as int),
        decreases to - i,
    {
        r.push(s[i]);
        assert(s@.subrange(from as int, i + 1) =~= s@.subrange(from as int, i as int).push(
            s@[i as int],
        ));
        i = i + 1;
    }
    r
}

pub fn append_chars(dst: &mut Vec<char>, src: &[char])
    ensures
        final(dst)@ == old(dst)@ + src@,
{
    let ghost start = dst@;
    for i in 0..src.len()
        invariant
            dst@ == start + src@.take(i as int),
    {
        dst.push(src[i]);
        assert(start + src@.take(i + 1) =~= (start + src@.take(i as int)).push(src@[i as int]));
    }
    assert(src@.take(src@.len() as int) =~= src@);
}

pub fn append_str(dst: &mut Vec<char>, lit: &str)
    ensures
        final(dst)@ == old(dst)@ + lit@,
{
    let l = chars_of(lit);
    append_chars(dst, l.as_slice());
}

// ---------------------------------------------------------------------------
// Trimming (`str::trim`, `str::trim_start`, `str::trim_end`)
// ---------------------------------------------------------------------------

pub open spec fn trim_start(s: Seq<char>) -> Seq<char>
    decreases s.len(),
{
    if s.len() > 0 && is_white(s[0]) {
        trim_start(s.drop_first())
    } else {
        s
    }
}

pub open spec fn trim_end(s: Seq<char>) -> Seq<char>
    decreases s.len(),
{
    if s.len() > 0 && is_white(s.last()) {
        trim_end(s.drop_last())
    } else {
        s
    }
}

/// `s` without leading and trailing whitespace.
pub open spec fn trimmed(s: Seq<char>) -> Seq<char> {
    trim_end(trim_start(s))
}

pub proof fn lemma_trim_start_skip(s: Seq<char>, i: int)
    requires
        0 <= i <= s.len(),
        forall|k: int| 0 <= k < i ==> is_white(#[trigger] s[k]),
        i == s.len() || !is_white(s[i]),
    ensures
        trim_start(s) == s.skip(i),
    decreases i,
{
    if i == 0 {
        assert(s.skip(0) =~= s);
    } else {
        let t = s.drop_first();
        assert forall|k: int| 0 <= k < i - 1 implies is_white(#[trigger] t[k]) by {
            assert(t[k] == s[k + 1]);
        }
        lemma_trim_start_skip(t, i - 1);
        assert(t.skip(i - 1) =~= s.skip(i));
    }
}

pub proof fn lemma_trim_end_take(s: Seq<char>, j: int)
    requires
        0 <= j <= s.len(),
        forall|k: int| j <= k < s.len() ==> is_white(#[trigger] s[k]),
        j == 0 || !is_white(s[j - 1]),
    ensures
        trim_end(s) == s.take(j),
    decreases s.len() - j,
{
    if j == s.len() {
        assert(s.take(j) =~= s);
    } else {
        let t = s.drop_last();
        assert forall|k: int| j <= k < t.len() implies is_white(#[trigger] t[k]) by {
            assert(t[k] == s[k]);
        }
        lemma_trim_end_take(t, j);
        assert(t.take(j) =~= s.take(j));
    }
}

/// Bounds `(i, j)` with `trim(s) == s[i..j]`.
pub fn trim_bounds(s: &[char]) -> (r: (usize, usize))
    ensures
        r.0 <= r.1 <= s@.len(),
        trimmed(s@) == s@.subrange(r.0 as int, r.1 as int),
        trim_start(s@) == s@.skip(r.0 as int),
{
    let n = s.len();
    let mut i: usize = 0;
    while i < n && is_whitespace(s[i])
        invariant
            i <= n == s@.len(),
            forall|k: int| 0 <= k < i ==> is_white(#[trigger] s@[k]),
        decreases n - i,
    {
        i = i + 1;
    }
    proof {
        lemma_trim_start_skip(s@, i as int);
    }
    let mut j: usize = n;
    while j > i && is_whitespace(s[j - 1])
        invariant
            i <= j <= n == s@.len(),
            forall|k: int| j <= k < n ==> is_white(#[trigger] s@[k]),
        decreases j - i,
    {
        j = j - 1;
    }
    proof {
        let t = s@.skip(i as int);
        assert forall|k: int| j - i <= k < t.len() implies is_white(#[trigger] t[k]) by {
            assert(t[k] == s@[k + i]);
        }
        if j > i {
            assert(t[j - i - 1] == s@[j - 1]);
        }
        lemma_trim_end_take(t, j - i);
        assert(t.take(j - i) =~= s@.subrange(i as int, j as int));
    }
    (i, j)
}

pub fn trim(s: &[char]) -> (r: Vec<char>)
    ensures
        r@ == trimmed(s@),
{
    let (i, j) = trim_bounds(s);
    slice_to_vec(s, i, j)
}

pub fn trim_end_of(s: &[char]) -> (r: Vec<char>)
    ensures
        r@ == trim_end(s@),
{
    let n = s.len();
    let mut j: usize = n;
    while j > 0 && is_whitespace(s[j - 1])
        invariant
            j <= n == s@.len(),
            forall|k: int| j <= k < n ==> is_white(#[trigger] s@[k]),
        decreases j,
    {
        j = j - 1;
    }
    proof {
        lemma_trim_end_take(s@, j as int);
    }
    assert(s@.take(j as int) =~= s@.subrange(0, j as int));
    slice_to_vec(s, 0, j)
}

pub fn trim_str(s: &str) -> (r: Vec<char>)
    ensures
        r@ == trimmed(s@),
{
    let cs = chars_of(s);
    trim(cs.as_slice())
}

// ---------------------------------------------------------------------------
// Splitting on whitespace (`str::split_whitespace`) and joining
// ---------------------------------------------------------------------------

/// The whitespace-separated words of `s`, left to right.
pub open spec fn words(s: Seq<char>) -> Seq<Seq<char>>
    decreases s.len(),
{
    if s.len() == 0 {
        Seq::empty()
    } else {
        let prev = words(s.drop_last());
        let c = s.last();
        if is_white(c) {
            prev
        } else if s.len() >= 2 && !is_white(s[s.len() - 2]) {
            prev.drop_last().push(prev.last().push(c))
        } else {
            prev.push(seq![c])
        }
    }
}

/// There are never more words than characters.
pub proof fn lemma_words_count_bound(s: Seq<char>)
    ensures
        words(s).len() <= s.len(),
    decreases s.len(),
{
    if s.len() > 0 {
        lemma_words_count_bound(s.drop_last());
    }
}

pub proof fn lemma_words_nonempty_when_last_is_word(s: Seq<char>)
    requires
        s.len() > 0,
        !is_white(s.last()),
    ensures
        words(s).len() > 0,
    decreases s.len(),
{
    if s.len() >= 2 && !is_white(s[s.len() - 2]) {
        let t = s.drop_last();
        assert(t.last() == s[s.len() - 2]);
        lemma_words_nonempty_when_last_is_word(t);
    }
}

/// Every word is non-empty and free of whitespace.
pub open spec fn clean_words(ws: Seq<Seq<char>>) -> bool {
    forall|i: int|
        0 <= i < ws.len() ==> #[trigger] ws[i].len() > 0 && forall|k: int|
            0 <= k < ws[i].len() ==> !is_white(ws[i][k])
}

pub proof fn lemma_words_clean(s: Seq<char>)
    ensures
        clean_words(words(s)),
    decreases s.len(),
{
    if s.len() > 0 {
        let t = s.drop_last();
        lemma_words_clean(t);
        let prev = words(t);
        let c = s.last();
        if is_white(c) {
        } else if s.len() >= 2 && !is_white(s[s.len() - 2]) {
            assert(t.last() == s[s.len() - 2]);
            lemma_words_nonempty_when_last_is_word(t);
            let w = prev.drop_last().push(prev.last().push(c));
            assert forall|i: int| 0 <= i < w.len() implies #[trigger] w[i].len() > 0 && forall|
                k: int,
            | 0 <= k < w[i].len() ==> !is_white(w[i][k]) by {
                if i < w.len() - 1 {
                    assert(w[i] == prev[i]);
                } else {
                    assert(w[i] == prev[prev.len() - 1].push(c));
                    assert forall|k: int| 0 <= k < w[i].len() implies !is_white(w[i][k]) by {
                        if k < w[i].len() - 1 {
                            assert(w[i][k] == prev[prev.len() - 1][k]);
                        }
                    }
                }
            }
        } else {
            let w = prev.push(seq![c]);
            assert forall|i: int| 0 <= i < w.len() implies #[trigger] w[i].len() > 0 && forall|
                k: int,
            | 0 <= k < w[i].len() ==> !is_white(w[i][k]) by {
                if i < w.len() - 1 {
                    assert(w[i] == prev[i]);
                }
            }
        }
    }
}

pub open spec fn views(v: Seq<Vec<char>>) -> Seq<Seq<char>> {
    v.map_values(|w: Vec<char>| w@)
}

/// The whitespace-separated words of `s`.
pub fn split_whitespace(s: &[char]) -> (r: Vec<Vec<char>>)
    ensures
        views(r@) == words(s@),
{
    let mut done: Vec<Vec<char>> = Vec::new();
    let mut cur: Vec<char> = Vec::new();
    let n = s.len();
    for i in 0..n
        invariant
            n == s@.len(),
            cur@.len() > 0 <==> (i > 0 && !is_white(s@[i - 1])),
            cur@.len() > 0 ==> words(s@.take(i as int)).len() > 0 && views(done@) == words(
                s@.take(i as int),
            ).drop_last() && cur@ == words(s@.take(i as int)).last(),
            cur@.len() == 0 ==> views(done@) == words(s@.take(i as int)),
    {
        let ghost t = s@.take(i + 1);
        let ghost w = words(s@.take(i as int));
        assert(t.drop_last() =~= s@.take(i as int));
        assert(t.last() == s@[i as int]);
        let c = s[i];
        if is_whitespace(c) {
            if cur.len() > 0 {
                let ghost cv = cur@;
                let ghost old_done = done@;
                let finished = cur;
                done.push(finished);
                cur = Vec::new();
                assert(views(done@) =~= views(old_done).push(cv));
                assert(w.drop_last().push(w.last()) =~= w);
            }
        } else {
            if cur.len() > 0 {
                assert(t[t.len() - 2] == s@[i - 1]);
                cur.push(c);
            } else {
                cur.push(c);
                assert(cur@ =~= seq![c]);
            }
            assert(words(t).len() > 0);
            assert(views(done@) =~= words(t).drop_last());
        }
    }
    assert(s@.take(n as int) =~= s@);
    if cur.len() > 0 {
        let ghost cv = cur@;
        let ghost old_done = done@;
        done.push(cur);
        assert(views(done@) =~= views(old_done).push(cv));
        assert(words(s@).drop_last().push(words(s@).last()) =~= words(s@));
    }
    done
}

/// `ws` joined with `sep` between consecutive elements.
pub open spec fn join(ws: Seq<Seq<char>>, sep: Seq<char>) -> Seq<char>
    decreases ws.len(),
{
    if ws.len() == 0 {
        Seq::empty()
    } else if ws.len() == 1 {
        ws[0]
    } else {
        join(ws.drop_last(), sep) + sep + ws.last()
    }
}

pub fn join_words(ws: &Vec<Vec<char>>, sep: &str) -> (r: Vec<char>)
    ensures
        r@ == join(views(ws@), sep@),
{
    let mut r: Vec<char> = Vec::new();
    let sep_chars = chars_of(sep);
    for i in 0..ws.len()
        invariant
            r@ == join(views(ws@).take(i as int), sep@),
            sep_chars@ == sep@,
    {
        let ghost prev = views(ws@).take(i as int);
        let ghost next = views(ws@).take(i + 1);
        assert(next.drop_last() =~= prev);
        assert(next.last() == ws@[i as int]@);
        if i > 0 {
            append_chars(&mut r, sep_chars.as_slice());
        } else {
            assert(next.len() == 1);
        }
        append_chars(&mut r, ws[i].as_slice());
    }
    assert(views(ws@).take(ws@.len() as int) =~= views(ws@));
    r
}

// ---------------------------------------------------------------------------
// Trimming non-alphanumeric characters
// (`str::trim_matches(|c: char| !c.is_alphanumeric())`)
// ---------------------------------------------------------------------------

pub open spec fn strip_start_non_alnum(s: Seq<char>) -> Seq<char>
    decreases s.len(),
{
    if s.len() > 0 && !alphanumeric(s[0]) {
        strip_start_non_alnum(s.drop_first())
    } else {
        s
    }
}

pub open spec fn strip_end_non_alnum(s: Seq<char>) -> Seq<char>
    decreases s.len(),
{
    if s.len() > 0 && !alphanumeric(s.last()) {
        strip_end_non_alnum(s.drop_last())
    } else {
        s
    }
}

/// `s` without leading and trailing non-alphanumeric characters.
pub open spec fn trim_non_alnum(s: Seq<char>) -> Seq<char> {
    strip_end_non_alnum(strip_start_non_alnum(s))
}

proof fn lemma_strip_start_skip(s: Seq<char>, i: int)
    requires
        0 <= i <= s.len(),
        forall|k: int| 0 <= k < i ==> !alphanumeric(#[trigger] s[k]),
        i == s.len() || alphanumeric(s[i]),
    ensures
        strip_start_non_alnum(s) == s.skip(i),
    decreases i,
{
    if i == 0 {
        assert(s.skip(0) =~= s);
    } else {
        let t = s.drop_first();
        assert forall|k: int| 0 <= k < i - 1 implies !alphanumeric(#[trigger] t[k]) by {
            assert(t[k] == s[k + 1]);
        }
        lemma_strip_start_skip(t, i - 1);
        assert(t.skip(i - 1) =~= s.skip(i));
    }
}

proof fn lemma_strip_end_take(s: Seq<char>, j: int)
    requires
        0 <= j <= s.len(),
        forall|k: int| j <= k < s.len() ==> !alphanumeric(#[trigger] s[k]),
        j == 0 || alphanumeric(s[j - 1]),
    ensures
        strip_end_non_alnum(s) == s.take(j),
    decreases s.len() - j,
{
    if j == s.len() {
        assert(s.take(j) =~= s);
    } else {
        let t = s.drop_last();
        assert forall|k: int| j <= k < t.len() implies !alphanumeric(#[trigger] t[k]) by {
            assert(t[k] == s[k]);
        }
        lemma_strip_end_take(t, j);
        assert(t.take(j) =~= s.take(j));
    }
}

pub fn trim_non_alphanumeric(s: &[char]) -> (r: Vec<char>)
    ensures
        r@ == trim_non_alnum(s@),
{
    let n = s.len();
    let mut i: usize = 0;
    while i < n && !is_alphanumeric(s[i])
        invariant
            i <= n == s@.len(),
            forall|k: int| 0 <= k < i ==> !alphanumeric(#[trigger] s@[k]),
        decreases n - i,
    {
        i = i + 1;
    }
    proof {
        lemma_strip_start_skip(s@, i as int);
    }
    let mut j: usize = n;
    while j > i && !is_alphanumeric(s[j - 1])
        invariant
            i <= j <= n == s@.len(),
            forall|k: int| j <= k < n ==> !alphanumeric(#[trigger] s@[k]),
        decreases j - i,
    {
        j = j - 1;
    }
    proof {
        let t = s@.skip(i as int);
        assert forall|k: int| j - i <= k < t.len() implies !alphanumeric(#[trigger] t[k]) by {
            assert(t[k] == s@[k + i]);
        }
        if j > i {
            assert(t[j - i - 1] == s@[j - 1]);
        }
        lemma_strip_end_take(t, j - i);
        assert(t.take(j - i) =~= s@.subrange(i as int, j as int));
    }
    slice_to_vec(s, i, j)
}

/// `str::len` of a string with characters `s`: the length of its UTF-8
/// encoding, as a `usize`.
pub open spec fn utf8_size(s: Seq<char>) -> usize {
    vstd::utf8::encode_utf8(s).len() as usize
}

pub fn utf8_len(s: &[char]) -> (n: usize)
    ensures
        n == utf8_size(s@),
{
    let st = string_of(s);
    st.as_str().len()
}

// ---------------------------------------------------------------------------
// Searching for a character
// ---------------------------------------------------------------------------

/// The index of the first `c` in `s`, or the length of `s` when there is none.
pub open spec fn first_index_of(s: Seq<char>, c: char) -> int
    decreases s.len(),
{
    if s.len() == 0 {
        0
    } else if s[0] == c {
        0
    } else {
        1 + first_index_of(s.drop_first(), c)
    }
}

/// The index of the last `c` in `s`, or -1 when there is none.
pub open spec fn last_index_of(s: Seq<char>, c: char) -> int
    decreases s.len(),
{
    if s.len() == 0 {
        -1
    } else if s.last() == c {
        s.len() - 1
    } else {
        last_index_of(s.drop_last(), c)
    }
}

/// Whether `c` occurs in `s`.
pub fn contains_char(s: &[char], c: char) -> (b: bool)
    ensures
        b == s@.contains(c),
{
    let mut i: usize = 0;
    while i < s.len()
        invariant
            i <= s@.len(),
            forall|k: int| 0 <= k < i ==> s@[k] != c,
        decreases s@.len() - i,
    {
        if s[i] == c {
            assert(s@[i as int] == c);
            return true;
        }
        i = i + 1;
    }
    false
}

pub proof fn lemma_first_index(s: Seq<char>, c: char, i: int)
    requires
        0 <= i <= s.len(),
        forall|k: int| 0 <= k < i ==> #[trigger] s[k] != c,
        i == s.len() || s[i] == c,
    ensures
        first_index_of(s, c) == i,
    decreases i,
{
    if i > 0 {
        let t = s.drop_first();
        assert forall|k: int| 0 <= k < i - 1 implies #[trigger] t[k] != c by {
            assert(t[k] == s[k + 1]);
        }
        if i < s.len() {
            assert(t[i - 1] == s[i]);
        }
        lemma_first_index(t, c, i - 1);
    }
}

pub proof fn lemma_last_index(s: Seq<char>, c: char, j: int)
    requires
        -1 <= j < s.len(),
        forall|k: int| j < k < s.len() ==> #[trigger] s[k] != c,
        j == -1 || s[j] == c,
    ensures
        last_index_of(s, c) == j,
    decreases s.len(),
{
    if s.len() > 0 && j < s.len() - 1 {
        let t = s.drop_last();
        assert forall|k: int| j < k < t.len() implies #[trigger] t[k] != c by {
            assert(t[k] == s[k]);
        }
        if j >= 0 {
            assert(t[j] == s[j]);
        }
        lemma_last_index(t, c, j);
    }
}

pub fn find_first(s: &[char], c: char) -> (i: usize)
    ensures
        i == first_index_of(s@, c),
        i <= s@.len(),
{
    let n = s.len();
    let mut i: usize = 0;
    while i < n && s[i] != c
        invariant
            i <= n == s@.len(),
            forall|k: int| 0 <= k < i ==> #[trigger] s@[k] != c,
        decreases n - i,
    {
        i = i + 1;
    }
    proof {
        lemma_first_index(s@, c, i as int);
    }
    i
}

pub fn find_last(s: &[char], c: char) -> (j: Option<usize>)
    ensures
        match j {
            Some(x) => x == last_index_of(s@, c) && x < s@.len(),
            None => last_index_of(s@, c) == -1,
        },
{
    let n = s.len();
    let mut j: usize = n;
    while j > 0 && s[j - 1] != c
        invariant
            j <= n == s@.len(),
            forall|k: int| j <= k < n ==> #[trigger] s@[k] != c,
        decreases j,
    {
        j = j - 1;
    }
    proof {
        lemma_last_index(s@, c, j - 1);
    }
    if j == 0 {
        None
    } else {
        Some(j - 1)
    }
}

/// `s` without trailing `c` characters (`str::trim_end_matches(c)`).
pub open spec fn trim_end_char(s: Seq<char>, c: char) -> Seq<char>
    decreases s.len(),
{
    if s.len() > 0 && s.last() == c {
        trim_end_char(s.drop_last(), c)
    } else {
        s
    }
}

proof fn lemma_trim_end_char(s: Seq<char>, c: char, j: int)
    requires
        0 <= j <= s.len(),
        forall|k: int| j <= k < s.len() ==> #[trigger] s[k] == c,
        j == 0 || s[j - 1] != c,
    ensures
        trim_end_char(s, c) == s.take(j),
    decreases s.len() - j,
{
    if j == s.len() {
        assert(s.take(j) =~= s);
    } else {
        let t = s.drop_last();
        assert forall|k: int| j <= k < t.len() implies #[trigger] t[k] == c by {
            assert(t[k] == s[k]);
        }
        if j > 0 {
            assert(t[j - 1] == s[j - 1]);
        }
        lemma_trim_end_char(t, c, j);
        assert(t.take(j) =~= s.take(j));
    }
}

pub fn trim_end_slashes(s: &[char]) -> (r: Vec<char>)
    ensures
        r@ == trim_end_char(s@, '/'),
{
    let n = s.len();
    let mut j: usize = n;
    while j > 0 && s[j - 1] == '/'
        invariant
            j <= n == s@.len(),
            forall|k: int| j <= k < n ==> #[trigger] s@[k] == '/',
        decreases j,
    {
        j = j - 1;
    }
    proof {
        lemma_trim_end_char(s@, '/', j as int);
        assert(s@.subrange(0, j as int) =~= s@.take(j as int));
    }
    slice_to_vec(s, 0, j)
}

// ---------------------------------------------------------------------------
// Lines
// ---------------------------------------------------------------------------

/// The pieces of `s` between line feeds (the last one may be empty).
pub open spec fn split_lines(s: Seq<char>) -> Seq<Seq<char>>
    decreases s.len(),
{
    if s.len() == 0 {
        seq![Seq::empty()]
    } else {
        let prev = split_lines(s.drop_last());
        if s.last() == '\n' {
            prev.push(Seq::empty())
        } else {
            prev.drop_last().push(prev.last().push(s.last()))
        }
    }
}

pub proof fn lemma_split_lines_nonempty(s: Seq<char>)
    ensures
        split_lines(s).len() >= 1,
    decreases s.len(),
{
    if s.len() > 0 {
        lemma_split_lines_nonempty(s.drop_last());
    }
}

// ---------------------------------------------------------------------------
// Decimal numbers
// ---------------------------------------------------------------------------

pub open spec fn digit_char(d: nat) -> char {
    if d == 0 {
        '0'
    } else if d == 1 {
        '1'
    } else if d == 2 {
        '2'
    } else if d == 3 {
        '3'
    } else if d == 4 {
        '4'
    } else if d == 5 {
        '5'
    } else if d == 6 {
        '6'
    } else if d == 7 {
        '7'
    } else if d == 8 {
        '8'
    } else {
        '9'
    }
}

/// The decimal digits of `n`, most significant first, without leading zeros.
pub open spec fn decimal_digits(n: nat) -> Seq<char>
    decreases n,
{
    if n < 10 {
        seq![digit_char(n)]
    } else {
        decimal_digits(n / 10).push(digit_char(n % 10))
    }
}

fn digit(d: u64) -> (c: char)
    requires
        d < 10,
    ensures
        c == digit_char(d as nat),
{
    match d {
        0 => '0',
        1 => '1',
        2 => '2',
        3 => '3',
        4 => '4',
        5 => '5',
        6 => '6',
        7 => '7',
        8 => '8',
        _ => '9',
    }
}

pub fn decimal(n: u64) -> (r: Vec<char>)
    ensures
        r@ == decimal_digits(n as nat),
    decreases n,
{
    if n < 10 {
        let mut v: Vec<char> = Vec::new();
        v.push(digit(n));
        assert(v@ =~= seq![digit_char(n as nat)]);
        v
    } else {
        let mut v = decimal(n / 10);
        v.push(digit(n % 10));
        v
    }
}

/// `s` with zeros in front up to `width` characters (`{:0width$}`).
pub open spec fn zero_pad(s: Seq<char>, width: nat) -> Seq<char> {
    if s.len() < width {
        Seq::new((width - s.len()) as nat, |i: int| '0') + s
    } else {
        s
    }
}

/// `n` in decimal, zero-padded to at least `width` digits.
pub fn padded_decimal(n: u64, width: usize) -> (r: Vec<char>)
    ensures
        r@ == zero_pad(decimal_digits(n as nat), width as nat),
{
    let d = decimal(n);
    if d.len() >= width {
        return d;
    }
    let pad = width - d.len();
    let mut r: Vec<char> = Vec::new();
    for i in 0..pad
        invariant
            r@ == Seq::new(i as nat, |k: int| '0'),
    {
        r.push('0');
        assert(r@ =~= Seq::new((i + 1) as nat, |k: int| '0'));
    }
    append_chars(&mut r, d.as_slice());
    assert(r@ =~= zero_pad(decimal_digits(n as nat), width as nat));
    r
}

/// The pieces of `s` between line feeds, as vectors.
pub fn lines_of(s: &[char]) -> (r: Vec<Vec<char>>)
    ensures
        views(r@) == split_lines(s@),
{
    let n = s.len();
    let mut done: Vec<Vec<char>> = Vec::new();
    let mut cur: Vec<char> = Vec::new();
    for i in 0..n
        invariant
            n == s@.len(),
            views(done@) == split_lines(s@.take(i as int)).drop_last(),
            cur@ == split_lines(s@.take(i as int)).last(),
    {
        let ghost t = s@.take(i + 1);
        let ghost prev = split_lines(s@.take(i as int));
        assert(t.drop_last() =~= s@.take(i as int));
        proof {
            lemma_split_lines_nonempty(s@.take(i as int));
        }
        if s[i] == '\n' {
            let ghost cv = cur@;
            let ghost before = views(done@);
            done.push(cur);
            cur = Vec::new();
            assert(views(done@) =~= before.push(cv));
            assert(prev.drop_last().push(prev.last()) =~= prev);
            assert(split_lines(t).drop_last() =~= prev);
        } else {
            assert(split_lines(t).drop_last() =~= prev.drop_last());
            cur.push(s[i]);
        }
    }
    proof {
        assert(s@.take(n as int) =~= s@);
        lemma_split_lines_nonempty(s@);
    }
    let ghost cv = cur@;
    let ghost before = views(done@);
    done.push(cur);
    assert(views(done@) =~= before.push(cv));
    assert(split_lines(s@).drop_last().push(split_lines(s@).last()) =~= split_lines(s@));
    done
}

// ---------------------------------------------------------------------------
// Parsing unsigned numbers (`str::parse` for unsigned integer types)
// ---------------------------------------------------------------------------

pub open spec fn is_digit(c: char) -> bool {
    '0' <= c && c <= '9'
}

pub open spec fn digit_value(c: char) -> nat {
    ((c as int) - ('0' as int)) as nat
}

/// The value of a string of decimal digits.
pub open spec fn dec_value(d: Seq<char>) -> nat
    decreases d.len(),
{
    if d.len() == 0 {
        0
    } else {
        dec_value(d.drop_last()) * 10 + digit_value(d.last())
    }
}

pub proof fn lemma_dec_value_grows(d: Seq<char>, k: int)
    requires
        0 <= k <= d.len(),
    ensures
        dec_value(d.take(k)) <= dec_value(d),
    decreases d.len() - k,
{
    if k < d.len() {
        lemma_dec_value_grows(d, k + 1);
        assert(d.take(k + 1).drop_last() =~= d.take(k));
    } else {
        assert(d.take(k) =~= d);
    }
}

pub open spec fn all_digits(d: Seq<char>) -> bool {
    forall|k: int| 0 <= k < d.len() ==> is_digit(#[trigger] d[k])
}

/// What `str::parse` gives for an unsigned type whose largest value is
/// `max`: an optional `+`, then at least one digit and nothing else, with a
/// value that fits.
pub open spec fn spec_parse_unsigned(s: Seq<char>, max: nat) -> Option<nat> {
    let d = if s.len() > 0 && s[0] == '+' {
        s.drop_first()
    } else {
        s
    };
    if d.len() == 0 || !all_digits(d) {
        None
    } else if dec_value(d) > max {
        None
    } else {
        Some(dec_value(d))
    }
}

pub fn parse_unsigned(s: &[char], max: u64) -> (r: Option<u64>)
    ensures
        match r {
            Some(v) => spec_parse_unsigned(s@, max as nat) == Some(v as nat),
            None => spec_parse_unsigned(s@, max as nat) is None,
        },
{
    let n = s.len();
    let start: usize = if n > 0 && s[0] == '+' {
        1
    } else {
        0
    };
    let ghost d = if s@.len() > 0 && s@[0] == '+' {
        s@.drop_first()
    } else {
        s@
    };
    assert(d =~= s@.skip(start as int));
    if start == n {
        return None;
    }
    let mut v: u64 = 0;
    let mut i: usize = start;
    while i < n
        invariant
            start <= i <= n == s@.len(),
            start < n,
            d == s@.skip(start as int),
            d == (if s@.len() > 0 && s@[0] == '+' {
                s@.drop_first()
            } else {
                s@
            }),
            forall|k: int| 0 <= k < i - start ==> is_digit(#[trigger] d[k]),
            v as nat == dec_value(d.take(i - start)),
            v <= max,
        decreases n - i,
    {
        let c = s[i];
        assert(d[i - start] == c);
        if !('0' <= c && c <= '9') {
            assert(!is_digit(d[i - start]));
            assert(!all_digits(d));
            return None;
        }
        let dig = (c as u32 - '0' as u32) as u64;
        assert(d.take(i - start + 1).drop_last() =~= d.take(i - start));
        let next = match v.checked_mul(10) {
            Some(x) => x.checked_add(dig),
            None => None,
        };
        match next {
            Some(x) => {
                if x > max {
                    proof {
                        lemma_dec_value_grows(d, i - start + 1);
                    }
                    return None;
                }
                v = x;
            },
            None => {
                proof {
                    lemma_dec_value_grows(d, i - start + 1);
                }
                return None;
            },
        }
        i = i + 1;
    }
    assert(d.take(n - start) =~= d);
    Some(v)
}

/// The first whitespace-separated word of `s`.
pub fn first_word(s: &[char]) -> (r: Option<Vec<char>>)
    ensures
        match r {
            Some(w) => words(s@).len() > 0 && w@ == words(s@)[0],
            None => words(s@).len() == 0,
        },
{
    let ws = split_whitespace(s);
    if ws.len() == 0 {
        None
    } else {
        assert(views(ws@)[0] == ws@[0]@);
        Some(slice_to_vec(ws[0].as_slice(), 0, ws[0].len()))
    }
}

// ---------------------------------------------------------------------------
// Searching for a substring
// ---------------------------------------------------------------------------

/// The index of the first occurrence of `pat` in `s`, or -1 when there is
/// none.
pub open spec fn first_match(s: Seq<char>, pat: Seq<char>) -> int
    decreases s.len(),
{
    if pat.is_prefix_of(s) {
        0
    } else if s.len() == 0 {
        -1
    } else {
        let r = first_match(s.drop_first(), pat);
        if r < 0 {
            -1
        } else {
            r + 1
        }
    }
}

proof fn lemma_first_match(s: Seq<char>, pat: Seq<char>, i: int, found: bool)
    requires
        0 <= i <= s.len(),
        forall|k: int| 0 <= k < i ==> !pat.is_prefix_of(#[trigger] s.skip(k)),
        found ==> pat.is_prefix_of(s.skip(i)),
        !found ==> i == s.len() && !pat.is_prefix_of(s.skip(i)),
    ensures
        first_match(s, pat) == if found {
            i
        } else {
            -1
        },
    decreases i,
{
    if i == 0 {
        assert(s.skip(0) =~= s);
        if !found {
            assert(s.len() == 0);
        }
    } else {
        let t = s.drop_first();
        assert(s.skip(0) =~= s);
        assert(!pat.is_prefix_of(s.skip(0)));
        assert forall|k: int| 0 <= k < i - 1 implies !pat.is_prefix_of(#[trigger] t.skip(k)) by {
            assert(t.skip(k) =~= s.skip(k + 1));
        }
        assert(t.skip(i - 1) =~= s.skip(i));
        lemma_first_match(t, pat, i - 1, found);
    }
}

fn matches_at(s: &[char], pat: &[char], i: usize) -> (b: bool)
    requires
        i <= s@.len(),
    ensures
        b == pat@.is_prefix_of(s@.skip(i as int)),
{
    let rest = slice_to_vec(s, i, s.len());
    assert(rest@ =~= s@.skip(i as int));
    starts_with(rest.as_slice(), pat)
}

pub fn find_sub(s: &[char], pat: &[char]) -> (r: Option<usize>)
    ensures
        match r {
            Some(i) => i == first_match(s@, pat@) && i + pat@.len() <= s@.len(),
            None => first_match(s@, pat@) == -1,
        },
{
    let n = s.len();
    let mut i: usize = 0;
    while i < n
        invariant
            i <= n == s@.len(),
            forall|k: int| 0 <= k < i ==> !pat@.is_prefix_of(#[trigger] s@.skip(k)),
        decreases n - i,
    {
        if matches_at(s, pat, i) {
            proof {
                lemma_first_match(s@, pat@, i as int, true);
            }
            return Some(i);
        }
        i = i + 1;
    }
    if matches_at(s, pat, n) {
        proof {
            lemma_first_match(s@, pat@, n as int, true);
        }
        return Some(n);
    }
    proof {
        lemma_first_match(s@, pat@, n as int, false);
    }
    None
}

/// The index of the last occurrence of `pat` in `s`, or -1 when there is
/// none.
pub open spec fn last_match(s: Seq<char>, pat: Seq<char>) -> int
    decreases s.len(),
{
    if s.len() < pat.len() {
        -1
    } else if pat.is_suffix_of(s) {
        s.len() - pat.len()
    } else {
        last_match(s.drop_last(), pat)
    }
}

proof fn lemma_last_match(s: Seq<char>, pat: Seq<char>, j: int)
    requires
        -1 <= j,
        j == -1 || j + pat.len() <= s.len(),
        forall|k: int| j < k && k + pat.len() <= s.len() ==> !pat.is_prefix_of(#[trigger] s.skip(k)),
        j >= 0 ==> pat.is_prefix_of(s.skip(j)),
    ensures
        last_match(s, pat) == j,
    decreases s.len(),
{
    if s.len() >= pat.len() {
        let k = s.len() - pat.len();
        if pat.is_suffix_of(s) {
            assert forall|x: int| 0 <= x < pat.len() implies pat[x] == s.skip(k)[x] by {
                assert(s.skip(k)[x] == s[k + x]);
            }
            assert(pat.is_prefix_of(s.skip(k)));
            if j < k {
                assert(!pat.is_prefix_of(s.skip(k)));
            }
        } else {
            if j == k {
                assert forall|x: int| 0 <= x < pat.len() implies pat[x] == s[k + x] by {
                    assert(s.skip(k)[x] == s[k + x]);
                }
                assert(pat.is_suffix_of(s));
            }
            let t = s.drop_last();
            assert forall|m: int| j < m && m + pat.len() <= t.len() implies !pat.is_prefix_of(#[trigger] t.skip(m)) by {
                if pat.is_prefix_of(t.skip(m)) {
                    assert forall|x: int| 0 <= x < pat.len() implies pat[x] == s.skip(m)[x] by {
                        assert(t.skip(m)[x] == s.skip(m)[x]);
                    }
                    assert(pat.is_prefix_of(s.skip(m)));
                }
            }
            if j >= 0 {
                assert forall|x: int| 0 <= x < pat.len() implies pat[x] == t.skip(j)[x] by {
                    assert(t.skip(j)[x] == s.skip(j)[x]);
                }
            }
            lemma_last_match(t, pat, j);
        }
    }
}

pub fn find_last_sub(s: &[char], pat: &[char]) -> (r: Option<usize>)
    ensures
        match r {
            Some(j) => j == last_match(s@, pat@) && j + pat@.len() <= s@.len(),
            None => last_match(s@, pat@) == -1,
        },
{
    let n = s.len();
    let m = pat.len();
    if m > n {
        proof {
            lemma_last_match(s@, pat@, -1);
        }
        return None;
    }
    let top = n - m;
    if matches_at(s, pat, top) {
        proof {
            lemma_last_match(s@, pat@, top as int);
        }
        return Some(top);
    }
    let mut j: usize = top;
    while j > 0
        invariant
            m == pat@.len(),
            n == s@.len(),
            m <= n,
            j <= n - m,
            forall|k: int| j <= k && k + m <= n ==> !pat@.is_prefix_of(#[trigger] s@.skip(k)),
        decreases j,
    {
        if matches_at(s, pat, j - 1) {
            proof {
                lemma_last_match(s@, pat@, j - 1);
            }
            return Some(j - 1);
        }
        j = j - 1;
    }
    proof {
        lemma_last_match(s@, pat@, -1);
    }
    None
}

/// `s` with every `c` replaced by `rep`.
pub open spec fn replace_char(s: Seq<char>, c: char, rep: Seq<char>) -> Seq<char>
    decreases s.len(),
{
    if s.len() == 0 {
        Seq::empty()
    } else {
        replace_char(s.drop_last(), c, rep) + if s.last() == c {
            rep
        } else {
            seq![s.last()]
        }
    }
}

pub fn replace_all(s: &[char], c: char, rep: &str) -> (r: Vec<char>)
    ensures
        r@ == replace_char(s@, c, rep@),
{
    let mut out: Vec<char> = Vec::new();
    for i in 0..s.len()
        invariant
            out@ == replace_char(s@.take(i as int), c, rep@),
    {
        assert(s@.take(i + 1).drop_last() =~= s@.take(i as int));
        if s[i] == c {
            append_str(&mut out, rep);
        } else {
            let ghost before = out@;
            out.push(s[i]);
            assert(out@ =~= before + seq![s@[i as int]]);
        }
    }
    assert(s@.take(s@.len() as int) =~= s@);
    out
}

/// `s` with each non-overlapping occurrence of `pat`, left to right,
/// replaced by `rep` (`str::replace`).
pub open spec fn replace_sub(s: Seq<char>, pat: Seq<char>, rep: Seq<char>) -> Seq<char>
    decreases s.len(),
{
    if s.len() == 0 {
        s
    } else if pat.len() > 0 && pat.is_prefix_of(s) {
        rep + replace_sub(s.skip(pat.len() as int), pat, rep)
    } else {
        seq![s[0]] + replace_sub(s.drop_first(), pat, rep)
    }
}

pub fn replace_str(s: &[char], pat: &str, rep: &[char]) -> (r: Vec<char>)
    ensures
        r@ == replace_sub(s@, pat@, rep@),
{
    let p = chars_of(pat);
    let n = s.len();
    let m = p.len();
    let mut out: Vec<char> = Vec::new();
    let mut i: usize = 0;
    assert(s@.skip(0) =~= s@);
    while i < n
        invariant
            i <= n == s@.len(),
            m == p@.len(),
            p@ == pat@,
            out@ + replace_sub(s@.skip(i as int), pat@, rep@) == replace_sub(s@, pat@, rep@),
        decreases n - i,
    {
        let ghost rest = s@.skip(i as int);
        let ghost before = out@;
        if m > 0 && matches_at(s, p.as_slice(), i) {
            assert(rest.skip(m as int) =~= s@.skip(i + m));
            append_chars(&mut out, rep);
            assert(out@ + replace_sub(s@.skip(i + m), pat@, rep@) =~= before + replace_sub(rest, pat@, rep@));
            i = i + m;
        } else {
            assert(rest.drop_first() =~= s@.skip(i + 1));
            assert(rest[0] == s@[i as int]);
            out.push(s[i]);
            assert(out@ + replace_sub(s@.skip(i + 1), pat@, rep@) =~= before + replace_sub(rest, pat@, rep@));
            i = i + 1;
        }
    }
    assert(s@.skip(n as int).len() == 0);
    assert(out@ + replace_sub(s@.skip(n as int), pat@, rep@) =~= out@);
    out
}

/// One trailing carriage return removed.
pub open spec fn strip_cr(l: Seq<char>) -> Seq<char> {
    if l.len() > 0 && l.last() == '\r' {
        l.drop_last()
    } else {
        l
    }
}

/// The lines of `s` as `str::lines` gives them: split at line feeds, a
/// carriage return before a line feed dropped, no empty line after a final
/// line feed.
pub open spec fn str_lines(s: Seq<char>) -> Seq<Seq<char>> {
    let p = split_lines(s);
    let n = p.len();
    let kept = if p[n - 1].len() == 0 {
        n - 1
    } else {
        n as int
    };
    Seq::new(
        kept as nat,
        |k: int|
            if k < n - 1 {
                strip_cr(p[k])
            } else {
                p[k]
            },
    )
}

pub fn str_lines_of(s: &[char]) -> (r: Vec<Vec<char>>)
    ensures
        views(r@) == str_lines(s@),
{
    let pieces = lines_of(s);
    proof {
        lemma_split_lines_nonempty(s@);
    }
    let n = pieces.len();
    let kept = if pieces[n - 1].len() == 0 {
        n - 1
    } else {
        n
    };
    let mut out: Vec<Vec<char>> = Vec::new();
    for k in 0..kept
        invariant
            n == pieces@.len(),
            n >= 1,
            kept <= n,
            views(pieces@) == split_lines(s@),
            kept == (if split_lines(s@)[n - 1].len() == 0 {
                n - 1
            } else {
                n as int
            }),
            out@.len() == k,
            forall|j: int| 0 <= j < k ==> #[trigger] out@[j]@ == (if j < n - 1 {
                strip_cr(split_lines(s@)[j])
            } else {
                split_lines(s@)[j]
            }),
    {
        assert(views(pieces@)[k as int] == pieces@[k as int]@);
        let line = &pieces[k];
        let len = line.len();
        let l = if k + 1 < n && len > 0 && line[len - 1] == '\r' {
            slice_to_vec(line.as_slice(), 0, len - 1)
        } else {
            slice_to_vec(line.as_slice(), 0, len)
        };
        assert(line@.subrange(0, len as int) =~= line@);
        assert(line@.subrange(0, len - 1) =~= line@.drop_last());
        out.push(l);
    }
    assert(views(out@) =~= str_lines(s@));
    out
}

// ---------------------------------------------------------------------------
// The order of strings
// ---------------------------------------------------------------------------

/// `a` sorts before `b`: the first differing character is smaller, or `a`
/// is a proper prefix of `b`. This is the order of `String` (byte order of
/// UTF-8, which follows code points).
pub open spec fn lex_lt(a: Seq<char>, b: Seq<char>) -> bool
    decreases a.len(),
{
    if a.len() == 0 {
        b.len() > 0
    } else if b.len() == 0 {
        false
    } else if a[0] != b[0] {
        (a[0] as u32) < (b[0] as u32)
    } else {
        lex_lt(a.drop_first(), b.drop_first())
    }
}

pub proof fn lemma_lex_irreflexive(a: Seq<char>)
    ensures
        !lex_lt(a, a),
    decreases a.len(),
{
    if a.len() > 0 {
        lemma_lex_irreflexive(a.drop_first());
    }
}

pub proof fn lemma_lex_transitive(a: Seq<char>, b: Seq<char>, c: Seq<char>)
    requires
        lex_lt(a, b),
        lex_lt(b, c),
    ensures
        lex_lt(a, c),
    decreases a.len(),
{
    if a.len() > 0 && b.len() > 0 && c.len() > 0 && a[0] == b[0] && b[0] == c[0] {
        lemma_lex_transitive(a.drop_first(), b.drop_first(), c.drop_first());
    }
}

pub proof fn lemma_lex_total(a: Seq<char>, b: Seq<char>)
    requires
        a != b,
    ensures
        lex_lt(a, b) || lex_lt(b, a),
    decreases a.len(),
{
    if a.len() == 0 {
        if b.len() == 0 {
            assert(a =~= b);
        }
    } else if b.len() > 0 && a[0] == b[0] {
        if a.drop_first() == b.drop_first() {
            assert(a.drop_first().len() == b.drop_first().len());
            assert(a =~= b) by {
                assert forall|k: int| 0 <= k < a.len() implies a[k] == b[k] by {
                    if k > 0 {
                        assert(a[k] == a.drop_first()[k - 1]);
                        assert(b[k] == b.drop_first()[k - 1]);
                    }
                }
            }
        }
        lemma_lex_total(a.drop_first(), b.drop_first());
    } else if b.len() > 0 && (a[0] as u32) == (b[0] as u32) {
        vstd::utf8::char_u32_cast(a[0], a[0] as u32);
        vstd::utf8::char_u32_cast(b[0], b[0] as u32);
    }
}

proof fn lemma_lex_skip(a: Seq<char>, b: Seq<char>, i: int)
    requires
        0 <= i <= a.len(),
        i <= b.len(),
        forall|k: int| 0 <= k < i ==> a[k] == b[k],
    ensures
        lex_lt(a, b) == lex_lt(a.skip(i), b.skip(i)),
    decreases i,
{
    if i == 0 {
        assert(a.skip(0) =~= a);
        assert(b.skip(0) =~= b);
    } else {
        assert forall|k: int| 0 <= k < i - 1 implies a.drop_first()[k] == b.drop_first()[k] by {
            assert(a.drop_first()[k] == a[k + 1]);
            assert(b.drop_first()[k] == b[k + 1]);
        }
        lemma_lex_skip(a.drop_first(), b.drop_first(), i - 1);
        assert(a.drop_first().skip(i - 1) =~= a.skip(i));
        assert(b.drop_first().skip(i - 1) =~= b.skip(i));
    }
}

pub fn lex_less(a: &[char], b: &[char]) -> (r: bool)
    ensures
        r == lex_lt(a@, b@),
{
    let n = a.len();
    let m = b.len();
    let mut i: usize = 0;
    while i < n && i < m && a[i] == b[i]
        invariant
            i <= n == a@.len(),
            i <= m == b@.len(),
            forall|k: int| 0 <= k < i ==> a@[k] == b@[k],
        decreases n - i,
    {
        i = i + 1;
    }
    proof {
        lemma_lex_skip(a@, b@, i as int);
    }
    if i == n {
        i < m
    } else if i == m {
        false
    } else {
        assert(a@.skip(i as int)[0] == a@[i as int]);
        assert(b@.skip(i as int)[0] == b@[i as int]);
        (a[i] as u32) < (b[i] as u32)
    }
}

} // verus!
