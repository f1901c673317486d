//! Small decisions of the desktop app: file names shown and exported,
//! command-line forwarding, the tray icon, the KWin rule for the floating
//! capsule, and the capsule window's size.
use vstd::prelude::*;
use crate::history::HistoryEntry;
use crate::lifecycle::Stage;
use crate::paths::{file_stem_of, path_file_stem};
use crate::segments::opt_view;
use crate::text::{
    append_chars, append_str, chars_eq, chars_eq_str, chars_of, decimal, decimal_digits, find_sub,
    first_match, lines_of, slice_to_vec, split_lines, starts_with, str_uppercase, string_of, trim,
    trimmed, uppercase_str, views,
};

verus! {

broadcast use vstd::string::group_string_axioms;

// ---------------------------------------------------------------------------
// Base names
// ---------------------------------------------------------------------------

pub open spec fn is_sep(c: char) -> bool {
    c == '/' || c == '\\'
}

pub open spec fn trim_end_seps(s: Seq<char>) -> Seq<char>
    decreases s.len(),
{
    if s.len() > 0 && is_sep(s.last()) {
        trim_end_seps(s.drop_last())
    } else {
        s
    }
}

/// The index of the last separator in `s`, or -1.
pub open spec fn last_sep(s: Seq<char>) -> int
    decreases s.len(),
{
    if s.len() == 0 {
        -1
    } else if is_sep(s.last()) {
        s.len() - 1
    } else {
        last_sep(s.drop_last())
    }
}

proof fn lemma_trim_end_seps(s: Seq<char>, j: int)
    requires
        0 <= j <= s.len(),
        forall|k: int| j <= k < s.len() ==> is_sep(#[trigger] s[k]),
        j == 0 || !is_sep(s[j - 1]),
    ensures
        trim_end_seps(s) == s.take(j),
    decreases s.len() - j,
{
    if j == s.len() {
        assert(s.take(j) =~= s);
    } else {
        let t = s.drop_last();
        assert forall|k: int| j <= k < t.len() implies is_sep(#[trigger] t[k]) by {
            assert(t[k] == s[k]);
        }
        if j > 0 {
            assert(t[j - 1] == s[j - 1]);
        }
        lemma_trim_end_seps(t, j);
        assert(t.take(j) =~= s.take(j));
    }
}

proof fn lemma_last_sep(s: Seq<char>, j: int)
    requires
        -1 <= j < s.len(),
        forall|k: int| j < k < s.len() ==> !is_sep(#[trigger] s[k]),
        j == -1 || is_sep(s[j]),
    ensures
        last_sep(s) == j,
    decreases s.len(),
{
    if s.len() > 0 && j < s.len() - 1 {
        let t = s.drop_last();
        assert forall|k: int| j < k < t.len() implies !is_sep(#[trigger] t[k]) by {
            assert(t[k] == s[k]);
        }
        if j >= 0 {
            assert(t[j] == s[j]);
        }
        lemma_last_sep(t, j);
    }
}

/// The last component of a `/`- or `\`-separated path, ignoring trailing
/// separators; the value itself when no component is left.
pub open spec fn spec_basename(value: Seq<char>) -> Seq<char> {
    let t = trim_end_seps(value);
    let piece = t.skip(last_sep(t) + 1);
    if piece.len() > 0 {
        piece
    } else {
        value
    }
}

pub fn basename(value: &str) -> (r: String)
    ensures
        r@ == spec_basename(value@),
{
    let cs = chars_of(value);
    let n = cs.len();
    let mut j: usize = n;
    while j > 0 && (cs[j - 1] == '/' || cs[j - 1] == '\\')
        invariant
            j <= n == cs@.len(),
            forall|k: int| j <= k < n ==> is_sep(#[trigger] cs@[k]),
        decreases j,
    {
        j = j - 1;
    }
    proof {
        lemma_trim_end_seps(cs@, j as int);
    }
    let t = slice_to_vec(cs.as_slice(), 0, j);
    assert(t@ =~= cs@.take(j as int));
    let mut i: usize = j;
    while i > 0 && !(t[i - 1] == '/' || t[i - 1] == '\\')
        invariant
            i <= j == t@.len(),
            forall|k: int| i <= k < j ==> !is_sep(#[trigger] t@[k]),
        decreases i,
    {
        i = i - 1;
    }
    proof {
        lemma_last_sep(t@, i - 1);
    }
    let piece = slice_to_vec(t.as_slice(), i, j);
    assert(piece@ =~= t@.skip(i as int));
    if piece.len() > 0 {
        string_of(piece.as_slice())
    } else {
        value.to_owned()
    }
}

// ---------------------------------------------------------------------------
// Forwarded paste chord
// ---------------------------------------------------------------------------

/// The value of the first `--paste-chord=` argument.
pub open spec fn first_chord_arg(args: Seq<Seq<char>>) -> Option<Seq<char>>
    decreases args.len(),
{
    if args.len() == 0 {
        None
    } else if "--paste-chord="@.is_prefix_of(args[0]) {
        Some(args[0].skip("--paste-chord="@.len() as int))
    } else {
        first_chord_arg(args.drop_first())
    }
}

/// The forwarded chord, when the first `--paste-chord=` argument names a
/// supported one.
pub open spec fn spec_parse_chord_arg(args: Seq<Seq<char>>) -> Option<Seq<char>> {
    match first_chord_arg(args) {
        Some(v) => if v == "ctrl-v"@ || v == "ctrl-shift-v"@ {
            Some(v)
        } else {
            None
        },
        None => None,
    }
}

pub open spec fn string_views(v: Seq<String>) -> Seq<Seq<char>> {
    v.map_values(|s: String| s@)
}

pub fn parse_chord_arg(args: &[String]) -> (r: Option<String>)
    ensures
        opt_view(r) == spec_parse_chord_arg(string_views(args@)),
{
    let ghost all = string_views(args@);
    let prefix = chars_of("--paste-chord=");
    let n = args.len();
    let mut i: usize = 0;
    assert(all.skip(0) =~= all);
    while i < n
        invariant
            n == args@.len(),
            i <= n,
            all == string_views(args@),
            prefix@ == "--paste-chord="@,
            first_chord_arg(all) == first_chord_arg(all.skip(i as int)),
        decreases n - i,
    {
        let a = chars_of(args[i].as_str());
        let ghost rest = all.skip(i as int);
        assert(rest[0] == a@);
        assert(rest.drop_first() =~= all.skip(i + 1));
        if starts_with(a.as_slice(), prefix.as_slice()) {
            let v = slice_to_vec(a.as_slice(), prefix.len(), a.len());
            assert(v@ =~= a@.skip(prefix@.len() as int));
            if chars_eq_str(v.as_slice(), "ctrl-v") || chars_eq_str(v.as_slice(), "ctrl-shift-v") {
                return Some(string_of(v.as_slice()));
            }
            return None;
        }
        i = i + 1;
    }
    None
}

// ---------------------------------------------------------------------------
// History export
// ---------------------------------------------------------------------------

/// What exporting a history entry in a format needs: its text, or its
/// timestamped segments (as stored JSON) rendered as SRT or WebVTT.
#[derive(Debug, Clone)]
pub enum ExportPlan {
    Text(String),
    Srt(String),
    Vtt(String),
}

pub enum ExportView {
    Text(Seq<char>),
    Srt(Seq<char>),
    Vtt(Seq<char>),
}

pub open spec fn export_view(p: ExportPlan) -> ExportView {
    match p {
        ExportPlan::Text(t) => ExportView::Text(t@),
        ExportPlan::Srt(j) => ExportView::Srt(j@),
        ExportPlan::Vtt(j) => ExportView::Vtt(j@),
    }
}

pub const NO_SEGMENTS_MESSAGE: &'static str = "no timestamped segments for this entry";

/// Plain text is the cleaned text when it holds any, else the raw text;
/// SRT and WebVTT need stored segments; any other format is refused.
pub open spec fn spec_plan_export(entry: HistoryEntry, format: Seq<char>) -> Result<ExportView, Seq<char>> {
    if format == "txt"@ {
        Ok(
            ExportView::Text(
                match entry.cleaned_text {
                    Some(c) => if trimmed(c@).len() > 0 {
                        c@
                    } else {
                        entry.raw_text@
                    },
                    None => entry.raw_text@,
                },
            ),
        )
    } else if format == "srt"@ || format == "vtt"@ {
        match entry.segments_json {
            None => Err(NO_SEGMENTS_MESSAGE@),
            Some(j) => if format == "srt"@ {
                Ok(ExportView::Srt(j@))
            } else {
                Ok(ExportView::Vtt(j@))
            },
        }
    } else {
        Err("unsupported export format: "@ + format)
    }
}

/// An export renders what was asked for: `srt` and `vtt` give SubRip and
/// WebVTT plans over the entry's stored segments, when it has some, and a
/// refusal otherwise; `txt` gives the cleaned text when it holds any, else
/// the raw text. A plan of one kind only comes from a request for it.
pub proof fn lemma_export_kind_follows_format(entry: HistoryEntry, format: Seq<char>)
    ensures
        format == seq!['v', 't', 't'] ==> match entry.segments_json {
            Some(j) => spec_plan_export(entry, format) == Ok::<ExportView, Seq<char>>(
                ExportView::Vtt(j@),
            ),
            None => spec_plan_export(entry, format) is Err,
        },
        format == seq!['s', 'r', 't'] ==> match entry.segments_json {
            Some(j) => spec_plan_export(entry, format) == Ok::<ExportView, Seq<char>>(
                ExportView::Srt(j@),
            ),
            None => spec_plan_export(entry, format) is Err,
        },
        spec_plan_export(entry, format) matches Ok(ExportView::Vtt(_)) ==> format == seq![
            'v',
            't',
            't',
        ],
        spec_plan_export(entry, format) matches Ok(ExportView::Srt(_)) ==> format == seq![
            's',
            'r',
            't',
        ],
        spec_plan_export(entry, format) matches Ok(ExportView::Text(_)) ==> format == seq![
            't',
            'x',
            't',
        ],
        format == seq!['t', 'x', 't'] ==> spec_plan_export(entry, format) == Ok::<
            ExportView,
            Seq<char>,
        >(
            ExportView::Text(
                match entry.cleaned_text {
                    Some(c) => if trimmed(c@).len() > 0 {
                        c@
                    } else {
                        entry.raw_text@
                    },
                    None => entry.raw_text@,
                },
            ),
        ),
{
    reveal_strlit("txt");
    reveal_strlit("srt");
    reveal_strlit("vtt");
    assert(seq!['v', 't', 't'] != seq!['s', 'r', 't'] && seq!['v', 't', 't'] != seq!['t', 'x', 't']
        && seq!['s', 'r', 't'] != seq!['t', 'x', 't']) by {
        assert(seq!['v', 't', 't'][0] != seq!['s', 'r', 't'][0]);
        assert(seq!['v', 't', 't'][0] != seq!['t', 'x', 't'][0]);
        assert(seq!['s', 'r', 't'][0] != seq!['t', 'x', 't'][0]);
    }
    assert("txt"@ =~= seq!['t', 'x', 't']);
    assert("srt"@ =~= seq!['s', 'r', 't']);
    assert("vtt"@ =~= seq!['v', 't', 't']);
}

pub fn plan_export(entry: &HistoryEntry, format: &str) -> (r: Result<ExportPlan, String>)
    ensures
        match r {
            Ok(p) => spec_plan_export(*entry, format@) == Ok::<ExportView, Seq<char>>(
                export_view(p),
            ),
            Err(e) => spec_plan_export(*entry, format@) == Err::<ExportView, Seq<char>>(e@),
        },
{
    let f = chars_of(format);
    if chars_eq_str(f.as_slice(), "txt") {
        let text = match &entry.cleaned_text {
            Some(c) => {
                let cc = chars_of(c.as_str());
                let t = trim(cc.as_slice());
                if t.len() > 0 {
                    c.clone()
                } else {
                    entry.raw_text.clone()
                }
            },
            None => entry.raw_text.clone(),
        };
        return Ok(ExportPlan::Text(text));
    }
    let srt = chars_eq_str(f.as_slice(), "srt");
    if srt || chars_eq_str(f.as_slice(), "vtt") {
        return match &entry.segments_json {
            None => Err(NO_SEGMENTS_MESSAGE.to_owned()),
            Some(j) => if srt {
                Ok(ExportPlan::Srt(j.clone()))
            } else {
                Ok(ExportPlan::Vtt(j.clone()))
            },
        };
    }
    let mut m = chars_of("unsupported export format: ");
    append_chars(&mut m, f.as_slice());
    Err(string_of(m.as_slice()))
}

/// `n` in decimal, with a minus sign when negative.
pub open spec fn signed_decimal(n: int) -> Seq<char> {
    if n < 0 {
        "-"@ + decimal_digits((-n) as nat)
    } else {
        decimal_digits(n as nat)
    }
}

fn signed_decimal_of(n: i64) -> (r: Vec<char>)
    ensures
        r@ == signed_decimal(n as int),
{
    if n < 0 {
        let magnitude: u64 = if n == i64::MIN {
            9_223_372_036_854_775_808
        } else {
            (-n) as u64
        };
        let mut out = chars_of("-");
        let d = decimal(magnitude);
        append_chars(&mut out, d.as_slice());
        out
    } else {
        decimal(n as u64)
    }
}

/// The export file's name: the source file's stem when the entry came from
/// a file with one, else `transcript-<id>`, with the extension.
pub open spec fn spec_export_file_name(entry: HistoryEntry, extension: Seq<char>) -> Seq<char> {
    let stem = match entry.source_file {
        Some(s) => path_file_stem(s@),
        None => None,
    };
    match stem {
        Some(name) => if name.len() > 0 {
            name + "."@ + extension
        } else {
            "transcript-"@ + signed_decimal(entry.id as int) + "."@ + extension
        },
        None => "transcript-"@ + signed_decimal(entry.id as int) + "."@ + extension,
    }
}

pub fn export_file_name(entry: &HistoryEntry, extension: &str) -> (r: String)
    ensures
        r@ == spec_export_file_name(*entry, extension@),
{
    let stem = match &entry.source_file {
        Some(s) => file_stem_of(s.as_str()),
        None => None,
    };
    match stem {
        Some(name) => if !name.as_str().is_empty() {
            let mut out = chars_of(name.as_str());
            append_str(&mut out, ".");
            append_str(&mut out, extension);
            return string_of(out.as_slice());
        },
        None => {},
    }
    let mut out = chars_of("transcript-");
    let id = signed_decimal_of(entry.id);
    append_chars(&mut out, id.as_slice());
    append_str(&mut out, ".");
    append_str(&mut out, extension);
    string_of(out.as_slice())
}

// ---------------------------------------------------------------------------
// Tray icon, accessibility
// ---------------------------------------------------------------------------

/// Whether the panel is dark, from the settings portal's reply to a read of
/// `org.freedesktop.appearance color-scheme` (none: the call failed). The
/// portal answers 0 for no preference, 1 for dark and 2 for light; anything
/// but an explicit light answer counts as dark.
pub fn portal_prefers_dark(reply: Option<&str>) -> (b: bool)
    ensures
        b == match reply {
            Some(out) => first_match(out@, "uint32 2"@) < 0,
            None => true,
        },
{
    match reply {
        Some(out) => {
            let oc = chars_of(out);
            let light = chars_of("uint32 2");
            find_sub(oc.as_slice(), light.as_slice()).is_none()
        },
        None => true,
    }
}

/// Which tray icon is shown.
#[derive(Debug, Clone, Copy, PartialEq, Eq, Structural)]
pub enum TrayIcon {
    IdleDark,
    IdleLight,
    RecordingDark,
    RecordingLight,
}

/// The idle icon while idle, the recording icon in every other stage, each
/// in the variant drawn for the panel's color scheme.
pub fn tray_icon(stage: Stage, dark_panel: bool) -> (r: TrayIcon)
    ensures
        r == if stage == Stage::Idle {
            if dark_panel {
                TrayIcon::IdleDark
            } else {
                TrayIcon::IdleLight
            }
        } else if dark_panel {
            TrayIcon::RecordingDark
        } else {
            TrayIcon::RecordingLight
        },
{
    match (stage, dark_panel) {
        (Stage::Idle, true) => TrayIcon::IdleDark,
        (Stage::Idle, false) => TrayIcon::IdleLight,
        (_, true) => TrayIcon::RecordingDark,
        (_, false) => TrayIcon::RecordingLight,
    }
}

/// Whether this process may synthesize keystrokes. Only macOS asks for an
/// Accessibility grant; this build's platforms need none.
pub fn accessibility_trusted() -> (b: bool)
    ensures
        b,
{
    true
}

// ---------------------------------------------------------------------------
// KWin rules file
// ---------------------------------------------------------------------------

/// Whether a key starting with `key` appears in the `[group]` section of an
/// INI-style file, scanning its lines from `in_group`.
pub open spec fn scan_group(lines: Seq<Seq<char>>, header: Seq<char>, key: Seq<char>, in_group: bool) -> bool
    decreases lines.len(),
{
    if lines.len() == 0 {
        false
    } else {
        let t = trimmed(lines[0]);
        if t.len() > 0 && t[0] == '[' {
            scan_group(lines.drop_first(), header, key, t == header)
        } else if in_group && key.is_prefix_of(t) {
            true
        } else {
            scan_group(lines.drop_first(), header, key, in_group)
        }
    }
}

pub open spec fn spec_group_has_key(contents: Seq<char>, group: Seq<char>, key: Seq<char>) -> bool {
    scan_group(split_lines(contents), "["@ + group + "]"@, key, false)
}

pub fn group_has_key(contents: &str, group: &str, key: &str) -> (b: bool)
    ensures
        b == spec_group_has_key(contents@, group@, key@),
{
    let mut header = chars_of("[");
    append_str(&mut header, group);
    append_str(&mut header, "]");
    let k = chars_of(key);
    let cs = chars_of(contents);
    let lines = lines_of(cs.as_slice());
    let ghost all = views(lines@);
    let mut in_group = false;
    let n = lines.len();
    let mut i: usize = 0;
    assert(all.skip(0) =~= all);
    while i < n
        invariant
            n == lines@.len(),
            i <= n,
            all == views(lines@),
            all == split_lines(contents@),
            header@ == "["@ + group@ + "]"@,
            k@ == key@,
            scan_group(all, header@, k@, false) == scan_group(all.skip(i as int), header@, k@, in_group),
        decreases n - i,
    {
        let ghost rest = all.skip(i as int);
        assert(rest[0] == lines@[i as int]@);
        assert(rest.drop_first() =~= all.skip(i + 1));
        let t = trim(lines[i].as_slice());
        if t.len() > 0 && t[0] == '[' {
            in_group = chars_eq(t.as_slice(), header.as_slice());
        } else if in_group && starts_with(t.as_slice(), k.as_slice()) {
            return true;
        }
        i = i + 1;
    }
    false
}

// ---------------------------------------------------------------------------
// The KWin rule that keeps the floating capsule above other windows
// ---------------------------------------------------------------------------

pub const RULE_GROUP: &'static str = "pickscribe-float-keep-above";

pub const FLOAT_TITLE: &'static str = "PickScribe Float";

pub const WM_CLASS: &'static str = "pickscribe";

/// Any KDE Wayland session needs the rule, whether the app runs natively on
/// Wayland or through its XWayland fallback: neither GTK's Wayland backend
/// nor the X11 hints keep the capsule out of KWin's task switcher.
pub open spec fn spec_float_rule_wanted(session_type: Option<Seq<char>>, desktop: Seq<char>) -> bool {
    &&& session_type == Some("wayland"@)
    &&& first_match(str_uppercase(desktop), "KDE"@) >= 0
}

/// What to do about the rule.
#[derive(Debug, Clone, Copy, PartialEq, Eq, Structural)]
pub enum FloatRuleStep {
    /// Nothing: not wanted here, or the current revision is installed.
    Skip,
    /// Write the rule's settings; `register` adds its group to the list of
    /// rules, which it is not in yet.
    Install { register: bool },
}

pub open spec fn spec_float_rule_step(
    session_type: Option<Seq<char>>,
    desktop: Seq<char>,
    existing_rules: Seq<char>,
) -> FloatRuleStep {
    let registered = first_match(existing_rules, RULE_GROUP@) >= 0;
    if !spec_float_rule_wanted(session_type, desktop) {
        FloatRuleStep::Skip
    } else if registered && spec_group_has_key(existing_rules, RULE_GROUP@, "positionrule"@) {
        FloatRuleStep::Skip
    } else {
        FloatRuleStep::Install { register: !registered }
    }
}

fn opt_str_is(value: Option<&str>, expected: &str) -> (b: bool)
    ensures
        b == (match value {
            Some(v) => v@ == expected@,
            None => false,
        }),
{
    match value {
        Some(v) => chars_eq_str(chars_of(v).as_slice(), expected),
        None => false,
    }
}

/// Given the session type and desktop from the environment
/// and the current contents of `kwinrulesrc`, whether the rule is to be
/// written; a rule group that already has `positionrule` is the current
/// revision.
pub fn float_rule_step(
    session_type: Option<&str>,
    desktop: &str,
    existing_rules: &str,
) -> (r: FloatRuleStep)
    ensures
        r == spec_float_rule_step(
            opt_str_view(session_type),
            desktop@,
            existing_rules@,
        ),
{
    let upper = uppercase_str(desktop);
    let uc = chars_of(upper.as_str());
    let kde = chars_of("KDE");
    let wanted = opt_str_is(session_type, "wayland") && find_sub(uc.as_slice(), kde.as_slice()).is_some();
    if !wanted {
        return FloatRuleStep::Skip;
    }
    let ec = chars_of(existing_rules);
    let gc = chars_of(RULE_GROUP);
    let registered = find_sub(ec.as_slice(), gc.as_slice()).is_some();
    if registered && group_has_key(existing_rules, RULE_GROUP, "positionrule") {
        return FloatRuleStep::Skip;
    }
    FloatRuleStep::Install { register: !registered }
}

pub open spec fn opt_str_view(o: Option<&str>) -> Option<Seq<char>> {
    match o {
        Some(s) => Some(s@),
        None => None,
    }
}

/// The settings of the rule: match the window whose class contains
/// `pickscribe` and whose title is exactly the capsule's; force it above
/// other windows, never focused, out of the taskbar, pager and switcher;
/// place it at 64,64 initially only, so it stays draggable.
pub open spec fn spec_float_rule_settings() -> Seq<(Seq<char>, Seq<char>)> {
    seq![
        ("Description"@, "PickScribe float capsule (managed by PickScribe)"@),
        ("wmclass"@, WM_CLASS@),
        ("wmclassmatch"@, "2"@),
        ("title"@, FLOAT_TITLE@),
        ("titlematch"@, "1"@),
        ("above"@, "true"@),
        ("aboverule"@, "2"@),
        ("acceptfocus"@, "false"@),
        ("acceptfocusrule"@, "2"@),
        ("skiptaskbar"@, "true"@),
        ("skiptaskbarrule"@, "2"@),
        ("skippager"@, "true"@),
        ("skippagerrule"@, "2"@),
        ("skipswitcher"@, "true"@),
        ("skipswitcherrule"@, "2"@),
        ("position"@, "64,64"@),
        ("positionrule"@, "3"@),
    ]
}

pub open spec fn pair_views(v: Seq<(String, String)>) -> Seq<(Seq<char>, Seq<char>)> {
    v.map_values(|p: (String, String)| (p.0@, p.1@))
}

fn setting(key: &str, value: &str) -> (p: (String, String))
    ensures
        p.0@ == key@,
        p.1@ == value@,
{
    (key.to_owned(), value.to_owned())
}

pub fn float_rule_settings() -> (r: Vec<(String, String)>)
    ensures
        pair_views(r@) == spec_float_rule_settings(),
{
    let r = vec![
        setting("Description", "PickScribe float capsule (managed by PickScribe)"),
        setting("wmclass", WM_CLASS),
        setting("wmclassmatch", "2"),
        setting("title", FLOAT_TITLE),
        setting("titlematch", "1"),
        setting("above", "true"),
        setting("aboverule", "2"),
        setting("acceptfocus", "false"),
        setting("acceptfocusrule", "2"),
        setting("skiptaskbar", "true"),
        setting("skiptaskbarrule", "2"),
        setting("skippager", "true"),
        setting("skippagerrule", "2"),
        setting("skipswitcher", "true"),
        setting("skipswitcherrule", "2"),
        setting("position", "64,64"),
        setting("positionrule", "3"),
    ];
    assert(pair_views(r@) =~= spec_float_rule_settings());
    r
}

/// The list of rules in `[General]` once the rule's group is added to the
/// list currently set (`existing`, as read, surrounding space ignored).
pub open spec fn spec_registered_rules(existing: Seq<char>) -> Seq<char> {
    if trimmed(existing).len() == 0 {
        RULE_GROUP@
    } else {
        trimmed(existing) + ","@ + RULE_GROUP@
    }
}

pub fn registered_rules(existing: &str) -> (r: String)
    ensures
        r@ == spec_registered_rules(existing@),
{
    let ec = chars_of(existing);
    let mut t = trim(ec.as_slice());
    if t.len() == 0 {
        return RULE_GROUP.to_owned();
    }
    append_str(&mut t, ",");
    append_str(&mut t, RULE_GROUP);
    string_of(t.as_slice())
}

// ---------------------------------------------------------------------------
// Size of the floating capsule window
// ---------------------------------------------------------------------------

pub const FLOAT_CAPSULE_WIDTH: i32 = 204;

pub const FLOAT_CAPSULE_HEIGHT: i32 = 56;

/// Room around the capsule for its glow.
pub const FLOAT_GLOW_MARGIN: i32 = 24;

pub const FLOAT_WINDOW_WIDTH: i32 = FLOAT_CAPSULE_WIDTH + 2 * FLOAT_GLOW_MARGIN;

pub const FLOAT_WINDOW_HEIGHT: i32 = FLOAT_CAPSULE_HEIGHT + 2 * FLOAT_GLOW_MARGIN;

/// The largest extra size the geometry hints are ever grown by.
pub const MAX_SIZE_COMPENSATION: i32 = 200;

pub open spec fn clamp_compensation(c: int) -> int {
    if c < 0 {
        0
    } else if c > MAX_SIZE_COMPENSATION {
        MAX_SIZE_COMPENSATION as int
    } else {
        c
    }
}

/// One round of the size feedback loop: the compensation kept for the next
/// round, and the size to hint and resize the window to, if any.
#[derive(Debug, Clone, Copy, PartialEq, Eq, Structural)]
pub struct WindowSize {
    pub width: i32,
    pub height: i32,
}

#[derive(Debug, Clone, Copy, PartialEq, Eq, Structural)]
pub struct SizeHintStep {
    pub compensation_w: i32,
    pub compensation_h: i32,
    pub hint: Option<WindowSize>,
}

/// The window manager may count invisible decoration margins into the size
/// hints, so the content settles too small. Given the compensation so far
/// and the content size measured, grow the hints by the error (kept between
/// zero and [`MAX_SIZE_COMPENSATION`]); once the content has the target
/// size nothing changes.
pub fn float_size_step(compensation_w: i32, compensation_h: i32, content_w: i32, content_h: i32) -> (r: SizeHintStep)
    requires
        i32::MIN <= compensation_w + FLOAT_WINDOW_WIDTH <= i32::MAX,
        i32::MIN <= compensation_h + FLOAT_WINDOW_HEIGHT <= i32::MAX,
        i32::MIN <= compensation_w + FLOAT_WINDOW_WIDTH - content_w <= i32::MAX,
        i32::MIN <= compensation_h + FLOAT_WINDOW_HEIGHT - content_h <= i32::MAX,
    ensures
        content_w == FLOAT_WINDOW_WIDTH && content_h == FLOAT_WINDOW_HEIGHT ==> r == (SizeHintStep {
            compensation_w,
            compensation_h,
            hint: None,
        }),
        !(content_w == FLOAT_WINDOW_WIDTH && content_h == FLOAT_WINDOW_HEIGHT) ==> {
            &&& r.compensation_w == clamp_compensation(compensation_w + FLOAT_WINDOW_WIDTH - content_w)
            &&& r.compensation_h == clamp_compensation(compensation_h + FLOAT_WINDOW_HEIGHT - content_h)
            &&& r.hint == Some(
                WindowSize {
                    width: (FLOAT_WINDOW_WIDTH + r.compensation_w) as i32,
                    height: (FLOAT_WINDOW_HEIGHT + r.compensation_h) as i32,
                },
            )
        },
{
    if content_w == FLOAT_WINDOW_WIDTH && content_h == FLOAT_WINDOW_HEIGHT {
        return SizeHintStep { compensation_w, compensation_h, hint: None };
    }
    let w = clamp_i32(compensation_w + FLOAT_WINDOW_WIDTH - content_w);
    let h = clamp_i32(compensation_h + FLOAT_WINDOW_HEIGHT - content_h);
    SizeHintStep {
        compensation_w: w,
        compensation_h: h,
        hint: Some(WindowSize { width: FLOAT_WINDOW_WIDTH + w, height: FLOAT_WINDOW_HEIGHT + h }),
    }
}

fn clamp_i32(c: i32) -> (r: i32)
    ensures
        r == clamp_compensation(c as int),
{
    if c < 0 {
        0
    } else if c > MAX_SIZE_COMPENSATION {
        MAX_SIZE_COMPENSATION
    } else {
        c
    }
}

} // verus!
