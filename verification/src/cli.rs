//! Decisions of the `pickscribe` command-line program that do not touch the
//! system: reading whisper's text, the kernel's process status line and
//! `git ls-remote`, quoting for shells and env files, the options handed on
//! to the worker and the cleanup program, when an incremental worker's text
//! can replace a full transcription, and when whisper.cpp needs updating.
use vstd::prelude::*;
use crate::segments::{
    opt_view,
    has_text, is_non_speech_marker, merged_text, non_speech_marker, raw_texts, sort_by_key,
    seg_views, RecordingSession,
};
use crate::cleanup::{segment_cleanup_is_safe, spec_segment_cleanup_is_safe};
use crate::paths::{file_name_of, path_file_name};
use crate::recorder::string_views;
use crate::stt::{strip_leading_timestamp, strip_timestamp};
use crate::text::{
    append_chars, append_str, ascii_lowercase_seq, chars_eq, chars_eq_str, chars_of, find_last_sub,
    first_word, join, last_match, lines_of, parse_unsigned, replace_all, replace_char,
    replace_str, replace_sub, slice_to_vec, spec_parse_unsigned, split_lines, split_whitespace,
    starts_with, str_lines, str_lines_of, string_of, trim, trim_bounds, trim_start, trimmed, views,
    words,
};

verus! {

broadcast use vstd::string::group_string_axioms;

// ---------------------------------------------------------------------------
// Whisper text
// ---------------------------------------------------------------------------

/// What one line of whisper's text output contributes to a dictation.
pub open spec fn dictation_line(line: Seq<char>) -> Option<Seq<char>> {
    let t = strip_timestamp(trimmed(line));
    if t.len() == 0 || is_non_speech_marker(trimmed(t)) {
        None
    } else {
        Some(t)
    }
}

pub open spec fn dictation_parts(lines: Seq<Seq<char>>) -> Seq<Seq<char>>
    decreases lines.len(),
{
    if lines.len() == 0 {
        Seq::empty()
    } else {
        let rest = dictation_parts(lines.drop_last());
        match dictation_line(lines.last()) {
            Some(t) => rest.push(t),
            None => rest,
        }
    }
}

fn dictation_line_of(line: &[char]) -> (r: Option<Vec<char>>)
    ensures
        match r {
            Some(t) => dictation_line(line@) == Some(t@),
            None => dictation_line(line@) is None,
        },
{
    let t = trim(line);
    let t = strip_leading_timestamp(t.as_slice());
    if t.len() == 0 {
        return None;
    }
    let tt = trim(t.as_slice());
    if non_speech_marker(tt.as_slice()) {
        None
    } else {
        Some(t)
    }
}

/// Whisper's text without timestamps, blank lines and whole-line markers
/// such as `[BLANK_AUDIO]`, the lines joined by spaces.
pub fn cleanup_transcript(text: &str) -> (r: String)
    ensures
        r@ == join(dictation_parts(split_lines(text@)), " "@),
{
    let cs = chars_of(text);
    let lines = lines_of(cs.as_slice());
    let mut out: Vec<char> = Vec::new();
    let mut count: usize = 0;
    let ghost parts: Seq<Seq<char>> = Seq::empty();
    for i in 0..lines.len()
        invariant
            views(lines@) == split_lines(text@),
            parts == dictation_parts(views(lines@).take(i as int)),
            out@ == join(parts, " "@),
            count == parts.len(),
            count <= i,
    {
        assert(views(lines@).take(i + 1).drop_last() =~= views(lines@).take(i as int));
        assert(views(lines@).take(i + 1).last() == lines@[i as int]@);
        match dictation_line_of(lines[i].as_slice()) {
            Some(t) => {
                proof {
                    assert(parts.push(t@).drop_last() =~= parts);
                }
                if count > 0 {
                    append_str(&mut out, " ");
                }
                append_chars(&mut out, t.as_slice());
                proof {
                    parts = parts.push(t@);
                }
                count = count + 1;
            },
            None => {},
        }
    }
    assert(views(lines@).take(lines@.len() as int) =~= views(lines@));
    string_of(out.as_slice())
}

// ---------------------------------------------------------------------------
// Process status, git output, quoting
// ---------------------------------------------------------------------------

/// The start time (field 22) of a `/proc/<pid>/stat` line: the 20th field
/// after the command name, which ends at the last `") "`.
pub open spec fn spec_start_ticks(stat: Seq<char>) -> Option<nat> {
    let i = last_match(stat, ") "@);
    if i < 0 {
        None
    } else {
        let ws = words(stat.skip(i + ") "@.len()));
        if ws.len() > 19 {
            spec_parse_unsigned(ws[19], u64::MAX as nat)
        } else {
            None
        }
    }
}

pub fn parse_process_start_ticks(stat: &str) -> (r: Option<u64>)
    ensures
        match r {
            Some(v) => spec_start_ticks(stat@) == Some(v as nat),
            None => spec_start_ticks(stat@) is None,
        },
{
    let cs = chars_of(stat);
    let n = cs.len();
    let pat = chars_of(") ");
    let i = match find_last_sub(cs.as_slice(), pat.as_slice()) {
        Some(i) => i,
        None => return None,
    };
    let rest = slice_to_vec(cs.as_slice(), i + pat.len(), n);
    assert(rest@ =~= stat@.skip(i + ") "@.len()));
    let ws = split_whitespace(rest.as_slice());
    if ws.len() > 19 {
        assert(views(ws@)[19] == ws@[19]@);
        parse_unsigned(ws[19].as_slice(), u64::MAX)
    } else {
        None
    }
}

/// The commit hash on the first line of `git ls-remote` output.
pub fn parse_ls_remote_head(output: &str) -> (r: Option<String>)
    ensures
        match r {
            Some(h) => words(output@).len() > 0 && h@ == words(output@)[0],
            None => words(output@).len() == 0,
        },
{
    let cs = chars_of(output);
    match first_word(cs.as_slice()) {
        Some(w) => Some(string_of(w.as_slice())),
        None => None,
    }
}

/// A value quoted for a POSIX shell: inside single quotes, each single
/// quote written as `'\''`.
pub open spec fn spec_shell_escape(value: Seq<char>) -> Seq<char> {
    if value.len() == 0 {
        "''"@
    } else {
        "'"@ + replace_char(value, '\'', "'\\''"@) + "'"@
    }
}

pub fn shell_escape(value: &str) -> (r: String)
    ensures
        r@ == spec_shell_escape(value@),
{
    if value.is_empty() {
        return "''".to_owned();
    }
    let cs = chars_of(value);
    let mut out = chars_of("'");
    let inner = replace_all(cs.as_slice(), '\'', "'\\''");
    append_chars(&mut out, inner.as_slice());
    append_str(&mut out, "'");
    string_of(out.as_slice())
}

/// A value for the inside of a double-quoted env file assignment:
/// backslashes doubled, then double quotes escaped.
pub open spec fn spec_escape_env_double_quoted(value: Seq<char>) -> Seq<char> {
    replace_char(replace_char(value, '\\', "\\\\"@), '"', "\\\""@)
}

pub fn escape_env_double_quoted(value: &str) -> (r: String)
    ensures
        r@ == spec_escape_env_double_quoted(value@),
{
    let cs = chars_of(value);
    let a = replace_all(cs.as_slice(), '\\', "\\\\");
    let b = replace_all(a.as_slice(), '"', "\\\"");
    string_of(b.as_slice())
}

/// An environment flag is on when its trimmed value is `1`, `true`, `yes`
/// or `on`, in any ASCII case.
pub open spec fn spec_flag_on(value: Option<Seq<char>>) -> bool {
    match value {
        Some(v) => {
            let l = ascii_lowercase_seq(trimmed(v));
            l == "1"@ || l == "true"@ || l == "yes"@ || l == "on"@
        },
        None => false,
    }
}

pub fn env_flag_value(value: Option<&str>) -> (b: bool)
    ensures
        b == spec_flag_on(match value {
            Some(v) => Some(v@),
            None => None,
        }),
{
    match value {
        Some(v) => {
            let cs = chars_of(v);
            let t = trim(cs.as_slice());
            let l = crate::text::ascii_lowercase(t.as_slice());
            chars_eq_str(l.as_slice(), "1") || chars_eq_str(l.as_slice(), "true")
                || chars_eq_str(l.as_slice(), "yes") || chars_eq_str(l.as_slice(), "on")
        },
        None => false,
    }
}

/// Live cleanup of incremental segments runs only when it was asked for,
/// LLM cleanup is on, and the text is not pasted.
pub fn incremental_segment_cleanup_enabled(
    no_llm: bool,
    stdout_only: bool,
    no_paste: bool,
    incremental_cleanup: bool,
    cleanup_flag: bool,
) -> (b: bool)
    ensures
        b == (!no_llm && (stdout_only || no_paste) && (incremental_cleanup || cleanup_flag)),
{
    !no_llm && (stdout_only || no_paste) && (incremental_cleanup || cleanup_flag)
}

// ---------------------------------------------------------------------------
// The incremental worker's result
// ---------------------------------------------------------------------------

/// What the incremental worker last wrote about its session.
#[derive(Debug, Clone)]
pub struct IncrementalWorkerOutput {
    pub session: RecordingSession,
    pub complete: bool,
    pub fallback_required: bool,
    pub error: Option<String>,
    pub updated_unix_secs: u64,
}

/// The incremental text replaces a full transcription only when the output
/// is for this session, complete, needs no fallback, and holds text.
pub open spec fn spec_final_incremental_text(session_id: Seq<char>, output: IncrementalWorkerOutput) -> Option<Seq<char>> {
    let text = merged_text(raw_texts(sort_by_key(seg_views(output.session.segments@))));
    if output.session.id@ != session_id || !output.complete || output.fallback_required {
        None
    } else if trimmed(text).len() == 0 {
        None
    } else {
        Some(text)
    }
}

pub fn final_incremental_text(session_id: &str, output: &IncrementalWorkerOutput) -> (r: Option<String>)
    ensures
        match r {
            Some(t) => spec_final_incremental_text(session_id@, *output) == Some(t@),
            None => spec_final_incremental_text(session_id@, *output) is None,
        },
{
    let id = chars_of(output.session.id.as_str());
    if !crate::text::chars_eq_str(id.as_slice(), session_id) || !output.complete
        || output.fallback_required {
        return None;
    }
    let text = output.session.final_raw_text();
    let tc = chars_of(text.as_str());
    let tt = trim(tc.as_slice());
    if tt.len() == 0 {
        None
    } else {
        Some(text)
    }
}

// ---------------------------------------------------------------------------
// Custom speech-to-text command, whisper update bookkeeping
// ---------------------------------------------------------------------------

/// A custom speech-to-text command line: `{audio}`, `{model}` and
/// `{output}` replaced, in that order, by the shell-quoted paths.
pub open spec fn spec_expand_stt_command(
    template: Seq<char>,
    audio: Seq<char>,
    model: Seq<char>,
    output: Seq<char>,
) -> Seq<char> {
    replace_sub(
        replace_sub(
            replace_sub(template, "{audio}"@, spec_shell_escape(audio)),
            "{model}"@,
            spec_shell_escape(model),
        ),
        "{output}"@,
        spec_shell_escape(output),
    )
}

pub fn expand_stt_command(template: &str, audio: &str, model: &str, output: &str) -> (r: String)
    ensures
        r@ == spec_expand_stt_command(template@, audio@, model@, output@),
{
    let t = chars_of(template);
    let a = chars_of(shell_escape(audio).as_str());
    let m = chars_of(shell_escape(model).as_str());
    let o = chars_of(shell_escape(output).as_str());
    let step1 = replace_str(t.as_slice(), "{audio}", a.as_slice());
    let step2 = replace_str(step1.as_slice(), "{model}", m.as_slice());
    let step3 = replace_str(step2.as_slice(), "{output}", o.as_slice());
    string_of(step3.as_slice())
}

/// An automatic whisper update is due when checks are not rate-limited,
/// when no earlier check is on record, or when the interval has passed.
pub open spec fn spec_update_check_due(interval_hours: u64, last_checked: Option<u64>, now: u64) -> bool {
    if interval_hours == 0 {
        true
    } else {
        match last_checked {
            None => true,
            Some(last) => crate::incremental::sat_sub(now, last) >= crate::audio::sat_mul(
                crate::audio::sat_mul(interval_hours, 60),
                60,
            ),
        }
    }
}

pub fn update_check_due(interval_hours: u64, last_checked: Option<u64>, now: u64) -> (b: bool)
    ensures
        b == spec_update_check_due(interval_hours, last_checked, now),
{
    if interval_hours == 0 {
        return true;
    }
    match last_checked {
        None => true,
        Some(last) => {
            let interval = crate::audio::saturating_mul(
                crate::audio::saturating_mul(interval_hours, 60),
                60,
            );
            now.saturating_sub(last) >= interval
        },
    }
}

/// Lines of the env file that the whisper settings replace.
pub open spec fn env_line_kept(line: Seq<char>) -> bool {
    let t = trim_start(line);
    let t = if "export "@.is_prefix_of(t) {
        t.skip("export "@.len() as int)
    } else {
        t
    };
    !"PICKSCRIBE_LANGUAGE="@.is_prefix_of(t) && !"PICKSCRIBE_WHISPER_MODEL="@.is_prefix_of(t)
        && !"PICKSCRIBE_WHISPER_MODEL_NAME="@.is_prefix_of(t)
}

pub open spec fn kept_env_lines(lines: Seq<Seq<char>>) -> Seq<Seq<char>>
    decreases lines.len(),
{
    if lines.len() == 0 {
        Seq::empty()
    } else {
        let rest = kept_env_lines(lines.drop_last());
        if env_line_kept(lines.last()) {
            rest.push(lines.last())
        } else {
            rest
        }
    }
}

/// The env file after a whisper update: earlier whisper settings removed,
/// a blank line after any other content, then the language, the model
/// path and the model name, each double-quoted.
pub open spec fn spec_updated_env_file(existing: Seq<char>, model_path: Seq<char>, model_name: Seq<char>) -> Seq<char> {
    let kept = kept_env_lines(str_lines(existing));
    let kept = if kept.len() > 0 && trimmed(kept.last()).len() > 0 {
        kept.push(Seq::empty())
    } else {
        kept
    };
    join(
        kept + seq![
            "PICKSCRIBE_LANGUAGE=\"auto\""@,
            "PICKSCRIBE_WHISPER_MODEL=\""@ + spec_escape_env_double_quoted(model_path) + "\""@,
            "PICKSCRIBE_WHISPER_MODEL_NAME=\""@ + spec_escape_env_double_quoted(model_name) + "\""@,
        ],
        "\n"@,
    ) + "\n"@
}

fn env_line_is_kept(line: &[char]) -> (b: bool)
    ensures
        b == env_line_kept(line@),
{
    let (start, _) = trim_bounds(line);
    let t = slice_to_vec(line, start, line.len());
    assert(t@ =~= line@.skip(start as int));
    let export = chars_of("export ");
    let t = if starts_with(t.as_slice(), export.as_slice()) {
        let r = slice_to_vec(t.as_slice(), export.len(), t.len());
        assert(r@ =~= t@.skip(export@.len() as int));
        r
    } else {
        t
    };
    let a = chars_of("PICKSCRIBE_LANGUAGE=");
    let b = chars_of("PICKSCRIBE_WHISPER_MODEL=");
    let c = chars_of("PICKSCRIBE_WHISPER_MODEL_NAME=");
    !starts_with(t.as_slice(), a.as_slice()) && !starts_with(t.as_slice(), b.as_slice())
        && !starts_with(t.as_slice(), c.as_slice())
}

fn push_line(out: &mut Vec<Vec<char>>, line: Vec<char>)
    ensures
        views(final(out)@) == views(old(out)@).push(line@),
{
    let ghost before = views(out@);
    let ghost lv = line@;
    out.push(line);
    assert(views(out@) =~= before.push(lv));
}

pub fn updated_env_file(existing: &str, model_path: &str, model_name: &str) -> (r: String)
    ensures
        r@ == spec_updated_env_file(existing@, model_path@, model_name@),
{
    let cs = chars_of(existing);
    let lines = str_lines_of(cs.as_slice());
    let mut kept: Vec<Vec<char>> = Vec::new();
    for i in 0..lines.len()
        invariant
            views(lines@) == str_lines(existing@),
            views(kept@) == kept_env_lines(views(lines@).take(i as int)),
    {
        assert(views(lines@).take(i + 1).drop_last() =~= views(lines@).take(i as int));
        assert(views(lines@).take(i + 1).last() == lines@[i as int]@);
        if env_line_is_kept(lines[i].as_slice()) {
            let copy = slice_to_vec(lines[i].as_slice(), 0, lines[i].len());
            assert(copy@ =~= lines@[i as int]@);
            push_line(&mut kept, copy);
        }
    }
    assert(views(lines@).take(lines@.len() as int) =~= views(lines@));
    let k = kept.len();
    if k > 0 {
        assert(views(kept@).last() == kept@[k - 1]@);
        let last = trim(kept[k - 1].as_slice());
        if last.len() > 0 {
            push_line(&mut kept, Vec::new());
        }
    }
    let ghost base = views(kept@);
    push_line(&mut kept, chars_of("PICKSCRIBE_LANGUAGE=\"auto\""));
    let mut mline = chars_of("PICKSCRIBE_WHISPER_MODEL=\"");
    let esc_path = escape_env_double_quoted(model_path);
    append_str(&mut mline, esc_path.as_str());
    append_str(&mut mline, "\"");
    push_line(&mut kept, mline);
    let mut nline = chars_of("PICKSCRIBE_WHISPER_MODEL_NAME=\"");
    let esc_name = escape_env_double_quoted(model_name);
    append_str(&mut nline, esc_name.as_str());
    append_str(&mut nline, "\"");
    push_line(&mut kept, nline);
    assert(views(kept@) =~= base + seq![
        "PICKSCRIBE_LANGUAGE=\"auto\""@,
        "PICKSCRIBE_WHISPER_MODEL=\""@ + spec_escape_env_double_quoted(model_path@) + "\""@,
        "PICKSCRIBE_WHISPER_MODEL_NAME=\""@ + spec_escape_env_double_quoted(model_name@) + "\""@,
    ]);
    let mut out = crate::text::join_words(&kept, "\n");
    append_str(&mut out, "\n");
    string_of(out.as_slice())
}

// ---------------------------------------------------------------------------
// Options handed on to the programs a dictation starts
// ---------------------------------------------------------------------------

/// The options of a dictation run that the incremental worker and the final
/// cleanup step are started with.
#[derive(Debug, Clone, Default)]
pub struct ForwardedOptions {
    pub whisper_model: Option<String>,
    pub language: Option<String>,
    pub stt_command: Option<String>,
    pub cleanup_command: Option<String>,
    pub no_llm: bool,
    pub no_copy: bool,
    pub no_paste: bool,
    pub print: bool,
    pub stdout_only: bool,
    pub keep_audio: bool,
    pub incremental_cleanup: bool,
}

pub open spec fn valued_flag(flag: Seq<char>, value: Option<String>) -> Seq<Seq<char>> {
    match value {
        Some(v) => seq![flag, v@],
        None => Seq::empty(),
    }
}

pub open spec fn switch_flag(flag: Seq<char>, on: bool) -> Seq<Seq<char>> {
    if on {
        seq![flag]
    } else {
        Seq::empty()
    }
}

/// The incremental worker gets the model, language and commands chosen for
/// the run, and the switches that change what it produces.
pub open spec fn spec_worker_args(o: ForwardedOptions) -> Seq<Seq<char>> {
    valued_flag("--whisper-model"@, o.whisper_model) + valued_flag("--language"@, o.language)
        + valued_flag("--stt-command"@, o.stt_command) + valued_flag(
        "--cleanup-command"@,
        o.cleanup_command,
    ) + switch_flag("--no-llm"@, o.no_llm) + switch_flag("--stdout-only"@, o.stdout_only)
        + switch_flag("--no-paste"@, o.no_paste) + switch_flag(
        "--incremental-cleanup"@,
        o.incremental_cleanup,
    ) + switch_flag("--keep-audio"@, o.keep_audio)
}

/// The cleanup step prints only, when output goes to stdout alone; else it
/// is told which deliveries to skip and whether to print too.
pub open spec fn spec_final_cleanup_args(o: ForwardedOptions) -> Seq<Seq<char>> {
    (if o.stdout_only {
        seq!["--stdout-only"@]
    } else {
        switch_flag("--no-copy"@, o.no_copy) + switch_flag("--no-paste"@, o.no_paste) + switch_flag(
            "--print"@,
            o.print,
        )
    }) + switch_flag("--no-llm"@, o.no_llm)
}

fn push_valued(args: &mut Vec<String>, flag: &str, value: &Option<String>)
    ensures
        string_views(final(args)@) == string_views(old(args)@) + valued_flag(flag@, *value),
{
    let ghost before = string_views(args@);
    if let Some(v) = value {
        args.push(flag.to_owned());
        args.push(v.clone());
        assert(string_views(args@) =~= before + valued_flag(flag@, *value));
    } else {
        assert(string_views(args@) =~= before + valued_flag(flag@, *value));
    }
}

fn push_switch(args: &mut Vec<String>, flag: &str, on: bool)
    ensures
        string_views(final(args)@) == string_views(old(args)@) + switch_flag(flag@, on),
{
    let ghost before = string_views(args@);
    if on {
        args.push(flag.to_owned());
    }
    assert(string_views(args@) =~= before + switch_flag(flag@, on));
}

pub fn worker_args(options: &ForwardedOptions) -> (r: Vec<String>)
    ensures
        string_views(r@) == spec_worker_args(*options),
{
    let mut args: Vec<String> = Vec::new();
    assert(string_views(args@) =~= Seq::<Seq<char>>::empty());
    push_valued(&mut args, "--whisper-model", &options.whisper_model);
    push_valued(&mut args, "--language", &options.language);
    push_valued(&mut args, "--stt-command", &options.stt_command);
    push_valued(&mut args, "--cleanup-command", &options.cleanup_command);
    push_switch(&mut args, "--no-llm", options.no_llm);
    push_switch(&mut args, "--stdout-only", options.stdout_only);
    push_switch(&mut args, "--no-paste", options.no_paste);
    push_switch(&mut args, "--incremental-cleanup", options.incremental_cleanup);
    push_switch(&mut args, "--keep-audio", options.keep_audio);
    assert(string_views(args@) =~= spec_worker_args(*options));
    args
}

pub fn final_cleanup_args(options: &ForwardedOptions) -> (r: Vec<String>)
    ensures
        string_views(r@) == spec_final_cleanup_args(*options),
{
    let mut args: Vec<String> = Vec::new();
    assert(string_views(args@) =~= Seq::<Seq<char>>::empty());
    if options.stdout_only {
        push_switch(&mut args, "--stdout-only", true);
    } else {
        push_switch(&mut args, "--no-copy", options.no_copy);
        push_switch(&mut args, "--no-paste", options.no_paste);
        push_switch(&mut args, "--print", options.print);
    }
    push_switch(&mut args, "--no-llm", options.no_llm);
    assert(string_views(args@) =~= spec_final_cleanup_args(*options));
    args
}

// ---------------------------------------------------------------------------
// Cleaning one segment with the cleanup program
// ---------------------------------------------------------------------------

pub const LOCAL_ONLY_CUSTOM_CLEANUP_MESSAGE: &'static str =
    "local-only mode blocks custom CLI segment cleanup commands";

/// The program is the bundled cleanup, found on the path rather than named
/// by the user, so it understands `--segment`.
pub open spec fn is_bundled_cleanup(custom_command: bool, command: Seq<char>) -> bool {
    !custom_command && (path_file_name(command) == Some("pickscribe-cleanup"@) || path_file_name(
        command,
    ) == Some("pickscribe-cleanup-gui"@))
}

pub open spec fn spec_segment_cleanup_args(
    custom_command: bool,
    command: Seq<char>,
    local_only: bool,
    no_llm: bool,
) -> Seq<Seq<char>> {
    seq!["--stdout-only"@] + switch_flag("--segment"@, is_bundled_cleanup(custom_command, command))
        + switch_flag("--local-only"@, local_only) + switch_flag("--no-llm"@, no_llm)
}

/// The arguments the cleanup program `command` is started with to clean one
/// segment; local-only mode refuses a cleanup command the user named.
pub fn segment_cleanup_args(custom_command: bool, command: &str, local_only: bool, no_llm: bool) -> (r:
    Result<Vec<String>, String>)
    ensures
        local_only && custom_command ==> r is Err && r->Err_0@ == LOCAL_ONLY_CUSTOM_CLEANUP_MESSAGE@,
        !(local_only && custom_command) ==> r is Ok && string_views(r->Ok_0@)
            == spec_segment_cleanup_args(custom_command, command@, local_only, no_llm),
{
    let bundled = if custom_command {
        false
    } else {
        match file_name_of(command) {
            Some(name) => chars_eq_str(chars_of(name.as_str()).as_slice(), "pickscribe-cleanup")
                || chars_eq_str(chars_of(name.as_str()).as_slice(), "pickscribe-cleanup-gui"),
            None => false,
        }
    };
    proof {
        reveal_strlit("pickscribe-cleanup");
        reveal_strlit("pickscribe-cleanup-gui");
    }
    assert(bundled == is_bundled_cleanup(custom_command, command@));
    if local_only && custom_command {
        return Err(LOCAL_ONLY_CUSTOM_CLEANUP_MESSAGE.to_owned());
    }
    let mut args: Vec<String> = Vec::new();
    args.push("--stdout-only".to_owned());
    push_switch(&mut args, "--segment", bundled);
    push_switch(&mut args, "--local-only", local_only);
    push_switch(&mut args, "--no-llm", no_llm);
    assert(string_views(args@) =~= spec_segment_cleanup_args(
        custom_command,
        command@,
        local_only,
        no_llm,
    ));
    Ok(args)
}

/// The cleanup program's output is taken for the segment only when,
/// trimmed, it is not empty, differs from the trimmed transcript, and
/// keeps the transcript's words.
pub open spec fn spec_accepted_segment_cleanup(transcript: Seq<char>, output: Seq<char>) -> Option<
    Seq<char>,
> {
    let cleaned = trimmed(output);
    if cleaned.len() > 0 && cleaned != trimmed(transcript) && spec_segment_cleanup_is_safe(
        transcript,
        cleaned,
    ) {
        Some(cleaned)
    } else {
        None
    }
}

pub fn accepted_segment_cleanup(transcript: &str, output: &str) -> (r: Option<String>)
    ensures
        opt_view(r) == spec_accepted_segment_cleanup(transcript@, output@),
{
    let oc = chars_of(output);
    let cleaned = trim(oc.as_slice());
    let tc = chars_of(transcript);
    let tt = trim(tc.as_slice());
    if cleaned.len() == 0 || chars_eq(cleaned.as_slice(), tt.as_slice()) {
        return None;
    }
    let cs = string_of(cleaned.as_slice());
    if segment_cleanup_is_safe(transcript, cs.as_str()) {
        Some(cs)
    } else {
        None
    }
}

// ---------------------------------------------------------------------------
// Waiting for the incremental worker's final text
// ---------------------------------------------------------------------------

/// What to do after one look at the incremental worker's output file.
#[derive(Debug, Clone, PartialEq, Eq)]
pub enum WorkerPoll {
    /// The worker's text replaces a full transcription.
    Done(String),
    /// Stop waiting: cancel the worker and transcribe the whole recording.
    GiveUp,
    /// Look again after a short sleep.
    KeepWaiting,
}

/// `output` is what the output file held (none: not written yet),
/// `read_failed` whether reading it failed, and `worker_gone` whether the
/// worker process is known to have exited.
pub fn incremental_poll(
    session_id: &str,
    output: Option<&IncrementalWorkerOutput>,
    read_failed: bool,
    worker_gone: bool,
) -> (r: WorkerPoll)
    ensures
        read_failed ==> r == WorkerPoll::GiveUp,
        !read_failed ==> match output {
            Some(o) => match spec_final_incremental_text(session_id@, *o) {
                Some(t) => r matches WorkerPoll::Done(x) && x@ == t,
                None => r == (if o.fallback_required || o.error is Some || worker_gone {
                    WorkerPoll::GiveUp
                } else {
                    WorkerPoll::KeepWaiting
                }),
            },
            None => r == (if worker_gone {
                WorkerPoll::GiveUp
            } else {
                WorkerPoll::KeepWaiting
            }),
        },
{
    if read_failed {
        return WorkerPoll::GiveUp;
    }
    if let Some(o) = output {
        if let Some(text) = final_incremental_text(session_id, o) {
            return WorkerPoll::Done(text);
        }
        if o.fallback_required || o.error.is_some() {
            return WorkerPoll::GiveUp;
        }
    }
    if worker_gone {
        WorkerPoll::GiveUp
    } else {
        WorkerPoll::KeepWaiting
    }
}

// ---------------------------------------------------------------------------
// Whether whisper.cpp needs installing or updating
// ---------------------------------------------------------------------------

/// An update is due when the source checkout, the `whisper-cli` program or
/// the model is missing, or when the checkout's HEAD differs from the
/// remote's (both known).
pub open spec fn spec_update_available(
    source_exists: bool,
    cli_found: bool,
    model_exists: bool,
    local_head: Option<Seq<char>>,
    remote_head: Option<Seq<char>>,
) -> bool {
    !source_exists || !cli_found || !model_exists || match (local_head, remote_head) {
        (Some(l), Some(r)) => l != r,
        _ => false,
    }
}

pub fn whisper_update_available(
    source_exists: bool,
    cli_found: bool,
    model_exists: bool,
    local_head: &Option<String>,
    remote_head: &Option<String>,
) -> (b: bool)
    ensures
        b == spec_update_available(
            source_exists,
            cli_found,
            model_exists,
            opt_view(*local_head),
            opt_view(*remote_head),
        ),
{
    if !source_exists || !cli_found || !model_exists {
        return true;
    }
    match (local_head, remote_head) {
        (Some(l), Some(r)) => !chars_eq(
            chars_of(l.as_str()).as_slice(),
            chars_of(r.as_str()).as_slice(),
        ),
        _ => false,
    }
}

} // verus!
