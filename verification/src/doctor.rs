//! The checks the desktop app's doctor page shows, from facts about the
//! machine that the app gathers.
use vstd::prelude::*;
use crate::cleanup::{resolve_policy, spec_resolve, CleanupPolicy, OllamaEnv};
use crate::platform::{blocker_views, PlatformSupport};
use crate::text::{append_str, chars_eq_str, chars_of, ends_with, string_of};

verus! {

broadcast use vstd::string::group_string_axioms;

/// One line of the doctor page.
#[derive(Debug, Clone)]
pub struct DoctorCheck {
    pub name: String,
    pub ok: bool,
    pub detail: String,
}

/// What was found on the machine.
#[derive(Debug)]
pub struct DoctorFacts {
    /// Where ffmpeg was found, or why not.
    pub ffmpeg: Result<String, String>,
    pub pw_record: bool,
    pub whisper_cli: bool,
    /// The whisper model found, if any.
    pub model_path: Option<String>,
    pub ydotool: bool,
    /// Whether ydotoold's socket exists.
    pub ydotool_socket: bool,
    /// Whether wl-copy, xclip or xsel is installed.
    pub clipboard_helper: bool,
}

pub open spec fn check_views(v: Seq<DoctorCheck>) -> Seq<(Seq<char>, bool, Seq<char>)> {
    v.map_values(|c: DoctorCheck| (c.name@, c.ok, c.detail@))
}

pub open spec fn blocker_checks(b: Seq<(Seq<char>, Seq<char>)>) -> Seq<(Seq<char>, bool, Seq<char>)> {
    b.map_values(|x: (Seq<char>, Seq<char>)| (x.0, false, x.1))
}

/// Whether cleanup will work as configured, and what to say about it.
pub open spec fn spec_cleanup_check(policy: CleanupPolicy, env: OllamaEnv) -> (bool, Seq<char>) {
    if policy.provider@ == "none"@ {
        (true, "cleanup disabled — raw transcript is pasted"@)
    } else {
        match spec_resolve(policy, env) {
            Err(e) => (false, e),
            Ok(t) => if t.provider == "custom"@ && t.model.len() == 0 {
                (false, "custom endpoint set — pick a model"@)
            } else if t.provider == "custom"@ {
                (true, "custom · "@ + t.model)
            } else if t.provider == "ollama"@ && ":cloud"@.is_suffix_of(t.model) {
                (true, "ollama · "@ + t.model + " — note: ':cloud' models run on ollama.com"@)
            } else if t.provider == "ollama"@ {
                (true, "ollama (local)"@)
            } else {
                (true, t.provider + " ready"@)
            },
        }
    }
}

/// The platform, ffmpeg (for file transcription) and the platform's
/// release blockers always; where dictation is supported also the
/// recorder, whisper, its model, the paste backend, the clipboard, the
/// cleanup provider, and, in local-only mode, a privacy note.
pub open spec fn spec_doctor_checks(
    support: PlatformSupport,
    facts: DoctorFacts,
    policy: CleanupPolicy,
    env: OllamaEnv,
    local_only: bool,
) -> Seq<(Seq<char>, bool, Seq<char>)> {
    let head = seq![
        ("Release platform"@, support.dictation_supported, support.summary@),
        match facts.ffmpeg {
            Ok(p) => ("ffmpeg"@, true, p@),
            Err(e) => ("ffmpeg"@, false, e@),
        },
    ] + blocker_checks(blocker_views(support.blockers@));
    if !support.dictation_supported {
        head
    } else {
        let cleanup = spec_cleanup_check(policy, env);
        head + seq![
            ("Audio recorder"@, facts.pw_record, "pw-record (PipeWire)"@),
            ("Whisper"@, facts.whisper_cli, "whisper-cli in PATH"@),
            match facts.model_path {
                Some(p) => ("Whisper model"@, true, p@),
                None => ("Whisper model"@, false, "no ggml model in ~/.local/share/whisper.cpp/models"@),
            },
            (
                "Paste backend"@,
                facts.ydotool && facts.ydotool_socket,
                if !facts.ydotool {
                    "ydotool not installed"@
                } else if !facts.ydotool_socket {
                    "ydotool installed, but ydotool.service socket not found"@
                } else {
                    "ydotool + ydotoold socket"@
                },
            ),
            ("Clipboard"@, facts.clipboard_helper, "wl-copy / xclip / xsel"@),
            ("Cleanup provider"@, cleanup.0, cleanup.1),
        ] + if local_only {
            seq![("Privacy"@, true, "local-only mode on — no text leaves this machine"@)]
        } else {
            Seq::empty()
        }
    }
}

fn check(name: &str, ok: bool, detail: String) -> (c: DoctorCheck)
    ensures
        c.name@ == name@,
        c.ok == ok,
        c.detail == detail,
{
    DoctorCheck { name: name.to_owned(), ok, detail }
}

fn joined2(a: &str, b: &str) -> (s: String)
    ensures
        s@ == a@ + b@,
{
    let mut v = chars_of(a);
    append_str(&mut v, b);
    string_of(v.as_slice())
}

fn joined(a: &str, b: &str, c: &str) -> (s: String)
    ensures
        s@ == a@ + b@ + c@,
{
    let mut v = chars_of(a);
    append_str(&mut v, b);
    append_str(&mut v, c);
    string_of(v.as_slice())
}

pub fn cleanup_check(policy: &CleanupPolicy, env: &OllamaEnv) -> (r: (bool, String))
    ensures
        (r.0, r.1@) == spec_cleanup_check(*policy, *env),
{
    if chars_eq_str(chars_of(policy.provider.as_str()).as_slice(), "none") {
        return (true, "cleanup disabled — raw transcript is pasted".to_owned());
    }
    match resolve_policy(policy, env) {
        Err(e) => (false, e),
        Ok(t) => {
            let provider = chars_of(t.provider.as_str());
            let model = chars_of(t.model.as_str());
            let cloud = chars_of(":cloud");
            if chars_eq_str(provider.as_slice(), "custom") && model.len() == 0 {
                (false, "custom endpoint set — pick a model".to_owned())
            } else if chars_eq_str(provider.as_slice(), "custom") {
                (true, joined2("custom · ", t.model.as_str()))
            } else if chars_eq_str(provider.as_slice(), "ollama") && ends_with(
                model.as_slice(),
                cloud.as_slice(),
            ) {
                (
                    true,
                    joined(
                        "ollama · ",
                        t.model.as_str(),
                        " — note: ':cloud' models run on ollama.com",
                    ),
                )
            } else if chars_eq_str(provider.as_slice(), "ollama") {
                (true, "ollama (local)".to_owned())
            } else {
                (true, joined2(t.provider.as_str(), " ready"))
            }
        },
    }
}

/// The doctor page's checks, in order.
pub fn doctor_checks(
    support: &PlatformSupport,
    facts: &DoctorFacts,
    policy: &CleanupPolicy,
    env: &OllamaEnv,
    local_only: bool,
) -> (r: Vec<DoctorCheck>)
    ensures
        check_views(r@) == spec_doctor_checks(*support, *facts, *policy, *env, local_only),
{
    let mut out: Vec<DoctorCheck> = Vec::new();
    out.push(check("Release platform", support.dictation_supported, support.summary.clone()));
    match &facts.ffmpeg {
        Ok(p) => out.push(check("ffmpeg", true, p.clone())),
        Err(e) => out.push(check("ffmpeg", false, e.clone())),
    }
    let ghost first = check_views(out@);
    assert(first =~= seq![
        ("Release platform"@, support.dictation_supported, support.summary@),
        match facts.ffmpeg {
            Ok(p) => ("ffmpeg"@, true, p@),
            Err(e) => ("ffmpeg"@, false, e@),
        },
    ]);
    let ghost bv = blocker_views(support.blockers@);
    let n = support.blockers.len();
    let mut i: usize = 0;
    while i < n
        invariant
            i <= n == support.blockers@.len(),
            bv == blocker_views(support.blockers@),
            check_views(out@) == first + blocker_checks(bv.take(i as int)),
        decreases n - i,
    {
        let b = &support.blockers[i];
        let ghost before = check_views(out@);
        out.push(check(b.name.as_str(), false, b.detail.clone()));
        proof {
            assert(bv[i as int] == (b.name@, b.detail@));
            assert(bv.take(i + 1) =~= bv.take(i as int).push(bv[i as int]));
            assert(blocker_checks(bv.take(i + 1)) =~= blocker_checks(bv.take(i as int)).push(
                (b.name@, false, b.detail@),
            ));
            assert(check_views(out@) =~= before.push((b.name@, false, b.detail@)));
        }
        i = i + 1;
    }
    assert(bv.take(n as int) =~= bv);
    assert(check_views(out@) == first + blocker_checks(bv));
    if !support.dictation_supported {
        return out;
    }
    let ghost head = check_views(out@);
    let ghost cl = spec_cleanup_check(*policy, *env);
    out.push(check("Audio recorder", facts.pw_record, "pw-record (PipeWire)".to_owned()));
    out.push(check("Whisper", facts.whisper_cli, "whisper-cli in PATH".to_owned()));
    match &facts.model_path {
        Some(p) => out.push(check("Whisper model", true, p.clone())),
        None => out.push(
            check(
                "Whisper model",
                false,
                "no ggml model in ~/.local/share/whisper.cpp/models".to_owned(),
            ),
        ),
    }
    let paste_detail = if !facts.ydotool {
        "ydotool not installed".to_owned()
    } else if !facts.ydotool_socket {
        "ydotool installed, but ydotool.service socket not found".to_owned()
    } else {
        "ydotool + ydotoold socket".to_owned()
    };
    out.push(check("Paste backend", facts.ydotool && facts.ydotool_socket, paste_detail));
    out.push(check("Clipboard", facts.clipboard_helper, "wl-copy / xclip / xsel".to_owned()));
    let (cleanup_ok, cleanup_detail) = cleanup_check(policy, env);
    out.push(check("Cleanup provider", cleanup_ok, cleanup_detail));
    let ghost mid = check_views(out@);
    assert(mid =~= head + seq![
        ("Audio recorder"@, facts.pw_record, "pw-record (PipeWire)"@),
        ("Whisper"@, facts.whisper_cli, "whisper-cli in PATH"@),
        match facts.model_path {
            Some(p) => ("Whisper model"@, true, p@),
            None => ("Whisper model"@, false, "no ggml model in ~/.local/share/whisper.cpp/models"@),
        },
        (
            "Paste backend"@,
            facts.ydotool && facts.ydotool_socket,
            if !facts.ydotool {
                "ydotool not installed"@
            } else if !facts.ydotool_socket {
                "ydotool installed, but ydotool.service socket not found"@
            } else {
                "ydotool + ydotoold socket"@
            },
        ),
        ("Clipboard"@, facts.clipboard_helper, "wl-copy / xclip / xsel"@),
        ("Cleanup provider"@, cl.0, cl.1),
    ]);
    if local_only {
        out.push(
            check("Privacy", true, "local-only mode on — no text leaves this machine".to_owned()),
        );
    }
    assert(check_views(out@) =~= spec_doctor_checks(*support, *facts, *policy, *env, local_only));
    out
}

} // verus!
