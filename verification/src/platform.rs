//! Which operating systems PickScribe ships for, and what blocks the others.
use vstd::prelude::*;
use crate::text::{append_chars, append_str, chars_eq_str, chars_of, join, string_of};

verus! {

broadcast use vstd::string::group_string_axioms;

#[derive(Debug, Clone, PartialEq, Eq, Structural)]
pub enum ReleaseStatus {
    ShipsNow,
    Blocked,
}

#[derive(Debug, Clone, PartialEq, Eq)]
pub struct PlatformBlocker {
    pub name: String,
    pub detail: String,
}

#[derive(Debug, Clone, PartialEq, Eq)]
pub struct PlatformSupport {
    pub os: String,
    pub release_status: ReleaseStatus,
    pub dictation_supported: bool,
    pub summary: String,
    pub blockers: Vec<PlatformBlocker>,
}

pub struct SupportView {
    pub os: Seq<char>,
    pub release_status: ReleaseStatus,
    pub dictation_supported: bool,
    pub summary: Seq<char>,
    pub blockers: Seq<(Seq<char>, Seq<char>)>,
}

pub open spec fn blocker_views(b: Seq<PlatformBlocker>) -> Seq<(Seq<char>, Seq<char>)> {
    b.map_values(|x: PlatformBlocker| (x.name@, x.detail@))
}

impl View for PlatformSupport {
    type V = SupportView;

    open spec fn view(&self) -> SupportView {
        SupportView {
            os: self.os@,
            release_status: self.release_status,
            dictation_supported: self.dictation_supported,
            summary: self.summary@,
            blockers: blocker_views(self.blockers@),
        }
    }
}

pub open spec fn spec_os_label(os: Seq<char>) -> Seq<char> {
    if os == "linux"@ {
        "Linux"@
    } else if os == "macos"@ {
        "macOS"@
    } else if os == "windows"@ {
        "Windows"@
    } else {
        "This platform"@
    }
}

pub open spec fn blocker_names(b: Seq<(Seq<char>, Seq<char>)>) -> Seq<Seq<char>> {
    b.map_values(|x: (Seq<char>, Seq<char>)| x.0)
}

/// Why dictation is unavailable: the platform's name and the names of the
/// blocking work; nothing where dictation is supported.
pub open spec fn spec_unsupported_message(s: SupportView) -> Option<Seq<char>> {
    if s.dictation_supported {
        None
    } else {
        Some(
            spec_os_label(s.os) + " is not a PickScribe release target yet. Blocking work: "@
                + join(blocker_names(s.blockers), ", "@) + "."@,
        )
    }
}

impl PlatformSupport {
    pub fn unsupported_dictation_message(&self) -> (r: Option<String>)
        ensures
            match r {
                Some(m) => spec_unsupported_message(self@) == Some(m@),
                None => spec_unsupported_message(self@) is None,
            },
    {
        if self.dictation_supported {
            return None;
        }
        let mut out = chars_of(self.os_label());
        append_str(&mut out, " is not a PickScribe release target yet. Blocking work: ");
        let ghost names = blocker_names(blocker_views(self.blockers@));
        let ghost prefix = out@;
        for i in 0..self.blockers.len()
            invariant
                names == blocker_names(blocker_views(self.blockers@)),
                out@ == prefix + join(names.take(i as int), ", "@),
        {
            assert(names.take(i + 1).drop_last() =~= names.take(i as int));
            assert(names.take(i + 1).last() == self.blockers@[i as int].name@);
            if i > 0 {
                append_str(&mut out, ", ");
            } else {
                assert(names.take(1).len() == 1);
            }
            let ghost before = out@;
            append_str(&mut out, self.blockers[i].name.as_str());
            assert(out@ =~= before + self.blockers@[i as int].name@);
            if i > 0 {
                assert(out@ =~= prefix + (join(names.take(i as int), ", "@) + ", "@ + names.take(i + 1).last()));
            } else {
                assert(out@ =~= prefix + names.take(i + 1).last());
            }
        }
        assert(names.take(self.blockers@.len() as int) =~= names);
        append_str(&mut out, ".");
        Some(string_of(out.as_slice()))
    }

    pub fn os_label(&self) -> (r: &'static str)
        ensures
            r@ == spec_os_label(self.os@),
    {
        let os = chars_of(self.os.as_str());
        if chars_eq_str(os.as_slice(), "linux") {
            "Linux"
        } else if chars_eq_str(os.as_slice(), "macos") {
            "macOS"
        } else if chars_eq_str(os.as_slice(), "windows") {
            "Windows"
        } else {
            "This platform"
        }
    }
}

pub const LINUX_SUMMARY: &'static str = "Linux release target: PipeWire capture, whisper.cpp, Linux clipboard/paste helpers, tray, floating window, and signed updater artifacts.";

pub const MACOS_SUMMARY: &'static str = "macOS release is blocked until the native host path is implemented and signed.";

pub const WINDOWS_SUMMARY: &'static str = "Windows release is blocked until the native host path is implemented and code-signed.";

pub const OTHER_SUMMARY: &'static str = "This OS is not a PickScribe release target.";

pub open spec fn macos_blockers() -> Seq<(Seq<char>, Seq<char>)> {
    seq![
        ("Global shortcuts"@, "Native shortcut registration and permission flow are missing."@),
        (
            "Tray/window behavior validation"@,
            "Menu bar, dock, main window, and floating window behavior are not validated."@,
        ),
        ("Signing/notarization"@, "Developer ID signing and notarization are not configured."@),
        ("Native-host smoke tests"@, "Deferred for this PR; required before a real macOS release."@),
    ]
}

pub open spec fn windows_blockers() -> Seq<(Seq<char>, Seq<char>)> {
    seq![
        (
            "Native audio capture"@,
            "WASAPI or Media Foundation microphone capture backend is missing."@,
        ),
        ("Paste automation"@, "Clipboard plus SendInput paste backend is missing."@),
        (
            "Global shortcuts"@,
            "Native shortcut registration and permission behavior are missing."@,
        ),
        (
            "Tray/window behavior validation"@,
            "Tray, taskbar, main window, and floating window behavior are not validated."@,
        ),
        ("Code signing"@, "Installer and executable code-signing are not configured."@),
        (
            "Native-host smoke tests"@,
            "Deferred for this PR; required before a real Windows release."@,
        ),
    ]
}

pub open spec fn other_blockers() -> Seq<(Seq<char>, Seq<char>)> {
    seq![
        (
            "Platform implementation"@,
            "No native audio, paste, shortcut, tray/window, signing, or smoke-test plan exists for this OS."@,
        ),
    ]
}

/// Linux ships; macOS, Windows and any other OS are blocked, each with its
/// own list of missing work.
pub open spec fn spec_support_for(os: Seq<char>) -> SupportView {
    if os == "linux"@ {
        SupportView {
            os: "linux"@,
            release_status: ReleaseStatus::ShipsNow,
            dictation_supported: true,
            summary: LINUX_SUMMARY@,
            blockers: Seq::empty(),
        }
    } else if os == "macos"@ {
        SupportView {
            os: "macos"@,
            release_status: ReleaseStatus::Blocked,
            dictation_supported: false,
            summary: MACOS_SUMMARY@,
            blockers: macos_blockers(),
        }
    } else if os == "windows"@ {
        SupportView {
            os: "windows"@,
            release_status: ReleaseStatus::Blocked,
            dictation_supported: false,
            summary: WINDOWS_SUMMARY@,
            blockers: windows_blockers(),
        }
    } else {
        SupportView {
            os,
            release_status: ReleaseStatus::Blocked,
            dictation_supported: false,
            summary: OTHER_SUMMARY@,
            blockers: other_blockers(),
        }
    }
}

fn blocker(name: &str, detail: &str) -> (b: PlatformBlocker)
    ensures
        b.name@ == name@,
        b.detail@ == detail@,
{
    PlatformBlocker { name: name.to_owned(), detail: detail.to_owned() }
}

fn blocked(os: &str, summary: &str, blockers: Vec<PlatformBlocker>) -> (s: PlatformSupport)
    ensures
        s@ == (SupportView {
            os: os@,
            release_status: ReleaseStatus::Blocked,
            dictation_supported: false,
            summary: summary@,
            blockers: blocker_views(blockers@),
        }),
{
    PlatformSupport {
        os: os.to_owned(),
        release_status: ReleaseStatus::Blocked,
        dictation_supported: false,
        summary: summary.to_owned(),
        blockers,
    }
}

pub fn support_for(os: &str) -> (s: PlatformSupport)
    ensures
        s@ == spec_support_for(os@),
{
    let o = chars_of(os);
    if chars_eq_str(o.as_slice(), "linux") {
        let v: Vec<PlatformBlocker> = Vec::new();
        let s = PlatformSupport {
            os: "linux".to_owned(),
            release_status: ReleaseStatus::ShipsNow,
            dictation_supported: true,
            summary: LINUX_SUMMARY.to_owned(),
            blockers: v,
        };
        assert(blocker_views(s.blockers@) =~= Seq::empty());
        s
    } else if chars_eq_str(o.as_slice(), "macos") {
        let mut v: Vec<PlatformBlocker> = Vec::new();
        v.push(blocker("Global shortcuts", "Native shortcut registration and permission flow are missing."));
        v.push(blocker("Tray/window behavior validation", "Menu bar, dock, main window, and floating window behavior are not validated."));
        v.push(blocker("Signing/notarization", "Developer ID signing and notarization are not configured."));
        v.push(blocker("Native-host smoke tests", "Deferred for this PR; required before a real macOS release."));
        assert(blocker_views(v@) =~= macos_blockers());
        blocked("macos", MACOS_SUMMARY, v)
    } else if chars_eq_str(o.as_slice(), "windows") {
        let mut v: Vec<PlatformBlocker> = Vec::new();
        v.push(blocker("Native audio capture", "WASAPI or Media Foundation microphone capture backend is missing."));
        v.push(blocker("Paste automation", "Clipboard plus SendInput paste backend is missing."));
        v.push(blocker("Global shortcuts", "Native shortcut registration and permission behavior are missing."));
        v.push(blocker("Tray/window behavior validation", "Tray, taskbar, main window, and floating window behavior are not validated."));
        v.push(blocker("Code signing", "Installer and executable code-signing are not configured."));
        v.push(blocker("Native-host smoke tests", "Deferred for this PR; required before a real Windows release."));
        assert(blocker_views(v@) =~= windows_blockers());
        blocked("windows", WINDOWS_SUMMARY, v)
    } else {
        let mut v: Vec<PlatformBlocker> = Vec::new();
        v.push(blocker("Platform implementation", "No native audio, paste, shortcut, tray/window, signing, or smoke-test plan exists for this OS."));
        assert(blocker_views(v@) =~= other_blockers());
        blocked(os, OTHER_SUMMARY, v)
    }
}

/// Dictation is offered exactly where the platform ships, and a message
/// explains every platform where it is not.
pub proof fn lemma_dictation_matches_release(os: Seq<char>)
    ensures
        spec_support_for(os).dictation_supported <==> spec_support_for(os).release_status
            == ReleaseStatus::ShipsNow,
        spec_support_for(os).dictation_supported <==> spec_support_for(os).blockers.len() == 0,
        spec_unsupported_message(spec_support_for(os)) is None <==> spec_support_for(
            os,
        ).dictation_supported,
{
}

} // verus!
