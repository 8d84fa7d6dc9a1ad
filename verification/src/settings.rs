//! The assistant's settings as the session reads them, and what a probe of
//! the CLI binary concluded. Loading and saving the settings row, finding the
//! binary on disk and running it are the caller's I/O; this module decides
//! what a probe's output means.
use vstd::prelude::*;
use vstd::string::*;

use crate::text::{chars_of, string_of, trim, trimmed, Blank};

verus! {

/// The single settings row. An empty `vault_root` means `~/brain/wiki` and an
/// empty `deep_read_dirs` means `~/brain`, both resolved when used.
#[derive(Debug, Clone)]
pub struct AssistantSettings {
    pub enabled: bool,
    /// Where the CLI binary lives; empty means look it up.
    pub claude_path: String,
    pub fast_model: String,
    pub fast_effort: String,
    pub deep_model: String,
    pub deep_effort: String,
    /// `manual`, `gated` or `continuous`.
    pub trigger_mode: String,
    /// How long the room must stay quiet before a gated question fires.
    pub quiet_gap_ms: u64,
    /// Comma-separated names that call on Joseph.
    pub names: String,
    pub vault_root: String,
    /// Comma-separated directories the deep lane may read.
    pub deep_read_dirs: String,
}

pub struct SettingsView {
    pub enabled: bool,
    pub claude_path: Seq<char>,
    pub fast_model: Seq<char>,
    pub fast_effort: Seq<char>,
    pub deep_model: Seq<char>,
    pub deep_effort: Seq<char>,
    pub trigger_mode: Seq<char>,
    pub quiet_gap_ms: u64,
    pub names: Seq<char>,
    pub vault_root: Seq<char>,
    pub deep_read_dirs: Seq<char>,
}

impl View for AssistantSettings {
    type V = SettingsView;

    open spec fn view(&self) -> SettingsView {
        SettingsView {
            enabled: self.enabled,
            claude_path: self.claude_path@,
            fast_model: self.fast_model@,
            fast_effort: self.fast_effort@,
            deep_model: self.deep_model@,
            deep_effort: self.deep_effort@,
            trigger_mode: self.trigger_mode@,
            quiet_gap_ms: self.quiet_gap_ms,
            names: self.names@,
            vault_root: self.vault_root@,
            deep_read_dirs: self.deep_read_dirs@,
        }
    }
}

/// Whether the CLI binary resolved and answered `--version`.
#[derive(Debug, Clone)]
pub struct ClaudeProbe {
    pub ok: bool,
    pub version: String,
    pub error: Option<String>,
}

pub struct ProbeView {
    pub ok: bool,
    pub version: Seq<char>,
    pub error: Option<Seq<char>>,
}

impl View for ClaudeProbe {
    type V = ProbeView;

    open spec fn view(&self) -> ProbeView {
        ProbeView {
            ok: self.ok,
            version: self.version@,
            error: match self.error {
                Some(e) => Some(e@),
                None => None,
            },
        }
    }
}

/// What a finished `<program> --version` run means: success reports the
/// trimmed standard output as the version; failure reports the trimmed
/// standard error, or `<program> --version failed` when that is empty.
pub open spec fn probe_spec(program: Seq<char>, success: bool, stdout: Seq<char>, stderr: Seq<char>) -> ProbeView {
    if success {
        ProbeView { ok: true, version: trim(stdout), error: None }
    } else {
        ProbeView {
            ok: false,
            version: Seq::empty(),
            error: Some(
                if trim(stderr).len() == 0 {
                    program + " --version failed"@
                } else {
                    trim(stderr)
                },
            ),
        }
    }
}

/// A failed probe with the given message.
pub open spec fn probe_failed(msg: Seq<char>) -> ProbeView {
    ProbeView { ok: false, version: Seq::empty(), error: Some(msg) }
}

impl ClaudeProbe {
    /// Reads a finished `<program> --version` run from its exit status and
    /// output; `program` is the name the binary goes by.
    pub fn from_output(program: &str, success: bool, stdout: &str, stderr: &str) -> (p: ClaudeProbe)
        ensures
            p@ == probe_spec(program@, success, stdout@, stderr@),
    {
        if success {
            let out = trimmed(Blank::Unicode, &chars_of(stdout));
            ClaudeProbe { ok: true, version: string_of(&out), error: None }
        } else {
            let err = trimmed(Blank::Unicode, &chars_of(stderr));
            let msg = if err.len() == 0 {
                String::from_str(program).concat(" --version failed")
            } else {
                string_of(&err)
            };
            ClaudeProbe { ok: false, version: String::new(), error: Some(msg) }
        }
    }

    /// A probe that never ran, or whose run could not complete.
    pub fn failed(msg: String) -> (p: ClaudeProbe)
        ensures
            p@ == probe_failed(msg@),
    {
        ClaudeProbe { ok: false, version: String::new(), error: Some(msg) }
    }

    /// No binary going by `program` could be found.
    pub fn not_found(program: &str) -> (p: ClaudeProbe)
        ensures
            p@ == probe_failed(program@ + " binary not found"@),
    {
        ClaudeProbe::failed(String::from_str(program).concat(" binary not found"))
    }

    /// The `<program> --version` run did not finish within the time allowed.
    pub fn timed_out(program: &str) -> (p: ClaudeProbe)
        ensures
            p@ == probe_failed(program@ + " --version timed out"@),
    {
        ClaudeProbe::failed(String::from_str(program).concat(" --version timed out"))
    }
}

} // verus!
