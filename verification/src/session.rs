//! The assistant's live session: transcript log, trigger engine, answer
//! lanes, voice ask and note state, and every decision the entry points make
//! about them. Recording and transcription never wait on, or fail because of,
//! any of this: each entry point here updates the session and reports
//! failure through `last_error` or the note's error rather than propagating.
//!
//! The session is a state machine. Each entry point returns what the caller
//! has to do next (turns to run, timers to set, what to publish); running
//! turns, timers, the settings store and the file system is the caller's work.
use vstd::prelude::*;
use vstd::string::*;

use crate::card::ParsedCard;
use crate::claude_cli::{opt_str, ClaudeOutcome, ClaudeTurn, TurnView};
use crate::lanes::{
    answer_spec, card_opt, catchup_spec, deep_failed_spec, explain_spec, fast_done_spec, fast_only_done_spec, forks_spec,
    note_turn_spec, plan_turn, settle_spec, trunk_view, AnswerPlan, CardKind, CardOut, CardOutView,
    ConfigView, FastOnlyPlan, LaneConfig, LaneState, LaneView,
};
use crate::note::{
    note_content_spec, note_file_spec, note_plan, parse_note, parse_note_spec,
    transcript_file_spec, NoteDraft,
};
use crate::settings::{AssistantSettings, ClaudeProbe, SettingsView};
use crate::text::{
    char_is_whitespace, chars_of, join, join_with, split, split_on, string_of, trim, trim_start_k,
    trimmed, Blank,
};
use crate::transcript::{
    ingest_spec, lines_of, open_you_preview_spec, AssemblerOut, LogView, OutView, Speaker,
    TranscriptLog, TranscriptUpdate,
};
use crate::trigger::{
    fire_opt, running_spec, update_spec, utterance_spec, FireView, GapCommand, TriggerEngine,
    TriggerMode, TriggerStep, TriggerView,
};
use crate::voice_ask::{
    cancel_spec, finish_spec, no_step, note_running_spec, note_utterance_spec, nothing, start_spec,
    StepView, VoiceAsk, VoiceStep, VoiceView, MAX_CAPTURE_MS, SILENCE_GAP_MS, SUBMIT_LINGER_MS,
};

verus! {

/// Where the end-of-meeting note stands.
#[derive(Debug, Clone, Copy, PartialEq, Eq, Structural)]
pub enum NoteState {
    Idle,
    Drafting,
    Ready,
    Saved,
    Failed,
}

pub open spec fn note_label(s: NoteState) -> Seq<char> {
    match s {
        NoteState::Idle => "idle"@,
        NoteState::Drafting => "drafting"@,
        NoteState::Ready => "ready"@,
        NoteState::Saved => "saved"@,
        NoteState::Failed => "failed"@,
    }
}

impl NoteState {
    /// The name the panel shows for this state.
    pub fn label(self) -> (l: &'static str)
        ensures
            l@ == note_label(self),
    {
        match self {
            NoteState::Idle => "idle",
            NoteState::Drafting => "drafting",
            NoteState::Ready => "ready",
            NoteState::Saved => "saved",
            NoteState::Failed => "failed",
        }
    }
}

/// What the panel shows of the session.
#[derive(Debug, Clone)]
pub struct StatusOut {
    pub enabled: bool,
    pub session_open: bool,
    pub lanes_ready: bool,
    pub mode: String,
    pub listening: bool,
    pub claude_ok: bool,
    pub last_error: Option<String>,
}

pub open spec fn mode_label_spec(mode: TriggerMode) -> Seq<char> {
    match mode {
        TriggerMode::Manual => "manual"@,
        TriggerMode::Gated => "gated"@,
        TriggerMode::Continuous => "continuous"@,
    }
}

/// The name of a trigger mode.
pub fn mode_label(mode: TriggerMode) -> (l: &'static str)
    ensures
        l@ == mode_label_spec(mode),
{
    match mode {
        TriggerMode::Manual => "manual",
        TriggerMode::Gated => "gated",
        TriggerMode::Continuous => "continuous",
    }
}

/// The mode a name stands for, or the error that rejects it.
pub open spec fn parse_mode_spec(raw: Seq<char>) -> Result<TriggerMode, Seq<char>> {
    if raw == "manual"@ {
        Ok(TriggerMode::Manual)
    } else if raw == "gated"@ {
        Ok(TriggerMode::Gated)
    } else if raw == "continuous"@ {
        Ok(TriggerMode::Continuous)
    } else {
        Err("unknown assistant mode: "@ + raw)
    }
}

fn same_text(a: &str, b: &str) -> (r: bool)
    ensures
        r == (a@ == b@),
{
    let x = chars_of(a);
    let y = chars_of(b);
    if x.len() != y.len() {
        return false;
    }
    let n = x.len();
    for i in 0..n
        invariant
            n == x@.len() == y@.len(),
            x@ == a@,
            y@ == b@,
            forall|j: int| 0 <= j < i ==> x@[j] == y@[j],
    {
        if x[i] != y[i] {
            assert(x@[i as int] != y@[i as int]);
            assert(a@ != b@);
            return false;
        }
    }
    assert(x@ =~= y@);
    true
}

/// Reads a trigger mode by its exact name.
pub fn parse_mode(raw: &str) -> (r: Result<TriggerMode, String>)
    ensures
        match (r, parse_mode_spec(raw@)) {
            (Ok(m), Ok(n)) => m == n,
            (Err(e), Err(f)) => e@ == f,
            _ => false,
        },
{
    if same_text(raw, "manual") {
        Ok(TriggerMode::Manual)
    } else if same_text(raw, "gated") {
        Ok(TriggerMode::Gated)
    } else if same_text(raw, "continuous") {
        Ok(TriggerMode::Continuous)
    } else {
        Err(String::from_str("unknown assistant mode: ").concat(raw))
    }
}

/// The trimmed, non-empty pieces, in order.
pub open spec fn kept_names(pieces: Seq<Seq<char>>) -> Seq<Seq<char>>
    decreases pieces.len(),
{
    if pieces.len() == 0 {
        Seq::empty()
    } else {
        let rest = kept_names(pieces.drop_last());
        let t = trim(pieces.last());
        if t.len() > 0 {
            rest.push(t)
        } else {
            rest
        }
    }
}

/// A comma-separated list: each piece trimmed, empty pieces dropped.
pub open spec fn split_names_spec(raw: Seq<char>) -> Seq<Seq<char>> {
    kept_names(split(raw, ','))
}

/// Splits a comma-separated list into its trimmed, non-empty entries.
pub fn split_names(raw: &str) -> (r: Vec<String>)
    ensures
        r.deep_view() == split_names_spec(raw@),
{
    let cs = chars_of(raw);
    let pieces = split_on(&cs, ',');
    let ghost pv = pieces.deep_view();
    let mut out: Vec<String> = Vec::new();
    let n = pieces.len();
    for i in 0..n
        invariant
            n == pieces@.len(),
            pv == pieces.deep_view(),
            pv == split(raw@, ','),
            out.deep_view() == kept_names(pv.take(i as int)),
    {
        assert(pv.take(i + 1).drop_last() =~= pv.take(i as int));
        assert(pv.take(i + 1).last() == pieces@[i as int]@);
        let t = trimmed(Blank::Unicode, &pieces[i]);
        if t.len() > 0 {
            let ghost before = out.deep_view();
            out.push(string_of(&t));
            assert(out.deep_view() =~= before.push(t@));
        }
    }
    assert(pv.take(n as int) =~= pv);
    out
}

/// `text` with the voice baseline taken off its front and the whitespace
/// after it dropped. An empty or mismatched baseline leaves `text` as it is.
pub open spec fn strip_baseline_spec(baseline: Seq<char>, text: Seq<char>) -> Seq<char> {
    if baseline.len() == 0 {
        text
    } else if baseline.len() <= text.len() && text.subrange(0, baseline.len() as int) == baseline {
        trim_start_k(Blank::Unicode, text.subrange(baseline.len() as int, text.len() as int))
    } else {
        text
    }
}

/// Removes a previously captured baseline prefix (the open utterance's text
/// as it stood when voice ask started) from freshly ingested transcript text.
/// A mismatched or empty baseline passes `text` through unchanged, which is
/// what a fresh utterance started after the press should do.
pub fn strip_voice_baseline(baseline: &str, text: &str) -> (r: String)
    ensures
        r@ == strip_baseline_spec(baseline@, text@),
{
    let b = chars_of(baseline);
    let t = chars_of(text);
    if b.len() == 0 {
        return string_of(&t);
    }
    if b.len() > t.len() {
        return string_of(&t);
    }
    let m = b.len();
    for i in 0..m
        invariant
            m == b@.len() <= t@.len(),
            t@ == text@,
            b@ == baseline@,
            forall|j: int| 0 <= j < i ==> t@[j] == b@[j],
    {
        if t[i] != b[i] {
            assert(t@.subrange(0, m as int)[i as int] != b@[i as int]);
            assert(t@.subrange(0, m as int) != b@);
            return string_of(&t);
        }
    }
    assert(t@.subrange(0, m as int) =~= b@);
    let n = t.len();
    let mut a: usize = m;
    assert(t@.subrange(a as int, n as int) =~= t@.subrange(m as int, n as int));
    while a < n && char_is_whitespace(t[a])
        invariant
            m <= a <= n == t@.len(),
            t@ == text@,
            trim_start_k(Blank::Unicode, t@.subrange(m as int, n as int)) == trim_start_k(
                Blank::Unicode,
                t@.subrange(a as int, n as int),
            ),
        decreases n - a,
    {
        assert(t@.subrange(a as int, n as int).drop_first() =~= t@.subrange(a + 1, n as int));
        a += 1;
    }
    let mut out: Vec<char> = Vec::new();
    for k in a..n
        invariant
            a <= n == t@.len(),
            t@ == text@,
            out@ == t@.subrange(a as int, k as int),
    {
        out.push(t[k]);
        assert(t@.subrange(a as int, k + 1) =~= t@.subrange(a as int, k as int).push(t@[k as int]));
    }
    string_of(&out)
}

/// `part` appended to the path `base`, with a separator between them unless
/// `base` is empty or already ends in one (`Path::join` of a relative part).
pub open spec fn join_path(base: Seq<char>, part: Seq<char>) -> Seq<char> {
    if base.len() == 0 || base.last() == '/' {
        base + part
    } else {
        base + "/"@ + part
    }
}

fn join_path_exec(base: &str, part: &str) -> (r: String)
    ensures
        r@ == join_path(base@, part@),
{
    let b = chars_of(base);
    if b.len() == 0 || b[b.len() - 1] == '/' {
        String::from_str(base).concat(part)
    } else {
        String::from_str(base).concat("/").concat(part)
    }
}

/// The home directory, or the file system root when there is none.
pub open spec fn home_or_root(home: Option<Seq<char>>) -> Seq<char> {
    match home {
        Some(h) => h,
        None => "/"@,
    }
}

/// Empty means `~/brain/wiki`; anything else is the trimmed path.
pub open spec fn vault_root_spec(raw: Seq<char>, home: Option<Seq<char>>) -> Seq<char> {
    if trim(raw).len() == 0 {
        join_path(join_path(home_or_root(home), "brain"@), "wiki"@)
    } else {
        trim(raw)
    }
}

/// Empty means `[~/brain]`; anything else is the comma-separated list.
pub open spec fn deep_read_dirs_spec(raw: Seq<char>, home: Option<Seq<char>>) -> Seq<Seq<char>> {
    if trim(raw).len() == 0 {
        seq![join_path(home_or_root(home), "brain"@)]
    } else {
        split_names_spec(trim(raw))
    }
}

pub open spec fn opt_str_ref(o: Option<&str>) -> Option<Seq<char>> {
    match o {
        Some(s) => Some(s@),
        None => None,
    }
}

/// Calls `dirs::home_dir` and converts the path it returns to a string. What
/// it returns depends on the environment, so nothing is stated of it.
#[verifier::external_body]
fn home_dir() -> (r: Option<String>) {
    dirs::home_dir().map(|p| p.to_string_lossy().into_owned())
}

/// The vault root for a settings value, given the home directory.
pub fn vault_root_from(raw: &str, home: Option<String>) -> (r: String)
    ensures
        r@ == vault_root_spec(raw@, opt_str(home)),
{
    let t = string_of(&trimmed(Blank::Unicode, &chars_of(raw)));
    if t.as_str().is_empty() {
        let base = match home {
            Some(h) => h,
            None => String::from_str("/"),
        };
        let brain = join_path_exec(base.as_str(), "brain");
        join_path_exec(brain.as_str(), "wiki")
    } else {
        t
    }
}

/// The directories the deep lane may read, given the home directory.
pub fn deep_read_dirs_from(raw: &str, home: Option<String>) -> (r: Vec<String>)
    ensures
        r.deep_view() == deep_read_dirs_spec(raw@, opt_str(home)),
{
    let t = string_of(&trimmed(Blank::Unicode, &chars_of(raw)));
    if t.as_str().is_empty() {
        let base = match home {
            Some(h) => h,
            None => String::from_str("/"),
        };
        let mut v: Vec<String> = Vec::new();
        v.push(join_path_exec(base.as_str(), "brain"));
        assert(v.deep_view() =~= seq![join_path(home_or_root(opt_str(home)), "brain"@)]);
        v
    } else {
        split_names(t.as_str())
    }
}

/// Resolves the vault root against this process's home directory. A set
/// value does not depend on it.
pub fn resolve_vault_root(raw: &str) -> (r: String)
    ensures
        exists|h: Option<Seq<char>>| r@ == #[trigger] vault_root_spec(raw@, h),
        trim(raw@).len() > 0 ==> r@ == trim(raw@),
{
    let home = home_dir();
    let ghost h = opt_str(home);
    let r = vault_root_from(raw, home);
    assert(r@ == vault_root_spec(raw@, h));
    r
}

/// Resolves the deep lane's read directories against this process's home
/// directory. A set value does not depend on it.
pub fn resolve_deep_read_dirs(raw: &str) -> (r: Vec<String>)
    ensures
        exists|h: Option<Seq<char>>| r.deep_view() == #[trigger] deep_read_dirs_spec(raw@, h),
        trim(raw@).len() > 0 ==> r.deep_view() == split_names_spec(trim(raw@)),
{
    let home = home_dir();
    let ghost h = opt_str(home);
    let r = deep_read_dirs_from(raw, home);
    assert(r.deep_view() == deep_read_dirs_spec(raw@, h));
    r
}

/// The seed the trunk holds: the meeting's name and date, and the brief
/// when one was typed.
pub open spec fn seed_spec(name: Option<Seq<char>>, date: Seq<char>, brief: Option<Seq<char>>) -> Seq<
    char,
> {
    let head = "Meeting: "@ + match name {
        Some(n) => n,
        None => "Untitled meeting"@,
    } + "\nDate: "@ + date;
    match brief {
        Some(b) => if trim(b).len() > 0 {
            head + "\n\nBrief:\n"@ + trim(b)
        } else {
            head
        },
        None => head,
    }
}

/// Builds the trunk's seed.
pub fn session_seed(meeting_name: Option<&str>, date: &str, brief: Option<&str>) -> (r: String)
    ensures
        r@ == seed_spec(
            match meeting_name {
                Some(n) => Some(n@),
                None => None,
            },
            date@,
            match brief {
                Some(b) => Some(b@),
                None => None,
            },
        ),
{
    let name = match meeting_name {
        Some(n) => n,
        None => "Untitled meeting",
    };
    let seed = String::from_str("Meeting: ").concat(name).concat("\nDate: ").concat(date);
    match brief {
        Some(b) => {
            let t = string_of(&trimmed(Blank::Unicode, &chars_of(b)));
            if t.as_str().is_empty() {
                seed
            } else {
                seed.concat("\n\nBrief:\n").concat(t.as_str())
            }
        },
        None => seed,
    }
}

// ---------------------------------------------------------------------
// The session
// ---------------------------------------------------------------------

/// The session's state.
pub struct AssistantCore {
    pub settings: AssistantSettings,
    pub transcript: TranscriptLog,
    pub trigger: TriggerEngine,
    pub lanes: LaneState,
    pub voice: VoiceAsk,
    /// The open You utterance's text at the moment voice ask started, if
    /// any. Taken off the front of transcript text fed to `voice` so speech
    /// from before the press does not bleed into the captured question.
    pub voice_baseline: String,
    /// `Q: ...\nA: ...` for every settled answer or direct ask, for the note.
    pub qa_log: Vec<String>,
    pub enabled: bool,
    pub session_open: bool,
    pub lanes_ready: bool,
    pub claude_ok: bool,
    pub last_error: Option<String>,
    pub mode: TriggerMode,
    pub listening: bool,
    /// Typed in the panel before a recording starts; folded into the next
    /// session's seed and cleared once used.
    pub pending_brief: Option<String>,
    pub note_state: NoteState,
    pub note_draft: Option<NoteDraft>,
    pub note_markdown: String,
    pub note_error: Option<String>,
    pub session_transcript: String,
    /// Whether transcript updates are reaching the log, so the caller can
    /// report a change once rather than on every chunk.
    pub transcript_ingest_ok: bool,
}

#[verifier::ext_equal]
pub struct CoreView {
    pub settings: SettingsView,
    pub transcript: LogView,
    pub trigger: TriggerView,
    pub lanes: LaneView,
    pub voice: VoiceView,
    pub voice_baseline: Seq<char>,
    pub qa_log: Seq<Seq<char>>,
    pub enabled: bool,
    pub session_open: bool,
    pub lanes_ready: bool,
    pub claude_ok: bool,
    pub last_error: Option<Seq<char>>,
    pub mode: TriggerMode,
    pub listening: bool,
    pub pending_brief: Option<Seq<char>>,
    pub note_state: NoteState,
    pub note_draft: Option<(Seq<char>, Seq<char>)>,
    pub note_markdown: Seq<char>,
    pub note_error: Option<Seq<char>>,
    pub session_transcript: Seq<char>,
    pub transcript_ingest_ok: bool,
}

impl View for AssistantCore {
    type V = CoreView;

    open spec fn view(&self) -> CoreView {
        CoreView {
            settings: self.settings@,
            transcript: self.transcript@,
            trigger: self.trigger@,
            lanes: self.lanes@,
            voice: self.voice@,
            voice_baseline: self.voice_baseline@,
            qa_log: self.qa_log.deep_view(),
            enabled: self.enabled,
            session_open: self.session_open,
            lanes_ready: self.lanes_ready,
            claude_ok: self.claude_ok,
            last_error: opt_str(self.last_error),
            mode: self.mode,
            listening: self.listening,
            pending_brief: opt_str(self.pending_brief),
            note_state: self.note_state,
            note_draft: match self.note_draft {
                Some(d) => Some((d.slug@, d.markdown@)),
                None => None,
            },
            note_markdown: self.note_markdown@,
            note_error: opt_str(self.note_error),
            session_transcript: self.session_transcript@,
            transcript_ingest_ok: self.transcript_ingest_ok,
        }
    }
}

/// A fresh session: an empty log, a fresh engine (gated, a 2 s gap,
/// listening, no names), no lanes, voice ask idle with its default timing,
/// enabled, closed, no error, no brief, no note.
pub open spec fn initial_core(s: SettingsView) -> CoreView {
    CoreView {
        settings: s,
        transcript: LogView { finals: Seq::empty(), open: None },
        trigger: TriggerView {
            mode: TriggerMode::Gated,
            quiet_gap_ms: 2000,
            listening: true,
            names: Seq::empty(),
            named: false,
            pending: None,
            fired: false,
            recent: Seq::empty(),
        },
        lanes: LaneView {
            trunk_id: None,
            fast_id: None,
            deep_id: None,
            fast_cursor: 0,
            deep_cursor: 0,
            fast_in_flight: false,
            deep_in_flight: false,
            drafts: Seq::empty(),
            catchup_used: false,
            cfg: None,
            failed: Seq::empty(),
        },
        voice: VoiceView {
            capturing: false,
            settled: Seq::empty(),
            running: Seq::empty(),
            linger_armed: false,
            silence_gap_ms: SILENCE_GAP_MS,
            max_capture_ms: MAX_CAPTURE_MS,
            submit_linger_ms: SUBMIT_LINGER_MS,
        },
        voice_baseline: Seq::empty(),
        qa_log: Seq::empty(),
        enabled: true,
        session_open: false,
        lanes_ready: false,
        claude_ok: false,
        last_error: None,
        mode: TriggerMode::Gated,
        listening: true,
        pending_brief: None,
        note_state: NoteState::Idle,
        note_draft: None,
        note_markdown: Seq::empty(),
        note_error: None,
        session_transcript: Seq::empty(),
        transcript_ingest_ok: false,
    }
}

/// The trigger engine retuned to `mode` and `listening`, with the quiet gap
/// and names from the settings.
pub open spec fn retuned(c: CoreView, mode: TriggerMode, listening: bool) -> (TriggerView, GapCommand) {
    update_spec(c.trigger, mode, c.settings.quiet_gap_ms, listening, split_names_spec(c.settings.names))
}

/// A mode applied: the engine is retuned to it.
pub open spec fn mode_applied(c: CoreView, mode: TriggerMode) -> (CoreView, GapCommand) {
    let (t, g) = retuned(c, mode, c.listening);
    (CoreView { mode, trigger: t, ..c }, g)
}

/// manual, then gated, then continuous, then manual again.
pub open spec fn next_mode(mode: TriggerMode) -> TriggerMode {
    match mode {
        TriggerMode::Manual => TriggerMode::Gated,
        TriggerMode::Gated => TriggerMode::Continuous,
        TriggerMode::Continuous => TriggerMode::Manual,
    }
}

/// The mode a settings value names; an unknown name means gated.
pub open spec fn settings_mode(raw: Seq<char>) -> TriggerMode {
    match parse_mode_spec(raw) {
        Ok(m) => m,
        Err(_) => TriggerMode::Gated,
    }
}

/// What a press that cannot go ahead reports: a closed session first, since
/// that is the more specific of the two, then a disabled assistant.
pub open spec fn gate_error(c: CoreView) -> Option<Seq<char>> {
    if !c.session_open {
        Some("Assistant session is not open yet."@)
    } else if !c.enabled {
        Some("Assistant is turned off."@)
    } else {
        None
    }
}

/// What the caller does after `set_enabled`.
pub struct EnableStep {
    /// Abort every turn still in flight.
    pub close_lanes: bool,
    /// What voice ask publishes and which timers it stops.
    pub voice: VoiceStep,
    /// Open the session now if a recording is already running: the
    /// recording's start already went by and will not come again.
    pub open_if_recording: bool,
}

impl AssistantCore {
    /// A session that is not open yet, with the given settings: enabled,
    /// gated, listening, nothing heard, nothing drafted.
    pub fn new(settings: AssistantSettings) -> (c: AssistantCore)
        ensures
            c@ == initial_core(settings@),
    {
        let qa: Vec<String> = Vec::new();
        assert(qa.deep_view() =~= Seq::<Seq<char>>::empty());
        let c = AssistantCore {
            settings,
            transcript: TranscriptLog::new(),
            trigger: TriggerEngine::new(),
            lanes: LaneState::new(),
            voice: VoiceAsk::new(),
            voice_baseline: String::new(),
            qa_log: qa,
            enabled: true,
            session_open: false,
            lanes_ready: false,
            claude_ok: false,
            last_error: None,
            mode: TriggerMode::Gated,
            listening: true,
            pending_brief: None,
            note_state: NoteState::Idle,
            note_draft: None,
            note_markdown: String::new(),
            note_error: None,
            session_transcript: String::new(),
            transcript_ingest_ok: false,
        };
        assert(c@ =~= initial_core(c.settings@));
        c
    }

    /// What the panel shows.
    pub fn status(&self) -> (s: StatusOut)
        ensures
            s.enabled == self.enabled,
            s.session_open == self.session_open,
            s.lanes_ready == self.lanes_ready,
            s.mode@ == mode_label_spec(self.mode),
            s.listening == self.listening,
            s.claude_ok == self.claude_ok,
            opt_str(s.last_error) == self@.last_error,
    {
        StatusOut {
            enabled: self.enabled,
            session_open: self.session_open,
            lanes_ready: self.lanes_ready,
            mode: String::from_str(mode_label(self.mode)),
            listening: self.listening,
            claude_ok: self.claude_ok,
            last_error: match &self.last_error {
                Some(e) => Some(e.clone()),
                None => None,
            },
        }
    }

    /// Retunes the trigger engine to the current mode and listening flag.
    fn retune(&mut self) -> (g: GapCommand)
        ensures
            (final(self)@.trigger, g) == retuned(old(self)@, old(self)@.mode, old(self)@.listening),
            final(self)@ == (CoreView { trigger: final(self)@.trigger, ..old(self)@ }),
    {
        let names = split_names(self.settings.names.as_str());
        self.trigger.update(self.mode, self.settings.quiet_gap_ms, self.listening, names)
    }

    fn apply_mode(&mut self, mode: TriggerMode) -> (g: GapCommand)
        ensures
            (final(self)@, g) == mode_applied(old(self)@, mode),
    {
        self.mode = mode;
        self.retune()
    }

    /// Applies a mode by name, from the settings page.
    pub fn set_mode(&mut self, raw: &str) -> (r: Result<GapCommand, String>)
        ensures
            match parse_mode_spec(raw@) {
                Err(e) => r matches Err(x) && x@ == e && final(self)@ == old(self)@,
                Ok(m) => r matches Ok(g) && (final(self)@, g) == mode_applied(old(self)@, m),
            },
    {
        match parse_mode(raw) {
            Err(e) => Err(e),
            Ok(m) => Ok(self.apply_mode(m)),
        }
    }

    /// The mode hotkey: manual, gated, continuous, manual.
    pub fn cycle_mode(&mut self) -> (g: GapCommand)
        ensures
            (final(self)@, g) == mode_applied(old(self)@, next_mode(old(self)@.mode)),
    {
        let next = match self.mode {
            TriggerMode::Manual => TriggerMode::Gated,
            TriggerMode::Gated => TriggerMode::Continuous,
            TriggerMode::Continuous => TriggerMode::Manual,
        };
        self.apply_mode(next)
    }

    /// Turns listening on or off; the engine is retuned.
    pub fn set_listening(&mut self, listening: bool) -> (g: GapCommand)
        ensures
            final(self)@ == (CoreView {
                listening,
                trigger: retuned(old(self)@, old(self)@.mode, listening).0,
                ..old(self)@
            }),
            g == retuned(old(self)@, old(self)@.mode, listening).1,
    {
        self.listening = listening;
        self.retune()
    }

    /// Keeps a brief for the next session; a blank one clears it.
    pub fn set_brief(&mut self, text: String)
        ensures
            final(self)@ == (CoreView {
                pending_brief: if trim(text@).len() == 0 {
                    None
                } else {
                    Some(text@)
                },
                ..old(self)@
            }),
    {
        let t = trimmed(Blank::Unicode, &chars_of(text.as_str()));
        self.pending_brief = if t.len() == 0 {
            None
        } else {
            Some(text)
        };
    }

    /// Loads a settings row: its mode (gated when the name is unknown) is
    /// applied and the engine retuned.
    pub fn apply_settings(&mut self, settings: AssistantSettings) -> (g: GapCommand)
        ensures
            ({
                let c = CoreView { settings: settings@, ..old(self)@ };
                (final(self)@, g) == mode_applied(c, settings_mode(settings@.trigger_mode))
            }),
    {
        self.settings = settings;
        let mode = match parse_mode(self.settings.trigger_mode.as_str()) {
            Ok(m) => m,
            Err(_) => TriggerMode::Gated,
        };
        self.apply_mode(mode)
    }

    /// The panel switch. Turning the assistant off closes the session too,
    /// aborts every turn in flight and cancels voice ask, so no later press
    /// gets past the closed-session check into lanes that are gone.
    pub fn set_enabled(&mut self, enabled: bool) -> (r: EnableStep)
        ensures
            enabled ==> {
                &&& final(self)@ == (CoreView { enabled: true, ..old(self)@ })
                &&& !r.close_lanes
                &&& r.voice@ == nothing()
                &&& r.open_if_recording == !old(self)@.session_open
            },
            !enabled ==> {
                let (v, step) = cancel_spec(old(self)@.voice);
                &&& final(self)@ == (CoreView {
                    enabled: false,
                    session_open: false,
                    voice: v,
                    ..old(self)@
                })
                &&& r.close_lanes
                &&& r.voice@ == step
                &&& !r.open_if_recording
            },
    {
        self.enabled = enabled;
        if !enabled {
            let step = self.voice.cancel();
            self.session_open = false;
            EnableStep { close_lanes: true, voice: step, open_if_recording: false }
        } else {
            EnableStep {
                close_lanes: false,
                voice: no_step(),
                open_if_recording: !self.session_open,
            }
        }
    }
}

/// What a direct ask adds to the prompt.
pub const DIRECT_ASK_NOTE: &'static str = "This question was asked by Joseph directly. Do not reply SKIP.";

/// Whether a card that reached the panel goes into the Q&A log: a settled
/// answer or direct ask does; a drafting card, an explain or a catch-up does not.
pub open spec fn logs_card(c: CardOutView) -> bool {
    (c.kind == CardKind::Answer || c.kind == CardKind::Ask) && (c.phase == "checked"@ || c.phase
        == "corrected"@)
}

/// The Q&A log entry for a card.
pub open spec fn qa_entry(c: CardOutView) -> Seq<char> {
    "Q: "@ + c.question + "\nA: "@ + c.lead
}

/// The Q&A log after a card reached the panel.
pub open spec fn logged(qa: Seq<Seq<char>>, c: Option<CardOutView>) -> Seq<Seq<char>> {
    match c {
        Some(card) => if logs_card(card) {
            qa.push(qa_entry(card))
        } else {
            qa
        },
        None => qa,
    }
}

/// A press that cannot go ahead: the reason is what the panel shows.
pub open spec fn turned_away(c: CoreView, e: Seq<char>) -> CoreView {
    CoreView { last_error: Some(e), ..c }
}

fn gate_message(closed: bool) -> (r: String)
    ensures
        closed ==> r@ == "Assistant session is not open yet."@,
        !closed ==> r@ == "Assistant is turned off."@,
{
    if closed {
        String::from_str("Assistant session is not open yet.")
    } else {
        String::from_str("Assistant is turned off.")
    }
}

impl AssistantCore {
    /// Refuses a press when the session is closed or the assistant is off,
    /// and says why through `last_error`.
    fn gate(&mut self) -> (ok: bool)
        ensures
            ok == (gate_error(old(self)@) is None),
            match gate_error(old(self)@) {
                Some(e) => final(self)@ == turned_away(old(self)@, e),
                None => final(self)@ == old(self)@,
            },
    {
        if !self.session_open {
            self.last_error = Some(gate_message(true));
            return false;
        }
        if !self.enabled {
            self.last_error = Some(gate_message(false));
            return false;
        }
        true
    }

    /// A question for both lanes: from a trigger, a typed ask or a submitted
    /// voice ask. `extra` reaches the model's prompt only, never the card.
    pub fn ask(&mut self, question: &str, extra: Option<&str>) -> (r: Option<AnswerPlan>)
        ensures
            match gate_error(old(self)@) {
                Some(e) => r is None && final(self)@ == turned_away(old(self)@, e),
                None => match answer_spec(old(self)@.lanes, question@, opt_str_ref(extra), old(self)@.transcript) {
                    None => r is None && final(self)@ == old(self)@,
                    Some((l, fast, deep)) => r matches Some(p) && p.fast@ == fast && p.deep@ == deep
                        && final(self)@ == (CoreView { lanes: l, ..old(self)@ }),
                },
            },
    {
        if !self.gate() {
            return None;
        }
        self.lanes.plan_answer(question, extra, &self.transcript)
    }

    /// A question Joseph asked himself, typed or spoken: it must get an
    /// answer, so the prompt says so.
    pub fn ask_directly(&mut self, question: &str) -> (r: Option<AnswerPlan>)
        ensures
            match gate_error(old(self)@) {
                Some(e) => r is None && final(self)@ == turned_away(old(self)@, e),
                None => match answer_spec(
                    old(self)@.lanes,
                    question@,
                    Some(DIRECT_ASK_NOTE@),
                    old(self)@.transcript,
                ) {
                    None => r is None && final(self)@ == old(self)@,
                    Some((l, fast, deep)) => r matches Some(p) && p.fast@ == fast && p.deep@ == deep
                        && final(self)@ == (CoreView { lanes: l, ..old(self)@ }),
                },
            },
    {
        self.ask(question, Some(DIRECT_ASK_NOTE))
    }

    /// Explain the last stretch of the Them channel, on the fast lane.
    pub fn explain(&mut self) -> (r: Option<FastOnlyPlan>)
        ensures
            match gate_error(old(self)@) {
                Some(e) => r is None && final(self)@ == turned_away(old(self)@, e),
                None => ({
                    let (l, t) = explain_spec(old(self)@.lanes, old(self)@.transcript);
                    &&& plan_turn(r) == t
                    &&& final(self)@ == (CoreView { lanes: l, ..old(self)@ })
                    &&& r matches Some(p) ==> p.kind == CardKind::Explain
                }),
            },
    {
        if !self.gate() {
            return None;
        }
        self.lanes.plan_explain(&self.transcript)
    }

    /// Catch up on the meeting, on the fast lane.
    pub fn catchup(&mut self) -> (r: Option<FastOnlyPlan>)
        ensures
            match gate_error(old(self)@) {
                Some(e) => r is None && final(self)@ == turned_away(old(self)@, e),
                None => ({
                    let (l, t) = catchup_spec(old(self)@.lanes, old(self)@.transcript);
                    &&& plan_turn(r) == t
                    &&& final(self)@ == (CoreView { lanes: l, ..old(self)@ })
                    &&& r matches Some(p) ==> p.kind == CardKind::Catchup
                }),
            },
    {
        if !self.gate() {
            return None;
        }
        self.lanes.plan_catchup(&self.transcript)
    }

    /// Every card that reaches the panel passes through here; a settled
    /// answer or direct ask is appended to the Q&A log.
    pub fn record_card(&mut self, card: &CardOut)
        ensures
            final(self)@ == (CoreView { qa_log: logged(old(self)@.qa_log, Some(card@)), ..old(self)@ }),
    {
        let settled = same_text(card.phase.as_str(), "checked") || same_text(
            card.phase.as_str(),
            "corrected",
        );
        if (card.kind == CardKind::Answer || card.kind == CardKind::Ask) && settled {
            let entry = String::from_str("Q: ").concat(card.question.as_str()).concat(
                "\nA: ",
            ).concat(card.lead.as_str());
            let ghost before = self.qa_log.deep_view();
            self.qa_log.push(entry);
            assert(self.qa_log.deep_view() =~= before.push(qa_entry(card@)));
        }
    }

    /// The deep pass of an answer finished: the card settles, and a settled
    /// card is logged.
    pub fn settle_answer(
        &mut self,
        id: &str,
        kind: CardKind,
        question: &str,
        deep: ParsedCard,
        ts: i64,
    ) -> (r: Option<CardOut>)
        ensures
            ({
                let (l, c) = settle_spec(old(self)@.lanes, id@, kind, question@, deep@, ts);
                &&& card_opt(r) == c
                &&& final(self)@ == (CoreView {
                    lanes: l,
                    qa_log: logged(old(self)@.qa_log, c),
                    ..old(self)@
                })
            }),
    {
        let r = self.lanes.deep_done(id, kind, question, deep, ts);
        match &r {
            Some(card) => self.record_card(card),
            None => {},
        }
        r
    }

    /// The fast pass of an answer finished. A card whose deep pass already
    /// failed settles now, and is logged; otherwise the reply waits as the
    /// card's draft.
    pub fn settle_fast_answer(
        &mut self,
        id: &str,
        kind: CardKind,
        question: &str,
        parsed: ParsedCard,
        ts: i64,
    ) -> (r: Option<CardOut>)
        ensures
            ({
                let (l, c) = fast_done_spec(old(self)@.lanes, id@, kind, question@, parsed@, ts);
                &&& card_opt(r) == c
                &&& final(self)@ == (CoreView {
                    lanes: l,
                    qa_log: logged(old(self)@.qa_log, c),
                    ..old(self)@
                })
            }),
    {
        let r = self.lanes.fast_done(id, kind, question, parsed, ts);
        match &r {
            Some(card) => self.record_card(card),
            None => {},
        }
        r
    }

    /// A lane turn failed: the panel shows its error.
    pub fn turn_failed(&mut self, err: &str)
        ensures
            final(self)@ == (CoreView { last_error: Some(err@), ..old(self)@ }),
    {
        self.last_error = Some(String::from_str(err));
    }

    /// The deep pass of an answer failed: the panel shows the error, and a
    /// card with a fast draft settles `checked` with the draft's content,
    /// logged like any settled card, rather than staying a draft.
    pub fn settle_failed_answer(
        &mut self,
        id: &str,
        kind: CardKind,
        question: &str,
        err: &str,
        ts: i64,
    ) -> (r: Option<CardOut>)
        ensures
            ({
                let (l, c) = deep_failed_spec(old(self)@.lanes, id@, kind, question@, ts);
                &&& card_opt(r) == c
                &&& final(self)@ == (CoreView {
                    lanes: l,
                    qa_log: logged(old(self)@.qa_log, c),
                    last_error: Some(err@),
                    ..old(self)@
                })
            }),
    {
        let r = self.lanes.deep_failed(id, kind, question, ts);
        match &r {
            Some(card) => self.record_card(card),
            None => {},
        }
        self.turn_failed(err);
        r
    }

    /// A fast-only reply finished: the card lands, and is logged when it
    /// is a direct ask or answer.
    pub fn settle_fast_only(
        &mut self,
        id: &str,
        kind: CardKind,
        question: &str,
        parsed: ParsedCard,
        ts: i64,
    ) -> (r: Option<CardOut>)
        ensures
            ({
                let (l, c) = fast_only_done_spec(old(self)@.lanes, id@, kind, question@, parsed@, ts);
                &&& card_opt(r) == c
                &&& final(self)@ == (CoreView {
                    lanes: l,
                    qa_log: logged(old(self)@.qa_log, c),
                    ..old(self)@
                })
            }),
    {
        let r = self.lanes.fast_only_done(id, kind, question, parsed, ts);
        match &r {
            Some(card) => self.record_card(card),
            None => {},
        }
        r
    }

    /// Voice ask starts: the open You utterance's text so far becomes the
    /// baseline that is kept out of the question.
    pub fn voice_start(&mut self) -> (s: VoiceStep)
        ensures
            ({
                let (v, step) = start_spec(old(self)@.voice);
                &&& s@ == step
                &&& final(self)@ == (CoreView {
                    voice: v,
                    voice_baseline: open_you_preview_spec(old(self)@.transcript),
                    ..old(self)@
                })
            }),
    {
        self.voice_baseline = self.transcript.open_you_preview();
        self.voice.start()
    }

    /// Voice ask ends and submits what it heard.
    pub fn voice_finish(&mut self) -> (s: VoiceStep)
        ensures
            ({
                let (v, step) = finish_spec(old(self)@.voice);
                s@ == step && final(self)@ == (CoreView { voice: v, ..old(self)@ })
            }),
    {
        self.voice.finish()
    }

    /// Voice ask is abandoned.
    pub fn voice_cancel(&mut self) -> (s: VoiceStep)
        ensures
            ({
                let (v, step) = cancel_spec(old(self)@.voice);
                s@ == step && final(self)@ == (CoreView { voice: v, ..old(self)@ })
            }),
    {
        self.voice.cancel()
    }

    /// The voice hotkey: finishes a capture in progress, starts one otherwise.
    pub fn voice_toggle(&mut self) -> (s: VoiceStep)
        ensures
            old(self)@.voice.capturing ==> ({
                let (v, step) = finish_spec(old(self)@.voice);
                s@ == step && final(self)@ == (CoreView { voice: v, ..old(self)@ })
            }),
            !old(self)@.voice.capturing ==> ({
                let (v, step) = start_spec(old(self)@.voice);
                &&& s@ == step
                &&& final(self)@ == (CoreView {
                    voice: v,
                    voice_baseline: open_you_preview_spec(old(self)@.transcript),
                    ..old(self)@
                })
            }),
    {
        if self.voice.is_capturing() {
            self.voice_finish()
        } else {
            self.voice_start()
        }
    }
}

/// The whole transcript, labeled, one final per line.
pub open spec fn transcript_text(log: LogView) -> Seq<char> {
    join(lines_of(log.finals), "\n"@)
}

/// The Q&A log as the note sees it: entries separated by blank lines.
pub open spec fn qa_text(qa: Seq<Seq<char>>) -> Seq<char> {
    join(qa, "\n\n"@)
}

/// Everything a note save writes, laid out.
#[derive(Debug)]
pub struct NoteSave {
    pub vault_root: String,
    /// `<vault_root>/_sources/meetings`
    pub meetings_dir: String,
    pub note_path: String,
    pub transcript_path: String,
    pub note_content: String,
    /// The transcript as it stood when the note was drafted.
    pub transcript: String,
    pub commit_message: String,
}

impl AssistantCore {
    /// Starts drafting the end-of-meeting note: refused while recording;
    /// otherwise the note is drafting and the transcript is kept for the
    /// save, and the result is the note turn or why there is none.
    pub fn begin_draft_note(&mut self) -> (r: Result<Result<ClaudeTurn, String>, String>)
        ensures
            old(self)@.session_open ==> (r matches Err(e) && e@
                == "stop the recording before drafting a note"@ && final(self)@ == old(self)@),
            !old(self)@.session_open ==> ({
                let t = transcript_text(old(self)@.transcript);
                &&& final(self)@ == (CoreView {
                    note_state: NoteState::Drafting,
                    note_error: None,
                    session_transcript: t,
                    ..old(self)@
                })
                &&& r matches Ok(inner) && match (
                    inner,
                    note_turn_spec(old(self)@.lanes, t, qa_text(old(self)@.qa_log)),
                ) {
                    (Ok(turn), Ok(u)) => turn@ == u,
                    (Err(e), Err(f)) => e@ == f,
                    _ => false,
                }
            }),
    {
        if self.session_open {
            return Err(String::from_str("stop the recording before drafting a note"));
        }
        self.note_state = NoteState::Drafting;
        self.note_error = None;
        let transcript = self.transcript.all();
        let qa = join_with(&self.qa_log, "\n\n");
        let turn = self.lanes.plan_note(transcript.as_str(), qa.as_str());
        self.session_transcript = transcript;
        Ok(turn)
    }

    /// The note turn came back: a reply that parses is ready to save;
    /// anything else fails with its reason.
    pub fn finish_draft_note(&mut self, result: Result<String, String>)
        ensures
            match result {
                Err(e) => final(self)@ == (CoreView {
                    note_state: NoteState::Failed,
                    note_error: Some(e@),
                    ..old(self)@
                }),
                Ok(raw) => match parse_note_spec(raw@) {
                    Ok((slug, markdown)) => final(self)@ == (CoreView {
                        note_markdown: markdown,
                        note_draft: Some((slug, markdown)),
                        note_state: NoteState::Ready,
                        note_error: None,
                        ..old(self)@
                    }),
                    Err(e) => final(self)@ == (CoreView {
                        note_state: NoteState::Failed,
                        note_error: Some(e),
                        ..old(self)@
                    }),
                },
            },
    {
        match result {
            Ok(raw) => match parse_note(raw.as_str()) {
                Ok(draft) => {
                    self.note_markdown = draft.markdown.clone();
                    self.note_draft = Some(draft);
                    self.note_state = NoteState::Ready;
                    self.note_error = None;
                },
                Err(e) => {
                    self.note_state = NoteState::Failed;
                    self.note_error = Some(e);
                },
            },
            Err(e) => {
                self.note_state = NoteState::Failed;
                self.note_error = Some(e);
            },
        }
    }

    /// Lays out a save of the drafted note on `date`. With no draft, the
    /// note fails instead.
    pub fn begin_save_note(&mut self, date: &str) -> (r: Option<NoteSave>)
        ensures
            match old(self)@.note_draft {
                None => r is None && final(self)@ == (CoreView {
                    note_state: NoteState::Failed,
                    note_error: Some("no note draft to save"@),
                    ..old(self)@
                }),
                Some((slug, markdown)) => final(self)@ == old(self)@ && (r matches Some(p) && {
                    &&& exists|h: Option<Seq<char>>| p.vault_root@
                        == #[trigger] vault_root_spec(old(self)@.settings.vault_root, h)
                    &&& trim(old(self)@.settings.vault_root).len() > 0 ==> p.vault_root@ == trim(
                        old(self)@.settings.vault_root,
                    )
                    &&& p.meetings_dir@ == join_path(
                        join_path(p.vault_root@, "_sources"@),
                        "meetings"@,
                    )
                    &&& p.note_path@ == join_path(p.meetings_dir@, note_file_spec(date@, slug))
                    &&& p.transcript_path@ == join_path(
                        p.meetings_dir@,
                        transcript_file_spec(date@, slug),
                    )
                    &&& p.note_content@ == note_content_spec(
                        date@,
                        slug,
                        markdown,
                        qa_text(old(self)@.qa_log),
                    )
                    &&& p.transcript@ == old(self)@.session_transcript
                    &&& p.commit_message@ == "Meeting note: "@ + slug
                }),
            },
    {
        let draft = match &self.note_draft {
            Some(d) => d,
            None => {
                self.note_state = NoteState::Failed;
                self.note_error = Some(String::from_str("no note draft to save"));
                return None;
            },
        };
        let vault_root = resolve_vault_root(self.settings.vault_root.as_str());
        proof {
            let w = choose|h: Option<Seq<char>>|
                vault_root@ == #[trigger] vault_root_spec(self.settings.vault_root@, h);
            assert(vault_root@ == vault_root_spec(self@.settings.vault_root, w));
        }
        let sources = join_path_exec(vault_root.as_str(), "_sources");
        let meetings_dir = join_path_exec(sources.as_str(), "meetings");
        let qa = join_with(&self.qa_log, "\n\n");
        let plan = note_plan(date, draft, qa.as_str());
        let note_path = join_path_exec(meetings_dir.as_str(), plan.note_file.as_str());
        let transcript_path = join_path_exec(meetings_dir.as_str(), plan.transcript_file.as_str());
        Some(
            NoteSave {
                vault_root,
                meetings_dir,
                note_path,
                transcript_path,
                note_content: plan.note_content,
                transcript: self.session_transcript.clone(),
                commit_message: plan.commit_message,
            },
        )
    }

    /// The save finished: saved, or failed with its reason.
    pub fn finish_save_note(&mut self, result: Result<(), String>)
        ensures
            match result {
                Ok(()) => final(self)@ == (CoreView {
                    note_state: NoteState::Saved,
                    note_error: None,
                    ..old(self)@
                }),
                Err(e) => final(self)@ == (CoreView {
                    note_state: NoteState::Failed,
                    note_error: Some(e@),
                    ..old(self)@
                }),
            },
    {
        match result {
            Ok(()) => {
                self.note_state = NoteState::Saved;
                self.note_error = None;
            },
            Err(e) => {
                self.note_state = NoteState::Failed;
                self.note_error = Some(e);
            },
        }
    }

    /// Throws the drafted note away.
    pub fn discard_note(&mut self)
        ensures
            final(self)@ == (CoreView {
                note_state: NoteState::Idle,
                note_draft: None,
                note_markdown: Seq::empty(),
                note_error: None,
                ..old(self)@
            }),
    {
        self.note_state = NoteState::Idle;
        self.note_draft = None;
        self.note_markdown = String::new();
        self.note_error = None;
    }
}

// ---------------------------------------------------------------------
// Routing the transcript
// ---------------------------------------------------------------------

/// What one assembler output did: what voice ask published, if it heard
/// it, and what the trigger engine decided.
pub struct RouteStep {
    pub voice: Option<VoiceStep>,
    pub trigger: TriggerStep,
}

pub struct RouteStepView {
    pub voice: Option<StepView>,
    pub fire: Option<FireView>,
    pub gap: GapCommand,
}

impl View for RouteStep {
    type V = RouteStepView;

    open spec fn view(&self) -> RouteStepView {
        RouteStepView {
            voice: match self.voice {
                Some(v) => Some(v@),
                None => None,
            },
            fire: fire_opt(self.trigger.fire),
            gap: self.trigger.gap,
        }
    }
}

/// The parts of the session that transcript text moves.
pub struct RouteState {
    pub voice: VoiceView,
    pub baseline: Seq<char>,
    pub trigger: TriggerView,
}

/// One assembler output: You text reaches voice ask while it captures, with
/// the baseline taken off; every output reaches the trigger engine. A closed
/// You utterance that voice ask heard ends the baseline's reach.
pub open spec fn route_one(st: RouteState, out: OutView) -> (RouteState, RouteStepView) {
    match out {
        OutView::Running { speaker, text } => {
            let hear = speaker == Speaker::You && st.voice.capturing;
            let (v, vs) = note_running_spec(st.voice, strip_baseline_spec(st.baseline, text));
            let (t, f, g) = running_spec(st.trigger, speaker, text);
            (
                RouteState {
                    voice: if hear {
                        v
                    } else {
                        st.voice
                    },
                    baseline: st.baseline,
                    trigger: t,
                },
                RouteStepView {
                    voice: if hear {
                        Some(vs)
                    } else {
                        None
                    },
                    fire: f,
                    gap: g,
                },
            )
        },
        OutView::Utterance { speaker, text } => {
            let hear = speaker == Speaker::You && st.voice.capturing;
            let (v, vs) = note_utterance_spec(st.voice, strip_baseline_spec(st.baseline, text));
            let (t, f, g) = utterance_spec(st.trigger, speaker, text);
            (
                RouteState {
                    voice: if hear {
                        v
                    } else {
                        st.voice
                    },
                    baseline: if hear {
                        Seq::empty()
                    } else {
                        st.baseline
                    },
                    trigger: t,
                },
                RouteStepView {
                    voice: if hear {
                        Some(vs)
                    } else {
                        None
                    },
                    fire: f,
                    gap: g,
                },
            )
        },
    }
}

/// Every output in order.
pub open spec fn route_all(st: RouteState, outs: Seq<OutView>) -> (RouteState, Seq<RouteStepView>)
    decreases outs.len(),
{
    if outs.len() == 0 {
        (st, Seq::empty())
    } else {
        let (s1, steps) = route_all(st, outs.drop_last());
        let (s2, step) = route_one(s1, outs.last());
        (s2, steps.push(step))
    }
}

pub open spec fn route_state(c: CoreView) -> RouteState {
    RouteState { voice: c.voice, baseline: c.voice_baseline, trigger: c.trigger }
}

pub open spec fn with_route(c: CoreView, st: RouteState) -> CoreView {
    CoreView { voice: st.voice, voice_baseline: st.baseline, trigger: st.trigger, ..c }
}

impl AssistantCore {
    /// Routes one assembler output.
    fn route(&mut self, out: &AssemblerOut) -> (step: RouteStep)
        ensures
            (route_state(final(self)@), step@) == route_one(route_state(old(self)@), out@),
            final(self)@ == with_route(old(self)@, route_state(final(self)@)),
    {
        match out {
            AssemblerOut::Running { speaker, text } => {
                let voice = if *speaker == Speaker::You && self.voice.is_capturing() {
                    let heard = strip_voice_baseline(self.voice_baseline.as_str(), text.as_str());
                    Some(self.voice.note_running(heard.as_str()))
                } else {
                    None
                };
                let trigger = self.trigger.consume_running(*speaker, text.as_str());
                RouteStep { voice, trigger }
            },
            AssemblerOut::Utterance { speaker, text } => {
                let voice = if *speaker == Speaker::You && self.voice.is_capturing() {
                    let heard = strip_voice_baseline(self.voice_baseline.as_str(), text.as_str());
                    let v = self.voice.note_utterance(heard.as_str());
                    self.voice_baseline = String::new();
                    Some(v)
                } else {
                    None
                };
                let trigger = self.trigger.consume_utterance(*speaker, text.as_str());
                RouteStep { voice, trigger }
            },
        }
    }

    /// A transcript update. While the assistant is off or the session is
    /// closed nothing is ingested; otherwise the log takes it in and each
    /// output is routed, in order.
    pub fn on_transcript_update(&mut self, update: &TranscriptUpdate) -> (r: Vec<RouteStep>)
        ensures
            !(old(self)@.enabled && old(self)@.session_open) ==> r@.len() == 0 && final(self)@ == (
            CoreView { transcript_ingest_ok: false, ..old(self)@ }),
            old(self)@.enabled && old(self)@.session_open ==> ({
                let (log, outs) = ingest_spec(old(self)@.transcript, update@);
                let (st, steps) = route_all(route_state(old(self)@), outs);
                &&& r@.map_values(|x: RouteStep| x@) == steps
                &&& final(self)@ == with_route(
                    CoreView { transcript: log, transcript_ingest_ok: true, ..old(self)@ },
                    st,
                )
            }),
    {
        if !self.enabled || !self.session_open {
            self.transcript_ingest_ok = false;
            let none: Vec<RouteStep> = Vec::new();
            return none;
        }
        self.transcript_ingest_ok = true;
        let outs = self.transcript.ingest(update);
        let ghost outs_v = outs@.map_values(|o: AssemblerOut| o@);
        let ghost c1 = self@;
        let ghost st0 = route_state(c1);
        let mut steps: Vec<RouteStep> = Vec::new();
        let n = outs.len();
        assert(outs_v.take(0) =~= Seq::<OutView>::empty());
        assert(steps@.map_values(|x: RouteStep| x@) =~= Seq::<RouteStepView>::empty());
        for i in 0..n
            invariant
                n == outs@.len(),
                outs_v == outs@.map_values(|o: AssemblerOut| o@),
                st0 == route_state(c1),
                route_all(st0, outs_v.take(i as int)) == (
                    route_state(self@),
                    steps@.map_values(|x: RouteStep| x@),
                ),
                self@ == with_route(c1, route_state(self@)),
        {
            assert(outs_v.take(i + 1).drop_last() =~= outs_v.take(i as int));
            assert(outs_v.take(i + 1).last() == outs@[i as int]@);
            let ghost before = steps@;
            let step = self.route(&outs[i]);
            steps.push(step);
            assert(steps@.map_values(|x: RouteStep| x@) =~= before.map_values(|x: RouteStep| x@).push(
                step@,
            ));
        }
        assert(outs_v.take(n as int) =~= outs_v);
        steps
    }
}

// ---------------------------------------------------------------------
// Opening and closing
// ---------------------------------------------------------------------

/// What opening decided before any turn runs: whether to go on, and the
/// brief the seed carries.
pub struct OpenStart {
    pub proceed: bool,
    pub brief: Option<String>,
}

/// The engine with the current utterance and every remembered fire forgotten.
pub open spec fn reset_trigger(e: TriggerView) -> TriggerView {
    TriggerView { pending: None, named: false, fired: false, recent: Seq::empty(), ..e }
}

/// The session after a recording starts: fresh settings, an empty log, a
/// reset and retuned engine, no Q&A log, no note, not open yet; enabled as
/// decided, with the brief taken when it goes ahead.
pub open spec fn fresh_session(c: CoreView, s: SettingsView, go: bool) -> CoreView {
    let m = settings_mode(s.trigger_mode);
    CoreView {
        settings: s,
        transcript: LogView { finals: Seq::empty(), open: None },
        trigger: update_spec(
            reset_trigger(c.trigger),
            m,
            s.quiet_gap_ms,
            c.listening,
            split_names_spec(s.names),
        ).0,
        qa_log: Seq::empty(),
        note_state: NoteState::Idle,
        note_draft: None,
        note_markdown: Seq::empty(),
        note_error: None,
        session_transcript: Seq::empty(),
        session_open: false,
        lanes_ready: false,
        mode: m,
        enabled: go,
        pending_brief: if go {
            None
        } else {
            c.pending_brief
        },
        ..c
    }
}

/// Lanes configured for a meeting and not opened yet.
pub open spec fn configured_lanes(cfg: ConfigView) -> LaneView {
    LaneView {
        trunk_id: None,
        fast_id: None,
        deep_id: None,
        fast_cursor: 0,
        deep_cursor: 0,
        fast_in_flight: false,
        deep_in_flight: false,
        drafts: Seq::empty(),
        catchup_used: false,
        cfg: Some(cfg),
        failed: Seq::empty(),
    }
}

impl AssistantCore {
    /// A recording started. The settings are reloaded, the session reset,
    /// and the session goes ahead when the assistant is enabled: by
    /// `force_enabled` when given (a press of the panel switch during a
    /// recording), by the settings otherwise. The caller stops the quiet-gap
    /// timer.
    pub fn begin_open_session(&mut self, settings: AssistantSettings, force_enabled: Option<bool>) -> (r:
        OpenStart)
        ensures
            ({
                let go = match force_enabled {
                    Some(b) => b,
                    None => settings@.enabled,
                };
                &&& final(self)@ == fresh_session(old(self)@, settings@, go)
                &&& r.proceed == go
                &&& opt_str(r.brief) == if go {
                    old(self)@.pending_brief
                } else {
                    None
                }
            }),
    {
        let go = match force_enabled {
            Some(b) => b,
            None => settings.enabled,
        };
        self.settings = settings;
        self.transcript = TranscriptLog::new();
        assert(self@.transcript =~= (LogView { finals: Seq::empty(), open: None }));
        self.trigger.reset();
        let qa: Vec<String> = Vec::new();
        assert(qa.deep_view() =~= Seq::<Seq<char>>::empty());
        self.qa_log = qa;
        self.note_state = NoteState::Idle;
        self.note_draft = None;
        self.note_markdown = String::new();
        self.note_error = None;
        self.session_transcript = String::new();
        self.session_open = false;
        self.lanes_ready = false;
        self.mode = match parse_mode(self.settings.trigger_mode.as_str()) {
            Ok(m) => m,
            Err(_) => TriggerMode::Gated,
        };
        self.retune();
        if !go {
            self.enabled = false;
            OpenStart { proceed: false, brief: None }
        } else {
            self.enabled = true;
            let brief = self.pending_brief.take();
            OpenStart { proceed: true, brief }
        }
    }

    /// The binary going by `program` was looked up and probed. The session
    /// goes on only when a binary was found and answered; otherwise the
    /// probe's error, or a missing binary, is what the panel shows.
    pub fn probe_done(&mut self, probe: &ClaudeProbe, found: bool, program: &str) -> (go: bool)
        ensures
            go == (found && probe.ok),
            go ==> final(self)@ == (CoreView { claude_ok: probe.ok, ..old(self)@ }),
            !go ==> final(self)@ == (CoreView {
                claude_ok: probe.ok,
                last_error: Some(
                    match probe@.error {
                        Some(e) => e,
                        None => program@ + " binary not found"@,
                    },
                ),
                ..old(self)@
            }),
    {
        self.claude_ok = probe.ok;
        if found && probe.ok {
            return true;
        }
        self.last_error = Some(
            match &probe.error {
                Some(e) => e.clone(),
                None => String::from_str(program).concat(" binary not found"),
            },
        );
        false
    }

    /// The session's working directory could not be made.
    pub fn session_dir_failed(&mut self, err: &str)
        ensures
            final(self)@ == (CoreView {
                last_error: Some("could not create the assistant session dir: "@ + err@),
                ..old(self)@
            }),
    {
        self.last_error = Some(
            String::from_str("could not create the assistant session dir: ").concat(err),
        );
    }

    /// The lanes' configuration for this meeting: the settings' models and
    /// efforts, the deep lane's read directories resolved, and the given
    /// working directory and system prompts.
    pub fn lane_config(&self, cwd: String, fast_prompt: String, deep_prompt: String, note_prompt: String) -> (cfg:
        LaneConfig)
        ensures
            cfg.cwd@ == cwd@,
            cfg.fast_model@ == self@.settings.fast_model,
            cfg.fast_effort@ == self@.settings.fast_effort,
            cfg.deep_model@ == self@.settings.deep_model,
            cfg.deep_effort@ == self@.settings.deep_effort,
            exists|h: Option<Seq<char>>| cfg.deep_read_dirs.deep_view()
                == #[trigger] deep_read_dirs_spec(self@.settings.deep_read_dirs, h),
            trim(self@.settings.deep_read_dirs).len() > 0 ==> cfg.deep_read_dirs.deep_view()
                == split_names_spec(trim(self@.settings.deep_read_dirs)),
            cfg.fast_prompt@ == fast_prompt@,
            cfg.deep_prompt@ == deep_prompt@,
            cfg.note_prompt@ == note_prompt@,
    {
        let dirs = resolve_deep_read_dirs(self.settings.deep_read_dirs.as_str());
        proof {
            let w = choose|h: Option<Seq<char>>|
                dirs.deep_view() == #[trigger] deep_read_dirs_spec(self.settings.deep_read_dirs@, h);
            assert(dirs.deep_view() == deep_read_dirs_spec(self@.settings.deep_read_dirs, w));
        }
        LaneConfig {
            cwd,
            fast_model: self.settings.fast_model.clone(),
            fast_effort: self.settings.fast_effort.clone(),
            deep_model: self.settings.deep_model.clone(),
            deep_effort: self.settings.deep_effort.clone(),
            deep_read_dirs: dirs,
            note_prompt,
            fast_prompt,
            deep_prompt,
        }
    }

    /// Fresh lanes for this meeting, configured; the result is the trunk's
    /// seed turn, run under `trunk_id`.
    pub fn open_lanes(&mut self, cfg: LaneConfig, seed: &str, trunk_id: &str) -> (t: ClaudeTurn)
        ensures
            t@ == trunk_view(seed@, cfg@, trunk_id@),
            final(self)@ == (CoreView { lanes: configured_lanes(cfg@), ..old(self)@ }),
    {
        let t = LaneState::trunk_turn(seed, &cfg, trunk_id);
        self.lanes = LaneState::new();
        self.lanes.configure(cfg);
        assert(self@.lanes =~= configured_lanes(cfg@));
        t
    }

    /// The trunk's seed came back. A failed seed opens nothing; otherwise
    /// the trunk is kept and its two forks are what runs next.
    pub fn trunk_seeded(&mut self, outcome: &ClaudeOutcome, minted: &str) -> (forks: Option<
        (ClaudeTurn, ClaudeTurn),
    >)
        ensures
            outcome.error is Some ==> forks is None && final(self)@ == old(self)@,
            outcome.error is None ==> ({
                let l = LaneView {
                    trunk_id: Some(
                        match outcome.session_id {
                            Some(s) => s@,
                            None => minted@,
                        },
                    ),
                    ..old(self)@.lanes
                };
                &&& final(self)@ == (CoreView { lanes: l, ..old(self)@ })
                &&& match forks_spec(l) {
                    Some((f, d)) => forks matches Some(p) && p.0@ == f && p.1@ == d,
                    None => forks is None,
                }
            }),
    {
        if !self.lanes.trunk_seeded(outcome, minted) {
            return None;
        }
        self.lanes.fork_turns()
    }

    /// The forks came back (with no id for a failed one). The session is
    /// open either way; unless both lanes are ready, the panel says the
    /// lanes failed to open.
    pub fn lanes_opened(&mut self, fast_id: Option<String>, deep_id: Option<String>)
        ensures
            ({
                let ready = fast_id is Some && deep_id is Some;
                final(self)@ == (CoreView {
                    lanes: LaneView {
                        fast_id: opt_str(fast_id),
                        deep_id: opt_str(deep_id),
                        ..old(self)@.lanes
                    },
                    lanes_ready: ready,
                    session_open: true,
                    last_error: if ready {
                        None
                    } else {
                        Some("assistant lanes failed to open"@)
                    },
                    ..old(self)@
                })
            }),
    {
        self.lanes.forks_done(fast_id, deep_id);
        self.lanes_ready = self.lanes.is_ready();
        self.session_open = true;
        self.last_error = if self.lanes_ready {
            None
        } else {
            Some(String::from_str("assistant lanes failed to open"))
        };
    }

    /// The recording stopped. The transcript and the Q&A log stay for the
    /// note; the result says whether a session was open, and so whether the
    /// caller aborts the turns still in flight.
    pub fn close_session(&mut self) -> (closed: bool)
        ensures
            closed == old(self)@.session_open,
            final(self)@ == (CoreView { session_open: false, ..old(self)@ }),
    {
        if !self.session_open {
            return false;
        }
        self.session_open = false;
        true
    }
}


// ---------------------------------------------------------------------
// Laws
// ---------------------------------------------------------------------

/// A mode's name reads back as that mode, so whatever the panel shows can be
/// set again.
pub proof fn law_mode_names_round_trip(mode: TriggerMode)
    ensures
        parse_mode_spec(mode_label_spec(mode)) == Ok::<TriggerMode, Seq<char>>(mode),
{
    reveal_strlit("manual");
    reveal_strlit("gated");
    reveal_strlit("continuous");
    assert("manual"@.len() == 6 && "gated"@.len() == 5 && "continuous"@.len() == 10);
}

/// The mode hotkey comes back to where it started after three presses.
pub proof fn law_mode_cycle_has_period_three(mode: TriggerMode)
    ensures
        next_mode(next_mode(next_mode(mode))) == mode,
        next_mode(mode) != mode,
{
}

/// Only a settled answer or direct ask enters the Q&A log, as one entry at
/// the end; a drafting card, an explain or a catch-up leaves it as it was.
pub proof fn law_only_settled_answers_are_logged(qa: Seq<Seq<char>>, c: CardOutView)
    ensures
        logs_card(c) ==> logged(qa, Some(c)) == qa.push(qa_entry(c)),
        !logs_card(c) ==> logged(qa, Some(c)) == qa,
        c.phase == "drafting"@ ==> logged(qa, Some(c)) == qa,
        (c.kind == CardKind::Explain || c.kind == CardKind::Catchup) ==> logged(qa, Some(c)) == qa,
{
    reveal_strlit("drafting");
    reveal_strlit("checked");
    reveal_strlit("corrected");
    assert("drafting"@.len() == 8 && "checked"@.len() == 7 && "corrected"@.len() == 9);
}

/// Voice ask hears only what follows the press: text that continues the
/// baseline loses it, and the whitespace after it; text that does not
/// passes through.
pub proof fn law_voice_hears_only_after_the_press(baseline: Seq<char>, rest: Seq<char>, other: Seq<char>)
    requires
        baseline.len() > 0,
        !(baseline.len() <= other.len() && other.subrange(0, baseline.len() as int) == baseline),
    ensures
        strip_baseline_spec(baseline, baseline + rest) == trim_start_k(Blank::Unicode, rest),
        strip_baseline_spec(baseline, other) == other,
{
    let t = baseline + rest;
    assert(t.subrange(0, baseline.len() as int) =~= baseline);
    assert(t.subrange(baseline.len() as int, t.len() as int) =~= rest);
}

/// Every entry of a comma-separated list is non-empty.
proof fn lemma_kept_names_non_empty(pieces: Seq<Seq<char>>)
    ensures
        forall|i: int| 0 <= i < kept_names(pieces).len() ==> #[trigger] kept_names(pieces)[i].len() > 0,
    decreases pieces.len(),
{
    if pieces.len() > 0 {
        lemma_kept_names_non_empty(pieces.drop_last());
        let rest = kept_names(pieces.drop_last());
        let t = trim(pieces.last());
        if t.len() > 0 {
            assert forall|i: int| 0 <= i < rest.push(t).len() implies #[trigger] rest.push(t)[i].len()
                > 0 by {
                if i < rest.len() {
                    assert(rest.push(t)[i] == rest[i]);
                }
            }
        }
    }
}

/// Names and directories split from a settings value are never empty.
pub proof fn law_split_entries_are_never_empty(raw: Seq<char>)
    ensures
        forall|i: int|
            0 <= i < split_names_spec(raw).len() ==> #[trigger] split_names_spec(raw)[i].len() > 0,
{
    lemma_kept_names_non_empty(split(raw, ','));
}

/// A press that cannot go ahead says why: a closed session first, whether
/// or not the assistant is also off, and a disabled assistant otherwise.
pub proof fn law_closed_session_is_reported_first(c: CoreView)
    ensures
        !c.session_open ==> gate_error(c) == Some("Assistant session is not open yet."@),
        c.session_open && !c.enabled ==> gate_error(c) == Some("Assistant is turned off."@),
        gate_error(c) is None <==> c.session_open && c.enabled,
{
}


/// The speaker of an assembler output.
pub open spec fn out_speaker(out: OutView) -> Speaker {
    match out {
        OutView::Running { speaker, .. } => speaker,
        OutView::Utterance { speaker, .. } => speaker,
    }
}

/// Only Joseph's own channel reaches voice ask, and only while it captures:
/// the other side's speech never lands in his question, and neither does
/// anything said outside a capture.
pub proof fn law_only_you_reaches_voice_ask(st: RouteState, out: OutView)
    requires
        !st.voice.capturing || out_speaker(out) != Speaker::You,
    ensures
        route_one(st, out).0.voice == st.voice,
        route_one(st, out).0.baseline == st.baseline,
        route_one(st, out).1.voice is None,
{
}

} // verus!
