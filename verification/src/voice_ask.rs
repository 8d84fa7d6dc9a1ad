//! Push-to-talk voice ask: Joseph speaks a question to the assistant instead
//! of typing it.
//!
//! Nothing new listens. His microphone is already transcribed as the "You"
//! channel; a voice ask is that same text, bracketed between a start and a
//! stop. It reads the live (draft) text, which replaces rather than appends,
//! and the closed utterances, which settle in spoken order.
//!
//! This is the capture as a state machine. Each call returns what to show,
//! the question to submit, and what to do with the three timers (silence,
//! capture cap, submit linger); whoever runs the timers calls back into the
//! matching `*_elapsed` method.
use vstd::prelude::*;
use vstd::string::*;

use crate::text::{
    chars_of, clone_strings, join, join_with, lemma_chars_deep_view, string_of, trim, trimmed, Blank,
};

verus! {

broadcast use lemma_chars_deep_view;

/// Quiet time after he stops talking before the question is submitted on its own.
pub const SILENCE_GAP_MS: u64 = 1500;

/// A stuck capture ends itself after this long.
pub const MAX_CAPTURE_MS: u64 = 45000;

/// How long the submitted question stays on screen before the box clears.
pub const SUBMIT_LINGER_MS: u64 = 1400;

#[derive(Debug, Clone, PartialEq)]
pub enum VoiceState {
    /// Not capturing. The ask box behaves as a normal text field.
    Off,
    /// Capturing. `heard` is the running text so far.
    Listening { heard: String },
    /// Capture closed, question handed to the lanes; shown briefly, then `Off`.
    Submitting { question: String },
}

impl VoiceState {
    /// What the panel's ask box shows: the state's name and its text (what
    /// was heard while listening, the question while submitting).
    pub fn shown(self) -> (r: (&'static str, String))
        ensures
            match self {
                VoiceState::Off => r.0@ == "off"@ && r.1@.len() == 0,
                VoiceState::Listening { heard } => r.0@ == "listening"@ && r.1@ == heard@,
                VoiceState::Submitting { question } => r.0@ == "submitting"@ && r.1@ == question@,
            },
    {
        match self {
            VoiceState::Off => ("off", String::new()),
            VoiceState::Listening { heard } => ("listening", heard),
            VoiceState::Submitting { question } => ("submitting", question),
        }
    }
}

pub enum VoiceStateView {
    Off,
    Listening { heard: Seq<char> },
    Submitting { question: Seq<char> },
}

impl View for VoiceState {
    type V = VoiceStateView;

    open spec fn view(&self) -> VoiceStateView {
        match self {
            VoiceState::Off => VoiceStateView::Off,
            VoiceState::Listening { heard } => VoiceStateView::Listening { heard: heard@ },
            VoiceState::Submitting { question } => VoiceStateView::Submitting { question: question@ },
        }
    }
}

/// What to do with one timer.
#[derive(Debug, Clone, Copy, PartialEq, Eq, Structural)]
pub enum TimerCmd {
    Keep,
    Stop,
    /// Stop it and start it again with this many milliseconds.
    Start(u64),
}

/// What one call decided.
#[derive(Debug, Clone)]
pub struct VoiceStep {
    pub publish: Option<VoiceState>,
    pub submit: Option<String>,
    pub silence: TimerCmd,
    pub cap: TimerCmd,
    pub linger: TimerCmd,
}

#[verifier::ext_equal]
pub struct VoiceView {
    pub capturing: bool,
    /// Utterances that closed during this capture, in order.
    pub settled: Seq<Seq<char>>,
    /// The utterance still being spoken.
    pub running: Seq<char>,
    pub linger_armed: bool,
    pub silence_gap_ms: u64,
    pub max_capture_ms: u64,
    pub submit_linger_ms: u64,
}

pub struct StepView {
    pub publish: Option<VoiceStateView>,
    pub submit: Option<Seq<char>>,
    pub silence: TimerCmd,
    pub cap: TimerCmd,
    pub linger: TimerCmd,
}

impl View for VoiceStep {
    type V = StepView;

    open spec fn view(&self) -> StepView {
        StepView {
            publish: match self.publish {
                Some(p) => Some(p@),
                None => None,
            },
            submit: match self.submit {
                Some(q) => Some(q@),
                None => None,
            },
            silence: self.silence,
            cap: self.cap,
            linger: self.linger,
        }
    }
}

pub struct VoiceAsk {
    is_capturing: bool,
    settled: Vec<String>,
    running: String,
    linger_armed: bool,
    silence_gap_ms: u64,
    max_capture_ms: u64,
    submit_linger_ms: u64,
}

impl View for VoiceAsk {
    type V = VoiceView;

    closed spec fn view(&self) -> VoiceView {
        VoiceView {
            capturing: self.is_capturing,
            settled: self.settled.deep_view(),
            running: self.running@,
            linger_armed: self.linger_armed,
            silence_gap_ms: self.silence_gap_ms,
            max_capture_ms: self.max_capture_ms,
            submit_linger_ms: self.submit_linger_ms,
        }
    }
}

/// Everything heard so far, in spoken order, joined with spaces and trimmed.
pub open spec fn heard_spec(v: VoiceView) -> Seq<char> {
    let parts = if v.running.len() > 0 {
        v.settled.push(v.running)
    } else {
        v.settled
    };
    trim(join(parts, " "@))
}

pub open spec fn nothing() -> StepView {
    StepView {
        publish: None,
        submit: None,
        silence: TimerCmd::Keep,
        cap: TimerCmd::Keep,
        linger: TimerCmd::Keep,
    }
}

pub open spec fn start_spec(v: VoiceView) -> (VoiceView, StepView) {
    if v.capturing {
        (v, nothing())
    } else {
        (
            VoiceView {
                capturing: true,
                settled: Seq::empty(),
                running: Seq::empty(),
                linger_armed: false,
                ..v
            },
            StepView {
                publish: Some(VoiceStateView::Listening { heard: Seq::empty() }),
                submit: None,
                silence: TimerCmd::Keep,
                cap: TimerCmd::Start(v.max_capture_ms),
                linger: TimerCmd::Stop,
            },
        )
    }
}

pub open spec fn finish_spec(v: VoiceView) -> (VoiceView, StepView) {
    if !v.capturing {
        (v, nothing())
    } else {
        let q = heard_spec(v);
        let v1 = VoiceView { capturing: false, ..v };
        if q.len() == 0 {
            (
                v1,
                StepView {
                    publish: Some(VoiceStateView::Off),
                    submit: None,
                    silence: TimerCmd::Stop,
                    cap: TimerCmd::Stop,
                    linger: TimerCmd::Keep,
                },
            )
        } else {
            (
                VoiceView { linger_armed: true, ..v1 },
                StepView {
                    publish: Some(VoiceStateView::Submitting { question: q }),
                    submit: Some(q),
                    silence: TimerCmd::Stop,
                    cap: TimerCmd::Stop,
                    linger: TimerCmd::Start(v.submit_linger_ms),
                },
            )
        }
    }
}

pub open spec fn cancel_spec(v: VoiceView) -> (VoiceView, StepView) {
    if !v.capturing && !v.linger_armed {
        (v, nothing())
    } else {
        (
            VoiceView {
                capturing: false,
                settled: Seq::empty(),
                running: Seq::empty(),
                linger_armed: false,
                ..v
            },
            StepView {
                publish: Some(VoiceStateView::Off),
                submit: None,
                silence: TimerCmd::Stop,
                cap: TimerCmd::Stop,
                linger: TimerCmd::Stop,
            },
        )
    }
}

pub open spec fn listening_step(v: VoiceView) -> StepView {
    StepView {
        publish: Some(VoiceStateView::Listening { heard: heard_spec(v) }),
        submit: None,
        silence: TimerCmd::Start(v.silence_gap_ms),
        cap: TimerCmd::Keep,
        linger: TimerCmd::Keep,
    }
}

pub open spec fn note_running_spec(v: VoiceView, text: Seq<char>) -> (VoiceView, StepView) {
    let clean = trim(text);
    if clean.len() == 0 || !v.capturing {
        (v, nothing())
    } else {
        let v1 = VoiceView { running: clean, ..v };
        (v1, listening_step(v1))
    }
}

pub open spec fn note_utterance_spec(v: VoiceView, text: Seq<char>) -> (VoiceView, StepView) {
    let clean = trim(text);
    if !v.capturing {
        (v, nothing())
    } else if clean.len() == 0 {
        (VoiceView { running: Seq::empty(), ..v }, nothing())
    } else {
        let v1 = VoiceView { settled: v.settled.push(clean), running: Seq::empty(), ..v };
        (v1, listening_step(v1))
    }
}

pub open spec fn linger_elapsed_spec(v: VoiceView) -> (VoiceView, StepView) {
    (
        VoiceView { linger_armed: false, ..v },
        StepView { publish: Some(VoiceStateView::Off), ..nothing() },
    )
}

/// A step that publishes nothing, submits nothing and leaves every timer as it is.
pub fn no_step() -> (s: VoiceStep)
    ensures
        s@ == nothing(),
{
    VoiceStep {
        publish: None,
        submit: None,
        silence: TimerCmd::Keep,
        cap: TimerCmd::Keep,
        linger: TimerCmd::Keep,
    }
}

impl VoiceAsk {
    /// Default timing: 1.5 s of silence submits, 45 s caps a capture, a
    /// submitted question lingers 1.4 s.
    pub fn new() -> (a: VoiceAsk)
        ensures
            a@.silence_gap_ms == SILENCE_GAP_MS,
            a@.max_capture_ms == MAX_CAPTURE_MS,
            a@.submit_linger_ms == SUBMIT_LINGER_MS,
            !a@.capturing,
            !a@.linger_armed,
            a@.settled.len() == 0,
            a@.running.len() == 0,
    {
        Self::with_timing(SILENCE_GAP_MS, MAX_CAPTURE_MS, SUBMIT_LINGER_MS)
    }

    pub fn with_timing(silence_gap_ms: u64, max_capture_ms: u64, submit_linger_ms: u64) -> (a:
        VoiceAsk)
        ensures
            a@.silence_gap_ms == silence_gap_ms,
            a@.max_capture_ms == max_capture_ms,
            a@.submit_linger_ms == submit_linger_ms,
            !a@.capturing,
            !a@.linger_armed,
            a@.settled.len() == 0,
            a@.running.len() == 0,
    {
        let a = VoiceAsk {
            is_capturing: false,
            settled: Vec::new(),
            running: String::new(),
            linger_armed: false,
            silence_gap_ms,
            max_capture_ms,
            submit_linger_ms,
        };
        assert(a.settled.deep_view() =~= Seq::<Seq<char>>::empty());
        a
    }

    pub fn is_capturing(&self) -> (r: bool)
        ensures
            r == self@.capturing,
    {
        self.is_capturing
    }

    /// Everything heard so far, spoken order.
    pub fn heard(&self) -> (r: String)
        ensures
            r@ == heard_spec(self@),
    {
        let mut parts = clone_strings(&self.settled);
        if !self.running.as_str().is_empty() {
            let ghost before = parts.deep_view();
            parts.push(self.running.clone());
            assert(parts.deep_view() =~= before.push(self.running@));
        }
        let joined = join_with(&parts, " ");
        let jc = chars_of(joined.as_str());
        let t = trimmed(Blank::Unicode, &jc);
        string_of(&t)
    }

    /// Idempotent while already capturing.
    pub fn start(&mut self) -> (s: VoiceStep)
        ensures
            (final(self)@, s@) == start_spec(old(self)@),
    {
        if self.is_capturing {
            return no_step();
        }
        self.linger_armed = false;
        self.is_capturing = true;
        self.settled = Vec::new();
        self.running = String::new();
        assert(self.settled.deep_view() =~= Seq::<Seq<char>>::empty());
        VoiceStep {
            publish: Some(VoiceState::Listening { heard: String::new() }),
            submit: None,
            silence: TimerCmd::Keep,
            cap: TimerCmd::Start(self.max_capture_ms),
            linger: TimerCmd::Stop,
        }
    }

    /// Submits what was heard, or publishes `Off` silently if nothing was.
    pub fn finish(&mut self) -> (s: VoiceStep)
        ensures
            (final(self)@, s@) == finish_spec(old(self)@),
    {
        if !self.is_capturing {
            return no_step();
        }
        let question = self.heard();
        self.is_capturing = false;
        if question.as_str().is_empty() {
            return VoiceStep {
                publish: Some(VoiceState::Off),
                submit: None,
                silence: TimerCmd::Stop,
                cap: TimerCmd::Stop,
                linger: TimerCmd::Keep,
            };
        }
        self.linger_armed = true;
        VoiceStep {
            publish: Some(VoiceState::Submitting { question: question.clone() }),
            submit: Some(question),
            silence: TimerCmd::Stop,
            cap: TimerCmd::Stop,
            linger: TimerCmd::Start(self.submit_linger_ms),
        }
    }

    /// Throws the capture away and asks nothing.
    pub fn cancel(&mut self) -> (s: VoiceStep)
        ensures
            (final(self)@, s@) == cancel_spec(old(self)@),
    {
        if !self.is_capturing && !self.linger_armed {
            return no_step();
        }
        self.is_capturing = false;
        self.linger_armed = false;
        self.settled = Vec::new();
        self.running = String::new();
        assert(self.settled.deep_view() =~= Seq::<Seq<char>>::empty());
        VoiceStep {
            publish: Some(VoiceState::Off),
            submit: None,
            silence: TimerCmd::Stop,
            cap: TimerCmd::Stop,
            linger: TimerCmd::Stop,
        }
    }

    fn listening(&self) -> (s: VoiceStep)
        ensures
            s@ == listening_step(self@),
    {
        VoiceStep {
            publish: Some(VoiceState::Listening { heard: self.heard() }),
            submit: None,
            silence: TimerCmd::Start(self.silence_gap_ms),
            cap: TimerCmd::Keep,
            linger: TimerCmd::Keep,
        }
    }

    /// The live draft region grew or was revised. Drafts replace rather than
    /// append: the recognizer has already assembled the whole in-flight
    /// region, so concatenating successive drafts would repeat every word.
    pub fn note_running(&mut self, text: &str) -> (s: VoiceStep)
        ensures
            (final(self)@, s@) == note_running_spec(old(self)@, text@),
    {
        let chars = chars_of(text);
        let clean = trimmed(Blank::Unicode, &chars);
        if clean.len() == 0 || !self.is_capturing {
            return no_step();
        }
        self.running = string_of(&clean);
        self.listening()
    }

    /// The channel went quiet and that utterance is final for live purposes.
    /// It moves into the settled list so the next one does not overwrite it:
    /// a question spoken as two sentences survives as two sentences.
    pub fn note_utterance(&mut self, text: &str) -> (s: VoiceStep)
        ensures
            (final(self)@, s@) == note_utterance_spec(old(self)@, text@),
    {
        let chars = chars_of(text);
        let clean = trimmed(Blank::Unicode, &chars);
        if !self.is_capturing {
            return no_step();
        }
        if clean.len() == 0 {
            self.running = String::new();
            return no_step();
        }
        let ghost before = self.settled.deep_view();
        self.settled.push(string_of(&clean));
        assert(self.settled.deep_view() =~= before.push(clean@));
        self.running = String::new();
        self.listening()
    }

    /// The silence timer ran out: what was heard is submitted.
    pub fn silence_elapsed(&mut self) -> (s: VoiceStep)
        ensures
            (final(self)@, s@) == finish_spec(old(self)@),
    {
        self.finish()
    }

    /// The capture cap ran out: what was heard is submitted.
    pub fn cap_elapsed(&mut self) -> (s: VoiceStep)
        ensures
            (final(self)@, s@) == finish_spec(old(self)@),
    {
        self.finish()
    }

    /// The submitted question has been on screen long enough; the box clears.
    pub fn linger_elapsed(&mut self) -> (s: VoiceStep)
        ensures
            (final(self)@, s@) == linger_elapsed_spec(old(self)@),
    {
        self.linger_armed = false;
        VoiceStep {
            publish: Some(VoiceState::Off),
            submit: None,
            silence: TimerCmd::Keep,
            cap: TimerCmd::Keep,
            linger: TimerCmd::Keep,
        }
    }
}


// ---------------------------------------------------------------------
// Laws
// ---------------------------------------------------------------------

/// A second start during a capture is a no-op: nothing heard is cleared and
/// nothing is published.
pub proof fn law_start_while_capturing_is_a_no_op(v: VoiceView)
    requires
        v.capturing,
    ensures
        start_spec(v) == (v, nothing()),
{
}

/// Finishing submits exactly what was heard, and never an empty question:
/// with nothing heard it publishes `Off` and submits nothing. Either way
/// the capture is over.
pub proof fn law_finish_submits_what_was_heard(v: VoiceView)
    requires
        v.capturing,
    ensures
        ({
            let (v1, step) = finish_spec(v);
            &&& !v1.capturing
            &&& heard_spec(v).len() == 0 ==> step.submit is None && step.publish == Some(
                VoiceStateView::Off,
            )
            &&& heard_spec(v).len() > 0 ==> step.submit == Some(heard_spec(v))
            &&& step.submit matches Some(q) ==> q.len() > 0
        }),
{
}

/// Cancelling never submits, and leaves nothing captured.
pub proof fn law_cancel_never_submits(v: VoiceView)
    ensures
        ({
            let (v1, step) = cancel_spec(v);
            &&& step.submit is None
            &&& !v1.capturing
            &&& (v.capturing || v.linger_armed) ==> v1.settled.len() == 0 && v1.running.len() == 0
        }),
{
}

/// Closed utterances settle in spoken order, and a running text only ever
/// replaces the previous running text.
pub proof fn law_heard_keeps_spoken_order(v: VoiceView, text: Seq<char>)
    requires
        v.capturing,
        trim(text).len() > 0,
    ensures
        note_utterance_spec(v, text).0.settled == v.settled.push(trim(text)),
        note_running_spec(v, text).0.settled == v.settled,
        note_running_spec(v, text).0.running == trim(text),
{
}

} // verus!
