//! The cheap local prefilter that decides when the assistant volunteers an
//! answer. It proposes; the fast lane disposes, by answering or skipping.
//! Nothing here calls a model, so a wrong guess costs nothing but a spawn.
//!
//! It works in whole utterances, never in the fragments the recognizer
//! emits. The engine is a state machine: each call returns the question it
//! fires, if any, and what to do with the quiet-gap timer; whoever runs the
//! timer calls `gap_elapsed` when it runs out.
use vstd::prelude::*;
use vstd::string::*;

use crate::card::{content_set, content_word_list, count_shared, min_nat};
use crate::text::{
    alnum_runs, chars_of, contains_char, find, is_listed, lemma_chars_deep_view, listed, lower,
    nowhere, str_to_lowercase, string_of, trim, trimmed, words, Blank,
};
use crate::transcript::Speaker;

verus! {

broadcast use lemma_chars_deep_view;

/// A question needs at least this many plain words.
pub const MIN_WORDS: usize = 2;

/// How many earlier fires the repeat guard remembers.
pub const RECENT_FIRE_MEMORY: usize = 5;

#[derive(Debug, Clone, Copy, PartialEq, Eq, Structural)]
pub enum TriggerMode {
    Manual,
    Gated,
    Continuous,
}

#[derive(Debug, Clone, Copy, PartialEq, Eq, Structural)]
pub enum TriggerReason {
    NameCalled,
    Question,
}

/// What to do with the quiet-gap timer.
#[derive(Debug, Clone, Copy, PartialEq, Eq, Structural)]
pub enum GapCommand {
    /// Leave it as it is.
    Keep,
    /// Stop it.
    Cancel,
    /// Stop it and start it again with this many milliseconds.
    Schedule(u64),
}

/// A question handed to the lanes, and why.
#[derive(Debug, Clone)]
pub struct Fire {
    pub text: String,
    pub reason: TriggerReason,
}

/// What one call decided.
#[derive(Debug, Clone)]
pub struct TriggerStep {
    pub fire: Option<Fire>,
    pub gap: GapCommand,
}

pub const INTERROGATIVE_OPENERS: [&'static str; 27] = [
    "what",
    "why",
    "how",
    "when",
    "where",
    "who",
    "which",
    "whose",
    "do",
    "does",
    "did",
    "is",
    "are",
    "was",
    "were",
    "am",
    "can",
    "could",
    "should",
    "would",
    "will",
    "shall",
    "have",
    "has",
    "had",
    "may",
    "might",
];

pub const FILLERS: [&'static str; 8] = ["so", "and", "but", "ok", "okay", "now", "then", "well"];

/// Words that commonly sit right before the real question starts.
pub const LEAD_INS: [&'static str; 10] = [
    "joseph",
    "joe",
    "so",
    "and",
    "but",
    "then",
    "now",
    "well",
    "okay",
    "ok",
];

pub const ASK_PHRASES: [&'static str; 8] = [
    "thoughts on",
    "your take",
    "any idea",
    "any thoughts",
    "what do you think",
    "let me know",
    "walk us through",
    "walk me through",
];

// ---------------------------------------------------------------------
// Local tests on text
// ---------------------------------------------------------------------

pub open spec fn count_long(ws: Seq<Seq<char>>) -> nat
    decreases ws.len(),
{
    if ws.len() == 0 {
        0
    } else {
        count_long(ws.drop_last()) + if ws.last().len() >= 2 {
            1nat
        } else {
            0nat
        }
    }
}

/// Enough words to be a question at all: two or more words of two or more
/// characters. Plain words, not content words: a real short question can be
/// almost all stopwords, and every noise utterance ("?", ".", "3.", "Q.") has
/// none.
pub open spec fn substantive_spec(text: Seq<char>) -> bool {
    count_long(words(lower(text))) >= MIN_WORDS
}

/// One of `names`, lowercased, is a word of the lowercased text.
pub open spec fn mentions_spec(text: Seq<char>, names: Seq<Seq<char>>) -> bool {
    exists|i: int| 0 <= i < names.len() && words(lower(text)).contains(#[trigger] lower(names[i]))
}

/// A question mark, or an interrogative opening: an opener first, a filler
/// then an opener, an opener right after a lead-in among the first six
/// words, or an asking phrase anywhere.
pub open spec fn question_spec(text: Seq<char>) -> bool {
    let t = trim(text);
    if t.len() == 0 {
        false
    } else if t.contains('?') {
        true
    } else {
        let lw = lower(t);
        let ws = words(lw);
        if ws.len() == 0 {
            false
        } else {
            ||| listed(INTERROGATIVE_OPENERS@, ws[0])
            ||| (listed(FILLERS@, ws[0]) && ws.len() > 1 && listed(INTERROGATIVE_OPENERS@, ws[1]))
            ||| (exists|i: int|
                1 <= i < ws.len() && i < 6 && listed(INTERROGATIVE_OPENERS@, #[trigger] ws[i])
                    && listed(LEAD_INS@, ws[i - 1]))
            ||| (exists|k: int| 0 <= k < 8 && !nowhere(lw, #[trigger] ASK_PHRASES@[k]@))
        }
    }
}

/// The running buffer has closed on an actual question: it ends in `?`.
pub open spec fn complete_spec(text: Seq<char>) -> bool {
    let t = trim(text);
    t.len() > 0 && t.last() == '?'
}

/// Two content-word sets overlap by at least 70% of the smaller one.
pub open spec fn overlaps(a: Set<Seq<char>>, b: Set<Seq<char>>) -> bool {
    10 * a.intersect(b).len() >= 7 * min_nat(a.len(), b.len())
}

/// A candidate is a question already answered: it has no content words, or
/// its content words overlap by 70% those of a remembered fire.
pub open spec fn repeat_spec(recent: Seq<Seq<char>>, text: Seq<char>) -> bool {
    let a = content_set(text);
    a.is_empty() || exists|i: int|
        0 <= i < recent.len() && !content_set(#[trigger] recent[i]).is_empty() && overlaps(
            a,
            content_set(recent[i]),
        )
}

/// Remember a fire, forgetting the oldest beyond five.
pub open spec fn remember_spec(recent: Seq<Seq<char>>, text: Seq<char>) -> Seq<Seq<char>> {
    let r = recent.push(text);
    if r.len() > RECENT_FIRE_MEMORY {
        r.drop_first()
    } else {
        r
    }
}

fn is_substantive(text: &str) -> (r: bool)
    ensures
        r == substantive_spec(text@),
{
    let lowered = str_to_lowercase(text);
    let lc = chars_of(lowered.as_str());
    let ws = alnum_runs(&lc);
    let n = ws.len();
    let mut count: usize = 0;
    let ghost dv = ws.deep_view();
    for i in 0..n
        invariant
            n == ws@.len(),
            dv == ws.deep_view(),
            count == count_long(dv.take(i as int)),
            count <= i,
    {
        assert(dv.take(i + 1).drop_last() =~= dv.take(i as int));
        assert(dv.take(i + 1).last() == ws@[i as int]@);
        if ws[i].len() >= 2 {
            count += 1;
        }
    }
    assert(dv.take(n as int) =~= dv);
    count >= MIN_WORDS
}

fn mentions_names(text: &str, names: &Vec<String>) -> (r: bool)
    ensures
        r == mentions_spec(text@, names.deep_view()),
{
    let lowered = str_to_lowercase(text);
    let lc = chars_of(lowered.as_str());
    let ws = alnum_runs(&lc);
    let n = names.len();
    for i in 0..n
        invariant
            n == names@.len(),
            ws.deep_view() == words(lower(text@)),
            forall|j: int| 0 <= j < i ==> !ws.deep_view().contains(#[trigger] lower(names.deep_view()[j])),
    {
        let nl = str_to_lowercase(names[i].as_str());
        let nc = chars_of(nl.as_str());
        let m = ws.len();
        assert(names.deep_view()[i as int] == names@[i as int]@);
        for k in 0..m
            invariant
                m == ws@.len(),
                i < n,
                n == names@.len(),
                ws.deep_view() == words(lower(text@)),
                nc@ == lower(names.deep_view()[i as int]),
                forall|j: int| 0 <= j < k ==> ws.deep_view()[j] != nc@,
        {
            if crate::text::chars_eq(&ws[k], &nc) {
                assert(ws.deep_view()[k as int] == nc@);
                assert(ws.deep_view().contains(lower(names.deep_view()[i as int])));
                assert(mentions_spec(text@, names.deep_view()));
                return true;
            }
        }
        assert(!ws.deep_view().contains(nc@)) by {
            if ws.deep_view().contains(nc@) {
                let k = choose|k: int| 0 <= k < ws.deep_view().len() && ws.deep_view()[k] == nc@;
                assert(ws.deep_view()[k] != nc@);
            }
        }
    }
    false
}

fn looks_like_question(text: &str) -> (r: bool)
    ensures
        r == question_spec(text@),
{
    let chars = chars_of(text);
    let tc = trimmed(Blank::Unicode, &chars);
    if tc.len() == 0 {
        return false;
    }
    if contains_char(&tc, '?') {
        return true;
    }
    let ts = string_of(&tc);
    let lowered = str_to_lowercase(ts.as_str());
    let lw = chars_of(lowered.as_str());
    let ws = alnum_runs(&lw);
    if ws.len() == 0 {
        return false;
    }
    if is_listed(&INTERROGATIVE_OPENERS, &ws[0]) {
        return true;
    }
    if is_listed(&FILLERS, &ws[0]) && ws.len() > 1 && is_listed(&INTERROGATIVE_OPENERS, &ws[1]) {
        return true;
    }
    let bound = if ws.len() < 6 {
        ws.len()
    } else {
        6
    };
    let mut i: usize = 1;
    while i < bound
        invariant
            1 <= i <= bound,
            bound <= ws@.len(),
            bound <= 6,
            ws.deep_view() == words(lower(trim(text@))),
            trim(text@).len() > 0,
            !trim(text@).contains('?'),
            forall|j: int|
                1 <= j < i ==> !(listed(INTERROGATIVE_OPENERS@, #[trigger] ws.deep_view()[j]) && listed(
                    LEAD_INS@,
                    ws.deep_view()[j - 1],
                )),
        decreases bound - i,
    {
        if is_listed(&INTERROGATIVE_OPENERS, &ws[i]) && is_listed(&LEAD_INS, &ws[i - 1]) {
            assert(ws.deep_view() == words(lower(trim(text@))));
            assert(listed(INTERROGATIVE_OPENERS@, ws.deep_view()[i as int]));
            assert(listed(LEAD_INS@, ws.deep_view()[i - 1]));
            assert(question_spec(text@));
            return true;
        }
        i += 1;
    }
    let mut k: usize = 0;
    while k < 8
        invariant
            k <= 8,
            lw@ == lower(trim(text@)),
            words(lw@).len() > 0,
            trim(text@).len() > 0,
            !trim(text@).contains('?'),
            forall|j: int| 0 <= j < k ==> nowhere(lw@, #[trigger] ASK_PHRASES@[j]@),
        decreases 8 - k,
    {
        let phrase = chars_of(ASK_PHRASES[k]);
        assert(phrase@ == ASK_PHRASES@[k as int]@);
        if find(&lw, &phrase).is_some() {
            assert(!nowhere(lw@, ASK_PHRASES@[k as int]@));
            assert(question_spec(text@));
            return true;
        }
        k += 1;
    }
    false
}

fn looks_complete(text: &str) -> (r: bool)
    ensures
        r == complete_spec(text@),
{
    let chars = chars_of(text);
    let tc = trimmed(Blank::Unicode, &chars);
    tc.len() > 0 && tc[tc.len() - 1] == '?'
}

fn remember(recent: &mut Vec<String>, text: String)
    ensures
        final(recent).deep_view() == remember_spec(old(recent).deep_view(), text@),
{
    let ghost before = recent.deep_view();
    let ghost tv = text@;
    recent.push(text);
    assert(recent.deep_view() =~= before.push(tv));
    if recent.len() > RECENT_FIRE_MEMORY {
        let ghost pushed = recent.deep_view();
        recent.remove(0);
        assert(recent.deep_view() =~= pushed.drop_first());
    }
}

// ---------------------------------------------------------------------
// The engine
// ---------------------------------------------------------------------

/// The engine's state, as a value.
#[verifier::ext_equal]
pub struct TriggerView {
    pub mode: TriggerMode,
    pub quiet_gap_ms: u64,
    pub listening: bool,
    pub names: Seq<Seq<char>>,
    /// A name landed in the Them utterance currently being spoken.
    pub named: bool,
    /// A gated question waiting for the room to go quiet.
    pub pending: Option<Seq<char>>,
    /// The current Them utterance already fired.
    pub fired: bool,
    /// The last few fires, oldest first.
    pub recent: Seq<Seq<char>>,
}

pub struct FireView {
    pub text: Seq<char>,
    pub reason: TriggerReason,
}

impl View for Fire {
    type V = FireView;

    open spec fn view(&self) -> FireView {
        FireView { text: self.text@, reason: self.reason }
    }
}

pub open spec fn fire_opt(f: Option<Fire>) -> Option<FireView> {
    match f {
        Some(x) => Some(x@),
        None => None,
    }
}

pub struct TriggerEngine {
    mode: TriggerMode,
    quiet_gap_ms: u64,
    listening: bool,
    names: Vec<String>,
    named_in_current_utterance: bool,
    pending_question: Option<String>,
    fired_current_utterance: bool,
    recent_fires: Vec<String>,
}

impl View for TriggerEngine {
    type V = TriggerView;

    closed spec fn view(&self) -> TriggerView {
        TriggerView {
            mode: self.mode,
            quiet_gap_ms: self.quiet_gap_ms,
            listening: self.listening,
            names: self.names.deep_view(),
            named: self.named_in_current_utterance,
            pending: match self.pending_question {
                Some(q) => Some(q@),
                None => None,
            },
            fired: self.fired_current_utterance,
            recent: self.recent_fires.deep_view(),
        }
    }
}

/// At most five fires are remembered.
pub open spec fn engine_wf(e: TriggerView) -> bool {
    e.recent.len() <= RECENT_FIRE_MEMORY
}

/// The state after a fire of `text`: nothing pending, the utterance marked as
/// fired, the text remembered.
pub open spec fn fired_state(e: TriggerView, text: Seq<char>) -> TriggerView {
    TriggerView { pending: None, fired: true, recent: remember_spec(e.recent, text), ..e }
}

/// Any speech restarts a waiting gap.
pub open spec fn restart_gap(e: TriggerView) -> GapCommand {
    if e.pending is Some {
        GapCommand::Schedule(e.quiet_gap_ms)
    } else {
        GapCommand::Keep
    }
}

pub open spec fn update_spec(
    e: TriggerView,
    mode: TriggerMode,
    quiet_gap_ms: u64,
    listening: bool,
    names: Seq<Seq<char>>,
) -> (TriggerView, GapCommand) {
    let e1 = TriggerView { mode, quiet_gap_ms, listening, names, ..e };
    if mode == TriggerMode::Manual || !listening {
        (TriggerView { pending: None, ..e1 }, GapCommand::Cancel)
    } else {
        (e1, GapCommand::Keep)
    }
}

pub open spec fn running_spec(e: TriggerView, speaker: Speaker, text: Seq<char>) -> (
    TriggerView,
    Option<FireView>,
    GapCommand,
) {
    if !e.listening || e.mode == TriggerMode::Manual || speaker != Speaker::Them || e.fired {
        (e, None, GapCommand::Keep)
    } else {
        let g = restart_gap(e);
        if !mentions_spec(text, e.names) {
            (e, None, g)
        } else {
            let e1 = TriggerView { named: true, ..e };
            if !complete_spec(text) || !substantive_spec(text) || repeat_spec(e1.recent, text) {
                (e1, None, g)
            } else {
                (
                    fired_state(e1, text),
                    Some(FireView { text, reason: TriggerReason::NameCalled }),
                    GapCommand::Cancel,
                )
            }
        }
    }
}

pub open spec fn utterance_inner_spec(e: TriggerView, speaker: Speaker, text: Seq<char>) -> (
    TriggerView,
    Option<FireView>,
    GapCommand,
) {
    if !e.listening || e.mode == TriggerMode::Manual {
        (e, None, GapCommand::Keep)
    } else {
        let g = restart_gap(e);
        if speaker != Speaker::Them || e.fired || !substantive_spec(text) || repeat_spec(
            e.recent,
            text,
        ) {
            (e, None, g)
        } else if e.named || mentions_spec(text, e.names) {
            (
                fired_state(e, text),
                Some(FireView { text, reason: TriggerReason::NameCalled }),
                GapCommand::Cancel,
            )
        } else if !question_spec(text) {
            (e, None, g)
        } else if e.mode == TriggerMode::Continuous {
            (
                fired_state(e, text),
                Some(FireView { text, reason: TriggerReason::Question }),
                GapCommand::Cancel,
            )
        } else {
            (
                TriggerView { pending: Some(text), ..e },
                None,
                GapCommand::Schedule(e.quiet_gap_ms),
            )
        }
    }
}

pub open spec fn utterance_spec(e: TriggerView, speaker: Speaker, text: Seq<char>) -> (
    TriggerView,
    Option<FireView>,
    GapCommand,
) {
    let (e1, f, g) = utterance_inner_spec(e, speaker, text);
    if speaker == Speaker::Them {
        (TriggerView { named: false, fired: false, ..e1 }, f, g)
    } else {
        (e1, f, g)
    }
}

pub open spec fn gap_elapsed_spec(e: TriggerView) -> (TriggerView, Option<FireView>) {
    match e.pending {
        Some(q) => (fired_state(e, q), Some(FireView { text: q, reason: TriggerReason::Question })),
        None => (e, None),
    }
}

impl TriggerEngine {
    /// A fresh engine: gated, a 2 s quiet gap, listening, no names.
    pub fn new() -> (e: TriggerEngine)
        ensures
            e@.mode == TriggerMode::Gated,
            e@.quiet_gap_ms == 2000,
            e@.listening,
            e@.names.len() == 0,
            !e@.named,
            e@.pending is None,
            !e@.fired,
            e@.recent.len() == 0,
    {
        TriggerEngine {
            mode: TriggerMode::Gated,
            quiet_gap_ms: 2000,
            listening: true,
            names: Vec::new(),
            named_in_current_utterance: false,
            pending_question: None,
            fired_current_utterance: false,
            recent_fires: Vec::new(),
        }
    }

    /// Whether a gated question is waiting for the quiet gap.
    pub fn has_pending(&self) -> (r: bool)
        ensures
            r == self@.pending is Some,
    {
        self.pending_question.is_some()
    }

    pub fn update(
        &mut self,
        mode: TriggerMode,
        quiet_gap_ms: u64,
        listening: bool,
        names: Vec<String>,
    ) -> (g: GapCommand)
        ensures
            (final(self)@, g) == update_spec(old(self)@, mode, quiet_gap_ms, listening, names.deep_view()),
    {
        self.mode = mode;
        self.quiet_gap_ms = quiet_gap_ms;
        self.listening = listening;
        self.names = names;
        if mode == TriggerMode::Manual || !listening {
            self.pending_question = None;
            GapCommand::Cancel
        } else {
            GapCommand::Keep
        }
    }

    /// Forgets the current utterance and every remembered fire.
    pub fn reset(&mut self) -> (g: GapCommand)
        ensures
            g == GapCommand::Cancel,
            final(self)@ == (TriggerView {
                pending: None,
                named: false,
                fired: false,
                recent: Seq::empty(),
                ..old(self)@
            }),
    {
        self.pending_question = None;
        self.named_in_current_utterance = false;
        self.fired_current_utterance = false;
        self.recent_fires = Vec::new();
        assert(self.recent_fires.deep_view() =~= Seq::<Seq<char>>::empty());
        GapCommand::Cancel
    }

    /// Drops a waiting gated question.
    pub fn cancel_pending(&mut self) -> (g: GapCommand)
        ensures
            g == GapCommand::Cancel,
            final(self)@ == (TriggerView { pending: None, ..old(self)@ }),
    {
        self.pending_question = None;
        GapCommand::Cancel
    }

    fn fire(&mut self, text: &str, reason: TriggerReason) -> (f: Fire)
        ensures
            final(self)@ == fired_state(old(self)@, text@),
            f@ == (FireView { text: text@, reason }),
    {
        self.pending_question = None;
        self.fired_current_utterance = true;
        remember(&mut self.recent_fires, String::from_str(text));
        Fire { text: String::from_str(text), reason }
    }

    /// True when this candidate is a question already answered. Not a prefix
    /// or containment test: the recognizer revises as it goes, so one spoken
    /// question arrives as several disagreeing strings. Compare what the
    /// sentences are about instead.
    fn is_repeat(&self, text: &str) -> (r: bool)
        ensures
            r == repeat_spec(self@.recent, text@),
    {
        let a = content_word_list(text);
        if a.len() == 0 {
            assert(a.deep_view().to_set() =~= Set::<Seq<char>>::empty());
            return true;
        }
        proof {
            a.deep_view().unique_seq_to_set();
        }
        let n = self.recent_fires.len();
        let ghost rv = self.recent_fires.deep_view();
        let ghost av = a.deep_view().to_set();
        for i in 0..n
            invariant
                n == self.recent_fires@.len(),
                rv == self.recent_fires.deep_view(),
                av == a.deep_view().to_set(),
                av == content_set(text@),
                a.deep_view().no_duplicates(),
                a.deep_view().len() == av.len(),
                av.len() > 0,
                forall|j: int|
                    0 <= j < i ==> !(!content_set(#[trigger] rv[j]).is_empty() && overlaps(
                        av,
                        content_set(rv[j]),
                    )),
        {
            let b = content_word_list(self.recent_fires[i].as_str());
            assert(rv[i as int] == self.recent_fires@[i as int]@);
            proof {
                b.deep_view().unique_seq_to_set();
            }
            if b.len() > 0 {
                let overlap = count_shared(&a, &b);
                let smaller = if a.len() <= b.len() {
                    a.len()
                } else {
                    b.len()
                };
                // The ratio test `overlap / smaller >= 0.7`, in integers.
                if overlap as u128 * 10 >= smaller as u128 * 7 {
                    return true;
                }
            } else {
                assert(b.deep_view().to_set() =~= Set::<Seq<char>>::empty());
            }
        }
        false
    }

    /// The running buffer for Them, after each finalized fragment. This
    /// exists for one case: a name-call, where waiting costs the whole point
    /// of the feature. Even here it never fires on a half-sentence; the name
    /// arms the utterance and fires early only when the buffer already reads
    /// as a finished question.
    pub fn consume_running(&mut self, speaker: Speaker, text: &str) -> (s: TriggerStep)
        ensures
            (final(self)@, fire_opt(s.fire), s.gap) == running_spec(old(self)@, speaker, text@),
    {
        if !self.listening || self.mode == TriggerMode::Manual || speaker != Speaker::Them
            || self.fired_current_utterance {
            return TriggerStep { fire: None, gap: GapCommand::Keep };
        }
        let gap = if self.pending_question.is_some() {
            GapCommand::Schedule(self.quiet_gap_ms)
        } else {
            GapCommand::Keep
        };
        if !mentions_names(text, &self.names) {
            return TriggerStep { fire: None, gap };
        }
        self.named_in_current_utterance = true;
        if !looks_complete(text) || !is_substantive(text) || self.is_repeat(text) {
            return TriggerStep { fire: None, gap };
        }
        let f = self.fire(text, TriggerReason::NameCalled);
        TriggerStep { fire: Some(f), gap: GapCommand::Cancel }
    }

    fn consume_utterance_inner(&mut self, speaker: Speaker, text: &str) -> (s: TriggerStep)
        ensures
            (final(self)@, fire_opt(s.fire), s.gap) == utterance_inner_spec(
                old(self)@,
                speaker,
                text@,
            ),
    {
        if !self.listening || self.mode == TriggerMode::Manual {
            return TriggerStep { fire: None, gap: GapCommand::Keep };
        }
        let gap = if self.pending_question.is_some() {
            GapCommand::Schedule(self.quiet_gap_ms)
        } else {
            GapCommand::Keep
        };
        if speaker != Speaker::Them || self.fired_current_utterance || !is_substantive(text)
            || self.is_repeat(text) {
            return TriggerStep { fire: None, gap };
        }
        if self.named_in_current_utterance || mentions_names(text, &self.names) {
            let f = self.fire(text, TriggerReason::NameCalled);
            return TriggerStep { fire: Some(f), gap: GapCommand::Cancel };
        }
        if !looks_like_question(text) {
            return TriggerStep { fire: None, gap };
        }
        if self.mode == TriggerMode::Continuous {
            let f = self.fire(text, TriggerReason::Question);
            TriggerStep { fire: Some(f), gap: GapCommand::Cancel }
        } else {
            self.pending_question = Some(String::from_str(text));
            TriggerStep { fire: None, gap: GapCommand::Schedule(self.quiet_gap_ms) }
        }
    }

    /// Them went quiet and its utterance is complete. Question triggers are
    /// decided here, with the whole utterance handed on.
    pub fn consume_utterance(&mut self, speaker: Speaker, text: &str) -> (s: TriggerStep)
        ensures
            (final(self)@, fire_opt(s.fire), s.gap) == utterance_spec(old(self)@, speaker, text@),
    {
        let s = self.consume_utterance_inner(speaker, text);
        if speaker == Speaker::Them {
            self.named_in_current_utterance = false;
            self.fired_current_utterance = false;
        }
        s
    }

    /// The quiet gap ran out: a waiting question fires.
    pub fn gap_elapsed(&mut self) -> (f: Option<Fire>)
        ensures
            (final(self)@, fire_opt(f)) == gap_elapsed_spec(old(self)@),
    {
        match self.pending_question.take() {
            Some(q) => {
                self.fired_current_utterance = true;
                let f = Fire { text: q.clone(), reason: TriggerReason::Question };
                remember(&mut self.recent_fires, q);
                Some(f)
            },
            None => None,
        }
    }
}


// ---------------------------------------------------------------------
// Laws
// ---------------------------------------------------------------------

/// Joseph's own channel never triggers: whatever the engine's state, You
/// text neither fires nor queues a question.
pub proof fn law_you_never_fires(e: TriggerView, text: Seq<char>)
    ensures
        running_spec(e, Speaker::You, text).1 is None,
        utterance_spec(e, Speaker::You, text).1 is None,
        utterance_spec(e, Speaker::You, text).0.pending == e.pending,
{
}

/// Manual mode never volunteers, and neither does an engine that is not
/// listening: nothing fires and nothing is queued.
pub proof fn law_manual_or_deaf_never_volunteers(e: TriggerView, speaker: Speaker, text: Seq<char>)
    requires
        e.mode == TriggerMode::Manual || !e.listening,
    ensures
        running_spec(e, speaker, text).1 is None,
        utterance_spec(e, speaker, text).1 is None,
        utterance_spec(e, speaker, text).0.pending == e.pending,
{
}

/// Switching to manual or turning listening off drops a waiting question.
pub proof fn law_going_quiet_drops_the_waiting_question(
    e: TriggerView,
    mode: TriggerMode,
    quiet_gap_ms: u64,
    listening: bool,
    names: Seq<Seq<char>>,
)
    requires
        mode == TriggerMode::Manual || !listening,
    ensures
        update_spec(e, mode, quiet_gap_ms, listening, names).0.pending is None,
        update_spec(e, mode, quiet_gap_ms, listening, names).1 == GapCommand::Cancel,
        gap_elapsed_spec(update_spec(e, mode, quiet_gap_ms, listening, names).0).1 is None,
{
}

/// At most five fires are remembered, whatever the engine is fed.
pub proof fn law_memory_stays_bounded(e: TriggerView, speaker: Speaker, text: Seq<char>)
    requires
        engine_wf(e),
    ensures
        engine_wf(running_spec(e, speaker, text).0),
        engine_wf(utterance_spec(e, speaker, text).0),
        engine_wf(gap_elapsed_spec(e).0),
{
}

/// A remembered question repeats itself.
proof fn lemma_remembered_is_repeat(recent: Seq<Seq<char>>, text: Seq<char>)
    ensures
        repeat_spec(remember_spec(recent, text), text),
{
    let r = remember_spec(recent, text);
    let a = content_set(text);
    if !a.is_empty() {
        let i = r.len() - 1;
        assert(r[i] == text);
        assert(a.intersect(a) =~= a);
        assert(overlaps(a, content_set(r[i])));
    }
}

/// A question fires once: once it has fired, the same question closing as a
/// Them utterance again does not fire.
pub proof fn law_a_fired_question_does_not_fire_again(e: TriggerView, speaker: Speaker, text: Seq<char>)
    ensures
        ({
            let (e1, f, _) = utterance_spec(e, speaker, text);
            f is Some ==> utterance_spec(e1, Speaker::Them, text).1 is None
        }),
        ({
            let (e1, f, _) = running_spec(e, speaker, text);
            f is Some ==> utterance_spec(e1, Speaker::Them, text).1 is None
        }),
        ({
            let (e1, f) = gap_elapsed_spec(e);
            f matches Some(q) ==> utterance_spec(e1, Speaker::Them, q.text).1 is None
        }),
{
    lemma_remembered_is_repeat(e.recent, text);
    let e0 = TriggerView { named: true, ..e };
    lemma_remembered_is_repeat(e0.recent, text);
    if let Some(q) = e.pending {
        lemma_remembered_is_repeat(e.recent, q);
    }
}

/// A question mark makes a question: any text whose trimmed form holds a
/// `?` reads as one, whatever its opening words.
pub proof fn law_a_question_mark_makes_a_question(text: Seq<char>)
    requires
        trim(text).contains('?'),
    ensures
        question_spec(text),
{
}

/// A substantive Them utterance with a question mark, neither naming anyone
/// nor repeating a remembered fire, is volunteered: in continuous mode it
/// fires at once as a question, in gated mode it waits for the quiet gap.
pub proof fn law_a_question_from_them_is_volunteered(e: TriggerView, text: Seq<char>)
    requires
        e.listening,
        e.mode != TriggerMode::Manual,
        !e.fired,
        !e.named,
        !mentions_spec(text, e.names),
        substantive_spec(text),
        !repeat_spec(e.recent, text),
        trim(text).contains('?'),
    ensures
        e.mode == TriggerMode::Continuous ==> utterance_spec(e, Speaker::Them, text).1 == Some(
            FireView { text, reason: TriggerReason::Question },
        ),
        e.mode == TriggerMode::Gated ==> utterance_spec(e, Speaker::Them, text).1 is None
            && utterance_spec(e, Speaker::Them, text).0.pending == Some(text)
            && gap_elapsed_spec(utterance_spec(e, Speaker::Them, text).0).1 == Some(
            FireView { text, reason: TriggerReason::Question },
        ),
{
    law_a_question_mark_makes_a_question(text);
}

} // verus!
