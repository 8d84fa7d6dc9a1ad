//! Two non-interactive CLI lineages forked from one seeded trunk, fired together on
//! every accepted trigger. Fast puts words on the rail in seconds; deep
//! re-derives the same answer with a stronger model and settles the card in
//! place.
//!
//! Nothing is ever queued. A trigger landing while a lane is already in
//! flight forks that lane's lineage for itself rather than waiting. Only the
//! primary (non-forked) call advances that lane's transcript cursor.
//!
//! This module holds the lanes' bookkeeping and every decision: which turn to
//! run with which arguments, what a streamed or finished reply shows, and how
//! the deep pass settles a card. Running the turns is the caller's work; card
//! ids and timestamps come from the caller.
use vstd::prelude::*;
use vstd::string::*;

use crate::card::{
    can_decide, can_decide_spec, changed_bullets, changed_spec, contradicts, law_a_card_agrees_with_itself,
    law_changed_lines_are_new_bullets,
    parse, parse_spec, similar_spec, CardView, ParsedCard,
};
use crate::claude_cli::{
    opt_str, tool_list, tool_names, ClaudeOutcome, ClaudeTurn, TurnView, NO_TOOLS, READ_ONLY_TOOLS,
    WRITE_TOOLS,
};
use crate::text::{chars_eq, chars_of, clone_strings, join, lemma_chars_deep_view};
use crate::transcript::{lines_of, window_spec, FinalView, LogView, Speaker, TranscriptLog};

verus! {

broadcast use lemma_chars_deep_view;

/// How far back Explain looks.
pub const EXPLAIN_WINDOW_MS: u64 = 15000;

/// How far back a repeated Catch-up looks.
pub const CATCHUP_WINDOW_MS: u64 = 300000;

/// The lanes' settings for one meeting. The three system prompts are
/// supplied by the caller.
#[derive(Debug)]
pub struct LaneConfig {
    /// Working directory for every lane turn.
    pub cwd: String,
    pub fast_model: String,
    pub fast_effort: String,
    pub deep_model: String,
    pub deep_effort: String,
    /// Extra directories the deep lane may read.
    pub deep_read_dirs: Vec<String>,
    /// System prompt for the note-drafting turn.
    pub note_prompt: String,
    /// System prompt for the fast lane.
    pub fast_prompt: String,
    /// System prompt for the deep lane.
    pub deep_prompt: String,
}

pub struct ConfigView {
    pub cwd: Seq<char>,
    pub fast_model: Seq<char>,
    pub fast_effort: Seq<char>,
    pub deep_model: Seq<char>,
    pub deep_effort: Seq<char>,
    pub deep_read_dirs: Seq<Seq<char>>,
    pub note_prompt: Seq<char>,
    pub fast_prompt: Seq<char>,
    pub deep_prompt: Seq<char>,
}

impl View for LaneConfig {
    type V = ConfigView;

    open spec fn view(&self) -> ConfigView {
        ConfigView {
            cwd: self.cwd@,
            fast_model: self.fast_model@,
            fast_effort: self.fast_effort@,
            deep_model: self.deep_model@,
            deep_effort: self.deep_effort@,
            deep_read_dirs: self.deep_read_dirs.deep_view(),
            note_prompt: self.note_prompt@,
            fast_prompt: self.fast_prompt@,
            deep_prompt: self.deep_prompt@,
        }
    }
}

#[derive(Debug, Clone, Copy, PartialEq, Eq, Structural)]
pub enum CardKind {
    Answer,
    Ask,
    Explain,
    Catchup,
}

/// One card as the panel receives it.
#[derive(Debug, Clone, PartialEq)]
pub struct CardOut {
    pub id: String,
    pub kind: CardKind,
    pub question: String,
    pub lead: String,
    pub bullets: Vec<String>,
    pub source: String,
    /// "drafting" | "checked" | "corrected"
    pub phase: String,
    pub changed_lines: Vec<String>,
    pub ts: i64,
}

pub struct CardOutView {
    pub id: Seq<char>,
    pub kind: CardKind,
    pub question: Seq<char>,
    pub lead: Seq<char>,
    pub bullets: Seq<Seq<char>>,
    pub source: Seq<char>,
    pub phase: Seq<char>,
    pub changed_lines: Seq<Seq<char>>,
    pub ts: i64,
}

impl View for CardOut {
    type V = CardOutView;

    open spec fn view(&self) -> CardOutView {
        CardOutView {
            id: self.id@,
            kind: self.kind,
            question: self.question@,
            lead: self.lead@,
            bullets: self.bullets.deep_view(),
            source: self.source@,
            phase: self.phase@,
            changed_lines: self.changed_lines.deep_view(),
            ts: self.ts,
        }
    }
}

pub open spec fn card_opt(c: Option<CardOut>) -> Option<CardOutView> {
    match c {
        Some(x) => Some(x@),
        None => None,
    }
}

/// Which tools a lane turn may use.
#[derive(Clone, Copy)]
pub enum LaneTools {
    /// Nothing at all.
    NoTools,
    /// Read, Grep and Glob; nothing that writes or reaches the network.
    ReadOnly,
}

/// One lane turn, before it becomes a `ClaudeTurn`.
pub struct LaneCall {
    pub lane_id: String,
    pub model: String,
    pub effort: String,
    pub system_prompt: String,
    pub tools: LaneTools,
    pub fork: bool,
    pub cwd: String,
    pub add_dirs: Vec<String>,
    pub prompt: String,
    pub partial: bool,
}

pub open spec fn allowed_for(tools: LaneTools) -> Seq<Seq<char>> {
    match tools {
        LaneTools::NoTools => Seq::empty(),
        LaneTools::ReadOnly => tool_names(READ_ONLY_TOOLS@),
    }
}

pub open spec fn disallowed_for(tools: LaneTools) -> Seq<Seq<char>> {
    match tools {
        LaneTools::NoTools => tool_names(NO_TOOLS@),
        LaneTools::ReadOnly => tool_names(WRITE_TOOLS@),
    }
}

/// The turn a lane call runs: resumed on the lane, in safe mode, with the
/// lane's tool policy.
pub open spec fn lane_turn(
    lane_id: Seq<char>,
    model: Seq<char>,
    effort: Seq<char>,
    system_prompt: Seq<char>,
    tools: LaneTools,
    fork: bool,
    cwd: Seq<char>,
    add_dirs: Seq<Seq<char>>,
    prompt: Seq<char>,
    partial: bool,
) -> TurnView {
    TurnView {
        prompt,
        cwd,
        model: Some(model),
        effort: Some(effort),
        resume: Some(lane_id),
        fork,
        session_id: None,
        append_system_prompt: Some(system_prompt),
        allowed_tools: allowed_for(tools),
        disallowed_tools: disallowed_for(tools),
        partial,
        safe_mode: true,
        add_dirs,
    }
}

pub fn build_turn(call: LaneCall) -> (t: ClaudeTurn)
    ensures
        t@ == lane_turn(
            call.lane_id@,
            call.model@,
            call.effort@,
            call.system_prompt@,
            call.tools,
            call.fork,
            call.cwd@,
            call.add_dirs.deep_view(),
            call.prompt@,
            call.partial,
        ),
{
    let (allowed, disallowed) = match call.tools {
        LaneTools::NoTools => {
            let a: Vec<String> = Vec::new();
            assert(a.deep_view() =~= Seq::<Seq<char>>::empty());
            (a, tool_list(&NO_TOOLS))
        },
        LaneTools::ReadOnly => (tool_list(&READ_ONLY_TOOLS), tool_list(&WRITE_TOOLS)),
    };
    ClaudeTurn {
        prompt: call.prompt,
        cwd: call.cwd,
        model: Some(call.model),
        effort: Some(call.effort),
        resume: Some(call.lane_id),
        fork: call.fork,
        session_id: None,
        append_system_prompt: Some(call.system_prompt),
        allowed_tools: allowed,
        disallowed_tools: disallowed,
        partial: call.partial,
        safe_mode: true,
        add_dirs: call.add_dirs,
    }
}

pub open spec fn turn_prompt_spec(delta: Seq<char>, trigger: Seq<char>) -> Seq<char> {
    (if delta.len() > 0 {
        "NEW TRANSCRIPT since your last turn:\n"@ + delta + "\n\n"@
    } else {
        Seq::empty()
    }) + "TRIGGER: "@ + trigger + "\n\nAnswer in the card format, or reply SKIP."@
}

/// The prompt of a lane turn: the transcript delta, if any, then the trigger.
pub fn turn_prompt(delta: &str, trigger: &str) -> (r: String)
    ensures
        r@ == turn_prompt_spec(delta@, trigger@),
{
    let mut out = String::new();
    if !delta.is_empty() {
        out.append("NEW TRANSCRIPT since your last turn:\n");
        out.append(delta);
        out.append("\n\n");
    }
    out.append("TRIGGER: ");
    out.append(trigger);
    out.append("\n\nAnswer in the card format, or reply SKIP.");
    out
}

fn copy_string(s: &String) -> (r: String)
    ensures
        r@ == s@,
{
    s.clone()
}

/// The card a reply shows in a given phase.
pub open spec fn card_out_spec(
    id: Seq<char>,
    kind: CardKind,
    question: Seq<char>,
    c: CardView,
    phase: Seq<char>,
    changed: Seq<Seq<char>>,
    ts: i64,
) -> CardOutView {
    CardOutView {
        id,
        kind,
        question,
        lead: c.lead,
        bullets: c.bullets,
        source: c.source,
        phase,
        changed_lines: changed,
        ts,
    }
}

fn card_out(
    id: &str,
    kind: CardKind,
    question: &str,
    c: ParsedCard,
    phase: &str,
    changed: Vec<String>,
    ts: i64,
) -> (r: CardOut)
    ensures
        r@ == card_out_spec(id@, kind, question@, c@, phase@, changed.deep_view(), ts),
{
    CardOut {
        id: String::from_str(id),
        kind,
        question: String::from_str(question),
        lead: c.lead,
        bullets: c.bullets,
        source: c.source,
        phase: String::from_str(phase),
        changed_lines: changed,
        ts,
    }
}

/// A streamed fast reply shows as a drafting card unless it is a skip or empty.
pub open spec fn draft_spec(id: Seq<char>, kind: CardKind, question: Seq<char>, c: CardView, ts: i64) -> Option<
    CardOutView,
> {
    if c.is_skip || c.is_empty {
        None
    } else {
        Some(card_out_spec(id, kind, question, c, "drafting"@, Seq::empty(), ts))
    }
}

/// The drafting card a streamed reply shows, if any.
pub fn draft_card(id: &str, kind: CardKind, question: &str, parsed: ParsedCard, ts: i64) -> (r:
    Option<CardOut>)
    ensures
        card_opt(r) == draft_spec(id@, kind, question@, parsed@, ts),
{
    if parsed.is_skip || parsed.is_empty {
        return None;
    }
    let none: Vec<String> = Vec::new();
    assert(none.deep_view() =~= Seq::<Seq<char>>::empty());
    Some(card_out(id, kind, question, parsed, "drafting", none, ts))
}

// ---------------------------------------------------------------------
// Fast drafts, keyed by card id
// ---------------------------------------------------------------------

/// The entries whose key is not `k`.
pub open spec fn without_key(s: Seq<(Seq<char>, CardView)>, k: Seq<char>) -> Seq<(Seq<char>, CardView)>
    decreases s.len(),
{
    if s.len() == 0 {
        s
    } else if s.last().0 == k {
        without_key(s.drop_last(), k)
    } else {
        without_key(s.drop_last(), k).push(s.last())
    }
}

/// The draft stored under `k`, if any.
pub open spec fn value_of(s: Seq<(Seq<char>, CardView)>, k: Seq<char>) -> Option<CardView>
    decreases s.len(),
{
    if s.len() == 0 {
        None
    } else if s.last().0 == k {
        Some(s.last().1)
    } else {
        value_of(s.drop_last(), k)
    }
}

/// Storing a draft replaces any earlier draft for the same card.
pub open spec fn insert_draft(s: Seq<(Seq<char>, CardView)>, k: Seq<char>, v: CardView) -> Seq<
    (Seq<char>, CardView),
> {
    without_key(s, k).push((k, v))
}

// ---------------------------------------------------------------------
// Lane state
// ---------------------------------------------------------------------

#[verifier::ext_equal]
pub struct LaneView {
    pub trunk_id: Option<Seq<char>>,
    pub fast_id: Option<Seq<char>>,
    pub deep_id: Option<Seq<char>>,
    pub fast_cursor: nat,
    pub deep_cursor: nat,
    pub fast_in_flight: bool,
    pub deep_in_flight: bool,
    /// What the fast pass said, per card, so the deep pass can tell a
    /// rewording from a contradiction.
    pub drafts: Seq<(Seq<char>, CardView)>,
    pub catchup_used: bool,
    pub cfg: Option<ConfigView>,
    /// Cards whose deep pass failed before their fast draft was stored: the
    /// fast pass settles them when it lands.
    pub failed: Seq<Seq<char>>,
}

/// The lanes' bookkeeping for one meeting.
pub struct LaneState {
    trunk_id: Option<String>,
    fast_id: Option<String>,
    deep_id: Option<String>,
    fast_cursor: usize,
    deep_cursor: usize,
    fast_in_flight: bool,
    deep_in_flight: bool,
    fast_drafts: Vec<(String, ParsedCard)>,
    catchup_used: bool,
    cfg: Option<LaneConfig>,
    deep_failed_ids: Vec<String>,
}

pub open spec fn drafts_view(v: Seq<(String, ParsedCard)>) -> Seq<(Seq<char>, CardView)> {
    v.map_values(|p: (String, ParsedCard)| (p.0@, p.1@))
}

impl View for LaneState {
    type V = LaneView;

    closed spec fn view(&self) -> LaneView {
        LaneView {
            trunk_id: opt_str(self.trunk_id),
            fast_id: opt_str(self.fast_id),
            deep_id: opt_str(self.deep_id),
            fast_cursor: self.fast_cursor as nat,
            deep_cursor: self.deep_cursor as nat,
            fast_in_flight: self.fast_in_flight,
            deep_in_flight: self.deep_in_flight,
            drafts: drafts_view(self.fast_drafts@),
            catchup_used: self.catchup_used,
            cfg: match self.cfg {
                Some(c) => Some(c@),
                None => None,
            },
            failed: self.deep_failed_ids.deep_view(),
        }
    }
}

/// The labeled finals after `cursor`, one per line.
pub open spec fn delta_text(log: LogView, cursor: nat) -> Seq<char> {
    join(
        lines_of(
            log.finals.skip(
                if cursor <= log.finals.len() {
                    cursor as int
                } else {
                    log.finals.len() as int
                },
            ),
        ),
        "\n"@,
    )
}

/// A turn prompt with a note for the model appended after a blank line.
pub open spec fn with_extra(prompt: Seq<char>, extra: Option<Seq<char>>) -> Seq<char> {
    match extra {
        Some(e) => prompt + "\n\n"@ + e,
        None => prompt,
    }
}

fn append_extra(prompt: String, extra: Option<&str>) -> (r: String)
    ensures
        r@ == with_extra(
            prompt@,
            match extra {
                Some(e) => Some(e@),
                None => None,
            },
        ),
{
    match extra {
        Some(e) => prompt.concat("\n\n").concat(e),
        None => prompt,
    }
}

/// What `plan_answer` decides: the state after it, the fast turn and the deep turn.
pub open spec fn answer_spec(s: LaneView, question: Seq<char>, extra: Option<Seq<char>>, log: LogView) -> Option<
    (LaneView, TurnView, TurnView),
> {
    if s.cfg is None || s.fast_id is None || s.deep_id is None {
        None
    } else {
        let cfg = s.cfg->0;
        let n = log.finals.len();
        let fast_fork = s.fast_in_flight;
        let deep_fork = s.deep_in_flight;
        let s1 = LaneView {
            fast_cursor: if fast_fork {
                s.fast_cursor
            } else {
                n
            },
            deep_cursor: if deep_fork {
                s.deep_cursor
            } else {
                n
            },
            fast_in_flight: true,
            deep_in_flight: true,
            ..s
        };
        let fast = lane_turn(
            s.fast_id->0,
            cfg.fast_model,
            cfg.fast_effort,
            cfg.fast_prompt,
            LaneTools::NoTools,
            fast_fork,
            cfg.cwd,
            Seq::empty(),
            with_extra(turn_prompt_spec(delta_text(log, s.fast_cursor), question), extra),
            true,
        );
        let deep = lane_turn(
            s.deep_id->0,
            cfg.deep_model,
            cfg.deep_effort,
            cfg.deep_prompt,
            LaneTools::ReadOnly,
            deep_fork,
            cfg.cwd,
            cfg.deep_read_dirs,
            with_extra(turn_prompt_spec(delta_text(log, s.deep_cursor), question), extra),
            true,
        );
        Some((s1, fast, deep))
    }
}

/// What `plan_fast_only` decides: the state after it and the fast turn.
pub open spec fn fast_only_spec(s: LaneView, body: Seq<char>) -> Option<(LaneView, TurnView)> {
    if s.cfg is None || s.fast_id is None {
        None
    } else {
        let cfg = s.cfg->0;
        Some(
            (
                LaneView { fast_in_flight: true, ..s },
                lane_turn(
                    s.fast_id->0,
                    cfg.fast_model,
                    cfg.fast_effort,
                    cfg.fast_prompt,
                    LaneTools::NoTools,
                    s.fast_in_flight,
                    cfg.cwd,
                    Seq::empty(),
                    body,
                    true,
                ),
            ),
        )
    }
}

/// How the deep pass settles a card: a skip or empty reply leaves the draft
/// standing and emits nothing; otherwise the deep card replaces the draft,
/// `corrected` with the changed bullets when its lead contradicts the fast
/// lead, `checked` otherwise.
pub open spec fn settle_spec(
    s: LaneView,
    id: Seq<char>,
    kind: CardKind,
    question: Seq<char>,
    deep: CardView,
    ts: i64,
) -> (LaneView, Option<CardOutView>) {
    let s1 = LaneView { deep_in_flight: false, drafts: without_key(s.drafts, id), ..s };
    if deep.is_skip || deep.is_empty {
        (s1, None)
    } else {
        let fast = match value_of(s.drafts, id) {
            Some(c) => c,
            None => crate::card::blank_card(),
        };
        let contradicted = !fast.is_empty && fast.lead.len() > 0 && deep.lead.len() > 0
            && !similar_spec(fast.lead, deep.lead);
        (
            s1,
            Some(
                card_out_spec(
                    id,
                    kind,
                    question,
                    deep,
                    if contradicted {
                        "corrected"@
                    } else {
                        "checked"@
                    },
                    if contradicted {
                        changed_spec(fast.bullets, deep.bullets)
                    } else {
                        Seq::empty()
                    },
                    ts,
                ),
            ),
        )
    }
}

/// The deep pass of an answer failed: the deep lane is free again, and the
/// card's stored fast draft, if there is one, settles `checked` as it stands
/// rather than staying a draft.
pub open spec fn deep_failed_spec(s: LaneView, id: Seq<char>, kind: CardKind, question: Seq<char>, ts: i64) -> (
    LaneView,
    Option<CardOutView>,
) {
    let s1 = LaneView { deep_in_flight: false, drafts: without_key(s.drafts, id), ..s };
    match value_of(s.drafts, id) {
        Some(fast) => if fast.is_skip || fast.is_empty {
            (s1, None)
        } else {
            (s1, Some(card_out_spec(id, kind, question, fast, "checked"@, Seq::empty(), ts)))
        },
        None => (LaneView { failed: s.failed.push(id), ..s1 }, None),
    }
}

/// The ids other than `id`, in order.
pub open spec fn without_id(ids: Seq<Seq<char>>, id: Seq<char>) -> Seq<Seq<char>>
    decreases ids.len(),
{
    if ids.len() == 0 {
        ids
    } else if ids.last() == id {
        without_id(ids.drop_last(), id)
    } else {
        without_id(ids.drop_last(), id).push(ids.last())
    }
}

/// The fast pass of an answer finished: the fast lane is free again. When
/// the card's deep pass already failed, the reply settles the card
/// `checked` now (unless it is a skip or empty); otherwise a non-skip reply
/// is kept as the card's draft for the deep pass.
pub open spec fn fast_done_spec(
    s: LaneView,
    id: Seq<char>,
    kind: CardKind,
    question: Seq<char>,
    c: CardView,
    ts: i64,
) -> (LaneView, Option<CardOutView>) {
    let s0 = LaneView { fast_in_flight: false, ..s };
    if s.failed.contains(id) {
        (
            LaneView { failed: without_id(s.failed, id), ..s0 },
            if c.is_skip || c.is_empty {
                None
            } else {
                Some(card_out_spec(id, kind, question, c, "checked"@, Seq::empty(), ts))
            },
        )
    } else {
        (
            LaneView {
                drafts: if c.is_skip {
                    s.drafts
                } else {
                    insert_draft(s.drafts, id, c)
                },
                ..s0
            },
            None,
        )
    }
}

/// A fast-only reply lands checked, unless it is a skip or empty.
pub open spec fn fast_only_done_spec(
    s: LaneView,
    id: Seq<char>,
    kind: CardKind,
    question: Seq<char>,
    c: CardView,
    ts: i64,
) -> (LaneView, Option<CardOutView>) {
    let s1 = LaneView { fast_in_flight: false, ..s };
    if c.is_skip || c.is_empty {
        (s1, None)
    } else {
        (s1, Some(card_out_spec(id, kind, question, c, "checked"@, Seq::empty(), ts)))
    }
}

pub open spec fn explain_body(window: Seq<char>) -> Seq<char> {
    "EXPLAIN this, in plain language, for someone who just tuned in:\n\n"@ + window
}

pub open spec fn catchup_body(body: Seq<char>) -> Seq<char> {
    "CATCH ME UP on this stretch of the meeting:\n\n"@ + body
}

/// The turn a fast-only plan runs, if any.
pub open spec fn plan_turn(r: Option<FastOnlyPlan>) -> Option<TurnView> {
    match r {
        Some(p) => Some(p.turn@),
        None => None,
    }
}

/// A fast-only request: the state after it and the turn it runs, if any.
pub open spec fn fast_only_step(s: LaneView, body: Seq<char>) -> (LaneView, Option<TurnView>) {
    match fast_only_spec(s, body) {
        None => (s, None),
        Some((s1, t)) => (s1, Some(t)),
    }
}

/// Explain: the Them channel's last 15 seconds, when there is any.
pub open spec fn explain_spec(s: LaneView, log: LogView) -> (LaneView, Option<TurnView>) {
    let w = window_spec(log, EXPLAIN_WINDOW_MS as int, Some(Speaker::Them));
    if w.len() == 0 {
        (s, None)
    } else {
        fast_only_step(s, explain_body(w))
    }
}

pub open spec fn catchup_label(used: bool) -> Seq<char> {
    if used {
        "Catch-up, last 5 minutes"@
    } else {
        "Catch-up, the meeting so far"@
    }
}

/// Catch-up: the whole meeting on the first press, the last five minutes
/// after that; either way the press is remembered.
pub open spec fn catchup_spec(s: LaneView, log: LogView) -> (LaneView, Option<TurnView>) {
    let body = if s.catchup_used {
        window_spec(log, CATCHUP_WINDOW_MS as int, None)
    } else {
        join(lines_of(log.finals), "\n"@)
    };
    let s0 = LaneView { catchup_used: true, ..s };
    if body.len() == 0 {
        (s0, None)
    } else {
        fast_only_step(s0, catchup_body(body))
    }
}

/// The note turn, or why there is none.
pub open spec fn note_turn_spec(s: LaneView, transcript: Seq<char>, qa_log: Seq<char>) -> Result<
    TurnView,
    Seq<char>,
> {
    if s.deep_id is None {
        Err("deep lane is not open yet"@)
    } else if s.cfg is None {
        Err("assistant lanes are not configured"@)
    } else {
        Ok(
            lane_turn(
                s.deep_id->0,
                s.cfg->0.deep_model,
                s.cfg->0.deep_effort,
                s.cfg->0.note_prompt,
                LaneTools::ReadOnly,
                true,
                s.cfg->0.cwd,
                s.cfg->0.deep_read_dirs,
                "TRANSCRIPT:\n"@ + transcript + "\n\nQ&A LOG:\n"@ + qa_log,
                false,
            ),
        )
    }
}

/// The trunk's seed turn: the brief, held under a fixed session id, answered with READY.
pub open spec fn trunk_view(seed: Seq<char>, cfg: ConfigView, trunk_id: Seq<char>) -> TurnView {
    TurnView {
        prompt: "This is the brief for the meeting that is about to start. Read it, hold it, and answer nothing yet. Reply with exactly the word READY.\n\n"@
            + seed,
        cwd: cfg.cwd,
        model: Some(cfg.fast_model),
        effort: Some(cfg.fast_effort),
        resume: None,
        fork: false,
        session_id: Some(trunk_id),
        append_system_prompt: Some(cfg.fast_prompt),
        allowed_tools: Seq::empty(),
        disallowed_tools: tool_names(NO_TOOLS@),
        partial: false,
        safe_mode: true,
        add_dirs: Seq::empty(),
    }
}

/// A lane's fork off the trunk: no tools, answered with READY.
pub open spec fn fork_view(
    trunk: Seq<char>,
    model: Seq<char>,
    effort: Seq<char>,
    system: Seq<char>,
    cwd: Seq<char>,
) -> TurnView {
    TurnView {
        prompt: "Standing by. Reply with exactly the word READY."@,
        cwd,
        model: Some(model),
        effort: Some(effort),
        resume: Some(trunk),
        fork: true,
        session_id: None,
        append_system_prompt: Some(system),
        allowed_tools: Seq::empty(),
        disallowed_tools: tool_names(NO_TOOLS@),
        partial: false,
        safe_mode: true,
        add_dirs: Seq::empty(),
    }
}

/// The two forks a seeded trunk spawns, once the trunk and the configuration are known.
pub open spec fn forks_spec(s: LaneView) -> Option<(TurnView, TurnView)> {
    match (s.trunk_id, s.cfg) {
        (Some(t), Some(c)) => Some(
            (
                fork_view(t, c.fast_model, c.fast_effort, c.fast_prompt, c.cwd),
                fork_view(t, c.deep_model, c.deep_effort, c.deep_prompt, c.cwd),
            ),
        ),
        _ => None,
    }
}

/// A planned answer: one card, two turns.
pub struct AnswerPlan {
    pub fast: ClaudeTurn,
    pub deep: ClaudeTurn,
}

/// A planned fast-only request (Explain, Catch-up).
pub struct FastOnlyPlan {
    pub kind: CardKind,
    pub question: String,
    pub turn: ClaudeTurn,
}

/// A copy of a card.
pub fn copy_card(c: &ParsedCard) -> (r: ParsedCard)
    ensures
        r@ == c@,
{
    ParsedCard {
        lead: c.lead.clone(),
        bullets: clone_strings(&c.bullets),
        source: c.source.clone(),
        is_skip: c.is_skip,
        is_empty: c.is_empty,
    }
}

proof fn lemma_drafts_view_push(v: Seq<(String, ParsedCard)>, p: (String, ParsedCard))
    ensures
        drafts_view(v.push(p)) == drafts_view(v).push((p.0@, p.1@)),
{
    assert(drafts_view(v.push(p)) =~= drafts_view(v).push((p.0@, p.1@)));
}

impl LaneState {
    /// No lanes, no configuration.
    pub fn new() -> (s: LaneState)
        ensures
            s@.trunk_id is None,
            s@.fast_id is None,
            s@.deep_id is None,
            s@.fast_cursor == 0,
            s@.deep_cursor == 0,
            !s@.fast_in_flight,
            !s@.deep_in_flight,
            s@.drafts.len() == 0,
            !s@.catchup_used,
            s@.cfg is None,
            s@.failed.len() == 0,
    {
        let s = LaneState {
            trunk_id: None,
            fast_id: None,
            deep_id: None,
            fast_cursor: 0,
            deep_cursor: 0,
            fast_in_flight: false,
            deep_in_flight: false,
            fast_drafts: Vec::new(),
            catchup_used: false,
            cfg: None,
            deep_failed_ids: Vec::new(),
        };
        assert(drafts_view(s.fast_drafts@) =~= Seq::<(Seq<char>, CardView)>::empty());
        assert(s.deep_failed_ids.deep_view() =~= Seq::<Seq<char>>::empty());
        s
    }

    /// Both lanes forked and ready to answer.
    pub fn is_ready(&self) -> (r: bool)
        ensures
            r == (self@.fast_id is Some && self@.deep_id is Some),
    {
        self.fast_id.is_some() && self.deep_id.is_some()
    }

    /// Where the fast lane's next primary turn starts reading the transcript.
    pub fn fast_cursor(&self) -> (r: usize)
        ensures
            r == self@.fast_cursor,
    {
        self.fast_cursor
    }

    /// Where the deep lane's next primary turn starts reading the transcript.
    pub fn deep_cursor(&self) -> (r: usize)
        ensures
            r == self@.deep_cursor,
    {
        self.deep_cursor
    }

    /// Records the meeting's configuration, the first step of opening.
    pub fn configure(&mut self, cfg: LaneConfig)
        ensures
            final(self)@ == (LaneView { cfg: Some(cfg@), ..old(self)@ }),
    {
        self.cfg = Some(cfg);
    }

    /// The trunk seed turn: the brief, held, answered with READY.
    pub fn trunk_turn(seed: &str, cfg: &LaneConfig, trunk_id: &str) -> (t: ClaudeTurn)
        ensures
            t@ == trunk_view(seed@, cfg@, trunk_id@),
    {
        let prompt = String::from_str(
            "This is the brief for the meeting that is about to start. Read it, hold it, and answer nothing yet. Reply with exactly the word READY.\n\n",
        ).concat(seed);
        let allowed: Vec<String> = Vec::new();
        let dirs: Vec<String> = Vec::new();
        assert(allowed.deep_view() =~= Seq::<Seq<char>>::empty());
        assert(dirs.deep_view() =~= Seq::<Seq<char>>::empty());
        ClaudeTurn {
            prompt,
            cwd: copy_string(&cfg.cwd),
            model: Some(copy_string(&cfg.fast_model)),
            effort: Some(copy_string(&cfg.fast_effort)),
            resume: None,
            fork: false,
            session_id: Some(String::from_str(trunk_id)),
            append_system_prompt: Some(copy_string(&cfg.fast_prompt)),
            allowed_tools: allowed,
            disallowed_tools: tool_list(&NO_TOOLS),
            partial: false,
            safe_mode: true,
            add_dirs: dirs,
        }
    }

    /// A lane fork off the trunk, answered with READY.
    pub fn fork_turn(trunk_id: &str, model: &str, effort: &str, system: &str, cwd: &str) -> (t:
        ClaudeTurn)
        ensures
            t@ == fork_view(trunk_id@, model@, effort@, system@, cwd@),
    {
        let allowed: Vec<String> = Vec::new();
        let dirs: Vec<String> = Vec::new();
        assert(allowed.deep_view() =~= Seq::<Seq<char>>::empty());
        assert(dirs.deep_view() =~= Seq::<Seq<char>>::empty());
        ClaudeTurn {
            prompt: String::from_str("Standing by. Reply with exactly the word READY."),
            cwd: String::from_str(cwd),
            model: Some(String::from_str(model)),
            effort: Some(String::from_str(effort)),
            resume: Some(String::from_str(trunk_id)),
            fork: true,
            session_id: None,
            append_system_prompt: Some(String::from_str(system)),
            allowed_tools: allowed,
            disallowed_tools: tool_list(&NO_TOOLS),
            partial: false,
            safe_mode: true,
            add_dirs: dirs,
        }
    }

    /// The trunk seed came back. A failed seed opens nothing; otherwise the
    /// trunk is the session the CLI reported, or the id it was minted with.
    pub fn trunk_seeded(&mut self, outcome: &ClaudeOutcome, minted: &str) -> (ok: bool)
        ensures
            ok == (outcome.error is None),
            ok ==> final(self)@ == (LaneView {
                trunk_id: Some(
                    match outcome.session_id {
                        Some(s) => s@,
                        None => minted@,
                    },
                ),
                ..old(self)@
            }),
            !ok ==> final(self)@ == old(self)@,
    {
        if outcome.error.is_some() {
            return false;
        }
        self.trunk_id = Some(
            match &outcome.session_id {
                Some(s) => s.clone(),
                None => String::from_str(minted),
            },
        );
        true
    }

    /// The fast and deep forks of the seeded trunk.
    pub fn fork_turns(&self) -> (r: Option<(ClaudeTurn, ClaudeTurn)>)
        ensures
            match forks_spec(self@) {
                Some((f, d)) => r matches Some(p) && p.0@ == f && p.1@ == d,
                None => r is None,
            },
    {
        match (&self.trunk_id, &self.cfg) {
            (Some(t), Some(c)) => Some(
                (
                    LaneState::fork_turn(
                        t.as_str(),
                        c.fast_model.as_str(),
                        c.fast_effort.as_str(),
                        c.fast_prompt.as_str(),
                        c.cwd.as_str(),
                    ),
                    LaneState::fork_turn(
                        t.as_str(),
                        c.deep_model.as_str(),
                        c.deep_effort.as_str(),
                        c.deep_prompt.as_str(),
                        c.cwd.as_str(),
                    ),
                ),
            ),
            _ => None,
        }
    }

    /// The two forks came back with their session ids (none for a failed fork).
    pub fn forks_done(&mut self, fast_id: Option<String>, deep_id: Option<String>)
        ensures
            final(self)@ == (LaneView { fast_id: opt_str(fast_id), deep_id: opt_str(deep_id), ..old(self)@ }),
    {
        self.fast_id = fast_id;
        self.deep_id = deep_id;
    }

    /// A proactive or gated trigger: both lanes fire, each with the
    /// transcript since its cursor. A lane already in flight forks its
    /// lineage and keeps its cursor; otherwise its cursor advances. `extra`
    /// reaches both prompts, never the card's question.
    pub fn plan_answer(&mut self, question: &str, extra: Option<&str>, log: &TranscriptLog) -> (r:
        Option<AnswerPlan>)
        ensures
            match answer_spec(
                old(self)@,
                question@,
                match extra {
                    Some(e) => Some(e@),
                    None => None,
                },
                log@,
            ) {
                None => r is None && final(self)@ == old(self)@,
                Some((s1, fast, deep)) => r matches Some(p) && final(self)@ == s1 && p.fast@ == fast
                    && p.deep@ == deep,
            },
    {
        if self.cfg.is_none() || self.fast_id.is_none() || self.deep_id.is_none() {
            return None;
        }
        let (fast_text, fast_next) = log.delta_since(self.fast_cursor);
        let (deep_text, deep_next) = log.delta_since(self.deep_cursor);
        let fast_fork = self.fast_in_flight;
        if !fast_fork {
            self.fast_cursor = fast_next;
        }
        self.fast_in_flight = true;
        let deep_fork = self.deep_in_flight;
        if !deep_fork {
            self.deep_cursor = deep_next;
        }
        self.deep_in_flight = true;
        let cfg = self.cfg.as_ref().unwrap();
        let fast_id = self.fast_id.as_ref().unwrap();
        let deep_id = self.deep_id.as_ref().unwrap();
        let none: Vec<String> = Vec::new();
        assert(none.deep_view() =~= Seq::<Seq<char>>::empty());
        let fast = build_turn(
            LaneCall {
                lane_id: copy_string(fast_id),
                model: copy_string(&cfg.fast_model),
                effort: copy_string(&cfg.fast_effort),
                system_prompt: copy_string(&cfg.fast_prompt),
                tools: LaneTools::NoTools,
                fork: fast_fork,
                cwd: copy_string(&cfg.cwd),
                add_dirs: none,
                prompt: append_extra(turn_prompt(fast_text.as_str(), question), extra),
                partial: true,
            },
        );
        let deep = build_turn(
            LaneCall {
                lane_id: copy_string(deep_id),
                model: copy_string(&cfg.deep_model),
                effort: copy_string(&cfg.deep_effort),
                system_prompt: copy_string(&cfg.deep_prompt),
                tools: LaneTools::ReadOnly,
                fork: deep_fork,
                cwd: copy_string(&cfg.cwd),
                add_dirs: clone_strings(&cfg.deep_read_dirs),
                prompt: append_extra(turn_prompt(deep_text.as_str(), question), extra),
                partial: true,
            },
        );
        Some(AnswerPlan { fast, deep })
    }

    /// The fast pass of an answer finished: the lane is free again. A card
    /// whose deep pass already failed settles now; otherwise a non-skip reply
    /// is kept as that card's draft.
    pub fn fast_done(&mut self, id: &str, kind: CardKind, question: &str, parsed: ParsedCard, ts: i64) -> (r:
        Option<CardOut>)
        ensures
            (final(self)@, card_opt(r)) == fast_done_spec(old(self)@, id@, kind, question@, parsed@, ts),
    {
        self.fast_in_flight = false;
        if self.take_failed(id) {
            if parsed.is_skip || parsed.is_empty {
                return None;
            }
            let none: Vec<String> = Vec::new();
            assert(none.deep_view() =~= Seq::<Seq<char>>::empty());
            return Some(card_out(id, kind, question, parsed, "checked", none, ts));
        }
        if parsed.is_skip {
            return None;
        }
        self.remove_draft(id);
        let ghost before = self.fast_drafts@;
        let ghost pv = parsed@;
        let entry = (String::from_str(id), parsed);
        proof {
            lemma_drafts_view_push(before, entry);
        }
        self.fast_drafts.push(entry);
        None
    }

    /// Whether `id`'s deep pass failed before its draft came; it is
    /// forgotten either way.
    fn take_failed(&mut self, id: &str) -> (found: bool)
        ensures
            found == old(self)@.failed.contains(id@),
            found ==> final(self)@ == (LaneView { failed: without_id(old(self)@.failed, id@), ..old(self)@ }),
            !found ==> final(self)@ == old(self)@,
    {
        let ghost f0 = self.deep_failed_ids.deep_view();
        let key = chars_of(id);
        let n = self.deep_failed_ids.len();
        let mut kept: Vec<String> = Vec::new();
        let mut found = false;
        assert(kept.deep_view() =~= without_id(f0.take(0), id@));
        for i in 0..n
            invariant
                n == self.deep_failed_ids@.len(),
                f0 == self.deep_failed_ids.deep_view(),
                key@ == id@,
                kept.deep_view() == without_id(f0.take(i as int), id@),
                found == f0.take(i as int).contains(id@),
        {
            assert(f0.take(i + 1).drop_last() =~= f0.take(i as int));
            assert(f0.take(i + 1).last() == self.deep_failed_ids@[i as int]@);
            let e = chars_of(self.deep_failed_ids[i].as_str());
            if chars_eq(&e, &key) {
                found = true;
                assert(f0.take(i + 1).contains(id@)) by {
                    assert(f0.take(i + 1)[i as int] == id@);
                }
            } else {
                let ghost before = kept.deep_view();
                kept.push(self.deep_failed_ids[i].clone());
                assert(kept.deep_view() =~= before.push(self.deep_failed_ids@[i as int]@));
                assert(f0.take(i + 1).contains(id@) == f0.take(i as int).contains(id@)) by {
                    if f0.take(i + 1).contains(id@) {
                        let j = choose|j: int| 0 <= j < f0.take(i + 1).len() && #[trigger] f0.take(i + 1)[j] == id@;
                        if j < i {
                            assert(f0.take(i as int)[j] == id@);
                        }
                    }
                    if f0.take(i as int).contains(id@) {
                        let j = choose|j: int| 0 <= j < f0.take(i as int).len() && #[trigger] f0.take(i as int)[j] == id@;
                        assert(f0.take(i + 1)[j] == id@);
                    }
                }
            }
        }
        assert(f0.take(n as int) =~= f0);
        if found {
            self.deep_failed_ids = kept;
        }
        found
    }

    /// Removes the draft stored for `id` and hands it back.
    fn remove_draft(&mut self, id: &str) -> (r: Option<ParsedCard>)
        ensures
            final(self)@ == (LaneView { drafts: without_key(old(self)@.drafts, id@), ..old(self)@ }),
            match r {
                Some(c) => value_of(old(self)@.drafts, id@) == Some(c@),
                None => value_of(old(self)@.drafts, id@) is None,
            },
    {
        let ghost d0 = drafts_view(self.fast_drafts@);
        let mut kept: Vec<(String, ParsedCard)> = Vec::new();
        let mut found: Option<ParsedCard> = None;
        let key = chars_of(id);
        let n = self.fast_drafts.len();
        assert(drafts_view(kept@) =~= without_key(d0.take(0), id@));
        for i in 0..n
            invariant
                n == self.fast_drafts@.len(),
                drafts_view(self.fast_drafts@) == d0,
                key@ == id@,
                drafts_view(kept@) == without_key(d0.take(i as int), id@),
                match found {
                    Some(c) => value_of(d0.take(i as int), id@) == Some(c@),
                    None => value_of(d0.take(i as int), id@) is None,
                },
        {
            assert(d0.take(i + 1).drop_last() =~= d0.take(i as int));
            assert(d0.take(i + 1).last() == (self.fast_drafts@[i as int].0@, self.fast_drafts@[i as int].1@));
            let entry = &self.fast_drafts[i];
            let ek = chars_of(entry.0.as_str());
            if chars_eq(&ek, &key) {
                found = Some(copy_card(&entry.1));
            } else {
                let ghost before = kept@;
                let copy = (entry.0.clone(), copy_card(&entry.1));
                proof {
                    lemma_drafts_view_push(before, copy);
                }
                kept.push(copy);
            }
        }
        assert(d0.take(n as int) =~= d0);
        self.fast_drafts = kept;
        found
    }

    /// The deep pass of an answer finished: the lane is free again, and the
    /// card settles.
    pub fn deep_done(&mut self, id: &str, kind: CardKind, question: &str, deep: ParsedCard, ts: i64) -> (r:
        Option<CardOut>)
        ensures
            (final(self)@, card_opt(r)) == settle_spec(old(self)@, id@, kind, question@, deep@, ts),
    {
        self.deep_in_flight = false;
        let fast = self.remove_draft(id);
        if deep.is_skip || deep.is_empty {
            return None;
        }
        let fast = match fast {
            Some(c) => c,
            None => ParsedCard::empty(),
        };
        let contradicted = contradicts(&fast, &deep);
        let changed = if contradicted {
            changed_bullets(&fast, &deep)
        } else {
            let none: Vec<String> = Vec::new();
            assert(none.deep_view() =~= Seq::<Seq<char>>::empty());
            none
        };
        Some(
            card_out(
                id,
                kind,
                question,
                deep,
                if contradicted {
                    "corrected"
                } else {
                    "checked"
                },
                changed,
                ts,
            ),
        )
    }

    /// The deep pass of an answer failed: the lane is free again, and the
    /// card settles with the fast draft's content when there is a draft.
    pub fn deep_failed(&mut self, id: &str, kind: CardKind, question: &str, ts: i64) -> (r: Option<
        CardOut,
    >)
        ensures
            (final(self)@, card_opt(r)) == deep_failed_spec(old(self)@, id@, kind, question@, ts),
    {
        self.deep_in_flight = false;
        match self.remove_draft(id) {
            Some(fast) => {
                if fast.is_skip || fast.is_empty {
                    return None;
                }
                let none: Vec<String> = Vec::new();
                assert(none.deep_view() =~= Seq::<Seq<char>>::empty());
                Some(card_out(id, kind, question, fast, "checked", none, ts))
            },
            None => {
                let ghost before = self.deep_failed_ids.deep_view();
                self.deep_failed_ids.push(String::from_str(id));
                assert(self.deep_failed_ids.deep_view() =~= before.push(id@));
                None
            },
        }
    }

    /// Explain and catch-up are transcript-local: fast lane only. The lane
    /// forks when it is in flight; its cursor never moves.
    pub fn plan_fast_only(&mut self, kind: CardKind, question: String, body: &str) -> (r: Option<
        FastOnlyPlan,
    >)
        ensures
            match fast_only_spec(old(self)@, body@) {
                None => r is None && final(self)@ == old(self)@,
                Some((s1, turn)) => r matches Some(p) && final(self)@ == s1 && p.turn@ == turn
                    && p.kind == kind && p.question@ == question@,
            },
    {
        if self.cfg.is_none() || self.fast_id.is_none() {
            return None;
        }
        let fork = self.fast_in_flight;
        self.fast_in_flight = true;
        let cfg = self.cfg.as_ref().unwrap();
        let fast_id = self.fast_id.as_ref().unwrap();
        let none: Vec<String> = Vec::new();
        assert(none.deep_view() =~= Seq::<Seq<char>>::empty());
        let turn = build_turn(
            LaneCall {
                lane_id: copy_string(fast_id),
                model: copy_string(&cfg.fast_model),
                effort: copy_string(&cfg.fast_effort),
                system_prompt: copy_string(&cfg.fast_prompt),
                tools: LaneTools::NoTools,
                fork,
                cwd: copy_string(&cfg.cwd),
                add_dirs: none,
                prompt: String::from_str(body),
                partial: true,
            },
        );
        Some(FastOnlyPlan { kind, question, turn })
    }

    /// Explain the last 15 seconds of the Them channel; nothing when it is silent.
    pub fn plan_explain(&mut self, log: &TranscriptLog) -> (r: Option<FastOnlyPlan>)
        ensures
            (final(self)@, plan_turn(r)) == explain_spec(old(self)@, log@),
            r matches Some(p) ==> p.kind == CardKind::Explain && p.question@
                == "Explain the last 15 seconds"@,
    {
        let window = log.window(EXPLAIN_WINDOW_MS, Some(Speaker::Them));
        if window.as_str().is_empty() {
            return None;
        }
        let body = String::from_str(
            "EXPLAIN this, in plain language, for someone who just tuned in:\n\n",
        ).concat(window.as_str());
        self.plan_fast_only(
            CardKind::Explain,
            String::from_str("Explain the last 15 seconds"),
            body.as_str(),
        )
    }

    /// Catch-up: the first press covers the meeting so far, later ones the
    /// last five minutes. Nothing when there is no transcript yet.
    pub fn plan_catchup(&mut self, log: &TranscriptLog) -> (r: Option<FastOnlyPlan>)
        ensures
            (final(self)@, plan_turn(r)) == catchup_spec(old(self)@, log@),
            r matches Some(p) ==> p.kind == CardKind::Catchup && p.question@ == catchup_label(
                old(self)@.catchup_used,
            ),
    {
        let used = self.catchup_used;
        let (body, label) = if used {
            (
                log.window(CATCHUP_WINDOW_MS, None),
                String::from_str("Catch-up, last 5 minutes"),
            )
        } else {
            (log.all(), String::from_str("Catch-up, the meeting so far"))
        };
        self.catchup_used = true;
        if body.as_str().is_empty() {
            return None;
        }
        let full = String::from_str("CATCH ME UP on this stretch of the meeting:\n\n").concat(
            body.as_str(),
        );
        self.plan_fast_only(CardKind::Catchup, label, full.as_str())
    }

    /// A fast-only reply finished: the lane is free again, and the card lands
    /// checked, since there is nothing to verify.
    pub fn fast_only_done(
        &mut self,
        id: &str,
        kind: CardKind,
        question: &str,
        parsed: ParsedCard,
        ts: i64,
    ) -> (r: Option<CardOut>)
        ensures
            (final(self)@, card_opt(r)) == fast_only_done_spec(
                old(self)@,
                id@,
                kind,
                question@,
                parsed@,
                ts,
            ),
    {
        self.fast_in_flight = false;
        if parsed.is_skip || parsed.is_empty {
            return None;
        }
        let none: Vec<String> = Vec::new();
        assert(none.deep_view() =~= Seq::<Seq<char>>::empty());
        Some(card_out(id, kind, question, parsed, "checked", none, ts))
    }

    /// The note-drafting turn: one fork of the deep lineage, read-only, with
    /// the note prompt, over the full transcript and the Q&A log.
    pub fn plan_note(&self, transcript: &str, qa_log: &str) -> (r: Result<ClaudeTurn, String>)
        ensures
            match (r, note_turn_spec(self@, transcript@, qa_log@)) {
                (Ok(t), Ok(u)) => t@ == u,
                (Err(e), Err(f)) => e@ == f,
                _ => false,
            },
    {
        let deep_id = match &self.deep_id {
            Some(d) => d,
            None => {
                return Err(String::from_str("deep lane is not open yet"));
            },
        };
        let cfg = match &self.cfg {
            Some(c) => c,
            None => {
                return Err(String::from_str("assistant lanes are not configured"));
            },
        };
        let prompt = String::from_str("TRANSCRIPT:\n").concat(transcript).concat(
            "\n\nQ&A LOG:\n",
        ).concat(qa_log);
        Ok(
            build_turn(
                LaneCall {
                    lane_id: copy_string(deep_id),
                    model: copy_string(&cfg.deep_model),
                    effort: copy_string(&cfg.deep_effort),
                    system_prompt: copy_string(&cfg.note_prompt),
                    tools: LaneTools::ReadOnly,
                    fork: true,
                    cwd: copy_string(&cfg.cwd),
                    add_dirs: clone_strings(&cfg.deep_read_dirs),
                    prompt,
                    partial: false,
                },
            ),
        )
    }
}

/// A note turn's outcome: its error, or its text.
pub fn note_result(outcome: ClaudeOutcome) -> (r: Result<String, String>)
    ensures
        match outcome.error {
            Some(e) => r matches Err(x) && x@ == e@,
            None => r matches Ok(x) && x@ == outcome.text@,
        },
{
    match outcome.error {
        Some(err) => Err(err),
        None => Ok(outcome.text),
    }
}

// ---------------------------------------------------------------------
// Streaming
// ---------------------------------------------------------------------

/// The text a turn has streamed so far.
pub struct StreamText {
    text: String,
}

impl View for StreamText {
    type V = Seq<char>;

    closed spec fn view(&self) -> Seq<char> {
        self.text@
    }
}

impl StreamText {
    pub fn new() -> (s: StreamText)
        ensures
            s@ == Seq::<char>::empty(),
    {
        StreamText { text: String::new() }
    }

    /// One more delta. Once SKIP can be ruled out, the whole text so far
    /// parses into the card to show.
    pub fn push(&mut self, chunk: &str) -> (r: Option<ParsedCard>)
        ensures
            final(self)@ == old(self)@ + chunk@,
            match r {
                Some(c) => can_decide_spec(final(self)@) && c@ == parse_spec(final(self)@),
                None => !can_decide_spec(final(self)@),
            },
    {
        self.text.append(chunk);
        if can_decide(self.text.as_str()) {
            Some(parse(self.text.as_str()))
        } else {
            None
        }
    }

    /// The turn finished: its final text parses, or, when it returned none,
    /// everything it streamed.
    pub fn finish(&self, final_text: &str) -> (c: ParsedCard)
        ensures
            c@ == parse_spec(
                if final_text@.len() == 0 {
                    self@
                } else {
                    final_text@
                },
            ),
    {
        if final_text.is_empty() {
            parse(self.text.as_str())
        } else {
            parse(final_text)
        }
    }
}


// ---------------------------------------------------------------------
// Laws
// ---------------------------------------------------------------------

/// Nothing is ever queued: once both lanes are open, every trigger gets its
/// two turns at once, whether or not a lane is already in flight.
pub proof fn law_nothing_is_queued(
    s: LaneView,
    question: Seq<char>,
    extra: Option<Seq<char>>,
    log: LogView,
)
    requires
        s.cfg is Some,
        s.fast_id is Some,
        s.deep_id is Some,
    ensures
        answer_spec(s, question, extra, log) is Some,
{
}

/// Only a lane's primary turn advances its cursor: a lane already in
/// flight forks its lineage and keeps its cursor; a free lane runs on its
/// lineage and its cursor moves to the end of the transcript. Both lanes
/// are in flight afterwards.
pub proof fn law_only_primary_turns_advance_cursors(
    s: LaneView,
    question: Seq<char>,
    extra: Option<Seq<char>>,
    log: LogView,
)
    ensures
        match answer_spec(s, question, extra, log) {
            Some((s1, fast, deep)) => {
                &&& fast.fork == s.fast_in_flight
                &&& deep.fork == s.deep_in_flight
                &&& s1.fast_cursor == if s.fast_in_flight {
                    s.fast_cursor
                } else {
                    log.finals.len()
                }
                &&& s1.deep_cursor == if s.deep_in_flight {
                    s.deep_cursor
                } else {
                    log.finals.len()
                }
                &&& s1.fast_in_flight && s1.deep_in_flight
            },
            None => true,
        },
{
}

/// Explain and catch-up never move a cursor and never touch the deep lane.
pub proof fn law_fast_only_keeps_cursors(s: LaneView, body: Seq<char>)
    ensures
        match fast_only_spec(s, body) {
            Some((s1, t)) => {
                &&& s1.fast_cursor == s.fast_cursor
                &&& s1.deep_cursor == s.deep_cursor
                &&& s1.deep_in_flight == s.deep_in_flight
                &&& t.fork == s.fast_in_flight
                &&& s1.fast_in_flight
            },
            None => true,
        },
{
}

/// Each final reaches a lane once: from the end of the transcript, the
/// delta is empty.
pub proof fn law_delta_at_the_end_is_empty(log: LogView)
    ensures
        delta_text(log, log.finals.len()).len() == 0,
{
    assert(log.finals.skip(log.finals.len() as int) =~= Seq::<FinalView>::empty());
    assert(lines_of(log.finals.skip(log.finals.len() as int)) =~= Seq::<Seq<char>>::empty());
}

/// A key is gone once it is taken out.
proof fn lemma_without_key_misses(d: Seq<(Seq<char>, CardView)>, k: Seq<char>)
    ensures
        value_of(without_key(d, k), k) is None,
    decreases d.len(),
{
    if d.len() > 0 {
        lemma_without_key_misses(d.drop_last(), k);
        let w = without_key(d.drop_last(), k);
        assert(w.push(d.last()).drop_last() =~= w);
    }
}

/// A stored draft is found again under its card id, and a settled card's
/// draft is gone.
pub proof fn law_drafts_are_kept_per_card(d: Seq<(Seq<char>, CardView)>, k: Seq<char>, v: CardView)
    ensures
        value_of(insert_draft(d, k, v), k) == Some(v),
        value_of(without_key(d, k), k) is None,
{
    lemma_without_key_misses(d, k);
}

/// How a card settles: the deep lane is free again and the card's draft is
/// consumed; a deep skip or empty reply emits nothing and the draft stands;
/// a deep pass that says what the fast pass said settles `checked` with
/// nothing highlighted.
pub proof fn law_settling(
    s: LaneView,
    id: Seq<char>,
    kind: CardKind,
    question: Seq<char>,
    deep: CardView,
    ts: i64,
)
    ensures
        ({
            let (s1, c) = settle_spec(s, id, kind, question, deep, ts);
            &&& !s1.deep_in_flight
            &&& value_of(s1.drafts, id) is None
            &&& s1.fast_cursor == s.fast_cursor && s1.deep_cursor == s.deep_cursor
            &&& (deep.is_skip || deep.is_empty) ==> c is None
            &&& (!deep.is_skip && !deep.is_empty && value_of(s.drafts, id) == Some(deep)) ==> (
            c matches Some(card) && card.phase == "checked"@ && card.changed_lines.len() == 0
                && card.lead == deep.lead)
        }),
{
    lemma_without_key_misses(s.drafts, id);
    law_a_card_agrees_with_itself(deep);
}


/// A failed deep pass loses no answer: the card's fast draft settles
/// `checked` exactly as the fast pass wrote it, the draft is consumed and the
/// deep lane is free again.
pub proof fn law_a_failed_deep_pass_settles_the_draft(
    s: LaneView,
    id: Seq<char>,
    kind: CardKind,
    question: Seq<char>,
    ts: i64,
)
    ensures
        ({
            let (s1, c) = deep_failed_spec(s, id, kind, question, ts);
            &&& !s1.deep_in_flight
            &&& value_of(s1.drafts, id) is None
            &&& s1.fast_cursor == s.fast_cursor && s1.deep_cursor == s.deep_cursor
            &&& (value_of(s.drafts, id) matches Some(fast) && !fast.is_skip && !fast.is_empty)
                ==> (c matches Some(card) && card.id == id && card.phase == "checked"@ && card.lead
                == value_of(s.drafts, id)->0.lead && card.bullets == value_of(s.drafts, id)->0.bullets
                && card.source == value_of(s.drafts, id)->0.source && card.changed_lines.len() == 0)
            &&& value_of(s.drafts, id) is None ==> c is None
        }),
{
    lemma_without_key_misses(s.drafts, id);
}


/// A failed deep pass loses no answer whichever turn ends first: when the
/// deep pass fails before the fast draft is stored, the fast reply settles
/// the card `checked` with its own content as soon as it lands, and the card
/// is forgotten as failed.
pub proof fn law_a_fast_reply_after_a_failed_deep_pass_settles(
    s: LaneView,
    id: Seq<char>,
    kind: CardKind,
    question: Seq<char>,
    fast: CardView,
    ts_deep: i64,
    ts_fast: i64,
)
    requires
        value_of(s.drafts, id) is None,
        !fast.is_skip,
        !fast.is_empty,
    ensures
        ({
            let (s1, c1) = deep_failed_spec(s, id, kind, question, ts_deep);
            let (s2, c2) = fast_done_spec(s1, id, kind, question, fast, ts_fast);
            &&& c1 is None
            &&& c2 == Some(card_out_spec(id, kind, question, fast, "checked"@, Seq::empty(), ts_fast))
            &&& value_of(s2.drafts, id) is None
        }),
{
    let (s1, _) = deep_failed_spec(s, id, kind, question, ts_deep);
    assert(s1.failed[s1.failed.len() - 1] == id);
    assert(s1.failed.contains(id));
    lemma_without_key_misses(s.drafts, id);
}

/// A settled card is the deep card, and what it highlights are the deep
/// card's own bullets: on a correction, every changed line is a bullet of
/// the deep card, and every deep bullet that is not matched at its position
/// by a similar bullet of the fast draft is highlighted; a check highlights
/// nothing.
pub proof fn law_a_correction_highlights_the_deep_bullets(
    s: LaneView,
    id: Seq<char>,
    kind: CardKind,
    question: Seq<char>,
    deep: CardView,
    ts: i64,
)
    ensures
        ({
            let c = settle_spec(s, id, kind, question, deep, ts).1;
            let fast = match value_of(s.drafts, id) {
                Some(f) => f,
                None => crate::card::blank_card(),
            };
            &&& c matches Some(card) ==> card.lead == deep.lead && card.bullets == deep.bullets
                && card.source == deep.source
            &&& c matches Some(card) ==> (forall|l: Seq<char>|
                #[trigger] card.changed_lines.contains(l) ==> deep.bullets.contains(l))
            &&& c matches Some(card) ==> (card.phase == "corrected"@ ==> (forall|i: int|
                0 <= i < deep.bullets.len() && (i >= fast.bullets.len() || !similar_spec(
                    fast.bullets[i],
                    deep.bullets[i],
                )) ==> card.changed_lines.contains(#[trigger] deep.bullets[i])))
            &&& c matches Some(card) ==> (card.phase == "checked"@ ==> card.changed_lines.len() == 0)
        }),
{
    let fast = match value_of(s.drafts, id) {
        Some(f) => f,
        None => crate::card::blank_card(),
    };
    law_changed_lines_are_new_bullets(fast.bullets, deep.bullets);
    reveal_strlit("corrected");
    reveal_strlit("checked");
    assert("corrected"@.len() != "checked"@.len());
}

} // verus!
