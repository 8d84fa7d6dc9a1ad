use assistant::card::parse;
use assistant::claude_cli::ClaudeOutcome;
use assistant::lanes::{
    draft_card, note_result, CardKind, LaneConfig, LaneState, StreamText, CATCHUP_WINDOW_MS,
    EXPLAIN_WINDOW_MS,
};
use assistant::transcript::{TranscriptLog, TranscriptUpdate};

fn tu(source: &str, text: &str, start_ms: u64, end_ms: u64, is_partial: bool) -> TranscriptUpdate {
    TranscriptUpdate {
        text: text.to_string(),
        source: source.to_string(),
        is_partial,
        audio_start_ms: start_ms,
        audio_end_ms: end_ms,
    }
}

fn test_cfg() -> LaneConfig {
    LaneConfig {
        cwd: "/tmp".to_string(),
        fast_model: "fast-model".to_string(),
        fast_effort: "low".to_string(),
        deep_model: "deep-model".to_string(),
        deep_effort: "medium".to_string(),
        deep_read_dirs: Vec::new(),
        note_prompt: "note prompt".to_string(),
        fast_prompt: "fast prompt".to_string(),
        deep_prompt: "deep prompt".to_string(),
    }
}

fn open_lanes(fast_id: &str, deep_id: &str) -> LaneState {
    let mut lanes = LaneState::new();
    lanes.configure(test_cfg());
    lanes.forks_done(Some(fast_id.to_string()), Some(deep_id.to_string()));
    lanes
}

/// Streams `text` as one delta and finishes the turn with it.
fn fast_reply(id: &str, question: &str, text: &str) -> (Vec<assistant::lanes::CardOut>, assistant::card::ParsedCard) {
    let mut stream = StreamText::new();
    let mut shown = Vec::new();
    if let Some(parsed) = stream.push(text) {
        if let Some(card) = draft_card(id, CardKind::Answer, question, parsed, 1) {
            shown.push(card);
        }
    }
    (shown, stream.finish(text))
}

#[test]
fn second_rapid_answer_forks_without_advancing_cursor() {
    let mut lanes = open_lanes("fast-1", "deep-1");
    let mut log = TranscriptLog::new();
    log.ingest(&tu("mic", "one", 0, 1000, false));
    log.ingest(&tu("system", "hello", 2000, 3000, false));

    let first = lanes.plan_answer("q1", None, &log).expect("lanes are open");
    assert_eq!(lanes.fast_cursor(), 1);

    let second = lanes.plan_answer("q2", None, &log).expect("lanes are open");
    assert_eq!(lanes.fast_cursor(), 1, "a fork must not advance the cursor");

    assert_eq!(first.fast.resume.as_deref(), Some("fast-1"));
    assert_eq!(second.fast.resume.as_deref(), Some("fast-1"));
    assert!(!first.fast.fork, "the first trigger advances, it does not fork");
    assert!(second.fast.fork, "the second rapid trigger forks instead of queueing");
}

#[test]
fn deep_confirms_fast_draft_settles_checked() {
    let mut lanes = open_lanes("fast-1", "deep-1");
    let log = TranscriptLog::new();
    lanes.plan_answer("what do we ship?", None, &log).expect("lanes are open");

    let (shown, fast) = fast_reply("card-1", "what do we ship?", "LEAD: We ship Proposal 3\n- Backend is done");
    assert_eq!(shown.len(), 1);
    lanes.fast_done("card-1", CardKind::Answer, "which proposal?", fast, 1);
    let deep = parse("LEAD: We ship Proposal 3\n- Backend implementation is complete");
    let settled = lanes
        .deep_done("card-1", CardKind::Answer, "what do we ship?", deep, 2)
        .expect("deep pass should settle the card as checked");
    assert_eq!(settled.phase, "checked");
    assert_eq!(settled.lead, "We ship Proposal 3");
    assert!(settled.changed_lines.is_empty());
}

#[test]
fn deep_contradicts_fast_draft_settles_corrected_with_changed_lines() {
    let mut lanes = open_lanes("fast-1", "deep-1");
    let log = TranscriptLog::new();
    lanes.plan_answer("which proposal?", None, &log).expect("lanes are open");

    let (_, fast) = fast_reply("card-1", "which proposal?", "LEAD: We ship Proposal 3\n- Backend is done");
    lanes.fast_done("card-1", CardKind::Answer, "which proposal?", fast, 1);
    let deep = parse("LEAD: We ship Proposal 4 instead\n- QA flagged a blocker on 3");
    let settled = lanes
        .deep_done("card-1", CardKind::Answer, "which proposal?", deep, 2)
        .expect("a contradicted lead should settle as corrected");
    assert_eq!(settled.phase, "corrected");
    assert_eq!(settled.lead, "We ship Proposal 4 instead");
    assert!(!settled.changed_lines.is_empty());
}

#[test]
fn deep_skip_leaves_fast_draft_standing() {
    let mut lanes = open_lanes("fast-1", "deep-1");
    let log = TranscriptLog::new();
    lanes.plan_answer("which proposal?", None, &log).expect("lanes are open");

    let (shown, fast) = fast_reply("card-1", "which proposal?", "LEAD: We ship Proposal 3\n- Backend is done");
    assert!(!shown.is_empty(), "the fast draft should have streamed at least one drafting card");
    assert!(shown.iter().all(|c| c.phase == "drafting"));
    lanes.fast_done("card-1", CardKind::Answer, "which proposal?", fast, 1);
    let settled = lanes.deep_done("card-1", CardKind::Answer, "which proposal?", parse("SKIP"), 2);
    assert!(
        settled.is_none(),
        "a deep SKIP must not emit a settle card, the draft stands as is"
    );
}

#[test]
fn unopened_lanes_plan_nothing() {
    let mut lanes = LaneState::new();
    let log = TranscriptLog::new();
    assert!(lanes.plan_answer("q", None, &log).is_none());
    assert!(!lanes.is_ready());
    let mut configured = LaneState::new();
    configured.configure(test_cfg());
    assert!(configured.plan_answer("q", None, &log).is_none());
    assert_eq!(
        configured.plan_note("t", "q").unwrap_err(),
        "deep lane is not open yet"
    );
}

#[test]
fn answer_prompts_carry_the_delta_the_trigger_and_the_extra_note() {
    let mut lanes = open_lanes("fast-1", "deep-1");
    let mut log = TranscriptLog::new();
    log.ingest(&tu("mic", "one", 0, 1000, false));
    log.ingest(&tu("system", "hello", 2000, 3000, false));
    let plan = lanes.plan_answer("q1", Some("Do not reply SKIP."), &log).unwrap();
    assert_eq!(
        plan.fast.prompt,
        "NEW TRANSCRIPT since your last turn:\nYou: one\n\nTRIGGER: q1\n\nAnswer in the card format, or reply SKIP.\n\nDo not reply SKIP."
    );
    assert_eq!(plan.fast.model.as_deref(), Some("fast-model"));
    assert_eq!(plan.deep.model.as_deref(), Some("deep-model"));
    assert_eq!(plan.deep.resume.as_deref(), Some("deep-1"));
    assert!(plan.fast.allowed_tools.is_empty());
    assert_eq!(plan.deep.allowed_tools, vec!["Read", "Grep", "Glob"]);
    // With no new finals since the cursor, the prompt is the trigger alone.
    lanes.fast_done("c", CardKind::Answer, "q1", parse("SKIP"), 0);
    lanes.deep_done("c", CardKind::Answer, "q1", parse("SKIP"), 0);
    let again = lanes.plan_answer("q2", None, &log).unwrap();
    assert_eq!(
        again.fast.prompt,
        "TRIGGER: q2\n\nAnswer in the card format, or reply SKIP."
    );
}

#[test]
fn explain_uses_the_them_window_and_catchup_widens_then_narrows() {
    assert_eq!(EXPLAIN_WINDOW_MS, 15000);
    assert_eq!(CATCHUP_WINDOW_MS, 300000);
    let mut lanes = open_lanes("fast-1", "deep-1");
    let mut log = TranscriptLog::new();
    assert!(lanes.plan_explain(&log).is_none());
    log.ingest(&tu("system", "the rollout slips a week", 0, 1000, false));
    log.ingest(&tu("mic", "ok", 2000, 3000, false));
    let explain = lanes.plan_explain(&log).expect("the Them channel spoke");
    assert_eq!(explain.kind, CardKind::Explain);
    assert_eq!(explain.question, "Explain the last 15 seconds");
    assert_eq!(
        explain.turn.prompt,
        "EXPLAIN this, in plain language, for someone who just tuned in:\n\nThem: the rollout slips a week"
    );
    let first = lanes.plan_catchup(&log).unwrap();
    assert_eq!(first.question, "Catch-up, the meeting so far");
    let second = lanes.plan_catchup(&log).unwrap();
    assert_eq!(second.question, "Catch-up, last 5 minutes");
    assert!(second.turn.fork, "the fast lane is still in flight, so it forks");
}

#[test]
fn fast_only_reply_lands_checked_unless_skipped() {
    let mut lanes = open_lanes("fast-1", "deep-1");
    let card = lanes
        .fast_only_done("c1", CardKind::Explain, "Explain the last 15 seconds", parse("LEAD: It slips"), 7)
        .unwrap();
    assert_eq!(card.phase, "checked");
    assert_eq!(card.ts, 7);
    assert!(lanes
        .fast_only_done("c2", CardKind::Explain, "x", parse("SKIP"), 7)
        .is_none());
}

#[test]
fn note_turn_forks_the_deep_lane_with_the_note_prompt() {
    let lanes = open_lanes("fast-1", "deep-1");
    let turn = lanes.plan_note("You: hi", "Q: a\nA: b").unwrap();
    assert_eq!(turn.prompt, "TRANSCRIPT:\nYou: hi\n\nQ&A LOG:\nQ: a\nA: b");
    assert_eq!(turn.resume.as_deref(), Some("deep-1"));
    assert!(turn.fork);
    assert_eq!(turn.append_system_prompt.as_deref(), Some("note prompt"));
    assert!(!turn.partial);
    let ok = note_result(ClaudeOutcome { session_id: None, text: "raw".to_string(), error: None });
    assert_eq!(ok, Ok("raw".to_string()));
    let err = note_result(ClaudeOutcome {
        session_id: None,
        text: String::new(),
        error: Some("boom".to_string()),
    });
    assert_eq!(err, Err("boom".to_string()));
}

#[test]
fn trunk_and_fork_turns_hold_the_brief_and_answer_ready() {
    let cfg = test_cfg();
    let trunk = LaneState::trunk_turn("Meeting: x", &cfg, "trunk-1");
    assert!(trunk.prompt.ends_with("READY.\n\nMeeting: x"));
    assert_eq!(trunk.session_id.as_deref(), Some("trunk-1"));
    assert!(trunk.resume.is_none());
    let mut lanes = LaneState::new();
    lanes.configure(test_cfg());
    assert!(lanes.fork_turns().is_none());
    let seeded = lanes.trunk_seeded(
        &ClaudeOutcome { session_id: Some("s-9".to_string()), text: "READY".to_string(), error: None },
        "trunk-1",
    );
    assert!(seeded);
    let (fast, deep) = lanes.fork_turns().unwrap();
    assert_eq!(fast.resume.as_deref(), Some("s-9"));
    assert_eq!(deep.model.as_deref(), Some("deep-model"));
    assert!(fast.fork && deep.fork);
    assert_eq!(fast.prompt, "Standing by. Reply with exactly the word READY.");
}

#[test]
fn a_failed_deep_pass_settles_the_fast_draft_as_checked() {
    let mut lanes = open_lanes("fast-1", "deep-1");
    let log = TranscriptLog::new();
    lanes.plan_answer("which proposal?", None, &log).expect("lanes are open");
    let (_, fast) = fast_reply("card-1", "which proposal?", "LEAD: We ship Proposal 3\n- Backend is done");
    lanes.fast_done("card-1", CardKind::Answer, "which proposal?", fast, 1);
    let settled = lanes
        .deep_failed("card-1", CardKind::Answer, "which proposal?", 3)
        .expect("the open card settles");
    assert_eq!(settled.phase, "checked");
    assert_eq!(settled.lead, "We ship Proposal 3");
    assert_eq!(settled.bullets, vec!["Backend is done".to_string()]);
    assert!(lanes.deep_failed("card-1", CardKind::Answer, "which proposal?", 3).is_none());
}

#[test]
fn a_fast_reply_after_a_failed_deep_pass_settles_the_card() {
    let mut lanes = open_lanes("fast-1", "deep-1");
    let log = TranscriptLog::new();
    lanes.plan_answer("which proposal?", None, &log).expect("lanes are open");
    assert!(lanes.deep_failed("card-1", CardKind::Answer, "which proposal?", 2).is_none());
    let (_, fast) = fast_reply("card-1", "which proposal?", "LEAD: We ship Proposal 3\n- Backend is done");
    let settled = lanes
        .fast_done("card-1", CardKind::Answer, "which proposal?", fast, 4)
        .expect("the card settles when its fast reply lands");
    assert_eq!(settled.phase, "checked");
    assert_eq!(settled.lead, "We ship Proposal 3");
    assert_eq!(settled.ts, 4);
}
