use assistant::card::parse;
use assistant::claude_cli::ClaudeOutcome;
use assistant::lanes::{CardKind, LaneConfig};
use assistant::session::{
    deep_read_dirs_from, mode_label, parse_mode, session_seed, split_names,
    strip_voice_baseline, vault_root_from, AssistantCore, NoteState, DIRECT_ASK_NOTE,
};
use assistant::settings::{AssistantSettings, ClaudeProbe};
use assistant::transcript::TranscriptUpdate;
use assistant::trigger::{GapCommand, TriggerMode};
use assistant::voice_ask::VoiceState;

fn settings() -> AssistantSettings {
    AssistantSettings {
        enabled: true,
        claude_path: String::new(),
        fast_model: "fast".to_string(),
        fast_effort: "low".to_string(),
        deep_model: "deep".to_string(),
        deep_effort: "medium".to_string(),
        trigger_mode: "gated".to_string(),
        quiet_gap_ms: 2000,
        names: "joseph,joe".to_string(),
        vault_root: "/vault".to_string(),
        deep_read_dirs: "/notes".to_string(),
    }
}

fn tu(source: &str, text: &str, start_ms: u64, end_ms: u64) -> TranscriptUpdate {
    TranscriptUpdate {
        text: text.to_string(),
        source: source.to_string(),
        is_partial: false,
        audio_start_ms: start_ms,
        audio_end_ms: end_ms,
    }
}

fn cfg() -> LaneConfig {
    LaneConfig {
        cwd: "/tmp".to_string(),
        fast_model: "fast".to_string(),
        fast_effort: "low".to_string(),
        deep_model: "deep".to_string(),
        deep_effort: "medium".to_string(),
        deep_read_dirs: Vec::new(),
        note_prompt: "note".to_string(),
        fast_prompt: "fast prompt".to_string(),
        deep_prompt: "deep prompt".to_string(),
    }
}

/// A session opened with both lanes forked.
fn open_core() -> AssistantCore {
    let mut core = AssistantCore::new(settings());
    let start = core.begin_open_session(settings(), None);
    assert!(start.proceed);
    core.open_lanes(cfg(), "seed", "trunk");
    let forks = core.trunk_seeded(
        &ClaudeOutcome { session_id: None, text: "READY".to_string(), error: None },
        "trunk",
    );
    assert!(forks.is_some());
    core.lanes_opened(Some("fast-1".to_string()), Some("deep-1".to_string()));
    core
}

#[test]
fn set_mode_round_trips_through_get_state() {
    let mut core = AssistantCore::new(settings());
    core.set_mode("continuous").unwrap();
    assert_eq!(core.status().mode, "continuous");
}

#[test]
fn set_mode_rejects_an_unknown_mode() {
    let mut core = AssistantCore::new(settings());
    assert_eq!(
        core.set_mode("sleepwalking").unwrap_err(),
        "unknown assistant mode: sleepwalking"
    );
    assert_eq!(core.status().mode, "gated");
}

#[test]
fn disabled_ignores_transcript_events() {
    let mut core = AssistantCore::new(settings());
    core.enabled = false;
    core.session_open = true;
    assert!(core.on_transcript_update(&tu("mic", "hello", 0, 1000)).is_empty());
    assert!(core.on_transcript_update(&tu("system", "hi there", 3000, 4000)).is_empty());
    let (text, cursor) = core.transcript.delta_since(0);
    assert_eq!(text, "");
    assert_eq!(cursor, 0);
    assert!(!core.transcript_ingest_ok);
}

#[test]
fn voice_ask_excludes_speech_from_before_the_hotkey() {
    let mut core = AssistantCore::new(settings());
    core.enabled = true;
    core.session_open = true;
    core.on_transcript_update(&tu("mic", "Okay.", 0, 500));
    core.voice_start();
    let steps = core.on_transcript_update(&tu("mic", "let's talk about the roadmap", 600, 2000));
    let heard = steps
        .iter()
        .filter_map(|s| s.voice.as_ref())
        .filter_map(|v| v.publish.clone())
        .last();
    match heard {
        Some(VoiceState::Listening { heard }) => assert_eq!(heard, "let's talk about the roadmap"),
        other => panic!("expected Listening, got {:?}", other),
    }
}

#[test]
fn ask_explain_and_catchup_set_last_error_when_session_closed() {
    let mut core = AssistantCore::new(settings());
    assert!(core.ask_directly("hello?").is_none());
    assert_eq!(core.status().last_error.as_deref(), Some("Assistant session is not open yet."));
    core.last_error = None;
    assert!(core.explain().is_none());
    assert_eq!(core.status().last_error.as_deref(), Some("Assistant session is not open yet."));
    core.last_error = None;
    assert!(core.catchup().is_none());
    assert_eq!(core.status().last_error.as_deref(), Some("Assistant session is not open yet."));
}

#[test]
fn set_enabled_true_does_not_open_a_session_without_a_recording() {
    let mut core = AssistantCore::new(settings());
    let step = core.set_enabled(true);
    assert!(!core.status().session_open);
    assert!(step.open_if_recording, "the caller opens only if a recording is running");
    assert!(!step.close_lanes);
}

#[test]
fn explain_and_catchup_set_last_error_when_session_open_but_disabled() {
    let mut core = AssistantCore::new(settings());
    core.session_open = true;
    core.enabled = false;
    assert!(core.explain().is_none());
    assert_eq!(core.status().last_error.as_deref(), Some("Assistant is turned off."));
    core.last_error = None;
    assert!(core.catchup().is_none());
    assert_eq!(core.status().last_error.as_deref(), Some("Assistant is turned off."));
    assert!(!core.lanes_ready);
}

#[test]
fn set_enabled_false_closes_the_session_too() {
    let mut core = AssistantCore::new(settings());
    core.session_open = true;
    core.enabled = true;
    let step = core.set_enabled(false);
    assert!(!core.status().session_open);
    assert!(step.close_lanes);
}

#[test]
fn lane_open_failure_sets_last_error_and_lanes_ready_false() {
    let mut core = AssistantCore::new(settings());
    core.open_lanes(cfg(), "seed", "trunk");
    let forks = core.trunk_seeded(
        &ClaudeOutcome { session_id: None, text: String::new(), error: Some("boom".to_string()) },
        "trunk",
    );
    assert!(forks.is_none());
    core.lanes_opened(None, None);
    assert!(!core.lanes_ready);
    assert!(core.session_open);
    assert_eq!(core.last_error.as_deref(), Some("assistant lanes failed to open"));
}

#[test]
fn opened_session_answers_and_logs_settled_cards() {
    let mut core = open_core();
    assert!(core.status().lanes_ready);
    assert!(core.status().last_error.is_none());
    let plan = core.ask_directly("what ships?").expect("the session is open");
    assert!(plan.fast.prompt.ends_with(DIRECT_ASK_NOTE));
    assert!(core.settle_fast_answer("c1", CardKind::Ask, "what ships?", parse("LEAD: Proposal 3 ships"), 4).is_none());
    let card = core
        .settle_answer("c1", CardKind::Ask, "what ships?", parse("LEAD: Proposal 3 ships"), 5)
        .unwrap();
    assert_eq!(card.phase, "checked");
    assert_eq!(core.qa_log, vec!["Q: what ships?\nA: Proposal 3 ships".to_string()]);
    let explained = core.settle_fast_only("c2", CardKind::Explain, "Explain", parse("LEAD: x"), 6);
    assert!(explained.is_some());
    assert_eq!(core.qa_log.len(), 1, "an explain card is not logged");
}

#[test]
fn mode_cycles_manual_gated_continuous() {
    let mut core = AssistantCore::new(settings());
    assert_eq!(core.mode, TriggerMode::Gated);
    core.cycle_mode();
    assert_eq!(core.mode, TriggerMode::Continuous);
    let gap = core.cycle_mode();
    assert_eq!(core.mode, TriggerMode::Manual);
    assert_eq!(gap, GapCommand::Cancel, "manual mode drops a waiting question");
    core.cycle_mode();
    assert_eq!(core.mode, TriggerMode::Gated);
    assert_eq!(mode_label(TriggerMode::Continuous), "continuous");
    assert_eq!(parse_mode("manual"), Ok(TriggerMode::Manual));
}

#[test]
fn brief_is_kept_until_the_next_session_takes_it() {
    let mut core = AssistantCore::new(settings());
    core.set_brief("   ".to_string());
    assert!(core.pending_brief.is_none());
    core.set_brief("Budget review".to_string());
    let start = core.begin_open_session(settings(), None);
    assert_eq!(start.brief.as_deref(), Some("Budget review"));
    assert!(core.pending_brief.is_none());
    assert_eq!(
        session_seed(Some("Standup"), "2026-09-01", start.brief.as_deref()),
        "Meeting: Standup\nDate: 2026-09-01\n\nBrief:\nBudget review"
    );
    assert_eq!(
        session_seed(None, "2026-09-01", Some("  ")),
        "Meeting: Untitled meeting\nDate: 2026-09-01"
    );
}

#[test]
fn disabled_settings_do_not_open_the_session() {
    let mut core = AssistantCore::new(settings());
    core.set_brief("keep me".to_string());
    let mut off = settings();
    off.enabled = false;
    let start = core.begin_open_session(off.clone(), None);
    assert!(!start.proceed);
    assert!(!core.enabled);
    assert_eq!(core.pending_brief.as_deref(), Some("keep me"));
    let forced = core.begin_open_session(off, Some(true));
    assert!(forced.proceed);
    assert!(core.enabled);
}

#[test]
fn probe_failure_reports_its_error() {
    let mut core = AssistantCore::new(settings());
    let probe = ClaudeProbe::from_output("mycli", false, "", "  not logged in \n");
    assert_eq!(probe.error.as_deref(), Some("not logged in"));
    assert!(!core.probe_done(&probe, true, "mycli"));
    assert_eq!(core.last_error.as_deref(), Some("not logged in"));
    let ok = ClaudeProbe::from_output("mycli", true, " 2.1.0 \n", "");
    assert_eq!(ok.version, "2.1.0");
    assert!(!core.probe_done(&ok, false, "mycli"));
    assert_eq!(core.last_error.as_deref(), Some("mycli binary not found"));
    assert!(core.claude_ok);
    assert!(core.probe_done(&ok, true, "mycli"));
    let silent = ClaudeProbe::from_output("mycli", false, "", "   ");
    assert_eq!(silent.error.as_deref(), Some("mycli --version failed"));
    core.session_dir_failed("denied");
    assert_eq!(
        core.last_error.as_deref(),
        Some("could not create the assistant session dir: denied")
    );
}

#[test]
fn note_drafting_is_refused_while_recording_then_parses_and_saves() {
    let mut core = open_core();
    assert_eq!(
        core.begin_draft_note().unwrap_err(),
        "stop the recording before drafting a note"
    );
    assert!(core.close_session());
    assert!(!core.close_session(), "a second stop has nothing to close");
    let turn = core.begin_draft_note().unwrap().unwrap();
    assert_eq!(core.note_state, NoteState::Drafting);
    assert!(turn.fork);
    core.finish_draft_note(Ok("=== SLUG ===\nteam-standup\n=== NOTE ===\n## Summary\n".to_string()));
    assert_eq!(core.note_state, NoteState::Ready);
    assert_eq!(core.note_markdown, "## Summary");
    let save = core.begin_save_note("2026-09-01").unwrap();
    assert_eq!(save.vault_root, "/vault");
    assert_eq!(save.meetings_dir, "/vault/_sources/meetings");
    assert_eq!(save.note_path, "/vault/_sources/meetings/2026-09-01-team-standup.md");
    assert_eq!(
        save.transcript_path,
        "/vault/_sources/meetings/2026-09-01-team-standup_transcript.md"
    );
    assert_eq!(save.commit_message, "Meeting note: team-standup");
    core.finish_save_note(Err("git commit failed: nothing".to_string()));
    assert_eq!(core.note_state, NoteState::Failed);
    core.finish_save_note(Ok(()));
    assert_eq!(core.note_state, NoteState::Saved);
    assert_eq!(NoteState::Saved.label(), "saved");
    core.discard_note();
    assert_eq!(core.note_state, NoteState::Idle);
    assert!(core.begin_save_note("2026-09-01").is_none());
    assert_eq!(core.note_error.as_deref(), Some("no note draft to save"));
    core.finish_draft_note(Ok("no markers".to_string()));
    assert_eq!(core.note_error.as_deref(), Some("missing === SLUG === marker"));
}

#[test]
fn names_and_paths_split_and_resolve() {
    assert_eq!(split_names(" joseph, ,joe ,"), vec!["joseph", "joe"]);
    assert!(split_names("").is_empty());
    assert_eq!(vault_root_from("  ", Some("/home/j".to_string())), "/home/j/brain/wiki");
    assert_eq!(vault_root_from("", None), "/brain/wiki");
    assert_eq!(vault_root_from(" /v ", None), "/v");
    assert_eq!(deep_read_dirs_from("", Some("/home/j/".to_string())), vec!["/home/j/brain"]);
    assert_eq!(deep_read_dirs_from(" /a , /b ", None), vec!["/a", "/b"]);
}

#[test]
fn voice_baseline_comes_off_the_front_only() {
    assert_eq!(strip_voice_baseline("Okay.", "Okay. let's go"), "let's go");
    assert_eq!(strip_voice_baseline("", "Okay. let's go"), "Okay. let's go");
    assert_eq!(strip_voice_baseline("Nope", "Okay. let's go"), "Okay. let's go");
}

#[test]
fn save_note_dry_run_writes_nothing_and_returns_would_be_paths() {
    let mut s = settings();
    s.vault_root = "/nonexistent-vault-root".to_string();
    let mut core = AssistantCore::new(s);
    core.note_draft = Some(assistant::note::NoteDraft {
        slug: "team-standup".to_string(),
        markdown: "## Summary\n\nWe shipped Proposal 3.\n".to_string(),
    });
    core.session_transcript = "transcript".to_string();
    core.qa_log = vec!["qa log".to_string()];
    let save = core.begin_save_note("2026-09-01").unwrap();
    let paths = [save.note_path.clone(), save.transcript_path.clone()];
    for p in &paths {
        assert!(!std::path::Path::new(p).exists(), "laying out a save must not write {}", p);
    }
    assert!(paths[0].ends_with("_sources/meetings/2026-09-01-team-standup.md"));
    assert!(save.note_content.ends_with("## Q&A log\n\nqa log\n"));
    assert_eq!(save.transcript, "transcript");
    assert_eq!(core.note_state, NoteState::Idle, "laying out a save changes nothing");
}

#[test]
fn the_other_side_never_reaches_voice_ask() {
    let mut core = AssistantCore::new(settings());
    core.enabled = true;
    core.session_open = true;
    core.voice_start();
    let steps = core.on_transcript_update(&tu("system", "what about the budget", 0, 1000));
    assert!(steps.iter().all(|s| s.voice.is_none()));
    assert_eq!(core.voice.heard(), "");
    let steps = core.on_transcript_update(&tu("mic", "and the roadmap", 3000, 4000));
    assert!(steps.iter().any(|s| s.voice.is_some()));
    assert_eq!(core.voice.heard(), "and the roadmap");
}

#[test]
fn a_failed_lane_turn_reaches_last_error_and_settles_the_card() {
    let mut core = open_core();
    core.ask_directly("what ships?").unwrap();
    assert!(core.settle_fast_answer("c1", CardKind::Ask, "what ships?", parse("LEAD: Proposal 3 ships"), 4).is_none());
    let card = core
        .settle_failed_answer("c1", CardKind::Ask, "what ships?", "boom", 9)
        .expect("the fast draft settles");
    assert_eq!(card.phase, "checked");
    assert_eq!(card.lead, "Proposal 3 ships");
    assert_eq!(core.status().last_error.as_deref(), Some("boom"));
    assert_eq!(core.qa_log, vec!["Q: what ships?\nA: Proposal 3 ships".to_string()]);
    core.turn_failed("fast lane down");
    assert_eq!(core.last_error.as_deref(), Some("fast lane down"));
}
