use assistant::transcript::Speaker;
use assistant::trigger::{Fire, GapCommand, TriggerEngine, TriggerMode, TriggerReason};

fn engine(mode: TriggerMode, gap_ms: u64, names: &[&str]) -> TriggerEngine {
    let mut e = TriggerEngine::new();
    e.update(mode, gap_ms, true, names.iter().map(|s| s.to_string()).collect());
    e
}

fn fired(f: &Option<Fire>) -> Option<(String, TriggerReason)> {
    f.as_ref().map(|f| (f.text.clone(), f.reason))
}

#[test]
fn noise_marks_never_fire() {
    let mut engine = engine(TriggerMode::Continuous, 2000, &["joseph"]);
    for noise in ["?", ".", "3.", "Q."] {
        let step = engine.consume_utterance(Speaker::Them, noise);
        assert!(step.fire.is_none());
    }
}

#[test]
fn short_question_all_stopwords_fires() {
    let mut engine = engine(TriggerMode::Continuous, 2000, &["joseph"]);
    let step =
        engine.consume_utterance(Speaker::Them, "So what does that do to the Q4 migration plan?");
    let f = fired(&step.fire).expect("should fire");
    assert_eq!(f.1, TriggerReason::Question);
}

#[test]
fn revised_drafts_of_one_question_fire_once() {
    let mut engine = engine(TriggerMode::Continuous, 2000, &["joseph"]);
    let mut fires = 0;
    for text in [
        "does that actually holds up order proposal which is Q",
        "does that actually holds up by Q3 when",
        "does that actually holds up",
    ] {
        if engine.consume_utterance(Speaker::Them, text).fire.is_some() {
            fires += 1;
        }
    }
    assert_eq!(fires, 1);
}

#[test]
fn name_fires_even_without_question_shape() {
    let mut engine = engine(TriggerMode::Continuous, 2000, &["joseph", "joe"]);
    let step = engine.consume_utterance(Speaker::Them, "Joseph, walk us through the rollout");
    let f = fired(&step.fire).expect("should fire");
    assert_eq!(f.1, TriggerReason::NameCalled);
}

#[test]
fn you_channel_never_triggers() {
    let mut engine = engine(TriggerMode::Continuous, 2000, &["joseph"]);
    let step = engine.consume_utterance(Speaker::You, "What does that do to the migration plan?");
    assert!(step.fire.is_none());
}

#[test]
fn manual_mode_never_volunteers() {
    let mut engine = engine(TriggerMode::Manual, 2000, &["joseph"]);
    let step =
        engine.consume_utterance(Speaker::Them, "Joseph, what does that do to the migration plan?");
    assert!(step.fire.is_none());
}

#[test]
fn name_arms_and_fires_early_on_complete_question_mid_utterance() {
    let mut engine = engine(TriggerMode::Continuous, 2000, &["joseph"]);
    let step = engine.consume_running(Speaker::Them, "Joseph, what does the rollout look like?");
    let f = fired(&step.fire).expect("should fire");
    assert_eq!(f.1, TriggerReason::NameCalled);
}

#[test]
fn name_arms_but_does_not_fire_on_incomplete_running_text() {
    let mut engine = engine(TriggerMode::Continuous, 2000, &["joseph"]);
    let step = engine.consume_running(Speaker::Them, "Joseph, if order volume");
    assert!(step.fire.is_none());
}

#[test]
fn gated_question_fires_after_quiet_gap() {
    let mut engine = engine(TriggerMode::Gated, 50, &["joseph"]);
    let step = engine.consume_utterance(Speaker::Them, "What does that do to the migration plan?");
    assert!(step.fire.is_none(), "should not fire before the gap elapses");
    assert_eq!(step.gap, GapCommand::Schedule(50));
    let f = fired(&engine.gap_elapsed()).expect("the gap fires the question");
    assert_eq!(f.0, "What does that do to the migration plan?");
    assert_eq!(f.1, TriggerReason::Question);
    assert!(engine.gap_elapsed().is_none());
}

#[test]
fn speech_restarts_a_waiting_gap_and_manual_cancels_it() {
    let mut engine = engine(TriggerMode::Gated, 2000, &["joseph"]);
    engine.consume_utterance(Speaker::Them, "How do we handle the migration plan?");
    assert!(engine.has_pending());
    let step = engine.consume_running(Speaker::Them, "well");
    assert_eq!(step.gap, GapCommand::Schedule(2000));
    let g = engine.update(TriggerMode::Manual, 2000, true, vec!["joseph".to_string()]);
    assert_eq!(g, GapCommand::Cancel);
    assert!(!engine.has_pending());
    assert!(engine.gap_elapsed().is_none());
}

#[test]
fn name_armed_mid_utterance_fires_when_utterance_closes() {
    let mut engine = engine(TriggerMode::Gated, 2000, &["joseph"]);
    let step = engine.consume_running(Speaker::Them, "Joseph, the rollout");
    assert!(step.fire.is_none());
    let step = engine.consume_utterance(Speaker::Them, "the rollout timeline for the launch");
    let f = fired(&step.fire).expect("armed name fires at the boundary");
    assert_eq!(f.1, TriggerReason::NameCalled);
}

#[test]
fn lead_in_and_ask_phrase_shapes_count_as_questions() {
    let mut engine = engine(TriggerMode::Continuous, 2000, &[]);
    let step = engine.consume_utterance(Speaker::Them, "Okay so which proposal wins today");
    assert!(step.fire.is_some());
    let step = engine.consume_utterance(Speaker::Them, "Give me your thoughts on pricing tiers");
    assert!(step.fire.is_some());
    let step = engine.consume_utterance(Speaker::Them, "The deploy went fine yesterday afternoon");
    assert!(step.fire.is_none());
}

#[test]
fn reset_forgets_remembered_fires() {
    let mut engine = engine(TriggerMode::Continuous, 2000, &[]);
    assert!(engine.consume_utterance(Speaker::Them, "What about the migration plan?").fire.is_some());
    assert!(engine.consume_utterance(Speaker::Them, "What about the migration plan?").fire.is_none());
    assert_eq!(engine.reset(), GapCommand::Cancel);
    assert!(engine.consume_utterance(Speaker::Them, "What about the migration plan?").fire.is_some());
}
