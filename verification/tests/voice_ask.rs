use assistant::voice_ask::{TimerCmd, VoiceAsk, VoiceState};

#[test]
fn two_settled_and_one_running_join_in_spoken_order() {
    let mut voice = VoiceAsk::new();
    voice.start();
    voice.note_utterance("Hello there,");
    voice.note_utterance("quick question.");
    let step = voice.note_running("What did I");
    assert_eq!(voice.heard(), "Hello there, quick question. What did I");
    assert_eq!(
        step.publish,
        Some(VoiceState::Listening {
            heard: "Hello there, quick question. What did I".to_string()
        })
    );
    assert_eq!(step.silence, TimerCmd::Start(1500));
}

#[test]
fn finish_with_nothing_heard_publishes_off_and_never_submits() {
    let mut voice = VoiceAsk::new();
    voice.start();
    let step = voice.finish();
    assert!(step.submit.is_none());
    assert_eq!(step.publish, Some(VoiceState::Off));
    assert!(!voice.is_capturing());
}

#[test]
fn second_start_during_capture_is_a_no_op() {
    let mut voice = VoiceAsk::new();
    let first = voice.start();
    assert_eq!(first.publish, Some(VoiceState::Listening { heard: String::new() }));
    assert_eq!(first.cap, TimerCmd::Start(45000));
    voice.note_utterance("keep this");
    let step = voice.start();
    assert_eq!(voice.heard(), "keep this", "a second start must not clear what was heard");
    assert!(step.publish.is_none(), "a no-op start must not publish anything");
}

#[test]
fn silence_gap_auto_submits_after_the_quiet_period() {
    let mut voice = VoiceAsk::new();
    voice.start();
    let step = voice.note_utterance("what did I miss");
    assert_eq!(step.silence, TimerCmd::Start(1500));
    let step = voice.silence_elapsed();
    assert_eq!(step.submit, Some("what did I miss".to_string()));
    assert_eq!(
        step.publish,
        Some(VoiceState::Submitting { question: "what did I miss".to_string() })
    );
    assert_eq!(step.linger, TimerCmd::Start(1400));
    assert!(!voice.is_capturing());
    let step = voice.linger_elapsed();
    assert_eq!(step.publish, Some(VoiceState::Off));
}

#[test]
fn running_drafts_replace_and_blank_utterance_clears() {
    let mut voice = VoiceAsk::new();
    voice.start();
    voice.note_running("what");
    voice.note_running("what is");
    assert_eq!(voice.heard(), "what is");
    let step = voice.note_utterance("   ");
    assert!(step.publish.is_none());
    assert_eq!(voice.heard(), "");
    assert!(voice.note_running("  ").publish.is_none());
}

#[test]
fn cancel_discards_and_publishes_off_once() {
    let mut voice = VoiceAsk::new();
    voice.start();
    voice.note_utterance("never mind");
    let step = voice.cancel();
    assert_eq!(step.publish, Some(VoiceState::Off));
    assert!(step.submit.is_none());
    assert!(!voice.is_capturing());
    assert!(voice.cancel().publish.is_none());
    assert!(voice.note_utterance("ignored").publish.is_none());
}
