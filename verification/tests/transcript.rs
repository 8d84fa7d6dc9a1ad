use assistant::transcript::{AssemblerOut, Speaker, TranscriptLog, TranscriptUpdate};

fn tu(source: &str, text: &str, start_ms: u64, end_ms: u64, is_partial: bool) -> TranscriptUpdate {
    TranscriptUpdate {
        text: text.to_string(),
        source: source.to_string(),
        is_partial,
        audio_start_ms: start_ms,
        audio_end_ms: end_ms,
    }
}

#[test]
fn merges_consecutive_same_speaker_within_gap() {
    let mut log = TranscriptLog::new();
    log.ingest(&tu("system", "Hi", 0, 1000, false));
    let out = log.ingest(&tu("system", "there", 1500, 2000, false));
    assert_eq!(
        out,
        vec![AssemblerOut::Running {
            speaker: Speaker::Them,
            text: "Hi there".to_string()
        }]
    );
}

#[test]
fn gap_closes_same_speaker_utterance() {
    let mut log = TranscriptLog::new();
    log.ingest(&tu("system", "First", 0, 1000, false));
    let out = log.ingest(&tu("system", "Second", 3000, 4000, false));
    assert_eq!(
        out,
        vec![
            AssemblerOut::Utterance {
                speaker: Speaker::Them,
                text: "First".to_string()
            },
            AssemblerOut::Running {
                speaker: Speaker::Them,
                text: "Second".to_string()
            },
        ]
    );
}

#[test]
fn speaker_flip_closes_open_utterance() {
    let mut log = TranscriptLog::new();
    log.ingest(&tu("system", "Hi there", 0, 1000, false));
    let out = log.ingest(&tu("mic", "yes", 1200, 2000, false));
    assert_eq!(
        out,
        vec![
            AssemblerOut::Utterance {
                speaker: Speaker::Them,
                text: "Hi there".to_string()
            },
            AssemblerOut::Running {
                speaker: Speaker::You,
                text: "yes".to_string()
            },
        ]
    );
}

#[test]
fn partials_replaced_not_appended_by_final() {
    let mut log = TranscriptLog::new();
    let r1 = log.ingest(&tu("system", "Hel", 0, 300, true));
    assert_eq!(
        r1,
        vec![AssemblerOut::Running {
            speaker: Speaker::Them,
            text: "Hel".to_string()
        }]
    );
    let r2 = log.ingest(&tu("system", "Hello wor", 0, 600, true));
    assert_eq!(
        r2,
        vec![AssemblerOut::Running {
            speaker: Speaker::Them,
            text: "Hello wor".to_string()
        }]
    );
    let r3 = log.ingest(&tu("system", "Hello world", 0, 1000, false));
    assert_eq!(
        r3,
        vec![AssemblerOut::Running {
            speaker: Speaker::Them,
            text: "Hello world".to_string()
        }]
    );
}

#[test]
fn delta_since_returns_new_labeled_finals() {
    let mut log = TranscriptLog::new();
    log.ingest(&tu("mic", "hello", 0, 1000, false));
    log.ingest(&tu("system", "hi there", 3000, 4000, false));
    let (text, cursor) = log.delta_since(0);
    assert_eq!(text, "You: hello");
    assert_eq!(cursor, 1);

    log.ingest(&tu("mic", "ok", 6000, 6500, false));
    let (text2, cursor2) = log.delta_since(cursor);
    assert_eq!(text2, "Them: hi there");
    assert_eq!(cursor2, 2);
}

#[test]
fn window_filters_by_speaker_and_recency() {
    let mut log = TranscriptLog::new();
    log.ingest(&tu("system", "old them", 0, 1000, false));
    log.ingest(&tu("mic", "you", 1200, 1500, false));
    log.ingest(&tu("system", "recent them", 20000, 21000, false));
    log.ingest(&tu("mic", "closer", 22000, 22500, false));

    let out = log.window(15000, Some(Speaker::Them));
    assert_eq!(out, "Them: recent them");
}

#[test]
fn partial_only_utterance_closes_silently() {
    let mut log = TranscriptLog::new();
    log.ingest(&tu("system", "Hel", 0, 300, true));
    let out = log.ingest(&tu("mic", "ok", 400, 500, false));
    assert_eq!(
        out,
        vec![AssemblerOut::Running {
            speaker: Speaker::You,
            text: "ok".to_string()
        }]
    );
    assert_eq!(log.all(), "");
}

#[test]
fn partial_after_committed_text_previews_both() {
    let mut log = TranscriptLog::new();
    log.ingest(&tu("mic", "Okay.", 0, 500, false));
    let out = log.ingest(&tu("mic", "let's", 600, 900, true));
    assert_eq!(
        out,
        vec![AssemblerOut::Running {
            speaker: Speaker::You,
            text: "Okay. let's".to_string()
        }]
    );
    assert_eq!(log.open_you_preview(), "Okay. let's");
}

#[test]
fn all_and_cursor_past_end() {
    let mut log = TranscriptLog::new();
    log.ingest(&tu("other", "a", 0, 100, false));
    log.ingest(&tu("system", "b", 5000, 5100, false));
    log.ingest(&tu("mic", "c", 9000, 9100, false));
    assert_eq!(log.all(), "Unknown: a\nThem: b");
    assert_eq!(log.delta_since(99), (String::new(), 2));
    assert_eq!(log.window(60000, None), "Unknown: a\nThem: b");
}
