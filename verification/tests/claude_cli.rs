use assistant::claude_cli::event_from_fields;
use assistant::claude_cli::{ExitStatus, TurnFold};
use assistant::claude_cli::{last_chars, parse_line, tail_chars, ClaudeEvent, ClaudeTurn, NO_TOOLS};

#[test]
fn argv_matches_v1_shape() {
    let t = ClaudeTurn {
        prompt: "hi".into(),
        safe_mode: true,
        partial: true,
        resume: Some("abc".into()),
        fork: true,
        model: Some("sonnet-5".into()),
        effort: Some("low".into()),
        ..Default::default()
    };
    let a = t.argv();
    assert_eq!(
        &a[..5],
        &["-p", "hi", "--output-format", "stream-json", "--verbose"]
    );
    assert!(a.windows(2).any(|w| w == ["--resume", "abc"]));
    assert!(a.contains(&"--fork-session".to_string()));
}

#[test]
fn argv_orders_flags_like_v1() {
    let t = ClaudeTurn {
        prompt: "hi".into(),
        safe_mode: true,
        add_dirs: vec!["/tmp/a".to_string()],
        resume: Some("r1".into()),
        fork: true,
        session_id: Some("s1".into()),
        model: Some("m".into()),
        effort: Some("e".into()),
        partial: true,
        append_system_prompt: Some("sp".into()),
        allowed_tools: vec!["Read".into(), "Grep".into()],
        disallowed_tools: vec!["Bash".into()],
        ..Default::default()
    };
    let a = t.argv();
    let expected = vec![
        "-p",
        "hi",
        "--output-format",
        "stream-json",
        "--verbose",
        "--safe-mode",
        "--add-dir",
        "/tmp/a",
        "--resume",
        "r1",
        "--fork-session",
        "--session-id",
        "s1",
        "--model",
        "m",
        "--effort",
        "e",
        "--include-partial-messages",
        "--append-system-prompt",
        "sp",
        "--allowedTools",
        "Read Grep",
        "--disallowedTools",
        "Bash",
    ];
    assert_eq!(a, expected);
}

#[test]
fn argv_of_a_bare_turn_is_the_fixed_head() {
    let t = ClaudeTurn { prompt: "q".into(), ..Default::default() };
    assert_eq!(t.argv(), vec!["-p", "q", "--output-format", "stream-json", "--verbose"]);
    let many = ClaudeTurn {
        prompt: "q".into(),
        disallowed_tools: NO_TOOLS.iter().map(|s| s.to_string()).collect(),
        ..Default::default()
    };
    let a = many.argv();
    assert_eq!(a[5], "--disallowedTools");
    assert_eq!(
        a[6],
        "Bash Edit Write NotebookEdit WebFetch WebSearch Task Read Grep Glob TodoWrite"
    );
}

#[test]
fn parses_stream_events() {
    let init = r#"{"type":"system","subtype":"init","session_id":"s1"}"#;
    let delta = r#"{"type":"stream_event","event":{"type":"content_block_delta","delta":{"type":"text_delta","text":"Hel"}}}"#;
    let result = r#"{"type":"result","result":"Hello","is_error":false}"#;
    assert!(matches!(parse_line(init, "mycli"), Some(ClaudeEvent::SessionId(s)) if s == "s1"));
    assert!(matches!(parse_line(delta, "mycli"), Some(ClaudeEvent::TextDelta(t)) if t == "Hel"));
    assert!(matches!(parse_line(result, "mycli"), Some(ClaudeEvent::Final(t)) if t == "Hello"));
}

#[test]
fn parses_error_result() {
    let err = r#"{"type":"result","result":"boom","is_error":true}"#;
    assert!(matches!(parse_line(err, "mycli"), Some(ClaudeEvent::Failed(t)) if t == "boom"));
}

#[test]
fn ignores_unknown_and_blank_lines() {
    assert_eq!(parse_line("", "mycli"), None);
    assert_eq!(parse_line("   ", "mycli"), None);
    assert_eq!(parse_line(r#"{"type":"assistant"}"#, "mycli"), None);
    assert_eq!(parse_line("not json", "mycli"), None);
}

#[test]
fn error_result_without_text_gets_a_message() {
    let err = r#"  {"type":"result","is_error":true}  "#;
    assert_eq!(
        parse_line(err, "mycli"),
        Some(ClaudeEvent::Failed("mycli reported an error".to_string()))
    );
    assert_eq!(parse_line(r#"{"type":"result","is_error":false}"#, "mycli"), None);
}

#[test]
fn other_system_and_stream_lines_are_ignored() {
    assert_eq!(parse_line(r#"{"type":"system","subtype":"other","session_id":"s"}"#, "mycli"), None);
    assert_eq!(
        parse_line(r#"{"type":"stream_event","event":{"type":"message_start"}}"#, "mycli"),
        None
    );
    assert_eq!(
        parse_line(
            r#"{"type":"stream_event","event":{"type":"content_block_delta","delta":{"type":"input_json_delta","partial_json":"x"}}}"#,
            "mycli",
        ),
        None
    );
}

#[test]
fn tail_keeps_the_last_characters() {
    let mut s = "abcdef".to_string();
    tail_chars(&mut s, 4);
    assert_eq!(s, "cdef");
    tail_chars(&mut s, 10);
    assert_eq!(s, "cdef");
    assert_eq!(last_chars("héllo", 3), "llo");
    assert_eq!(last_chars("hi", 3), "hi");
}

#[test]
fn a_turn_folds_its_stream_into_one_outcome() {
    let mut fold = TurnFold::new("mycli");
    assert!(fold
        .read_line(r#"{"type":"system","subtype":"init","session_id":"s1"}"#)
        .is_none());
    let delta = fold.read_line(
        r#"{"type":"stream_event","event":{"type":"content_block_delta","delta":{"type":"text_delta","text":"Hel"}}}"#,
    );
    assert_eq!(delta.as_deref(), Some("Hel"));
    assert!(fold.read_line("not json").is_none());
    let streamed_only = fold.finish(Some(ExitStatus { success: true, code: Some(0) }), "");
    assert_eq!(streamed_only.session_id.as_deref(), Some("s1"));
    assert_eq!(streamed_only.text, "Hel", "with no final text, the streamed text stands");
    assert!(streamed_only.error.is_none());

    let mut failed = TurnFold::new("mycli");
    failed.read_line(r#"{"type":"result","result":"Hello","is_error":false}"#);
    let out = failed.finish(Some(ExitStatus { success: false, code: Some(2) }), "boom\n");
    assert_eq!(out.text, "Hello");
    assert_eq!(out.error.as_deref(), Some("mycli exited 2: boom\n"));
    let killed = TurnFold::new("mycli").finish(Some(ExitStatus { success: false, code: None }), "");
    assert_eq!(killed.error.as_deref(), Some("mycli exited -1: "));
}

#[test]
fn fields_decide_what_a_line_means() {
    let fields = |ty: &str, result: Option<&str>, is_error: Option<bool>| assistant::claude_cli::JsonFields {
        ty: Some(ty.to_string()),
        subtype: None,
        session_id: None,
        result: result.map(|s| s.to_string()),
        is_error,
        event_type: None,
        delta_type: None,
        delta_text: None,
    };
    assert_eq!(
        event_from_fields(fields("result", Some("boom"), Some(true)), "mycli"),
        Some(ClaudeEvent::Failed("boom".to_string()))
    );
    assert_eq!(
        event_from_fields(fields("result", None, Some(true)), "mycli"),
        Some(ClaudeEvent::Failed("mycli reported an error".to_string()))
    );
    assert_eq!(
        event_from_fields(fields("result", Some("Hello"), None), "mycli"),
        Some(ClaudeEvent::Final("Hello".to_string()))
    );
    assert_eq!(event_from_fields(fields("system", None, None), "mycli"), None);
}
