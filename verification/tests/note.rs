use assistant::note::{note_plan, parse_note, title_from_slug, NoteDraft};

#[test]
fn parse_note_extracts_slug_and_body() {
    let raw = "=== SLUG ===\nteam-standup\n=== NOTE ===\n## Summary\n\nThings happened.\n";
    let draft = parse_note(raw).unwrap();
    assert_eq!(draft.slug, "team-standup");
    assert!(draft.markdown.starts_with("## Summary"));
    assert!(draft.markdown.contains("Things happened."));
}

#[test]
fn parse_note_rejects_a_missing_marker() {
    let no_slug = "=== NOTE ===\n## Summary\n\nText.\n";
    assert!(parse_note(no_slug).is_err());

    let no_note = "=== SLUG ===\nteam-standup\n";
    assert!(parse_note(no_note).is_err());
}

#[test]
fn parse_note_reports_each_error() {
    assert_eq!(parse_note("nothing").err().unwrap(), "missing === SLUG === marker");
    assert_eq!(parse_note("=== SLUG === x").err().unwrap(), "missing === NOTE === marker");
    assert_eq!(
        parse_note("=== NOTE === body\n=== SLUG === slug").err().unwrap(),
        "=== NOTE === must come after === SLUG ==="
    );
    assert_eq!(parse_note("=== SLUG ===  \n=== NOTE === body").err().unwrap(), "empty slug");
    assert_eq!(parse_note("=== SLUG === s\n=== NOTE ===\n \n").err().unwrap(), "empty note body");
}

#[test]
fn title_from_slug_capitalises_and_spaces() {
    assert_eq!(title_from_slug("team-standup"), "Team standup");
    assert_eq!(title_from_slug(""), "");
    assert_eq!(title_from_slug("ßig-deal"), "SSig deal");
}

#[test]
fn note_plan_lays_out_the_save() {
    let draft = NoteDraft {
        slug: "team-standup".to_string(),
        markdown: "## Summary\n\nWe shipped Proposal 3.\n".to_string(),
    };
    let plan = note_plan("2026-09-01", &draft, "Q: which proposal?\nA: Proposal 3");
    assert_eq!(plan.note_file, "2026-09-01-team-standup.md");
    assert_eq!(plan.transcript_file, "2026-09-01-team-standup_transcript.md");
    assert!(plan.note_content.starts_with("# Team standup"));
    assert!(plan.note_content.contains("2026-09-01"));
    assert!(plan.note_content.contains("We shipped Proposal 3."));
    assert!(plan.note_content.contains("## Q&A log"));
    assert!(plan.note_content.contains("Q: which proposal?"));
    assert_eq!(plan.commit_message, "Meeting note: team-standup");
}

#[test]
fn a_note_marker_inside_the_slug_marker_is_an_error() {
    assert_eq!(
        parse_note("=== SLUG === NOTE ===").err().unwrap(),
        "=== NOTE === must come after === SLUG ==="
    );
}

#[test]
fn a_well_formed_reply_reads_back() {
    let draft = parse_note("=== SLUG ===\nteam-standup\n=== NOTE ===\n## Summary\n\nWe shipped.\n").unwrap();
    assert_eq!(draft.slug, "team-standup");
    assert_eq!(draft.markdown, "## Summary\n\nWe shipped.");
}
