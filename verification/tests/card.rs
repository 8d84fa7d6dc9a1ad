use assistant::card::{can_decide, changed_bullets, content_words, contradicts, parse};

#[test]
fn parses_well_formed_card() {
    let text = "LEAD: Ship on Tuesday\n- Backend is done\n- QA needs one more day\nSOURCE: standup notes";
    let card = parse(text);
    assert_eq!(card.lead, "Ship on Tuesday");
    assert_eq!(card.bullets, vec!["Backend is done", "QA needs one more day"]);
    assert_eq!(card.source, "standup notes");
    assert!(!card.is_skip);
    assert!(!card.is_empty);
}

#[test]
fn tolerates_missing_source() {
    let text = "LEAD: Ship on Tuesday\n- Backend is done";
    let card = parse(text);
    assert_eq!(card.lead, "Ship on Tuesday");
    assert_eq!(card.source, "");
    assert!(!card.is_skip);
    assert!(!card.is_empty);
}

#[test]
fn skip_sentinel_is_recognized() {
    assert!(parse("SKIP").is_skip);
    assert!(parse("  SKIP  ").is_skip);
    assert!(parse("SKIP.").is_skip);
    assert!(parse("SKIP\nnothing worth showing").is_skip);
    assert!(!parse("SKIPPER: not a match").is_skip);
}

#[test]
fn can_decide_holds_short_prefixes_of_skip() {
    assert!(!can_decide("S"));
    assert!(!can_decide("SKI"));
    assert!(can_decide("SKIP"));
    assert!(parse("SKIP").is_skip);
    assert!(can_decide("LEAD: x"));
}

#[test]
fn contradicts_on_changed_lead_not_reworded_bullet() {
    let fast = parse("LEAD: We ship Proposal 3\n- Backend is done");
    let deep_reworded_bullet =
        parse("LEAD: We ship Proposal 3\n- The backend implementation is complete");
    assert!(!contradicts(&fast, &deep_reworded_bullet));

    let deep_changed_lead = parse("LEAD: We ship Proposal 4 instead\n- Backend is done");
    assert!(contradicts(&fast, &deep_changed_lead));
}

#[test]
fn changed_bullets_reports_new_or_differing_text() {
    let old = parse("LEAD: x\n- Backend is done\n- QA needs one more day");
    let new = parse(
        "LEAD: x\n- Frontend still blocked on API keys\n- QA needs one more day\n- Docs updated",
    );
    let changed = changed_bullets(&old, &new);
    assert_eq!(
        changed,
        vec![
            "Frontend still blocked on API keys".to_string(),
            "Docs updated".to_string(),
        ]
    );
}

#[test]
fn lowercase_prefixes_and_bare_dash_are_read() {
    let card = parse("lead: Ship it\n-\n  -   spaced bullet\t\nsource:  wiki");
    assert_eq!(card.lead, "Ship it");
    assert_eq!(card.bullets, vec!["", "spaced bullet"]);
    assert_eq!(card.source, "wiki");
}

#[test]
fn bullets_past_three_are_dropped() {
    let card = parse("LEAD: x\n- a\n- b\n- c\n- d");
    assert_eq!(card.bullets, vec!["a", "b", "c"]);
}

#[test]
fn wrapped_line_continues_last_bullet() {
    let card = parse("LEAD: x\n- first part\nsecond part");
    assert_eq!(card.bullets, vec!["first part second part"]);
}

#[test]
fn line_without_prefix_becomes_lead() {
    let card = parse("\n\nJust an answer\n- support");
    assert_eq!(card.lead, "Just an answer");
    assert_eq!(card.bullets, vec!["support"]);
}

#[test]
fn empty_and_blank_texts_parse_empty() {
    let card = parse("   \n\t\n");
    assert!(card.is_empty);
    assert!(!card.is_skip);
    assert!(!can_decide("   "));
}

#[test]
fn can_decide_is_case_insensitive_on_skip_prefixes() {
    assert!(!can_decide("sk"));
    assert!(can_decide("SX"));
    assert!(can_decide("No"));
}

#[test]
fn a_card_never_contradicts_itself() {
    let c = parse("LEAD: We ship Proposal 3 on Tuesday");
    assert!(!contradicts(&c, &c));
    assert!(changed_bullets(&parse("LEAD: x\n- a\n- b"), &parse("LEAD: x\n- a\n- b")).is_empty());
}

#[test]
fn number_subsets_agree_disjoint_numbers_do_not() {
    let fast = parse("LEAD: Proposals 3 and 4 hold");
    let deep = parse("LEAD: Proposal 3 holds");
    assert!(!contradicts(&fast, &deep));
    let other = parse("LEAD: Proposal 5 holds");
    assert!(contradicts(&deep, &other));
}

#[test]
fn content_words_stem_and_drop_stopwords() {
    let mut words = content_words("Proposals would really HOLD across classes");
    words.sort();
    assert_eq!(words, vec!["across", "classe", "hold", "proposal"]);
}

#[test]
fn a_fuller_answer_with_the_same_substance_agrees() {
    let short = parse("LEAD: Proposal 3 ships Tuesday");
    let full = parse("LEAD: Proposal 3 ships Tuesday after the backend review");
    assert!(!contradicts(&short, &full));
    assert!(!contradicts(&full, &short));
}

#[test]
fn a_long_decided_stream_stays_decided() {
    assert!(can_decide("  LEAD"));
    assert!(can_decide("  LEAD   "));
    assert!(can_decide("  LEAD: x"));
}
