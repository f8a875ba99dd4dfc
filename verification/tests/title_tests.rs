use ryu_core::titles::{
    build_transcript, derive_title, feature_enabled, has_assistant_reply, override_model,
    parse_suggestions, sanitize_title, suggestion_prompt, title_input,
};
use ryu_core::conversations::StoredMessage;

fn msg(role: &str, content: &str) -> StoredMessage {
    StoredMessage {
        id: format!("{role}-{content}"),
        role: role.to_string(),
        content: content.to_string(),
        agent_id: None,
        author_user_id: None,
        author_name: None,
        parts: None,
        parent_message_id: None,
        sibling_index: 0,
        sibling_count: 1,
        sibling_ids: vec![],
        created_at: 0,
    }
}

#[test]
fn strips_quotes_label_and_punctuation() {
    assert_eq!(sanitize_title("\"Centering a div\""), "Centering a div");
    assert_eq!(sanitize_title("Title: CSS layout help."), "CSS layout help");
    assert_eq!(sanitize_title("**Deploying to Vercel**"), "Deploying to Vercel");
}

#[test]
fn strips_think_preamble_and_keeps_first_line() {
    let raw = "<think>the user wants help</think>\nFixing the build error\nextra";
    assert_eq!(sanitize_title(raw), "Fixing the build error");
}

#[test]
fn unclosed_think_bails_to_empty() {
    assert_eq!(sanitize_title("<think>\nOkay, the user wants to center a div. The best"), "");
    assert_eq!(sanitize_title("<think>"), "");
}

#[test]
fn strips_inline_think_block_then_titles() {
    let raw = "<think>reasoning here</think> Centering a div";
    assert_eq!(sanitize_title(raw), "Centering a div");
}

#[test]
fn collapses_whitespace_and_caps_length() {
    assert_eq!(sanitize_title("  hello    world  "), "hello world");
    let long = "word ".repeat(40);
    assert!(sanitize_title(&long).chars().count() <= 70);
}

#[test]
fn auto_title_empty_in_empty_out() {
    assert_eq!(sanitize_title(""), "");
    assert_eq!(sanitize_title("   \n  "), "");
}

#[test]
fn strips_numbering_and_quotes() {
    let raw = "1. \"Add tests for this\"\n2. Explain the tradeoffs\n3. - Refactor the parser";
    assert_eq!(
        parse_suggestions(raw),
        vec!["Add tests for this", "Explain the tradeoffs", "Refactor the parser"]
    );
}

#[test]
fn caps_at_three_and_dedupes() {
    let raw = "Add tests\nAdd tests\nShip it\nDeploy\nExtra";
    assert_eq!(parse_suggestions(raw), vec!["Add tests", "Ship it", "Deploy"]);
}

#[test]
fn drops_overlong_lines() {
    let long = "word ".repeat(30);
    let raw = format!("Short one\n{long}\nAnother short");
    assert_eq!(parse_suggestions(&raw), vec!["Short one", "Another short"]);
}

#[test]
fn strips_think_preamble() {
    let raw = "<think>the user wants next steps</think>\nAdd error handling\nWrite docs";
    assert_eq!(parse_suggestions(raw), vec!["Add error handling", "Write docs"]);
}

#[test]
fn unclosed_think_bails_empty() {
    assert!(parse_suggestions("<think>\nreasoning cut off").is_empty());
}

#[test]
fn chat_suggestions_empty_in_empty_out() {
    assert!(parse_suggestions("").is_empty());
    assert!(parse_suggestions("   \n  ").is_empty());
}

#[test]
fn title_truncates_long_first_line() {
    let long = "a".repeat(100);
    let title = derive_title(&long);
    assert!(title.chars().count() <= 61);
    assert!(title.ends_with('…'));
}

#[test]
fn derived_title_is_the_first_line_or_new_chat() {
    assert_eq!(derive_title("Hello there\nsecond line"), "Hello there");
    assert_eq!(derive_title("   "), "New Chat");
    assert_eq!(derive_title("a".repeat(60).as_str()), "a".repeat(60));
    assert_eq!(derive_title("a".repeat(61).as_str()), format!("{}…", "a".repeat(60)));
}

#[test]
fn suggestions_are_short_distinct_and_at_most_three() {
    let raw = "- one\n* two\n3) three\n4. four";
    let got = parse_suggestions(raw);
    assert_eq!(got, vec!["one", "two", "three"]);
    for s in &got {
        assert!(!s.is_empty() && s.chars().count() <= 80);
    }
}

#[test]
fn preferences_gate_the_auto_namer() {
    assert!(feature_enabled(None));
    assert!(feature_enabled(Some("true")));
    assert!(!feature_enabled(Some(" false ")));
    assert_eq!(override_model(Some("  gpt-x ")), Some("gpt-x".to_string()));
    assert_eq!(override_model(Some("   ")), None);
    assert_eq!(override_model(None), None);
}

#[test]
fn title_input_needs_three_characters_and_is_capped() {
    assert_eq!(title_input("  hi "), None);
    assert_eq!(title_input("  hey "), Some("hey".to_string()));
    let long = "x".repeat(3000);
    assert_eq!(title_input(&long).unwrap().chars().count(), 2000);
}

#[test]
fn transcript_labels_turns_and_needs_a_reply() {
    let msgs = vec![msg("user", "How do I sort?"), msg("assistant", "Use sort()."), msg("tool", "ignored")];
    assert!(has_assistant_reply(&msgs));
    assert!(!has_assistant_reply(&vec![msg("user", "hi")]));
    let t = build_transcript(&msgs);
    assert!(t.contains("How do I sort?"));
    assert!(t.contains("Use sort()."));
    assert!(!suggestion_prompt(&t).is_empty());
}
