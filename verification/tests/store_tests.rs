use ryu_core::conversations::{RowAccess, StoredMessage};
use ryu_core::store::{
    backfill_pending, conversations_owned_by, missing_columns, recent_messages, surviving_hits,
    RemoteBackfill,
};

fn strings(v: &[&str]) -> Vec<String> {
    v.iter().map(|s| s.to_string()).collect()
}

fn msg(id: &str, content: &str, at: i64) -> StoredMessage {
    StoredMessage {
        id: id.to_string(),
        role: "user".to_string(),
        content: content.to_string(),
        agent_id: None,
        author_user_id: None,
        author_name: None,
        parts: Some("[]".to_string()),
        parent_message_id: Some("p".to_string()),
        sibling_index: 1,
        sibling_count: 2,
        sibling_ids: strings(&["p1", id]),
        created_at: at,
    }
}

#[test]
fn migration_adds_only_missing_columns_and_is_idempotent() {
    let wanted = strings(&["folder_path", "branch", "participants", "visibility"]);
    let existing = strings(&["id", "title", "branch"]);
    let added = missing_columns(&wanted, &existing);
    assert_eq!(added, strings(&["folder_path", "participants", "visibility"]));
    let mut after = existing.clone();
    after.extend(added);
    assert!(missing_columns(&wanted, &after).is_empty());
}

#[test]
fn search_backfill_takes_unindexed_non_blank_messages() {
    let indexed = strings(&["m1"]);
    let messages = vec![
        ("m1".to_string(), "hello".to_string()),
        ("m2".to_string(), "   ".to_string()),
        ("m3".to_string(), "world".to_string()),
    ];
    assert_eq!(backfill_pending(&indexed, &messages), vec![2]);
}

#[test]
fn remote_backfill_gives_up_after_three_failures_in_a_row() {
    let mut b = RemoteBackfill::new();
    let outcomes = [false, true, false, false, false, true, true];
    let mut tried = 0;
    for ok in outcomes {
        if !b.should_continue() {
            break;
        }
        tried += 1;
        b.record(ok);
    }
    assert_eq!(tried, 5);
}

#[test]
fn search_drops_hits_whose_message_was_deleted() {
    let stored = vec![Some("a".to_string()), None, Some("c".to_string())];
    assert_eq!(surviving_hits(&stored), vec![0, 2]);
}

#[test]
fn get_recent_returns_tail_in_order() {
    let all = vec![msg("m1", "one", 1), msg("m2", "two", 2), msg("m3", "three", 3)];
    let recent = recent_messages(&all, 2);
    let ids: Vec<&str> = recent.iter().map(|m| m.id.as_str()).collect();
    assert_eq!(ids, vec!["m2", "m3"]);
    assert!(recent.iter().all(|m| m.parts.is_none() && m.parent_message_id.is_none()));
    assert!(recent.iter().all(|m| m.sibling_count == 1 && m.sibling_ids.is_empty()));
    assert_eq!(recent_messages(&all, 10).len(), 3);
    assert!(recent_messages(&all, 0).is_empty());
}

#[test]
fn clearing_one_user_removes_only_their_conversations() {
    let row = |id: &str, owner: Option<&str>| RowAccess {
        id: id.to_string(),
        owner_user_id: owner.map(str::to_string),
        org_id: None,
        visibility: "private".to_string(),
    };
    let rows = vec![row("a", Some("alice")), row("b", Some("bob")), row("c", None), row("d", Some("alice"))];
    assert_eq!(conversations_owned_by(&rows, "alice"), strings(&["a", "d"]));
    assert!(conversations_owned_by(&rows, "carol").is_empty());
}

#[test]
fn list_orders_by_recency() {
    let rows = vec![(5i64, "a"), (9, "b"), (1, "c"), (7, "d")];
    let sorted = ryu_core::sorting::sort_newest_first(rows);
    let ids: Vec<&str> = sorted.iter().map(|r| r.1).collect();
    assert_eq!(ids, vec!["b", "d", "a", "c"]);
}
