use ryu_core::append::{plan_append, plan_append_now, should_request_auto_title};
use ryu_core::titles::derive_title;
use ryu_core::conversations::{
    active_messages, add_participant_to, backfill_row, backfill_runs, claim_tenancy_row, parse_runnable_kind, plan_fork, row_access,
    edit_version, fork_cut, fork_messages, forked_title, is_visible, new_btw_entry,
    new_session, new_subagent_entry, parse_participants_json, participants_json,
    regenerate_parent, remove_participant_from, select_version_leaf, spine_links,
    turn_for_assistant_message, update_metadata_if_newer, upsert_conversation_row,
    visible_conversation_ids, ConvRow, ConversationRow, RowAccess, SessionStatus,
    StoredMessage, SyncedMeta, Tenancy, TenancyFilter, TitleState, Touch,
};
use ryu_core::runnable::RunnableKind;

fn no_row() -> ConvRow {
    ConvRow { title: None, agent_id: None, folder_path: None, branch: None, worktree_path: None, participants: None }
}

fn owned(user: &str, org: Option<&str>) -> Tenancy {
    Tenancy::Owned { user_id: user.to_string(), org_id: org.map(str::to_string) }
}

/// A conversation held in memory, written the way the store writes it.
struct Conv {
    messages: Vec<StoredMessage>,
    leaf: Option<String>,
    next: i64,
}

impl Conv {
    fn new() -> Conv {
        Conv { messages: Vec::new(), leaf: None, next: 1 }
    }

    fn append(&mut self, role: &str, content: &str) -> String {
        let id = format!("m{}", self.next);
        self.next += 1;
        let plan = plan_append(id.clone(), role, content, Some("agent-x"), None, None, self.leaf.clone(), self.next);
        self.messages.push(plan.message);
        self.leaf = plan.new_leaf;
        id
    }

    /// Give a flat history its spine before the first branch.
    fn linearize(&mut self) {
        if self.leaf.is_some() || self.messages.is_empty() {
            return;
        }
        let ids: Vec<String> = self.messages.iter().map(|m| m.id.clone()).collect();
        for (parent, child) in spine_links(&ids) {
            for m in self.messages.iter_mut() {
                if m.id == child {
                    m.parent_message_id = Some(parent.clone());
                }
            }
        }
        self.leaf = ids.last().cloned();
    }

    fn edit(&mut self, id: &str, content: &str) -> Option<String> {
        self.linearize();
        let m = edit_version(&self.messages, id, content)?;
        let new_id = m.id.clone();
        self.messages.push(m);
        self.leaf = Some(new_id.clone());
        Some(new_id)
    }

    fn regenerate(&mut self, id: &str) -> Option<String> {
        self.linearize();
        let parent = regenerate_parent(&self.messages, id)?;
        self.leaf = Some(parent.clone());
        Some(parent)
    }

    fn select(&mut self, id: &str) -> Option<String> {
        self.linearize();
        let leaf = select_version_leaf(&self.messages, id)?;
        self.leaf = Some(leaf.clone());
        Some(leaf)
    }

    fn active(&self) -> Vec<StoredMessage> {
        active_messages(&self.messages, self.leaf.as_deref())
    }
}

fn seed_flat(c: &mut Conv) -> (String, String) {
    let u = c.append("user", "q1");
    let a = c.append("assistant", "a1");
    (u, a)
}

fn row(id: &str, owner: Option<&str>, org: Option<&str>, visibility: &str) -> RowAccess {
    RowAccess {
        id: id.to_string(),
        owner_user_id: owner.map(str::to_string),
        org_id: org.map(str::to_string),
        visibility: visibility.to_string(),
    }
}

fn filter(bound: bool, uid: Option<&str>, org: Option<&str>) -> TenancyFilter {
    TenancyFilter { node_bound: bound, owner_user_id: uid.map(str::to_string), org_id: org.map(str::to_string) }
}

#[test]
fn exactly_one_insert_into_conversations_in_the_whole_store() {
    // Every creation path goes through the one upsert, so every new row is born
    // stamped with the tenancy it was created under, whatever seeds it.
    let seeds = [
        no_row(),
        ConvRow { title: Some("t".into()), agent_id: Some("a".into()), ..no_row() },
        ConvRow { participants: Some("[\"a\"]".into()), folder_path: Some("/p".into()), ..no_row() },
    ];
    for seed in &seeds {
        for touch in [Touch::Keep, Touch::Bump, Touch::Max] {
            let r = upsert_conversation_row(None, 5, &owned("alice", Some("org1")), seed, touch);
            assert_eq!(r.owner_user_id.as_deref(), Some("alice"));
            assert_eq!(r.org_id.as_deref(), Some("org1"));
            assert_eq!((r.created_at, r.updated_at), (5, 5));
            let r = upsert_conversation_row(None, 5, &Tenancy::Unattributed, seed, touch);
            assert_eq!((r.owner_user_id, r.org_id), (None, None));
        }
    }
}

#[test]
fn the_choke_point_always_coalesces_tenancy() {
    // Preserve, never clobber; first writer wins.
    let first = upsert_conversation_row(None, 1, &owned("alice", Some("org1")), &no_row(), Touch::Keep);
    let second = upsert_conversation_row(Some(first), 2, &owned("mallory", Some("org2")), &no_row(), Touch::Bump);
    assert_eq!(second.owner_user_id.as_deref(), Some("alice"));
    assert_eq!(second.org_id.as_deref(), Some("org1"));
    let third = upsert_conversation_row(Some(second), 3, &Tenancy::Unattributed, &no_row(), Touch::Bump);
    assert_eq!(third.owner_user_id.as_deref(), Some("alice"));
    assert_eq!(third.org_id.as_deref(), Some("org1"));
    // An unowned row is claimed by the first tenancy that writes it.
    let unowned = upsert_conversation_row(None, 1, &Tenancy::Unattributed, &no_row(), Touch::Keep);
    let claimed = upsert_conversation_row(Some(unowned), 2, &owned("bob", None), &no_row(), Touch::Keep);
    assert_eq!(claimed.owner_user_id.as_deref(), Some("bob"));
    assert_eq!(claimed.org_id, None);
}

#[test]
fn upsert_touch_modes_and_column_merging() {
    let base = ConversationRow {
        title: Some("old".into()),
        agent_id: Some("a1".into()),
        created_at: 10,
        updated_at: 20,
        folder_path: None,
        branch: Some("main".into()),
        worktree_path: None,
        participants: "[\"a1\"]".into(),
        owner_user_id: None,
        org_id: None,
        visibility: "team".into(),
    };
    let dup = |r: &ConversationRow| ConversationRow {
        title: r.title.clone(),
        agent_id: r.agent_id.clone(),
        created_at: r.created_at,
        updated_at: r.updated_at,
        folder_path: r.folder_path.clone(),
        branch: r.branch.clone(),
        worktree_path: r.worktree_path.clone(),
        participants: r.participants.clone(),
        owner_user_id: r.owner_user_id.clone(),
        org_id: r.org_id.clone(),
        visibility: r.visibility.clone(),
    };
    let seed = ConvRow {
        title: Some("new".into()),
        agent_id: Some("a2".into()),
        folder_path: Some("/w".into()),
        branch: Some("dev".into()),
        ..no_row()
    };
    let kept = upsert_conversation_row(Some(dup(&base)), 15, &Tenancy::Unattributed, &seed, Touch::Keep);
    assert_eq!(kept.updated_at, 20);
    assert_eq!(kept.title.as_deref(), Some("old"));
    assert_eq!(kept.agent_id.as_deref(), Some("a2"));
    assert_eq!(kept.folder_path.as_deref(), Some("/w"));
    assert_eq!(kept.branch.as_deref(), Some("main"));
    assert_eq!(kept.created_at, 10);
    assert_eq!(kept.participants, "[\"a1\"]");
    assert_eq!(kept.visibility, "team");
    let bumped = upsert_conversation_row(Some(dup(&base)), 15, &Tenancy::Unattributed, &seed, Touch::Bump);
    assert_eq!(bumped.updated_at, 15);
    let maxed = upsert_conversation_row(Some(dup(&base)), 15, &Tenancy::Unattributed, &seed, Touch::Max);
    assert_eq!(maxed.updated_at, 20);
    let maxed = upsert_conversation_row(Some(dup(&base)), 25, &Tenancy::Unattributed, &seed, Touch::Max);
    assert_eq!(maxed.updated_at, 25);
}

#[test]
fn owned_by_collapses_an_org_without_a_user() {
    assert_eq!(Tenancy::owned_by(Some("u1"), Some("acme")).parts(), (Some("u1"), Some("acme")));
    assert_eq!(Tenancy::owned_by(Some("u1"), None).parts(), (Some("u1"), None));
    assert_eq!(Tenancy::owned_by(None, Some("acme")), Tenancy::Unattributed);
    assert_eq!(Tenancy::Unattributed.parts(), (None, None));
}

#[test]
fn flat_conversation_stays_flat_until_edited() {
    let mut c = Conv::new();
    seed_flat(&mut c);
    let active = c.active();
    assert_eq!(active.len(), 2);
    assert!(active.iter().all(|m| m.parent_message_id.is_none()));
    assert!(active.iter().all(|m| m.sibling_count == 1));
}

#[test]
fn edit_user_message_creates_sibling_and_switches_active_path() {
    let mut c = Conv::new();
    let (u, _a) = seed_flat(&mut c);
    let u2 = c.edit(&u, "q1-edited").expect("edit returns new id");
    assert_ne!(u2, u);
    let active = c.active();
    assert_eq!(active.len(), 1);
    assert_eq!(active[0].id, u2);
    assert_eq!(active[0].content, "q1-edited");
    assert_eq!(active[0].sibling_count, 2);
    assert_eq!(active[0].sibling_index, 1);

    c.append("assistant", "a2");
    let active = c.active();
    assert_eq!(active.len(), 2);
    assert_eq!(active[1].content, "a2");
    assert_eq!(active[1].parent_message_id.as_deref(), Some(u2.as_str()));
}

#[test]
fn select_version_restores_the_other_branch() {
    let mut c = Conv::new();
    let (u, _a) = seed_flat(&mut c);
    let u2 = c.edit(&u, "q1-edited").unwrap();
    c.append("assistant", "a2");
    let leaf = c.select(&u).expect("select returns a leaf");
    let active = c.active();
    assert_eq!(active.len(), 2);
    assert_eq!(active[0].id, u);
    assert_eq!(active[0].content, "q1");
    assert_eq!(active[1].content, "a1");
    assert_eq!(active[1].id, leaf);
    c.select(&u2);
    let active = c.active();
    assert_eq!(active[0].content, "q1-edited");
    assert_eq!(active[1].content, "a2");
    assert_eq!(c.select("missing"), None);
}

#[test]
fn regenerate_creates_assistant_sibling_under_same_user_turn() {
    let mut c = Conv::new();
    let (u, a) = seed_flat(&mut c);
    let parent = c.regenerate(&a).expect("regenerate returns parent");
    assert_eq!(parent, u);
    c.append("assistant", "a1-v2");
    let active = c.active();
    assert_eq!(active.len(), 2);
    assert_eq!(active[1].content, "a1-v2");
    assert_eq!(active[1].sibling_count, 2);
    assert_eq!(active[1].parent_message_id.as_deref(), Some(u.as_str()));
    // A root has nothing to regenerate from; an assistant turn cannot be edited.
    assert_eq!(regenerate_parent(&c.messages, &u), None);
    assert!(edit_version(&c.messages, &a, "x").is_none());
}

#[test]
fn append_seeds_a_title_only_from_user_messages() {
    let p = plan_append("m1".into(), "user", "Hello\nworld", None, Some("u1"), Some("Ann"), None, 7);
    assert_eq!(p.row.title.as_deref(), Some("Hello"));
    assert_eq!(p.message.parent_message_id, None);
    assert_eq!(p.new_leaf, None);
    assert_eq!(p.message.author_user_id.as_deref(), Some("u1"));
    assert_eq!(p.message.author_name.as_deref(), Some("Ann"));
    assert_eq!(p.message.created_at, 7);
    assert_eq!(p.touch, Touch::Bump);
    let p = plan_append("m2".into(), "assistant", "Hi", Some("agent"), None, None, Some("m1".into()), 8);
    assert_eq!(p.row.title, None);
    assert_eq!(p.row.agent_id.as_deref(), Some("agent"));
    assert_eq!(p.message.parent_message_id.as_deref(), Some("m1"));
    assert_eq!(p.new_leaf.as_deref(), Some("m2"));
    let p = plan_append_now("user", "x", None, None, None, None);
    assert_eq!(p.message.id.len(), 36);
}

#[test]
fn first_user_message_fires_auto_title_once() {
    assert!(should_request_auto_title("user", 1, false));
    assert!(!should_request_auto_title("user", 2, false));
    assert!(!should_request_auto_title("user", 1, true));
    assert!(!should_request_auto_title("assistant", 1, false));
}

#[test]
fn fork_copies_history_up_to_message_into_new_conversation() {
    let mut c = Conv::new();
    let (u, _a) = seed_flat(&mut c);
    c.append("user", "q2");
    assert_eq!(fork_cut(&c.messages, Some(&u)), Some(1));
    assert_eq!(fork_cut(&c.messages, None), Some(3));
    let copies = fork_messages(&c.messages, Some(&u)).unwrap();
    assert_eq!(copies.len(), 1);
    assert_eq!(copies[0].content, "q1");
    assert_eq!(copies[0].role, "user");
    assert_ne!(copies[0].id, u);
    let all = fork_messages(&c.messages, None).unwrap();
    let contents: Vec<&str> = all.iter().map(|m| m.content.as_str()).collect();
    assert_eq!(contents, vec!["q1", "a1", "q2"]);
    assert_eq!(forked_title(Some("Plan")), "Plan (branch)");
    assert_eq!(forked_title(None), "Branch");
}

#[test]
fn fork_missing_source_or_message_returns_none() {
    let mut c = Conv::new();
    seed_flat(&mut c);
    assert_eq!(fork_cut(&c.messages, Some("nope")), None);
    assert!(fork_messages(&c.messages, Some("nope")).is_none());
}

#[test]
fn message_feedback_set_list_and_turn_resolution() {
    let mut c = Conv::new();
    let (_u, a) = seed_flat(&mut c);
    let a2 = c.append("assistant", "a1 again");
    let t = turn_for_assistant_message(&c.messages, &a).unwrap();
    assert_eq!((t.0.as_str(), t.1.as_str(), t.2.as_deref()), ("q1", "a1", Some("agent-x")));
    let t = turn_for_assistant_message(&c.messages, &a2).unwrap();
    assert_eq!(t.0, "q1");
    assert_eq!(t.1, "a1 again");
}

#[test]
fn participants_add_remove_roundtrip() {
    let mut ps = parse_participants_json(Some("[\"a\",\"b\"]"));
    assert_eq!(ps, vec!["a", "b"]);
    assert!(add_participant_to(&mut ps, "c"));
    assert!(!add_participant_to(&mut ps, "a"));
    assert!(remove_participant_from(&mut ps, "b"));
    assert!(!remove_participant_from(&mut ps, "zzz"));
    assert_eq!(ps, vec!["a", "c"]);
    assert_eq!(parse_participants_json(Some(&participants_json(&ps))), ps);
    assert!(parse_participants_json(None).is_empty());
    assert!(parse_participants_json(Some("not json")).is_empty());
}

#[test]
fn claim_tenancy_stamps_the_owner_on_a_brand_new_conversation() {
    let r = claim_tenancy_row(None, 1, "alice", Some("org1"));
    assert_eq!(r.owner_user_id.as_deref(), Some("alice"));
    assert_eq!(r.org_id.as_deref(), Some("org1"));
    assert_eq!(r.visibility, "private");
}

#[test]
fn claim_tenancy_never_steals_an_already_owned_conversation() {
    let r = claim_tenancy_row(None, 1, "alice", Some("org1"));
    assert_eq!(r.visibility, "private");
    let r = claim_tenancy_row(Some(r), 2, "mallory", Some("org1"));
    assert_eq!(r.owner_user_id.as_deref(), Some("alice"));
    assert_eq!(r.visibility, "private");
}

#[test]
fn visible_lists_scope_to_the_caller_on_an_org_bound_node() {
    let rows = vec![
        row("mine", Some("alice"), Some("org1"), "private"),
        row("theirs", Some("bob"), Some("org1"), "private"),
        row("shared", Some("bob"), Some("org1"), "org"),
        row("team", Some("bob"), Some("org1"), "team"),
        row("other-org", Some("carol"), Some("org2"), "org"),
        row("untenanted", None, None, "private"),
    ];
    let alice = filter(true, Some("alice"), Some("org1"));
    assert_eq!(visible_conversation_ids(&alice, &rows), vec!["mine", "shared", "team"]);
    let anonymous = filter(true, None, Some("org1"));
    assert!(visible_conversation_ids(&anonymous, &rows).is_empty());
    let no_org = filter(true, Some("bob"), None);
    assert_eq!(visible_conversation_ids(&no_org, &rows), vec!["theirs", "shared", "team"]);
    assert_eq!(visible_conversation_ids(&TenancyFilter::unrestricted(), &rows).len(), rows.len());
    assert!(is_visible(&filter(false, None, None), &rows[1]));
}

#[test]
fn metadata_replay_is_last_writer_wins() {
    let stored = SyncedMeta {
        title: Some("t".into()),
        agent_id: None,
        folder_path: None,
        branch: None,
        worktree_path: None,
        run_status: Some("running".into()),
        updated_at: 100,
    };
    let copy = |m: &SyncedMeta| SyncedMeta {
        title: m.title.clone(),
        agent_id: m.agent_id.clone(),
        folder_path: m.folder_path.clone(),
        branch: m.branch.clone(),
        worktree_path: m.worktree_path.clone(),
        run_status: m.run_status.clone(),
        updated_at: m.updated_at,
    };
    let older = SyncedMeta { title: Some("old".into()), updated_at: 50, ..copy(&stored) };
    let r = update_metadata_if_newer(copy(&stored), older);
    assert_eq!(r.title.as_deref(), Some("t"));
    assert_eq!(r.updated_at, 100);
    let same_time = SyncedMeta { title: Some("tie".into()), updated_at: 100, ..copy(&stored) };
    let r = update_metadata_if_newer(copy(&stored), same_time);
    assert_eq!(r.title.as_deref(), Some("t"));
    let newer = SyncedMeta { title: None, run_status: Some("completed".into()), updated_at: 150, ..copy(&stored) };
    let r = update_metadata_if_newer(copy(&stored), newer);
    assert_eq!(r.title.as_deref(), Some("t"));
    assert_eq!(r.run_status.as_deref(), Some("completed"));
    assert_eq!(r.updated_at, 150);
}

#[test]
fn backfill_attributes_only_untenanted_rows() {
    let mut legacy = row("a", None, None, "private");
    backfill_row(&mut legacy, "owner", "org1");
    assert_eq!(legacy.owner_user_id.as_deref(), Some("owner"));
    assert_eq!(legacy.org_id.as_deref(), Some("org1"));
    let mut owned_row = row("b", Some("bob"), None, "private");
    backfill_row(&mut owned_row, "owner", "org1");
    assert_eq!(owned_row.owner_user_id.as_deref(), Some("bob"));
    assert_eq!(owned_row.org_id, None);
    assert!(backfill_runs(false, Some("org1"), Some("owner")));
    assert!(!backfill_runs(true, Some("org1"), Some("owner")));
    assert!(!backfill_runs(false, None, Some("owner")));
    assert!(!backfill_runs(false, Some("org1"), None));
}

#[test]
fn session_round_trip_with_existing_conversation_store() {
    let (s, seed) = new_session("agent-1", RunnableKind::Agent, Some("agent-1"), Some("Title"));
    assert!(s.id.starts_with("sess_") && s.id.len() == 37);
    assert!(s.conversation_id.starts_with("conv_") && s.conversation_id.len() == 37);
    assert_eq!(s.status, SessionStatus::Idle);
    assert_eq!(s.created_at, s.updated_at);
    assert_eq!(seed.title.as_deref(), Some("Title"));
    assert_eq!(seed.agent_id.as_deref(), Some("agent-1"));
    for st in [SessionStatus::Idle, SessionStatus::Running, SessionStatus::Completed, SessionStatus::Failed] {
        assert_eq!(SessionStatus::from_str(st.as_str()), st);
    }
}

#[test]
fn side_questions_and_subagents_are_kinded_entries() {
    let b = new_btw_entry("c1", "why?", "because", Some("m"));
    assert_eq!(b.kind, "btw");
    assert_eq!(b.model.as_deref(), Some("m"));
    assert_eq!(b.id.len(), 36);
    let s = new_subagent_entry("c1", "task", "done", Some("agent"), Some("safe"), Some("child"));
    assert_eq!(s.kind, "subagent");
    assert_eq!(s.question, "task");
    assert_eq!(s.model, None);
    assert_eq!(s.child_conversation_id.as_deref(), Some("child"));
}

fn access(id: &str, r: &ConversationRow, visibility: &str) -> RowAccess {
    let mut a = row_access(id, r);
    a.visibility = visibility.to_string();
    a
}

#[test]
fn turn_resolution_pairs_second_assistant_reply_to_the_user() {
    let mut c = Conv::new();
    c.append("user", "what is 2+2");
    c.append("assistant", "first attempt: 4");
    let second = c.append("assistant", "regenerated: it is 4");
    let turn = turn_for_assistant_message(&c.messages, &second)
        .expect("second assistant reply resolves to the preceding user turn");
    assert_eq!(turn.0, "what is 2+2");
    assert_eq!(turn.1, "regenerated: it is 4");
}

#[test]
fn session_runnable_kind_round_trips_for_workflow() {
    let (s, _) = new_session("wf-xyz", RunnableKind::Workflow, None, None);
    assert_eq!(parse_runnable_kind(s.runnable_kind.as_str()), RunnableKind::Workflow);
}

#[test]
fn appending_a_message_does_not_wipe_the_claimed_owner() {
    let claimed = claim_tenancy_row(None, 1, "alice", Some("org1"));
    let after = upsert_conversation_row(Some(claimed), 2, &owned("alice", None), &no_row(), Touch::Bump);
    assert_eq!(after.owner_user_id.as_deref(), Some("alice"));
    assert_eq!(after.org_id.as_deref(), Some("org1"));
}

#[test]
fn an_org_visible_conversation_is_listed_for_other_members() {
    let shared = claim_tenancy_row(None, 1, "alice", Some("org1"));
    let rows = vec![access("shared", &shared, "org")];
    assert_eq!(visible_conversation_ids(&filter(true, Some("bob"), Some("org1")), &rows).len(), 1);
    assert!(visible_conversation_ids(&filter(true, Some("mallory"), Some("org2")), &rows).is_empty());
}

#[test]
fn a_fork_is_owned_by_the_forker_not_the_source_owner() {
    let source = claim_tenancy_row(None, 1, "alice", Some("org1"));
    let mut c = Conv::new();
    c.append("user", "shared thought");
    let (row, copies) =
        plan_fork(Some(&source), &c.messages, None, &owned("bob", Some("org1")), 2).expect("fork");
    assert_eq!(row.owner_user_id.as_deref(), Some("bob"));
    assert_eq!(row.org_id.as_deref(), Some("org1"));
    assert_eq!(row.title.as_deref(), Some("Branch"));
    assert_eq!(copies.len(), 1);
    assert!(plan_fork(None, &c.messages, None, &owned("bob", None), 2).is_none());
    assert!(plan_fork(Some(&source), &c.messages, Some("not-a-real-id"), &owned("bob", None), 2).is_none());
}

#[test]
fn every_creation_path_leaves_the_row_reachable_by_its_own_owner() {
    let alice = filter(true, Some("alice"), Some("org1"));
    for touch in [Touch::Keep, Touch::Bump, Touch::Max] {
        let r = upsert_conversation_row(None, 7, &owned("alice", Some("org1")), &no_row(), touch);
        assert!(is_visible(&alice, &access("c", &r, "private")));
    }
    let claimed = claim_tenancy_row(None, 7, "alice", Some("org1"));
    assert!(is_visible(&alice, &access("c", &claimed, "private")));
}

#[test]
fn no_upsert_path_can_wipe_or_steal_a_claimed_owner() {
    for tenancy in [Tenancy::Unattributed, owned("mallory", Some("org2")), owned("mallory", None)] {
        for touch in [Touch::Keep, Touch::Bump, Touch::Max] {
            let claimed = claim_tenancy_row(None, 1, "alice", Some("org1"));
            let r = upsert_conversation_row(Some(claimed), 2, &tenancy, &no_row(), touch);
            assert_eq!(r.owner_user_id.as_deref(), Some("alice"));
            assert_eq!(r.org_id.as_deref(), Some("org1"));
        }
    }
}

#[test]
fn an_unbound_personal_node_is_unchanged_on_every_creation_path() {
    let personal = filter(false, None, None);
    for touch in [Touch::Keep, Touch::Bump, Touch::Max] {
        let r = upsert_conversation_row(None, 3, &Tenancy::Unattributed, &no_row(), touch);
        assert_eq!((r.owner_user_id.as_deref(), r.org_id.as_deref()), (None, None));
        assert!(is_visible(&personal, &access("c", &r, "private")));
    }
    let rows = vec![
        row("a", Some("alice"), Some("org1"), "private"),
        row("b", None, None, "private"),
        row("c", Some("bob"), Some("org2"), "team"),
    ];
    assert_eq!(visible_conversation_ids(&personal, &rows), vec!["a", "b", "c"]);
}

#[test]
fn auto_set_title_overwrites_derived_but_not_custom() {
    let mut t = TitleState {
        title: Some(derive_title("how do I center a div")),
        custom: false,
        updated_at: 1,
    };
    assert!(!t.custom);
    assert!(t.auto_set_title("Centering a div", 2));
    assert_eq!(t.title.as_deref(), Some("Centering a div"));
    t.set_title("CSS layout help", 3);
    assert!(t.custom);
    assert!(!t.auto_set_title("Robot title", 4));
    assert_eq!(t.title.as_deref(), Some("CSS layout help"));
    assert_eq!(t.updated_at, 3);
}

#[test]
fn participants_are_stored_as_a_compact_json_array() {
    let ps = vec!["a\"b".to_string(), "c\n\u{1}".to_string(), "é".to_string()];
    assert_eq!(participants_json(&ps), "[\"a\\\"b\",\"c\\n\\u0001\",\"é\"]");
    assert_eq!(participants_json(&vec![]), "[]");
}
