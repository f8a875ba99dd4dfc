//! Appending a turn to a conversation: the message row written, the
//! conversation columns seeded, how the version tree's leaf moves, and when the
//! auto-namer is asked for a title.
use vstd::prelude::*;
use crate::conversations::{
    ConvRow, MsgV, StoredMessage, Touch, chain_from, last_with_id, msg_view, opt_str_view,
    opt_string_view,
};
use crate::ids::{fresh_hyphenated_uuid, is_hyphenated_uuid, now_millis};
use crate::titles::{derive_title, derived_title};
use crate::text::{chars_of, eq_chars};

verus! {

/// What one append writes.
pub struct AppendPlan {
    /// The message row inserted.
    pub message: StoredMessage,
    /// The columns the conversation upsert seeds (the title still in the clear).
    pub row: ConvRow,
    /// How the upsert treats `updated_at`: an append is a new turn.
    pub touch: Touch,
    /// The conversation's active leaf afterwards.
    pub new_leaf: Option<String>,
}

/// The message an append inserts: a root-less reply beneath the active leaf
/// (none on a conversation that was never branched), not yet annotated.
pub open spec fn appended_message(
    message_id: Seq<char>,
    role: Seq<char>,
    content: Seq<char>,
    agent_id: Option<Seq<char>>,
    author_user_id: Option<Seq<char>>,
    author_name: Option<Seq<char>>,
    active_leaf: Option<Seq<char>>,
    now: int,
) -> MsgV {
    MsgV {
        id: message_id,
        role,
        content,
        agent_id,
        author_user_id,
        author_name,
        parts: None,
        parent: active_leaf,
        sibling_index: 0,
        sibling_count: 1,
        sibling_ids: seq![],
        created_at: now,
    }
}

/// Only a user message seeds a title: its first-pass derived title.
pub open spec fn seeded_title(role: Seq<char>, content: Seq<char>) -> Option<Seq<char>> {
    if role == "user"@ {
        Some(derived_title(content))
    } else {
        None
    }
}

/// The leaf moves to the new message once branching is engaged; a conversation
/// that never had a leaf keeps none.
pub open spec fn leaf_after_append(active_leaf: Option<Seq<char>>, message_id: Seq<char>) -> Option<
    Seq<char>,
> {
    match active_leaf {
        Some(_) => Some(message_id),
        None => None,
    }
}

fn owned(a: Option<&str>) -> (r: Option<String>)
    ensures
        opt_string_view(r) == opt_str_view(a),
{
    match a {
        Some(x) => Some(x.to_owned()),
        None => None,
    }
}

/// The writes of appending message `message_id` at `now` to a conversation
/// whose active leaf is `active_leaf`.
pub fn plan_append(
    message_id: String,
    role: &str,
    content: &str,
    agent_id: Option<&str>,
    author_user_id: Option<&str>,
    author_name: Option<&str>,
    active_leaf: Option<String>,
    now: i64,
) -> (r: AppendPlan)
    ensures
        msg_view(r.message) == appended_message(
            message_id@,
            role@,
            content@,
            opt_str_view(agent_id),
            opt_str_view(author_user_id),
            opt_str_view(author_name),
            opt_string_view(active_leaf),
            now as int,
        ),
        opt_string_view(r.row.title) == seeded_title(role@, content@),
        opt_string_view(r.row.agent_id) == opt_str_view(agent_id),
        r.row.folder_path is None,
        r.row.branch is None,
        r.row.worktree_path is None,
        r.row.participants is None,
        r.touch == Touch::Bump,
        opt_string_view(r.new_leaf) == leaf_after_append(opt_string_view(active_leaf), message_id@),
{
    proof {
        reveal_strlit("user");
    }
    let title = if eq_chars(&chars_of(role), &chars_of("user")) {
        Some(derive_title(content))
    } else {
        None
    };
    let new_leaf = match &active_leaf {
        Some(_) => Some(message_id.clone()),
        None => None,
    };
    let message = StoredMessage {
        id: message_id,
        role: role.to_owned(),
        content: content.to_owned(),
        agent_id: owned(agent_id),
        author_user_id: owned(author_user_id),
        author_name: owned(author_name),
        parts: None,
        parent_message_id: active_leaf,
        sibling_index: 0,
        sibling_count: 1,
        sibling_ids: Vec::new(),
        created_at: now,
    };
    assert(crate::text::strs(message.sibling_ids@) =~= Seq::<Seq<char>>::empty());
    let row = ConvRow {
        title,
        agent_id: owned(agent_id),
        folder_path: None,
        branch: None,
        worktree_path: None,
        participants: None,
    };
    AppendPlan { message, row, touch: Touch::Bump, new_leaf }
}

/// The writes of appending a message now, under a fresh message id (see
/// `plan_append`).
pub fn plan_append_now(
    role: &str,
    content: &str,
    agent_id: Option<&str>,
    author_user_id: Option<&str>,
    author_name: Option<&str>,
    active_leaf: Option<String>,
) -> (r: AppendPlan)
    ensures
        is_hyphenated_uuid(r.message.id@),
        exists|now: i64|
            msg_view(r.message) == #[trigger] appended_message(
                r.message.id@,
                role@,
                content@,
                opt_str_view(agent_id),
                opt_str_view(author_user_id),
                opt_str_view(author_name),
                opt_string_view(active_leaf),
                now as int,
            ),
        opt_string_view(r.row.title) == seeded_title(role@, content@),
        opt_string_view(r.row.agent_id) == opt_str_view(agent_id),
        r.touch == Touch::Bump,
        opt_string_view(r.new_leaf) == leaf_after_append(
            opt_string_view(active_leaf),
            r.message.id@,
        ),
{
    let now = now_millis();
    let id = fresh_hyphenated_uuid();
    let ghost idv = id@;
    let r = plan_append(id, role, content, agent_id, author_user_id, author_name, active_leaf, now);
    assert(r.message.id@ == idv);
    r
}

/// The auto-namer is asked for a title exactly once: on the conversation's
/// first user message, unless the user already named it.
pub fn should_request_auto_title(role: &str, user_message_count: i64, title_custom: bool) -> (r:
    bool)
    ensures
        r == (role@ == "user"@ && user_message_count == 1 && !title_custom),
{
    proof {
        reveal_strlit("user");
    }
    eq_chars(&chars_of(role), &chars_of("user")) && user_message_count == 1 && !title_custom
}

// ── The version tree under appends ───────────────────────────────────────────

/// `m` is new to `all`: no stored message has its id or names it as parent.
pub open spec fn fresh_in(all: Seq<MsgV>, m: MsgV) -> bool {
    &&& forall|i: int| 0 <= i < all.len() ==> (#[trigger] all[i]).id != m.id
    &&& forall|i: int| 0 <= i < all.len() ==> (#[trigger] all[i]).parent != Some(m.id)
    &&& m.parent != Some(m.id)
}

/// The active path from `leaf` (root first), as indices into `all`.
pub open spec fn active_path(all: Seq<MsgV>, leaf: Seq<char>) -> Seq<int> {
    chain_from(all, Some(leaf), (all.len() + 1) as nat).reverse()
}

proof fn lemma_last_with_id_push(all: Seq<MsgV>, m: MsgV, id: Seq<char>, n: int)
    requires
        id != m.id,
        n <= all.len(),
    ensures
        last_with_id(all.push(m), id, n) == last_with_id(all, id, n),
    decreases n,
{
    if n > 0 {
        assert(all.push(m)[n - 1] == all[n - 1]);
        lemma_last_with_id_push(all, m, id, n - 1);
    }
}

proof fn lemma_chain_unaffected(all: Seq<MsgV>, m: MsgV, cursor: Option<Seq<char>>, fuel: nat)
    requires
        fresh_in(all, m),
        cursor != Some(m.id),
    ensures
        chain_from(all.push(m), cursor, fuel) == chain_from(all, cursor, fuel),
    decreases fuel,
{
    if fuel > 0 {
        if let Some(c) = cursor {
            let ext = all.push(m);
            assert(ext[all.len() as int].id == m.id);
            lemma_last_with_id_push(all, m, c, all.len() as int);
            assert(last_with_id(ext, c, ext.len() as int) == last_with_id(ext, c, all.len() as int));
            crate::conversations::lemma_last_with_id(all, c, all.len() as int);
            match last_with_id(all, c, all.len() as int) {
                None => {},
                Some(k) => {
                    assert(ext[k] == all[k]);
                    assert(all[k].parent != Some(m.id));
                    lemma_chain_unaffected(all, m, all[k].parent, (fuel - 1) as nat);
                },
            }
        }
    }
}

/// An append beneath the active leaf extends the active path by exactly the new
/// message, when the new message id is fresh; an append to a conversation that
/// was never branched extends its flat history.
pub proof fn lemma_append_extends_active_path(all: Seq<MsgV>, m: MsgV, leaf: Option<Seq<char>>)
    requires
        fresh_in(all, m),
        m.parent == leaf,
    ensures
        leaf matches Some(l) ==> active_path(all.push(m), m.id) == active_path(all, l).push(
            all.len() as int,
        ),
        leaf is None ==> crate::conversations::active_thread(all.push(m), leaf_after_append(
            leaf,
            m.id,
        )) == all.push(m),
{
    if let Some(l) = leaf {
        let ext = all.push(m);
        let f = (all.len() + 1) as nat;
        assert(ext[all.len() as int].id == m.id);
        assert(last_with_id(ext, m.id, ext.len() as int) == Some(all.len() as int));
        assert(ext[all.len() as int].parent == Some(l));
        lemma_chain_unaffected(all, m, Some(l), f);
        assert(chain_from(ext, Some(m.id), (f + 1) as nat) == seq![all.len() as int] + chain_from(
            all,
            Some(l),
            f,
        ));
        assert(ext.len() + 1 == f + 1);
        assert((seq![all.len() as int] + chain_from(all, Some(l), f)).reverse() =~= chain_from(
            all,
            Some(l),
            f,
        ).reverse().push(all.len() as int));
    }
}

} // verus!
