//! The conversation store's own decisions around its SQL: which schema columns a
//! migration adds, which messages a search index is backfilled with and when a
//! remote backfill gives up, which search hits survive, which messages are the
//! recent ones, and which conversations a per-user clear removes.
use vstd::prelude::*;
use crate::conversations::{
    MsgV, RowAccess, StoredMessage, clone_opt, msg_view, msgs_view, opt_string_view,
};
use crate::text::{CharClass, chars_of, eq_chars, strs, trim_ws, trimmed};

verus! {

// ── Additive migrations ──────────────────────────────────────────────────────

/// The wanted columns not yet in the table, in the order they are wanted.
pub open spec fn missing_of(wanted: Seq<Seq<char>>, existing: Seq<Seq<char>>) -> Seq<Seq<char>>
    decreases wanted.len(),
{
    if wanted.len() == 0 {
        seq![]
    } else if existing.contains(wanted.last()) {
        missing_of(wanted.drop_last(), existing)
    } else {
        missing_of(wanted.drop_last(), existing).push(wanted.last())
    }
}

fn contains_text(v: &Vec<String>, s: &String) -> (r: bool)
    ensures
        r == strs(v@).contains(s@),
{
    let mut i: usize = 0;
    while i < v.len()
        invariant
            i <= v.len(),
            forall|j: int| 0 <= j < i ==> strs(v@)[j] != s@,
        decreases v.len() - i,
    {
        if eq_chars(&chars_of(v[i].as_str()), &chars_of(s.as_str())) {
            assert(strs(v@)[i as int] == s@);
            return true;
        }
        i = i + 1;
    }
    false
}

/// The columns a migration adds: each wanted column the table lacks, in order
/// (a column already there is never added again).
pub fn missing_columns(wanted: &Vec<String>, existing: &Vec<String>) -> (r: Vec<String>)
    ensures
        strs(r@) == missing_of(strs(wanted@), strs(existing@)),
{
    let mut out: Vec<String> = Vec::new();
    let mut i: usize = 0;
    while i < wanted.len()
        invariant
            i <= wanted.len(),
            strs(out@) == missing_of(strs(wanted@).take(i as int), strs(existing@)),
        decreases wanted.len() - i,
    {
        proof {
            assert(strs(wanted@).take(i + 1).drop_last() =~= strs(wanted@).take(i as int));
            assert(strs(wanted@).take(i + 1).last() == wanted@[i as int]@);
        }
        if !contains_text(existing, &wanted[i]) {
            let ghost before = out@;
            out.push(wanted[i].clone());
            proof {
                assert(strs(out@) =~= strs(before).push(wanted@[i as int]@));
            }
        }
        i = i + 1;
    }
    proof {
        assert(strs(wanted@).take(wanted.len() as int) =~= strs(wanted@));
    }
    out
}

proof fn lemma_missing_of_none_when_all_present(wanted: Seq<Seq<char>>, existing: Seq<Seq<char>>)
    requires
        forall|i: int| 0 <= i < wanted.len() ==> existing.contains(#[trigger] wanted[i]),
    ensures
        missing_of(wanted, existing) == Seq::<Seq<char>>::empty(),
    decreases wanted.len(),
{
    if wanted.len() > 0 {
        assert(existing.contains(wanted[wanted.len() - 1]));
        assert forall|i: int| 0 <= i < wanted.drop_last().len() implies existing.contains(
            #[trigger] wanted.drop_last()[i],
        ) by {
            assert(wanted.drop_last()[i] == wanted[i]);
        }
        lemma_missing_of_none_when_all_present(wanted.drop_last(), existing);
    }
}

/// The migration is idempotent: once the missing columns are added, a second run
/// adds nothing.
pub proof fn lemma_migration_is_idempotent(wanted: Seq<Seq<char>>, existing: Seq<Seq<char>>)
    ensures
        missing_of(wanted, existing + missing_of(wanted, existing)) == Seq::<Seq<char>>::empty(),
{
    let after = existing + missing_of(wanted, existing);
    assert forall|i: int| 0 <= i < wanted.len() implies after.contains(#[trigger] wanted[i]) by {
        let c = wanted[i];
        assert(wanted.contains(c));
        if existing.contains(c) {
            let k = choose|k: int| 0 <= k < existing.len() && existing[k] == c;
            assert(after[k] == c);
        } else {
            lemma_missing_in_result(wanted, existing, i);
            let m = missing_of(wanted, existing);
            let k = choose|k: int| 0 <= k < m.len() && m[k] == c;
            assert(after[existing.len() + k] == c);
        }
    }
    lemma_missing_of_none_when_all_present(wanted, after);
}

proof fn lemma_missing_in_result(wanted: Seq<Seq<char>>, existing: Seq<Seq<char>>, i: int)
    requires
        0 <= i < wanted.len(),
        !existing.contains(wanted[i]),
    ensures
        missing_of(wanted, existing).contains(wanted[i]),
    decreases wanted.len(),
{
    let m = missing_of(wanted, existing);
    if i == wanted.len() - 1 {
        assert(m[m.len() - 1] == wanted[i]);
    } else {
        assert(wanted.drop_last()[i] == wanted[i]);
        lemma_missing_in_result(wanted.drop_last(), existing, i);
        let p = missing_of(wanted.drop_last(), existing);
        let k = choose|k: int| 0 <= k < p.len() && p[k] == wanted[i];
        assert(m[k] == wanted[i]);
    }
}

// ── Search-index backfill ────────────────────────────────────────────────────

/// The positions of the stored messages (`(id, plain text)`, in store order) that
/// the search index is backfilled with: those not yet indexed whose text is not
/// blank.
pub open spec fn pending_of(indexed: Seq<Seq<char>>, messages: Seq<(Seq<char>, Seq<char>)>) -> Seq<int>
    decreases messages.len(),
{
    if messages.len() == 0 {
        seq![]
    } else {
        let rest = pending_of(indexed, messages.drop_last());
        let m = messages.last();
        if !indexed.contains(m.0) && trim_ws(m.1).len() > 0 {
            rest.push(messages.len() - 1)
        } else {
            rest
        }
    }
}

pub open spec fn pairs_view(v: Seq<(String, String)>) -> Seq<(Seq<char>, Seq<char>)> {
    v.map_values(|p: (String, String)| (p.0@, p.1@))
}

/// See `pending_of`.
pub fn backfill_pending(indexed: &Vec<String>, messages: &Vec<(String, String)>) -> (r: Vec<usize>)
    ensures
        r@.map_values(|i: usize| i as int) == pending_of(strs(indexed@), pairs_view(messages@)),
{
    let mut out: Vec<usize> = Vec::new();
    let mut i: usize = 0;
    while i < messages.len()
        invariant
            i <= messages.len(),
            out@.map_values(|k: usize| k as int) == pending_of(
                strs(indexed@),
                pairs_view(messages@).take(i as int),
            ),
        decreases messages.len() - i,
    {
        proof {
            assert(pairs_view(messages@).take(i + 1).drop_last() =~= pairs_view(messages@).take(
                i as int,
            ));
            assert(pairs_view(messages@).take(i + 1).last() == (
                messages@[i as int].0@,
                messages@[i as int].1@,
            ));
        }
        let blank = trimmed(&chars_of(messages[i].1.as_str()), CharClass::Whitespace).len() == 0;
        if !contains_text(indexed, &messages[i].0) && !blank {
            let ghost before = out@;
            out.push(i);
            proof {
                assert(out@.map_values(|k: usize| k as int) =~= before.map_values(
                    |k: usize| k as int,
                ).push(i as int));
            }
        }
        i = i + 1;
    }
    proof {
        assert(pairs_view(messages@).take(messages.len() as int) =~= pairs_view(messages@));
    }
    out
}

/// After this many embedding failures in a row a remote backfill gives up (the
/// embedder is likely down; the next search retries).
pub const MAX_CONSECUTIVE_EMBED_FAILURES: u32 = 3;

/// The failure count after one embedding: reset by a success, one up on a failure.
pub open spec fn after_embed(failures: nat, embedded: bool) -> nat {
    if embedded {
        0
    } else {
        failures + 1
    }
}

/// How many messages a remote backfill tries when the embedder would answer
/// `outcomes` in turn (success or failure), starting with `failures` failures in
/// a row: it stops at the end or once three failures in a row are reached.
pub open spec fn embeds_tried(failures: nat, outcomes: Seq<bool>) -> nat
    decreases outcomes.len(),
{
    if outcomes.len() == 0 || failures >= MAX_CONSECUTIVE_EMBED_FAILURES {
        0
    } else {
        1 + embeds_tried(after_embed(failures, outcomes[0]), outcomes.drop_first())
    }
}

/// A remote backfill in progress.
pub struct RemoteBackfill {
    pub consecutive_failures: u32,
}

impl RemoteBackfill {
    pub fn new() -> (r: RemoteBackfill)
        ensures
            r.consecutive_failures == 0,
    {
        RemoteBackfill { consecutive_failures: 0 }
    }

    /// Whether the next message is tried.
    pub fn should_continue(&self) -> (r: bool)
        ensures
            r == (self.consecutive_failures < MAX_CONSECUTIVE_EMBED_FAILURES),
    {
        self.consecutive_failures < MAX_CONSECUTIVE_EMBED_FAILURES
    }

    /// Record one embedding's outcome.
    pub fn record(&mut self, embedded: bool)
        requires
            old(self).consecutive_failures < MAX_CONSECUTIVE_EMBED_FAILURES,
        ensures
            final(self).consecutive_failures as nat == after_embed(
                old(self).consecutive_failures as nat,
                embedded,
            ),
    {
        if embedded {
            self.consecutive_failures = 0;
        } else {
            self.consecutive_failures = self.consecutive_failures + 1;
        }
    }
}

/// A remote backfill gives up after three failures in a row: when the first three
/// embeddings fail it tries exactly three messages, however many are left; and a
/// success resets the count, so it never gives up while embeddings succeed.
pub proof fn lemma_backfill_gives_up_after_three_failures(outcomes: Seq<bool>)
    ensures
        outcomes.len() >= 3 && !outcomes[0] && !outcomes[1] && !outcomes[2] ==> embeds_tried(
            0,
            outcomes,
        ) == 3,
        (forall|i: int| 0 <= i < outcomes.len() ==> #[trigger] outcomes[i]) ==> embeds_tried(
            0,
            outcomes,
        ) == outcomes.len(),
    decreases outcomes.len(),
{
    if outcomes.len() >= 3 && !outcomes[0] && !outcomes[1] && !outcomes[2] {
        let o1 = outcomes.drop_first();
        let o2 = o1.drop_first();
        let o3 = o2.drop_first();
        assert(o1[0] == outcomes[1]);
        assert(o2[0] == outcomes[2]);
        assert(embeds_tried(3, o3) == 0);
        assert(embeds_tried(2, o2) == 1);
        assert(embeds_tried(1, o1) == 2);
    }
    if (forall|i: int| 0 <= i < outcomes.len() ==> #[trigger] outcomes[i]) && outcomes.len() > 0 {
        let rest = outcomes.drop_first();
        assert(outcomes[0]);
        assert forall|i: int| 0 <= i < rest.len() implies #[trigger] rest[i] by {
            assert(rest[i] == outcomes[i + 1]);
        }
        lemma_backfill_gives_up_after_three_failures(rest);
    }
}

// ── Search hits ──────────────────────────────────────────────────────────────

/// The positions of the hits whose message is still stored (`Some` text, read
/// back for each hit in rank order): a hit whose message was deleted out from
/// under the index is dropped.
pub open spec fn surviving_of(stored: Seq<Option<String>>) -> Seq<int>
    decreases stored.len(),
{
    if stored.len() == 0 {
        seq![]
    } else if stored.last() is Some {
        surviving_of(stored.drop_last()).push(stored.len() - 1)
    } else {
        surviving_of(stored.drop_last())
    }
}

/// See `surviving_of`.
pub fn surviving_hits(stored: &Vec<Option<String>>) -> (r: Vec<usize>)
    ensures
        r@.map_values(|i: usize| i as int) == surviving_of(stored@),
{
    let mut out: Vec<usize> = Vec::new();
    let mut i: usize = 0;
    while i < stored.len()
        invariant
            i <= stored.len(),
            out@.map_values(|k: usize| k as int) == surviving_of(stored@.take(i as int)),
        decreases stored.len() - i,
    {
        proof {
            assert(stored@.take(i + 1).drop_last() =~= stored@.take(i as int));
            assert(stored@.take(i + 1).last() == stored@[i as int]);
        }
        if stored[i].is_some() {
            let ghost before = out@;
            out.push(i);
            proof {
                assert(out@.map_values(|k: usize| k as int) =~= before.map_values(
                    |k: usize| k as int,
                ).push(i as int));
            }
        }
        i = i + 1;
    }
    proof {
        assert(stored@.take(stored.len() as int) =~= stored@);
    }
    out
}

// ── Recent messages ──────────────────────────────────────────────────────────

/// A message as the recent-messages read gives it: its text, author and time,
/// with no render parts and no place in a version tree.
pub open spec fn as_recent(m: MsgV) -> MsgV {
    MsgV {
        parts: None,
        parent: None,
        sibling_index: 0,
        sibling_count: 1,
        sibling_ids: seq![],
        ..m
    }
}

/// The newest `limit` messages of a conversation (given in creation order),
/// oldest first.
pub open spec fn recent_of(all: Seq<MsgV>, limit: int) -> Seq<MsgV> {
    let n = if limit < all.len() {
        limit
    } else {
        all.len() as int
    };
    all.skip(all.len() - n).map_values(|m: MsgV| as_recent(m))
}

/// See `recent_of`.
pub fn recent_messages(all: &Vec<StoredMessage>, limit: usize) -> (r: Vec<StoredMessage>)
    ensures
        msgs_view(r@) == recent_of(msgs_view(all@), limit as int),
{
    let start: usize = if limit < all.len() {
        all.len() - limit
    } else {
        0
    };
    let mut out: Vec<StoredMessage> = Vec::new();
    let mut i: usize = start;
    while i < all.len()
        invariant
            start <= i <= all.len(),
            start == if limit < all.len() { all.len() - limit } else { 0 },
            msgs_view(out@) == msgs_view(all@).subrange(start as int, i as int).map_values(
                |m: MsgV| as_recent(m),
            ),
        decreases all.len() - i,
    {
        let m = &all[i];
        let copy = StoredMessage {
            id: m.id.clone(),
            role: m.role.clone(),
            content: m.content.clone(),
            agent_id: clone_opt(&m.agent_id),
            author_user_id: clone_opt(&m.author_user_id),
            author_name: clone_opt(&m.author_name),
            parts: None,
            parent_message_id: None,
            sibling_index: 0,
            sibling_count: 1,
            sibling_ids: Vec::new(),
            created_at: m.created_at,
        };
        let ghost before = out@;
        out.push(copy);
        proof {
            assert(strs(copy.sibling_ids@) =~= Seq::<Seq<char>>::empty());
            assert(msg_view(copy) == as_recent(msg_view(all@[i as int])));
            assert(msgs_view(out@) =~= msgs_view(before).push(msg_view(copy)));
            assert(msgs_view(all@).subrange(start as int, i + 1).map_values(|m: MsgV| as_recent(m))
                =~= msgs_view(all@).subrange(start as int, i as int).map_values(
                |m: MsgV| as_recent(m),
            ).push(as_recent(msgs_view(all@)[i as int])));
        }
        i = i + 1;
    }
    proof {
        assert(msgs_view(all@).subrange(start as int, all.len() as int) =~= msgs_view(all@).skip(
            start as int,
        ));
    }
    out
}

// ── Clearing one user's conversations ────────────────────────────────────────

/// The ids of the conversations owned by `owner`, in row order.
pub open spec fn owned_ids(rows: Seq<RowAccess>, owner: Seq<char>) -> Seq<Seq<char>>
    decreases rows.len(),
{
    if rows.len() == 0 {
        seq![]
    } else if opt_string_view(rows.last().owner_user_id) == Some(owner) {
        owned_ids(rows.drop_last(), owner).push(rows.last().id@)
    } else {
        owned_ids(rows.drop_last(), owner)
    }
}

/// The conversations a per-user clear removes (with their messages, sessions and
/// side entries): exactly those the user owns, never another user's or an
/// unowned one.
pub fn conversations_owned_by(rows: &Vec<RowAccess>, owner: &str) -> (r: Vec<String>)
    ensures
        strs(r@) == owned_ids(rows@, owner@),
{
    let mut out: Vec<String> = Vec::new();
    let mut i: usize = 0;
    while i < rows.len()
        invariant
            i <= rows.len(),
            strs(out@) == owned_ids(rows@.take(i as int), owner@),
        decreases rows.len() - i,
    {
        proof {
            assert(rows@.take(i + 1).drop_last() =~= rows@.take(i as int));
            assert(rows@.take(i + 1).last() == rows@[i as int]);
        }
        let owned = match &rows[i].owner_user_id {
            Some(o) => eq_chars(&chars_of(o.as_str()), &chars_of(owner)),
            None => false,
        };
        if owned {
            let ghost before = out@;
            out.push(rows[i].id.clone());
            proof {
                assert(strs(out@) =~= strs(before).push(rows@[i as int].id@));
            }
        }
        i = i + 1;
    }
    proof {
        assert(rows@.take(rows.len() as int) =~= rows@);
    }
    out
}

} // verus!
