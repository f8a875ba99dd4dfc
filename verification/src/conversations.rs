//! The conversation store's own logic: who a row belongs to and how an upsert
//! treats an existing row, the message version tree (active path, sibling pager,
//! edits, regenerations, version switches), turn pairing for feedback, forks,
//! participants, and session status.
use vstd::prelude::*;
use crate::runnable::RunnableKind;
use crate::text::{chars_of, clone_strings, eq_chars, strs};

verus! {

// ── Tenancy ──────────────────────────────────────────────────────────────────

pub open spec fn opt_str_view(o: Option<&str>) -> Option<Seq<char>> {
    match o {
        Some(s) => Some(s@),
        None => None,
    }
}

pub open spec fn opt_string_view(o: Option<String>) -> Option<Seq<char>> {
    match o {
        Some(s) => Some(s@),
        None => None,
    }
}

/// The principal a conversation row is created with.
#[derive(Debug, Clone, PartialEq, Eq)]
pub enum Tenancy {
    /// Attribute the new row to this principal.
    Owned { user_id: String, org_id: Option<String> },
    /// No principal: an unbound personal node, or a write into a row that
    /// already exists (whose owner the upsert preserves).
    Unattributed,
}

/// The `(owner_user_id, org_id)` pair a tenancy writes.
pub open spec fn tenancy_parts(t: Tenancy) -> (Option<Seq<char>>, Option<Seq<char>>) {
    match t {
        Tenancy::Owned { user_id, org_id } => (Some(user_id@), opt_string_view(org_id)),
        Tenancy::Unattributed => (None, None),
    }
}

/// The pair `owned_by` lowers `(user, org)` to: an absent user collapses the whole
/// pair, so an org without a user is never written.
pub open spec fn owned_by_parts(
    user_id: Option<Seq<char>>,
    org_id: Option<Seq<char>>,
) -> (Option<Seq<char>>, Option<Seq<char>>) {
    match user_id {
        Some(u) => (Some(u), org_id),
        None => (None, None),
    }
}

impl Tenancy {
    /// The `(owner_user_id, org_id)` column pair this tenancy writes.
    pub fn parts(&self) -> (r: (Option<&str>, Option<&str>))
        ensures
            (opt_str_view(r.0), opt_str_view(r.1)) == tenancy_parts(*self),
    {
        match self {
            Tenancy::Owned { user_id, org_id } => {
                let o: Option<&str> = match org_id {
                    Some(s) => Some(s.as_str()),
                    None => None,
                };
                (Some(user_id.as_str()), o)
            },
            Tenancy::Unattributed => (None, None),
        }
    }

    /// Attribute to `user_id` unless it is absent, in which case the row is
    /// unattributed.
    pub fn owned_by(user_id: Option<&str>, org_id: Option<&str>) -> (r: Tenancy)
        ensures
            tenancy_parts(r) == owned_by_parts(opt_str_view(user_id), opt_str_view(org_id)),
            r is Unattributed <==> user_id is None,
    {
        match user_id {
            Some(uid) => Tenancy::Owned {
                user_id: uid.to_owned(),
                org_id: match org_id {
                    Some(o) => Some(o.to_owned()),
                    None => None,
                },
            },
            None => Tenancy::Unattributed,
        }
    }
}

/// Lowering a tenancy to its parts and back through `owned_by` gives the same
/// parts: the round trip never invents or drops attribution.
pub proof fn lemma_owned_by_inverts_parts(t: Tenancy)
    ensures
        owned_by_parts(tenancy_parts(t).0, tenancy_parts(t).1) == tenancy_parts(t),
{
}

/// The caller context a tenancy-filtered listing is evaluated against.
pub struct TenancyFilter {
    /// Whether this node is bound to an org; an unbound node filters nothing.
    pub node_bound: bool,
    /// The verified caller's user id, `None` for an anonymous caller.
    pub owner_user_id: Option<String>,
    /// The caller's org.
    pub org_id: Option<String>,
}

impl TenancyFilter {
    /// The in-process, full-trust filter: every row on the node.
    pub fn unrestricted() -> (r: TenancyFilter)
        ensures
            !r.node_bound,
            r.owner_user_id is None,
            r.org_id is None,
    {
        TenancyFilter { node_bound: false, owner_user_id: None, org_id: None }
    }

    /// The `:bound` query flag: 1 on an org-bound node, else 0.
    pub fn bound_flag(&self) -> (r: i64)
        ensures
            r == (if self.node_bound {
                1int
            } else {
                0int
            }),
    {
        if self.node_bound {
            1
        } else {
            0
        }
    }
}

/// What the visibility rule reads of a conversation row.
pub struct RowAccess {
    pub id: String,
    pub owner_user_id: Option<String>,
    pub org_id: Option<String>,
    /// `private`, `team` or `org`.
    pub visibility: String,
}

/// Whether a caller sees a row: everything on an unbound node; on a bound node
/// a signed-in caller sees the rows they own, and, when they have an org, the
/// rows of that org shared with the org or a team. Nothing matches an absent
/// value (SQL `NULL`).
pub open spec fn visible_to(
    node_bound: bool,
    caller: Option<Seq<char>>,
    caller_org: Option<Seq<char>>,
    owner: Option<Seq<char>>,
    org: Option<Seq<char>>,
    visibility: Seq<char>,
) -> bool {
    ||| !node_bound
    ||| (caller is Some && owner == caller)
    ||| (caller is Some && caller_org is Some && org == caller_org && (visibility == "org"@
        || visibility == "team"@))
}

pub open spec fn row_visible(f: TenancyFilter, r: RowAccess) -> bool {
    visible_to(
        f.node_bound,
        opt_string_view(f.owner_user_id),
        opt_string_view(f.org_id),
        opt_string_view(r.owner_user_id),
        opt_string_view(r.org_id),
        r.visibility@,
    )
}

fn opt_eq(a: &Option<String>, b: &Option<String>) -> (r: bool)
    requires
        a is Some,
    ensures
        r == (opt_string_view(*a) == opt_string_view(*b)),
{
    match (a, b) {
        (Some(x), Some(y)) => eq_chars(&chars_of(x.as_str()), &chars_of(y.as_str())),
        _ => false,
    }
}

/// See `visible_to`.
pub fn is_visible(filter: &TenancyFilter, row: &RowAccess) -> (r: bool)
    ensures
        r == row_visible(*filter, *row),
{
    if !filter.node_bound {
        return true;
    }
    if filter.owner_user_id.is_none() {
        return false;
    }
    if opt_eq(&filter.owner_user_id, &row.owner_user_id) {
        return true;
    }
    if filter.org_id.is_none() {
        return false;
    }
    proof {
        reveal_strlit("org");
        reveal_strlit("team");
    }
    let v = chars_of(row.visibility.as_str());
    opt_eq(&filter.org_id, &row.org_id) && (eq_chars(&v, &chars_of("org")) || eq_chars(
        &v,
        &chars_of("team"),
    ))
}

/// The ids of the rows a caller sees, in row order.
pub open spec fn visible_ids(f: TenancyFilter, rows: Seq<RowAccess>) -> Seq<Seq<char>>
    decreases rows.len(),
{
    if rows.len() == 0 {
        seq![]
    } else if row_visible(f, rows.last()) {
        visible_ids(f, rows.drop_last()).push(rows.last().id@)
    } else {
        visible_ids(f, rows.drop_last())
    }
}

/// The conversations a caller sees (see `visible_to`).
pub fn visible_conversation_ids(filter: &TenancyFilter, rows: &Vec<RowAccess>) -> (r: Vec<String>)
    ensures
        strs(r@) == visible_ids(*filter, rows@),
{
    let mut out: Vec<String> = Vec::new();
    let mut i: usize = 0;
    while i < rows.len()
        invariant
            i <= rows.len(),
            strs(out@) == visible_ids(*filter, rows@.take(i as int)),
        decreases rows.len() - i,
    {
        proof {
            assert(rows@.take(i + 1).drop_last() =~= rows@.take(i as int));
        }
        if is_visible(filter, &rows[i]) {
            let ghost before = out@;
            out.push(rows[i].id.clone());
            proof {
                assert(strs(out@) =~= strs(before).push(rows@[i as int].id@));
            }
        }
        i = i + 1;
    }
    proof {
        assert(rows@.take(rows.len() as int) =~= rows@);
    }
    out
}

/// The visibility rule's guarantees: the full-trust filter sees every row; on a
/// bound node an anonymous caller sees none; an owner always sees their own
/// rows; a private row is seen on a bound node by its owner alone.
pub proof fn lemma_visibility_laws(
    node_bound: bool,
    caller: Option<Seq<char>>,
    caller_org: Option<Seq<char>>,
    owner: Option<Seq<char>>,
    org: Option<Seq<char>>,
    visibility: Seq<char>,
)
    ensures
        visible_to(false, caller, caller_org, owner, org, visibility),
        caller is None ==> !visible_to(true, caller, caller_org, owner, org, visibility),
        caller is Some && owner == caller ==> visible_to(node_bound, caller, caller_org, owner, org, visibility),
        visibility == "private"@ && visible_to(true, caller, caller_org, owner, org, visibility)
            ==> caller is Some && owner == caller,
{
    reveal_strlit("private");
    reveal_strlit("org");
    reveal_strlit("team");
    if visibility == "private"@ {
        assert(visibility != "org"@) by {
            assert(visibility.len() != "org"@.len());
        }
        assert(visibility != "team"@) by {
            assert(visibility.len() != "team"@.len());
        }
    }
}

/// On an unbound (personal) node every caller lists every conversation: the ids
/// seen are exactly all the rows' ids, in row order.
pub proof fn lemma_unbound_node_lists_every_id(f: TenancyFilter, rows: Seq<RowAccess>)
    requires
        !f.node_bound,
    ensures
        visible_ids(f, rows) == rows.map_values(|r: RowAccess| r.id@),
    decreases rows.len(),
{
    if rows.len() > 0 {
        lemma_unbound_node_lists_every_id(f, rows.drop_last());
        assert(rows.map_values(|r: RowAccess| r.id@) =~= rows.drop_last().map_values(
            |r: RowAccess| r.id@,
        ).push(rows.last().id@));
    } else {
        assert(rows.map_values(|r: RowAccess| r.id@) =~= Seq::<Seq<char>>::empty());
    }
}

/// The last-writer-wins metadata a sync replay carries.
pub struct SyncedMeta {
    pub title: Option<String>,
    pub agent_id: Option<String>,
    pub folder_path: Option<String>,
    pub branch: Option<String>,
    pub worktree_path: Option<String>,
    pub run_status: Option<String>,
    /// Unix milliseconds.
    pub updated_at: i64,
}

pub ghost struct SyncedMetaV {
    pub title: Option<Seq<char>>,
    pub agent_id: Option<Seq<char>>,
    pub folder_path: Option<Seq<char>>,
    pub branch: Option<Seq<char>>,
    pub worktree_path: Option<Seq<char>>,
    pub run_status: Option<Seq<char>>,
    pub updated_at: int,
}

pub open spec fn meta_view(m: SyncedMeta) -> SyncedMetaV {
    SyncedMetaV {
        title: opt_string_view(m.title),
        agent_id: opt_string_view(m.agent_id),
        folder_path: opt_string_view(m.folder_path),
        branch: opt_string_view(m.branch),
        worktree_path: opt_string_view(m.worktree_path),
        run_status: opt_string_view(m.run_status),
        updated_at: m.updated_at as int,
    }
}

/// A replayed update applies only when it is strictly newer than the stored row;
/// then each field it carries replaces the stored one and the row takes its time.
/// An update of the same time or older changes nothing.
pub open spec fn merged_meta(stored: SyncedMetaV, incoming: SyncedMetaV) -> SyncedMetaV {
    if stored.updated_at < incoming.updated_at {
        SyncedMetaV {
            title: coalesce(incoming.title, stored.title),
            agent_id: coalesce(incoming.agent_id, stored.agent_id),
            folder_path: coalesce(incoming.folder_path, stored.folder_path),
            branch: coalesce(incoming.branch, stored.branch),
            worktree_path: coalesce(incoming.worktree_path, stored.worktree_path),
            run_status: coalesce(incoming.run_status, stored.run_status),
            updated_at: incoming.updated_at,
        }
    } else {
        stored
    }
}

/// Apply a replayed metadata update (see `merged_meta`).
pub fn update_metadata_if_newer(stored: SyncedMeta, incoming: SyncedMeta) -> (r: SyncedMeta)
    ensures
        meta_view(r) == merged_meta(meta_view(stored), meta_view(incoming)),
{
    if stored.updated_at < incoming.updated_at {
        SyncedMeta {
            title: coalesce_opt(incoming.title, stored.title),
            agent_id: coalesce_opt(incoming.agent_id, stored.agent_id),
            folder_path: coalesce_opt(incoming.folder_path, stored.folder_path),
            branch: coalesce_opt(incoming.branch, stored.branch),
            worktree_path: coalesce_opt(incoming.worktree_path, stored.worktree_path),
            run_status: coalesce_opt(incoming.run_status, stored.run_status),
            updated_at: incoming.updated_at,
        }
    } else {
        stored
    }
}

/// Last writer wins: a replay never moves a row's time backwards, a replay that
/// is not strictly newer changes nothing, and replaying the same update twice is
/// the same as once.
pub proof fn lemma_last_writer_wins(stored: SyncedMetaV, incoming: SyncedMetaV)
    ensures
        merged_meta(stored, incoming).updated_at >= stored.updated_at,
        incoming.updated_at <= stored.updated_at ==> merged_meta(stored, incoming) == stored,
        merged_meta(merged_meta(stored, incoming), incoming) == merged_meta(stored, incoming),
{
}

pub open spec fn existing_view(o: Option<ConversationRow>) -> Option<RowV> {
    match o {
        Some(e) => Some(row_view(e)),
        None => None,
    }
}

/// The row a claim leaves: the caller becomes the owner of a new row (or of one
/// nobody owns yet); an owned row keeps its owner (see `upserted_row`).
pub fn claim_tenancy_row(
    existing: Option<ConversationRow>,
    now: i64,
    owner_user_id: &str,
    org_id: Option<&str>,
) -> (r: ConversationRow)
    ensures
        exists|t: Tenancy|
            tenancy_parts(t) == (Some(owner_user_id@), opt_str_view(org_id)) && row_view(r)
                == #[trigger] upserted_row(
                existing_view(existing),
                now as int,
                t,
                ConvRow {
                    title: None,
                    agent_id: None,
                    folder_path: None,
                    branch: None,
                    worktree_path: None,
                    participants: None,
                },
                Touch::Keep,
            ),
{
    let tenancy = Tenancy::Owned {
        user_id: owner_user_id.to_owned(),
        org_id: match org_id {
            Some(o) => Some(o.to_owned()),
            None => None,
        },
    };
    let row = ConvRow {
        title: None,
        agent_id: None,
        folder_path: None,
        branch: None,
        worktree_path: None,
        participants: None,
    };
    let ghost ev = existing_view(existing);
    let r = upsert_conversation_row(existing, now, &tenancy, &row, Touch::Keep);
    assert(row_view(r) == upserted_row(ev, now as int, tenancy, row, Touch::Keep));
    r
}

/// The one-time tenancy backfill on an org-bound node: rows created before
/// tenancy existed (no owner and no org) are attributed to the node's signed-in
/// owner and org; any row with an owner or an org is left exactly as it was.
pub open spec fn backfilled(
    owner: Option<Seq<char>>,
    org: Option<Seq<char>>,
    new_owner: Seq<char>,
    new_org: Seq<char>,
) -> (Option<Seq<char>>, Option<Seq<char>>) {
    if owner is None && org is None {
        (Some(new_owner), Some(new_org))
    } else {
        (owner, org)
    }
}

/// See `backfilled`.
pub fn backfill_row(row: &mut RowAccess, new_owner: &str, new_org: &str)
    ensures
        (opt_string_view(final(row).owner_user_id), opt_string_view(final(row).org_id))
            == backfilled(
            opt_string_view(old(row).owner_user_id),
            opt_string_view(old(row).org_id),
            new_owner@,
            new_org@,
        ),
        final(row).id@ == old(row).id@,
        final(row).visibility@ == old(row).visibility@,
{
    if row.owner_user_id.is_none() && row.org_id.is_none() {
        row.owner_user_id = Some(new_owner.to_owned());
        row.org_id = Some(new_org.to_owned());
    }
}

/// Whether the backfill runs: not yet done, on an org-bound node, with a
/// signed-in owner to attribute to (otherwise orphans stay untenanted and the
/// ACL keeps them denied).
pub fn backfill_runs(done: bool, node_org: Option<&str>, local_owner: Option<&str>) -> (r: bool)
    ensures
        r == (!done && node_org is Some && local_owner is Some),
{
    !done && node_org.is_some() && local_owner.is_some()
}

// ── The conversation-row upsert ──────────────────────────────────────────────

/// How an upsert treats `updated_at` when the row already exists.
#[derive(Clone, Copy, Debug, PartialEq, Eq, Structural)]
pub enum Touch {
    /// Leave it (not a new turn).
    Keep,
    /// Set it to the supplied time (a new turn).
    Bump,
    /// The later of the stored and supplied times (sync replay's clock).
    Max,
}

/// The non-tenancy columns a creation path may seed (the title already sealed).
pub struct ConvRow {
    pub title: Option<String>,
    pub agent_id: Option<String>,
    pub folder_path: Option<String>,
    pub branch: Option<String>,
    pub worktree_path: Option<String>,
    /// JSON array text of participant agent ids.
    pub participants: Option<String>,
}

/// The columns of a conversation row that the upsert writes.
pub struct ConversationRow {
    pub title: Option<String>,
    pub agent_id: Option<String>,
    /// Unix milliseconds.
    pub created_at: i64,
    /// Unix milliseconds.
    pub updated_at: i64,
    pub folder_path: Option<String>,
    pub branch: Option<String>,
    pub worktree_path: Option<String>,
    /// JSON array text of participant agent ids (never null).
    pub participants: String,
    pub owner_user_id: Option<String>,
    pub org_id: Option<String>,
    /// Who besides the owner sees the conversation: `private`, `team` or `org`.
    pub visibility: String,
}

/// A conversation row, as a value.
pub ghost struct RowV {
    pub title: Option<Seq<char>>,
    pub agent_id: Option<Seq<char>>,
    pub created_at: int,
    pub updated_at: int,
    pub folder_path: Option<Seq<char>>,
    pub branch: Option<Seq<char>>,
    pub worktree_path: Option<Seq<char>>,
    pub participants: Seq<char>,
    pub owner_user_id: Option<Seq<char>>,
    pub org_id: Option<Seq<char>>,
    pub visibility: Seq<char>,
}

pub open spec fn row_view(r: ConversationRow) -> RowV {
    RowV {
        title: opt_string_view(r.title),
        agent_id: opt_string_view(r.agent_id),
        created_at: r.created_at as int,
        updated_at: r.updated_at as int,
        folder_path: opt_string_view(r.folder_path),
        branch: opt_string_view(r.branch),
        worktree_path: opt_string_view(r.worktree_path),
        participants: r.participants@,
        owner_user_id: opt_string_view(r.owner_user_id),
        org_id: opt_string_view(r.org_id),
        visibility: r.visibility@,
    }
}

/// SQL `COALESCE(a, b)`.
pub open spec fn coalesce(a: Option<Seq<char>>, b: Option<Seq<char>>) -> Option<Seq<char>> {
    match a {
        Some(x) => Some(x),
        None => b,
    }
}

/// The row an upsert leaves. A new row is born with every seeded column, its
/// participants defaulting to `[]`, the tenancy's owner and org, and `private`
/// visibility. On an
/// existing row every column keeps its stored value when it has one (the agent id
/// is the one the new write wins), `updated_at` follows `touch`, and the owner and
/// org are never replaced: a claimed row cannot be wiped or re-tenanted.
pub open spec fn upserted_row(
    existing: Option<RowV>,
    now: int,
    tenancy: Tenancy,
    row: ConvRow,
    touch: Touch,
) -> RowV {
    let owner = tenancy_parts(tenancy).0;
    let org = tenancy_parts(tenancy).1;
    let participants = match row.participants {
        Some(p) => p@,
        None => "[]"@,
    };
    match existing {
        None => RowV {
            title: opt_string_view(row.title),
            agent_id: opt_string_view(row.agent_id),
            created_at: now,
            updated_at: now,
            folder_path: opt_string_view(row.folder_path),
            branch: opt_string_view(row.branch),
            worktree_path: opt_string_view(row.worktree_path),
            participants,
            owner_user_id: owner,
            org_id: org,
            visibility: "private"@,
        },
        Some(e) => RowV {
            title: coalesce(e.title, opt_string_view(row.title)),
            agent_id: coalesce(opt_string_view(row.agent_id), e.agent_id),
            created_at: e.created_at,
            updated_at: match touch {
                Touch::Keep => e.updated_at,
                Touch::Bump => now,
                Touch::Max => if e.updated_at >= now {
                    e.updated_at
                } else {
                    now
                },
            },
            folder_path: coalesce(e.folder_path, opt_string_view(row.folder_path)),
            branch: coalesce(e.branch, opt_string_view(row.branch)),
            worktree_path: coalesce(e.worktree_path, opt_string_view(row.worktree_path)),
            participants: e.participants,
            owner_user_id: coalesce(e.owner_user_id, owner),
            org_id: coalesce(e.org_id, org),
            visibility: e.visibility,
        },
    }
}

fn coalesce_opt(a: Option<String>, b: Option<String>) -> (r: Option<String>)
    ensures
        opt_string_view(r) == coalesce(opt_string_view(a), opt_string_view(b)),
{
    match a {
        Some(x) => Some(x),
        None => b,
    }
}

pub(crate) fn clone_opt(a: &Option<String>) -> (r: Option<String>)
    ensures
        opt_string_view(r) == opt_string_view(*a),
{
    match a {
        Some(x) => Some(x.clone()),
        None => None,
    }
}

fn opt_to_owned(a: Option<&str>) -> (r: Option<String>)
    ensures
        opt_string_view(r) == opt_str_view(a),
{
    match a {
        Some(x) => Some(x.to_owned()),
        None => None,
    }
}

/// The one conversation-row upsert every creation path goes through: given the
/// stored row (if any), the row it leaves. See `upserted_row`.
pub fn upsert_conversation_row(
    existing: Option<ConversationRow>,
    now: i64,
    tenancy: &Tenancy,
    row: &ConvRow,
    touch: Touch,
) -> (r: ConversationRow)
    ensures
        row_view(r) == upserted_row(
            match existing {
                Some(e) => Some(row_view(e)),
                None => None,
            },
            now as int,
            *tenancy,
            *row,
            touch,
        ),
{
    let (owner, org) = tenancy.parts();
    match existing {
        None => ConversationRow {
            title: clone_opt(&row.title),
            agent_id: clone_opt(&row.agent_id),
            created_at: now,
            updated_at: now,
            folder_path: clone_opt(&row.folder_path),
            branch: clone_opt(&row.branch),
            worktree_path: clone_opt(&row.worktree_path),
            participants: match &row.participants {
                Some(p) => p.clone(),
                None => "[]".to_owned(),
            },
            owner_user_id: opt_to_owned(owner),
            org_id: opt_to_owned(org),
            visibility: "private".to_owned(),
        },
        Some(e) => {
            let updated_at = match touch {
                Touch::Keep => e.updated_at,
                Touch::Bump => now,
                Touch::Max => if e.updated_at >= now {
                    e.updated_at
                } else {
                    now
                },
            };
            ConversationRow {
                title: coalesce_opt(e.title, clone_opt(&row.title)),
                agent_id: coalesce_opt(clone_opt(&row.agent_id), e.agent_id),
                created_at: e.created_at,
                updated_at,
                folder_path: coalesce_opt(e.folder_path, clone_opt(&row.folder_path)),
                branch: coalesce_opt(e.branch, clone_opt(&row.branch)),
                worktree_path: coalesce_opt(e.worktree_path, clone_opt(&row.worktree_path)),
                participants: e.participants,
                owner_user_id: coalesce_opt(e.owner_user_id, opt_to_owned(owner)),
                org_id: coalesce_opt(e.org_id, opt_to_owned(org)),
                visibility: e.visibility,
            }
        },
    }
}

/// What the visibility rule reads of stored row `id`.
pub fn row_access(id: &str, row: &ConversationRow) -> (r: RowAccess)
    ensures
        r.id@ == id@,
        opt_string_view(r.owner_user_id) == opt_string_view(row.owner_user_id),
        opt_string_view(r.org_id) == opt_string_view(row.org_id),
        r.visibility@ == row.visibility@,
{
    RowAccess {
        id: id.to_owned(),
        owner_user_id: clone_opt(&row.owner_user_id),
        org_id: clone_opt(&row.org_id),
        visibility: row.visibility.clone(),
    }
}

/// Stamp on create: a brand-new row is born with the tenancy's owner and org,
/// and private.
pub proof fn lemma_upsert_stamps_new_row(now: int, tenancy: Tenancy, row: ConvRow, touch: Touch)
    ensures
        upserted_row(None, now, tenancy, row, touch).owner_user_id == tenancy_parts(tenancy).0,
        upserted_row(None, now, tenancy, row, touch).org_id == tenancy_parts(tenancy).1,
        upserted_row(None, now, tenancy, row, touch).visibility == "private"@,
{
}

/// Preserve, never clobber, first writer wins: once a row has an owner (or an
/// org), no later upsert, whatever tenancy it carries, changes it.
pub proof fn lemma_upsert_keeps_claimed_owner(
    e: RowV,
    now: int,
    tenancy: Tenancy,
    row: ConvRow,
    touch: Touch,
)
    ensures
        e.owner_user_id is Some ==> upserted_row(Some(e), now, tenancy, row, touch).owner_user_id
            == e.owner_user_id,
        e.org_id is Some ==> upserted_row(Some(e), now, tenancy, row, touch).org_id == e.org_id,
{
}

/// An unattributed write into an existing row leaves its tenancy exactly as it was,
/// owned or not.
pub proof fn lemma_unattributed_upsert_keeps_tenancy(e: RowV, now: int, row: ConvRow, touch: Touch)
    ensures
        upserted_row(Some(e), now, Tenancy::Unattributed, row, touch).owner_user_id
            == e.owner_user_id,
        upserted_row(Some(e), now, Tenancy::Unattributed, row, touch).org_id == e.org_id,
{
}

/// Two claims racing on a new id: the row ends up owned by the first claimer.
pub proof fn lemma_first_claim_wins(
    now1: int,
    now2: int,
    first: Tenancy,
    second: Tenancy,
    row1: ConvRow,
    row2: ConvRow,
    touch: Touch,
)
    requires
        first is Owned,
    ensures
        upserted_row(
            Some(upserted_row(None, now1, first, row1, Touch::Keep)),
            now2,
            second,
            row2,
            touch,
        ).owner_user_id == tenancy_parts(first).0,
{
}

// ── Titles ───────────────────────────────────────────────────────────────────

/// A conversation's title as stored: the text, whether the user chose it (which
/// locks it against auto-naming), and the row's update time (Unix milliseconds).
pub struct TitleState {
    pub title: Option<String>,
    pub custom: bool,
    pub updated_at: i64,
}

/// `(title, custom, updated_at)`.
pub type TitleV = (Option<Seq<char>>, bool, i64);

pub open spec fn title_view(s: TitleState) -> TitleV {
    (opt_string_view(s.title), s.custom, s.updated_at)
}

/// After a manual rename at `now`: the user's title, locked.
pub open spec fn renamed(title: Seq<char>, now: i64) -> TitleV {
    (Some(title), true, now)
}

/// After an auto-naming at `now`: the new title, still replaceable, unless the
/// user chose the title, which then stays exactly as it was.
pub open spec fn auto_titled(s: TitleV, title: Seq<char>, now: i64) -> TitleV {
    if s.1 {
        s
    } else {
        (Some(title), false, now)
    }
}

/// After a run of auto-namings, each a title and a time, in order.
pub open spec fn auto_titled_all(s: TitleV, names: Seq<(Seq<char>, i64)>) -> TitleV
    decreases names.len(),
{
    if names.len() == 0 {
        s
    } else {
        auto_titled_all(auto_titled(s, names[0].0, names[0].1), names.drop_first())
    }
}

impl TitleState {
    /// A manual rename: the title becomes the user's and is locked.
    pub fn set_title(&mut self, title: &str, now: i64)
        ensures
            title_view(*final(self)) == renamed(title@, now),
    {
        self.title = Some(title.to_owned());
        self.custom = true;
        self.updated_at = now;
    }

    /// An auto-generated title, applied only when the user has not chosen one (it
    /// then stays replaceable); returns whether it was applied.
    pub fn auto_set_title(&mut self, title: &str, now: i64) -> (applied: bool)
        ensures
            applied == !old(self).custom,
            title_view(*final(self)) == auto_titled(title_view(*old(self)), title@, now),
    {
        if self.custom {
            false
        } else {
            self.title = Some(title.to_owned());
            self.updated_at = now;
            true
        }
    }
}

/// A manual rename locks the title: no auto-naming that follows, however many
/// and whatever they carry, changes it.
pub proof fn lemma_manual_title_is_never_clobbered(
    title: Seq<char>,
    now: i64,
    names: Seq<(Seq<char>, i64)>,
)
    ensures
        auto_titled_all(renamed(title, now), names) == renamed(title, now),
    decreases names.len(),
{
    if names.len() > 0 {
        lemma_manual_title_is_never_clobbered(title, now, names.drop_first());
    }
}

// ── Messages and the version tree ────────────────────────────────────────────

/// A stored chat message.
pub struct StoredMessage {
    pub id: String,
    pub role: String,
    pub content: String,
    /// The agent that produced it (none for user messages).
    pub agent_id: Option<String>,
    /// The verified human author.
    pub author_user_id: Option<String>,
    /// Display name of a group-chat sender (not trusted for auth).
    pub author_name: Option<String>,
    /// The structured render parts, as JSON text.
    pub parts: Option<String>,
    /// The message this one replies to; none for roots and flat history.
    pub parent_message_id: Option<String>,
    /// Position among the messages that share its parent, in creation order.
    pub sibling_index: usize,
    /// How many messages share its parent (itself included).
    pub sibling_count: usize,
    /// The ids of those messages when there is more than one, else empty.
    pub sibling_ids: Vec<String>,
    /// Unix milliseconds.
    pub created_at: i64,
}

/// A message, as a value.
pub ghost struct MsgV {
    pub id: Seq<char>,
    pub role: Seq<char>,
    pub content: Seq<char>,
    pub agent_id: Option<Seq<char>>,
    pub author_user_id: Option<Seq<char>>,
    pub author_name: Option<Seq<char>>,
    pub parts: Option<Seq<char>>,
    pub parent: Option<Seq<char>>,
    pub sibling_index: int,
    pub sibling_count: int,
    pub sibling_ids: Seq<Seq<char>>,
    pub created_at: int,
}

pub open spec fn msg_view(m: StoredMessage) -> MsgV {
    MsgV {
        id: m.id@,
        role: m.role@,
        content: m.content@,
        agent_id: opt_string_view(m.agent_id),
        author_user_id: opt_string_view(m.author_user_id),
        author_name: opt_string_view(m.author_name),
        parts: opt_string_view(m.parts),
        parent: opt_string_view(m.parent_message_id),
        sibling_index: m.sibling_index as int,
        sibling_count: m.sibling_count as int,
        sibling_ids: strs(m.sibling_ids@),
        created_at: m.created_at as int,
    }
}

pub open spec fn msgs_view(ms: Seq<StoredMessage>) -> Seq<MsgV> {
    ms.map_values(|m: StoredMessage| msg_view(m))
}

impl StoredMessage {
    /// A copy of this message.
    pub fn duplicate(&self) -> (r: StoredMessage)
        ensures
            msg_view(r) == msg_view(*self),
    {
        StoredMessage {
            id: self.id.clone(),
            role: self.role.clone(),
            content: self.content.clone(),
            agent_id: clone_opt(&self.agent_id),
            author_user_id: clone_opt(&self.author_user_id),
            author_name: clone_opt(&self.author_name),
            parts: clone_opt(&self.parts),
            parent_message_id: clone_opt(&self.parent_message_id),
            sibling_index: self.sibling_index,
            sibling_count: self.sibling_count,
            sibling_ids: clone_strings(&self.sibling_ids),
            created_at: self.created_at,
        }
    }
}

/// The last index below `n` whose message has id `id` (a later row with the same
/// id shadows an earlier one, as in an id-keyed map built in order).
pub open spec fn last_with_id(all: Seq<MsgV>, id: Seq<char>, n: int) -> Option<int>
    decreases n,
{
    if n <= 0 || n > all.len() {
        None
    } else if all[n - 1].id == id {
        Some(n - 1)
    } else {
        last_with_id(all, id, n - 1)
    }
}

/// `last_with_id` names a message of that id below `n`.
pub proof fn lemma_last_with_id(all: Seq<MsgV>, id: Seq<char>, n: int)
    ensures
        last_with_id(all, id, n) matches Some(k) ==> 0 <= k < n && k < all.len() && all[k].id == id,
    decreases n,
{
    if n > 0 && n <= all.len() && all[n - 1].id != id {
        lemma_last_with_id(all, id, n - 1);
    }
}

/// The parent chain from `cursor` upward (leaf first), as indices into `all`,
/// following at most `fuel` links; it stops at a root or at a parent that is not
/// in `all`.
pub open spec fn chain_from(all: Seq<MsgV>, cursor: Option<Seq<char>>, fuel: nat) -> Seq<int>
    decreases fuel,
{
    if fuel == 0 {
        seq![]
    } else {
        match cursor {
            None => seq![],
            Some(c) => match last_with_id(all, c, all.len() as int) {
                None => seq![],
                Some(k) => seq![k] + chain_from(all, all[k].parent, (fuel - 1) as nat),
            },
        }
    }
}

/// The indices of the messages whose parent is `parent`, among the first `n`, in
/// order.
pub open spec fn siblings_below(all: Seq<MsgV>, parent: Option<Seq<char>>, n: int) -> Seq<int>
    decreases n,
{
    if n <= 0 || n > all.len() {
        seq![]
    } else if all[n - 1].parent == parent {
        siblings_below(all, parent, n - 1).push(n - 1)
    } else {
        siblings_below(all, parent, n - 1)
    }
}

pub open spec fn siblings(all: Seq<MsgV>, parent: Option<Seq<char>>) -> Seq<int> {
    siblings_below(all, parent, all.len() as int)
}

/// The first position in `sibs` whose message has id `id`, or 0.
pub open spec fn sibling_position(all: Seq<MsgV>, sibs: Seq<int>, id: Seq<char>, p: int) -> int
    decreases sibs.len() - p,
{
    if p < 0 || p >= sibs.len() {
        0
    } else if all[sibs[p]].id == id {
        p
    } else {
        sibling_position(all, sibs, id, p + 1)
    }
}

/// `m` with its version-pager fields computed against `all`.
pub open spec fn annotated(all: Seq<MsgV>, m: MsgV) -> MsgV {
    let sibs = siblings(all, m.parent);
    MsgV {
        sibling_index: sibling_position(all, sibs, m.id, 0),
        sibling_count: sibs.len() as int,
        sibling_ids: if sibs.len() > 1 {
            sibs.map_values(|k: int| all[k].id)
        } else {
            seq![]
        },
        ..m
    }
}

/// The active thread: with no leaf, the flat history; otherwise the parent chain
/// from the leaf, root first, each message annotated for the version pager.
pub open spec fn active_thread(all: Seq<MsgV>, leaf: Option<Seq<char>>) -> Seq<MsgV> {
    match leaf {
        None => all,
        Some(l) => {
            let path = chain_from(all, Some(l), (all.len() + 1) as nat).reverse();
            path.map_values(|k: int| annotated(all, all[k]))
        },
    }
}

fn last_index_with_id(all: &Vec<StoredMessage>, id: &String) -> (r: Option<usize>)
    ensures
        match r {
            Some(k) => last_with_id(msgs_view(all@), id@, all.len() as int) == Some(k as int),
            None => last_with_id(msgs_view(all@), id@, all.len() as int) is None,
        },
{
    let ghost av = msgs_view(all@);
    let mut n: usize = all.len();
    while n > 0
        invariant
            n <= all.len(),
            av == msgs_view(all@),
            last_with_id(av, id@, all.len() as int) == last_with_id(av, id@, n as int),
        decreases n,
    {
        assert(av[n - 1] == msg_view(all@[n - 1]));
        if all[n - 1].id == *id {
            return Some(n - 1);
        }
        n = n - 1;
    }
    None
}

fn sibling_indices(all: &Vec<StoredMessage>, parent: &Option<String>) -> (r: Vec<usize>)
    ensures
        r@.map_values(|k: usize| k as int) == siblings(msgs_view(all@), opt_string_view(*parent)),
        forall|j: int| 0 <= j < r.len() ==> r@[j] < all.len(),
{
    let ghost av = msgs_view(all@);
    let ghost pv = opt_string_view(*parent);
    let mut out: Vec<usize> = Vec::new();
    let mut n: usize = 0;
    while n < all.len()
        invariant
            n <= all.len(),
            av == msgs_view(all@),
            pv == opt_string_view(*parent),
            out@.map_values(|k: usize| k as int) == siblings_below(av, pv, n as int),
            forall|j: int| 0 <= j < out.len() ==> out@[j] < n,
        decreases all.len() - n,
    {
        assert(av[n as int] == msg_view(all@[n as int]));
        let same = match (&all[n].parent_message_id, parent) {
            (Some(a), Some(b)) => *a == *b,
            (None, None) => true,
            _ => false,
        };
        if same {
            let ghost before = out@;
            out.push(n);
            proof {
                assert(out@.map_values(|k: usize| k as int) =~= before.map_values(
                    |k: usize| k as int,
                ).push(n as int));
            }
        }
        n = n + 1;
    }
    out
}

fn position_by_id(all: &Vec<StoredMessage>, sibs: &Vec<usize>, id: &String) -> (r: usize)
    requires
        forall|j: int| 0 <= j < sibs.len() ==> sibs@[j] < all.len(),
    ensures
        r as int == sibling_position(
            msgs_view(all@),
            sibs@.map_values(|k: usize| k as int),
            id@,
            0,
        ),
{
    let ghost av = msgs_view(all@);
    let ghost sv = sibs@.map_values(|k: usize| k as int);
    let mut p: usize = 0;
    while p < sibs.len()
        invariant
            p <= sibs.len(),
            av == msgs_view(all@),
            sv == sibs@.map_values(|k: usize| k as int),
            forall|j: int| 0 <= j < sibs.len() ==> sibs@[j] < all.len(),
            sibling_position(av, sv, id@, 0) == sibling_position(av, sv, id@, p as int),
        decreases sibs.len() - p,
    {
        let k = sibs[p];
        assert(av[k as int] == msg_view(all@[k as int]));
        if all[k].id == *id {
            return p;
        }
        p = p + 1;
    }
    0
}

fn annotate(all: &Vec<StoredMessage>, m: &mut StoredMessage)
    ensures
        msg_view(*final(m)) == annotated(msgs_view(all@), msg_view(*old(m))),
{
    let ghost av = msgs_view(all@);
    let sibs = sibling_indices(all, &m.parent_message_id);
    let ghost sv = sibs@.map_values(|k: usize| k as int);
    let idx = position_by_id(all, &sibs, &m.id);
    let count = sibs.len();
    let mut ids: Vec<String> = Vec::new();
    if count > 1 {
        let mut j: usize = 0;
        while j < count
            invariant
                j <= count,
                count == sibs.len(),
                av == msgs_view(all@),
                sv == sibs@.map_values(|k: usize| k as int),
                forall|q: int| 0 <= q < sibs.len() ==> sibs@[q] < all.len(),
                strs(ids@) == sv.take(j as int).map_values(|k: int| av[k].id),
            decreases count - j,
        {
            let k = sibs[j];
            assert(av[k as int] == msg_view(all@[k as int]));
            let ghost before = ids@;
            ids.push(all[k].id.clone());
            proof {
                assert(strs(ids@) =~= strs(before).push(av[k as int].id));
                assert(sv.take(j + 1) =~= sv.take(j as int).push(sv[j as int]));
                assert(sv.take(j + 1).map_values(|k: int| av[k].id) =~= sv.take(j as int).map_values(
                    |k: int| av[k].id,
                ).push(av[sv[j as int]].id));
            }
            j = j + 1;
        }
        proof {
            assert(sv.take(count as int) =~= sv);
        }
    }
    m.sibling_index = idx;
    m.sibling_count = count;
    m.sibling_ids = ids;
    proof {
        assert(strs(m.sibling_ids@) =~= annotated(av, msg_view(*old(m))).sibling_ids);
    }
}

/// The active thread of a conversation, given its messages in creation order and
/// its active leaf: with no leaf (a never-branched conversation) the flat history;
/// otherwise the parent chain walked up from the leaf, root first, each message
/// annotated with its sibling index, count and (when there is a choice) the
/// sibling ids. The walk follows at most `all.len() + 1` links.
pub fn active_messages(all: &Vec<StoredMessage>, leaf: Option<&str>) -> (r: Vec<StoredMessage>)
    requires
        all.len() < usize::MAX,
    ensures
        msgs_view(r@) == active_thread(msgs_view(all@), opt_str_view(leaf)),
{
    let ghost av = msgs_view(all@);
    let leaf = match leaf {
        None => {
            let mut out: Vec<StoredMessage> = Vec::new();
            let mut i: usize = 0;
            while i < all.len()
                invariant
                    i <= all.len(),
                    av == msgs_view(all@),
                    msgs_view(out@) == av.take(i as int),
                decreases all.len() - i,
            {
                let ghost before = out@;
                out.push(all[i].duplicate());
                proof {
                    assert(msgs_view(out@) =~= msgs_view(before).push(av[i as int]));
                    assert(av.take(i + 1) =~= av.take(i as int).push(av[i as int]));
                }
                i = i + 1;
            }
            proof {
                assert(av.take(all.len() as int) =~= av);
            }
            return out;
        },
        Some(l) => l,
    };
    let ghost fuel: nat = (all.len() + 1) as nat;
    // Walk up from the leaf (leaf first).
    let mut up: Vec<usize> = Vec::new();
    let mut cursor: Option<String> = Some(leaf.to_owned());
    let mut steps: usize = 0;
    let mut done = false;
    while !done && steps <= all.len()
        invariant
            steps <= all.len() + 1,
            all.len() < usize::MAX,
            av == msgs_view(all@),
            fuel == all.len() + 1,
            chain_from(av, Some(leaf@), fuel) == up@.map_values(|k: usize| k as int) + chain_from(
                av,
                opt_string_view(cursor),
                (fuel - steps) as nat,
            ),
            done ==> chain_from(av, opt_string_view(cursor), (fuel - steps) as nat) == Seq::<
                int,
            >::empty(),
            forall|j: int| 0 <= j < up.len() ==> up@[j] < all.len(),
        decreases all.len() + 1 - steps, if done { 0int } else { 1int },
    {
        match &cursor {
            None => {
                done = true;
            },
            Some(c) => {
                match last_index_with_id(all, c) {
                    None => {
                        done = true;
                    },
                    Some(k) => {
                        proof {
                            lemma_last_with_id(av, c@, all.len() as int);
                            assert(av[k as int] == msg_view(all@[k as int]));
                        }
                        let ghost before = up@;
                        let ghost cv = c@;
                        up.push(k);
                        proof {
                            assert(up@.map_values(|k: usize| k as int) =~= before.map_values(
                                |k: usize| k as int,
                            ).push(k as int));
                            assert(chain_from(av, Some(cv), (fuel - steps) as nat) == seq![k as int]
                                + chain_from(av, av[k as int].parent, (fuel - steps - 1) as nat));
                            assert(before.map_values(|k: usize| k as int).push(k as int) + chain_from(
                                av,
                                av[k as int].parent,
                                (fuel - steps - 1) as nat,
                            ) =~= before.map_values(|k: usize| k as int) + (seq![k as int]
                                + chain_from(av, av[k as int].parent, (fuel - steps - 1) as nat)));
                        }
                        cursor = clone_opt(&all[k].parent_message_id);
                        steps = steps + 1;
                    },
                }
            },
        }
    }
    let ghost upv = up@.map_values(|k: usize| k as int);
    proof {
        assert(chain_from(av, Some(leaf@), fuel) =~= upv);
    }
    // Root first, each annotated.
    let mut out: Vec<StoredMessage> = Vec::new();
    let mut j: usize = 0;
    while j < up.len()
        invariant
            j <= up.len(),
            av == msgs_view(all@),
            upv == up@.map_values(|k: usize| k as int),
            forall|q: int| 0 <= q < up.len() ==> up@[q] < all.len(),
            msgs_view(out@) == upv.reverse().take(j as int).map_values(|k: int| annotated(av, av[k])),
        decreases up.len() - j,
    {
        let k = up[up.len() - 1 - j];
        assert(av[k as int] == msg_view(all@[k as int]));
        let mut m = all[k].duplicate();
        annotate(all, &mut m);
        let ghost before = out@;
        out.push(m);
        proof {
            assert(upv.reverse()[j as int] == k as int);
            assert(msgs_view(out@) =~= msgs_view(before).push(annotated(av, av[k as int])));
            assert(upv.reverse().take(j + 1) =~= upv.reverse().take(j as int).push(k as int));
            assert(upv.reverse().take(j + 1).map_values(|k: int| annotated(av, av[k]))
                =~= upv.reverse().take(j as int).map_values(|k: int| annotated(av, av[k])).push(
                annotated(av, av[k as int]),
            ));
        }
        j = j + 1;
    }
    proof {
        assert(upv.reverse().take(up.len() as int) =~= upv.reverse());
    }
    out
}

proof fn lemma_chain_links(all: Seq<MsgV>, cursor: Option<Seq<char>>, fuel: nat)
    ensures
        ({
            let c = chain_from(all, cursor, fuel);
            &&& forall|i: int| 0 <= i < c.len() ==> 0 <= #[trigger] c[i] < all.len()
            &&& forall|i: int|
                0 <= i < c.len() - 1 ==> all[#[trigger] c[i]].parent == Some(all[c[i + 1]].id)
            &&& c.len() > 0 ==> cursor == Some(all[c[0]].id)
        }),
    decreases fuel,
{
    if fuel > 0 {
        match cursor {
            None => {},
            Some(cur) => {
                match last_with_id(all, cur, all.len() as int) {
                    None => {},
                    Some(k) => {
                        lemma_last_with_id(all, cur, all.len() as int);
                        lemma_chain_links(all, all[k].parent, (fuel - 1) as nat);
                        let rest = chain_from(all, all[k].parent, (fuel - 1) as nat);
                        let c = chain_from(all, cursor, fuel);
                        assert(c == seq![k] + rest);
                        assert forall|i: int| 0 <= i < c.len() implies 0 <= #[trigger] c[i]
                            < all.len() by {
                            if i > 0 {
                                assert(c[i] == rest[i - 1]);
                            }
                        }
                        assert forall|i: int| 0 <= i < c.len() - 1 implies all[#[trigger] c[i]].parent
                            == Some(all[c[i + 1]].id) by {
                            if i > 0 {
                                assert(c[i] == rest[i - 1]);
                                assert(c[i + 1] == rest[i]);
                            } else {
                                assert(c[1] == rest[0]);
                            }
                        }
                    },
                }
            },
        }
    }
}

proof fn lemma_siblings_below(all: Seq<MsgV>, parent: Option<Seq<char>>, n: int)
    requires
        0 <= n <= all.len(),
    ensures
        forall|j: int|
            0 <= j < siblings_below(all, parent, n).len() ==> 0 <= #[trigger] siblings_below(
                all,
                parent,
                n,
            )[j] < n,
        forall|k: int|
            0 <= k < n && all[k].parent == parent ==> siblings_below(all, parent, n).contains(k),
    decreases n,
{
    if n > 0 {
        lemma_siblings_below(all, parent, n - 1);
        let prev = siblings_below(all, parent, n - 1);
        if all[n - 1].parent == parent {
            assert(siblings_below(all, parent, n) == prev.push(n - 1));
            assert forall|k: int| 0 <= k < n && all[k].parent == parent implies siblings_below(
                all,
                parent,
                n,
            ).contains(k) by {
                if k == n - 1 {
                    assert(prev.push(n - 1)[prev.len() as int] == k);
                } else {
                    assert(0 <= k < n - 1 && all[k].parent == parent);
                    assert(prev.contains(k));
                    let w = choose|w: int| 0 <= w < prev.len() && prev[w] == k;
                    assert(prev.push(n - 1)[w] == k);
                }
            }
        }
    }
}

proof fn lemma_sibling_position(all: Seq<MsgV>, sibs: Seq<int>, id: Seq<char>, p: int, w: int)
    requires
        0 <= p <= w < sibs.len(),
        all[sibs[w]].id == id,
    ensures
        p <= sibling_position(all, sibs, id, p) <= w,
        all[sibs[sibling_position(all, sibs, id, p)]].id == id,
    decreases w - p,
{
    if all[sibs[p]].id != id {
        lemma_sibling_position(all, sibs, id, p + 1, w);
    }
}

/// The version pager of a message that belongs to `all`: its own version is one of
/// the siblings, the index is within the count, and the id list (present only when
/// there is a choice) names it at its index.
pub proof fn lemma_annotation_in_range(all: Seq<MsgV>, k: int)
    requires
        0 <= k < all.len(),
    ensures
        ({
            let a = annotated(all, all[k]);
            &&& 0 <= a.sibling_index < a.sibling_count
            &&& a.sibling_count > 1 ==> a.sibling_ids.len() == a.sibling_count
                && a.sibling_ids[a.sibling_index] == all[k].id
            &&& a.sibling_count <= 1 ==> a.sibling_ids.len() == 0
        }),
{
    let sibs = siblings(all, all[k].parent);
    lemma_siblings_below(all, all[k].parent, all.len() as int);
    assert(sibs.contains(k));
    let w = choose|w: int| 0 <= w < sibs.len() && sibs[w] == k;
    lemma_sibling_position(all, sibs, all[k].id, 0, w);
}

/// The active thread is a parent chain: each message replies to the one before
/// it, the last one is the selected leaf, and every message carries a pager
/// position within its sibling count, that count being the number of messages
/// with its parent, and its siblings' ids exactly when it has more than one. With
/// no leaf it is the flat history.
pub proof fn lemma_active_thread_is_a_chain(all: Seq<MsgV>, leaf: Option<Seq<char>>)
    ensures
        leaf is None ==> active_thread(all, leaf) == all,
        leaf matches Some(l) ==> ({
            let t = active_thread(all, leaf);
            &&& forall|j: int| 1 <= j < t.len() ==> (#[trigger] t[j]).parent == Some(t[j - 1].id)
            &&& t.len() > 0 ==> t[t.len() - 1].id == l
            &&& forall|j: int|
                0 <= j < t.len() ==> 0 <= (#[trigger] t[j]).sibling_index < t[j].sibling_count
            &&& forall|j: int|
                0 <= j < t.len() ==> (#[trigger] t[j]).sibling_count == siblings(all, t[j].parent).len()
            &&& forall|j: int|
                0 <= j < t.len() ==> ((#[trigger] t[j]).sibling_ids.len() == 0 <==> t[j].sibling_count
                    == 1)
        }),
{
    match leaf {
        None => {},
        Some(l) => {
            let c = chain_from(all, Some(l), (all.len() + 1) as nat);
            lemma_chain_links(all, Some(l), (all.len() + 1) as nat);
            let t = active_thread(all, leaf);
            let n = c.len();
            assert forall|j: int| 1 <= j < t.len() implies (#[trigger] t[j]).parent == Some(
                t[j - 1].id,
            ) by {
                assert(c.reverse()[j] == c[n - 1 - j]);
                assert(c.reverse()[j - 1] == c[n - 1 - (j - 1)]);
                assert(all[c[n - 1 - j]].parent == Some(all[c[n - 1 - j + 1]].id));
            }
            if t.len() > 0 {
                assert(c.reverse()[n - 1] == c[0]);
            }
            assert forall|j: int| 0 <= j < t.len() implies 0 <= (#[trigger] t[j]).sibling_index
                < t[j].sibling_count && t[j].sibling_count == siblings(all, t[j].parent).len() && (
            t[j].sibling_ids.len() == 0 <==> t[j].sibling_count == 1) by {
                assert(c.reverse()[j] == c[n - 1 - j]);
                lemma_annotation_in_range(all, c[n - 1 - j]);
            }
        },
    }
}

// ── Looking messages up ──────────────────────────────────────────────────────

/// The first index at or after `i` whose message has id `id`.
pub open spec fn first_with_id(all: Seq<MsgV>, id: Seq<char>, i: int) -> Option<int>
    decreases all.len() - i,
{
    if i < 0 || i >= all.len() {
        None
    } else if all[i].id == id {
        Some(i)
    } else {
        first_with_id(all, id, i + 1)
    }
}

/// `first_with_id` gives the first message of that id at or after `i`, or `None` when there is none.
pub proof fn lemma_first_with_id(all: Seq<MsgV>, id: Seq<char>, i: int)
    requires
        0 <= i,
    ensures
        first_with_id(all, id, i) matches Some(k) ==> i <= k < all.len() && all[k].id == id
            && forall|j: int| i <= j < k ==> all[j].id != id,
        first_with_id(all, id, i) is None ==> forall|j: int| i <= j < all.len() ==> all[j].id != id,
    decreases all.len() - i,
{
    if i < all.len() && all[i].id != id {
        lemma_first_with_id(all, id, i + 1);
    }
}

fn first_index_with_id(all: &Vec<StoredMessage>, id: &str) -> (r: Option<usize>)
    ensures
        r matches Some(k) ==> k < all.len(),
        match r {
            Some(k) => first_with_id(msgs_view(all@), id@, 0) == Some(k as int),
            None => first_with_id(msgs_view(all@), id@, 0) is None,
        },
{
    let ghost av = msgs_view(all@);
    let target = chars_of(id);
    let mut i: usize = 0;
    while i < all.len()
        invariant
            i <= all.len(),
            av == msgs_view(all@),
            target@ == id@,
            first_with_id(av, id@, 0) == first_with_id(av, id@, i as int),
        decreases all.len() - i,
    {
        assert(av[i as int] == msg_view(all@[i as int]));
        if eq_chars(&chars_of(all[i].id.as_str()), &target) {
            return Some(i);
        }
        i = i + 1;
    }
    None
}

fn is_role(m: &StoredMessage, role: &str) -> (r: bool)
    ensures
        r == (m.role@ == role@),
{
    eq_chars(&chars_of(m.role.as_str()), &chars_of(role))
}

// ── Feedback turn pairing ────────────────────────────────────────────────────

/// The first assistant message at or after `i` with id `id`.
pub open spec fn first_assistant_with_id(all: Seq<MsgV>, id: Seq<char>, i: int) -> Option<int>
    decreases all.len() - i,
{
    if i < 0 || i >= all.len() {
        None
    } else if all[i].id == id && all[i].role == "assistant"@ {
        Some(i)
    } else {
        first_assistant_with_id(all, id, i + 1)
    }
}

/// The last user message before index `j`.
pub open spec fn last_user_before(all: Seq<MsgV>, j: int) -> Option<int>
    decreases j,
{
    if j <= 0 || j > all.len() {
        None
    } else if all[j - 1].role == "user"@ {
        Some(j - 1)
    } else {
        last_user_before(all, j - 1)
    }
}

/// The `(user prompt, assistant reply, agent)` a vote on assistant message `id`
/// resolves to: the reply and the nearest user message before it, whatever
/// assistant messages stand between.
pub open spec fn turn_for(all: Seq<MsgV>, id: Seq<char>) -> Option<
    (Seq<char>, Seq<char>, Option<Seq<char>>),
> {
    match first_assistant_with_id(all, id, 0) {
        None => None,
        Some(a) => match last_user_before(all, a) {
            None => None,
            Some(u) => Some((all[u].content, all[a].content, all[a].agent_id)),
        },
    }
}

/// The turn a thumbs vote on an assistant message closes, given the conversation's
/// messages in creation order: the reply's text and agent, and the text of the
/// nearest preceding user message. `None` when the id names no assistant message
/// or no user message comes before it.
pub fn turn_for_assistant_message(all: &Vec<StoredMessage>, message_id: &str) -> (r: Option<
    (String, String, Option<String>),
>)
    ensures
        match r {
            Some(t) => turn_for(msgs_view(all@), message_id@) == Some(
                (t.0@, t.1@, opt_string_view(t.2)),
            ),
            None => turn_for(msgs_view(all@), message_id@) is None,
        },
{
    let ghost av = msgs_view(all@);
    let target = chars_of(message_id);
    let mut i: usize = 0;
    let mut found: Option<usize> = None;
    while i < all.len() && found.is_none()
        invariant
            i <= all.len(),
            av == msgs_view(all@),
            target@ == message_id@,
            found is None ==> first_assistant_with_id(av, message_id@, 0)
                == first_assistant_with_id(av, message_id@, i as int),
            found matches Some(a) ==> first_assistant_with_id(av, message_id@, 0) == Some(a as int)
                && a < all.len(),
        decreases all.len() - i, if found is None { 1int } else { 0int },
    {
        assert(av[i as int] == msg_view(all@[i as int]));
        if eq_chars(&chars_of(all[i].id.as_str()), &target) && is_role(&all[i], "assistant") {
            found = Some(i);
        } else {
            i = i + 1;
        }
    }
    let a = match found {
        None => return None,
        Some(a) => a,
    };
    assert(av[a as int] == msg_view(all@[a as int]));
    let mut j: usize = a;
    while j > 0
        invariant
            j <= a < all.len(),
            av == msgs_view(all@),
            last_user_before(av, a as int) == last_user_before(av, j as int),
            first_assistant_with_id(av, message_id@, 0) == Some(a as int),
        decreases j,
    {
        assert(av[j - 1] == msg_view(all@[j - 1]));
        if is_role(&all[j - 1], "user") {
            proof {
                assert(last_user_before(av, j as int) == Some((j - 1) as int));
                assert(turn_for(av, message_id@) == Some(
                    (av[j - 1].content, av[a as int].content, av[a as int].agent_id),
                ));
            }
            let asst = &all[a];
            return Some((all[j - 1].content.clone(), asst.content.clone(), clone_opt(&asst.agent_id)));
        }
        j = j - 1;
    }
    None
}

// ── Forks ────────────────────────────────────────────────────────────────────

/// How many leading messages a fork copies: all of them with no cut point, up to
/// and including the first message with id `up_to` otherwise; `None` when that
/// message is not in the conversation.
pub open spec fn fork_cut_len(all: Seq<MsgV>, up_to: Option<Seq<char>>) -> Option<int> {
    match up_to {
        None => Some(all.len() as int),
        Some(mid) => match first_with_id(all, mid, 0) {
            None => None,
            Some(k) => Some(k + 1),
        },
    }
}

/// The number of leading messages a fork copies (see `fork_cut_len`).
pub fn fork_cut(all: &Vec<StoredMessage>, up_to: Option<&str>) -> (r: Option<usize>)
    ensures
        match r {
            Some(n) => fork_cut_len(msgs_view(all@), opt_str_view(up_to)) == Some(n as int),
            None => fork_cut_len(msgs_view(all@), opt_str_view(up_to)) is None,
        },
        r matches Some(n) ==> n <= all.len(),
{
    match up_to {
        None => Some(all.len()),
        Some(mid) => {
            match first_index_with_id(all, mid) {
                None => None,
                Some(k) => {
                    proof {
                        lemma_first_with_id(msgs_view(all@), mid@, 0);
                    }
                    Some(k + 1)
                },
            }
        },
    }
}

/// The title of a fork: the source's title with ` (branch)` after it, or `Branch`
/// when the source has none.
pub fn forked_title(source_title: Option<&str>) -> (r: String)
    ensures
        r@ == match source_title {
            Some(t) => t@ + " (branch)"@,
            None => "Branch"@,
        },
{
    match source_title {
        Some(t) => {
            let mut v = chars_of(t);
            crate::text::append_chars(&mut v, &chars_of(" (branch)"));
            crate::text::string_of(&v)
        },
        None => "Branch".to_owned(),
    }
}

/// A message as a fork copies it: the same role, content, agent and time under
/// a fresh id, with no author, parts or parent (the copy is a flat history).
pub open spec fn fork_copy_of(m: MsgV, id: Seq<char>) -> MsgV {
    MsgV {
        id,
        role: m.role,
        content: m.content,
        agent_id: m.agent_id,
        author_user_id: None,
        author_name: None,
        parts: None,
        parent: None,
        sibling_index: 0,
        sibling_count: 1,
        sibling_ids: seq![],
        created_at: m.created_at,
    }
}

/// The messages a fork of `all` cut at `up_to` writes (see `fork_cut_len`):
/// each copied in order under a fresh id; `None` when the cut message is not in
/// the conversation.
pub fn fork_messages(all: &Vec<StoredMessage>, up_to: Option<&str>) -> (r: Option<
    Vec<StoredMessage>,
>)
    ensures
        match r {
            Some(copies) => {
                &&& fork_cut_len(msgs_view(all@), opt_str_view(up_to)) == Some(copies.len() as int)
                &&& forall|i: int|
                    0 <= i < copies.len() ==> msg_view(#[trigger] copies@[i]) == fork_copy_of(
                        msg_view(all@[i]),
                        copies@[i].id@,
                    ) && crate::ids::is_hyphenated_uuid(copies@[i].id@)
            },
            None => fork_cut_len(msgs_view(all@), opt_str_view(up_to)) is None,
        },
{
    let n = match fork_cut(all, up_to) {
        Some(n) => n,
        None => {
            return None;
        },
    };
    let mut out: Vec<StoredMessage> = Vec::new();
    let mut i: usize = 0;
    while i < n
        invariant
            i <= n <= all.len(),
            out.len() == i,
            forall|j: int|
                0 <= j < i ==> msg_view(#[trigger] out@[j]) == fork_copy_of(
                    msg_view(all@[j]),
                    out@[j].id@,
                ) && crate::ids::is_hyphenated_uuid(out@[j].id@),
        decreases n - i,
    {
        let m = &all[i];
        let copy = StoredMessage {
            id: crate::ids::fresh_hyphenated_uuid(),
            role: m.role.clone(),
            content: m.content.clone(),
            agent_id: clone_opt(&m.agent_id),
            author_user_id: None,
            author_name: None,
            parts: None,
            parent_message_id: None,
            sibling_index: 0,
            sibling_count: 1,
            sibling_ids: Vec::new(),
            created_at: m.created_at,
        };
        assert(strs(copy.sibling_ids@) =~= Seq::<Seq<char>>::empty());
        assert(msg_view(copy) == fork_copy_of(msg_view(all@[i as int]), copy.id@));
        out.push(copy);
        i = i + 1;
    }
    Some(out)
}

/// The seed of a fork's row: the source's title with ` (branch)` (`Branch` when
/// it has none), and its agent, folder, branch, worktree and participants.
pub open spec fn fork_seed(source: RowV) -> (Option<Seq<char>>, Option<Seq<char>>, Option<Seq<char>>, Option<Seq<char>>, Option<Seq<char>>, Seq<char>) {
    (
        Some(match source.title {
            Some(t) => t + " (branch)"@,
            None => "Branch"@,
        }),
        source.agent_id,
        source.folder_path,
        source.branch,
        source.worktree_path,
        source.participants,
    )
}

pub open spec fn conv_row_view(r: ConvRow) -> (Option<Seq<char>>, Option<Seq<char>>, Option<Seq<char>>, Option<Seq<char>>, Option<Seq<char>>, Option<Seq<char>>) {
    (
        opt_string_view(r.title),
        opt_string_view(r.agent_id),
        opt_string_view(r.folder_path),
        opt_string_view(r.branch),
        opt_string_view(r.worktree_path),
        opt_string_view(r.participants),
    )
}

/// A fork of conversation `source` (its stored row, `None` when there is none)
/// with messages `all`, cut after `up_to` (all of them when `None`), created at
/// `now` under `tenancy`: `None`, and nothing created, when the source row is
/// missing or `up_to` names none of its messages; else the new row, born from
/// the source's seed (see `fork_seed`) and owned by the forker's tenancy, not the
/// source's owner, and the copied messages (see `fork_messages`).
pub fn plan_fork(
    source: Option<&ConversationRow>,
    all: &Vec<StoredMessage>,
    up_to: Option<&str>,
    tenancy: &Tenancy,
    now: i64,
) -> (r: Option<(ConversationRow, Vec<StoredMessage>)>)
    ensures
        r is None <==> (source is None || fork_cut_len(msgs_view(all@), opt_str_view(up_to)) is None),
        r matches Some(p) ==> ({
            let s = row_view(*source.unwrap());
            let seed = fork_seed(s);
            &&& exists|c: ConvRow|
                conv_row_view(c) == (seed.0, seed.1, seed.2, seed.3, seed.4, Some(seed.5)) && row_view(
                    p.0,
                ) == #[trigger] upserted_row(None, now as int, *tenancy, c, Touch::Keep)
            &&& opt_string_view(p.0.owner_user_id) == tenancy_parts(*tenancy).0
            &&& opt_string_view(p.0.org_id) == tenancy_parts(*tenancy).1
            &&& fork_cut_len(msgs_view(all@), opt_str_view(up_to)) == Some(p.1.len() as int)
            &&& forall|i: int|
                0 <= i < p.1.len() ==> msg_view(#[trigger] p.1@[i]) == fork_copy_of(
                    msg_view(all@[i]),
                    p.1@[i].id@,
                ) && crate::ids::is_hyphenated_uuid(p.1@[i].id@)
        }),
{
    let copies = match fork_messages(all, up_to) {
        Some(c) => c,
        None => {
            return None;
        },
    };
    let src = match source {
        Some(s) => s,
        None => {
            return None;
        },
    };
    let title = match &src.title {
        Some(t) => forked_title(Some(t.as_str())),
        None => forked_title(None),
    };
    let seed = ConvRow {
        title: Some(title),
        agent_id: clone_opt(&src.agent_id),
        folder_path: clone_opt(&src.folder_path),
        branch: clone_opt(&src.branch),
        worktree_path: clone_opt(&src.worktree_path),
        participants: Some(src.participants.clone()),
    };
    let row = upsert_conversation_row(None, now, tenancy, &seed, Touch::Keep);
    proof {
        assert(conv_row_view(seed) == (
            fork_seed(row_view(*src)).0,
            fork_seed(row_view(*src)).1,
            fork_seed(row_view(*src)).2,
            fork_seed(row_view(*src)).3,
            fork_seed(row_view(*src)).4,
            Some(fork_seed(row_view(*src)).5),
        ));
    }
    Some((row, copies))
}

// ── Version-tree edits ───────────────────────────────────────────────────────

/// The parent links that turn a flat history (ids in creation order) into a spine:
/// each message's parent is its predecessor; the first stays a root.
pub fn spine_links(ids: &Vec<String>) -> (r: Vec<(String, String)>)
    ensures
        r.len() == if ids.len() == 0 {
            0
        } else {
            ids.len() - 1
        },
        forall|k: int|
            0 <= k < r.len() ==> (#[trigger] r@[k]).0@ == ids@[k]@ && r@[k].1@ == ids@[k + 1]@,
{
    let mut out: Vec<(String, String)> = Vec::new();
    if ids.len() == 0 {
        return out;
    }
    let mut k: usize = 1;
    while k < ids.len()
        invariant
            1 <= k <= ids.len(),
            out.len() == k - 1,
            forall|q: int|
                0 <= q < out.len() ==> (#[trigger] out@[q]).0@ == ids@[q]@ && out@[q].1@ == ids@[q
                    + 1]@,
        decreases ids.len() - k,
    {
        out.push((ids[k - 1].clone(), ids[k].clone()));
        k = k + 1;
    }
    out
}

/// Where an edit of message `id` attaches: the parent and agent of the edited
/// message, which must be a user message.
pub open spec fn edit_target_of(all: Seq<MsgV>, id: Seq<char>) -> Option<
    (Option<Seq<char>>, Option<Seq<char>>),
> {
    match first_with_id(all, id, 0) {
        None => None,
        Some(k) => if all[k].role == "user"@ {
            Some((all[k].parent, all[k].agent_id))
        } else {
            None
        },
    }
}

/// The parent and agent a new edited version of a user message takes (it becomes
/// a sibling of the edited message); `None` when the message is absent or is not
/// a user turn.
pub fn edit_target(all: &Vec<StoredMessage>, message_id: &str) -> (r: Option<
    (Option<String>, Option<String>),
>)
    ensures
        match r {
            Some(t) => edit_target_of(msgs_view(all@), message_id@) == Some(
                (opt_string_view(t.0), opt_string_view(t.1)),
            ),
            None => edit_target_of(msgs_view(all@), message_id@) is None,
        },
{
    match first_index_with_id(all, message_id) {
        None => None,
        Some(k) => {
            proof {
                lemma_first_with_id(msgs_view(all@), message_id@, 0);
                assert(msgs_view(all@)[k as int] == msg_view(all@[k as int]));
            }
            if is_role(&all[k], "user") {
                Some((clone_opt(&all[k].parent_message_id), clone_opt(&all[k].agent_id)))
            } else {
                None
            }
        },
    }
}

/// The new version an edit of a user message writes: a user message with the
/// new content, a sibling of the edited one (same parent, same agent).
pub open spec fn edited_version(target: (Option<Seq<char>>, Option<Seq<char>>), id: Seq<char>, content: Seq<char>, now: int) -> MsgV {
    MsgV {
        id,
        role: "user"@,
        content,
        agent_id: target.1,
        author_user_id: None,
        author_name: None,
        parts: None,
        parent: target.0,
        sibling_index: 0,
        sibling_count: 1,
        sibling_ids: seq![],
        created_at: now,
    }
}

/// Edit user message `message_id`: the new version to insert, under a fresh id
/// and stamped now (the active leaf then points at it); `None` when the message
/// is absent or is not a user turn.
pub fn edit_version(all: &Vec<StoredMessage>, message_id: &str, new_content: &str) -> (r: Option<
    StoredMessage,
>)
    ensures
        r is None <==> edit_target_of(msgs_view(all@), message_id@) is None,
        r matches Some(m) ==> crate::ids::is_hyphenated_uuid(m.id@),
        r matches Some(m) ==> exists|now: int|
            msg_view(m) == #[trigger] edited_version(
                edit_target_of(msgs_view(all@), message_id@).unwrap(),
                m.id@,
                new_content@,
                now,
            ),
{
    let (parent, agent_id) = match edit_target(all, message_id) {
        Some(t) => t,
        None => {
            return None;
        },
    };
    let ghost t = (opt_string_view(parent), opt_string_view(agent_id));
    let now = crate::ids::now_millis();
    let m = StoredMessage {
        id: crate::ids::fresh_hyphenated_uuid(),
        role: "user".to_owned(),
        content: new_content.to_owned(),
        agent_id,
        author_user_id: None,
        author_name: None,
        parts: None,
        parent_message_id: parent,
        sibling_index: 0,
        sibling_count: 1,
        sibling_ids: Vec::new(),
        created_at: now,
    };
    proof {
        reveal_strlit("user");
        assert(strs(m.sibling_ids@) =~= Seq::<Seq<char>>::empty());
        assert(msg_view(m) == edited_version(t, m.id@, new_content@, now as int));
        assert(edit_target_of(msgs_view(all@), message_id@) == Some(t));
        assert(edit_target_of(msgs_view(all@), message_id@).unwrap() == t);
        assert(exists|now: int|
            msg_view(m) == #[trigger] edited_version(
                edit_target_of(msgs_view(all@), message_id@).unwrap(),
                m.id@,
                new_content@,
                now,
            ));
    }
    Some(m)
}

proof fn lemma_siblings_below_push(all: Seq<MsgV>, m: MsgV, parent: Option<Seq<char>>, n: int)
    requires
        n <= all.len(),
    ensures
        siblings_below(all.push(m), parent, n) == siblings_below(all, parent, n),
    decreases n,
{
    if n > 0 {
        assert(all.push(m)[n - 1] == all[n - 1]);
        lemma_siblings_below_push(all, m, parent, n - 1);
    }
}

/// A message written beneath `parent` is listed last among that parent's
/// versions: the version pager of the turn grows by exactly it, earlier versions
/// keeping their order.
pub proof fn lemma_new_version_listed_last(all: Seq<MsgV>, m: MsgV)
    ensures
        siblings(all.push(m), m.parent) == siblings(all, m.parent).push(all.len() as int),
{
    lemma_siblings_below_push(all, m, m.parent, all.len() as int);
    assert(all.push(m)[all.len() as int] == m);
}

/// The message a regeneration of `id` continues from: its parent; `None` when the
/// message is absent or is a root.
pub open spec fn regenerate_parent_of(all: Seq<MsgV>, id: Seq<char>) -> Option<Seq<char>> {
    match first_with_id(all, id, 0) {
        None => None,
        Some(k) => all[k].parent,
    }
}

/// The new active leaf when an assistant message is regenerated: the turn above
/// it, so the fresh reply lands as its sibling.
pub fn regenerate_parent(all: &Vec<StoredMessage>, message_id: &str) -> (r: Option<String>)
    ensures
        opt_string_view(r) == regenerate_parent_of(msgs_view(all@), message_id@),
{
    match first_index_with_id(all, message_id) {
        None => None,
        Some(k) => {
            proof {
                lemma_first_with_id(msgs_view(all@), message_id@, 0);
                assert(msgs_view(all@)[k as int] == msg_view(all@[k as int]));
            }
            clone_opt(&all[k].parent_message_id)
        },
    }
}

/// The newest (last in creation order) child of `parent` among the first `n`.
pub open spec fn newest_child_below(all: Seq<MsgV>, parent: Seq<char>, n: int) -> Option<int>
    decreases n,
{
    if n <= 0 || n > all.len() {
        None
    } else if all[n - 1].parent == Some(parent) {
        Some(n - 1)
    } else {
        newest_child_below(all, parent, n - 1)
    }
}

/// From `cur`, follow the newest child at each step, at most `fuel` steps.
pub open spec fn descend(all: Seq<MsgV>, cur: Seq<char>, fuel: nat) -> Seq<char>
    decreases fuel,
{
    if fuel == 0 {
        cur
    } else {
        match newest_child_below(all, cur, all.len() as int) {
            None => cur,
            Some(k) => descend(all, all[k].id, (fuel - 1) as nat),
        }
    }
}

/// The leaf a version switch selects: `None` when the chosen version is not in the
/// conversation; otherwise the leaf reached from it by always following the
/// newest child (the latest continuation of that branch).
pub open spec fn selected_leaf(all: Seq<MsgV>, version: Seq<char>) -> Option<Seq<char>> {
    match first_with_id(all, version, 0) {
        None => None,
        Some(_) => Some(descend(all, version, (all.len() + 1) as nat)),
    }
}

fn newest_child(all: &Vec<StoredMessage>, parent: &String) -> (r: Option<usize>)
    ensures
        match r {
            Some(k) => newest_child_below(msgs_view(all@), parent@, all.len() as int) == Some(
                k as int,
            ) && k < all.len(),
            None => newest_child_below(msgs_view(all@), parent@, all.len() as int) is None,
        },
{
    let ghost av = msgs_view(all@);
    let mut n: usize = all.len();
    while n > 0
        invariant
            n <= all.len(),
            av == msgs_view(all@),
            newest_child_below(av, parent@, all.len() as int) == newest_child_below(
                av,
                parent@,
                n as int,
            ),
        decreases n,
    {
        assert(av[n - 1] == msg_view(all@[n - 1]));
        let is_child = match &all[n - 1].parent_message_id {
            Some(p) => *p == *parent,
            None => false,
        };
        if is_child {
            return Some(n - 1);
        }
        n = n - 1;
    }
    None
}

/// The active leaf after switching to `version_id` (see `selected_leaf`). The
/// descent follows at most `all.len() + 1` links.
pub fn select_version_leaf(all: &Vec<StoredMessage>, version_id: &str) -> (r: Option<String>)
    requires
        all.len() < usize::MAX,
    ensures
        opt_string_view(r) == selected_leaf(msgs_view(all@), version_id@),
{
    let ghost av = msgs_view(all@);
    if first_index_with_id(all, version_id).is_none() {
        return None;
    }
    let ghost fuel: nat = (all.len() + 1) as nat;
    let mut leaf = version_id.to_owned();
    let mut steps: usize = 0;
    let mut done = false;
    while !done && steps <= all.len()
        invariant
            steps <= all.len() + 1,
            all.len() < usize::MAX,
            av == msgs_view(all@),
            fuel == all.len() + 1,
            descend(av, version_id@, fuel) == descend(av, leaf@, (fuel - steps) as nat),
            done ==> descend(av, leaf@, (fuel - steps) as nat) == leaf@,
        decreases all.len() + 1 - steps, if done { 0int } else { 1int },
    {
        match newest_child(all, &leaf) {
            None => {
                done = true;
            },
            Some(k) => {
                assert(av[k as int] == msg_view(all@[k as int]));
                leaf = all[k].id.clone();
                steps = steps + 1;
            },
        }
    }
    Some(leaf)
}

// ── Participants ─────────────────────────────────────────────────────────────

/// The string array `serde_json::from_str::<Vec<String>>` reads from a text, or
/// `None` when it rejects the text.
pub uninterp spec fn json_string_array(text: Seq<char>) -> Option<Seq<Seq<char>>>;

/// `serde_json::from_str::<Vec<String>>`: the result is `json_string_array` of the
/// text (what JSON it accepts is serde_json's grammar, not restated here).
#[verifier::external_body]
fn parse_string_array(text: &str) -> (r: Option<Vec<String>>)
    ensures
        match r {
            Some(v) => json_string_array(text@) == Some(strs(v@)),
            None => json_string_array(text@) is None,
        },
{
    serde_json::from_str::<Vec<String>>(text).ok()
}

/// A lowercase hexadecimal digit.
pub open spec fn hex_digit(n: int) -> char {
    if n < 10 {
        ((48 + n) as u32) as char
    } else {
        ((87 + n) as u32) as char
    }
}

/// How `serde_json` writes one character inside a string: `"` and `\` escaped
/// with a backslash, backspace, form feed, newline, carriage return and tab as
/// `\b`, `\f`, `\n`, `\r`, `\t`, any other control below U+0020 as `\u00` and
/// two lowercase hex digits, and every other character as itself.
pub open spec fn json_char(c: char) -> Seq<char> {
    if c == '"' {
        seq!['\\', '"']
    } else if c == '\\' {
        seq!['\\', '\\']
    } else if c == '\u{8}' {
        seq!['\\', 'b']
    } else if c == '\u{c}' {
        seq!['\\', 'f']
    } else if c == '\n' {
        seq!['\\', 'n']
    } else if c == '\r' {
        seq!['\\', 'r']
    } else if c == '\t' {
        seq!['\\', 't']
    } else if (c as int) < 0x20 {
        seq!['\\', 'u', '0', '0', hex_digit((c as int) / 16), hex_digit((c as int) % 16)]
    } else {
        seq![c]
    }
}

/// A string's characters as `serde_json` writes them inside quotes.
pub open spec fn json_escaped(s: Seq<char>) -> Seq<char>
    decreases s.len(),
{
    if s.len() == 0 {
        seq![]
    } else {
        json_escaped(s.drop_last()) + json_char(s.last())
    }
}

/// The strings, each quoted and escaped, separated by commas.
pub open spec fn json_items(v: Seq<Seq<char>>) -> Seq<char>
    decreases v.len(),
{
    if v.len() == 0 {
        seq![]
    } else if v.len() == 1 {
        seq!['"'] + json_escaped(v[0]) + seq!['"']
    } else {
        json_items(v.drop_last()) + seq![','] + seq!['"'] + json_escaped(v.last()) + seq!['"']
    }
}

/// The compact JSON text `serde_json::to_string` writes for a list of strings:
/// `[`, the quoted and escaped strings separated by commas, `]`.
pub open spec fn json_of_strings(v: Seq<Seq<char>>) -> Seq<char> {
    seq!['['] + json_items(v) + seq![']']
}

/// `serde_json::to_string` on a list of strings: the compact JSON array
/// `json_of_strings` of the list (as `serde_json`'s serializer and its escape
/// table write it). It fails only where a value's `Serialize` fails or a map has
/// non-string keys, neither of which a list of strings can do, so it succeeds.
#[verifier::external_body]
fn strings_to_json(v: &Vec<String>) -> (r: Option<String>)
    ensures
        r is Some,
        r matches Some(s) ==> s@ == json_of_strings(strs(v@)),
{
    serde_json::to_string(v).ok()
}

/// The participant list a stored column holds: empty for null, empty or malformed
/// text.
pub open spec fn participants_of(json: Option<Seq<char>>) -> Seq<Seq<char>> {
    match json {
        None => seq![],
        Some(t) => if t.len() == 0 {
            seq![]
        } else {
            match json_string_array(t) {
                Some(v) => v,
                None => seq![],
            }
        },
    }
}

/// Parse the `participants` column (a JSON array of agent ids); null, empty or
/// malformed text gives an empty list.
pub fn parse_participants_json(json: Option<&str>) -> (r: Vec<String>)
    ensures
        strs(r@) == participants_of(opt_str_view(json)),
{
    match json {
        None => Vec::new(),
        Some(t) => {
            if t.unicode_len() == 0 {
                return Vec::new();
            }
            match parse_string_array(t) {
                Some(v) => v,
                None => Vec::new(),
            }
        },
    }
}

/// The `participants` column text for a list (its JSON array; `[]` stands in
/// should serialisation ever fail).
pub fn participants_json(participants: &Vec<String>) -> (r: String)
    ensures
        r@ == json_of_strings(strs(participants@)),
{
    match strings_to_json(participants) {
        Some(s) => s,
        None => "[]".to_owned(),
    }
}

/// The list with `a` added at the end unless it is already there.
pub open spec fn with_participant(ps: Seq<Seq<char>>, a: Seq<char>) -> Seq<Seq<char>> {
    if ps.contains(a) {
        ps
    } else {
        ps.push(a)
    }
}

/// The list with every occurrence of `a` removed, the rest in order.
pub open spec fn without_participant(ps: Seq<Seq<char>>, a: Seq<char>) -> Seq<Seq<char>>
    decreases ps.len(),
{
    if ps.len() == 0 {
        seq![]
    } else if ps.last() == a {
        without_participant(ps.drop_last(), a)
    } else {
        without_participant(ps.drop_last(), a).push(ps.last())
    }
}

fn string_eq_str(s: &String, t: &str) -> (r: bool)
    ensures
        r == (s@ == t@),
{
    eq_chars(&chars_of(s.as_str()), &chars_of(t))
}

/// Add an agent to a participant list; adding one already present changes
/// nothing. Returns whether the list changed.
pub fn add_participant_to(participants: &mut Vec<String>, agent_id: &str) -> (changed: bool)
    ensures
        strs(final(participants)@) == with_participant(strs(old(participants)@), agent_id@),
        changed == !strs(old(participants)@).contains(agent_id@),
{
    let ghost pv = strs(participants@);
    let mut i: usize = 0;
    while i < participants.len()
        invariant
            i <= participants.len(),
            pv == strs(participants@),
            forall|j: int| 0 <= j < i ==> pv[j] != agent_id@,
        decreases participants.len() - i,
    {
        if string_eq_str(&participants[i], agent_id) {
            assert(pv[i as int] == agent_id@);
            return false;
        }
        i = i + 1;
    }
    participants.push(agent_id.to_owned());
    proof {
        assert(strs(participants@) =~= pv.push(agent_id@));
    }
    true
}

/// Remove an agent from a participant list, keeping the others in order; removing
/// one that is absent changes nothing. Returns whether the list changed.
pub fn remove_participant_from(participants: &mut Vec<String>, agent_id: &str) -> (changed: bool)
    ensures
        strs(final(participants)@) == without_participant(strs(old(participants)@), agent_id@),
        changed == (final(participants)@.len() != old(participants)@.len()),
{
    let ghost pv = strs(participants@);
    let mut kept: Vec<String> = Vec::new();
    let mut i: usize = 0;
    let n = participants.len();
    while i < n
        invariant
            i <= n,
            n == participants.len(),
            pv == strs(participants@),
            strs(kept@) == without_participant(pv.take(i as int), agent_id@),
        decreases n - i,
    {
        proof {
            assert(pv.take(i + 1).drop_last() =~= pv.take(i as int));
            assert(pv.take(i + 1).last() == participants@[i as int]@);
        }
        if !string_eq_str(&participants[i], agent_id) {
            let ghost before = kept@;
            kept.push(participants[i].clone());
            proof {
                assert(strs(kept@) =~= strs(before).push(participants@[i as int]@));
            }
        }
        i = i + 1;
    }
    proof {
        assert(pv.take(n as int) =~= pv);
    }
    let changed = kept.len() != n;
    *participants = kept;
    changed
}

proof fn lemma_without_participant(ps: Seq<Seq<char>>, a: Seq<char>)
    ensures
        !without_participant(ps, a).contains(a),
        forall|x: Seq<char>| x != a ==> (ps.contains(x) <==> without_participant(ps, a).contains(x)),
        !ps.contains(a) ==> without_participant(ps, a) == ps,
    decreases ps.len(),
{
    if ps.len() > 0 {
        let init = ps.drop_last();
        lemma_without_participant(init, a);
        let w = without_participant(init, a);
        assert(ps == init.push(ps.last()));
        assert forall|x: Seq<char>| x != a implies (ps.contains(x) <==> without_participant(
            ps,
            a,
        ).contains(x)) by {
            if ps.contains(x) {
                let j = choose|j: int| 0 <= j < ps.len() && ps[j] == x;
                if j < init.len() {
                    assert(init[j] == x);
                    assert(init.contains(x));
                }
            }
            if ps.last() != a {
                assert(w.push(ps.last()).contains(x) ==> (w.contains(x) || ps.last() == x));
                if w.push(ps.last()).contains(x) {
                    let j = choose|j: int| 0 <= j < w.push(ps.last()).len() && w.push(ps.last())[j] == x;
                    if j < w.len() {
                        assert(w[j] == x);
                    }
                }
                if w.contains(x) {
                    let j = choose|j: int| 0 <= j < w.len() && w[j] == x;
                    assert(w.push(ps.last())[j] == x);
                }
                if ps.last() == x {
                    assert(w.push(ps.last())[w.len() as int] == x);
                }
            }
            if init.contains(x) {
                let j = choose|j: int| 0 <= j < init.len() && init[j] == x;
                assert(ps[j] == x);
            }
            if ps.last() == x {
                assert(ps[ps.len() - 1] == x);
            }
        }
        if ps.last() != a {
            assert(!w.push(ps.last()).contains(a)) by {
                if w.push(ps.last()).contains(a) {
                    let j = choose|j: int| 0 <= j < w.push(ps.last()).len() && w.push(ps.last())[j] == a;
                    if j < w.len() {
                        assert(w[j] == a);
                    }
                }
            }
        }
        if !ps.contains(a) {
            assert(!init.contains(a)) by {
                if init.contains(a) {
                    let j = choose|j: int| 0 <= j < init.len() && init[j] == a;
                    assert(ps[j] == a);
                }
            }
            assert(ps.last() != a) by {
                assert(ps[ps.len() - 1] == ps.last());
            }
        }
    }
}

/// Participant laws: after an add the agent is in the list and adding it again
/// changes nothing; after a remove it is not, every other agent stays exactly
/// as present as before, and removing an absent agent changes nothing.
pub proof fn lemma_participant_laws(ps: Seq<Seq<char>>, a: Seq<char>)
    ensures
        with_participant(ps, a).contains(a),
        with_participant(with_participant(ps, a), a) == with_participant(ps, a),
        !without_participant(ps, a).contains(a),
        forall|x: Seq<char>| x != a ==> (ps.contains(x) <==> without_participant(ps, a).contains(x)),
        !ps.contains(a) ==> without_participant(ps, a) == ps,
{
    if !ps.contains(a) {
        assert(ps.push(a)[ps.len() as int] == a);
    }
    lemma_without_participant(ps, a);
}

// ── Session status and runnable kinds ────────────────────────────────────────

/// The lifecycle status of a session's run.
#[derive(Debug, Clone, Copy, PartialEq, Eq, Structural)]
pub enum SessionStatus {
    /// Created, no run started yet.
    Idle,
    /// A run is in progress.
    Running,
    /// The most recent run completed.
    Completed,
    /// The most recent run ended with an error.
    Failed,
}

/// The stored text of a status.
pub open spec fn status_text(s: SessionStatus) -> Seq<char> {
    match s {
        SessionStatus::Idle => "idle"@,
        SessionStatus::Running => "running"@,
        SessionStatus::Completed => "completed"@,
        SessionStatus::Failed => "failed"@,
    }
}

/// The status a stored text reads back as; anything unknown is `Idle`.
pub open spec fn status_from_text(s: Seq<char>) -> SessionStatus {
    if s == "running"@ {
        SessionStatus::Running
    } else if s == "completed"@ {
        SessionStatus::Completed
    } else if s == "failed"@ {
        SessionStatus::Failed
    } else {
        SessionStatus::Idle
    }
}

impl SessionStatus {
    pub fn as_str(&self) -> (r: &'static str)
        ensures
            r@ == status_text(*self),
    {
        match self {
            SessionStatus::Idle => "idle",
            SessionStatus::Running => "running",
            SessionStatus::Completed => "completed",
            SessionStatus::Failed => "failed",
        }
    }

    pub fn from_str(s: &str) -> (r: SessionStatus)
        ensures
            r == status_from_text(s@),
    {
        let v = chars_of(s);
        if eq_chars(&v, &chars_of("running")) {
            SessionStatus::Running
        } else if eq_chars(&v, &chars_of("completed")) {
            SessionStatus::Completed
        } else if eq_chars(&v, &chars_of("failed")) {
            SessionStatus::Failed
        } else {
            SessionStatus::Idle
        }
    }
}

/// Writing a status and reading it back gives the same status.
pub proof fn lemma_status_round_trip(s: SessionStatus)
    ensures
        status_from_text(status_text(s)) == s,
{
    reveal_strlit("idle");
    reveal_strlit("running");
    reveal_strlit("completed");
    reveal_strlit("failed");
    // The four texts have pairwise different lengths.
    assert("idle"@.len() == 4 && "running"@.len() == 7);
    assert("completed"@.len() == 9 && "failed"@.len() == 6);
}

/// The kind a stored `runnable_kind` text reads back as; unknown text is `Agent`.
pub open spec fn stored_runnable_kind(s: Seq<char>) -> RunnableKind {
    if s == "workflow"@ {
        RunnableKind::Workflow
    } else if s == "tool"@ {
        RunnableKind::Tool
    } else if s == "skill"@ {
        RunnableKind::Skill
    } else {
        RunnableKind::Agent
    }
}

/// A session's kind survives being stored: the four kinds a session can be
/// created with read back as themselves.
pub proof fn lemma_runnable_kind_round_trip(k: RunnableKind)
    requires
        k == RunnableKind::Agent || k == RunnableKind::Workflow || k == RunnableKind::Tool || k
            == RunnableKind::Skill,
    ensures
        stored_runnable_kind(crate::runnable::kind_text(k)) == k,
{
    reveal_strlit("agent");
    reveal_strlit("workflow");
    reveal_strlit("tool");
    reveal_strlit("skill");
    if k == RunnableKind::Agent {
        assert("agent"@ != "workflow"@ && "agent"@ != "tool"@ && "agent"@ != "skill"@) by {
            assert("agent"@.len() != "workflow"@.len() && "agent"@.len() != "tool"@.len());
            assert("agent"@[0] != "skill"@[0]);
        }
    } else if k == RunnableKind::Tool {
        assert("tool"@ != "workflow"@);
    } else if k == RunnableKind::Skill {
        assert("skill"@ != "workflow"@ && "skill"@ != "tool"@) by {
            assert("skill"@.len() != "workflow"@.len() && "skill"@.len() != "tool"@.len());
        }
    }
}

/// Parse a stored `runnable_kind` string; unknown strings default to `Agent`.
pub fn parse_runnable_kind(s: &str) -> (r: RunnableKind)
    ensures
        r == stored_runnable_kind(s@),
{
    let v = chars_of(s);
    if eq_chars(&v, &chars_of("workflow")) {
        RunnableKind::Workflow
    } else if eq_chars(&v, &chars_of("tool")) {
        RunnableKind::Tool
    } else if eq_chars(&v, &chars_of("skill")) {
        RunnableKind::Skill
    } else {
        RunnableKind::Agent
    }
}

/// A session: a conversation bound to the runnable it runs, with a status.
pub struct Session {
    pub id: String,
    /// The conversation this session owns.
    pub conversation_id: String,
    /// The id of the runnable (agent id, workflow id, …).
    pub runnable_id: String,
    pub runnable_kind: RunnableKind,
    pub status: SessionStatus,
    /// Unix milliseconds.
    pub created_at: i64,
    /// Unix milliseconds.
    pub updated_at: i64,
}

/// The list endpoint's summary of a conversation.
pub struct ConversationSummary {
    pub id: String,
    pub title: Option<String>,
    pub agent_id: Option<String>,
    /// Unix milliseconds.
    pub created_at: i64,
    /// Unix milliseconds.
    pub updated_at: i64,
    pub message_count: i64,
    /// Working folder of the run.
    pub folder_path: Option<String>,
    /// Git branch active at run start.
    pub branch: Option<String>,
    /// Per-run worktree path.
    pub worktree_path: Option<String>,
    /// `running`, `completed`, `failed`, or none.
    pub run_status: Option<String>,
    /// Every agent id taking part in the conversation.
    pub participants: Vec<String>,
    pub pinned: bool,
    pub archived: bool,
}

/// A run's status changed; carries the whole run summary.
pub struct RunStatusEvent {
    pub run: ConversationSummary,
}

/// A side question and its answer (or a delegated child run), kept under the
/// conversation it was asked about.
pub struct BtwEntry {
    pub id: String,
    pub conversation_id: String,
    /// `btw` for side questions, `subagent` for delegated child runs.
    pub kind: String,
    pub question: String,
    pub answer: String,
    /// The model that answered.
    pub model: Option<String>,
    /// Registered agent id of a subagent child.
    pub agent_id: Option<String>,
    /// Permission preset of a subagent child.
    pub preset: Option<String>,
    /// Conversation id of a child agent's own clean context.
    pub child_conversation_id: Option<String>,
    /// Unix milliseconds.
    pub created_at: i64,
}

/// The kind an entry without one is read as.
pub fn default_child_entry_kind() -> (r: String)
    ensures
        r@ == "btw"@,
{
    "btw".to_owned()
}

/// The sibling count a message without one is read as.
pub fn default_sibling_count() -> (r: usize)
    ensures
        r == 1,
{
    1
}

fn owned_opt(a: Option<&str>) -> (r: Option<String>)
    ensures
        opt_string_view(r) == opt_str_view(a),
{
    match a {
        Some(x) => Some(x.to_owned()),
        None => None,
    }
}

/// The `/btw` entry a side question and its answer are stored as: kind `btw`,
/// a fresh id, stamped now, with no subagent fields.
pub fn new_btw_entry(conversation_id: &str, question: &str, answer: &str, model: Option<&str>) -> (r:
    BtwEntry)
    ensures
        crate::ids::is_hyphenated_uuid(r.id@),
        r.conversation_id@ == conversation_id@,
        r.kind@ == "btw"@,
        r.question@ == question@,
        r.answer@ == answer@,
        opt_string_view(r.model) == opt_str_view(model),
        r.agent_id is None,
        r.preset is None,
        r.child_conversation_id is None,
{
    let id = crate::ids::fresh_hyphenated_uuid();
    let created_at = crate::ids::now_millis();
    BtwEntry {
        id,
        conversation_id: conversation_id.to_owned(),
        kind: default_child_entry_kind(),
        question: question.to_owned(),
        answer: answer.to_owned(),
        model: owned_opt(model),
        agent_id: None,
        preset: None,
        child_conversation_id: None,
        created_at,
    }
}

/// The entry a delegated subagent child is stored as: kind `subagent`, the task
/// as its question and the final output (or error) as its answer, a fresh id,
/// stamped now, with no model.
pub fn new_subagent_entry(
    conversation_id: &str,
    task: &str,
    answer: &str,
    agent_id: Option<&str>,
    preset: Option<&str>,
    child_conversation_id: Option<&str>,
) -> (r: BtwEntry)
    ensures
        crate::ids::is_hyphenated_uuid(r.id@),
        r.conversation_id@ == conversation_id@,
        r.kind@ == "subagent"@,
        r.question@ == task@,
        r.answer@ == answer@,
        r.model is None,
        opt_string_view(r.agent_id) == opt_str_view(agent_id),
        opt_string_view(r.preset) == opt_str_view(preset),
        opt_string_view(r.child_conversation_id) == opt_str_view(child_conversation_id),
{
    let id = crate::ids::fresh_hyphenated_uuid();
    let created_at = crate::ids::now_millis();
    BtwEntry {
        id,
        conversation_id: conversation_id.to_owned(),
        kind: "subagent".to_owned(),
        question: task.to_owned(),
        answer: answer.to_owned(),
        model: None,
        agent_id: owned_opt(agent_id),
        preset: owned_opt(preset),
        child_conversation_id: owned_opt(child_conversation_id),
        created_at,
    }
}

/// A new session bound to a runnable: a fresh `sess_` id, a fresh `conv_`
/// conversation it owns, idle, created and updated at the same moment; with the
/// conversation row it seeds (title and agent, nothing else).
pub fn new_session(runnable_id: &str, runnable_kind: RunnableKind, agent_id: Option<&str>, title: Option<
    &str,
>) -> (r: (Session, ConvRow))
    ensures
        r.0.id@.take(5) == "sess_"@,
        crate::ids::is_simple_uuid(r.0.id@.skip(5)),
        r.0.conversation_id@.take(5) == "conv_"@,
        crate::ids::is_simple_uuid(r.0.conversation_id@.skip(5)),
        r.0.runnable_id@ == runnable_id@,
        r.0.runnable_kind == runnable_kind,
        r.0.status == SessionStatus::Idle,
        r.0.created_at == r.0.updated_at,
        opt_string_view(r.1.title) == opt_str_view(title),
        opt_string_view(r.1.agent_id) == opt_str_view(agent_id),
        r.1.folder_path is None && r.1.branch is None && r.1.worktree_path is None
            && r.1.participants is None,
{
    let id = crate::ids::fresh_prefixed_id("sess_");
    let conversation_id = crate::ids::fresh_prefixed_id("conv_");
    proof {
        reveal_strlit("sess_");
        reveal_strlit("conv_");
    }
    let now = crate::ids::now_millis();
    let session = Session {
        id,
        conversation_id,
        runnable_id: runnable_id.to_owned(),
        runnable_kind,
        status: SessionStatus::Idle,
        created_at: now,
        updated_at: now,
    };
    let row = ConvRow {
        title: owned_opt(title),
        agent_id: owned_opt(agent_id),
        folder_path: None,
        branch: None,
        worktree_path: None,
        participants: None,
    };
    (session, row)
}

} // verus!
