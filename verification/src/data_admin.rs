//! Bulk "danger zone" data administration: which data categories exist, who may
//! clear which of them on which kind of node, and when a node may be reset.
use vstd::prelude::*;
use crate::text::{CharClass, append_chars, chars_of, eq_chars, string_of, trim_ws, trimmed};

verus! {

/// The data categories a danger-zone clear can target.
#[derive(Clone, Copy, Debug, PartialEq, Eq, Structural)]
pub enum DataCategory {
    /// Every conversation with its messages and sessions.
    Chats,
    /// Every Space with its documents, chunks and vectors.
    Spaces,
    /// Every long-term memory entry.
    Memory,
    /// Every website monitor (and its scheduler job).
    Monitors,
    /// Every meeting record.
    Meetings,
}

/// The wire id of a category.
pub open spec fn category_id(c: DataCategory) -> Seq<char> {
    match c {
        DataCategory::Chats => "chats"@,
        DataCategory::Spaces => "spaces"@,
        DataCategory::Memory => "memory"@,
        DataCategory::Monitors => "monitors"@,
        DataCategory::Meetings => "meetings"@,
    }
}

/// The category a wire id names, if Core implements one.
pub open spec fn category_of_id(id: Seq<char>) -> Option<DataCategory> {
    if id == "chats"@ {
        Some(DataCategory::Chats)
    } else if id == "spaces"@ {
        Some(DataCategory::Spaces)
    } else if id == "memory"@ {
        Some(DataCategory::Memory)
    } else if id == "monitors"@ {
        Some(DataCategory::Monitors)
    } else if id == "meetings"@ {
        Some(DataCategory::Meetings)
    } else {
        None
    }
}

impl DataCategory {
    /// Resolve a wire id (`"monitors"`).
    pub fn from_id(id: &str) -> (r: Option<DataCategory>)
        ensures
            r == category_of_id(id@),
    {
        let v = chars_of(id);
        if eq_chars(&v, &chars_of("chats")) {
            Some(DataCategory::Chats)
        } else if eq_chars(&v, &chars_of("spaces")) {
            Some(DataCategory::Spaces)
        } else if eq_chars(&v, &chars_of("memory")) {
            Some(DataCategory::Memory)
        } else if eq_chars(&v, &chars_of("monitors")) {
            Some(DataCategory::Monitors)
        } else if eq_chars(&v, &chars_of("meetings")) {
            Some(DataCategory::Meetings)
        } else {
            None
        }
    }

    /// The wire id a client sends to clear this category.
    pub fn id(self) -> (r: &'static str)
        ensures
            r@ == category_id(self),
    {
        match self {
            DataCategory::Chats => "chats",
            DataCategory::Spaces => "spaces",
            DataCategory::Memory => "memory",
            DataCategory::Monitors => "monitors",
            DataCategory::Meetings => "meetings",
        }
    }
}

/// Every category's id resolves back to it, and each id names one category.
pub proof fn lemma_category_id_round_trip(c: DataCategory)
    ensures
        category_of_id(category_id(c)) == Some(c),
{
    reveal_strlit("chats");
    reveal_strlit("spaces");
    reveal_strlit("memory");
    reveal_strlit("monitors");
    reveal_strlit("meetings");
    assert("chats"@.len() == 5 && "spaces"@.len() == 6 && "memory"@.len() == 6);
    assert("monitors"@.len() == 8 && "meetings"@.len() == 8);
    assert("spaces"@[0] != "memory"@[0]);
    assert("monitors"@[1] != "meetings"@[1]);
}

/// The categories no app owns (chats, spaces, memory); the others belong to an app
/// and are offered only while it is enabled.
pub open spec fn kernel_owned(c: DataCategory) -> bool {
    c == DataCategory::Chats || c == DataCategory::Spaces || c == DataCategory::Memory
}

pub fn is_kernel_owned(c: DataCategory) -> (r: bool)
    ensures
        r == kernel_owned(c),
{
    match c {
        DataCategory::Chats | DataCategory::Spaces | DataCategory::Memory => true,
        _ => false,
    }
}

/// The copy of a kernel-owned category's danger-zone row.
pub struct KernelCategory {
    pub category: DataCategory,
    pub title: &'static str,
    pub noun: &'static str,
    pub confirm_word: &'static str,
    pub detail: &'static str,
}

/// The kernel-owned categories, in the order the danger zone lists them.
pub fn kernel_categories() -> (r: Vec<KernelCategory>)
    ensures
        r.len() == 3,
        r[0].category == DataCategory::Chats,
        r[1].category == DataCategory::Spaces,
        r[2].category == DataCategory::Memory,
{
    vec![
        KernelCategory {
            category: DataCategory::Chats,
            title: "Delete all chats",
            noun: "chats",
            confirm_word: "Chats",
            detail: "Every conversation and all of its messages will be permanently deleted.",
        },
        KernelCategory {
            category: DataCategory::Spaces,
            title: "Delete all spaces",
            noun: "spaces",
            confirm_word: "Spaces",
            detail: "Every Space, including all of its documents and their search data, will be permanently deleted. System spaces (Artifacts, Uploads, Meetings, \u{2026}) are left untouched.",
        },
        KernelCategory {
            category: DataCategory::Memory,
            title: "Clear all memory",
            noun: "memory entries",
            confirm_word: "Memory",
            detail: "Every long-term memory entry will be permanently forgotten.",
        },
    ]
}

/// Body of `POST /api/data/clear`.
pub struct ClearRequest {
    /// The category id, as the client sent it.
    pub category: String,
}

/// Body of `POST /api/node/reset`.
pub struct ResetNodeRequest {
    /// The type-to-confirm echo; it only has to be non-blank.
    pub confirm: String,
}

/// What a clear request does.
pub enum ClearPlan {
    /// Delete every item of the category (a personal, unbound node).
    ClearAll(DataCategory),
    /// Delete only the conversations this user owns (an org-bound node).
    ClearChatsOwnedBy(String),
}

/// Why a clear request is refused.
pub enum ClearRefusal {
    /// An org-bound node and no signed-in caller (403).
    SignInRequired,
    /// No category of that id exists in Core (400); holds the id as sent.
    UnknownCategory(String),
    /// The category's owning app is not enabled here (404).
    AppNotEnabled(DataCategory),
    /// The category has no per-user ownership and the node is org-bound (403).
    SharedNode,
}

impl ClearRefusal {
    /// The HTTP status of the refusal.
    pub fn status(&self) -> (r: u16)
        ensures
            r == match self {
                ClearRefusal::SignInRequired => 403u16,
                ClearRefusal::UnknownCategory(_) => 400u16,
                ClearRefusal::AppNotEnabled(_) => 404u16,
                ClearRefusal::SharedNode => 403u16,
            },
    {
        match self {
            ClearRefusal::SignInRequired => 403,
            ClearRefusal::UnknownCategory(_) => 400,
            ClearRefusal::AppNotEnabled(_) => 404,
            ClearRefusal::SharedNode => 403,
        }
    }

    /// The error text of the refusal.
    pub fn message(&self) -> (r: String)
        ensures
            r@ == match self {
                ClearRefusal::SignInRequired =>
                    "forbidden: a signed-in user is required to clear data on a shared node"@,
                ClearRefusal::UnknownCategory(raw) => "unknown data category '"@ + raw@ + "'"@,
                ClearRefusal::AppNotEnabled(c) => "data category '"@ + category_id(*c)
                    + "' is owned by an app that is not enabled on this node"@,
                ClearRefusal::SharedNode => shared_node_refusal(),
            },
    {
        match self {
            ClearRefusal::SignInRequired => {
                "forbidden: a signed-in user is required to clear data on a shared node".to_owned()
            },
            ClearRefusal::UnknownCategory(raw) => {
                let mut v = chars_of("unknown data category '");
                append_chars(&mut v, &chars_of(raw.as_str()));
                append_chars(&mut v, &chars_of("'"));
                string_of(&v)
            },
            ClearRefusal::AppNotEnabled(c) => {
                let mut v = chars_of("data category '");
                append_chars(&mut v, &chars_of(c.id()));
                append_chars(&mut v, &chars_of("' is owned by an app that is not enabled on this node"));
                string_of(&v)
            },
            ClearRefusal::SharedNode => {
                "forbidden: this category cannot be cleared on a shared (org-bound) node \u{2014}                               it carries no per-user ownership, so clearing it would destroy other users' data".to_owned()
            },
        }
    }
}

pub open spec fn shared_node_refusal() -> Seq<char> {
    "forbidden: this category cannot be cleared on a shared (org-bound) node \u{2014}                               it carries no per-user ownership, so clearing it would destroy other users' data"@
}

pub open spec fn contains_str(v: Seq<String>, s: Seq<char>) -> bool {
    exists|i: int| 0 <= i < v.len() && (#[trigger] v[i])@ == s
}

/// The answer to a clear request. `node_bound` is whether this node is bound to an
/// org, `caller` the signed-in user, `enabled_app_categories` the category ids the
/// enabled apps declare.
pub open spec fn clear_decision(
    node_bound: bool,
    caller: Option<Seq<char>>,
    requested: Seq<char>,
    enabled_app_categories: Seq<String>,
) -> Result<(DataCategory, Option<Seq<char>>), ClearRefusalV> {
    if node_bound && caller is None {
        Err(ClearRefusalV::SignInRequired)
    } else {
        match category_of_id(trim_ws(requested)) {
            None => Err(ClearRefusalV::UnknownCategory(requested)),
            Some(c) => if !kernel_owned(c) && !contains_str(enabled_app_categories, category_id(c)) {
                Err(ClearRefusalV::AppNotEnabled(c))
            } else if !node_bound {
                Ok((c, None))
            } else if c == DataCategory::Chats {
                Ok((c, caller))
            } else {
                Err(ClearRefusalV::SharedNode)
            },
        }
    }
}

/// A refusal, as a value.
pub ghost enum ClearRefusalV {
    SignInRequired,
    UnknownCategory(Seq<char>),
    AppNotEnabled(DataCategory),
    SharedNode,
}

pub open spec fn refusal_view(r: ClearRefusal) -> ClearRefusalV {
    match r {
        ClearRefusal::SignInRequired => ClearRefusalV::SignInRequired,
        ClearRefusal::UnknownCategory(s) => ClearRefusalV::UnknownCategory(s@),
        ClearRefusal::AppNotEnabled(c) => ClearRefusalV::AppNotEnabled(c),
        ClearRefusal::SharedNode => ClearRefusalV::SharedNode,
    }
}

pub open spec fn plan_view(p: ClearPlan) -> (DataCategory, Option<Seq<char>>) {
    match p {
        ClearPlan::ClearAll(c) => (c, None),
        ClearPlan::ClearChatsOwnedBy(u) => (DataCategory::Chats, Some(u@)),
    }
}

fn has_str(v: &Vec<String>, s: &str) -> (r: bool)
    ensures
        r == contains_str(v@, s@),
{
    let target = chars_of(s);
    let mut i: usize = 0;
    while i < v.len()
        invariant
            i <= v.len(),
            target@ == s@,
            forall|j: int| 0 <= j < i ==> (#[trigger] v@[j])@ != s@,
        decreases v.len() - i,
    {
        if eq_chars(&chars_of(v[i].as_str()), &target) {
            return true;
        }
        i = i + 1;
    }
    false
}

/// Decide a danger-zone clear. On an org-bound node a signed-in caller is required,
/// chats are cleared only where that caller owns them, and every other category is
/// refused (it has no per-user ownership). An id Core does not implement is a bad
/// request; an app-owned category whose app is not enabled is not found.
pub fn plan_clear(
    node_bound: bool,
    caller: Option<&str>,
    requested: &str,
    enabled_app_categories: &Vec<String>,
) -> (r: Result<ClearPlan, ClearRefusal>)
    ensures
        match r {
            Ok(p) => clear_decision(
                node_bound,
                match caller {
                    Some(c) => Some(c@),
                    None => None,
                },
                requested@,
                enabled_app_categories@,
            ) == Ok::<(DataCategory, Option<Seq<char>>), ClearRefusalV>(plan_view(p)),
            Err(e) => clear_decision(
                node_bound,
                match caller {
                    Some(c) => Some(c@),
                    None => None,
                },
                requested@,
                enabled_app_categories@,
            ) == Err::<(DataCategory, Option<Seq<char>>), ClearRefusalV>(refusal_view(e)),
        },
{
    if node_bound && caller.is_none() {
        return Err(ClearRefusal::SignInRequired);
    }
    let t = string_of(&trimmed(&chars_of(requested), CharClass::Whitespace));
    let c = match DataCategory::from_id(t.as_str()) {
        None => return Err(ClearRefusal::UnknownCategory(requested.to_owned())),
        Some(c) => c,
    };
    if !is_kernel_owned(c) && !has_str(enabled_app_categories, c.id()) {
        return Err(ClearRefusal::AppNotEnabled(c));
    }
    if !node_bound {
        return Ok(ClearPlan::ClearAll(c));
    }
    match c {
        DataCategory::Chats => match caller {
            Some(u) => Ok(ClearPlan::ClearChatsOwnedBy(u.to_owned())),
            None => Err(ClearRefusal::SignInRequired),
        },
        _ => Err(ClearRefusal::SharedNode),
    }
}

/// On an org-bound node no clear is ever unscoped: the only thing planned there is
/// the caller's own chats.
pub proof fn lemma_bound_node_never_clears_everything(
    caller: Option<Seq<char>>,
    requested: Seq<char>,
    enabled: Seq<String>,
)
    ensures
        clear_decision(true, caller, requested, enabled) matches Ok((c, owner)) ==> c
            == DataCategory::Chats && owner is Some && owner == caller,
{
}

/// Which app-declared category an app's uninstall may clear: it must be declared
/// by the app and implemented by Core as app data (monitors or meetings).
pub enum AppClearRefusal {
    NotDeclared,
    CoreOwned(DataCategory),
    NotImplemented,
}

pub fn app_clear_target(declared: &Vec<String>, category_id_raw: &str) -> (r: Result<
    DataCategory,
    AppClearRefusal,
>)
    ensures
        !contains_str(declared@, category_id_raw@) ==> r matches Err(AppClearRefusal::NotDeclared),
        contains_str(declared@, category_id_raw@) ==> match category_of_id(category_id_raw@) {
            None => r matches Err(AppClearRefusal::NotImplemented),
            Some(c) => if kernel_owned(c) {
                r matches Err(AppClearRefusal::CoreOwned(x)) && x == c
            } else {
                r == Ok::<DataCategory, AppClearRefusal>(c)
            },
        },
{
    if !has_str(declared, category_id_raw) {
        return Err(AppClearRefusal::NotDeclared);
    }
    match DataCategory::from_id(category_id_raw) {
        None => Err(AppClearRefusal::NotImplemented),
        Some(c) => {
            if is_kernel_owned(c) {
                Err(AppClearRefusal::CoreOwned(c))
            } else {
                Ok(c)
            }
        },
    }
}

/// Why a node reset is refused.
pub enum ResetRefusal {
    /// An org-bound node and no signed-in caller (403).
    SignInRequired,
    /// A full wipe is never allowed on an org-bound node (403).
    SharedNode,
    /// The confirmation is blank (400).
    ConfirmationRequired,
}

/// Decide a node reset: refused outright on an org-bound node (asking a signed-in
/// caller first), and it needs a non-blank confirmation.
pub fn check_node_reset(node_bound: bool, has_caller: bool, confirm: &str) -> (r: Result<
    (),
    ResetRefusal,
>)
    ensures
        node_bound && !has_caller ==> r matches Err(ResetRefusal::SignInRequired),
        node_bound && has_caller ==> r matches Err(ResetRefusal::SharedNode),
        !node_bound ==> (r is Ok <==> trim_ws(confirm@).len() > 0),
        !node_bound && r is Err ==> r matches Err(ResetRefusal::ConfirmationRequired),
{
    if node_bound {
        if !has_caller {
            return Err(ResetRefusal::SignInRequired);
        }
        return Err(ResetRefusal::SharedNode);
    }
    if trimmed(&chars_of(confirm), CharClass::Whitespace).len() == 0 {
        return Err(ResetRefusal::ConfirmationRequired);
    }
    Ok(())
}

} // verus!
