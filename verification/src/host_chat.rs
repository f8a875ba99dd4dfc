//! `chat.startTurn` and `node.readings`: the decisions an app-initiated turn
//! goes through (the approval preference, the text, the conversation it lands
//! in) and what a readings call counts.
use vstd::prelude::*;
use crate::ids::{fresh_simple_uuid, is_simple_uuid, prefixed};
use crate::text::{CharClass, chars_of, string_of, trim_ws, trimmed};

verus! {

/// Preference key: ask before an app posts a turn on the user's behalf.
pub const ASK_BEFORE_APP_SEND_PREF: &'static str = "apps-ask-before-send";

/// The grant a sidecar must hold to call `chat.startTurn`.
pub const GRANT_SEND_FOLLOW_UP: &'static str = "chat.sendFollowUp";

/// The grant a sidecar must hold to call `node.readings`.
pub const GRANT_NODE_READINGS: &'static str = "core:readings";

/// How many agents one `node.readings` call may price.
pub const MAX_USAGE_AGENTS: usize = 16;

/// Whether an app-initiated send must be approved first, given the stored
/// preference (`None` when it was never set or could not be read): every value
/// but an explicit `false` (after trimming) means ask.
pub open spec fn asks_before_send(pref: Option<Seq<char>>) -> bool {
    match pref {
        Some(raw) => trim_ws(raw) != "false"@,
        None => true,
    }
}

/// See `asks_before_send`.
pub fn ask_before_send_from(pref: Option<&str>) -> (r: bool)
    ensures
        r == asks_before_send(
            match pref {
                Some(p) => Some(p@),
                None => None,
            },
        ),
{
    match pref {
        Some(raw) => {
            let t = trimmed(&chars_of(raw), CharClass::Whitespace);
            let f = chars_of("false");
            proof {
                reveal_strlit("false");
            }
            !crate::text::eq_chars(&t, &f)
        },
        None => true,
    }
}

/// How an app-initiated send goes.
#[derive(Clone, Copy, Debug, PartialEq, Eq, Structural)]
pub enum AppSendRoute {
    /// Asking is off: the turn runs now (`{ status: "sent" }`, or 502 when it
    /// fails).
    SendNow,
    /// Asking is on: the send waits in the approvals inbox (202
    /// `pending_approval`).
    AwaitApproval,
    /// Asking is on but there is no approvals engine: the send is refused (503),
    /// never sent unapproved.
    ApprovalsUnavailable,
}

/// The refusal of an app send that needs approval when no approvals engine runs.
pub const APPROVALS_UNAVAILABLE: &'static str = "approval is required for app sends, but the approvals engine is unavailable";

/// How an app send goes, given whether the node asks before app sends and
/// whether an approvals engine runs: it fails closed, so while asking is on a
/// send is never made now.
pub fn app_send_route(ask_before_send: bool, engine_available: bool) -> (r: AppSendRoute)
    ensures
        r == if !ask_before_send {
            AppSendRoute::SendNow
        } else if engine_available {
            AppSendRoute::AwaitApproval
        } else {
            AppSendRoute::ApprovalsUnavailable
        },
        ask_before_send ==> r != AppSendRoute::SendNow,
{
    if !ask_before_send {
        AppSendRoute::SendNow
    } else if engine_available {
        AppSendRoute::AwaitApproval
    } else {
        AppSendRoute::ApprovalsUnavailable
    }
}

impl AppSendRoute {
    /// The HTTP status the route answers with before any turn runs (`SendNow`
    /// answers once the turn ran: 200).
    pub fn status(self) -> (r: u16)
        ensures
            r == match self {
                AppSendRoute::SendNow => 200u16,
                AppSendRoute::AwaitApproval => 202u16,
                AppSendRoute::ApprovalsUnavailable => 503u16,
            },
    {
        match self {
            AppSendRoute::SendNow => 200,
            AppSendRoute::AwaitApproval => 202,
            AppSendRoute::ApprovalsUnavailable => 503,
        }
    }
}

/// Body of `POST /api/host/capability/chat.startTurn`.
pub struct StartTurnBody {
    /// The message to send. Required and non-blank.
    pub text: String,
    /// Which agent answers. `None` uses the node's configured default.
    pub agent_id: Option<String>,
    /// Continue an existing conversation. `None` starts a new one.
    pub conversation_id: Option<String>,
    /// Pin the model for this turn only.
    pub model: Option<String>,
}

/// The text a turn sends: the body's text trimmed, `Err("text is required")`
/// when that is empty.
pub fn turn_text(body: &StartTurnBody) -> (r: Result<String, &'static str>)
    ensures
        match r {
            Ok(t) => trim_ws(body.text@).len() > 0 && t@ == trim_ws(body.text@),
            Err(e) => trim_ws(body.text@).len() == 0 && e@ == "text is required"@,
        },
{
    let t = trimmed(&chars_of(body.text.as_str()), CharClass::Whitespace);
    if t.len() == 0 {
        Err("text is required")
    } else {
        Ok(string_of(&t))
    }
}

/// The conversation a turn lands in: the requested id when it is present and
/// not blank (kept as given), else `appsend_` followed by `fresh`.
pub open spec fn turn_conversation(requested: Option<Seq<char>>, fresh: Seq<char>) -> Seq<char> {
    match requested {
        Some(id) => if trim_ws(id).len() > 0 {
            id
        } else {
            "appsend_"@ + fresh
        },
        None => "appsend_"@ + fresh,
    }
}

/// See `turn_conversation`.
pub fn target_conversation(requested: &Option<String>, fresh: &str) -> (r: String)
    ensures
        r@ == turn_conversation(
            match requested {
                Some(s) => Some(s@),
                None => None,
            },
            fresh@,
        ),
{
    if let Some(id) = requested {
        let t = trimmed(&chars_of(id.as_str()), CharClass::Whitespace);
        if t.len() > 0 {
            return id.clone();
        }
    }
    prefixed("appsend_", fresh)
}

/// The conversation a turn from `body` lands in, a fresh `appsend_` id being
/// drawn when the body names none; the id is known before the send.
pub fn conversation_for_turn(body: &StartTurnBody) -> (r: String)
    ensures
        exists|fresh: Seq<char>|
            is_simple_uuid(fresh) && r@ == turn_conversation(
                match body.conversation_id {
                    Some(s) => Some(s@),
                    None => None,
                },
                fresh,
            ),
{
    let fresh = fresh_simple_uuid();
    let r = target_conversation(&body.conversation_id, fresh.as_str());
    assert(is_simple_uuid(fresh@));
    r
}

/// Body of `POST /api/host/capability/node.readings`.
pub struct ReadingsBody {
    /// Agents whose usage windows to read. Empty reads no usage at all.
    pub agent_ids: Vec<String>,
}

impl Default for ReadingsBody {
    fn default() -> (r: ReadingsBody)
        ensures
            r.agent_ids@.len() == 0,
    {
        ReadingsBody { agent_ids: Vec::new() }
    }
}

pub open spec fn is_running(status: Option<Seq<char>>) -> bool {
    status == Some("running"@)
}

/// How many of the runs have the status `running`.
pub open spec fn running_count(statuses: Seq<Option<Seq<char>>>) -> nat
    decreases statuses.len(),
{
    if statuses.len() == 0 {
        0
    } else {
        running_count(statuses.drop_last()) + if is_running(statuses.last()) {
            1nat
        } else {
            0nat
        }
    }
}

pub open spec fn opt_views(v: Seq<Option<String>>) -> Seq<Option<Seq<char>>> {
    v.map_values(
        |o: Option<String>|
            match o {
                Some(s) => Some(s@),
                None => None,
            },
    )
}

/// The number of runs whose status is `running` (a count, never the runs).
pub fn count_running(statuses: &Vec<Option<String>>) -> (r: usize)
    ensures
        r == running_count(opt_views(statuses@)),
{
    let running = chars_of("running");
    proof {
        reveal_strlit("running");
    }
    let mut n: usize = 0;
    let mut i: usize = 0;
    while i < statuses.len()
        invariant
            i <= statuses.len(),
            running@ == "running"@,
            n == running_count(opt_views(statuses@.take(i as int))),
            n <= i,
        decreases statuses.len() - i,
    {
        proof {
            assert(opt_views(statuses@.take(i + 1)).drop_last() =~= opt_views(
                statuses@.take(i as int),
            ));
        }
        let hit = match &statuses[i] {
            Some(s) => crate::text::eq_chars(&chars_of(s.as_str()), &running),
            None => false,
        };
        if hit {
            n = n + 1;
        }
        i = i + 1;
    }
    assert(statuses@.take(statuses.len() as int) =~= statuses@);
    n
}

/// The agents a readings call prices: the first `MAX_USAGE_AGENTS` named.
pub fn usage_agents(body: &ReadingsBody) -> (r: Vec<String>)
    ensures
        crate::text::strs(r@) == crate::text::strs(body.agent_ids@).take(
            if body.agent_ids@.len() < MAX_USAGE_AGENTS {
                body.agent_ids@.len() as int
            } else {
                MAX_USAGE_AGENTS as int
            },
        ),
{
    let mut out: Vec<String> = Vec::new();
    let mut i: usize = 0;
    while i < body.agent_ids.len() && i < MAX_USAGE_AGENTS
        invariant
            i <= body.agent_ids.len(),
            i <= MAX_USAGE_AGENTS,
            crate::text::strs(out@) == crate::text::strs(body.agent_ids@).take(i as int),
        decreases body.agent_ids.len() - i,
    {
        let s = body.agent_ids[i].clone();
        let ghost before = out@;
        out.push(s);
        proof {
            assert(crate::text::strs(out@) =~= crate::text::strs(before).push(s@));
            assert(crate::text::strs(body.agent_ids@).take(i + 1) =~= crate::text::strs(
                body.agent_ids@,
            ).take(i as int).push(body.agent_ids@[i as int]@));
        }
        i = i + 1;
    }
    out
}

} // verus!
