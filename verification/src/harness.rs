//! The durable agent-harness API's own decisions: which runnables and execution
//! profiles a node accepts, how a chat stream's server-sent events are framed and
//! what a finished stream means, how UI stream frames become run events, and how
//! an event stream resumes from a cursor.
use vstd::prelude::*;
use crate::runnable::RunnableKind;
use crate::text::{
    CharClass, append_chars, chars_of, contains, contains_chars, eq_chars, find, lemma_find_from,
    lines, lines_of, slice_vec, starts_with, starts_with_chars, string_of, take_chars, trim_ws,
    trimmed, utf8_len_at_most, utf8_prefix, prefix_within, views_of, find_index,
};

verus! {

// ── Run status and stream framing ────────────────────────────────────────────

/// The lifecycle status of a harness run.
#[derive(Clone, Copy, Debug, PartialEq, Eq, Structural)]
pub enum RunStatus {
    Running,
    AwaitingApproval,
    Completed,
    Failed,
    Interrupted,
    Canceled,
}

/// What a finished chat stream means for its run: a failure is `Failed`; a stream
/// that reached `[DONE]` is `Completed`; one that ended without either is
/// `Interrupted`, with a reason.
pub fn classify_stream_end(failed: bool, saw_done: bool) -> (r: (RunStatus, Option<&'static str>))
    ensures
        failed ==> r.0 == RunStatus::Failed && r.1 is None,
        !failed && saw_done ==> r.0 == RunStatus::Completed && r.1 is None,
        !failed && !saw_done ==> r.0 == RunStatus::Interrupted && (r.1 matches Some(m) && m@
            == "chat stream ended before completion"@),
{
    if failed {
        (RunStatus::Failed, None)
    } else if saw_done {
        (RunStatus::Completed, None)
    } else {
        (RunStatus::Interrupted, Some("chat stream ended before completion"))
    }
}

/// The `data: ` payloads of an event's lines, in order.
pub open spec fn data_lines(ls: Seq<Seq<char>>) -> Seq<Seq<char>>
    decreases ls.len(),
{
    if ls.len() == 0 {
        seq![]
    } else {
        let rest = data_lines(ls.drop_last());
        if starts_with(ls.last(), "data: "@) {
            rest.push(ls.last().skip(6))
        } else {
            rest
        }
    }
}

/// The lines joined with `\n`.
pub open spec fn join_lines(ws: Seq<Seq<char>>) -> Seq<char>
    decreases ws.len(),
{
    if ws.len() == 0 {
        seq![]
    } else if ws.len() == 1 {
        ws[0]
    } else {
        join_lines(ws.drop_last()) + seq!['\n'] + ws.last()
    }
}

/// The first complete server-sent event in `buffer` (ended by a blank line): its
/// `data: ` lines joined with `\n`, and what follows the blank line.
pub open spec fn sse_payload(buffer: Seq<char>) -> Option<(Seq<char>, Seq<char>)> {
    match find(buffer, "\n\n"@) {
        None => None,
        Some(end) => Some(
            (join_lines(data_lines(lines(buffer.take(end)))), buffer.skip(end + 2)),
        ),
    }
}

/// Take the first complete event off an SSE buffer: its data and the rest of the
/// buffer; `None` while no event is complete.
pub fn take_sse_payload(buffer: &str) -> (r: Option<(String, String)>)
    ensures
        match r {
            Some((d, rest)) => sse_payload(buffer@) == Some((d@, rest@)),
            None => sse_payload(buffer@) is None,
        },
{
    let v = chars_of(buffer);
    let sep = chars_of("\n\n");
    let end = match find_index(&v, &sep) {
        None => return None,
        Some(e) => e,
    };
    proof {
        lemma_find_from(v@, sep@, 0);
        reveal_strlit("\n\n");
    }
    let frame = slice_vec(&v, 0, end);
    let remaining = slice_vec(&v, end + 2, v.len());
    let ls = lines_of(&frame);
    let prefix = chars_of("data: ");
    proof {
        reveal_strlit("data: ");
    }
    let mut data: Vec<char> = Vec::new();
    let mut count: usize = 0;
    let mut i: usize = 0;
    while i < ls.len()
        invariant
            i <= ls.len(),
            prefix@ == "data: "@,
            prefix@.len() == 6,
            count <= i,
            count == data_lines(views_of(ls@).take(i as int)).len(),
            data@ == join_lines(data_lines(views_of(ls@).take(i as int))),
        decreases ls.len() - i,
    {
        let ghost before = data_lines(views_of(ls@).take(i as int));
        proof {
            assert(views_of(ls@).take(i + 1).drop_last() =~= views_of(ls@).take(i as int));
            assert(views_of(ls@).take(i + 1).last() == ls@[i as int]@);
        }
        if starts_with_chars(&ls[i], &prefix) {
            let line = slice_vec(&ls[i], 6, ls[i].len());
            if count > 0 {
                data.push('\n');
            }
            let ghost mid = data@;
            append_chars(&mut data, &line);
            proof {
                let after = before.push(ls@[i as int]@.skip(6));
                if before.len() == 0 {
                    assert(join_lines(after) == after[0]);
                } else {
                    assert(after.drop_last() =~= before);
                }
                assert(data@ =~= join_lines(after));
            }
            count = count + 1;
        }
        i = i + 1;
    }
    proof {
        assert(views_of(ls@).take(ls.len() as int) =~= views_of(ls@));
        assert(v@.take(end as int) =~= frame@);
    }
    Some((string_of(&data), string_of(&remaining)))
}

// ── Runnables and execution profiles ─────────────────────────────────────────

/// The kind a request names (surrounding whitespace ignored): `agent`, `workflow`,
/// `tool` or `skill`; anything else is `None`.
pub open spec fn requested_kind(raw: Seq<char>) -> Option<RunnableKind> {
    let t = trim_ws(raw);
    if t == "agent"@ {
        Some(RunnableKind::Agent)
    } else if t == "workflow"@ {
        Some(RunnableKind::Workflow)
    } else if t == "tool"@ {
        Some(RunnableKind::Tool)
    } else if t == "skill"@ {
        Some(RunnableKind::Skill)
    } else {
        None
    }
}

/// Parse the runnable kind a harness request names.
pub fn parse_runnable_kind(raw: &str) -> (r: Option<RunnableKind>)
    ensures
        r == requested_kind(raw@),
{
    let t = trimmed(&chars_of(raw), CharClass::Whitespace);
    if eq_chars(&t, &chars_of("agent")) {
        Some(RunnableKind::Agent)
    } else if eq_chars(&t, &chars_of("workflow")) {
        Some(RunnableKind::Workflow)
    } else if eq_chars(&t, &chars_of("tool")) {
        Some(RunnableKind::Tool)
    } else if eq_chars(&t, &chars_of("skill")) {
        Some(RunnableKind::Skill)
    } else {
        None
    }
}

/// The permission running a kind of runnable takes.
#[derive(Clone, Copy, Debug, PartialEq, Eq, Structural)]
pub enum RunPermission {
    AgentRun,
    WorkflowRun,
}

/// Workflows take the workflow-run permission; every other kind the agent-run one.
pub fn required_permission(kind: RunnableKind) -> (r: RunPermission)
    ensures
        r == (if kind == RunnableKind::Workflow {
            RunPermission::WorkflowRun
        } else {
            RunPermission::AgentRun
        }),
{
    match kind {
        RunnableKind::Workflow => RunPermission::WorkflowRun,
        RunnableKind::Agent | RunnableKind::Tool | RunnableKind::Skill => RunPermission::AgentRun,
        RunnableKind::Companion | RunnableKind::Channel | RunnableKind::Engine
        | RunnableKind::Policy => RunPermission::AgentRun,
    }
}

/// Whether this node has a chat adapter for a kind (agents and workflows).
pub fn has_chat_adapter(kind: RunnableKind) -> (r: bool)
    ensures
        r == (kind == RunnableKind::Agent || kind == RunnableKind::Workflow),
{
    match kind {
        RunnableKind::Agent | RunnableKind::Workflow => true,
        _ => false,
    }
}

/// The agent a new session runs as: the one named, or for an agent runnable the
/// runnable itself.
pub fn session_agent_id(agent_id: Option<&str>, kind: RunnableKind, runnable_id: &str) -> (r: Option<
    String,
>)
    ensures
        match agent_id {
            Some(a) => (r matches Some(x) && x@ == a@),
            None => if kind == RunnableKind::Agent {
                (r matches Some(x) && x@ == runnable_id@)
            } else {
                r is None
            },
        },
{
    match agent_id {
        Some(a) => Some(a.to_owned()),
        None => {
            if kind == RunnableKind::Agent {
                Some(runnable_id.to_owned())
            } else {
                None
            }
        },
    }
}

/// Where a run executes.
#[derive(Clone, Copy, Debug, PartialEq, Eq, Structural)]
pub enum ExecutionProfileKind {
    Local,
    Worktree,
    Remote,
    Cloud,
}

/// How a run asks to execute.
pub struct ExecutionProfile {
    pub kind: ExecutionProfileKind,
    /// Working directory.
    pub cwd: Option<String>,
    pub worktree_branch: Option<String>,
    /// The network policy is the inherited one.
    pub network_inherit: bool,
    /// The sandbox policy is the inherited one.
    pub sandbox_inherit: bool,
    /// The approval policy is the inherited one.
    pub approval_inherit: bool,
}

/// Why a node refuses a profile, or `None` when it runs it. `cwd_is_dir` and
/// `cwd_is_git_repo` are what the file system says of the profile's `cwd`.
pub open spec fn profile_refusal(p: ExecutionProfile, cwd_is_dir: bool, cwd_is_git_repo: bool) -> Option<
    Seq<char>,
> {
    if p.kind == ExecutionProfileKind::Remote {
        Some("remote execution is not available on this Core node"@)
    } else if p.kind == ExecutionProfileKind::Cloud {
        Some("cloud execution is not available on this Core node"@)
    } else if p.cwd is Some && !cwd_is_dir {
        Some("the execution profile requires an existing directory for cwd"@)
    } else if p.cwd is Some && p.kind == ExecutionProfileKind::Worktree && !cwd_is_git_repo {
        Some("the worktree execution profile requires a Git repository"@)
    } else if p.kind == ExecutionProfileKind::Worktree && p.cwd is None {
        Some("the worktree execution profile requires cwd"@)
    } else if !p.network_inherit {
        Some("this node requires the Gateway's inherited network policy"@)
    } else if !p.sandbox_inherit {
        Some("this node requires the runtime's inherited sandbox policy"@)
    } else if !p.approval_inherit {
        Some("this node requires the runtime's inherited approval policy"@)
    } else {
        None
    }
}

/// Whether this node can run a profile: local or worktree execution only, an
/// existing directory (a Git repository for a worktree) when a `cwd` is given, a
/// `cwd` for a worktree, and the inherited network, sandbox and approval policies.
pub fn profile_supported(profile: &ExecutionProfile, cwd_is_dir: bool, cwd_is_git_repo: bool) -> (r:
    Result<(), &'static str>)
    ensures
        match r {
            Ok(()) => profile_refusal(*profile, cwd_is_dir, cwd_is_git_repo) is None,
            Err(m) => profile_refusal(*profile, cwd_is_dir, cwd_is_git_repo) == Some(m@),
        },
{
    match profile.kind {
        ExecutionProfileKind::Local | ExecutionProfileKind::Worktree => {},
        ExecutionProfileKind::Remote => {
            return Err("remote execution is not available on this Core node");
        },
        ExecutionProfileKind::Cloud => {
            return Err("cloud execution is not available on this Core node");
        },
    }
    if profile.cwd.is_some() {
        if !cwd_is_dir {
            return Err("the execution profile requires an existing directory for cwd");
        }
        if profile.kind == ExecutionProfileKind::Worktree && !cwd_is_git_repo {
            return Err("the worktree execution profile requires a Git repository");
        }
    }
    if profile.kind == ExecutionProfileKind::Worktree && profile.cwd.is_none() {
        return Err("the worktree execution profile requires cwd");
    }
    if !profile.network_inherit {
        return Err("this node requires the Gateway's inherited network policy");
    }
    if !profile.sandbox_inherit {
        return Err("this node requires the runtime's inherited sandbox policy");
    }
    if !profile.approval_inherit {
        return Err("this node requires the runtime's inherited approval policy");
    }
    Ok(())
}

/// A native runtime session id as a harness session binds it: trimmed, 1 to 512
/// bytes; `None` otherwise.
pub fn native_session_id(raw: &str) -> (r: Option<String>)
    ensures
        match r {
            Some(s) => s@ == trim_ws(raw@) && s@.len() > 0 && vstd::utf8::encode_utf8(s@).len()
                <= 512,
            None => trim_ws(raw@).len() == 0 || vstd::utf8::encode_utf8(trim_ws(raw@)).len() > 512,
        },
{
    let t = trimmed(&chars_of(raw), CharClass::Whitespace);
    if t.len() == 0 || !utf8_len_at_most(&t, 512) {
        None
    } else {
        Some(string_of(&t))
    }
}

/// Whether a failure to start a run is a conflict (409) rather than a bad request:
/// its text mentions `resume_run_id`, `idempotency_key` or `active run`.
pub fn is_start_conflict(error_text: &str) -> (r: bool)
    ensures
        r == (contains(error_text@, "resume_run_id"@) || contains(error_text@, "idempotency_key"@)
            || contains(error_text@, "active run"@)),
{
    let v = chars_of(error_text);
    contains_chars(&v, &chars_of("resume_run_id")) || contains_chars(&v, &chars_of("idempotency_key"))
        || contains_chars(&v, &chars_of("active run"))
}

/// Where a run's events stream.
pub fn events_url(run_id: &str) -> (r: String)
    ensures
        r@ == "/api/harness/runs/"@ + run_id@ + "/events"@,
{
    let mut v = chars_of("/api/harness/runs/");
    append_chars(&mut v, &chars_of(run_id));
    append_chars(&mut v, &chars_of("/events"));
    string_of(&v)
}

// ── Resuming an event stream ─────────────────────────────────────────────────

/// The position of an event-stream reader: the last sequence number it delivered,
/// and whether it delivered a terminal event (after which it stops).
pub struct EventCursor {
    pub last_seq: u64,
    pub done: bool,
}

impl EventCursor {
    /// A reader resuming after sequence number `after`.
    pub fn new(after: u64) -> (r: EventCursor)
        ensures
            r.last_seq == after,
            !r.done,
    {
        EventCursor { last_seq: after, done: false }
    }

    /// Offer the reader an event. It is delivered exactly when the reader has not
    /// stopped and its sequence number is past the cursor; the cursor then moves
    /// to it, and a terminal event stops the reader.
    pub fn offer(&mut self, seq: u64, terminal: bool) -> (deliver: bool)
        ensures
            deliver == (!old(self).done && seq > old(self).last_seq),
            deliver ==> final(self).last_seq == seq && final(self).done == terminal,
            !deliver ==> *final(self) == *old(self),
    {
        if self.done || seq <= self.last_seq {
            return false;
        }
        self.last_seq = seq;
        self.done = terminal;
        true
    }
}

/// The events a reader starting at `(last, done)` delivers from a series of
/// offers `(seq, terminal)`, in order.
pub open spec fn delivered(last: int, done: bool, offers: Seq<(u64, bool)>) -> Seq<(u64, bool)>
    decreases offers.len(),
{
    if offers.len() == 0 {
        seq![]
    } else if !done && offers[0].0 > last {
        seq![offers[0]] + delivered(offers[0].0 as int, offers[0].1, offers.drop_first())
    } else {
        delivered(last, done, offers.drop_first())
    }
}

/// Whatever is offered, and however often an event is offered again (a durable
/// page and the live bus overlap), a reader delivers events past its starting
/// cursor in strictly increasing sequence order, and only the last delivered one
/// can be terminal.
pub proof fn lemma_delivered_in_order(last: int, done: bool, offers: Seq<(u64, bool)>)
    ensures
        ({
            let d = delivered(last, done, offers);
            &&& forall|i: int| 0 <= i < d.len() ==> (#[trigger] d[i]).0 > last
            &&& forall|i: int, j: int| 0 <= i < j < d.len() ==> (#[trigger] d[i]).0 < (
            #[trigger] d[j]).0
            &&& forall|i: int| 0 <= i < d.len() - 1 ==> !(#[trigger] d[i]).1
            &&& done ==> d.len() == 0
        }),
    decreases offers.len(),
{
    if offers.len() > 0 {
        let rest = offers.drop_first();
        if !done && offers[0].0 > last {
            lemma_delivered_in_order(offers[0].0 as int, offers[0].1, rest);
            let tail = delivered(offers[0].0 as int, offers[0].1, rest);
            let d = seq![offers[0]] + tail;
            assert(delivered(last, done, offers) == d);
            assert forall|i: int| 0 <= i < d.len() implies (#[trigger] d[i]).0 > last by {
                if i > 0 {
                    assert(d[i] == tail[i - 1]);
                }
            }
            assert forall|i: int, j: int| 0 <= i < j < d.len() implies (#[trigger] d[i]).0 < (
            #[trigger] d[j]).0 by {
                assert(d[j] == tail[j - 1]);
                if i > 0 {
                    assert(d[i] == tail[i - 1]);
                }
            }
            assert forall|i: int| 0 <= i < d.len() - 1 implies !(#[trigger] d[i]).1 by {
                if i > 0 {
                    assert(d[i] == tail[i - 1]);
                } else if offers[0].1 {
                    assert(tail.len() == 0);
                }
            }
        } else {
            lemma_delivered_in_order(last, done, rest);
            assert(delivered(last, done, offers) == delivered(last, done, rest));
        }
    }
}

// ── UI stream frames to run events ───────────────────────────────────────────

/// One approval option as a permission frame carries it (each field present when
/// it is a JSON string).
pub struct ApprovalOptionInput {
    pub option_id: Option<String>,
    pub name: Option<String>,
    pub kind: Option<String>,
}

/// An approval option of a run event.
pub struct ApprovalOption {
    pub kind: String,
    pub name: String,
    pub option_id: String,
}

/// A trimmed, non-empty field, or `None`.
pub open spec fn nonblank(o: Option<String>) -> Option<Seq<char>> {
    match o {
        Some(s) => if trim_ws(s@).len() > 0 {
            Some(trim_ws(s@))
        } else {
            None
        },
        None => None,
    }
}

/// The option an input yields: all three fields present and non-blank, trimmed and
/// capped at 128 (kind) or 256 (name, id) characters.
pub open spec fn option_of(o: ApprovalOptionInput) -> Option<(Seq<char>, Seq<char>, Seq<char>)> {
    match (nonblank(o.option_id), nonblank(o.name), nonblank(o.kind)) {
        (Some(id), Some(n), Some(k)) => Some(
            (
                k.take(if k.len() <= 128 { k.len() as int } else { 128 }),
                n.take(if n.len() <= 256 { n.len() as int } else { 256 }),
                id.take(if id.len() <= 256 { id.len() as int } else { 256 }),
            ),
        ),
        _ => None,
    }
}

/// The options read from the inputs (the first 32 of them), as `(kind, name, id)`.
pub open spec fn options_of(inputs: Seq<ApprovalOptionInput>) -> Seq<(Seq<char>, Seq<char>, Seq<char>)>
    decreases inputs.len(),
{
    if inputs.len() == 0 {
        seq![]
    } else {
        let rest = options_of(inputs.drop_last());
        match option_of(inputs.last()) {
            Some(t) => rest.push(t),
            None => rest,
        }
    }
}

pub open spec fn option_view(o: ApprovalOption) -> (Seq<char>, Seq<char>, Seq<char>) {
    (o.kind@, o.name@, o.option_id@)
}

fn nonblank_field(o: &Option<String>) -> (r: Option<Vec<char>>)
    ensures
        match r {
            Some(v) => nonblank(*o) == Some(v@),
            None => nonblank(*o) is None,
        },
{
    match o {
        Some(s) => {
            let t = trimmed(&chars_of(s.as_str()), CharClass::Whitespace);
            if t.len() > 0 {
                Some(t)
            } else {
                None
            }
        },
        None => None,
    }
}

/// The approval options of a permission frame: of its first 32 inputs, those with a
/// non-blank id, name and kind, trimmed and capped in length; the rest are skipped.
pub fn parse_approval_options(inputs: &Vec<ApprovalOptionInput>) -> (r: Vec<ApprovalOption>)
    ensures
        r@.map_values(|o: ApprovalOption| option_view(o)) == options_of(
            inputs@.take(if inputs.len() <= 32 { inputs.len() as int } else { 32 }),
        ),
{
    let n: usize = if inputs.len() <= 32 {
        inputs.len()
    } else {
        32
    };
    let mut out: Vec<ApprovalOption> = Vec::new();
    let mut i: usize = 0;
    while i < n
        invariant
            i <= n <= inputs.len(),
            out@.map_values(|o: ApprovalOption| option_view(o)) == options_of(inputs@.take(i as int)),
        decreases n - i,
    {
        proof {
            assert(inputs@.take(i + 1).drop_last() =~= inputs@.take(i as int));
            assert(inputs@.take(i + 1).last() == inputs@[i as int]);
        }
        let o = &inputs[i];
        let id = nonblank_field(&o.option_id);
        let name = nonblank_field(&o.name);
        let kind = nonblank_field(&o.kind);
        match (id, name, kind) {
            (Some(id), Some(name), Some(kind)) => {
                let ghost before = out@;
                let opt = ApprovalOption {
                    kind: string_of(&take_chars(&kind, 128)),
                    name: string_of(&take_chars(&name, 256)),
                    option_id: string_of(&take_chars(&id, 256)),
                };
                out.push(opt);
                proof {
                    assert(out@.map_values(|o: ApprovalOption| option_view(o)) =~= before.map_values(
                        |o: ApprovalOption| option_view(o),
                    ).push(option_view(opt)));
                }
            },
            _ => {},
        }
        i = i + 1;
    }
    out
}

/// The `data` object of a UI frame, as far as the harness reads it.
pub struct FrameData {
    /// `requestId`, when a string.
    pub request_id: Option<String>,
    /// `toolCall.title`, when a string.
    pub tool_title: Option<String>,
    /// `toolCall.name`, when a string.
    pub tool_name: Option<String>,
    /// The entries of `options` (empty when it is not an array).
    pub options: Vec<ApprovalOptionInput>,
    /// `messageId`, when a string.
    pub message_id: Option<String>,
}

/// A UI stream frame, as far as the harness reads it. A field of type
/// `Option<Option<String>>` is `Some` when the key is present, holding the text
/// when its value is a string.
pub struct UiFrame {
    /// `type`, when a string.
    pub frame_type: Option<String>,
    /// `delta`, when a string.
    pub delta: Option<String>,
    /// `toolCallId`, when a string.
    pub tool_call_id: Option<String>,
    /// `toolName`, when a string.
    pub tool_name: Option<String>,
    /// `input` is present.
    pub has_input: bool,
    /// `output` is present.
    pub has_output: bool,
    /// `result` is present.
    pub has_result: bool,
    pub error: Option<Option<String>>,
    pub error_text: Option<Option<String>>,
    /// `isError`, when a boolean.
    pub is_error: Option<bool>,
    /// `providerMetadata.ryu.durationMs`, when an unsigned integer.
    pub duration_ms: Option<u64>,
    pub data: Option<FrameData>,
}

/// The frame field whose digest stands for a tool's result.
#[derive(Clone, Copy, Debug, PartialEq, Eq, Structural)]
pub enum ResultField {
    Output,
    Result,
    Error,
    ErrorText,
}

/// A run event projected from a UI frame.
pub enum RunEvent {
    TextDelta { delta: String },
    /// `input_present`: the call's input is fingerprinted.
    ToolCallStarted { tool_call_id: String, name: String, input_present: bool },
    /// `result_field`: which field's digest stands for the result.
    ToolCallCompleted {
        tool_call_id: String,
        name: String,
        ok: bool,
        duration_ms: Option<u64>,
        result_field: Option<ResultField>,
    },
    ApprovalRequested { approval_id: String, summary: String, options: Vec<ApprovalOption> },
    Checkpoint { message_id: Option<String> },
}

pub open spec fn opt_view(o: Option<String>) -> Option<Seq<char>> {
    match o {
        Some(s) => Some(s@),
        None => None,
    }
}

/// The tool name last recorded for a call id, if any.
pub open spec fn tool_name_for(names: Seq<(String, String)>, id: Seq<char>) -> Option<Seq<char>>
    decreases names.len(),
{
    if names.len() == 0 {
        None
    } else if names.last().0@ == id {
        Some(names.last().1@)
    } else {
        tool_name_for(names.drop_last(), id)
    }
}

/// A tool call succeeded unless the frame flags an error (`isError: true`, or an
/// `error` or `errorText` field).
pub open spec fn tool_ok(f: UiFrame) -> bool {
    f.is_error != Some(true) && f.error is None && f.error_text is None
}

/// The first of `output`, `result`, `error`, `errorText` the frame has.
pub open spec fn result_field_of(f: UiFrame) -> Option<ResultField> {
    if f.has_output {
        Some(ResultField::Output)
    } else if f.has_result {
        Some(ResultField::Result)
    } else if f.error is Some {
        Some(ResultField::Error)
    } else if f.error_text is Some {
        Some(ResultField::ErrorText)
    } else {
        None
    }
}

/// What an approval request says it is for: the tool's title, else its name, else
/// "a tool".
pub open spec fn permission_summary(d: FrameData) -> Seq<char> {
    "Permission is required to run "@ + match d.tool_title {
        Some(t) => t@,
        None => match d.tool_name {
            Some(n) => n@,
            None => "a tool"@,
        },
    }
}

pub open spec fn type_is(f: UiFrame, t: Seq<char>) -> bool {
    f.frame_type matches Some(k) && k@ == t
}

fn frame_type_is(f: &UiFrame, t: &str) -> (r: bool)
    ensures
        r == type_is(*f, t@),
{
    match &f.frame_type {
        Some(k) => eq_chars(&chars_of(k.as_str()), &chars_of(t)),
        None => false,
    }
}

fn clone_opt_string(o: &Option<String>) -> (r: Option<String>)
    ensures
        opt_view(r) == opt_view(*o),
{
    match o {
        Some(s) => Some(s.clone()),
        None => None,
    }
}

fn lookup_tool_name(names: &Vec<(String, String)>, id: &String) -> (r: Option<String>)
    ensures
        opt_view(r) == tool_name_for(names@, id@),
{
    let mut n: usize = names.len();
    assert(names@.take(n as int) =~= names@);
    while n > 0
        invariant
            n <= names.len(),
            tool_name_for(names@, id@) == tool_name_for(names@.take(n as int), id@),
        decreases n,
    {
        proof {
            assert(names@.take(n as int).drop_last() =~= names@.take(n - 1));
            assert(names@.take(n as int).last() == names@[n - 1]);
        }
        if names[n - 1].0 == *id {
            return Some(names[n - 1].1.clone());
        }
        n = n - 1;
    }
    proof {
        assert(names@.take(0) =~= Seq::<(String, String)>::empty());
    }
    None
}

/// The run event a UI frame projects to, if any. A `tool-input-available` frame
/// records its tool's name under its call id in `tool_names` (the latest record for
/// an id wins); a `tool-output-available` frame reads it back (`tool` when none).
pub fn harness_event_from_ui_frame(frame: &UiFrame, tool_names: &mut Vec<(String, String)>) -> (r:
    Option<RunEvent>)
    ensures
        type_is(*frame, "text-delta"@) ==> match r {
            Some(RunEvent::TextDelta { delta }) => opt_view(frame.delta) == Some(delta@),
            None => frame.delta is None,
            _ => false,
        },
        type_is(*frame, "tool-input-available"@) ==> match r {
            Some(RunEvent::ToolCallStarted { tool_call_id, name, input_present }) => opt_view(
                frame.tool_call_id,
            ) == Some(tool_call_id@) && opt_view(frame.tool_name) == Some(name@) && input_present
                == frame.has_input && final(tool_names)@ == old(tool_names)@.push(
                (tool_call_id, name),
            ),
            None => (frame.tool_call_id is None || frame.tool_name is None) && final(tool_names)@
                == old(tool_names)@,
            _ => false,
        },
        !type_is(*frame, "tool-input-available"@) ==> final(tool_names)@ == old(tool_names)@,
        type_is(*frame, "tool-output-available"@) ==> match r {
            Some(RunEvent::ToolCallCompleted { tool_call_id, name, ok, duration_ms, result_field }) =>
                opt_view(frame.tool_call_id) == Some(tool_call_id@) && name@ == match tool_name_for(
                old(tool_names)@,
                tool_call_id@,
            ) {
                Some(n) => n,
                None => "tool"@,
            } && ok == tool_ok(*frame) && duration_ms == frame.duration_ms && result_field
                == result_field_of(*frame),
            None => frame.tool_call_id is None,
            _ => false,
        },
        type_is(*frame, "data-ryu-permission"@) ==> match r {
            Some(RunEvent::ApprovalRequested { approval_id, summary, options }) => frame.data matches Some(
                d,
            ) && opt_view(d.request_id) == Some(approval_id@) && summary@ == permission_summary(d)
                && options@.map_values(|o: ApprovalOption| option_view(o)) == options_of(
                d.options@.take(if d.options.len() <= 32 { d.options.len() as int } else { 32 }),
            ),
            None => frame.data is None || frame.data->0.request_id is None,
            _ => false,
        },
        type_is(*frame, "data-ryu-assistant-message-id"@) ==> match r {
            Some(RunEvent::Checkpoint { message_id }) => opt_view(message_id) == match frame.data {
                Some(d) => opt_view(d.message_id),
                None => None,
            },
            _ => false,
        },
        !type_is(*frame, "text-delta"@) && !type_is(*frame, "tool-input-available"@) && !type_is(
            *frame,
            "tool-output-available"@,
        ) && !type_is(*frame, "data-ryu-permission"@) && !type_is(
            *frame,
            "data-ryu-assistant-message-id"@,
        ) ==> r is None,
{
    proof {
        // The five frame types have pairwise different lengths, so at most one holds.
        reveal_strlit("text-delta");
        reveal_strlit("tool-input-available");
        reveal_strlit("tool-output-available");
        reveal_strlit("data-ryu-permission");
        reveal_strlit("data-ryu-assistant-message-id");
        assert("text-delta"@.len() == 10);
        assert("tool-input-available"@.len() == 20);
        assert("tool-output-available"@.len() == 21);
        assert("data-ryu-permission"@.len() == 19);
        assert("data-ryu-assistant-message-id"@.len() == 29);
    }
    if frame_type_is(frame, "text-delta") {
        return match &frame.delta {
            Some(d) => Some(RunEvent::TextDelta { delta: d.clone() }),
            None => None,
        };
    }
    if frame_type_is(frame, "tool-input-available") {
        let id = match &frame.tool_call_id {
            Some(i) => i.clone(),
            None => return None,
        };
        let name = match &frame.tool_name {
            Some(n) => n.clone(),
            None => return None,
        };
        tool_names.push((id.clone(), name.clone()));
        return Some(
            RunEvent::ToolCallStarted { tool_call_id: id, name, input_present: frame.has_input },
        );
    }
    if frame_type_is(frame, "tool-output-available") {
        let id = match &frame.tool_call_id {
            Some(i) => i.clone(),
            None => return None,
        };
        let name = match lookup_tool_name(tool_names, &id) {
            Some(n) => n,
            None => "tool".to_owned(),
        };
        let ok = frame.is_error != Some(true) && frame.error.is_none() && frame.error_text.is_none();
        let result_field = if frame.has_output {
            Some(ResultField::Output)
        } else if frame.has_result {
            Some(ResultField::Result)
        } else if frame.error.is_some() {
            Some(ResultField::Error)
        } else if frame.error_text.is_some() {
            Some(ResultField::ErrorText)
        } else {
            None
        };
        return Some(
            RunEvent::ToolCallCompleted {
                tool_call_id: id,
                name,
                ok,
                duration_ms: frame.duration_ms,
                result_field,
            },
        );
    }
    if frame_type_is(frame, "data-ryu-permission") {
        let d = match &frame.data {
            Some(d) => d,
            None => return None,
        };
        let approval_id = match &d.request_id {
            Some(a) => a.clone(),
            None => return None,
        };
        let mut summary = chars_of("Permission is required to run ");
        match &d.tool_title {
            Some(t) => append_chars(&mut summary, &chars_of(t.as_str())),
            None => match &d.tool_name {
                Some(n) => append_chars(&mut summary, &chars_of(n.as_str())),
                None => append_chars(&mut summary, &chars_of("a tool")),
            },
        }
        return Some(
            RunEvent::ApprovalRequested {
                approval_id,
                summary: string_of(&summary),
                options: parse_approval_options(&d.options),
            },
        );
    }
    if frame_type_is(frame, "data-ryu-assistant-message-id") {
        let message_id = match &frame.data {
            Some(d) => clone_opt_string(&d.message_id),
            None => None,
        };
        return Some(RunEvent::Checkpoint { message_id });
    }
    None
}

// ── Reading stream payloads ──────────────────────────────────────────────────

pub ghost struct ApprovalOptionInputV {
    pub option_id: Option<Seq<char>>,
    pub name: Option<Seq<char>>,
    pub kind: Option<Seq<char>>,
}

pub ghost struct FrameDataV {
    pub request_id: Option<Seq<char>>,
    pub tool_title: Option<Seq<char>>,
    pub tool_name: Option<Seq<char>>,
    pub options: Seq<ApprovalOptionInputV>,
    pub message_id: Option<Seq<char>>,
}

/// A UI frame as plain values (see `UiFrame`).
pub ghost struct UiFrameV {
    pub frame_type: Option<Seq<char>>,
    pub delta: Option<Seq<char>>,
    pub tool_call_id: Option<Seq<char>>,
    pub tool_name: Option<Seq<char>>,
    pub has_input: bool,
    pub has_output: bool,
    pub has_result: bool,
    pub error: Option<Option<Seq<char>>>,
    pub error_text: Option<Option<Seq<char>>>,
    pub is_error: Option<bool>,
    pub duration_ms: Option<u64>,
    pub data: Option<FrameDataV>,
}

pub open spec fn opt_opt_view(o: Option<Option<String>>) -> Option<Option<Seq<char>>> {
    match o {
        Some(x) => Some(opt_view(x)),
        None => None,
    }
}

pub open spec fn option_input_view(o: ApprovalOptionInput) -> ApprovalOptionInputV {
    ApprovalOptionInputV {
        option_id: opt_view(o.option_id),
        name: opt_view(o.name),
        kind: opt_view(o.kind),
    }
}

pub open spec fn frame_data_view(d: FrameData) -> FrameDataV {
    FrameDataV {
        request_id: opt_view(d.request_id),
        tool_title: opt_view(d.tool_title),
        tool_name: opt_view(d.tool_name),
        options: d.options@.map_values(|o: ApprovalOptionInput| option_input_view(o)),
        message_id: opt_view(d.message_id),
    }
}

pub open spec fn opt_data_view(o: Option<FrameData>) -> Option<FrameDataV> {
    match o {
        Some(d) => Some(frame_data_view(d)),
        None => None,
    }
}

pub open spec fn frame_view(f: UiFrame) -> UiFrameV {
    UiFrameV {
        frame_type: opt_view(f.frame_type),
        delta: opt_view(f.delta),
        tool_call_id: opt_view(f.tool_call_id),
        tool_name: opt_view(f.tool_name),
        has_input: f.has_input,
        has_output: f.has_output,
        has_result: f.has_result,
        error: opt_opt_view(f.error),
        error_text: opt_opt_view(f.error_text),
        is_error: f.is_error,
        duration_ms: f.duration_ms,
        data: opt_data_view(f.data),
    }
}

pub open spec fn opt_frame_view(o: Option<UiFrame>) -> Option<UiFrameV> {
    match o {
        Some(f) => Some(frame_view(f)),
        None => None,
    }
}

/// The frame's own text and presence members: its error members, duration and
/// `data` left out.
pub open spec fn head_of(v: UiFrameV) -> UiFrameV {
    UiFrameV { error: None, error_text: None, is_error: None, duration_ms: None, data: None, ..v }
}

/// A frame's `data` with its `options` left out.
pub open spec fn without_options(d: FrameDataV) -> FrameDataV {
    FrameDataV { options: Seq::empty(), ..d }
}

/// What `serde_json::from_str::<serde_json::Value>` makes of a chat-stream
/// payload, read as a UI frame: `None` when the payload is not JSON; else each
/// member the harness reads (`type`, `delta`, `toolCallId`, `toolName` when
/// strings; whether `input`, `output`, `result` are present; `error` and
/// `errorText` when present, with their text when strings; `isError` when a
/// boolean; `providerMetadata.ryu.durationMs` when an unsigned integer; and `data`
/// when present, with `requestId`, `toolCall.title`, `toolCall.name`, `messageId`
/// when strings and the `optionId`, `name` and `kind` strings of each entry of
/// `options` when it is an array).
pub uninterp spec fn ui_frame_of(payload: Seq<char>) -> Option<UiFrameV>;

/// `serde_json::from_str::<serde_json::Value>(payload)`, with the frame's text
/// and presence members picked out (see `head_of`). Which payloads parse, and to
/// what, is named by `ui_frame_of`.
#[verifier::external_body]
fn read_frame_head(payload: &str) -> (r: Option<UiFrame>)
    ensures
        match r {
            Some(f) => (ui_frame_of(payload@) matches Some(v) && frame_view(f) == head_of(v)),
            None => ui_frame_of(payload@) is None,
        },
{
    let v: serde_json::Value = serde_json::from_str(payload).ok()?;
    let s = |k: &str| v.get(k).and_then(|x| x.as_str()).map(|x| x.to_owned());
    let has = |k: &str| v.get(k).is_some();
    Some(UiFrame { frame_type: s("type"), delta: s("delta"), tool_call_id: s("toolCallId"),
        tool_name: s("toolName"), has_input: has("input"), has_output: has("output"),
        has_result: has("result"), error: None, error_text: None, is_error: None, duration_ms: None,
        data: None })
}

/// `serde_json::from_str::<serde_json::Value>(payload)`, with the frame's
/// `error`, `errorText`, `isError` and duration picked out. Which payloads parse,
/// and to what, is named by `ui_frame_of`.
#[verifier::external_body]
fn read_frame_outcome(payload: &str) -> (r: Option<(Option<Option<String>>, Option<Option<String>>, Option<bool>, Option<u64>)>)
    ensures
        match r {
            Some(o) => (ui_frame_of(payload@) matches Some(v) && opt_opt_view(o.0) == v.error
                && opt_opt_view(o.1) == v.error_text && o.2 == v.is_error && o.3 == v.duration_ms),
            None => ui_frame_of(payload@) is None,
        },
{
    let v: serde_json::Value = serde_json::from_str(payload).ok()?;
    let t = |k: &str| v.get(k).map(|x| x.as_str().map(|y| y.to_owned()));
    Some((t("error"), t("errorText"), v.get("isError").and_then(|x| x.as_bool()),
        v.pointer("/providerMetadata/ryu/durationMs").and_then(|x| x.as_u64())))
}

/// `serde_json::from_str::<serde_json::Value>(payload)`, with the frame's `data`
/// member picked out, its `options` left out (`None` also when the payload is not
/// JSON). Which payloads parse, and to what, is named by `ui_frame_of`.
#[verifier::external_body]
fn read_frame_data(payload: &str) -> (r: Option<FrameData>)
    ensures
        match r {
            Some(d) => (ui_frame_of(payload@) matches Some(v) && v.data matches Some(dv)
                && frame_data_view(d) == without_options(dv)),
            None => (ui_frame_of(payload@) matches Some(v) ==> v.data is None),
        },
{
    let v: serde_json::Value = serde_json::from_str(payload).ok()?;
    let d = v.get("data")?;
    let s = |p: &str| d.pointer(p).and_then(|y| y.as_str()).map(|y| y.to_owned());
    Some(FrameData { request_id: s("/requestId"), tool_title: s("/toolCall/title"),
        tool_name: s("/toolCall/name"), options: Vec::new(), message_id: s("/messageId") })
}

/// `serde_json::from_str::<serde_json::Value>(payload)`, with the entries of the
/// frame's `data.options` picked out (empty when the payload is not JSON or has
/// no such array). Which payloads parse, and to what, is named by `ui_frame_of`.
#[verifier::external_body]
fn read_frame_options(payload: &str) -> (r: Vec<ApprovalOptionInput>)
    ensures
        r@.map_values(|o: ApprovalOptionInput| option_input_view(o)) == match ui_frame_of(payload@) {
            Some(v) => match v.data {
                Some(d) => d.options,
                None => Seq::empty(),
            },
            None => Seq::empty(),
        },
{
    let v: Option<serde_json::Value> = serde_json::from_str(payload).ok();
    let a = v.as_ref().and_then(|v| v.pointer("/data/options")).and_then(|o| o.as_array());
    let s = |o: &serde_json::Value, k: &str| o.get(k).and_then(|y| y.as_str()).map(|y| y.to_owned());
    a.map(|a| a.iter().map(|o| ApprovalOptionInput { option_id: s(o, "optionId"), name: s(o, "name"),
        kind: s(o, "kind") }).collect()).unwrap_or_default()
}

/// A chat-stream payload read as a UI frame (see `ui_frame_of`).
pub fn read_ui_frame(payload: &str) -> (r: Option<UiFrame>)
    ensures
        opt_frame_view(r) == ui_frame_of(payload@),
{
    let head = match read_frame_head(payload) {
        None => {
            return None;
        },
        Some(f) => f,
    };
    let (error, error_text, is_error, duration_ms) = match read_frame_outcome(payload) {
        Some(o) => o,
        None => {
            return None;
        },
    };
    let options = read_frame_options(payload);
    let data = match read_frame_data(payload) {
        Some(d) => Some(FrameData { options, ..d }),
        None => None,
    };
    let g = UiFrame { error, error_text, is_error, duration_ms, data, ..head };
    proof {
        let v = ui_frame_of(payload@).unwrap();
        if v.data is Some {
            assert(opt_data_view(g.data) == v.data);
        }
        assert(frame_view(g) == v);
    }
    Some(g)
}

// ── Following a chat stream ──────────────────────────────────────────────────

/// What a run has seen of its chat stream so far.
pub struct StreamProgress {
    /// The text deltas, concatenated.
    pub output: String,
    /// Why the stream failed, once an error frame arrived.
    pub failure: Option<String>,
    /// The `[DONE]` marker arrived.
    pub saw_done: bool,
}

pub open spec fn type_v(f: UiFrameV, t: Seq<char>) -> bool {
    f.frame_type == Some(t)
}

/// The failure an `error` frame reports: its `errorText` when present (the text
/// when it is a string), else its `error` likewise, else "chat stream failed".
pub open spec fn error_frame_failure(f: UiFrameV) -> Seq<char> {
    let picked = match f.error_text {
        Some(v) => v,
        None => match f.error {
            Some(v) => v,
            None => None,
        },
    };
    match picked {
        Some(s) => s,
        None => "chat stream failed"@,
    }
}

/// The most output a run keeps, in bytes.
pub const MAX_RUN_OUTPUT_BYTES: usize = 10000000;

/// A run's output with a frame's `delta` text appended.
pub open spec fn grown_output(out: Seq<char>, f: UiFrameV) -> Seq<char> {
    out + match f.delta {
        Some(d) => d,
        None => Seq::<char>::empty(),
    }
}

/// A `text-delta` frame that leaves the output over `MAX_RUN_OUTPUT_BYTES` bytes.
pub open spec fn overflows_output(out: Seq<char>, f: UiFrameV) -> bool {
    &&& type_v(f, "text-delta"@)
    &&& f.delta is Some
    &&& vstd::utf8::encode_utf8(grown_output(out, f)).len() > MAX_RUN_OUTPUT_BYTES
}

/// The output once a frame is taken in: its `delta` appended and, after a
/// `text-delta` frame, cut back to its first `MAX_RUN_OUTPUT_BYTES` bytes when
/// longer.
pub open spec fn output_after(out: Seq<char>, f: UiFrameV) -> Seq<char> {
    if overflows_output(out, f) {
        prefix_within(grown_output(out, f), MAX_RUN_OUTPUT_BYTES as int)
    } else {
        grown_output(out, f)
    }
}

/// Where the output is cut, the cut falls between two characters.
pub open spec fn cut_on_char_boundary(out: Seq<char>, f: UiFrameV) -> bool {
    overflows_output(out, f) ==> vstd::utf8::encode_utf8(
        prefix_within(grown_output(out, f), MAX_RUN_OUTPUT_BYTES as int),
    ).len() == MAX_RUN_OUTPUT_BYTES
}

/// The payload may be taken in: it is `[DONE]`, not JSON, or a frame whose cut
/// (if any) falls between two characters.
pub open spec fn payload_fits(out: Seq<char>, payload: Seq<char>) -> bool {
    payload != "[DONE]"@ ==> (ui_frame_of(payload) matches Some(f) ==> cut_on_char_boundary(out, f))
}

/// Take one event payload of the chat stream into account, and give back the
/// frame it reads as (`None` for `[DONE]` and for a payload that is not JSON).
/// `[DONE]` marks the stream complete; a frame's `delta` text is appended to the
/// output, which a `text-delta` frame then cuts back to `MAX_RUN_OUTPUT_BYTES`
/// bytes when longer (that byte must end a character: see `try_absorb_payload`);
/// an `error` frame records the failure.
pub fn absorb_payload(progress: &mut StreamProgress, payload: &str) -> (frame: Option<UiFrame>)
    requires
        payload_fits(old(progress).output@, payload@),
    ensures
        payload@ == "[DONE]"@ ==> frame is None && final(progress).saw_done && final(progress).output@
            == old(progress).output@ && opt_view(final(progress).failure) == opt_view(
            old(progress).failure,
        ),
        payload@ != "[DONE]"@ ==> opt_frame_view(frame) == ui_frame_of(payload@) && final(progress).saw_done == old(progress).saw_done && match ui_frame_of(payload@) {
            None => final(progress).output@ == old(progress).output@ && opt_view(
                final(progress).failure,
            ) == opt_view(old(progress).failure),
            Some(f) => final(progress).output@ == output_after(old(progress).output@, f)
                && opt_view(final(progress).failure) == if type_v(f, "error"@) {
                Some(error_frame_failure(f))
            } else {
                opt_view(old(progress).failure)
            },
        },
{
    if eq_chars(&chars_of(payload), &chars_of("[DONE]")) {
        progress.saw_done = true;
        return None;
    }
    let frame = read_ui_frame(payload);
    let f = match &frame {
        None => {
            return frame;
        },
        Some(f) => f,
    };
    match &f.delta {
        Some(d) => {
            let mut out = chars_of(progress.output.as_str());
            append_chars(&mut out, &chars_of(d.as_str()));
            progress.output = string_of(&out);
        },
        None => {},
    }
    proof {
        assert(progress.output@ == grown_output(old(progress).output@, frame_view(*f)));
    }
    if frame_type_is(f, "text-delta") && f.delta.is_some() {
        let out = chars_of(progress.output.as_str());
        if !utf8_len_at_most(&out, MAX_RUN_OUTPUT_BYTES) {
            progress.output = string_of(&utf8_prefix(&out, MAX_RUN_OUTPUT_BYTES));
        }
    }
    if frame_type_is(f, "error") {
        let picked: Option<String> = match &f.error_text {
            Some(v) => clone_opt_string(v),
            None => match &f.error {
                Some(v) => clone_opt_string(v),
                None => None,
            },
        };
        progress.failure = match picked {
            Some(s) => Some(s),
            None => Some("chat stream failed".to_owned()),
        };
    }
    frame
}

/// Whether taking `f` in after `out` would cut the output inside a character.
fn cut_is_clean(out: &str, f: &UiFrame) -> (r: bool)
    ensures
        r == cut_on_char_boundary(out@, frame_view(*f)),
{
    let d = match &f.delta {
        Some(d) => d,
        None => {
            return true;
        },
    };
    if !frame_type_is(f, "text-delta") {
        return true;
    }
    let mut g = chars_of(out);
    append_chars(&mut g, &chars_of(d.as_str()));
    if utf8_len_at_most(&g, MAX_RUN_OUTPUT_BYTES) {
        return true;
    }
    let p = utf8_prefix(&g, MAX_RUN_OUTPUT_BYTES);
    utf8_len_at_most(&p, MAX_RUN_OUTPUT_BYTES) && !utf8_len_at_most(&p, MAX_RUN_OUTPUT_BYTES - 1)
}

/// `absorb_payload` where the payload may be taken in (see `payload_fits`);
/// `None`, with the progress unchanged, where its cut would fall inside a
/// character.
pub fn try_absorb_payload(progress: &mut StreamProgress, payload: &str) -> (r: Option<
    Option<UiFrame>,
>)
    ensures
        payload_fits(old(progress).output@, payload@) <==> r is Some,
        r is None ==> final(progress).output@ == old(progress).output@ && opt_view(
            final(progress).failure,
        ) == opt_view(old(progress).failure) && final(progress).saw_done == old(progress).saw_done,
        r matches Some(frame) ==> (payload@ == "[DONE]"@ ==> frame is None && final(progress).saw_done && final(progress).output@ == old(progress).output@ && opt_view(
            final(progress).failure,
        ) == opt_view(old(progress).failure)) && (payload@ != "[DONE]"@ ==> opt_frame_view(frame)
            == ui_frame_of(payload@) && final(progress).saw_done == old(progress).saw_done
            && match ui_frame_of(payload@) {
            None => final(progress).output@ == old(progress).output@ && opt_view(
                final(progress).failure,
            ) == opt_view(old(progress).failure),
            Some(f) => final(progress).output@ == output_after(old(progress).output@, f)
                && opt_view(final(progress).failure) == if type_v(f, "error"@) {
                Some(error_frame_failure(f))
            } else {
                opt_view(old(progress).failure)
            },
        }),
{
    if !eq_chars(&chars_of(payload), &chars_of("[DONE]")) {
        match read_ui_frame(payload) {
            Some(f) => {
                if !cut_is_clean(progress.output.as_str(), &f) {
                    return None;
                }
            },
            None => {},
        }
    }
    Some(absorb_payload(progress, payload))
}

// ── Dispatch ─────────────────────────────────────────────────────────────────

/// The run's status once an event was recorded: waiting on the user after an
/// approval request, running otherwise.
pub fn status_after_event(event: &RunEvent) -> (r: RunStatus)
    ensures
        r == if event is ApprovalRequested {
            RunStatus::AwaitingApproval
        } else {
            RunStatus::Running
        },
{
    match event {
        RunEvent::ApprovalRequested { .. } => RunStatus::AwaitingApproval,
        _ => RunStatus::Running,
    }
}

/// Which chat target a session's run is dispatched to: the runnable as the
/// agent for an agent session, as the workflow for a workflow session.
pub fn dispatch_targets(kind: RunnableKind, runnable_id: &str) -> (r: (Option<String>, Option<String>))
    ensures
        match r.0 {
            Some(a) => kind == RunnableKind::Agent && a@ == runnable_id@,
            None => kind != RunnableKind::Agent,
        },
        match r.1 {
            Some(w) => kind == RunnableKind::Workflow && w@ == runnable_id@,
            None => kind != RunnableKind::Workflow,
        },
{
    let agent = if kind == RunnableKind::Agent {
        Some(runnable_id.to_owned())
    } else {
        None
    };
    let workflow = if kind == RunnableKind::Workflow {
        Some(runnable_id.to_owned())
    } else {
        None
    };
    (agent, workflow)
}

/// A run's input given as a bare prompt becomes one user message with that text;
/// a blank prompt is refused (`Err("input.prompt must not be empty")`).
pub fn prompt_message(prompt: &str) -> (r: Result<(String, String), &'static str>)
    ensures
        match r {
            Ok((role, text)) => trim_ws(prompt@).len() > 0 && role@ == "user"@ && text@ == prompt@,
            Err(e) => trim_ws(prompt@).len() == 0 && e@ == "input.prompt must not be empty"@,
        },
{
    if trimmed(&chars_of(prompt), CharClass::Whitespace).len() == 0 {
        return Err("input.prompt must not be empty");
    }
    Ok(("user".to_owned(), prompt.to_owned()))
}

/// Whether an event ends a run's event stream.
pub open spec fn is_terminal_status(s: RunStatus) -> bool {
    s == RunStatus::Completed || s == RunStatus::Failed || s == RunStatus::Interrupted || s
        == RunStatus::Canceled
}

/// A run's status is terminal once it completed, failed, was interrupted or
/// canceled.
pub fn status_is_terminal(s: RunStatus) -> (r: bool)
    ensures
        r == is_terminal_status(s),
{
    match s {
        RunStatus::Completed | RunStatus::Failed | RunStatus::Interrupted | RunStatus::Canceled => true,
        RunStatus::Running | RunStatus::AwaitingApproval => false,
    }
}

/// Every way a chat stream ends leaves its run in a terminal status.
pub proof fn lemma_stream_end_is_terminal(failed: bool, saw_done: bool)
    ensures
        is_terminal_status(
            if failed {
                RunStatus::Failed
            } else if saw_done {
                RunStatus::Completed
            } else {
                RunStatus::Interrupted
            },
        ),
{
}

} // verus!
