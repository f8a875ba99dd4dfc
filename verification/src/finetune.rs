//! Fine-tuning: whether a node can train locally, where a job is started and
//! what is recorded of it, how a sidecar snapshot is mirrored into the record,
//! and what a merged adapter is registered as.
use vstd::prelude::*;
use crate::clips::opt_view;
use crate::ids::prefixed;
use crate::text::{CharClass, chars_of, eq_chars, string_of, trim_end, trim_ws, trimmed, trimmed_end};

verus! {

pub const REASON_UNIFIED_MEMORY: &'static str = "Apple Silicon / unified memory detected — Unsloth training needs an NVIDIA CUDA GPU. Use a remote GPU node instead.";

pub const REASON_NO_GPU: &'static str = "No NVIDIA GPU detected — Unsloth training needs a CUDA GPU. Use a remote GPU node instead.";

pub const REASON_UNSUPPORTED_GPU: &'static str = "This GPU is not supported for training — use a remote GPU node instead.";

/// What the device probe found that decides local training.
pub struct GpuProbe {
    /// The NVIDIA GPU `nvidia-smi` reported, if any.
    pub gpu_name: Option<String>,
    /// Apple-style unified memory.
    pub unified_memory: bool,
}

/// Local training needs a discrete (non-unified) NVIDIA GPU.
pub open spec fn can_train_local(dev: GpuProbe) -> bool {
    dev.gpu_name is Some && !dev.unified_memory
}

/// Why a node cannot train locally (empty when it can).
pub open spec fn local_refusal_reason(dev: GpuProbe) -> Seq<char> {
    if can_train_local(dev) {
        Seq::empty()
    } else if dev.unified_memory {
        REASON_UNIFIED_MEMORY@
    } else if dev.gpu_name is None {
        REASON_NO_GPU@
    } else {
        REASON_UNSUPPORTED_GPU@
    }
}

/// Whether this node can train locally, and a human reason when it cannot.
pub fn local_capability(dev: &GpuProbe) -> (r: (bool, String))
    ensures
        r.0 == can_train_local(*dev),
        r.1@ == local_refusal_reason(*dev),
{
    if dev.gpu_name.is_some() && !dev.unified_memory {
        return (true, String::new());
    }
    let reason = if dev.unified_memory {
        REASON_UNIFIED_MEMORY.to_owned()
    } else if dev.gpu_name.is_none() {
        REASON_NO_GPU.to_owned()
    } else {
        REASON_UNSUPPORTED_GPU.to_owned()
    };
    (false, reason)
}

/// What a start request carries that the dispatch reads (the rest is forwarded
/// to the trainer as it is).
pub struct StartRequest {
    pub base_model_id: Option<String>,
    /// `local` (the default) or `remote`.
    pub target: Option<String>,
    pub output_name: Option<String>,
    /// `remote.url` and `remote.token`.
    pub remote_url: Option<String>,
    pub remote_token: Option<String>,
}

/// Where a job starts.
pub enum StartPlan {
    /// On this node's sidecar.
    Local { base_model: String, target: String },
    /// Forwarded to a remote GPU node's Core, at `endpoint`.
    Remote { base_model: String, url: String, token: Option<String>, endpoint: String },
}

/// Why a start request is refused (each a 400).
pub enum StartRefusal {
    MissingBaseModel,
    RemoteNeedsUrl,
    /// The node cannot train locally, with the reason.
    CannotTrainLocal { reason: String },
}

impl StartRefusal {
    /// The error text of the refusal.
    pub fn message(&self) -> (r: String)
        ensures
            r@ == match self {
                StartRefusal::MissingBaseModel => "missing `base_model_id`"@,
                StartRefusal::RemoteNeedsUrl => "remote target needs `remote.url`"@,
                StartRefusal::CannotTrainLocal { reason } => reason@,
            },
    {
        match self {
            StartRefusal::MissingBaseModel => "missing `base_model_id`".to_owned(),
            StartRefusal::RemoteNeedsUrl => "remote target needs `remote.url`".to_owned(),
            StartRefusal::CannotTrainLocal { reason } => reason.clone(),
        }
    }
}

/// A remote node's base URL: trimmed, with every trailing `/` removed.
pub open spec fn remote_base(url: Option<Seq<char>>) -> Seq<char> {
    match url {
        Some(u) => trim_end(trim_ws(u), CharClass::Slash),
        None => Seq::empty(),
    }
}

pub open spec fn base_model_of(req: StartRequest) -> Seq<char> {
    match req.base_model_id {
        Some(b) => trim_ws(b@),
        None => Seq::empty(),
    }
}

pub open spec fn target_of(req: StartRequest) -> Seq<char> {
    match req.target {
        Some(t) => t@,
        None => "local"@,
    }
}

/// The decision of `POST /api/finetune/start`, in order: a base model is
/// required; a `remote` target needs a URL and goes to that node; any other
/// target trains here, when the node can.
pub open spec fn start_decision(req: StartRequest, dev: GpuProbe) -> Result<
    (Seq<char>, Seq<char>),
    Seq<char>,
> {
    if base_model_of(req).len() == 0 {
        Err("missing `base_model_id`"@)
    } else if target_of(req) == "remote"@ {
        if remote_base(opt_view(req.remote_url)).len() == 0 {
            Err("remote target needs `remote.url`"@)
        } else {
            Ok(("remote"@, remote_base(opt_view(req.remote_url))))
        }
    } else if !can_train_local(dev) {
        Err(local_refusal_reason(dev))
    } else {
        Ok((target_of(req), Seq::empty()))
    }
}

/// Decide where a start request goes (see `start_decision`).
pub fn plan_start(req: &StartRequest, dev: &GpuProbe) -> (r: Result<StartPlan, StartRefusal>)
    ensures
        match r {
            Ok(StartPlan::Local { base_model, target }) => {
                &&& base_model@ == base_model_of(*req)
                &&& start_decision(*req, *dev) == Ok::<(Seq<char>, Seq<char>), Seq<char>>(
                    (target@, Seq::empty()),
                )
                &&& target@ != "remote"@
            },
            Ok(StartPlan::Remote { base_model, url, token, endpoint }) => {
                &&& base_model@ == base_model_of(*req)
                &&& start_decision(*req, *dev) == Ok::<(Seq<char>, Seq<char>), Seq<char>>(
                    ("remote"@, url@),
                )
                &&& opt_view(token) == opt_view(req.remote_token)
                &&& endpoint@ == url@ + "/api/finetune/start"@
            },
            Err(e) => start_decision(*req, *dev) == Err::<(Seq<char>, Seq<char>), Seq<char>>(
                match e {
                    StartRefusal::MissingBaseModel => "missing `base_model_id`"@,
                    StartRefusal::RemoteNeedsUrl => "remote target needs `remote.url`"@,
                    StartRefusal::CannotTrainLocal { reason } => reason@,
                },
            ),
        },
{
    let base_model = match &req.base_model_id {
        Some(b) => string_of(&trimmed(&chars_of(b.as_str()), CharClass::Whitespace)),
        None => String::new(),
    };
    if base_model.as_str().unicode_len() == 0 {
        return Err(StartRefusal::MissingBaseModel);
    }
    let target = match &req.target {
        Some(t) => t.clone(),
        None => "local".to_owned(),
    };
    proof {
        reveal_strlit("local");
        reveal_strlit("remote");
    }
    if eq_chars(&chars_of(target.as_str()), &chars_of("remote")) {
        let url = match &req.remote_url {
            Some(u) => string_of(
                &trimmed_end(&trimmed(&chars_of(u.as_str()), CharClass::Whitespace), CharClass::Slash),
            ),
            None => String::new(),
        };
        if url.as_str().unicode_len() == 0 {
            return Err(StartRefusal::RemoteNeedsUrl);
        }
        let token = match &req.remote_token {
            Some(t) => Some(t.clone()),
            None => None,
        };
        let endpoint = prefixed(url.as_str(), "/api/finetune/start");
        return Ok(StartPlan::Remote { base_model, url, token, endpoint });
    }
    let (can_local, reason) = local_capability(dev);
    if !can_local {
        return Err(StartRefusal::CannotTrainLocal { reason });
    }
    Ok(StartPlan::Local { base_model, target })
}

/// The durable record of a fine-tune job.
pub struct FinetuneJob {
    pub id: String,
    pub base_model: String,
    pub output_name: Option<String>,
    pub state: String,
    pub target: String,
    pub remote_url: Option<String>,
    pub remote_token: Option<String>,
    pub output_ref: Option<String>,
    pub error: Option<String>,
    pub created_at: String,
    pub updated_at: String,
}

/// The record of a job that `plan` started, from what the trainer answered
/// (`job_id`, `state`; an absent id is empty and an absent state is
/// `running`), created and updated at `now`.
pub fn started_job(
    plan: &StartPlan,
    job_id: Option<&str>,
    job_state: Option<&str>,
    output_name: Option<String>,
    now: String,
) -> (r: FinetuneJob)
    ensures
        r.id@ == match job_id {
            Some(s) => s@,
            None => Seq::<char>::empty(),
        },
        r.state@ == match job_state {
            Some(s) => s@,
            None => "running"@,
        },
        opt_view(r.output_name) == opt_view(output_name),
        match plan {
            StartPlan::Local { base_model, target } => {
                &&& r.base_model@ == base_model@
                &&& r.target@ == target@
                &&& r.remote_url is None
                &&& r.remote_token is None
            },
            StartPlan::Remote { base_model, url, token, .. } => {
                &&& r.base_model@ == base_model@
                &&& r.target@ == "remote"@
                &&& opt_view(r.remote_url) == Some(url@)
                &&& opt_view(r.remote_token) == opt_view(*token)
            },
        },
        r.output_ref is None,
        r.error is None,
        r.created_at@ == now@,
        r.updated_at@ == now@,
{
    let id = match job_id {
        Some(s) => s.to_owned(),
        None => String::new(),
    };
    let state = match job_state {
        Some(s) => s.to_owned(),
        None => "running".to_owned(),
    };
    let (base_model, target, remote_url, remote_token) = match plan {
        StartPlan::Local { base_model, target } => (base_model.clone(), target.clone(), None, None),
        StartPlan::Remote { base_model, url, token, .. } => (
            base_model.clone(),
            "remote".to_owned(),
            Some(url.clone()),
            match token {
                Some(t) => Some(t.clone()),
                None => None,
            },
        ),
    };
    let created_at = now.clone();
    FinetuneJob {
        id,
        base_model,
        output_name,
        state,
        target,
        remote_url,
        remote_token,
        output_ref: None,
        error: None,
        created_at,
        updated_at: now,
    }
}

/// Where a job's snapshot, cancel and stream are proxied when it ran on a
/// remote node: its URL and token. `None` for a local job.
pub fn remote_of(job: &FinetuneJob) -> (r: Option<(String, Option<String>)>)
    ensures
        match r {
            Some((u, t)) => job.target@ == "remote"@ && opt_view(job.remote_url) == Some(u@)
                && opt_view(t) == opt_view(job.remote_token),
            None => job.target@ != "remote"@ || job.remote_url is None,
        },
{
    proof {
        reveal_strlit("remote");
    }
    if !eq_chars(&chars_of(job.target.as_str()), &chars_of("remote")) {
        return None;
    }
    match &job.remote_url {
        Some(u) => Some(
            (
                u.clone(),
                match &job.remote_token {
                    Some(t) => Some(t.clone()),
                    None => None,
                },
            ),
        ),
        None => None,
    }
}

/// A remote node's job URL: `{base}/api/finetune/{id}{suffix}` (the suffix is
/// empty for the snapshot and cancel, `/stream` for the progress stream).
pub fn remote_job_url(base: &str, id: &str, suffix: &str) -> (r: String)
    ensures
        r@ == base@ + "/api/finetune/"@ + id@ + suffix@,
{
    let a = prefixed(base, "/api/finetune/");
    let b = prefixed(a.as_str(), id);
    prefixed(b.as_str(), suffix)
}

/// What a sidecar snapshot changes in the stored record.
pub enum SnapshotSync {
    /// The snapshot has no state: nothing is written.
    Skip,
    /// The state, output and error are written; a `succeeded` job with an
    /// output also has its adapter indexed.
    Update { state: String, output_ref: Option<String>, error: Option<String>, index_adapter: bool },
}

/// How a snapshot (`state`, `output_dir`, `error`) is mirrored into the store.
pub fn snapshot_sync(state: Option<&str>, output_dir: Option<&str>, error: Option<&str>) -> (r:
    SnapshotSync)
    ensures
        match r {
            SnapshotSync::Skip => match state {
                Some(s) => s@.len() == 0,
                None => true,
            },
            SnapshotSync::Update { state: s, output_ref, error: e, index_adapter } => {
                &&& state matches Some(t) && t@ == s@ && s@.len() > 0
                &&& opt_view(output_ref) == match output_dir {
                    Some(o) => Some(o@),
                    None => None,
                }
                &&& opt_view(e) == match error {
                    Some(x) => Some(x@),
                    None => None,
                }
                &&& index_adapter == (s@ == "succeeded"@ && output_dir is Some)
            },
        },
{
    let s = match state {
        Some(s) => s,
        None => "",
    };
    proof {
        reveal_strlit("");
        reveal_strlit("succeeded");
    }
    if s.unicode_len() == 0 {
        return SnapshotSync::Skip;
    }
    let index_adapter = eq_chars(&chars_of(s), &chars_of("succeeded")) && output_dir.is_some();
    SnapshotSync::Update {
        state: s.to_owned(),
        output_ref: match output_dir {
            Some(o) => Some(o.to_owned()),
            None => None,
        },
        error: match error {
            Some(x) => Some(x.to_owned()),
            None => None,
        },
        index_adapter,
    }
}

/// The final component of a path (`std::path::Path::file_name`), as text.
pub uninterp spec fn path_file_name(path: Seq<char>) -> Option<Seq<char>>;

/// `std::path::Path::new(path).file_name()`, converted to text: the last
/// component of the path, none when the path ends in `..` or is a root. What it
/// is is named by `path_file_name`, not spelled out.
#[verifier::external_body]
fn file_name_of(path: &str) -> (r: Option<String>)
    ensures
        opt_view(r) == path_file_name(path@),
{
    std::path::Path::new(path).file_name().map(|s| s.to_string_lossy().to_string())
}

/// The stem an indexed adapter is filed under: the job's output name, else the
/// file name of its output, else the job id.
pub open spec fn adapter_stem_of(
    output_name: Option<Seq<char>>,
    output_ref: Seq<char>,
    id: Seq<char>,
) -> Seq<char> {
    match output_name {
        Some(n) => n,
        None => match path_file_name(output_ref) {
            Some(f) => f,
            None => id,
        },
    }
}

/// See `adapter_stem_of`.
pub fn adapter_stem(output_name: &Option<String>, output_ref: &str, id: &str) -> (r: String)
    ensures
        r@ == adapter_stem_of(opt_view(*output_name), output_ref@, id@),
{
    match output_name {
        Some(n) => n.clone(),
        None => match file_name_of(output_ref) {
            Some(f) => f,
            None => id.to_owned(),
        },
    }
}

/// A merge names the adapter by name or by path; with neither it is refused
/// (`Err("need `adapter_name` or `adapter_path`")`, a 400).
pub fn check_merge(has_adapter_name: bool, has_adapter_path: bool) -> (r: Result<(), &'static str>)
    ensures
        match r {
            Ok(()) => has_adapter_name || has_adapter_path,
            Err(e) => !has_adapter_name && !has_adapter_path && e@
                == "need `adapter_name` or `adapter_path`"@,
        },
{
    if !has_adapter_name && !has_adapter_path {
        Err("need `adapter_name` or `adapter_path`")
    } else {
        Ok(())
    }
}

/// The installed-model entry a merged GGUF is registered as.
pub struct MergedModel {
    pub repo_id: String,
    pub filename: String,
    pub stem: String,
    pub size_bytes: Option<u64>,
    /// Provenance: the base model this GGUF is a merged fine-tune of.
    pub finetune_base: Option<String>,
}

/// The entry for a merge that produced `stem` from `base_model` (empty when the
/// trainer did not say): filed as `{stem}.gguf` under the base model's repo.
pub fn merged_model(stem: &str, base_model: Option<&str>, size_bytes: Option<u64>) -> (r: MergedModel)
    ensures
        r.repo_id@ == match base_model {
            Some(b) => b@,
            None => Seq::<char>::empty(),
        },
        r.filename@ == stem@ + ".gguf"@,
        r.stem@ == stem@,
        r.size_bytes == size_bytes,
        opt_view(r.finetune_base) == Some(r.repo_id@),
{
    let base = match base_model {
        Some(b) => b.to_owned(),
        None => String::new(),
    };
    MergedModel {
        repo_id: base.clone(),
        filename: prefixed(stem, ".gguf"),
        stem: stem.to_owned(),
        size_bytes,
        finetune_base: Some(base),
    }
}

} // verus!
