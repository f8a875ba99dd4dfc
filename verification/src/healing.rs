//! Self-healing: the throwaway failed run that exercises the heal loop, and who
//! may create it.
use vstd::prelude::*;
use crate::conversations::Tenancy;
use crate::ids::{fresh_prefixed_id, is_simple_uuid};

verus! {

/// The instruction a simulated failed run stores when none is given.
pub const DEFAULT_SIMULATED_PROMPT: &'static str = "Summarize the attached report.";

/// The title of a simulated failed run.
pub const SIMULATED_RUN_TITLE: &'static str = "Simulated failed run";

/// The failure output a simulated run stores for the diagnosis to read.
pub const SIMULATED_FAILURE_OUTPUT: &'static str = "Error: tool `read_file` failed — file not found.";

/// What a simulated failed run writes: a conversation with a user instruction
/// and a failing assistant reply, stamped with the caller's tenancy.
pub struct SimulatedFailure {
    pub conversation_id: String,
    pub prompt: String,
    pub tenancy: Tenancy,
}

/// Creating a conversation needs a principal on an org-bound node: an
/// unattributed caller there is refused rather than given an unreachable row.
pub open spec fn simulation_refused(tenancy: Tenancy, node_bound: bool) -> bool {
    tenancy is Unattributed && node_bound
}

/// `POST /api/healing/simulate-failure`: the run to create, with a fresh
/// `simfail_` id and the given prompt (`DEFAULT_SIMULATED_PROMPT` when none),
/// or the refusal (a 403) when `simulation_refused`.
pub fn plan_simulated_failure(prompt: Option<&str>, tenancy: Tenancy, node_bound: bool) -> (r:
    Result<SimulatedFailure, &'static str>)
    ensures
        match r {
            Ok(p) => {
                &&& !simulation_refused(tenancy, node_bound)
                &&& p.tenancy == tenancy
                &&& p.prompt@ == match prompt {
                    Some(s) => s@,
                    None => DEFAULT_SIMULATED_PROMPT@,
                }
                &&& p.conversation_id@.take(8) == "simfail_"@
                &&& is_simple_uuid(p.conversation_id@.skip(8))
            },
            Err(e) => simulation_refused(tenancy, node_bound) && e@
                == "forbidden: a signed-in user is required to create a conversation on this node"@,
        },
{
    let unattributed = match &tenancy {
        Tenancy::Unattributed => true,
        Tenancy::Owned { .. } => false,
    };
    if unattributed && node_bound {
        return Err("forbidden: a signed-in user is required to create a conversation on this node");
    }
    let conversation_id = fresh_prefixed_id("simfail_");
    proof {
        reveal_strlit("simfail_");
    }
    let prompt = match prompt {
        Some(s) => s.to_owned(),
        None => DEFAULT_SIMULATED_PROMPT.to_owned(),
    };
    Ok(SimulatedFailure { conversation_id, prompt, tenancy })
}

} // verus!
