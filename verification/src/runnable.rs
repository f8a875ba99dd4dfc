//! The kinds of thing a session can run.
use vstd::prelude::*;

verus! {

/// What a session runs: an agent, a workflow, a tool, a skill, or one of the
/// long-lived kinds (companion, channel, engine, policy).
#[derive(Clone, Copy, Debug, PartialEq, Eq, Structural)]
pub enum RunnableKind {
    Agent,
    Workflow,
    Tool,
    Skill,
    Companion,
    Channel,
    Engine,
    Policy,
}

/// The name a kind is stored and sent under.
pub open spec fn kind_text(k: RunnableKind) -> Seq<char> {
    match k {
        RunnableKind::Agent => "agent"@,
        RunnableKind::Workflow => "workflow"@,
        RunnableKind::Tool => "tool"@,
        RunnableKind::Skill => "skill"@,
        RunnableKind::Companion => "companion"@,
        RunnableKind::Channel => "channel"@,
        RunnableKind::Engine => "engine"@,
        RunnableKind::Policy => "policy"@,
    }
}

impl RunnableKind {
    /// See `kind_text`.
    pub fn as_str(&self) -> (r: &'static str)
        ensures
            r@ == kind_text(*self),
    {
        match self {
            RunnableKind::Agent => "agent",
            RunnableKind::Workflow => "workflow",
            RunnableKind::Tool => "tool",
            RunnableKind::Skill => "skill",
            RunnableKind::Companion => "companion",
            RunnableKind::Channel => "channel",
            RunnableKind::Engine => "engine",
            RunnableKind::Policy => "policy",
        }
    }
}

} // verus!
