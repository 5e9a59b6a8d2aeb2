//! Which runner a node's sessions resolve, which agent they run as,
//! whether they may mount the run's tools, and what refuses a resolution
//! before a token is spent. Resolving the role
//! against the configured candidates and adapters is the caller's.

use vstd::prelude::*;
use vstd::string::StringExecFns;

use crate::ledger::dup_text;
use crate::workflow::{ArtifactKind, ArtifactSpec, Node};

verus! {

/// The failure of a node with no runner to resolve.
pub open spec fn no_runner_spec(node: Seq<char>) -> Seq<char> {
    "node `"@ + node + "` has no `runner:` and the config declares no `defaults.runner` \u{2014} declare one"@
}

/// The role a node's sessions resolve: its own `runner:`, else the
/// config's `defaults.runner`; a node with neither fails.
pub fn runner_role(node: &Node, default_runner: Option<&String>) -> (role: Result<String, String>)
    ensures
        match node.runner {
            Some(own) => role == Ok::<String, String>(own),
            None => match default_runner {
                Some(fallback) => role == Ok::<String, String>(*fallback),
                None => role matches Err(failure) && failure@ == no_runner_spec(node.id@),
            },
        },
{
    match &node.runner {
        Some(own) => Ok(own.clone()),
        None => match default_runner {
            Some(fallback) => Ok(fallback.clone()),
            None => {
                let mut failure = String::from_str("node `");
                failure.append(node.id.as_str());
                failure.append("` has no `runner:` and the config declares no `defaults.runner` \u{2014} declare one");
                Err(failure)
            },
        },
    }
}

/// The agent a node's sessions run as: its own `agent:` wins over the
/// resolved candidate's.
pub fn chosen_agent(node: &Node, candidate_agent: Option<String>) -> (agent: Option<String>)
    ensures
        agent == match node.agent {
            Some(own) => Some(own),
            None => candidate_agent,
        },
{
    match &node.agent {
        Some(_) => dup_text(&node.agent),
        None => candidate_agent,
    }
}

/// The failure of a node that asks for an agent its adapter cannot run.
pub open spec fn agent_refusal_spec(node: Seq<char>, agent: Seq<char>, adapter: Seq<char>) -> Seq<char> {
    "node `"@ + node + "` requests agent `"@ + agent + "` but adapter `"@ + adapter
        + "` does not declare `custom_agents` \u{2014} pick a candidate on an adapter that does, or drop the agent"@
}

/// Why an agent cannot be run, if it cannot: an adapter without custom
/// agents fails the node rather than silently dropping the agent asked
/// for.
pub fn agent_refusal(node: &str, agent: Option<&String>, adapter: &str, has_custom_agents: bool) -> (refusal: Option<String>)
    ensures
        match agent {
            Some(a) => if has_custom_agents {
                refusal is None
            } else {
                refusal matches Some(r) && r@ == agent_refusal_spec(node@, a@, adapter@)
            },
            None => refusal is None,
        },
{
    match agent {
        Some(a) => if has_custom_agents {
            None
        } else {
            let mut text = String::from_str("node `");
            text.append(node);
            text.append("` requests agent `");
            text.append(a.as_str());
            text.append("` but adapter `");
            text.append(adapter);
            text.append("` does not declare `custom_agents` \u{2014} pick a candidate on an adapter that does, or drop the agent");
            Some(text)
        },
        None => None,
    }
}

/// The name a document kind is declared under.
pub open spec fn kind_name_spec(kind: ArtifactKind) -> Seq<char> {
    match kind {
        ArtifactKind::TaskLedger => "task-ledger"@,
        ArtifactKind::Findings => "findings"@,
        ArtifactKind::Questions => "questions"@,
    }
}

/// The name a document kind is declared under.
pub fn kind_name(kind: ArtifactKind) -> (name: &'static str)
    ensures
        name@ == kind_name_spec(kind),
{
    match kind {
        ArtifactKind::TaskLedger => "task-ledger",
        ArtifactKind::Findings => "findings",
        ArtifactKind::Questions => "questions",
    }
}

/// Why a session that needs the run's tools cannot have them: the node
/// fails with it, never emulates them.
#[derive(Debug, Clone, PartialEq, Eq)]
pub enum RunToolsSetupError {
    /// A blackboard group's node on an adapter that cannot be a client of
    /// the run's tools.
    NoRunToolsCapability { node: String, adapter: String },
    /// A blackboard group's node whose listener did not start.
    ListenerFailed { node: String, detail: String },
    /// A node declaring an interpreted document, which a session hands
    /// over through the run's tools, on an adapter that has none.
    TypedArtifactNeedsRunTools { node: String, kind: ArtifactKind, adapter: String },
    /// A node declaring an interpreted document whose listener did not
    /// start.
    TypedArtifactListenerFailed { node: String, kind: ArtifactKind, detail: String },
}

/// The sentence each setup failure is reported with.
pub open spec fn setup_message(error: RunToolsSetupError) -> Seq<char> {
    match error {
        RunToolsSetupError::NoRunToolsCapability { node, adapter } => "node `"@ + node@
            + "` is in a `coordination: blackboard` group but adapter `"@ + adapter@
            + "` declares no `run_tools` capability \u{2014} the blackboard cannot be mounted; pick a runner on an adapter that can be a client of the per-run MCP endpoint"@,
        RunToolsSetupError::ListenerFailed { node, detail } => "node `"@ + node@
            + "` is in a `coordination: blackboard` group but its per-run MCP listener failed to start: "@ + detail@,
        RunToolsSetupError::TypedArtifactNeedsRunTools { node, kind, adapter } => "node `"@ + node@ + "` declares a `"@
            + kind_name_spec(kind) + "` artifact, which a session hands over through the run tools, and adapter `"@ + adapter@
            + "` declares no `run_tools` capability \u{2014} the document has no way in; pick a runner on an adapter that can be a client of the per-run MCP endpoint"@,
        RunToolsSetupError::TypedArtifactListenerFailed { node, kind, detail } => "node `"@ + node@ + "` declares a `"@
            + kind_name_spec(kind) + "` artifact, which a session hands over through the run tools, and its per-run MCP listener failed to start: "@
            + detail@,
    }
}

impl RunToolsSetupError {
    /// The sentence this failure is reported with.
    pub fn message(&self) -> (text: String)
        ensures
            text@ == setup_message(*self),
    {
        let mut text = String::from_str("node `");
        match self {
            RunToolsSetupError::NoRunToolsCapability { node, adapter } => {
                text.append(node.as_str());
                text.append("` is in a `coordination: blackboard` group but adapter `");
                text.append(adapter.as_str());
                text.append("` declares no `run_tools` capability \u{2014} the blackboard cannot be mounted; pick a runner on an adapter that can be a client of the per-run MCP endpoint");
            },
            RunToolsSetupError::ListenerFailed { node, detail } => {
                text.append(node.as_str());
                text.append("` is in a `coordination: blackboard` group but its per-run MCP listener failed to start: ");
                text.append(detail.as_str());
            },
            RunToolsSetupError::TypedArtifactNeedsRunTools { node, kind, adapter } => {
                text.append(node.as_str());
                text.append("` declares a `");
                text.append(kind_name(*kind));
                text.append("` artifact, which a session hands over through the run tools, and adapter `");
                text.append(adapter.as_str());
                text.append("` declares no `run_tools` capability \u{2014} the document has no way in; pick a runner on an adapter that can be a client of the per-run MCP endpoint");
            },
            RunToolsSetupError::TypedArtifactListenerFailed { node, kind, detail } => {
                text.append(node.as_str());
                text.append("` declares a `");
                text.append(kind_name(*kind));
                text.append("` artifact, which a session hands over through the run tools, and its per-run MCP listener failed to start: ");
                text.append(detail.as_str());
            },
        }
        text
    }
}

/// The first interpreted document among a node's declared artifacts: the
/// one a refusal names, so a reader has somewhere to look.
pub open spec fn first_typed_spec(artifacts: Seq<ArtifactSpec>) -> Option<ArtifactKind>
    decreases artifacts.len(),
{
    if artifacts.len() == 0 {
        None
    } else {
        match artifacts[0] {
            ArtifactSpec::Typed { kind, .. } => Some(kind),
            ArtifactSpec::Plain(_) => first_typed_spec(artifacts.drop_first()),
        }
    }
}

/// The first interpreted document among a node's declared artifacts.
pub fn first_typed_artifact(artifacts: &Vec<ArtifactSpec>) -> (kind: Option<ArtifactKind>)
    ensures
        kind == first_typed_spec(artifacts@),
{
    let mut i: usize = 0;
    proof { assert(artifacts@.skip(0) =~= artifacts@); }
    while i < artifacts.len()
        invariant
            i <= artifacts@.len(),
            first_typed_spec(artifacts@) == first_typed_spec(artifacts@.skip(i as int)),
        decreases artifacts@.len() - i,
    {
        proof {
            assert(artifacts@.skip(i as int)[0] == artifacts@[i as int]);
            assert(artifacts@.skip(i as int).drop_first() =~= artifacts@.skip(i + 1));
        }
        if let ArtifactSpec::Typed { kind, .. } = &artifacts[i] {
            return Some(*kind);
        }
        i = i + 1;
    }
    None
}

/// Whether a node's sessions may mount the run's tools, or why they must
/// not open at all. The adapter's capability decides; without it, a
/// `coordination: blackboard` member (whose coordination the engine never
/// emulates) is refused first, then a node declaring an interpreted
/// document (which reaches the engine through those tools and nowhere
/// else); anything else runs without them.
pub fn run_tools_allowed(
    node: &String,
    adapter: &String,
    declares_run_tools: bool,
    blackboard_member: bool,
    artifacts: &Vec<ArtifactSpec>,
) -> (allowed: Result<(), RunToolsSetupError>)
    ensures
        declares_run_tools ==> allowed is Ok,
        !declares_run_tools && blackboard_member ==> (allowed matches Err(RunToolsSetupError::NoRunToolsCapability { node: n, adapter: a })
            && n@ == node@ && a@ == adapter@),
        !declares_run_tools && !blackboard_member ==> match first_typed_spec(artifacts@) {
            Some(kind) => allowed matches Err(RunToolsSetupError::TypedArtifactNeedsRunTools { node: n, kind: k, adapter: a })
                && n@ == node@ && k == kind && a@ == adapter@,
            None => allowed is Ok,
        },
{
    if declares_run_tools {
        return Ok(());
    }
    if blackboard_member {
        return Err(RunToolsSetupError::NoRunToolsCapability { node: node.clone(), adapter: adapter.clone() });
    }
    match first_typed_artifact(artifacts) {
        Some(kind) => Err(RunToolsSetupError::TypedArtifactNeedsRunTools { node: node.clone(), kind, adapter: adapter.clone() }),
        None => Ok(()),
    }
}

} // verus!
