//! A pack's static inventory: every command, context source and prompt its
//! workflows would use. An inventory, never a judgement: nothing here judges
//! content, and nothing here runs anything.

use vstd::prelude::*;
use vstd::string::StringExecFns;

use crate::paths::{join, path_join};
use crate::render::{join as join_texts, join_spec};
use crate::text::texts;
use crate::workflow::{ContextSpec, HookStep, Hooks, Node, NodeKind, PromptSource};

verus! {

/// A `{file: ...}` prompt naming something the pack does not ship: where
/// it was looked for, and what reading it said.
#[derive(Debug, Clone, PartialEq, Eq)]
pub struct PromptReadError {
    pub path: String,
    pub detail: String,
}

/// Where a prompt's text is: inline, or in a file to read.
#[derive(Debug, Clone, PartialEq, Eq)]
pub enum PromptLocation {
    Inline(String),
    File(String),
}

/// Where a prompt's text is, with a file's path resolved against the
/// workflow's directory.
pub fn prompt_location(prompt: &PromptSource, workflow_dir: &str) -> (location: PromptLocation)
    ensures
        match (prompt, location) {
            (PromptSource::Inline(text), PromptLocation::Inline(t)) => t == *text,
            (PromptSource::File(file), PromptLocation::File(path)) => path@ == path_join(workflow_dir@, file@),
            _ => false,
        },
{
    match prompt {
        PromptSource::Inline(text) => PromptLocation::Inline(text.clone()),
        PromptSource::File(file) => PromptLocation::File(join(workflow_dir, file.as_str())),
    }
}

/// The commands of a list of hook steps.
pub open spec fn hook_commands(steps: Seq<HookStep>) -> Seq<Seq<char>> {
    steps.map_values(|step: HookStep| step.run@)
}

/// One phase of a node's hooks: its own list when it declares a non-empty
/// one, the workflow's defaults otherwise, nothing when neither has any.
pub open spec fn effective_phase(own: Option<Seq<HookStep>>, defaults: Option<Seq<HookStep>>) -> Seq<Seq<char>> {
    match own {
        Some(steps) if steps.len() > 0 => hook_commands(steps),
        _ => match defaults {
            Some(steps) => hook_commands(steps),
            None => Seq::empty(),
        },
    }
}

fn commands_of(steps: &Vec<HookStep>) -> (commands: Vec<String>)
    ensures
        texts(commands@) == hook_commands(steps@),
{
    let mut commands: Vec<String> = Vec::new();
    let mut i: usize = 0;
    while i < steps.len()
        invariant
            i <= steps@.len(),
            texts(commands@) == hook_commands(steps@.take(i as int)),
        decreases steps@.len() - i,
    {
        let ghost before = texts(commands@);
        commands.push(steps[i].run.clone());
        proof {
            assert(texts(commands@) =~= before.push(steps@[i as int].run@));
            assert(hook_commands(steps@.take(i + 1)) =~= hook_commands(steps@.take(i as int)).push(steps@[i as int].run@));
        }
        i = i + 1;
    }
    proof { assert(steps@.take(i as int) =~= steps@); }
    commands
}

fn phase(own: Option<&Vec<HookStep>>, defaults: Option<&Vec<HookStep>>) -> (commands: Vec<String>)
    ensures
        texts(commands@) == effective_phase(match own {
            Some(s) => Some(s@),
            None => None,
        }, match defaults {
            Some(s) => Some(s@),
            None => None,
        }),
{
    match own {
        Some(steps) if steps.len() > 0 => commands_of(steps),
        _ => match defaults {
            Some(steps) => commands_of(steps),
            None => Vec::new(),
        },
    }
}

/// A node's hook commands, before and after its work, with the workflow's
/// `node_defaults.hooks` filled in per phase: a node's own non-empty list
/// replaces the default, an empty one inherits it.
pub fn effective_hooks(node: &Node, defaults: Option<&Hooks>) -> (hooks: (Vec<String>, Vec<String>))
    ensures
        texts(hooks.0@) == effective_phase(match node.hooks {
            Some(h) => Some(h.before@),
            None => None,
        }, match defaults {
            Some(h) => Some(h.before@),
            None => None,
        }),
        texts(hooks.1@) == effective_phase(match node.hooks {
            Some(h) => Some(h.after@),
            None => None,
        }, match defaults {
            Some(h) => Some(h.after@),
            None => None,
        }),
{
    let own_before = match &node.hooks {
        Some(h) => Some(&h.before),
        None => None,
    };
    let own_after = match &node.hooks {
        Some(h) => Some(&h.after),
        None => None,
    };
    let default_before = match defaults {
        Some(h) => Some(&h.before),
        None => None,
    };
    let default_after = match defaults {
        Some(h) => Some(&h.after),
        None => None,
    };
    (phase(own_before, default_before), phase(own_after, default_after))
}

/// One human-readable line naming a context source and what it points at.
pub open spec fn context_line(spec: ContextSpec) -> Seq<char> {
    match spec {
        ContextSpec::Files { files } => "files: "@ + join_spec(texts(files@), ", "@),
        ContextSpec::Command { command } => "command: "@ + command@,
        ContextSpec::Artifact { node, name } => match node {
            Some(n) => "artifact: node="@ + n@ + " name="@ + name@,
            None => "artifact: name="@ + name@ + " (mounted, no producer)"@,
        },
        ContextSpec::Mcp { server, query } => "mcp: server="@ + server@ + " query="@ + query@,
        ContextSpec::RunEvents { filter } => match filter {
            Some(f) => "run-events: filter="@ + f@,
            None => "run-events: (no filter)"@,
        },
        ContextSpec::Ledger => "tasks"@,
        ContextSpec::Knowledge { layers } => if layers@.len() == 0 {
            "knowledge: (every layer)"@
        } else {
            "knowledge: layers=["@ + join_spec(texts(layers@), ", "@) + "]"@
        },
        ContextSpec::NodeOutput { node } => "node-output: node="@ + node@,
    }
}

/// One human-readable line naming a context source and what it points at.
pub fn describe_context(spec: &ContextSpec) -> (line: String)
    ensures
        line@ == context_line(*spec),
{
    match spec {
        ContextSpec::Files { files } => {
            let mut line = String::from_str("files: ");
            let joined = join_texts(files, ", ");
            line.append(joined.as_str());
            line
        },
        ContextSpec::Command { command } => {
            let mut line = String::from_str("command: ");
            line.append(command.as_str());
            line
        },
        ContextSpec::Artifact { node, name } => match node {
            Some(n) => {
                let mut line = String::from_str("artifact: node=");
                line.append(n.as_str());
                line.append(" name=");
                line.append(name.as_str());
                line
            },
            None => {
                let mut line = String::from_str("artifact: name=");
                line.append(name.as_str());
                line.append(" (mounted, no producer)");
                line
            },
        },
        ContextSpec::Mcp { server, query } => {
            let mut line = String::from_str("mcp: server=");
            line.append(server.as_str());
            line.append(" query=");
            line.append(query.as_str());
            line
        },
        ContextSpec::RunEvents { filter } => match filter {
            Some(f) => {
                let mut line = String::from_str("run-events: filter=");
                line.append(f.as_str());
                line
            },
            None => String::from_str("run-events: (no filter)"),
        },
        ContextSpec::Ledger => String::from_str("tasks"),
        ContextSpec::Knowledge { layers } => {
            if layers.len() == 0 {
                String::from_str("knowledge: (every layer)")
            } else {
                let mut line = String::from_str("knowledge: layers=[");
                let joined = join_texts(layers, ", ");
                line.append(joined.as_str());
                line.append("]");
                line
            }
        },
        ContextSpec::NodeOutput { node } => {
            let mut line = String::from_str("node-output: node=");
            line.append(node.as_str());
            line
        },
    }
}

/// The name a node's kind is audited under.
pub open spec fn kind_label(kind: NodeKind) -> Seq<char> {
    match kind {
        NodeKind::Prompt { .. } => "prompt"@,
        NodeKind::Bash { .. } => "bash"@,
        NodeKind::Loop { .. } => "loop"@,
        NodeKind::Parallel { .. } => "parallel"@,
        NodeKind::Check(_) => "check"@,
        NodeKind::Executor { .. } => "executor"@,
        NodeKind::Gate { .. } => "gate"@,
        NodeKind::Workflow { .. } => "workflow"@,
    }
}

/// One node's inventory.
#[derive(Debug, Clone, PartialEq, Eq)]
pub struct NodeAudit {
    pub id: String,
    pub kind: String,
    /// `bash`'s own `run:`, or a `loop`'s `until:`: the one command that
    /// kind carries, if any.
    pub command: Option<String>,
    pub hooks_before: Vec<String>,
    pub hooks_after: Vec<String>,
    /// `prompt`/`loop` nodes only: the prompt's full, untrimmed text, or
    /// why it could not be read.
    pub prompt: Option<Result<String, PromptReadError>>,
    /// One line per `context:` entry.
    pub context: Vec<String>,
    /// MCP servers the node's own context reaches.
    pub mcp_servers: Vec<String>,
    /// `kind: executor`'s own name: code, flagged apart from content.
    pub executor: Option<String>,
}

/// The MCP servers a node's context entries reach, in order.
pub open spec fn mcp_servers_of(context: Seq<ContextSpec>) -> Seq<Seq<char>>
    decreases context.len(),
{
    if context.len() == 0 {
        Seq::empty()
    } else {
        mcp_servers_of(context.drop_last()) + match context.last() {
            ContextSpec::Mcp { server, .. } => seq![server@],
            _ => Seq::empty(),
        }
    }
}

/// A node's inventory. `prompt` is its prompt's text as the caller read it
/// (inline text, or a file's contents), for `prompt`/`loop` nodes.
pub fn audit_node(node: &Node, defaults: Option<&Hooks>, prompt: Option<Result<String, PromptReadError>>) -> (audit: NodeAudit)
    ensures
        audit.id@ == node.id@,
        audit.kind@ == kind_label(node.kind),
        audit.command == (match node.kind {
            NodeKind::Bash { run } => Some(run),
            NodeKind::Loop { until, .. } => Some(until),
            _ => None::<String>,
        }),
        audit.prompt == (match node.kind {
            NodeKind::Prompt { .. } | NodeKind::Loop { .. } => prompt,
            _ => None,
        }),
        audit.executor == (match node.kind {
            NodeKind::Executor { executor } => Some(executor),
            _ => None::<String>,
        }),
        texts(audit.hooks_before@) == effective_phase(match node.hooks {
            Some(h) => Some(h.before@),
            None => None,
        }, match defaults {
            Some(h) => Some(h.before@),
            None => None,
        }),
        texts(audit.hooks_after@) == effective_phase(match node.hooks {
            Some(h) => Some(h.after@),
            None => None,
        }, match defaults {
            Some(h) => Some(h.after@),
            None => None,
        }),
        texts(audit.context@) == node.context@.map_values(|c: ContextSpec| context_line(c)),
        texts(audit.mcp_servers@) == mcp_servers_of(node.context@),
{
    let (hooks_before, hooks_after) = effective_hooks(node, defaults);
    let (kind, command, kept_prompt, executor): (&str, Option<String>, Option<Result<String, PromptReadError>>, Option<String>) =
        match &node.kind {
            NodeKind::Prompt { .. } => ("prompt", None, prompt, None),
            NodeKind::Bash { run } => ("bash", Some(run.clone()), None, None),
            NodeKind::Loop { until, .. } => ("loop", Some(until.clone()), prompt, None),
            NodeKind::Parallel { .. } => ("parallel", None, None, None),
            NodeKind::Check(_) => ("check", None, None, None),
            NodeKind::Executor { executor } => ("executor", None, None, Some(executor.clone())),
            NodeKind::Gate { .. } => ("gate", None, None, None),
            NodeKind::Workflow { .. } => ("workflow", None, None, None),
        };
    let mut context: Vec<String> = Vec::new();
    let mut mcp_servers: Vec<String> = Vec::new();
    let mut i: usize = 0;
    while i < node.context.len()
        invariant
            i <= node.context@.len(),
            texts(context@) == node.context@.take(i as int).map_values(|c: ContextSpec| context_line(c)),
            texts(mcp_servers@) == mcp_servers_of(node.context@.take(i as int)),
        decreases node.context@.len() - i,
    {
        let spec = &node.context[i];
        proof {
            assert(node.context@.take(i + 1).drop_last() =~= node.context@.take(i as int));
            assert(node.context@.take(i + 1).last() == *spec);
        }
        let ghost before = texts(context@);
        let line = describe_context(spec);
        context.push(line);
        proof {
            assert(texts(context@) =~= before.push(context_line(*spec)));
            assert(node.context@.take(i + 1).map_values(|c: ContextSpec| context_line(c))
                =~= node.context@.take(i as int).map_values(|c: ContextSpec| context_line(c)).push(context_line(*spec)));
        }
        let ghost servers_before = texts(mcp_servers@);
        if let ContextSpec::Mcp { server, .. } = spec {
            mcp_servers.push(server.clone());
            proof { assert(texts(mcp_servers@) =~= servers_before + seq![server@]); }
        } else {
            proof { assert(texts(mcp_servers@) =~= servers_before + Seq::<Seq<char>>::empty()); }
        }
        i = i + 1;
    }
    proof { assert(node.context@.take(i as int) =~= node.context@); }
    NodeAudit {
        id: node.id.clone(),
        kind: kind.to_string(),
        command,
        hooks_before,
        hooks_after,
        prompt: kept_prompt,
        context,
        mcp_servers,
        executor,
    }
}

} // verus!
