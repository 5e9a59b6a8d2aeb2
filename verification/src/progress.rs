//! `progress.md`: regenerated in full from the log after each finished
//! node, never written by an agent — what finished and what it produced,
//! what failed, and what is still ahead.

use vstd::prelude::*;
use vstd::string::StringExecFns;

use crate::events::StoredEvent;
use crate::ledger::{state_in, NodeState};
use crate::lines::{fenced, fenced_spec};
use crate::receipt::{flat_nodes, workflow_nodes};
use crate::replay::{derive_spec, RunState, RunStateV};
use crate::text::same_text;
use crate::workflow::{Node, NodeKind};

verus! {

/// A node's one-line summary: its own description, or its id.
pub open spec fn description_spec(node: Node) -> Seq<char> {
    match node.description {
        Some(d) => d@,
        None => node.id@,
    }
}

/// The artifact lines of `node`: one per artifact it recorded, in order.
pub open spec fn artifact_lines(artifacts: Seq<(String, String)>, node: Seq<char>) -> Seq<char>
    decreases artifacts.len(),
{
    if artifacts.len() == 0 {
        Seq::empty()
    } else {
        artifact_lines(artifacts.drop_last(), node) + if artifacts.last().0@ == node {
            "  artifact: "@ + artifacts.last().1@ + "\n"@
        } else {
            Seq::empty()
        }
    }
}

/// Which section of the page an entry belongs to.
#[derive(Debug, Clone, Copy, PartialEq, Eq)]
pub enum Section {
    Finished,
    Failed,
    Next,
}

/// A node's entry in a section, if it has one there.
pub open spec fn entry_spec(state: RunStateV, node: Node, section: Section) -> Option<Seq<char>> {
    let head = "- **"@ + node.id@ + "** — "@;
    match (section, state_in(state.nodes, node.id@)) {
        (Section::Finished, Some(NodeState::Finished { outcome })) => Some(
            head + description_spec(node) + "\n  outcome: "@ + outcome@ + "\n"@ + artifact_lines(state.artifacts, node.id@),
        ),
        (Section::Failed, Some(NodeState::Failed { failure })) => Some(head + fenced_spec(failure.message@) + "\n"@),
        (Section::Next, None) => Some(head + description_spec(node) + "\n"@),
        (Section::Next, Some(NodeState::Running)) => Some(head + description_spec(node) + " (running)\n"@),
        _ => None,
    }
}

/// Every entry of a section, in node order.
pub open spec fn section_entries(state: RunStateV, nodes: Seq<Node>, section: Section) -> Seq<char>
    decreases nodes.len(),
{
    if nodes.len() == 0 {
        Seq::empty()
    } else {
        section_entries(state, nodes.drop_last(), section) + match entry_spec(state, nodes.last(), section) {
            Some(entry) => entry,
            None => Seq::empty(),
        }
    }
}

/// Whether any node has an entry in a section.
pub open spec fn section_has_entries(state: RunStateV, nodes: Seq<Node>, section: Section) -> bool {
    exists|i: int| 0 <= i < nodes.len() && (#[trigger] entry_spec(state, nodes[i], section)) is Some
}

/// A section's body: its entries, or its marker for having none.
pub open spec fn section_spec(state: RunStateV, nodes: Seq<Node>, section: Section, empty_marker: Seq<char>) -> Seq<char> {
    if section_has_entries(state, nodes, section) {
        section_entries(state, nodes, section)
    } else {
        empty_marker + "\n"@
    }
}

/// The whole page: every finished node with its description and the
/// artifacts it produced, every failed node, and everything still ahead.
pub open spec fn progress_spec(nodes: Seq<Node>, events: Seq<StoredEvent>) -> Seq<char> {
    let state = derive_spec(events);
    let all = flat_nodes(nodes);
    "# Progress\n"@ + "\n## Finished\n\n"@ + section_spec(state, all, Section::Finished, "_none yet_"@) + "\n## Failed\n\n"@
        + section_spec(state, all, Section::Failed, "_none_"@) + "\n## Next\n\n"@
        + section_spec(state, all, Section::Next, "_nothing pending_"@)
}

fn description_of(node: &Node) -> (text: &String)
    ensures
        text@ == description_spec(*node),
{
    match &node.description {
        Some(d) => d,
        None => &node.id,
    }
}

fn artifacts_of(state: &RunState, node: &String) -> (text: String)
    ensures
        text@ == artifact_lines(state@.artifacts, node@),
{
    let mut text = String::new();
    let mut i: usize = 0;
    while i < state.artifacts.len()
        invariant
            i <= state.artifacts@.len(),
            text@ == artifact_lines(state.artifacts@.take(i as int), node@),
        decreases state.artifacts@.len() - i,
    {
        proof {
            assert(state.artifacts@.take(i + 1).drop_last() =~= state.artifacts@.take(i as int));
            assert(state.artifacts@.take(i + 1).last() == state.artifacts@[i as int]);
        }
        if same_text(&state.artifacts[i].0, node) {
            text.append("  artifact: ");
            text.append(state.artifacts[i].1.as_str());
            text.append("\n");
        }
        i = i + 1;
    }
    proof { assert(state.artifacts@.take(i as int) =~= state.artifacts@); }
    text
}

fn entry(state: &RunState, node: &Node, section: Section) -> (text: Option<String>)
    ensures
        match text {
            Some(t) => entry_spec(state@, *node, section) == Some(t@),
            None => entry_spec(state@, *node, section) is None,
        },
{
    proof { crate::ledger::lemma_find_record_keyed(state.nodes.records@, node.id@, 0); }
    let current = state.nodes.state(&node.id);
    let mut head = String::from_str("- **");
    head.append(node.id.as_str());
    head.append("** — ");
    match (section, current) {
        (Section::Finished, Some(NodeState::Finished { outcome })) => {
            head.append(description_of(node).as_str());
            head.append("\n  outcome: ");
            head.append(outcome.as_str());
            head.append("\n");
            let artifacts = artifacts_of(state, &node.id);
            head.append(artifacts.as_str());
            Some(head)
        },
        (Section::Failed, Some(NodeState::Failed { failure })) => {
            let body = fenced(failure.message.as_str());
            head.append(body.as_str());
            head.append("\n");
            Some(head)
        },
        (Section::Next, None) => {
            head.append(description_of(node).as_str());
            head.append("\n");
            Some(head)
        },
        (Section::Next, Some(NodeState::Running)) => {
            head.append(description_of(node).as_str());
            head.append(" (running)\n");
            Some(head)
        },
        _ => None,
    }
}

proof fn lemma_no_entries(state: RunStateV, nodes: Seq<Node>, which: Section)
    requires
        !section_has_entries(state, nodes, which),
    ensures
        section_entries(state, nodes, which) == Seq::<char>::empty(),
    decreases nodes.len(),
{
    if nodes.len() > 0 {
        assert(!section_has_entries(state, nodes.drop_last(), which)) by {
            if section_has_entries(state, nodes.drop_last(), which) {
                let k = choose|k: int| 0 <= k < nodes.drop_last().len() && (#[trigger] entry_spec(state, nodes.drop_last()[k], which)) is Some;
                assert(nodes[k] == nodes.drop_last()[k]);
            }
        }
        lemma_no_entries(state, nodes.drop_last(), which);
        assert(entry_spec(state, nodes[nodes.len() - 1], which) is None);
    }
}

fn section(out: &mut String, state: &RunState, nodes: &Vec<&Node>, which: Section, empty_marker: &str)
    ensures
        final(out)@ == old(out)@ + section_spec(state@, nodes@.map_values(|n: &Node| *n), which, empty_marker@),
{
    let ghost all = nodes@.map_values(|n: &Node| *n);
    let ghost start = out@;
    let mut any = false;
    let mut i: usize = 0;
    while i < nodes.len()
        invariant
            i <= nodes@.len(),
            all == nodes@.map_values(|n: &Node| *n),
            out@ == start + section_entries(state@, all.take(i as int), which),
            any == exists|k: int| 0 <= k < i && (#[trigger] entry_spec(state@, all[k], which)) is Some,
        decreases nodes@.len() - i,
    {
        proof {
            assert(all.take(i + 1).drop_last() =~= all.take(i as int));
            assert(all.take(i + 1).last() == *nodes@[i as int]);
            assert(all[i as int] == *nodes@[i as int]);
        }
        match entry(state, nodes[i], which) {
            Some(line) => {
                out.append(line.as_str());
                any = true;
            },
            None => {},
        }
        i = i + 1;
    }
    proof { assert(all.take(i as int) =~= all); }
    if !any {
        proof {
            lemma_no_entries(state@, all, which);
            assert(out@ =~= start);
        }
        out.append(empty_marker);
        out.append("\n");
    }
}

/// Renders `progress.md` from a workflow's nodes and the run's log. Pure:
/// same workflow, same log, same page, always.
pub fn render_progress(nodes: &Vec<Node>, events: &Vec<StoredEvent>) -> (page: String)
    ensures
        page@ == progress_spec(nodes@, events@),
{
    let state = crate::replay::derive(events);
    let all = workflow_nodes(nodes);
    let mut out = String::from_str("# Progress\n");
    out.append("\n## Finished\n\n");
    section(&mut out, &state, &all, Section::Finished, "_none yet_");
    out.append("\n## Failed\n\n");
    section(&mut out, &state, &all, Section::Failed, "_none_");
    out.append("\n## Next\n\n");
    section(&mut out, &state, &all, Section::Next, "_nothing pending_");
    out
}

} // verus!
