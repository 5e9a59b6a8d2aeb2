//! What a node's session is told and held to before it opens: its brief,
//! the notices its mount produces, the scope it works to, and the
//! run-wide capabilities its node makes the run state once.

use vstd::prelude::*;
use vstd::string::StringExecFns;

use crate::text::{copy_strings, texts};
use crate::workflow::{Node, NodeKind};

verus! {

/// The brief a task session gets: the node's instruction and which task
/// is this session's, never the task's contents (it reads those through
/// its tools, so what it is told and what it is judged by cannot be two
/// copies that disagree).
pub open spec fn task_brief_spec(instruction: Seq<char>, task: Seq<char>, title: Seq<char>) -> Seq<char> {
    instruction + "\n\nYour task: `"@ + task + "` \u{2014} "@ + title + "."@
}

/// The brief a task session gets.
pub fn task_brief(instruction: &str, task: &str, title: &str) -> (brief: String)
    ensures
        brief@ == task_brief_spec(instruction@, task@, title@),
{
    let mut brief = instruction.to_string();
    brief.append("\n\nYour task: `");
    brief.append(task);
    brief.append("` \u{2014} ");
    brief.append(title);
    brief.append(".");
    brief
}

/// The notices that are there, one after the other.
pub open spec fn notices_text(notices: Seq<Option<String>>) -> Seq<char>
    decreases notices.len(),
{
    if notices.len() == 0 {
        Seq::empty()
    } else {
        notices_text(notices.drop_last()) + match notices.last() {
            Some(notice) => notice@,
            None => Seq::empty(),
        }
    }
}

/// The session's prompt with every sentence its mount produces after it,
/// in order: a session is told only what its mount gave it.
pub fn told(prompt: String, notices: &Vec<Option<String>>) -> (text: String)
    ensures
        text@ == prompt@ + notices_text(notices@),
{
    let mut text = prompt;
    let ghost start = text@;
    let mut i: usize = 0;
    while i < notices.len()
        invariant
            i <= notices@.len(),
            text@ == start + notices_text(notices@.take(i as int)),
        decreases notices@.len() - i,
    {
        proof {
            assert(notices@.take(i + 1).drop_last() =~= notices@.take(i as int));
        }
        match &notices[i] {
            Some(notice) => {
                text.append(notice.as_str());
            },
            None => {},
        }
        proof {
            assert(text@ =~= start + notices_text(notices@.take(i + 1)));
        }
        i = i + 1;
    }
    proof {
        assert(notices@.take(notices@.len() as int) =~= notices@);
    }
    text
}

/// Whether a node's sessions carry edit constraints: its own declared
/// scope, or, for a loop, the scope every task it runs declares.
pub open spec fn edit_scope_spec(node: Node) -> bool {
    node.scope@.len() > 0 || node.kind is Loop
}

/// Whether a node's sessions carry edit constraints.
pub fn declares_edit_scope(node: &Node) -> (declares: bool)
    ensures
        declares == edit_scope_spec(*node),
{
    node.scope.len() > 0 || match &node.kind {
        NodeKind::Loop { .. } => true,
        _ => false,
    }
}

/// A capability whose absence is the run's condition rather than a
/// node's choice, stated on the log once.
#[derive(Debug, Clone, Copy, PartialEq, Eq)]
pub enum RunWideCapability {
    /// Holding a session to its scope as it edits.
    Fence,
    /// Counting a session's tokens against a cap.
    UsageReporting,
}

/// The run-wide capabilities a node's session asks for: the fence when
/// the node carries edit constraints, usage reporting when the run has a
/// token cap. A run that asks for neither says nothing about either.
pub open spec fn run_wide_spec(node: Node, token_cap: Option<u64>) -> Seq<RunWideCapability> {
    (if edit_scope_spec(node) { seq![RunWideCapability::Fence] } else { Seq::empty() })
        + (if token_cap is Some { seq![RunWideCapability::UsageReporting] } else { Seq::empty() })
}

/// The run-wide capabilities a node's session asks for.
pub fn run_wide_requirements(node: &Node, token_cap: Option<u64>) -> (asked: Vec<RunWideCapability>)
    ensures
        asked@ == run_wide_spec(*node, token_cap),
{
    let mut asked: Vec<RunWideCapability> = Vec::new();
    if declares_edit_scope(node) {
        asked.push(RunWideCapability::Fence);
    }
    if token_cap.is_some() {
        asked.push(RunWideCapability::UsageReporting);
    }
    proof {
        assert(asked@ =~= run_wide_spec(*node, token_cap));
    }
    asked
}

/// What a session is told to do when its fence refuses an edit.
#[derive(Debug, Clone, Copy, PartialEq, Eq)]
pub enum Advice {
    /// Ask for the scope to be widened, with the tool that asks.
    RequestExpansion,
    /// Report the need as a finding and move on.
    ReportFinding,
}

/// The advice a session's fence gives: only a task session that mounted
/// the run's tools can ask for more scope (expansion is keyed by task);
/// every other session reports the need instead.
pub open spec fn advice_spec(holds_run_tools: bool, task_session: bool) -> Advice {
    if holds_run_tools && task_session {
        Advice::RequestExpansion
    } else {
        Advice::ReportFinding
    }
}

/// The scope a session works to: a task session its task's, the
/// expansions already granted included; a node's own session the node's,
/// when it declares one.
pub open spec fn fence_scope_spec(task_scope: Option<Seq<Seq<char>>>, node_scope: Seq<Seq<char>>) -> Option<Seq<Seq<char>>> {
    match task_scope {
        Some(scope) => Some(scope),
        None => if node_scope.len() == 0 {
            None
        } else {
            Some(node_scope)
        },
    }
}

/// What a session's fence holds it to and advises when it refuses.
pub fn fence_terms(holds_run_tools: bool, task_scope: Option<&Vec<String>>, node: &Node) -> (terms: (Advice, Option<Vec<String>>))
    ensures
        terms.0 == advice_spec(holds_run_tools, task_scope is Some),
        match terms.1 {
            Some(scope) => fence_scope_spec(
                match task_scope {
                    Some(s) => Some(texts(s@)),
                    None => None,
                },
                texts(node.scope@),
            ) == Some(texts(scope@)),
            None => fence_scope_spec(
                match task_scope {
                    Some(s) => Some(texts(s@)),
                    None => None,
                },
                texts(node.scope@),
            ) is None,
        },
{
    let advice = if holds_run_tools && task_scope.is_some() {
        Advice::RequestExpansion
    } else {
        Advice::ReportFinding
    };
    let scope = match task_scope {
        Some(scope) => Some(copy_strings(scope)),
        None => if node.scope.len() == 0 {
            None
        } else {
            Some(copy_strings(&node.scope))
        },
    };
    (advice, scope)
}

} // verus!
