//! How a node's close judges what the node left: its after-hooks, its
//! scope, the files it wrote under `artifacts/`, the questions it asked,
//! and the events its verified artifacts put on the log. Running the
//! hooks, diffing the worktree and writing the log are the caller's.

use vstd::prelude::*;
use vstd::string::StringExecFns;

use crate::events::{EventBody, EventPayload, Finding, StoredEvent};
use crate::questions::Question;
use crate::render::{join, join_spec};
use crate::text::{copy_strings, decimal, decimal_spec, same_text, texts};
use crate::workflow::{ArtifactKind, ArtifactSpec, Node, NodeKind};

verus! {

/// Which side of a node's work a hook runs on.
#[derive(Debug, Clone, Copy, PartialEq, Eq)]
pub enum HookPhase {
    Before,
    After,
}

/// The name a hook phase is reported under.
pub open spec fn phase_name(phase: HookPhase) -> Seq<char> {
    match phase {
        HookPhase::Before => "before"@,
        HookPhase::After => "after"@,
    }
}

/// What running one hook came to.
#[derive(Debug, Clone, PartialEq, Eq)]
pub enum HookRun {
    /// The hook broke a rule of the node's permissions.
    Violation { rule: String },
    /// The hook ran, and succeeded or not.
    Ran { succeeded: bool },
}

/// Why a hook fails its node: the rule it broke, or, when the step's
/// policy is to fail, that it did not succeed. A failing before-hook
/// stops the node before a token is spent; a failing after-hook fails it
/// before its work is verified.
pub open spec fn hook_failure_spec(run: HookRun, phase: HookPhase, command: Seq<char>, fails_the_node: bool) -> Option<Seq<char>> {
    match run {
        HookRun::Violation { rule } => Some(rule@),
        HookRun::Ran { succeeded } => if !succeeded && fails_the_node {
            Some(phase_name(phase) + " hook `"@ + command + "` failed"@)
        } else {
            None
        },
    }
}

/// Why a hook fails its node, if it does.
pub fn hook_failure(run: &HookRun, phase: HookPhase, command: &str, fails_the_node: bool) -> (failure: Option<String>)
    ensures
        failure matches Some(f) ==> hook_failure_spec(*run, phase, command@, fails_the_node) == Some(f@),
        failure is None ==> hook_failure_spec(*run, phase, command@, fails_the_node) is None,
{
    match run {
        HookRun::Violation { rule } => Some(rule.clone()),
        HookRun::Ran { succeeded } => if !*succeeded && fails_the_node {
            let mut text = match phase {
                HookPhase::Before => String::from_str("before"),
                HookPhase::After => String::from_str("after"),
            };
            text.append(" hook `");
            text.append(command);
            text.append("` failed");
            Some(text)
        } else {
            None
        },
    }
}

/// The failure a scope check with `violations` paths outside the
/// declared globs closes its node with; none when nothing is outside.
pub open spec fn scope_failure_spec(violations: nat) -> Option<Seq<char>> {
    if violations == 0 {
        None
    } else {
        Some("scope violated: "@ + decimal_spec(violations) + " file(s) outside the declared globs"@)
    }
}

/// The failure a scope check closes its node with, if any.
pub fn scope_failure(violations: usize) -> (failure: Option<String>)
    ensures
        failure matches Some(f) ==> scope_failure_spec(violations as nat) == Some(f@),
        failure is None ==> scope_failure_spec(violations as nat) is None,
{
    if violations == 0 {
        None
    } else {
        let mut text = String::from_str("scope violated: ");
        let n = decimal(violations as u64);
        text.append(n.as_str());
        text.append(" file(s) outside the declared globs");
        Some(text)
    }
}

/// The failure a node closes with for the files it wrote under
/// `artifacts/` and never declared; none when it wrote none.
pub open spec fn undeclared_failure_spec(undeclared: Seq<Seq<char>>) -> Option<Seq<char>> {
    if undeclared.len() == 0 {
        None
    } else {
        Some("wrote "@ + decimal_spec(undeclared.len()) + " file(s) under `artifacts/` this node never declared: "@
            + join_spec(undeclared, ", "@)
            + " \u{2014} declare them under `artifacts.produces`, or leave them to the node that does"@)
    }
}

/// The failure a node closes with for the files it never declared.
pub fn undeclared_failure(undeclared: &Vec<String>) -> (failure: Option<String>)
    ensures
        failure matches Some(f) ==> undeclared_failure_spec(texts(undeclared@)) == Some(f@),
        failure is None ==> undeclared_failure_spec(texts(undeclared@)) is None,
{
    if undeclared.len() == 0 {
        None
    } else {
        let mut text = String::from_str("wrote ");
        let n = decimal(undeclared.len() as u64);
        text.append(n.as_str());
        text.append(" file(s) under `artifacts/` this node never declared: ");
        let names = join(undeclared, ", ");
        text.append(names.as_str());
        text.append(" \u{2014} declare them under `artifacts.produces`, or leave them to the node that does");
        Some(text)
    }
}

/// One task of a tasks document, as its artifact was verified.
#[derive(Debug, Clone, PartialEq, Eq)]
pub struct TaskEntry {
    pub id: String,
    /// The commands that judge it.
    pub criteria: Vec<String>,
    /// The paths it may touch.
    pub scope: Vec<String>,
    pub depends_on: Vec<String>,
}

/// What a verified artifact holds, as far as the run reads it.
#[derive(Debug, Clone, PartialEq, Eq)]
pub enum ArtifactContent {
    Tasks(Vec<TaskEntry>),
    Findings(Vec<Finding>),
    Questions(Vec<Question>),
    /// A file the run does not read.
    Opaque,
}

/// A declared artifact, verified at its node's close.
#[derive(Debug, Clone, PartialEq, Eq)]
pub struct VerifiedArtifact {
    pub path: String,
    pub content_hash: String,
    pub content: ArtifactContent,
}

/// The ids of the questions one artifact asks.
pub open spec fn asked_ids(content: ArtifactContent) -> Seq<Seq<char>> {
    match content {
        ArtifactContent::Questions(questions) => questions@.map_values(|q: Question| q.id@),
        _ => Seq::empty(),
    }
}

/// Every question the artifacts ask, by id, artifact by artifact.
pub open spec fn pending_spec(verified: Seq<VerifiedArtifact>) -> Seq<Seq<char>>
    decreases verified.len(),
{
    if verified.len() == 0 {
        Seq::empty()
    } else {
        pending_spec(verified.drop_last()) + asked_ids(verified.last().content)
    }
}

/// Every question this node's artifacts ask, by id.
pub fn pending_questions(verified: &Vec<VerifiedArtifact>) -> (pending: Vec<String>)
    ensures
        texts(pending@) == pending_spec(verified@),
{
    let mut pending: Vec<String> = Vec::new();
    let mut i: usize = 0;
    while i < verified.len()
        invariant
            i <= verified@.len(),
            texts(pending@) == pending_spec(verified@.take(i as int)),
        decreases verified@.len() - i,
    {
        proof {
            assert(verified@.take(i + 1).drop_last() =~= verified@.take(i as int));
        }
        match &verified[i].content {
            ArtifactContent::Questions(questions) => {
                let ghost before = texts(pending@);
                let mut j: usize = 0;
                while j < questions.len()
                    invariant
                        j <= questions@.len(),
                        texts(pending@) == before + questions@.take(j as int).map_values(|q: Question| q.id@),
                    decreases questions@.len() - j,
                {
                    let ghost prev = pending@;
                    pending.push(questions[j].id.clone());
                    proof {
                        assert(questions@.take(j + 1).map_values(|q: Question| q.id@)
                            =~= questions@.take(j as int).map_values(|q: Question| q.id@).push(questions@[j as int].id@));
                        assert(texts(pending@) =~= texts(prev).push(questions@[j as int].id@));
                    }
                    j = j + 1;
                }
                proof {
                    assert(questions@.take(questions@.len() as int) =~= questions@);
                }
            },
            _ => {
                proof {
                    assert(asked_ids(verified@[i as int].content) =~= Seq::<Seq<char>>::empty());
                }
            },
        }
        i = i + 1;
    }
    proof {
        assert(verified@.take(verified@.len() as int) =~= verified@);
    }
    pending
}

/// The failure a node closes with for the questions it left waiting for
/// an answer; none when it asked none.
pub open spec fn questions_failure_spec(node: Seq<char>, pending: Seq<Seq<char>>) -> Option<Seq<char>> {
    if pending.len() == 0 {
        None
    } else {
        Some("node `"@ + node + "` asked "@ + decimal_spec(pending.len()) + " question(s) awaiting an answer: "@
            + join_spec(pending, ", "@))
    }
}

/// The failure a node closes with for the questions it asked.
pub fn questions_failure(node: &str, pending: &Vec<String>) -> (failure: Option<String>)
    ensures
        failure matches Some(f) ==> questions_failure_spec(node@, texts(pending@)) == Some(f@),
        failure is None ==> questions_failure_spec(node@, texts(pending@)) is None,
{
    if pending.len() == 0 {
        None
    } else {
        let mut text = String::from_str("node `");
        text.append(node);
        text.append("` asked ");
        let n = decimal(pending.len() as u64);
        text.append(n.as_str());
        text.append(" question(s) awaiting an answer: ");
        let ids = join(pending, ", ");
        text.append(ids.as_str());
        Some(text)
    }
}

/// The names of the findings artifacts among `specs`, in order.
pub open spec fn findings_names(specs: Seq<ArtifactSpec>) -> Seq<Seq<char>>
    decreases specs.len(),
{
    if specs.len() == 0 {
        Seq::empty()
    } else {
        findings_names(specs.drop_last()) + match specs.last() {
            ArtifactSpec::Typed { name, kind: ArtifactKind::Findings } => seq![name@],
            _ => Seq::empty(),
        }
    }
}

/// The findings files the engine writes for a node at its close, from
/// what the node reported: those it declares, when it runs sessions of
/// its own (a prompt or a loop); none for any other kind, whose findings
/// come from elsewhere.
pub open spec fn derived_findings_spec(node: Node) -> Seq<Seq<char>> {
    if node.kind is Prompt || node.kind is Loop {
        findings_names(node.artifacts@)
    } else {
        Seq::empty()
    }
}

/// The findings files the engine writes for a node at its close.
pub fn findings_to_derive(node: &Node) -> (names: Vec<String>)
    ensures
        texts(names@) == derived_findings_spec(*node),
{
    let mut names: Vec<String> = Vec::new();
    let sessions = match &node.kind {
        NodeKind::Prompt { .. } => true,
        NodeKind::Loop { .. } => true,
        _ => false,
    };
    if !sessions {
        return names;
    }
    let mut i: usize = 0;
    while i < node.artifacts.len()
        invariant
            i <= node.artifacts@.len(),
            texts(names@) == findings_names(node.artifacts@.take(i as int)),
        decreases node.artifacts@.len() - i,
    {
        proof {
            assert(node.artifacts@.take(i + 1).drop_last() =~= node.artifacts@.take(i as int));
        }
        match &node.artifacts[i] {
            ArtifactSpec::Typed { name, kind: ArtifactKind::Findings } => {
                names.push(name.clone());
                proof {
                    assert(texts(names@) =~= texts(names@.drop_last()).push(names@.last()@));
                }
            },
            _ => {
                proof {
                    assert(findings_names(node.artifacts@.take(i + 1)) =~= findings_names(node.artifacts@.take(i as int)));
                }
            },
        }
        i = i + 1;
    }
    proof {
        assert(node.artifacts@.take(node.artifacts@.len() as int) =~= node.artifacts@);
    }
    names
}

/// An event a node's close puts on the log for its verified artifacts.
#[derive(Debug, Clone, PartialEq, Eq)]
pub enum PlannedEvent {
    ArtifactWritten { path: String, content_hash: String },
    TaskRegistered { task: String, criteria: Vec<String>, scope: Vec<String>, depends_on: Vec<String> },
    /// The task's identity changed since it was last registered: it is
    /// pending again, caused by the registration written just before.
    TaskReset { task: String },
    FindingPosted { finding: Finding },
}

/// A planned event, read as plain values.
pub enum PlannedEventV {
    ArtifactWritten { path: Seq<char>, content_hash: Seq<char> },
    TaskRegistered { task: Seq<char>, criteria: Seq<Seq<char>>, scope: Seq<Seq<char>>, depends_on: Seq<Seq<char>> },
    TaskReset { task: Seq<char> },
    FindingPosted { finding: Finding },
}

impl View for PlannedEvent {
    type V = PlannedEventV;

    open spec fn view(&self) -> PlannedEventV {
        match *self {
            PlannedEvent::ArtifactWritten { path, content_hash } => PlannedEventV::ArtifactWritten { path: path@, content_hash: content_hash@ },
            PlannedEvent::TaskRegistered { task, criteria, scope, depends_on } => PlannedEventV::TaskRegistered {
                task: task@,
                criteria: texts(criteria@),
                scope: texts(scope@),
                depends_on: texts(depends_on@),
            },
            PlannedEvent::TaskReset { task } => PlannedEventV::TaskReset { task: task@ },
            PlannedEvent::FindingPosted { finding } => PlannedEventV::FindingPosted { finding },
        }
    }
}

/// The events, read as plain values.
pub open spec fn planned_views(events: Seq<PlannedEvent>) -> Seq<PlannedEventV> {
    events.map_values(|e: PlannedEvent| e@)
}

/// The criteria and scope `task` was last registered with on `log`.
pub open spec fn last_registration(log: Seq<StoredEvent>, task: Seq<char>) -> Option<(Seq<Seq<char>>, Seq<Seq<char>>)>
    decreases log.len(),
{
    if log.len() == 0 {
        None
    } else {
        match log.last().body {
            EventBody::Known(EventPayload::TaskRegistered { task: t, criteria, scope }) => if t@ == task {
                Some((texts(criteria@), texts(scope@)))
            } else {
                last_registration(log.drop_last(), task)
            },
            _ => last_registration(log.drop_last(), task),
        }
    }
}

/// Whether a task was registered before with other criteria or another
/// scope: the same id naming other work. What it depends on is no part
/// of what it is.
pub open spec fn identity_changed(log: Seq<StoredEvent>, task: TaskEntry) -> bool {
    match last_registration(log, task.id@) {
        Some((criteria, scope)) => criteria != texts(task.criteria@) || scope != texts(task.scope@),
        None => false,
    }
}

/// The events of one registered task.
pub open spec fn task_events(log: Seq<StoredEvent>, task: TaskEntry) -> Seq<PlannedEventV> {
    seq![PlannedEventV::TaskRegistered {
        task: task.id@,
        criteria: texts(task.criteria@),
        scope: texts(task.scope@),
        depends_on: texts(task.depends_on@),
    }] + if identity_changed(log, task) {
        seq![PlannedEventV::TaskReset { task: task.id@ }]
    } else {
        Seq::empty()
    }
}

/// The events of a tasks document's tasks, task by task.
pub open spec fn tasks_events(log: Seq<StoredEvent>, tasks: Seq<TaskEntry>) -> Seq<PlannedEventV>
    decreases tasks.len(),
{
    if tasks.len() == 0 {
        Seq::empty()
    } else {
        tasks_events(log, tasks.drop_last()) + task_events(log, tasks.last())
    }
}

/// The events of one verified artifact: that it was written, then what
/// its content means to the run. A tasks document registers its tasks;
/// a findings file posts its findings only for a `workflow` node, whose
/// findings come from its child run (a session node's are already on
/// the log).
pub open spec fn artifact_events(is_workflow: bool, log: Seq<StoredEvent>, artifact: VerifiedArtifact) -> Seq<PlannedEventV> {
    seq![PlannedEventV::ArtifactWritten { path: artifact.path@, content_hash: artifact.content_hash@ }]
        + match artifact.content {
            ArtifactContent::Tasks(tasks) => tasks_events(log, tasks@),
            ArtifactContent::Findings(findings) => if is_workflow {
                findings@.map_values(|f: Finding| PlannedEventV::FindingPosted { finding: f })
            } else {
                Seq::empty()
            },
            _ => Seq::empty(),
        }
}

/// The events of every verified artifact, artifact by artifact.
pub open spec fn record_spec(is_workflow: bool, log: Seq<StoredEvent>, verified: Seq<VerifiedArtifact>) -> Seq<PlannedEventV>
    decreases verified.len(),
{
    if verified.len() == 0 {
        Seq::empty()
    } else {
        record_spec(is_workflow, log, verified.drop_last()) + artifact_events(is_workflow, log, verified.last())
    }
}

/// Two lists of texts, the same text for text.
fn same_texts(a: &Vec<String>, b: &Vec<String>) -> (same: bool)
    ensures
        same == (texts(a@) == texts(b@)),
{
    if a.len() != b.len() {
        proof {
            assert(texts(a@).len() != texts(b@).len());
        }
        return false;
    }
    let mut i: usize = 0;
    while i < a.len()
        invariant
            a@.len() == b@.len(),
            i <= a@.len(),
            forall|k: int| 0 <= k < i ==> #[trigger] a@[k]@ == b@[k]@,
        decreases a@.len() - i,
    {
        if !same_text(&a[i], &b[i]) {
            proof {
                assert(texts(a@)[i as int] != texts(b@)[i as int]);
            }
            return false;
        }
        i = i + 1;
    }
    proof {
        assert(texts(a@) =~= texts(b@));
    }
    true
}

/// The position on `log` of the last registration of `task`.
fn last_registration_at(log: &Vec<StoredEvent>, task: &String) -> (found: Option<usize>)
    ensures
        match found {
            Some(k) => k < log@.len() && (log@[k as int].body matches EventBody::Known(EventPayload::TaskRegistered { task: t, criteria, scope })
                && t@ == task@ && last_registration(log@, task@) == Some((texts(criteria@), texts(scope@)))),
            None => last_registration(log@, task@) is None,
        },
{
    let mut i: usize = log.len();
    proof {
        assert(log@.take(log@.len() as int) =~= log@);
    }
    while i > 0
        invariant
            i <= log@.len(),
            last_registration(log@, task@) == last_registration(log@.take(i as int), task@),
        decreases i,
    {
        let k = i - 1;
        proof {
            assert(log@.take(i as int).drop_last() =~= log@.take(k as int));
            assert(log@.take(i as int).last() == log@[k as int]);
        }
        match &log[k].body {
            EventBody::Known(EventPayload::TaskRegistered { task: t, .. }) => {
                if same_text(t, task) {
                    return Some(k);
                }
            },
            _ => {},
        }
        i = k;
    }
    proof {
        assert(log@.take(0) =~= Seq::<StoredEvent>::empty());
    }
    None
}

/// Whether `task` names other work than its last registration on `log`.
fn changed_identity(log: &Vec<StoredEvent>, task: &TaskEntry) -> (changed: bool)
    ensures
        changed == identity_changed(log@, *task),
{
    match last_registration_at(log, &task.id) {
        Some(k) => match &log[k].body {
            EventBody::Known(EventPayload::TaskRegistered { criteria, scope, .. }) => {
                !same_texts(criteria, &task.criteria) || !same_texts(scope, &task.scope)
            },
            _ => false,
        },
        None => false,
    }
}

/// Appends the events of a tasks document's tasks.
fn plan_tasks(log: &Vec<StoredEvent>, tasks: &Vec<TaskEntry>, out: &mut Vec<PlannedEvent>)
    ensures
        planned_views(final(out)@) == planned_views(old(out)@) + tasks_events(log@, tasks@),
{
    let ghost start = planned_views(out@);
    let mut i: usize = 0;
    while i < tasks.len()
        invariant
            i <= tasks@.len(),
            planned_views(out@) == start + tasks_events(log@, tasks@.take(i as int)),
        decreases tasks@.len() - i,
    {
        proof {
            assert(tasks@.take(i + 1).drop_last() =~= tasks@.take(i as int));
        }
        let task = &tasks[i];
        let registered = PlannedEvent::TaskRegistered {
            task: task.id.clone(),
            criteria: copy_strings(&task.criteria),
            scope: copy_strings(&task.scope),
            depends_on: copy_strings(&task.depends_on),
        };
        out.push(registered);
        let changed = changed_identity(log, task);
        if changed {
            out.push(PlannedEvent::TaskReset { task: task.id.clone() });
        }
        proof {
            let v = planned_views(out@);
            if changed {
                assert(v =~= start + tasks_events(log@, tasks@.take(i as int)) + task_events(log@, tasks@[i as int]));
            } else {
                assert(v =~= start + tasks_events(log@, tasks@.take(i as int)) + task_events(log@, tasks@[i as int]));
            }
        }
        i = i + 1;
    }
    proof {
        assert(tasks@.take(tasks@.len() as int) =~= tasks@);
    }
}

/// Appends the findings a `workflow` node's findings file posts.
fn plan_findings(findings: &Vec<Finding>, out: &mut Vec<PlannedEvent>)
    ensures
        planned_views(final(out)@) == planned_views(old(out)@)
            + findings@.map_values(|f: Finding| PlannedEventV::FindingPosted { finding: f }),
{
    let ghost start = planned_views(out@);
    let mut i: usize = 0;
    while i < findings.len()
        invariant
            i <= findings@.len(),
            planned_views(out@) == start + findings@.take(i as int).map_values(|f: Finding| PlannedEventV::FindingPosted { finding: f }),
        decreases findings@.len() - i,
    {
        let ghost prev = out@;
        out.push(PlannedEvent::FindingPosted { finding: findings[i].duplicate() });
        proof {
            assert(planned_views(out@) =~= planned_views(prev).push(PlannedEventV::FindingPosted { finding: findings@[i as int] }));
            assert(findings@.take(i + 1).map_values(|f: Finding| PlannedEventV::FindingPosted { finding: f })
                =~= findings@.take(i as int).map_values(|f: Finding| PlannedEventV::FindingPosted { finding: f }).push(PlannedEventV::FindingPosted { finding: findings@[i as int] }));
            assert(planned_views(out@) =~= start + findings@.take(i + 1).map_values(|f: Finding| PlannedEventV::FindingPosted { finding: f }));
        }
        i = i + 1;
    }
    proof {
        assert(findings@.take(findings@.len() as int) =~= findings@);
    }
}

/// The events a node's close puts on the log for its verified artifacts,
/// in order, judged against the log as it stood before the close: each
/// artifact's write, then the tasks it registers (each followed by a
/// reset to pending when the same id now names other work) or, for a
/// `workflow` node, the findings it posts.
pub fn record_artifacts(is_workflow: bool, log: &Vec<StoredEvent>, verified: &Vec<VerifiedArtifact>) -> (events: Vec<PlannedEvent>)
    ensures
        planned_views(events@) == record_spec(is_workflow, log@, verified@),
{
    let mut events: Vec<PlannedEvent> = Vec::new();
    let mut i: usize = 0;
    while i < verified.len()
        invariant
            i <= verified@.len(),
            planned_views(events@) == record_spec(is_workflow, log@, verified@.take(i as int)),
        decreases verified@.len() - i,
    {
        proof {
            assert(verified@.take(i + 1).drop_last() =~= verified@.take(i as int));
        }
        let artifact = &verified[i];
        let ghost before = planned_views(events@);
        events.push(PlannedEvent::ArtifactWritten { path: artifact.path.clone(), content_hash: artifact.content_hash.clone() });
        let ghost written = planned_views(events@);
        proof {
            assert(written =~= before + seq![PlannedEventV::ArtifactWritten { path: artifact.path@, content_hash: artifact.content_hash@ }]);
        }
        match &artifact.content {
            ArtifactContent::Tasks(tasks) => {
                plan_tasks(log, tasks, &mut events);
            },
            ArtifactContent::Findings(findings) => {
                if is_workflow {
                    plan_findings(findings, &mut events);
                }
            },
            _ => {},
        }
        proof {
            assert(planned_views(events@) =~= before + artifact_events(is_workflow, log@, verified@[i as int]));
        }
        i = i + 1;
    }
    proof {
        assert(verified@.take(verified@.len() as int) =~= verified@);
    }
    events
}

} // verus!
