//! A loop node's decisions over its task plan: which tasks one iteration
//! works on, what the loop does when none is ready or its iteration cap
//! is spent, whether a task may land on the run's tree, and what a task of
//! a batch settles to. The dispatch, the git work of integration and the
//! escalations are the caller's.

use vstd::prelude::*;
use vstd::string::StringExecFns;

use crate::events::{CriterionResult, EventBody, EventPayload, StoredEvent, TaskStatus};
use crate::render::{join, join_spec};
use crate::replay::{task_key, task_status_of, RunState, RunStateV, TaskRecord};
use crate::ledger::lookup_keyed;
use crate::text::{decimal, decimal_spec, texts};
use crate::workflow::NodeKind;

verus! {

/// One task of a plan: its id and the tasks it waits on.
#[derive(Debug, Clone, PartialEq, Eq)]
pub struct Task {
    pub id: String,
    pub depends_on: Vec<String>,
}

/// A registered task plan, in declaration order.
#[derive(Debug, Clone, PartialEq, Eq)]
pub struct TaskPlan {
    pub tasks: Vec<Task>,
}

/// Whether an iteration may work on `task`: it is `Pending` with every
/// dependency `Done`, or it is an orphaned `Running` task a crash left
/// behind (orphans are always run again).
pub open spec fn task_ready(state: RunStateV, task: Task) -> bool {
    match task_status_of(state.tasks, task.id@) {
        Some(TaskStatus::Pending) => forall|d: int| 0 <= d < task.depends_on@.len()
            ==> task_status_of(state.tasks, #[trigger] task.depends_on@[d]@) == Some(TaskStatus::Done),
        Some(TaskStatus::Running) => true,
        _ => false,
    }
}

/// The positions of the ready tasks among the first `n`, in order.
pub open spec fn ready_positions(tasks: Seq<Task>, state: RunStateV, n: int) -> Seq<int>
    decreases n,
{
    if n <= 0 || n > tasks.len() {
        Seq::empty()
    } else {
        ready_positions(tasks, state, n - 1) + if task_ready(state, tasks[n - 1]) { seq![n - 1] } else { Seq::empty() }
    }
}

/// Up to `concurrency` ready tasks, in declaration order.
pub open spec fn batch_spec(tasks: Seq<Task>, state: RunStateV, concurrency: u32) -> Seq<int> {
    let ready = ready_positions(tasks, state, tasks.len() as int);
    ready.take(if ready.len() < concurrency { ready.len() as int } else { concurrency as int })
}

fn ready(state: &RunState, task: &Task) -> (is: bool)
    ensures
        is == task_ready(state@, *task),
{
    match state.tasks.status(&task.id) {
        Some(TaskStatus::Pending) => {
            let mut d: usize = 0;
            while d < task.depends_on.len()
                invariant
                    d <= task.depends_on@.len(),
                    task_status_of(state@.tasks, task.id@) == Some(TaskStatus::Pending),
                    forall|k: int| 0 <= k < d ==> task_status_of(state@.tasks, #[trigger] task.depends_on@[k]@) == Some(TaskStatus::Done),
                decreases task.depends_on@.len() - d,
            {
                if !matches!(state.tasks.status(&task.depends_on[d]), Some(TaskStatus::Done)) {
                    proof { assert(task_status_of(state@.tasks, task.depends_on@[d as int]@) != Some(TaskStatus::Done)); }
                    return false;
                }
                d = d + 1;
            }
            true
        },
        Some(TaskStatus::Running) => true,
        _ => false,
    }
}

/// Up to `concurrency` tasks this iteration may work on, by their position
/// in the plan, in declaration order.
pub fn select_batch(plan: &TaskPlan, state: &RunState, concurrency: u32) -> (batch: Vec<usize>)
    ensures
        batch@.map_values(|i: usize| i as int) == batch_spec(plan.tasks@, state@, concurrency),
{
    let tasks = &plan.tasks;
    let mut batch: Vec<usize> = Vec::new();
    let mut i: usize = 0;
    while i < tasks.len()
        invariant
            i <= tasks@.len(),
            ({
                let ready = ready_positions(tasks@, state@, i as int);
                batch@.map_values(|k: usize| k as int) == ready.take(if ready.len() < concurrency { ready.len() as int } else { concurrency as int })
            }),
        decreases tasks@.len() - i,
    {
        let ghost before = ready_positions(tasks@, state@, i as int);
        let ghost old_view = batch@.map_values(|k: usize| k as int);
        if ready(state, &tasks[i]) {
            let ghost after = ready_positions(tasks@, state@, i + 1);
            proof { assert(after == before + seq![i as int]); }
            if (batch.len() as u64) < (concurrency as u64) {
                batch.push(i);
                proof {
                    assert(batch@.map_values(|k: usize| k as int) =~= old_view.push(i as int));
                    assert(before.len() < concurrency);
                    assert(after.take(after.len() as int) =~= after);
                    assert(before.take(before.len() as int) =~= before);
                    assert(after =~= before.push(i as int));
                }
            } else {
                proof {
                    assert(before.len() >= concurrency);
                    assert(after.take(concurrency as int) =~= before.take(concurrency as int));
                }
            }
        } else {
            proof {
                assert(ready_positions(tasks@, state@, i + 1) =~= before);
            }
        }
        i = i + 1;
    }
    batch
}

/// What one iteration of a loop does.
#[derive(Debug, Clone, PartialEq, Eq)]
pub enum LoopStep {
    /// Every task is done: the loop node closes with this outcome.
    Close { outcome: String },
    /// Nothing is ready and not everything is done: the node fails with
    /// this diagnostic.
    Fail { diagnostic: String },
    /// The loop wants another iteration past its cap: a person decides.
    AskOverrun,
    /// Work on these tasks, by position in the plan.
    Dispatch { batch: Vec<usize> },
}

/// Whether every task of the plan is done.
pub open spec fn all_done(tasks: Seq<Task>, state: RunStateV) -> bool {
    forall|i: int| 0 <= i < tasks.len() ==> task_status_of(state.tasks, #[trigger] tasks[i].id@) == Some(TaskStatus::Done)
}

/// The diagnostic of a loop that has nothing ready, citing each blocked
/// reason gathered this invocation.
pub open spec fn stuck_diagnostic(reasons: Seq<Seq<char>>) -> Seq<char>
    decreases reasons.len(),
{
    if reasons.len() == 0 {
        "no task is ready and not all are done — blocked or failed tasks need a decision"@
    } else {
        stuck_diagnostic(reasons.drop_last()) + "; "@ + reasons.last()
    }
}

/// An iteration's decision: close when nothing is ready and every task is
/// done, fail when nothing is ready otherwise, ask when the iteration is
/// past the cap and the cap was not lifted, and work on the batch
/// otherwise.
pub fn loop_step(
    plan: &TaskPlan,
    state: &RunState,
    concurrency: u32,
    iteration: u32,
    max_iterations: u32,
    iterations_lifted: bool,
    blocked_reasons: &Vec<String>,
) -> (step: LoopStep)
    ensures
        batch_spec(plan.tasks@, state@, concurrency).len() == 0 ==> {
            if all_done(plan.tasks@, state@) {
                step matches LoopStep::Close { outcome }
                    && outcome@ == decimal_spec(plan.tasks@.len()) + " task(s) done"@
            } else {
                step matches LoopStep::Fail { diagnostic } && diagnostic@ == stuck_diagnostic(texts(blocked_reasons@))
            }
        },
        batch_spec(plan.tasks@, state@, concurrency).len() > 0 ==> {
            if iteration > max_iterations && !iterations_lifted {
                step is AskOverrun
            } else {
                step matches LoopStep::Dispatch { batch }
                    && batch@.map_values(|i: usize| i as int) == batch_spec(plan.tasks@, state@, concurrency)
            }
        },
{
    let batch = select_batch(plan, state, concurrency);
    if batch.len() == 0 {
        let mut done = true;
        let mut i: usize = 0;
        while i < plan.tasks.len()
            invariant
                i <= plan.tasks@.len(),
                done == forall|k: int| 0 <= k < i ==> task_status_of(state@.tasks, #[trigger] plan.tasks@[k].id@) == Some(TaskStatus::Done),
            decreases plan.tasks@.len() - i,
        {
            if !matches!(state.tasks.status(&plan.tasks[i].id), Some(TaskStatus::Done)) {
                done = false;
            }
            i = i + 1;
        }
        if done {
            let mut outcome = decimal(plan.tasks.len() as u64);
            outcome.append(" task(s) done");
            return LoopStep::Close { outcome };
        }
        let mut diagnostic = String::from_str("no task is ready and not all are done — blocked or failed tasks need a decision");
        let mut r: usize = 0;
        while r < blocked_reasons.len()
            invariant
                r <= blocked_reasons@.len(),
                diagnostic@ == stuck_diagnostic(texts(blocked_reasons@).take(r as int)),
            decreases blocked_reasons@.len() - r,
        {
            proof {
                assert(texts(blocked_reasons@).take(r + 1).drop_last() =~= texts(blocked_reasons@).take(r as int));
                assert(texts(blocked_reasons@).take(r + 1).last() == blocked_reasons@[r as int]@);
            }
            diagnostic.append("; ");
            diagnostic.append(blocked_reasons[r].as_str());
            r = r + 1;
        }
        proof { assert(texts(blocked_reasons@).take(r as int) =~= texts(blocked_reasons@)); }
        return LoopStep::Fail { diagnostic };
    }
    if iteration > max_iterations && !iterations_lifted {
        LoopStep::AskOverrun
    } else {
        LoopStep::Dispatch { batch }
    }
}

/// The attempt a task's next dispatch is: one more than the times the log
/// dispatched it `Running` (1 for a task never dispatched), saturating.
pub fn attempt_number(state: &RunState, task: &String) -> (attempt: u32)
    ensures
        attempt == match lookup_keyed(state@.tasks, task_key(), task@) {
            Some(record) => if record.attempts == u32::MAX { u32::MAX } else { (record.attempts + 1) as u32 },
            None => 1u32,
        },
{
    match state.tasks.get(task) {
        Some(record) => record.attempts.saturating_add(1),
        None => 1,
    }
}

/// How many scope expansions the first `n` events granted.
pub open spec fn grants_before(events: Seq<StoredEvent>, n: int) -> nat
    decreases n,
{
    if n <= 0 || n > events.len() {
        0
    } else {
        grants_before(events, n - 1) + if events[n - 1].body matches EventBody::Known(EventPayload::ScopeExpansionGranted { .. }) { 1nat } else { 0nat }
    }
}

/// How many scope expansions the run's whole log granted: the per-run cap
/// counts the run, never a task.
pub fn granted_count(events: &Vec<StoredEvent>) -> (count: usize)
    ensures
        count == grants_before(events@, events@.len() as int),
{
    let mut count: usize = 0;
    let mut i: usize = 0;
    while i < events.len()
        invariant
            i <= events@.len(),
            count == grants_before(events@, i as int),
            count <= i,
        decreases events@.len() - i,
    {
        if matches!(events[i].body, EventBody::Known(EventPayload::ScopeExpansionGranted { .. })) {
            count = count + 1;
        }
        i = i + 1;
    }
    count
}

/// Every path the first `n` events granted to `task`, in log order.
pub open spec fn granted_paths(events: Seq<StoredEvent>, task: Seq<char>, n: int) -> Seq<Seq<char>>
    decreases n,
{
    if n <= 0 || n > events.len() {
        Seq::empty()
    } else {
        granted_paths(events, task, n - 1) + match events[n - 1].body {
            EventBody::Known(EventPayload::ScopeExpansionGranted { task: t, paths }) => if t@ == task { texts(paths@) } else { Seq::empty() },
            _ => Seq::empty(),
        }
    }
}

/// Every path a grant on the log authorized for `task`: a retry after a
/// person's grant derives its widened scope from here, never from memory.
pub fn granted_paths_for(events: &Vec<StoredEvent>, task: &String) -> (paths: Vec<String>)
    ensures
        texts(paths@) == granted_paths(events@, task@, events@.len() as int),
{
    let mut paths: Vec<String> = Vec::new();
    let mut i: usize = 0;
    while i < events.len()
        invariant
            i <= events@.len(),
            texts(paths@) == granted_paths(events@, task@, i as int),
        decreases events@.len() - i,
    {
        if let EventBody::Known(EventPayload::ScopeExpansionGranted { task: t, paths: granted }) = &events[i].body {
            if crate::text::same_text(t, task) {
                let ghost base = texts(paths@);
                let mut k: usize = 0;
                while k < granted.len()
                    invariant
                        k <= granted@.len(),
                        texts(paths@) == base + texts(granted@).take(k as int),
                    decreases granted@.len() - k,
                {
                    let ghost prev = paths@;
                    let item = granted[k].clone();
                    paths.push(item);
                    proof {
                        assert(paths@ == prev.push(item));
                        assert(texts(paths@) =~= texts(prev).push(granted@[k as int]@));
                        assert(texts(granted@).take(k + 1) =~= texts(granted@).take(k as int).push(granted@[k as int]@));
                        assert(texts(paths@) =~= base + texts(granted@).take(k + 1));
                    }
                    k = k + 1;
                }
                proof { assert(texts(granted@).take(k as int) =~= texts(granted@)); }
            } else {
                proof { assert(texts(paths@) =~= texts(paths@) + Seq::<Seq<char>>::empty()); }
            }
        } else {
            proof { assert(texts(paths@) =~= texts(paths@) + Seq::<Seq<char>>::empty()); }
        }
        i = i + 1;
    }
    paths
}

/// The paths a replay stopped on, as a criterion line names them.
pub fn conflict_list(paths: &Vec<String>) -> (list: String)
    ensures
        list@ == join_spec(texts(paths@), ", "@),
{
    join(paths, ", ")
}

/// What a task may touch: what it declared, then every path a grant on
/// the log authorized for it. Derived from the log rather than carried
/// from the attempt, so a re-verification after a crash grants exactly
/// what the attempt was granted.
pub fn effective_scope(declared: &Vec<String>, events: &Vec<StoredEvent>, task: &String) -> (scope: Vec<String>)
    ensures
        texts(scope@) == texts(declared@) + granted_paths(events@, task@, events@.len() as int),
{
    let mut scope = crate::text::copy_strings(declared);
    let granted = granted_paths_for(events, task);
    let ghost base = scope@;
    let mut k: usize = 0;
    while k < granted.len()
        invariant
            k <= granted@.len(),
            texts(scope@) == texts(base) + texts(granted@).take(k as int),
        decreases granted@.len() - k,
    {
        let ghost prev = scope@;
        scope.push(granted[k].clone());
        proof {
            assert(texts(scope@) =~= texts(prev).push(granted@[k as int]@));
            assert(texts(granted@).take(k + 1) =~= texts(granted@).take(k as int).push(granted@[k as int]@));
        }
        k = k + 1;
    }
    proof {
        assert(texts(granted@).take(k as int) =~= texts(granted@));
    }
    scope
}

/// What a rebase that stopped on conflicts records: no check ran, so the
/// replay itself is recorded the way any command's outcome is, a failed
/// criterion naming the git command and the paths it stopped on.
pub fn rebase_conflict(paths: &Vec<String>) -> (result: CriterionResult)
    ensures
        result.cmd@ == "git rebase: "@ + join_spec(texts(paths@), ", "@),
        result.exit_code == 1,
        !result.reused,
{
    let mut cmd = String::from_str("git rebase: ");
    let list = conflict_list(paths);
    cmd.append(list.as_str());
    CriterionResult { cmd, exit_code: 1, reused: false }
}

/// Whether a task re-verified on the run's current tree may land: every
/// criterion green there and nothing outside its scope. Green in
/// isolation is necessary, never sufficient.
pub fn lands(post_check: &Vec<CriterionResult>, violations: &Vec<String>) -> (ok: bool)
    ensures
        ok == ((forall|i: int| 0 <= i < post_check@.len() ==> (#[trigger] post_check@[i]).exit_code == 0) && violations@.len() == 0),
{
    let mut i: usize = 0;
    while i < post_check.len()
        invariant
            i <= post_check@.len(),
            forall|t: int| 0 <= t < i ==> (#[trigger] post_check@[t]).exit_code == 0,
        decreases post_check@.len() - i,
    {
        if post_check[i].exit_code != 0 {
            return false;
        }
        i = i + 1;
    }
    violations.len() == 0
}

/// How a dispatched task's cycle ended, once a task verified done in its
/// own worktree has been through integration.
#[derive(Debug, Clone, PartialEq, Eq)]
pub enum TaskEnd {
    /// The dispatch was cancelled before a verdict.
    Interrupted,
    /// The task's own retries ran out.
    Blocked { cause: String },
    /// The run's tree fast-forwarded onto the task's work and stands at
    /// `commit`.
    Integrated { commit: String },
    /// Re-verified on the run's current tree, the task failed there.
    Rejected,
}

/// What integrating one task records.
#[derive(Debug, Clone, PartialEq, Eq)]
pub enum TaskSettlement {
    /// The node ends without a verdict; the task stays running on the log,
    /// which is what makes a resume run it again.
    Cancelled,
    /// The task's new status, the blocked reason the loop cites when
    /// nothing is ready (not for a task a person must decide on), and, for
    /// an escalated request, the attempt that raised it and whether the
    /// task was blocked meanwhile.
    Settled { status: EventPayload, blocked: Option<(String, String)>, escalation: Option<(u32, bool)> },
}

/// The status a settled task moves to: blocked when its retries ran out,
/// done when it landed, and back to pending when the current tree rejected
/// it (a sibling's work, not the task, may be what broke it).
pub open spec fn settled_status(end: TaskEnd) -> TaskStatus {
    match end {
        TaskEnd::Blocked { .. } => TaskStatus::Blocked,
        TaskEnd::Integrated { .. } => TaskStatus::Done,
        _ => TaskStatus::Pending,
    }
}

/// Records how one task of a batch ended, after its attempts are on the
/// log; `caused_by` is the sequence number of the task's latest check.
pub fn settle_task(
    task: &String,
    end: TaskEnd,
    caused_by: u64,
    needs_human_decision: bool,
    escalated_attempt: Option<u32>,
) -> (settlement: TaskSettlement)
    ensures
        (end is Interrupted) <==> (settlement is Cancelled),
        settlement matches TaskSettlement::Settled { status, blocked, escalation } ==> {
            &&& status matches EventPayload::TaskStatusChanged { task: t, status: s, caused_by: c, commit }
                && t@ == task@ && s == settled_status(end) && c == caused_by
                && match end {
                    TaskEnd::Integrated { commit: landed } => commit matches Some(k) && k@ == landed@,
                    _ => commit is None,
                }
            &&& match end {
                TaskEnd::Blocked { cause } if !needs_human_decision => blocked matches Some((t, c)) && t@ == task@ && c@ == cause@,
                _ => blocked is None,
            }
            &&& escalation == if needs_human_decision {
                match escalated_attempt {
                    Some(attempt) => Some((attempt, end is Blocked)),
                    None => None,
                }
            } else {
                None
            }
        },
{
    let was_blocked = matches!(end, TaskEnd::Blocked { .. });
    let (status, commit, blocked) = match end {
        TaskEnd::Interrupted => return TaskSettlement::Cancelled,
        TaskEnd::Blocked { cause } => {
            let blocked = if needs_human_decision {
                None
            } else {
                Some((task.clone(), cause))
            };
            (TaskStatus::Blocked, None, blocked)
        },
        TaskEnd::Integrated { commit } => (TaskStatus::Done, Some(commit), None),
        TaskEnd::Rejected => (TaskStatus::Pending, None, None),
    };
    let escalation = if needs_human_decision {
        match escalated_attempt {
            Some(attempt) => Some((attempt, was_blocked)),
            None => None,
        }
    } else {
        None
    };
    TaskSettlement::Settled {
        status: EventPayload::TaskStatusChanged { task: task.clone(), status, caused_by, commit },
        blocked,
        escalation,
    }
}

/// How many ready tasks one iteration of a loop works on: its declared
/// `concurrency`, at least one; one when it declares none. Never inherited
/// from configuration: token spend multiplies with it.
pub open spec fn concurrency_spec(kind: NodeKind) -> u32 {
    match kind {
        NodeKind::Loop { concurrency: Some(n), .. } => if n == 0 { 1 } else { n },
        _ => 1,
    }
}

/// How many ready tasks one iteration of a loop works on.
pub fn loop_concurrency(kind: &NodeKind) -> (concurrency: u32)
    ensures
        concurrency == concurrency_spec(*kind),
        concurrency >= 1,
{
    match kind {
        NodeKind::Loop { concurrency: Some(n), .. } => if *n == 0 { 1 } else { *n },
        _ => 1,
    }
}

/// The position of the event that registered `task`, among the events
/// from `from` on.
pub open spec fn registered_seq(events: Seq<StoredEvent>, task: Seq<char>, from: int) -> Option<u64>
    decreases events.len() - from,
{
    if from < 0 || from >= events.len() {
        None
    } else {
        match events[from].body {
            EventBody::Known(EventPayload::TaskRegistered { task: t, .. }) if t@ == task => Some(events[from].seq),
            _ => registered_seq(events, task, from + 1),
        }
    }
}

/// The failure of dispatching a task the log never registered: the log
/// and the plan disagree, which is the engine's own fault.
pub open spec fn unregistered_dispatch_spec(task: Seq<char>) -> Seq<char> {
    "task `"@ + task + "` is dispatched but the log has no task_registered for it"@
}

/// The status change a task's dispatch records: `Running`, caused by the
/// event that registered it.
pub fn dispatch_status(events: &Vec<StoredEvent>, task: &String) -> (status: Result<EventPayload, String>)
    ensures
        match registered_seq(events@, task@, 0) {
            Some(seq) => status matches Ok(EventPayload::TaskStatusChanged { task: t, status: s, caused_by, commit })
                && t@ == task@ && s == TaskStatus::Running && caused_by == seq && commit is None,
            None => status matches Err(diagnostic) && diagnostic@ == unregistered_dispatch_spec(task@),
        },
{
    let mut i: usize = 0;
    while i < events.len()
        invariant
            i <= events@.len(),
            registered_seq(events@, task@, 0) == registered_seq(events@, task@, i as int),
        decreases events@.len() - i,
    {
        if let EventBody::Known(EventPayload::TaskRegistered { task: t, .. }) = &events[i].body {
            if crate::text::same_text(t, task) {
                return Ok(EventPayload::TaskStatusChanged {
                    task: task.clone(),
                    status: TaskStatus::Running,
                    caused_by: events[i].seq,
                    commit: None,
                });
            }
        }
        i = i + 1;
    }
    let mut diagnostic = String::from_str("task `");
    diagnostic.append(task.as_str());
    diagnostic.append("` is dispatched but the log has no task_registered for it");
    Err(diagnostic)
}

} // verus!
