//! What a person's `retry` of a failed loop does to the tasks it left
//! blocked: they start a fresh cycle, once per decision.

use vstd::prelude::*;

use crate::events::{EventBody, EventPayload, StoredEvent, TaskStatus};
use crate::ledger::{gate_of, record_of, GateResolution};
use crate::replay::{task_status_of, RunState};
use crate::reserved::{parse_spec, ReservedOption};
use crate::text::texts;

verus! {

/// Where the log holds the `retry` a person chose for `node` after its
/// latest failure, if its latest decision is one.
pub open spec fn retry_decision(state: RunState, node: Seq<char>) -> Option<u64> {
    match record_of(state.nodes, node) {
        Some(record) => match record.last_failed {
            Some(failed) => match gate_of(state.gates, node) {
                Some(gate) => match gate.resolved {
                    Some((GateResolution::Chosen { option }, at)) => if parse_spec(option@) == Some(ReservedOption::Retry) && at > failed {
                        Some(at)
                    } else {
                        None
                    },
                    _ => None,
                },
                None => None,
            },
            None => None,
        },
        None => None,
    }
}

/// Where the log holds the `retry` a person chose for `node` after its
/// latest failure.
pub fn retry_chosen_after_failure(state: &RunState, node: &String) -> (decision: Option<u64>)
    ensures
        decision == retry_decision(*state, node@),
{
    let record = match state.nodes.get(node) {
        Some(record) => record,
        None => return None,
    };
    let failed = match record.last_failed {
        Some(failed) => failed,
        None => return None,
    };
    let gate = match state.gates.get(node) {
        Some(gate) => gate,
        None => return None,
    };
    match &gate.resolved {
        Some((GateResolution::Chosen { option }, at)) => {
            let retry = match ReservedOption::of(option.as_str()) {
                Some(ReservedOption::Retry) => true,
                _ => false,
            };
            if retry && *at > failed {
                Some(*at)
            } else {
                None
            }
        },
        _ => None,
    }
}

/// Whether the log already holds a task status change the decision at
/// `decision` caused.
pub open spec fn acted_on(log: Seq<StoredEvent>, decision: u64) -> bool {
    exists|i: int| 0 <= i < log.len() && #[trigger] caused_by_at(log, i) == Some(decision)
}

/// What the event at `i` says caused it, when it is a task status change.
pub open spec fn caused_by_at(log: Seq<StoredEvent>, i: int) -> Option<u64> {
    match log[i].body {
        EventBody::Known(EventPayload::TaskStatusChanged { caused_by, .. }) => Some(caused_by),
        _ => None,
    }
}

/// Whether `task` is blocked.
pub open spec fn is_blocked(state: RunState, task: Seq<char>) -> bool {
    task_status_of(state.tasks.records@, task) == Some(TaskStatus::Blocked)
}

/// The document's tasks that the state holds blocked, in document order.
pub open spec fn blocked_tasks(state: RunState, tasks: Seq<Seq<char>>) -> Seq<Seq<char>>
    decreases tasks.len(),
{
    if tasks.len() == 0 {
        Seq::empty()
    } else {
        blocked_tasks(state, tasks.drop_last()) + if is_blocked(state, tasks.last()) {
            seq![tasks.last()]
        } else {
            Seq::empty()
        }
    }
}

/// Whether the log holds a status change caused by `decision`.
fn decision_acted_on(log: &Vec<StoredEvent>, decision: u64) -> (acted: bool)
    ensures
        acted == acted_on(log@, decision),
{
    let mut i: usize = 0;
    while i < log.len()
        invariant
            i <= log@.len(),
            forall|k: int| 0 <= k < i ==> #[trigger] caused_by_at(log@, k) != Some(decision),
        decreases log@.len() - i,
    {
        match &log[i].body {
            EventBody::Known(EventPayload::TaskStatusChanged { caused_by, .. }) => {
                if *caused_by == decision {
                    proof {
                        assert(caused_by_at(log@, i as int) == Some(decision));
                    }
                    return true;
                }
            },
            _ => {},
        }
        proof {
            assert(caused_by_at(log@, i as int) != Some(decision));
        }
        i = i + 1;
    }
    false
}

/// What a person's `retry` after `node` failed reopens: the decision to
/// cite, and the document's tasks it left blocked, which start a fresh
/// cycle. Once per decision: nothing when the log already holds a status
/// change that decision caused, and nothing without such a decision (a
/// plain resume never spends again on a task).
pub fn after_retry(state: &RunState, log: &Vec<StoredEvent>, node: &String, tasks: &Vec<String>) -> (reopen: Option<(u64, Vec<String>)>)
    ensures
        match retry_decision(*state, node@) {
            None => reopen is None,
            Some(decision) => if acted_on(log@, decision) {
                reopen is None
            } else {
                reopen matches Some((cited, ids)) && cited == decision && texts(ids@) == blocked_tasks(*state, texts(tasks@))
            },
        },
{
    let decision = match retry_chosen_after_failure(state, node) {
        Some(decision) => decision,
        None => return None,
    };
    if decision_acted_on(log, decision) {
        return None;
    }
    let mut ids: Vec<String> = Vec::new();
    let mut i: usize = 0;
    while i < tasks.len()
        invariant
            i <= tasks@.len(),
            texts(ids@) == blocked_tasks(*state, texts(tasks@).take(i as int)),
        decreases tasks@.len() - i,
    {
        proof {
            assert(texts(tasks@).take(i + 1).drop_last() =~= texts(tasks@).take(i as int));
        }
        let ghost before = ids@;
        let blocked = match state.tasks.status(&tasks[i]) {
            Some(TaskStatus::Blocked) => true,
            _ => false,
        };
        proof {
            assert(texts(tasks@)[i as int] == tasks@[i as int]@);
        }
        if blocked {
            ids.push(tasks[i].clone());
            proof {
                assert(texts(ids@) =~= texts(before).push(tasks@[i as int]@));
            }
        }
        i = i + 1;
    }
    proof {
        assert(texts(tasks@).take(tasks@.len() as int) =~= texts(tasks@));
    }
    Some((decision, ids))
}

} // verus!
