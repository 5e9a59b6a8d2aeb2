//! The Verified Work Receipt: a certificate derived entirely from the event
//! log, never from a summary an agent wrote. Every number here traces back
//! to a specific kind of event.

use vstd::prelude::*;
use vstd::string::StringExecFns;

use crate::events::{CriterionResult, EventBody, EventPayload, Phase, StoredEvent, TerminalState};
use crate::ledger::{find_keyed, lemma_find_keyed, lemma_put_keyed, lookup_keyed, put_keyed, state_in, NodeState, TokenUsage};
use crate::replay::{derive_spec, unknown_kind_counts, counts_exact, UnknownKindCount};
use crate::tally::{
    check_counts, corrected_problems, diagnostic_counts, failure_problems, never_checked, self_checks, tally_exact, DiagnosticCount,
    SelfCheckSummary,
};
use crate::workflow::{CheckBuiltin, Node, NodeKind};
use crate::text::{decimal, decimal_spec, lemma_path_lt_order, lemma_text_lt_order, path_less, path_lt, same_text, text_less, text_lt, texts};

verus! {

/// One criterion's latest outcome: the unit "23/23 criteria green" counts.
#[derive(Debug, Clone, PartialEq, Eq)]
pub struct CriterionEntry {
    pub task_id: String,
    pub cmd: String,
    pub exit_code: i32,
}

/// Every task's final criteria, and how many of them passed.
#[derive(Debug, Clone, PartialEq, Eq)]
pub struct CriteriaSummary {
    pub total: usize,
    pub green: usize,
    pub entries: Vec<CriterionEntry>,
}

/// `a` sorts before `b`: by task, then by command.
pub open spec fn entry_lt(a: CriterionEntry, b: CriterionEntry) -> bool {
    text_lt(a.task_id@, b.task_id@) || (a.task_id@ == b.task_id@ && text_lt(a.cmd@, b.cmd@))
}

/// Where `x` goes in `sorted`: after every entry that does not sort after it.
pub open spec fn insert_position(sorted: Seq<CriterionEntry>, x: CriterionEntry, from: int) -> int
    decreases sorted.len() - from,
{
    if from < 0 || from >= sorted.len() || entry_lt(x, sorted[from]) {
        from
    } else {
        insert_position(sorted, x, from + 1)
    }
}

/// `entries` sorted by task and command, entries with the same task and
/// command keeping their order.
pub open spec fn sort_entries(entries: Seq<CriterionEntry>) -> Seq<CriterionEntry>
    decreases entries.len(),
{
    if entries.len() == 0 {
        entries
    } else {
        let sorted = sort_entries(entries.drop_last());
        sorted.insert(insert_position(sorted, entries.last(), 0), entries.last())
    }
}

/// No entry sorts before one that precedes it.
pub open spec fn entries_sorted(entries: Seq<CriterionEntry>) -> bool {
    forall|i: int, j: int| 0 <= i < j < entries.len() ==> !entry_lt(#[trigger] entries[j], #[trigger] entries[i])
}

/// The task and results of a post-phase criteria check.
pub open spec fn post_check(event: StoredEvent) -> Option<(String, Seq<CriterionResult>)> {
    match event.body {
        EventBody::Known(EventPayload::CriteriaChecked { task_id, phase: Phase::Post, results }) => Some((task_id, results@)),
        _ => None,
    }
}

/// Latest checks are keyed by their task.
pub open spec fn check_key() -> spec_fn((String, usize)) -> Seq<char> {
    |entry: (String, usize)| entry.0@
}

/// For each task with a post-phase check among the first `n` events, the
/// position of its latest one, tasks in the order they were first checked.
pub open spec fn latest_checks(events: Seq<StoredEvent>, n: int) -> Seq<(String, usize)>
    decreases n,
{
    if n <= 0 || n > events.len() {
        Seq::empty()
    } else {
        let before = latest_checks(events, n - 1);
        match post_check(events[n - 1]) {
            Some((task, _)) => put_keyed(before, check_key(), (task, (n - 1) as usize)),
            None => before,
        }
    }
}

/// The entries a task's results make.
pub open spec fn entries_of(task: String, results: Seq<CriterionResult>) -> Seq<CriterionEntry> {
    results.map_values(|r: CriterionResult| CriterionEntry { task_id: task, cmd: r.cmd, exit_code: r.exit_code })
}

/// Every latest check's entries, in the order of `latest`.
pub open spec fn flatten_latest(events: Seq<StoredEvent>, latest: Seq<(String, usize)>) -> Seq<CriterionEntry>
    decreases latest.len(),
{
    if latest.len() == 0 {
        Seq::empty()
    } else {
        let (task, at) = latest.last();
        flatten_latest(events, latest.drop_last()) + match post_check(events[at as int]) {
            Some((_, results)) => entries_of(task, results),
            None => Seq::empty(),
        }
    }
}

/// How many entries passed.
pub open spec fn count_green(entries: Seq<CriterionEntry>) -> nat
    decreases entries.len(),
{
    if entries.len() == 0 {
        0
    } else {
        count_green(entries.drop_last()) + if entries.last().exit_code == 0 { 1nat } else { 0nat }
    }
}

/// The receipt's criteria: the latest post-phase check of every task, its
/// results sorted by task and command.
pub open spec fn criteria_spec(events: Seq<StoredEvent>) -> Seq<CriterionEntry> {
    sort_entries(flatten_latest(events, latest_checks(events, events.len() as int)))
}

fn entry_less(a: &CriterionEntry, b: &CriterionEntry) -> (less: bool)
    ensures
        less == entry_lt(*a, *b),
{
    text_less(a.task_id.as_str(), b.task_id.as_str())
        || (same_text(&a.task_id, &b.task_id) && text_less(a.cmd.as_str(), b.cmd.as_str()))
}

proof fn lemma_insert_position(sorted: Seq<CriterionEntry>, x: CriterionEntry, from: int)
    requires
        0 <= from <= sorted.len(),
    ensures
        from <= insert_position(sorted, x, from) <= sorted.len(),
        forall|t: int| from <= t < insert_position(sorted, x, from) ==> !entry_lt(x, #[trigger] sorted[t]),
        insert_position(sorted, x, from) < sorted.len() ==> entry_lt(x, sorted[insert_position(sorted, x, from)]),
    decreases sorted.len() - from,
{
    if from < sorted.len() && !entry_lt(x, sorted[from]) {
        lemma_insert_position(sorted, x, from + 1);
    }
}

/// Entry order is a strict weak order: irreflexive, transitive, and two
/// entries neither of which sorts first agree on task and command.
proof fn lemma_entry_order(a: CriterionEntry, b: CriterionEntry, c: CriterionEntry)
    ensures
        !entry_lt(a, a),
        entry_lt(a, b) && entry_lt(b, c) ==> entry_lt(a, c),
        !entry_lt(a, b) && !entry_lt(b, a) ==> a.task_id@ == b.task_id@ && a.cmd@ == b.cmd@,
        !entry_lt(b, a) && !entry_lt(c, b) ==> !entry_lt(c, a),
{
    lemma_text_lt_order(a.task_id@, b.task_id@, c.task_id@);
    lemma_text_lt_order(a.cmd@, b.cmd@, c.cmd@);
    lemma_text_lt_order(c.task_id@, b.task_id@, a.task_id@);
    lemma_text_lt_order(c.cmd@, b.cmd@, a.cmd@);
    lemma_text_lt_order(b.task_id@, a.task_id@, c.task_id@);
    lemma_text_lt_order(b.cmd@, a.cmd@, c.cmd@);
    lemma_text_lt_order(a.task_id@, c.task_id@, b.task_id@);
    lemma_text_lt_order(a.cmd@, c.cmd@, b.cmd@);
}

/// Inserting at the insert position keeps a sorted list sorted.
proof fn lemma_insert_sorted(sorted: Seq<CriterionEntry>, x: CriterionEntry)
    requires
        entries_sorted(sorted),
    ensures
        entries_sorted(sorted.insert(insert_position(sorted, x, 0), x)),
{
    let p = insert_position(sorted, x, 0);
    lemma_insert_position(sorted, x, 0);
    let after = sorted.insert(p, x);
    assert forall|i: int, j: int| 0 <= i < j < after.len() implies !entry_lt(#[trigger] after[j], #[trigger] after[i]) by {
        if j < p {
            assert(after[i] == sorted[i] && after[j] == sorted[j]);
        } else if j == p {
            assert(after[i] == sorted[i] && after[j] == x);
            assert(!entry_lt(x, sorted[i]));
        } else if i < p {
            assert(after[i] == sorted[i] && after[j] == sorted[j - 1]);
        } else if i == p {
            assert(after[i] == x && after[j] == sorted[j - 1]);
            // x sorts before sorted[p], and sorted[j - 1] does not sort before sorted[p].
            if j - 1 > p {
                assert(!entry_lt(sorted[j - 1], sorted[p]));
            }
            lemma_entry_order(sorted[j - 1], x, sorted[p]);
            lemma_entry_order(x, sorted[p], sorted[j - 1]);
            lemma_entry_order(sorted[j - 1], sorted[p], x);
        } else {
            assert(after[i] == sorted[i - 1] && after[j] == sorted[j - 1]);
        }
    }
}

/// The criteria are in task-then-command order.
pub proof fn law_criteria_are_sorted_by_task_then_command(entries: Seq<CriterionEntry>)
    ensures
        entries_sorted(sort_entries(entries)),
    decreases entries.len(),
{
    if entries.len() > 0 {
        law_criteria_are_sorted_by_task_then_command(entries.drop_last());
        lemma_insert_sorted(sort_entries(entries.drop_last()), entries.last());
    }
}

/// Sorting keeps every entry: it only reorders.
pub proof fn law_sorting_keeps_every_criterion(entries: Seq<CriterionEntry>)
    ensures
        sort_entries(entries).to_multiset() == entries.to_multiset(),
    decreases entries.len(),
{
    if entries.len() > 0 {
        law_sorting_keeps_every_criterion(entries.drop_last());
        let sorted = sort_entries(entries.drop_last());
        let p = insert_position(sorted, entries.last(), 0);
        lemma_insert_position(sorted, entries.last(), 0);
        vstd::seq_lib::lemma_seq_union_to_multiset_commutative(sorted.take(p), sorted.skip(p));
        assert(sorted.insert(p, entries.last()) =~= sorted.take(p) + seq![entries.last()] + sorted.skip(p));
        assert(sorted =~= sorted.take(p) + sorted.skip(p));
        vstd::seq_lib::lemma_multiset_commutative(sorted.take(p) + seq![entries.last()], sorted.skip(p));
        vstd::seq_lib::lemma_multiset_commutative(sorted.take(p), seq![entries.last()]);
        vstd::seq_lib::lemma_multiset_commutative(sorted.take(p), sorted.skip(p));
        assert(entries =~= entries.drop_last() + seq![entries.last()]);
        vstd::seq_lib::lemma_multiset_commutative(entries.drop_last(), seq![entries.last()]);
    }
}

/// Every task appears once among the latest checks.
proof fn lemma_latest_checks_unique(events: Seq<StoredEvent>, n: int)
    ensures
        forall|i: int, j: int| 0 <= i < j < latest_checks(events, n).len()
            ==> (#[trigger] latest_checks(events, n)[i]).0@ != (#[trigger] latest_checks(events, n)[j]).0@,
    decreases n,
{
    if 0 < n <= events.len() {
        lemma_latest_checks_unique(events, n - 1);
        let before = latest_checks(events, n - 1);
        match post_check(events[n - 1]) {
            Some((t, _)) => {
                lemma_find_keyed(before, check_key(), t@, 0);
                let after = latest_checks(events, n);
                assert forall|i: int, j: int| 0 <= i < j < after.len() implies (#[trigger] after[i]).0@ != (#[trigger] after[j]).0@ by {
                    match find_keyed(before, check_key(), t@, 0) {
                        Some(p) => {
                            if i != p && j != p {
                                assert(after[i] == before[i] && after[j] == before[j]);
                            } else if i == p {
                                assert(after[j] == before[j]);
                                assert(before[p].0@ == t@);
                            } else {
                                assert(after[i] == before[i]);
                                assert(before[p].0@ == t@);
                            }
                        },
                        None => {
                            if j < before.len() {
                                assert(after[i] == before[i] && after[j] == before[j]);
                            } else {
                                assert(after[i] == before[i]);
                                assert(check_key()(before[i]) != t@);
                            }
                        },
                    }
                }
            },
            None => {},
        }
    }
}

/// A task's superseded checks are never counted: every task among the
/// latest checks points at a post-phase check of that task, and no later
/// event checks that task again.
pub proof fn law_only_the_latest_check_of_a_task_counts(events: Seq<StoredEvent>, n: int, k: int)
    requires
        0 <= n <= events.len(),
        events.len() <= usize::MAX,
        0 <= k < latest_checks(events, n).len(),
    ensures
        ({
            let (task, at) = latest_checks(events, n)[k];
            &&& 0 <= at < n
            &&& post_check(events[at as int]) matches Some((t, _)) && t@ == task@
            &&& forall|later: int| at < later < n ==> !(post_check(#[trigger] events[later]) matches Some((t, _)) && t@ == task@)
        }),
    decreases n,
{
    let before = latest_checks(events, n - 1);
    let after = latest_checks(events, n);
    match post_check(events[n - 1]) {
        Some((t, results)) => {
            lemma_find_keyed(before, check_key(), t@, 0);
            lemma_latest_checks_unique(events, n - 1);
            match find_keyed(before, check_key(), t@, 0) {
                Some(p) => {
                    if k == p {
                        assert(after[k] == (t, (n - 1) as usize));
                    } else {
                        assert(after[k] == before[k]);
                        assert(before[p].0@ == t@);
                        law_only_the_latest_check_of_a_task_counts(events, n - 1, k);
                    }
                },
                None => {
                    if k == before.len() {
                        assert(after[k] == (t, (n - 1) as usize));
                    } else {
                        assert(after[k] == before[k]);
                        assert(check_key()(before[k]) != t@);
                        law_only_the_latest_check_of_a_task_counts(events, n - 1, k);
                    }
                },
            }
        },
        None => {
            law_only_the_latest_check_of_a_task_counts(events, n - 1, k);
        },
    }
}

impl CriterionEntry {
    /// The same entry, owned.
    pub fn duplicate(&self) -> (copy: CriterionEntry)
        ensures
            copy == *self,
    {
        CriterionEntry { task_id: self.task_id.clone(), cmd: self.cmd.clone(), exit_code: self.exit_code }
    }
}

fn latest_position(latest: &Vec<(String, usize)>, task: &String) -> (found: Option<usize>)
    ensures
        found matches Some(i) ==> i < latest@.len() && find_keyed(latest@, check_key(), task@, 0) == Some(i as int),
        found is None ==> find_keyed(latest@, check_key(), task@, 0) is None,
{
    let mut i: usize = 0;
    while i < latest.len()
        invariant
            i <= latest@.len(),
            find_keyed(latest@, check_key(), task@, 0) == find_keyed(latest@, check_key(), task@, i as int),
        decreases latest@.len() - i,
    {
        if same_text(&latest[i].0, task) {
            return Some(i);
        }
        i = i + 1;
    }
    None
}

/// Sorts entries by task, then command; entries with the same task and
/// command keep their order.
pub fn sorted_entries(entries: &Vec<CriterionEntry>) -> (sorted: Vec<CriterionEntry>)
    ensures
        sorted@ == sort_entries(entries@),
{
    let mut sorted: Vec<CriterionEntry> = Vec::new();
    let mut i: usize = 0;
    while i < entries.len()
        invariant
            i <= entries@.len(),
            sorted@ == sort_entries(entries@.take(i as int)),
        decreases entries@.len() - i,
    {
        let x = entries[i].duplicate();
        let ghost prefix = entries@.take(i + 1);
        proof {
            assert(prefix.drop_last() =~= entries@.take(i as int));
            assert(prefix.last() == entries@[i as int]);
        }
        let mut p: usize = 0;
        while p < sorted.len() && !entry_less(&x, &sorted[p])
            invariant
                p <= sorted@.len(),
                sorted@ == sort_entries(entries@.take(i as int)),
                insert_position(sorted@, x, 0) == insert_position(sorted@, x, p as int),
            decreases sorted@.len() - p,
        {
            p = p + 1;
        }
        sorted.insert(p, x);
        i = i + 1;
    }
    proof { assert(entries@.take(entries@.len() as int) =~= entries@); }
    sorted
}

/// The receipt's criteria: the latest post-phase check of every task — a
/// retried task's superseded attempts are not counted twice — sorted by
/// task and command, with how many passed.
pub fn criteria_summary(events: &Vec<StoredEvent>) -> (summary: CriteriaSummary)
    ensures
        summary.entries@ == criteria_spec(events@),
        summary.total == summary.entries@.len(),
        summary.green == count_green(summary.entries@),
{
    let mut latest: Vec<(String, usize)> = Vec::new();
    let mut i: usize = 0;
    while i < events.len()
        invariant
            i <= events@.len(),
            latest@ == latest_checks(events@, i as int),
        decreases events@.len() - i,
    {
        if let EventBody::Known(EventPayload::CriteriaChecked { task_id, phase: Phase::Post, results }) = &events[i].body {
            let entry = (task_id.clone(), i);
            match latest_position(&latest, task_id) {
                Some(k) => { latest.set(k, entry); },
                None => { latest.push(entry); },
            }
        }
        i = i + 1;
    }
    proof {
        assert forall|j: int| 0 <= j < latest@.len() implies (#[trigger] latest@[j]).1 < events@.len() by {
            law_only_the_latest_check_of_a_task_counts(events@, events@.len() as int, j);
        }
    }
    let mut flat: Vec<CriterionEntry> = Vec::new();
    let mut k: usize = 0;
    while k < latest.len()
        invariant
            k <= latest@.len(),
            latest@ == latest_checks(events@, events@.len() as int),
            forall|j: int| 0 <= j < latest@.len() ==> (#[trigger] latest@[j]).1 < events@.len(),
            flat@ == flatten_latest(events@, latest@.take(k as int)),
        decreases latest@.len() - k,
    {
        let task = &latest[k].0;
        let at = latest[k].1;
        let ghost prefix = latest@.take(k + 1);
        proof {
            assert(prefix.drop_last() =~= latest@.take(k as int));
            assert(prefix.last() == latest@[k as int]);
        }
        if let EventBody::Known(EventPayload::CriteriaChecked { task_id: _, phase: Phase::Post, results }) = &events[at].body {
            let ghost base = flat@;
            let mut r: usize = 0;
            while r < results.len()
                invariant
                    r <= results@.len(),
                    flat@ == base + entries_of(*task, results@).take(r as int),
                decreases results@.len() - r,
            {
                flat.push(CriterionEntry { task_id: task.clone(), cmd: results[r].cmd.clone(), exit_code: results[r].exit_code });
                proof { assert(entries_of(*task, results@).take(r + 1) =~= entries_of(*task, results@).take(r as int).push(flat@.last())); }
                r = r + 1;
            }
            proof { assert(entries_of(*task, results@).take(r as int) =~= entries_of(*task, results@)); }
        } else {
            proof { assert(flat@ =~= flat@ + Seq::<CriterionEntry>::empty()); }
        }
        k = k + 1;
    }
    proof { assert(latest@.take(latest@.len() as int) =~= latest@); }
    let entries = sorted_entries(&flat);
    let mut green: usize = 0;
    let mut j: usize = 0;
    while j < entries.len()
        invariant
            j <= entries@.len(),
            green == count_green(entries@.take(j as int)),
            green <= j,
        decreases entries@.len() - j,
    {
        proof { assert(entries@.take(j + 1).drop_last() =~= entries@.take(j as int)); }
        if entries[j].exit_code == 0 {
            green = green + 1;
        }
        j = j + 1;
    }
    proof { assert(entries@.take(j as int) =~= entries@); }
    CriteriaSummary { total: entries.len(), green, entries }
}

/// How many files the run's work touched, and which paths left its scope.
#[derive(Debug, Clone, PartialEq, Eq)]
pub struct ScopeSummary {
    pub files_touched: usize,
    pub violations: Vec<String>,
}

/// Every path the log's scope checks recorded, in log order: what the work
/// touched (`touched`), or what fell outside its scope.
pub open spec fn scope_paths(events: Seq<StoredEvent>, touched: bool) -> Seq<Seq<char>>
    decreases events.len(),
{
    if events.len() == 0 {
        Seq::empty()
    } else {
        scope_paths(events.drop_last(), touched) + match events.last().body {
            EventBody::Known(EventPayload::ScopeChecked { diff, violations }) => texts(if touched { diff@ } else { violations@ }),
            _ => Seq::empty(),
        }
    }
}

/// Paths in strictly increasing path order: sorted, each once.
pub open spec fn paths_sorted(paths: Seq<Seq<char>>) -> bool {
    forall|i: int, j: int| 0 <= i < j < paths.len() ==> path_lt(#[trigger] paths[i], #[trigger] paths[j])
}

/// Adds `path` to a sorted set of paths, keeping it sorted and each path
/// once.
fn insert_path(set: &mut Vec<String>, path: &String)
    requires
        paths_sorted(texts(old(set)@)),
    ensures
        paths_sorted(texts(final(set)@)),
        texts(final(set)@).to_set() == texts(old(set)@).to_set().insert(path@),
{
    let ghost before = texts(set@);
    let mut p: usize = 0;
    while p < set.len() && path_less(set[p].as_str(), path.as_str())
        invariant
            p <= set@.len(),
            texts(set@) == before,
            forall|t: int| 0 <= t < p ==> path_lt(#[trigger] before[t], path@),
        decreases set@.len() - p,
    {
        p = p + 1;
    }
    if p < set.len() && same_text(&set[p], path) {
        proof {
            assert(before[p as int] == path@);
            assert(before.to_set().insert(path@) =~= before.to_set());
        }
        return;
    }
    proof {
        if p < before.len() {
            lemma_path_lt_order(before[p as int], path@, path@);
        }
    }
    set.insert(p, path.clone());
    proof {
        let after = texts(set@);
        assert(after =~= before.insert(p as int, path@));
        assert forall|i: int, j: int| 0 <= i < j < after.len() implies path_lt(#[trigger] after[i], #[trigger] after[j]) by {
            if j < p {
            } else if j == p {
            } else if i < p {
                lemma_path_lt_order(before[i], path@, before[p as int]);
                if j - 1 > p {
                    lemma_path_lt_order(before[i], before[p as int], before[j - 1]);
                }
            } else if i == p {
                if j - 1 > p {
                    lemma_path_lt_order(path@, before[p as int], before[j - 1]);
                }
            } else {
            }
        }
        assert forall|x: Seq<char>| after.to_set().contains(x) <==> before.to_set().insert(path@).contains(x) by {
            if after.to_set().contains(x) {
                let k = choose|k: int| 0 <= k < after.len() && after[k] == x;
                if k < p {
                    assert(before[k] == x);
                } else if k > p {
                    assert(before[k - 1] == x);
                }
            }
            if before.to_set().contains(x) {
                let k = choose|k: int| 0 <= k < before.len() && before[k] == x;
                if k < p {
                    assert(after[k] == x);
                } else {
                    assert(after[k + 1] == x);
                }
            }
            if x == path@ {
                assert(after[p as int] == x);
            }
        }
        assert(after.to_set() =~= before.to_set().insert(path@));
    }
}

/// The sorted set of the paths every scope check recorded.
fn scope_set(events: &Vec<StoredEvent>, touched: bool) -> (set: Vec<String>)
    ensures
        paths_sorted(texts(set@)),
        texts(set@).to_set() == scope_paths(events@, touched).to_set(),
{
    let mut set: Vec<String> = Vec::new();
    let mut i: usize = 0;
    proof { assert(texts(set@).to_set() =~= scope_paths(events@.take(0), touched).to_set()); }
    while i < events.len()
        invariant
            i <= events@.len(),
            paths_sorted(texts(set@)),
            texts(set@).to_set() == scope_paths(events@.take(i as int), touched).to_set(),
        decreases events@.len() - i,
    {
        let ghost seen = scope_paths(events@.take(i as int), touched);
        proof {
            assert(events@.take(i + 1).drop_last() =~= events@.take(i as int));
            assert(events@.take(i + 1).last() == events@[i as int]);
        }
        if let EventBody::Known(EventPayload::ScopeChecked { diff, violations }) = &events[i].body {
            let paths = if touched { diff } else { violations };
            let mut j: usize = 0;
            while j < paths.len()
                invariant
                    j <= paths@.len(),
                    paths_sorted(texts(set@)),
                    texts(set@).to_set() == (seen + texts(paths@).take(j as int)).to_set(),
                decreases paths@.len() - j,
            {
                insert_path(&mut set, &paths[j]);
                proof {
                    assert(seen + texts(paths@).take(j + 1) =~= (seen + texts(paths@).take(j as int)).push(paths@[j as int]@));
                    (seen + texts(paths@).take(j as int)).lemma_push_to_set_commute(paths@[j as int]@);
                }
                j = j + 1;
            }
            proof { assert(texts(paths@).take(j as int) =~= texts(paths@)); }
        } else {
            proof { assert(seen + Seq::<Seq<char>>::empty() =~= seen); }
        }
        i = i + 1;
    }
    proof { assert(events@.take(i as int) =~= events@); }
    set
}

/// A strictly sorted list of paths holds each path once.
proof fn lemma_sorted_paths_are_distinct(paths: Seq<Seq<char>>)
    requires
        paths_sorted(paths),
    ensures
        paths.no_duplicates(),
        paths.to_set().len() == paths.len(),
{
    assert forall|i: int, j: int| 0 <= i < paths.len() && 0 <= j < paths.len() && i != j implies paths[i] != paths[j] by {
        if i < j {
            lemma_path_lt_order(paths[i], paths[j], paths[j]);
        } else {
            lemma_path_lt_order(paths[j], paths[i], paths[i]);
        }
    }
    paths.unique_seq_to_set();
}

/// The receipt's scope: how many distinct files the work touched, and the
/// distinct paths outside its scope, in path order.
pub fn scope_summary(events: &Vec<StoredEvent>) -> (summary: ScopeSummary)
    ensures
        summary.files_touched == scope_paths(events@, true).to_set().len(),
        paths_sorted(texts(summary.violations@)),
        texts(summary.violations@).to_set() == scope_paths(events@, false).to_set(),
{
    let files = scope_set(events, true);
    let violations = scope_set(events, false);
    proof { lemma_sorted_paths_are_distinct(texts(files@)); }
    ScopeSummary { files_touched: files.len(), violations }
}

/// Which runner ran a node.
#[derive(Debug, Clone, PartialEq, Eq)]
pub struct RunnerUsage {
    pub node_id: String,
    pub runner: String,
    pub adapter: String,
    pub model: String,
}

impl RunnerUsage {
    /// The same usage, owned.
    pub fn duplicate(&self) -> (copy: RunnerUsage)
        ensures
            copy == *self,
    {
        RunnerUsage { node_id: self.node_id.clone(), runner: self.runner.clone(), adapter: self.adapter.clone(), model: self.model.clone() }
    }
}

/// The runner the first `n` events resolved for each node, once per node,
/// in the order the nodes first resolved one: a node resolves again for a
/// repair or after a re-route, and the receipt counts runners, not
/// resolutions.
pub open spec fn runner_usage_spec(events: Seq<StoredEvent>, n: int) -> Seq<RunnerUsage>
    decreases n,
{
    if n <= 0 || n > events.len() {
        Seq::empty()
    } else {
        let before = runner_usage_spec(events, n - 1);
        match (events[n - 1].node_id, events[n - 1].body) {
            (Some(node), EventBody::Known(EventPayload::RunnerResolved { runner, adapter, model })) =>
                if before.map_values(|u: RunnerUsage| u.node_id@).contains(node@) {
                    before
                } else {
                    before.push(RunnerUsage { node_id: node, runner, adapter, model })
                },
            _ => before,
        }
    }
}

/// Which runner ran each node, in the order the nodes first resolved one.
pub fn runner_usage(events: &Vec<StoredEvent>) -> (usage: Vec<RunnerUsage>)
    ensures
        usage@ == runner_usage_spec(events@, events@.len() as int),
{
    let mut usage: Vec<RunnerUsage> = Vec::new();
    let mut i: usize = 0;
    while i < events.len()
        invariant
            i <= events@.len(),
            usage@ == runner_usage_spec(events@, i as int),
        decreases events@.len() - i,
    {
        if let (Some(node), EventBody::Known(EventPayload::RunnerResolved { runner, adapter, model })) = (&events[i].node_id, &events[i].body) {
            let ghost ids = usage@.map_values(|u: RunnerUsage| u.node_id@);
            let mut seen = false;
            let mut k: usize = 0;
            while k < usage.len()
                invariant
                    k <= usage@.len(),
                    ids == usage@.map_values(|u: RunnerUsage| u.node_id@),
                    seen == exists|j: int| 0 <= j < k && (#[trigger] usage@[j]).node_id@ == node@,
                decreases usage@.len() - k,
            {
                if same_text(&usage[k].node_id, node) {
                    seen = true;
                }
                k = k + 1;
            }
            proof {
                if seen {
                    let j = choose|j: int| 0 <= j < k && (#[trigger] usage@[j]).node_id@ == node@;
                    assert(ids[j] == node@);
                } else {
                    assert forall|j: int| 0 <= j < ids.len() implies ids[j] != node@ by {
                        assert(usage@[j].node_id@ == ids[j]);
                    }
                }
            }
            if !seen {
                usage.push(RunnerUsage { node_id: node.clone(), runner: runner.clone(), adapter: adapter.clone(), model: model.clone() });
            }
        }
        i = i + 1;
    }
    usage
}

/// How many of the first `n` events re-routed a failed node.
pub open spec fn reroute_count(events: Seq<StoredEvent>, n: int) -> nat
    decreases n,
{
    if n <= 0 || n > events.len() {
        0
    } else {
        reroute_count(events, n - 1) + if events[n - 1].body matches EventBody::Known(EventPayload::NodeRerouted { .. }) { 1nat } else { 0nat }
    }
}

/// How many times the run re-routed a failed node.
pub fn count_reroutes(events: &Vec<StoredEvent>) -> (count: usize)
    ensures
        count == reroute_count(events@, events@.len() as int),
{
    let mut count: usize = 0;
    let mut i: usize = 0;
    while i < events.len()
        invariant
            i <= events@.len(),
            count == reroute_count(events@, i as int),
            count <= i,
        decreases events@.len() - i,
    {
        if matches!(events[i].body, EventBody::Known(EventPayload::NodeRerouted { .. })) {
            count = count + 1;
        }
        i = i + 1;
    }
    count
}

/// What a workflow's baseline comparisons came to, when it measures one.
#[derive(Debug, Clone, PartialEq, Eq)]
pub struct BaselineSummary {
    pub suite: String,
    pub hash: String,
    /// `baseline_compare` nodes that compared against the capture; the
    /// run's first only captures.
    pub compared: usize,
    pub regressions: usize,
}

/// A workflow's nodes in order, each followed, at every depth, by the
/// nodes a `parallel` node holds.
pub open spec fn flat_nodes(nodes: Seq<Node>) -> Seq<Node>
    decreases nodes, 0int,
{
    if nodes.len() == 0 {
        Seq::empty()
    } else {
        flat_nodes(nodes.drop_last()) + node_group(nodes.last())
    }
}

/// A node, followed by the nodes it holds when it is `parallel`, each in
/// turn followed by the nodes it holds.
pub open spec fn node_group(node: Node) -> Seq<Node>
    decreases node, 1int,
{
    seq![node] + match node.kind {
        NodeKind::Parallel { nodes: children, .. } => flat_nodes(children@),
        _ => Seq::empty(),
    }
}

/// Appends the nodes of `nodes`, at every depth, to `all`.
fn push_flat<'a>(nodes: &'a Vec<Node>, all: &mut Vec<&'a Node>)
    ensures
        final(all)@.map_values(|n: &Node| *n) == old(all)@.map_values(|n: &Node| *n) + flat_nodes(nodes@),
    decreases nodes@, 0int,
{
    let ghost start = all@.map_values(|n: &Node| *n);
    let mut i: usize = 0;
    while i < nodes.len()
        invariant
            i <= nodes@.len(),
            all@.map_values(|n: &Node| *n) == start + flat_nodes(nodes@.take(i as int)),
        decreases nodes@.len() - i,
    {
        proof {
            assert(nodes@.take(i + 1).drop_last() =~= nodes@.take(i as int));
            assert(nodes@.take(i + 1).last() == nodes@[i as int]);
            assert(decreases_to!(nodes@ => nodes@[i as int]));
        }
        let ghost before = all@.map_values(|n: &Node| *n);
        push_group(&nodes[i], all);
        proof {
            assert(all@.map_values(|n: &Node| *n) =~= start + flat_nodes(nodes@.take(i + 1)));
        }
        i = i + 1;
    }
    proof { assert(nodes@.take(i as int) =~= nodes@); }
}

/// Appends `node`, then the nodes it holds at every depth, to `all`.
fn push_group<'a>(node: &'a Node, all: &mut Vec<&'a Node>)
    ensures
        final(all)@.map_values(|n: &Node| *n) == old(all)@.map_values(|n: &Node| *n) + node_group(*node),
    decreases *node, 1int,
{
    let ghost start = all@.map_values(|n: &Node| *n);
    let ghost prev = all@;
    all.push(node);
    proof {
        assert(all@.map_values(|n: &Node| *n) =~= prev.map_values(|n: &Node| *n).push(*node));
    }
    match &node.kind {
        NodeKind::Parallel { nodes: children, .. } => {
            proof {
                assert(decreases_to!(*node => node.kind));
                assert(decreases_to!(node.kind => *children));
                assert(decreases_to!(*children => children@));
            }
            push_flat(children, all);
            proof { assert(all@.map_values(|n: &Node| *n) =~= start + node_group(*node)); }
        },
        _ => {
            proof { assert(all@.map_values(|n: &Node| *n) =~= start + node_group(*node)); }
        },
    }
}

/// A workflow's nodes at every depth, in the order `flat_nodes` lists them.
pub(crate) fn workflow_nodes(nodes: &Vec<Node>) -> (all: Vec<&Node>)
    ensures
        all@.map_values(|n: &Node| *n) == flat_nodes(nodes@),
{
    let mut all: Vec<&Node> = Vec::new();
    proof { assert(all@.map_values(|n: &Node| *n) =~= Seq::<Node>::empty()); }
    push_flat(nodes, &mut all);
    proof { assert(Seq::<Node>::empty() + flat_nodes(nodes@) =~= flat_nodes(nodes@)); }
    all
}

/// The first baseline capture on the log, with the node that took it.
pub open spec fn first_capture(events: Seq<StoredEvent>, from: int) -> Option<(Option<String>, String, String)>
    decreases events.len() - from,
{
    if from < 0 || from >= events.len() {
        None
    } else if let EventBody::Known(EventPayload::BaselineCaptured { command, hash }) = events[from].body {
        Some((events[from].node_id, command, hash))
    } else {
        first_capture(events, from + 1)
    }
}

/// Whether `node` is a `baseline_compare` check that compared, rather than
/// the one that captured.
pub open spec fn compares(node: Node, capturing: Option<String>) -> bool {
    &&& node.kind == NodeKind::Check(CheckBuiltin::BaselineCompare)
    &&& !(capturing matches Some(c) && c@ == node.id@)
}

/// How many comparing nodes finished or failed (`regressions` counts only
/// the failed).
pub open spec fn baseline_tally(nodes: Seq<Node>, capturing: Option<String>, state: Seq<crate::ledger::NodeRecord>, regressions: bool) -> nat
    decreases nodes.len(),
{
    if nodes.len() == 0 {
        0
    } else {
        let node = nodes.last();
        let counted = compares(node, capturing) && match state_in(state, node.id@) {
            Some(NodeState::Finished { .. }) => !regressions,
            Some(NodeState::Failed { .. }) => true,
            _ => false,
        };
        baseline_tally(nodes.drop_last(), capturing, state, regressions) + if counted { 1nat } else { 0nat }
    }
}

fn first_capture_exec(events: &Vec<StoredEvent>) -> (found: Option<(Option<String>, String, String)>)
    ensures
        found == first_capture(events@, 0),
{
    let mut i: usize = 0;
    while i < events.len()
        invariant
            i <= events@.len(),
            first_capture(events@, 0) == first_capture(events@, i as int),
        decreases events@.len() - i,
    {
        if let EventBody::Known(EventPayload::BaselineCaptured { command, hash }) = &events[i].body {
            return Some((crate::ledger::dup_text(&events[i].node_id), command.clone(), hash.clone()));
        }
        i = i + 1;
    }
    None
}

fn node_compares(node: &Node, capturing: &Option<String>) -> (yes: bool)
    ensures
        yes == compares(*node, *capturing),
{
    let is_compare = matches!(node.kind, NodeKind::Check(CheckBuiltin::BaselineCompare));
    let is_capturing = match capturing {
        Some(c) => same_text(c, &node.id),
        None => false,
    };
    is_compare && !is_capturing
}

/// The baseline line of a receipt: `None` when the run never captured a
/// baseline (nothing is invented for what the run never measured);
/// otherwise the suite and hash captured, and how many comparing nodes
/// compared and regressed, read off each node's derived state.
pub fn baseline_summary(nodes: &Vec<Node>, events: &Vec<StoredEvent>) -> (summary: Option<BaselineSummary>)
    ensures
        match first_capture(events@, 0) {
            None => summary is None,
            Some((capturing, command, hash)) => summary matches Some(b) && {
                &&& b.suite == command
                &&& b.hash == hash
                &&& b.compared == baseline_tally(flat_nodes(nodes@), capturing, derive_spec(events@).nodes, false)
                &&& b.regressions == baseline_tally(flat_nodes(nodes@), capturing, derive_spec(events@).nodes, true)
            },
        },
{
    let (capturing, suite, hash) = match first_capture_exec(events) {
        Some(found) => found,
        None => return None,
    };
    let state = crate::replay::derive(events);
    let ghost records = derive_spec(events@).nodes;
    let members = workflow_nodes(nodes);
    let ghost all = flat_nodes(nodes@);
    let mut compared: usize = 0;
    let mut regressions: usize = 0;
    let mut m: usize = 0;
    while m < members.len()
        invariant
            m <= members@.len(),
            members@.map_values(|x: &Node| *x) == all,
            state@ == derive_spec(events@),
            records == derive_spec(events@).nodes,
            compared == baseline_tally(all.take(m as int), capturing, records, false),
            regressions == baseline_tally(all.take(m as int), capturing, records, true),
            regressions <= compared <= m,
        decreases members@.len() - m,
    {
        let member = members[m];
        proof {
            assert(all.take(m + 1).drop_last() =~= all.take(m as int));
            assert(members@.map_values(|x: &Node| *x)[m as int] == *member);
            assert(all.take(m + 1).last() == *member);
            crate::ledger::lemma_find_record_keyed(state.nodes.records@, member.id@, 0);
        }
        if node_compares(member, &capturing) {
            match state.nodes.state(&member.id) {
                Some(NodeState::Finished { .. }) => {
                    compared = compared + 1;
                },
                Some(NodeState::Failed { .. }) => {
                    compared = compared + 1;
                    regressions = regressions + 1;
                },
                _ => {},
            }
        }
        m = m + 1;
    }
    proof { assert(all.take(m as int) =~= all); }
    Some(BaselineSummary { suite, hash, compared, regressions })
}

/// Whether the log's hash chain held, as the caller verified it.
#[derive(Debug, Clone, PartialEq, Eq)]
pub enum EventChainStatus {
    Intact { events: usize },
    Broken { seq: u64, detail: String },
}

/// What the run spent: its closing token total and its re-routes.
#[derive(Debug, Clone, Copy, PartialEq, Eq)]
pub struct CostSummary {
    pub tokens: TokenUsage,
    pub reroutes: usize,
}

/// The certificate of one closed run.
#[derive(Debug, Clone, PartialEq, Eq)]
pub struct Receipt {
    pub run_id: String,
    pub workflow: String,
    pub mode: String,
    pub terminal_state: TerminalState,
    pub criteria: CriteriaSummary,
    pub baseline: Option<BaselineSummary>,
    pub scope: ScopeSummary,
    pub runners: Vec<RunnerUsage>,
    pub cost: CostSummary,
    pub event_chain: EventChainStatus,
    /// Events this binary could not interpret, by kind: a run with any is
    /// certified only for what the binary understood.
    pub unknown_kinds: Vec<UnknownKindCount>,
    /// What the run's documents got wrong, counted by document kind and
    /// problem code.
    pub diagnostics: Vec<DiagnosticCount>,
    /// Which layer caught what: the sessions' own checks before closing.
    pub self_checks: SelfCheckSummary,
}

/// Why a receipt could not be built.
#[derive(Debug, Clone, PartialEq, Eq)]
pub enum ReceiptError {
    /// A receipt certifies closed work: this run has not finished.
    NotFinished { run_id: String },
}

/// The first `run_finished` on the log: how the run ended and what it spent.
pub open spec fn first_finish(events: Seq<StoredEvent>, from: int) -> Option<(TerminalState, TokenUsage)>
    decreases events.len() - from,
{
    if from < 0 || from >= events.len() {
        None
    } else if let EventBody::Known(EventPayload::RunFinished { terminal_state, tokens }) = events[from].body {
        Some((terminal_state, tokens))
    } else {
        first_finish(events, from + 1)
    }
}

fn first_finish_exec(events: &Vec<StoredEvent>) -> (found: Option<(TerminalState, TokenUsage)>)
    ensures
        found == first_finish(events@, 0),
{
    let mut i: usize = 0;
    while i < events.len()
        invariant
            i <= events@.len(),
            first_finish(events@, 0) == first_finish(events@, i as int),
        decreases events@.len() - i,
    {
        if let EventBody::Known(EventPayload::RunFinished { terminal_state, tokens }) = &events[i].body {
            return Some((*terminal_state, *tokens));
        }
        i = i + 1;
    }
    None
}

/// Builds a receipt purely from the workflow, the run's mode, its log and
/// the chain status the caller verified: same log, same receipt, always.
/// A run that has not finished has no receipt yet.
pub fn build_receipt(
    run_id: &String,
    workflow_name: &String,
    nodes: &Vec<Node>,
    mode: &String,
    events: &Vec<StoredEvent>,
    event_chain: EventChainStatus,
) -> (built: Result<Receipt, ReceiptError>)
    ensures
        first_finish(events@, 0) is None <==> built is Err,
        built matches Err(ReceiptError::NotFinished { run_id: r }) ==> r@ == run_id@,
        built matches Ok(receipt) ==> {
            &&& first_finish(events@, 0) == Some((receipt.terminal_state, receipt.cost.tokens))
            &&& receipt.run_id@ == run_id@
            &&& receipt.workflow@ == workflow_name@
            &&& receipt.mode@ == mode@
            &&& receipt.criteria.entries@ == criteria_spec(events@)
            &&& receipt.criteria.total == receipt.criteria.entries@.len()
            &&& receipt.criteria.green == count_green(receipt.criteria.entries@)
            &&& receipt.scope.files_touched == scope_paths(events@, true).to_set().len()
            &&& paths_sorted(texts(receipt.scope.violations@))
            &&& texts(receipt.scope.violations@).to_set() == scope_paths(events@, false).to_set()
            &&& receipt.runners@ == runner_usage_spec(events@, events@.len() as int)
            &&& receipt.cost.reroutes == reroute_count(events@, events@.len() as int)
            &&& receipt.event_chain == event_chain
            &&& counts_exact(receipt.unknown_kinds@, derive_spec(events@).unknown_kinds)
            &&& tally_exact(receipt.diagnostics@, failure_problems(events@))
            &&& receipt.self_checks.checks == check_counts(events@).0
            &&& receipt.self_checks.clean == check_counts(events@).1
            &&& tally_exact(receipt.self_checks.corrected@, corrected_problems(events@))
            &&& texts(receipt.self_checks.nodes_that_never_checked@) == never_checked(nodes@, events@)
            &&& match first_capture(events@, 0) {
                None => receipt.baseline is None,
                Some((capturing, command, hash)) => receipt.baseline matches Some(b) && {
                    &&& b.suite == command
                    &&& b.hash == hash
                    &&& b.compared == baseline_tally(flat_nodes(nodes@), capturing, derive_spec(events@).nodes, false)
                    &&& b.regressions == baseline_tally(flat_nodes(nodes@), capturing, derive_spec(events@).nodes, true)
                },
            }
        },
{
    let (terminal_state, tokens) = match first_finish_exec(events) {
        Some(found) => found,
        None => return Err(ReceiptError::NotFinished { run_id: run_id.clone() }),
    };
    let criteria = criteria_summary(events);
    let baseline = baseline_summary(nodes, events);
    let scope = scope_summary(events);
    let runners = runner_usage(events);
    let state = crate::replay::derive(events);
    let unknown_kinds = unknown_kind_counts(&state);
    let reroutes = count_reroutes(events);
    Ok(Receipt {
        run_id: run_id.clone(),
        workflow: workflow_name.clone(),
        mode: mode.clone(),
        terminal_state,
        criteria,
        baseline,
        scope,
        runners,
        cost: CostSummary { tokens, reroutes },
        event_chain,
        unknown_kinds,
        diagnostics: diagnostic_counts(events),
        self_checks: self_checks(events, nodes),
    })
}

} // verus!
