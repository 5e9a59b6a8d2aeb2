//! What a run's documents got wrong, counted: every problem the log
//! recorded, by the kind of document whose rules were asked and the
//! stable code of the problem, most frequent first and ties broken by
//! name, so the same log always renders the same receipt. And what the
//! sessions' own checks before their close found.

use vstd::prelude::*;
use vstd::string::StringExecFns;

use crate::diagnostic::{kind_label, label};
use crate::events::{DocumentProblem, EventBody, EventPayload, StoredEvent};
use crate::text::{decimal, decimal_spec, lemma_text_lt_order, same_text, text_less, text_lt, texts};
use crate::workflow::{ArtifactKind, ArtifactSpec, Node};

verus! {

/// How many times a run hit one kind of problem in one kind of document.
#[derive(Debug, Clone, PartialEq, Eq)]
pub struct DiagnosticCount {
    /// The document whose rules were asked; none for a problem with the
    /// file itself.
    pub kind: Option<ArtifactKind>,
    pub code: String,
    pub occurrences: usize,
}

/// Where a document kind sorts: no kind first, then the kinds in the
/// order their names (`findings`, `questions`, `task-ledger`) sort.
pub open spec fn kind_rank(kind: Option<ArtifactKind>) -> int {
    match kind {
        None => 0,
        Some(ArtifactKind::Findings) => 1,
        Some(ArtifactKind::Questions) => 2,
        Some(ArtifactKind::TaskLedger) => 3,
    }
}

fn rank(kind: Option<ArtifactKind>) -> (r: u8)
    ensures
        r as int == kind_rank(kind),
{
    match kind {
        None => 0,
        Some(ArtifactKind::Findings) => 1,
        Some(ArtifactKind::Questions) => 2,
        Some(ArtifactKind::TaskLedger) => 3,
    }
}

/// `a` is read before `b`: what happened more often first, then by code,
/// then by document kind.
pub open spec fn count_before(a: DiagnosticCount, b: DiagnosticCount) -> bool {
    ||| a.occurrences > b.occurrences
    ||| a.occurrences == b.occurrences && text_lt(a.code@, b.code@)
    ||| a.occurrences == b.occurrences && a.code@ == b.code@ && kind_rank(a.kind) < kind_rank(b.kind)
}

/// Two counts are of the same problem in the same kind of document.
pub open spec fn same_key(a: DiagnosticCount, b: DiagnosticCount) -> bool {
    a.kind == b.kind && a.code@ == b.code@
}

/// How many of `problems` are `code` in `kind`.
pub open spec fn occurrences_of(problems: Seq<DocumentProblem>, kind: Option<ArtifactKind>, code: Seq<char>) -> nat
    decreases problems.len(),
{
    if problems.len() == 0 {
        0
    } else {
        occurrences_of(problems.drop_last(), kind, code)
            + if problems.last().kind == kind && problems.last().code@ == code { 1nat } else { 0nat }
    }
}

/// `counts` counts `problems` exactly: each problem's kind and code once,
/// with how often it occurs, in reading order.
pub open spec fn tally_exact(counts: Seq<DiagnosticCount>, problems: Seq<DocumentProblem>) -> bool {
    &&& forall|i: int, j: int| 0 <= i < j < counts.len() ==> count_before(#[trigger] counts[i], #[trigger] counts[j])
    &&& forall|i: int| 0 <= i < counts.len() ==> (#[trigger] counts[i]).occurrences == occurrences_of(problems, counts[i].kind, counts[i].code@)
        && counts[i].occurrences > 0
    &&& forall|e: int| 0 <= e < problems.len() ==> exists|i: int| 0 <= i < counts.len()
        && (#[trigger] counts[i]).kind == (#[trigger] problems[e]).kind && counts[i].code@ == problems[e].code@
}

/// Reading order is a strict order, total on counts of different
/// problems.
pub proof fn lemma_count_order(a: DiagnosticCount, b: DiagnosticCount, c: DiagnosticCount)
    ensures
        !count_before(a, a),
        count_before(a, b) ==> !count_before(b, a),
        count_before(a, b) && count_before(b, c) ==> count_before(a, c),
        !same_key(a, b) ==> count_before(a, b) || count_before(b, a),
{
    lemma_text_lt_order(a.code@, b.code@, c.code@);
    lemma_text_lt_order(b.code@, a.code@, c.code@);
    lemma_text_lt_order(a.code@, a.code@, a.code@);
    if !same_key(a, b) && a.code@ == b.code@ {
        assert(a.kind != b.kind);
        assert(kind_rank(a.kind) != kind_rank(b.kind));
    }
}

proof fn lemma_occurrences_bound(problems: Seq<DocumentProblem>, kind: Option<ArtifactKind>, code: Seq<char>)
    ensures
        occurrences_of(problems, kind, code) <= problems.len(),
    decreases problems.len(),
{
    if problems.len() > 0 {
        lemma_occurrences_bound(problems.drop_last(), kind, code);
    }
}

proof fn lemma_occurrences_present(problems: Seq<DocumentProblem>, e: int)
    requires
        0 <= e < problems.len(),
    ensures
        occurrences_of(problems, problems[e].kind, problems[e].code@) > 0,
    decreases problems.len(),
{
    if e < problems.len() - 1 {
        assert(problems.drop_last()[e] == problems[e]);
        lemma_occurrences_present(problems.drop_last(), e);
    }
}

/// Whether `a` is read before `b`.
fn before(a: &DiagnosticCount, b: &DiagnosticCount) -> (earlier: bool)
    ensures
        earlier == count_before(*a, *b),
{
    if a.occurrences != b.occurrences {
        return a.occurrences > b.occurrences;
    }
    if text_less(a.code.as_str(), b.code.as_str()) {
        return true;
    }
    same_text(&a.code, &b.code) && rank(a.kind) < rank(b.kind)
}

/// Whether two kinds are the same.
fn same_kind(a: Option<ArtifactKind>, b: Option<ArtifactKind>) -> (same: bool)
    ensures
        same == (a == b),
{
    rank(a) == rank(b)
}

/// Where `problem`'s kind and code are already counted.
fn find_group(groups: &Vec<DiagnosticCount>, problem: &DocumentProblem) -> (found: Option<usize>)
    ensures
        match found {
            Some(q) => q < groups@.len() && groups@[q as int].kind == problem.kind && groups@[q as int].code@ == problem.code@,
            None => forall|t: int| 0 <= t < groups@.len() ==> !((#[trigger] groups@[t]).kind == problem.kind && groups@[t].code@ == problem.code@),
        },
{
    let mut q: usize = 0;
    while q < groups.len()
        invariant
            q <= groups@.len(),
            forall|t: int| 0 <= t < q ==> !((#[trigger] groups@[t]).kind == problem.kind && groups@[t].code@ == problem.code@),
        decreases groups@.len() - q,
    {
        if same_kind(groups[q].kind, problem.kind) && same_text(&groups[q].code, &problem.code) {
            return Some(q);
        }
        q = q + 1;
    }
    None
}

/// Every problem of `problems` counted once per kind and code, in the
/// order each first occurs.
fn group(problems: &Vec<DocumentProblem>) -> (groups: Vec<DiagnosticCount>)
    ensures
        forall|i: int, j: int| 0 <= i < j < groups@.len() ==> !same_key(#[trigger] groups@[i], #[trigger] groups@[j]),
        forall|i: int| 0 <= i < groups@.len() ==> (#[trigger] groups@[i]).occurrences == occurrences_of(problems@, groups@[i].kind, groups@[i].code@)
            && groups@[i].occurrences > 0,
        forall|e: int| 0 <= e < problems@.len() ==> exists|i: int| 0 <= i < groups@.len()
            && (#[trigger] groups@[i]).kind == (#[trigger] problems@[e]).kind && groups@[i].code@ == problems@[e].code@,
{
    let mut groups: Vec<DiagnosticCount> = Vec::new();
    let mut n: usize = 0;
    while n < problems.len()
        invariant
            n <= problems@.len(),
            forall|i: int, j: int| 0 <= i < j < groups@.len() ==> !same_key(#[trigger] groups@[i], #[trigger] groups@[j]),
            forall|i: int| 0 <= i < groups@.len() ==> (#[trigger] groups@[i]).occurrences == occurrences_of(problems@.take(n as int), groups@[i].kind, groups@[i].code@)
                && groups@[i].occurrences > 0,
            forall|e: int| 0 <= e < n ==> exists|i: int| 0 <= i < groups@.len()
                && (#[trigger] groups@[i]).kind == (#[trigger] problems@[e]).kind && groups@[i].code@ == problems@[e].code@,
        decreases problems@.len() - n,
    {
        let problem = &problems[n];
        let ghost before_groups = groups@;
        let ghost seen = problems@.take(n as int);
        let ghost now = problems@.take(n + 1);
        proof {
            assert(now.drop_last() =~= seen);
            assert(now.last() == problems@[n as int]);
            lemma_occurrences_bound(seen, problem.kind, problem.code@);
        }
        let position = find_group(&groups, problem);
        let found = position.is_some();
        let q: usize = match position {
            Some(q) => q,
            None => 0,
        };
        if found {
            assert(q < groups@.len());
            let bumped = DiagnosticCount { kind: groups[q].kind, code: groups[q].code.clone(), occurrences: groups[q].occurrences + 1 };
            groups.set(q, bumped);
            proof {
                assert forall|i: int| 0 <= i < groups@.len() implies (#[trigger] groups@[i]).occurrences == occurrences_of(now, groups@[i].kind, groups@[i].code@)
                    && groups@[i].occurrences > 0 by {
                    if i != q {
                        assert(groups@[i] == before_groups[i]);
                        if i < q {
                            assert(!same_key(before_groups[i], before_groups[q as int]));
                        } else {
                            assert(!same_key(before_groups[q as int], before_groups[i]));
                        }
                    }
                }
                assert forall|i: int, j: int| 0 <= i < j < groups@.len() implies !same_key(#[trigger] groups@[i], #[trigger] groups@[j]) by {
                    assert(!same_key(before_groups[i], before_groups[j]));
                }
                assert forall|e: int| 0 <= e < n + 1 implies exists|i: int| 0 <= i < groups@.len()
                    && (#[trigger] groups@[i]).kind == (#[trigger] problems@[e]).kind && groups@[i].code@ == problems@[e].code@ by {
                    if e < n {
                        let i = choose|i: int| 0 <= i < before_groups.len()
                            && (#[trigger] before_groups[i]).kind == (#[trigger] problems@[e]).kind && before_groups[i].code@ == problems@[e].code@;
                        assert(groups@[i].kind == before_groups[i].kind && groups@[i].code@ == before_groups[i].code@);
                    } else {
                        assert(groups@[q as int].kind == problems@[e].kind && groups@[q as int].code@ == problems@[e].code@);
                    }
                }
            }
        } else {
            let item = DiagnosticCount { kind: problem.kind, code: problem.code.clone(), occurrences: 1 };
            proof {
                if occurrences_of(seen, problem.kind, problem.code@) > 0 {
                    lemma_occurrences_witness(seen, problem.kind, problem.code@);
                    let e = choose|e: int| 0 <= e < seen.len() && (#[trigger] seen[e]).kind == problem.kind && seen[e].code@ == problem.code@;
                    assert(seen[e] == problems@[e]);
                    let i = choose|i: int| 0 <= i < before_groups.len()
                        && (#[trigger] before_groups[i]).kind == (#[trigger] problems@[e]).kind && before_groups[i].code@ == problems@[e].code@;
                }
            }
            groups.push(item);
            proof {
                assert forall|i: int| 0 <= i < groups@.len() implies (#[trigger] groups@[i]).occurrences == occurrences_of(now, groups@[i].kind, groups@[i].code@)
                    && groups@[i].occurrences > 0 by {
                    if i < before_groups.len() {
                        assert(groups@[i] == before_groups[i]);
                    }
                }
                assert forall|i: int, j: int| 0 <= i < j < groups@.len() implies !same_key(#[trigger] groups@[i], #[trigger] groups@[j]) by {
                    if j < before_groups.len() {
                        assert(!same_key(before_groups[i], before_groups[j]));
                    }
                }
                assert forall|e: int| 0 <= e < n + 1 implies exists|i: int| 0 <= i < groups@.len()
                    && (#[trigger] groups@[i]).kind == (#[trigger] problems@[e]).kind && groups@[i].code@ == problems@[e].code@ by {
                    if e < n {
                        let i = choose|i: int| 0 <= i < before_groups.len()
                            && (#[trigger] before_groups[i]).kind == (#[trigger] problems@[e]).kind && before_groups[i].code@ == problems@[e].code@;
                        assert(groups@[i] == before_groups[i]);
                    } else {
                        assert(groups@[before_groups.len() as int] == item);
                    }
                }
            }
        }
        n = n + 1;
    }
    proof {
        assert(problems@.take(problems@.len() as int) =~= problems@);
    }
    groups
}

proof fn lemma_occurrences_witness(problems: Seq<DocumentProblem>, kind: Option<ArtifactKind>, code: Seq<char>)
    requires
        occurrences_of(problems, kind, code) > 0,
    ensures
        exists|e: int| 0 <= e < problems.len() && (#[trigger] problems[e]).kind == kind && problems[e].code@ == code,
    decreases problems.len(),
{
    if problems.last().kind == kind && problems.last().code@ == code {
        assert(problems[problems.len() - 1].kind == kind);
    } else {
        lemma_occurrences_witness(problems.drop_last(), kind, code);
        let e = choose|e: int| 0 <= e < problems.drop_last().len() && (#[trigger] problems.drop_last()[e]).kind == kind
            && problems.drop_last()[e].code@ == code;
        assert(problems[e] == problems.drop_last()[e]);
    }
}

/// Inserting an item where it reads keeps a list in reading order.
proof fn lemma_insert_sorted(sorted: Seq<DiagnosticCount>, q: int, item: DiagnosticCount)
    requires
        0 <= q <= sorted.len(),
        forall|i: int, j: int| 0 <= i < j < sorted.len() ==> count_before(#[trigger] sorted[i], #[trigger] sorted[j]),
        forall|t: int| 0 <= t < q ==> count_before(#[trigger] sorted[t], item),
        q < sorted.len() ==> count_before(item, sorted[q]),
    ensures
        forall|i: int, j: int| 0 <= i < j < sorted.insert(q, item).len() ==> count_before(#[trigger] sorted.insert(q, item)[i], #[trigger] sorted.insert(q, item)[j]),
{
    let after = sorted.insert(q, item);
    assert forall|i: int, j: int| 0 <= i < j < after.len() implies count_before(#[trigger] after[i], #[trigger] after[j]) by {
        if j < q {
            assert(after[i] == sorted[i] && after[j] == sorted[j]);
        } else if j == q {
            assert(after[i] == sorted[i] && after[j] == item);
        } else if i < q {
            assert(after[i] == sorted[i] && after[j] == sorted[j - 1]);
            if j - 1 > q {
                assert(count_before(sorted[q], sorted[j - 1]));
                lemma_count_order(item, sorted[q], sorted[j - 1]);
            }
            lemma_count_order(sorted[i], item, sorted[j - 1]);
        } else if i == q {
            assert(after[i] == item && after[j] == sorted[j - 1]);
            if j - 1 > q {
                assert(count_before(sorted[q], sorted[j - 1]));
                lemma_count_order(item, sorted[q], sorted[j - 1]);
            }
        } else {
            assert(after[i] == sorted[i - 1] && after[j] == sorted[j - 1]);
        }
    }
}

/// Every problem counted by document kind and code, most frequent first,
/// then by code, then by kind.
pub fn sorted_counts(problems: &Vec<DocumentProblem>) -> (counts: Vec<DiagnosticCount>)
    ensures
        tally_exact(counts@, problems@),
{
    let groups = group(problems);
    let mut counts: Vec<DiagnosticCount> = Vec::new();
    let mut g: usize = 0;
    while g < groups.len()
        invariant
            g <= groups@.len(),
            forall|i: int, j: int| 0 <= i < j < groups@.len() ==> !same_key(#[trigger] groups@[i], #[trigger] groups@[j]),
            forall|i: int| 0 <= i < groups@.len() ==> (#[trigger] groups@[i]).occurrences == occurrences_of(problems@, groups@[i].kind, groups@[i].code@)
                && groups@[i].occurrences > 0,
            forall|i: int, j: int| 0 <= i < j < counts@.len() ==> count_before(#[trigger] counts@[i], #[trigger] counts@[j]),
            forall|i: int| 0 <= i < counts@.len() ==> (#[trigger] counts@[i]).occurrences == occurrences_of(problems@, counts@[i].kind, counts@[i].code@)
                && counts@[i].occurrences > 0,
            forall|i: int, k: int| 0 <= i < counts@.len() && g <= k < groups@.len() ==> !same_key(#[trigger] counts@[i], #[trigger] groups@[k]),
            forall|k: int| 0 <= k < g ==> exists|i: int| 0 <= i < counts@.len() && same_key(#[trigger] counts@[i], #[trigger] groups@[k]),
        decreases groups@.len() - g,
    {
        let item = DiagnosticCount { kind: groups[g].kind, code: groups[g].code.clone(), occurrences: groups[g].occurrences };
        let ghost sorted = counts@;
        proof {
            assert(item == groups@[g as int]);
            assert forall|i: int| 0 <= i < sorted.len() implies !same_key(#[trigger] sorted[i], item) by {
                assert(!same_key(sorted[i], groups@[g as int]));
            }
        }
        let q = insert_in_order(&mut counts, item);
        proof {
            assert(counts@ == sorted.insert(q as int, item));
            assert forall|i: int| 0 <= i < counts@.len() implies (#[trigger] counts@[i]).occurrences == occurrences_of(problems@, counts@[i].kind, counts@[i].code@)
                && counts@[i].occurrences > 0 by {
                if i < q {
                    assert(counts@[i] == sorted[i]);
                } else if i > q {
                    assert(counts@[i] == sorted[i - 1]);
                }
            }
            assert forall|i: int, k: int| 0 <= i < counts@.len() && g + 1 <= k < groups@.len() implies !same_key(#[trigger] counts@[i], #[trigger] groups@[k]) by {
                if i < q {
                    assert(counts@[i] == sorted[i]);
                } else if i > q {
                    assert(counts@[i] == sorted[i - 1]);
                } else {
                    assert(!same_key(groups@[g as int], groups@[k]));
                }
            }
            assert forall|k: int| 0 <= k < g + 1 implies exists|i: int| 0 <= i < counts@.len() && same_key(#[trigger] counts@[i], #[trigger] groups@[k]) by {
                if k < g {
                    let i = choose|i: int| 0 <= i < sorted.len() && same_key(#[trigger] sorted[i], #[trigger] groups@[k]);
                    if i < q {
                        assert(counts@[i] == sorted[i]);
                    } else {
                        assert(counts@[i + 1] == sorted[i]);
                    }
                } else {
                    assert(same_key(counts@[q as int], groups@[k]));
                }
            }
        }
        g = g + 1;
    }
    proof {
        assert forall|e: int| 0 <= e < problems@.len() implies exists|i: int| 0 <= i < counts@.len()
            && (#[trigger] counts@[i]).kind == (#[trigger] problems@[e]).kind && counts@[i].code@ == problems@[e].code@ by {
            let k = choose|k: int| 0 <= k < groups@.len()
                && (#[trigger] groups@[k]).kind == (#[trigger] problems@[e]).kind && groups@[k].code@ == problems@[e].code@;
            let i = choose|i: int| 0 <= i < counts@.len() && same_key(#[trigger] counts@[i], #[trigger] groups@[k]);
        }
    }
    counts
}

/// Inserts `item` where it reads among counts of other problems, already
/// in reading order; returns where.
fn insert_in_order(counts: &mut Vec<DiagnosticCount>, item: DiagnosticCount) -> (q: usize)
    requires
        forall|i: int, j: int| 0 <= i < j < old(counts)@.len() ==> count_before(#[trigger] old(counts)@[i], #[trigger] old(counts)@[j]),
        forall|i: int| 0 <= i < old(counts)@.len() ==> !same_key(#[trigger] old(counts)@[i], item),
    ensures
        q <= old(counts)@.len(),
        final(counts)@ == old(counts)@.insert(q as int, item),
        forall|i: int, j: int| 0 <= i < j < final(counts)@.len() ==> count_before(#[trigger] final(counts)@[i], #[trigger] final(counts)@[j]),
{
    let ghost sorted = counts@;
    let mut q: usize = 0;
    while q < counts.len() && before(&counts[q], &item)
        invariant
            q <= counts@.len(),
            counts@ == sorted,
            forall|t: int| 0 <= t < q ==> count_before(#[trigger] counts@[t], item),
        decreases counts@.len() - q,
    {
        q = q + 1;
    }
    proof {
        if q < sorted.len() {
            assert(!same_key(sorted[q as int], item));
            lemma_count_order(sorted[q as int], item, item);
        }
        lemma_insert_sorted(sorted, q as int, item);
    }
    counts.insert(q, item);
    q
}

/// How a count names itself: its code, the document it was asked of when
/// there is one, and how often.
pub open spec fn count_text(count: DiagnosticCount) -> Seq<char> {
    match count.kind {
        Some(kind) => "`"@ + count.code@ + "` in the "@ + kind_label(kind) + " \u{d7}"@ + decimal_spec(count.occurrences as nat),
        None => "`"@ + count.code@ + "` \u{d7}"@ + decimal_spec(count.occurrences as nat),
    }
}

impl DiagnosticCount {
    /// How the count names itself wherever it is read.
    pub fn describe(&self) -> (text: String)
        ensures
            text@ == count_text(*self),
    {
        let mut text = String::from_str("`");
        text.append(self.code.as_str());
        match self.kind {
            Some(kind) => {
                text.append("` in the ");
                text.append(label(kind));
                text.append(" \u{d7}");
            },
            None => {
                text.append("` \u{d7}");
            },
        }
        let n = decimal(self.occurrences as u64);
        text.append(n.as_str());
        text
    }
}

/// Every document problem the log's node failures recorded, in log order.
pub open spec fn failure_problems(events: Seq<StoredEvent>) -> Seq<DocumentProblem>
    decreases events.len(),
{
    if events.len() == 0 {
        Seq::empty()
    } else {
        failure_problems(events.drop_last()) + match events.last().body {
            EventBody::Known(EventPayload::NodeFailed { problems, .. }) => problems@,
            _ => Seq::empty(),
        }
    }
}

/// Appends `more` to `all`.
fn extend_problems(all: &mut Vec<DocumentProblem>, more: &Vec<DocumentProblem>)
    ensures
        final(all)@ == old(all)@ + more@,
{
    let ghost start = all@;
    let mut i: usize = 0;
    while i < more.len()
        invariant
            i <= more@.len(),
            all@ == start + more@.take(i as int),
        decreases more@.len() - i,
    {
        let p = DocumentProblem { kind: more[i].kind, code: more[i].code.clone() };
        all.push(p);
        proof {
            assert(more@.take(i + 1) =~= more@.take(i as int).push(more@[i as int]));
        }
        i = i + 1;
    }
    proof {
        assert(more@.take(more@.len() as int) =~= more@);
    }
}

/// What the run's documents got wrong, counted.
pub fn diagnostic_counts(events: &Vec<StoredEvent>) -> (counts: Vec<DiagnosticCount>)
    ensures
        tally_exact(counts@, failure_problems(events@)),
{
    let mut all: Vec<DocumentProblem> = Vec::new();
    let mut i: usize = 0;
    while i < events.len()
        invariant
            i <= events@.len(),
            all@ == failure_problems(events@.take(i as int)),
        decreases events@.len() - i,
    {
        proof {
            assert(events@.take(i + 1).drop_last() =~= events@.take(i as int));
        }
        match &events[i].body {
            EventBody::Known(EventPayload::NodeFailed { problems, .. }) => {
                extend_problems(&mut all, problems);
            },
            _ => {
                proof {
                    assert(all@ =~= all@ + Seq::<DocumentProblem>::empty());
                }
            },
        }
        i = i + 1;
    }
    proof {
        assert(events@.take(events@.len() as int) =~= events@);
    }
    sorted_counts(&all)
}

/// What the run's sessions asked of their documents' checks before
/// closing, and what the checks answered.
#[derive(Debug, Clone, PartialEq, Eq)]
pub struct SelfCheckSummary {
    /// Checks the sessions ran.
    pub checks: usize,
    /// Of those, how many answered clean.
    pub clean: usize,
    /// Nodes that declared an interpreted artifact and never checked one:
    /// a failure from one of these is one nothing tried to prevent.
    pub nodes_that_never_checked: Vec<String>,
    /// What the sessions corrected in place, counted.
    pub corrected: Vec<DiagnosticCount>,
}

/// How many of the events are checks, and how many of those were clean.
pub open spec fn check_counts(events: Seq<StoredEvent>) -> (nat, nat)
    decreases events.len(),
{
    if events.len() == 0 {
        (0, 0)
    } else {
        let (checks, clean) = check_counts(events.drop_last());
        match events.last().body {
            EventBody::Known(EventPayload::ArtifactChecked { problems, .. }) => (checks + 1, clean + if problems is None { 1nat } else { 0nat }),
            _ => (checks, clean),
        }
    }
}

/// Every problem the checks found (and the sessions then corrected), each
/// with the kind of document it was found in, in log order.
pub open spec fn corrected_problems(events: Seq<StoredEvent>) -> Seq<DocumentProblem>
    decreases events.len(),
{
    if events.len() == 0 {
        Seq::empty()
    } else {
        corrected_problems(events.drop_last()) + match events.last().body {
            EventBody::Known(EventPayload::ArtifactChecked { kind, problems: Some(codes) }) =>
                codes@.map_values(|code: String| DocumentProblem { kind, code }),
            _ => Seq::empty(),
        }
    }
}

/// Whether `event` is a check the node `id` ran.
pub open spec fn is_check_by(event: StoredEvent, id: Seq<char>) -> bool {
    &&& event.body is Known
    &&& event.body->Known_0 is ArtifactChecked
    &&& event.node_id matches Some(n) && n@ == id
}

/// Whether the node `id` ran a check.
pub open spec fn checked_by(events: Seq<StoredEvent>, id: Seq<char>) -> bool {
    exists|i: int| 0 <= i < events.len() && is_check_by(#[trigger] events[i], id)
}

/// Whether a node declares an artifact the run interprets.
pub open spec fn declares_interpreted(node: Node) -> bool {
    exists|k: int| 0 <= k < node.artifacts@.len() && #[trigger] node.artifacts@[k] is Typed
}

/// The workflow's nodes that declare an interpreted artifact and never
/// checked one, in workflow order.
pub open spec fn never_checked(nodes: Seq<Node>, events: Seq<StoredEvent>) -> Seq<Seq<char>>
    decreases nodes.len(),
{
    if nodes.len() == 0 {
        Seq::empty()
    } else {
        never_checked(nodes.drop_last(), events) + if declares_interpreted(nodes.last()) && !checked_by(events, nodes.last().id@) {
            seq![nodes.last().id@]
        } else {
            Seq::empty()
        }
    }
}

fn declares_interpreted_exec(node: &Node) -> (declares: bool)
    ensures
        declares == declares_interpreted(*node),
{
    let mut k: usize = 0;
    while k < node.artifacts.len()
        invariant
            k <= node.artifacts@.len(),
            forall|t: int| 0 <= t < k ==> !(#[trigger] node.artifacts@[t] is Typed),
        decreases node.artifacts@.len() - k,
    {
        if let ArtifactSpec::Typed { .. } = &node.artifacts[k] {
            return true;
        }
        k = k + 1;
    }
    false
}

fn checked_by_exec(events: &Vec<StoredEvent>, id: &String) -> (checked: bool)
    ensures
        checked == checked_by(events@, id@),
{
    let mut i: usize = 0;
    while i < events.len()
        invariant
            i <= events@.len(),
            forall|t: int| 0 <= t < i ==> !is_check_by(#[trigger] events@[t], id@),
        decreases events@.len() - i,
    {
        if let EventBody::Known(EventPayload::ArtifactChecked { .. }) = &events[i].body {
            if let Some(n) = &events[i].node_id {
                if same_text(n, id) {
                    proof {
                        assert(is_check_by(events@[i as int], id@));
                    }
                    return true;
                }
            }
        }
        i = i + 1;
    }
    false
}

/// Which layer caught what: every check a session ran, how many were
/// clean, what they corrected, and every node that could have run one
/// and did not.
pub fn self_checks(events: &Vec<StoredEvent>, nodes: &Vec<Node>) -> (summary: SelfCheckSummary)
    ensures
        summary.checks == check_counts(events@).0,
        summary.clean == check_counts(events@).1,
        tally_exact(summary.corrected@, corrected_problems(events@)),
        texts(summary.nodes_that_never_checked@) == never_checked(nodes@, events@),
{
    let mut checks: usize = 0;
    let mut clean: usize = 0;
    let mut corrected: Vec<DocumentProblem> = Vec::new();
    let mut i: usize = 0;
    while i < events.len()
        invariant
            i <= events@.len(),
            checks == check_counts(events@.take(i as int)).0,
            clean == check_counts(events@.take(i as int)).1,
            clean <= checks <= i,
            corrected@ == corrected_problems(events@.take(i as int)),
        decreases events@.len() - i,
    {
        proof {
            assert(events@.take(i + 1).drop_last() =~= events@.take(i as int));
        }
        match &events[i].body {
            EventBody::Known(EventPayload::ArtifactChecked { kind, problems }) => {
                checks = checks + 1;
                match problems {
                    None => {
                        clean = clean + 1;
                        proof {
                            assert(corrected@ =~= corrected@ + Seq::<DocumentProblem>::empty());
                        }
                    },
                    Some(codes) => {
                        let ghost start = corrected@;
                        let mut k: usize = 0;
                        while k < codes.len()
                            invariant
                                k <= codes@.len(),
                                corrected@ == start + codes@.take(k as int).map_values(|code: String| DocumentProblem { kind: *kind, code }),
                            decreases codes@.len() - k,
                        {
                            corrected.push(DocumentProblem { kind: *kind, code: codes[k].clone() });
                            proof {
                                assert(codes@.take(k + 1).map_values(|code: String| DocumentProblem { kind: *kind, code })
                                    =~= codes@.take(k as int).map_values(|code: String| DocumentProblem { kind: *kind, code })
                                        .push(DocumentProblem { kind: *kind, code: codes@[k as int] }));
                            }
                            k = k + 1;
                        }
                        proof {
                            assert(codes@.take(codes@.len() as int) =~= codes@);
                        }
                    },
                }
            },
            _ => {
                proof {
                    assert(corrected@ =~= corrected@ + Seq::<DocumentProblem>::empty());
                }
            },
        }
        i = i + 1;
    }
    proof {
        assert(events@.take(events@.len() as int) =~= events@);
    }
    let mut never: Vec<String> = Vec::new();
    let mut j: usize = 0;
    while j < nodes.len()
        invariant
            j <= nodes@.len(),
            texts(never@) == never_checked(nodes@.take(j as int), events@),
        decreases nodes@.len() - j,
    {
        proof {
            assert(nodes@.take(j + 1).drop_last() =~= nodes@.take(j as int));
        }
        let ghost prev = never@;
        if declares_interpreted_exec(&nodes[j]) && !checked_by_exec(events, &nodes[j].id) {
            never.push(nodes[j].id.clone());
            proof {
                assert(texts(never@) =~= texts(prev).push(nodes@[j as int].id@));
            }
        }
        j = j + 1;
    }
    proof {
        assert(nodes@.take(nodes@.len() as int) =~= nodes@);
    }
    SelfCheckSummary { checks, clean, nodes_that_never_checked: never, corrected: sorted_counts(&corrected) }
}

} // verus!
