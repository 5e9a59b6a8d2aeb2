//! The receipt's rendering a person reads: the PR-facing markdown. Every
//! number is already on the receipt; this module chooses wording and
//! order, never derives a fact.

use vstd::prelude::*;
use vstd::string::{StrSliceExecFns, StringExecFns};

use crate::events::TerminalState;
use crate::ledger::{find_keyed, lemma_find_keyed};
use crate::receipt::{BaselineSummary, CriterionEntry, EventChainStatus, Receipt, RunnerUsage};
use crate::replay::UnknownKindCount;
use crate::tally::{count_text, DiagnosticCount, SelfCheckSummary};
use crate::text::{decimal, decimal_spec, same_text, signed_decimal, signed_decimal_spec, texts};
use crate::ledger::saturating;

verus! {

/// `items` joined with `sep` between each two.
pub open spec fn join_spec(items: Seq<Seq<char>>, sep: Seq<char>) -> Seq<char>
    decreases items.len(),
{
    if items.len() == 0 {
        Seq::empty()
    } else if items.len() == 1 {
        items[0]
    } else {
        join_spec(items.drop_last(), sep) + sep + items.last()
    }
}

/// `items` joined with `sep` between each two.
pub fn join(items: &Vec<String>, sep: &str) -> (joined: String)
    ensures
        joined@ == join_spec(texts(items@), sep@),
{
    let mut joined = String::new();
    let mut i: usize = 0;
    while i < items.len()
        invariant
            i <= items@.len(),
            joined@ == join_spec(texts(items@.take(i as int)), sep@),
        decreases items@.len() - i,
    {
        proof {
            assert(texts(items@.take(i + 1)).drop_last() =~= texts(items@.take(i as int)));
            assert(texts(items@.take(i + 1)).last() == items@[i as int]@);
            if i == 0 {
                assert(texts(items@.take(1))[0] == items@[0]@);
            }
        }
        if i > 0 {
            joined.append(sep);
        }
        joined.append(items[i].as_str());
        proof {
            if i == 0 {
                assert(joined@ =~= texts(items@.take(1))[0]);
            }
        }
        i = i + 1;
    }
    proof { assert(items@.take(i as int) =~= items@); }
    joined
}

/// The mark a receipt line opens with.
pub open spec fn mark_spec(ok: bool) -> Seq<char> {
    if ok { "✓"@ } else { "✗"@ }
}

/// The mark a receipt line opens with: a tick when the line is good news.
pub fn mark(ok: bool) -> (text: &'static str)
    ensures
        text@ == mark_spec(ok),
{
    if ok { "✓" } else { "✗" }
}

/// The position of the first `@` in `id` at or after `from`, or its length.
pub open spec fn first_at(id: Seq<char>, from: int) -> int
    decreases id.len() - from,
{
    if from < 0 || from >= id.len() {
        id.len() as int
    } else if id[from] == '@' {
        from
    } else {
        first_at(id, from + 1)
    }
}

/// A fan-out sibling's id is `<base>@<runner>`.
pub open spec fn is_fan_out(id: Seq<char>) -> bool {
    first_at(id, 0) < id.len()
}

/// The id the fan-out siblings share.
pub open spec fn fan_out_base(id: Seq<char>) -> Seq<char> {
    id.take(first_at(id, 0))
}

proof fn lemma_first_at(id: Seq<char>, from: int)
    requires
        0 <= from <= id.len(),
    ensures
        from <= first_at(id, from) <= id.len(),
    decreases id.len() - from,
{
    if from < id.len() && id[from] != '@' {
        lemma_first_at(id, from + 1);
    }
}

/// Groups are keyed by their base.
pub open spec fn group_key() -> spec_fn((Seq<char>, Seq<RunnerUsage>)) -> Seq<char> {
    |group: (Seq<char>, Seq<RunnerUsage>)| group.0
}

/// Fan-out siblings grouped by base, in order of first appearance.
pub open spec fn groups_of(runners: Seq<RunnerUsage>) -> Seq<(Seq<char>, Seq<RunnerUsage>)>
    decreases runners.len(),
{
    if runners.len() == 0 {
        Seq::empty()
    } else {
        let groups = groups_of(runners.drop_last());
        let usage = runners.last();
        if !is_fan_out(usage.node_id@) {
            groups
        } else {
            let base = fan_out_base(usage.node_id@);
            match find_keyed(groups, group_key(), base, 0) {
                Some(i) => groups.update(i, (base, groups[i].1.push(usage))),
                None => groups.push((base, seq![usage])),
            }
        }
    }
}

/// The groups with more than one member: a node reviewed by several
/// independent runners.
pub open spec fn fan_out_spec(runners: Seq<RunnerUsage>) -> Seq<(Seq<char>, Seq<RunnerUsage>)> {
    groups_of(runners).filter(reviewed_by_several())
}

/// A group with more than one member.
pub open spec fn reviewed_by_several() -> spec_fn((Seq<char>, Seq<RunnerUsage>)) -> bool {
    |group: (Seq<char>, Seq<RunnerUsage>)| group.1.len() > 1
}

/// A group as plain values.
pub open spec fn group_view(group: (String, Vec<RunnerUsage>)) -> (Seq<char>, Seq<RunnerUsage>) {
    (group.0@, group.1@)
}

/// Where `id`'s first `@` is, or its length.
fn at_position(id: &String) -> (at: usize)
    ensures
        at == first_at(id@, 0),
{
    let len = id.as_str().unicode_len();
    let mut i: usize = 0;
    while i < len
        invariant
            len == id@.len(),
            i <= len,
            first_at(id@, 0) == first_at(id@, i as int),
        decreases len - i,
    {
        if id.as_str().get_char(i) == '@' {
            return i;
        }
        i = i + 1;
    }
    i
}

fn group_position(groups: &Vec<(String, Vec<RunnerUsage>)>, base: &String) -> (found: Option<usize>)
    ensures
        found matches Some(i) ==> i < groups@.len() && find_keyed(groups@.map_values(|g| group_view(g)), group_key(), base@, 0) == Some(i as int),
        found is None ==> find_keyed(groups@.map_values(|g| group_view(g)), group_key(), base@, 0) is None,
{
    let ghost view = groups@.map_values(|g| group_view(g));
    let mut i: usize = 0;
    while i < groups.len()
        invariant
            i <= groups@.len(),
            view == groups@.map_values(|g| group_view(g)),
            find_keyed(view, group_key(), base@, 0) == find_keyed(view, group_key(), base@, i as int),
        decreases groups@.len() - i,
    {
        proof { assert(view[i as int].0 == groups@[i as int].0@); }
        if same_text(&groups[i].0, base) {
            return Some(i);
        }
        i = i + 1;
    }
    None
}

/// Fan-out siblings share their base id (`<base>@<runner>`): the nodes
/// reviewed by more than one independent runner, each with its members in
/// the order they resolved.
pub fn fan_out_groups(runners: &Vec<RunnerUsage>) -> (groups: Vec<(String, Vec<RunnerUsage>)>)
    ensures
        groups@.map_values(|g| group_view(g)) == fan_out_spec(runners@),
{
    let mut all: Vec<(String, Vec<RunnerUsage>)> = Vec::new();
    let mut i: usize = 0;
    while i < runners.len()
        invariant
            i <= runners@.len(),
            all@.map_values(|g| group_view(g)) == groups_of(runners@.take(i as int)),
        decreases runners@.len() - i,
    {
        let usage = &runners[i];
        let ghost before = all@.map_values(|g| group_view(g));
        proof {
            assert(runners@.take(i + 1).drop_last() =~= runners@.take(i as int));
            assert(runners@.take(i + 1).last() == runners@[i as int]);
        }
        let at = at_position(&usage.node_id);
        let len = usage.node_id.as_str().unicode_len();
        if at < len {
            proof { lemma_first_at(usage.node_id@, 0); }
            let base = usage.node_id.as_str().substring_char(0, at).to_string();
            proof { assert(base@ =~= fan_out_base(usage.node_id@)); }
            match group_position(&all, &base) {
                Some(k) => {
                    proof { lemma_find_keyed(before, group_key(), base@, 0); }
                    let ghost old_all = all@;
                    let (name, mut members) = all.remove(k);
                    proof { assert(name@ == base@); assert(members@ == before[k as int].1); }
                    members.push(usage.duplicate());
                    all.insert(k, (name, members));
                    proof {
                        assert(all@ =~= old_all.update(k as int, all@[k as int]));
                        assert(all@.map_values(|g| group_view(g)) =~= before.update(k as int, (base@, before[k as int].1.push(*usage))));
                    }
                },
                None => {
                    let mut members: Vec<RunnerUsage> = Vec::new();
                    members.push(usage.duplicate());
                    all.push((base, members));
                    proof {
                        assert(all@.map_values(|g| group_view(g)) =~= before.push((base@, seq![*usage])));
                    }
                },
            }
        }
        i = i + 1;
    }
    proof { assert(runners@.take(i as int) =~= runners@); }
    let ghost all_view = all@.map_values(|g| group_view(g));
    let mut groups: Vec<(String, Vec<RunnerUsage>)> = Vec::new();
    let mut k: usize = 0;
    proof { crate::text::lemma_filter_empty(reviewed_by_several()); assert(all_view.subrange(0, 0) =~= Seq::<(Seq<char>, Seq<RunnerUsage>)>::empty()); }
    while k < all.len()
        invariant
            k <= all@.len(),
            all_view == all@.map_values(|g| group_view(g)),
            all_view == groups_of(runners@),
            groups@.map_values(|g| group_view(g)) == all_view.subrange(0, k as int).filter(reviewed_by_several()),
        decreases all@.len() - k,
    {
        proof {
            crate::text::lemma_filter_step(all_view, reviewed_by_several(), k as int);
            assert(all_view[k as int] == group_view(all@[k as int]));
        }
        if all[k].1.len() > 1 {
            let name = all[k].0.clone();
            let mut members: Vec<RunnerUsage> = Vec::new();
            let mut m: usize = 0;
            while m < all[k].1.len()
                invariant
                    k < all@.len(),
                    m <= all@[k as int].1@.len(),
                    members@ == all@[k as int].1@.take(m as int),
                decreases all@[k as int].1@.len() - m,
            {
                members.push(all[k].1[m].duplicate());
                proof { assert(all@[k as int].1@.take(m + 1) =~= all@[k as int].1@.take(m as int).push(all@[k as int].1@[m as int])); }
                m = m + 1;
            }
            proof { assert(all@[k as int].1@.take(m as int) =~= all@[k as int].1@); }
            let ghost before = groups@.map_values(|g| group_view(g));
            groups.push((name, members));
            proof {
                assert(groups@.map_values(|g| group_view(g)) =~= before.push(all_view[k as int]));
            }
        }
        k = k + 1;
    }
    proof { assert(all_view.subrange(0, k as int) =~= all_view); }
    groups
}

/// How a terminal state names itself on the receipt.
pub open spec fn terminal_name(state: TerminalState) -> Seq<char> {
    match state {
        TerminalState::Completed => "Completed"@,
        TerminalState::Failed => "Failed"@,
        TerminalState::Cancelled => "Cancelled"@,
        TerminalState::Promoted => "Promoted"@,
    }
}

fn terminal_text(state: TerminalState) -> (text: &'static str)
    ensures
        text@ == terminal_name(state),
{
    match state {
        TerminalState::Completed => "Completed",
        TerminalState::Failed => "Failed",
        TerminalState::Cancelled => "Cancelled",
        TerminalState::Promoted => "Promoted",
    }
}

/// The receipt's title and the line naming the workflow, mode and state.
pub open spec fn header_spec(receipt: Receipt) -> Seq<char> {
    "# Verified Work Receipt — run "@ + receipt.run_id@ + "\n\n"@ + "workflow: `"@ + receipt.workflow@ + "` · mode: `"@
        + receipt.mode@ + "` · state: "@ + terminal_name(receipt.terminal_state) + "\n\n"@
}

/// The criteria line.
pub open spec fn criteria_line(green: usize, total: usize) -> Seq<char> {
    "- "@ + mark_spec(green == total && total > 0) + " "@ + decimal_spec(green as nat) + "/"@ + decimal_spec(total as nat)
        + " criteria green (commands + exit codes below)\n"@
}

/// How one unknown kind is named.
pub open spec fn unknown_item(count: UnknownKindCount) -> Seq<char> {
    "`"@ + count.kind@ + "` ×"@ + decimal_spec(count.events as nat)
}

/// The line naming the kinds this binary does not know, when there are any.
pub open spec fn unknown_line(kinds: Seq<UnknownKindCount>) -> Seq<char> {
    if kinds.len() == 0 {
        Seq::empty()
    } else {
        "- "@ + mark_spec(false) + " event kind(s) this binary does not know — interpreted partially: "@
            + join_spec(kinds.map_values(|k: UnknownKindCount| unknown_item(k)), ", "@) + "\n"@
    }
}

/// Every count, as each names itself, separated by commas.
pub open spec fn counts_text(counts: Seq<DiagnosticCount>) -> Seq<char> {
    join_spec(counts.map_values(|c: DiagnosticCount| count_text(c)), ", "@)
}

/// The line counting the run's document problems, when there are any.
pub open spec fn diagnostics_line(counts: Seq<DiagnosticCount>) -> Seq<char> {
    if counts.len() == 0 {
        Seq::empty()
    } else {
        "- "@ + mark_spec(false) + " document problem(s) reported during the run: "@ + counts_text(counts) + "\n"@
    }
}

/// The line of the sessions' own checks, when they ran any: a mark for
/// whether every node that could check did, how many checks and how many
/// clean, and what was corrected in place.
pub open spec fn self_check_line(checks: SelfCheckSummary) -> Seq<char> {
    if checks.checks == 0 {
        Seq::empty()
    } else {
        "- "@ + mark_spec(checks.nodes_that_never_checked@.len() == 0) + " "@ + decimal_spec(checks.checks as nat)
            + " self-check(s) before close, "@ + decimal_spec(checks.clean as nat) + " clean"@
            + (if checks.corrected@.len() == 0 {
                Seq::empty()
            } else {
                " \u{2014} corrected in place: "@ + counts_text(checks.corrected@)
            }) + "\n"@
    }
}

/// The line naming the nodes that produced an interpreted artifact
/// without checking it, when there are any.
pub open spec fn never_checked_line(nodes: Seq<Seq<char>>) -> Seq<char> {
    if nodes.len() == 0 {
        Seq::empty()
    } else {
        "- "@ + mark_spec(false) + " node(s) produced an interpreted artifact without checking it: "@
            + join_spec(nodes.map_values(|n: Seq<char>| "`"@ + n + "`"@), ", "@) + "\n"@
    }
}

/// How many bytes `c` takes in UTF-8.
pub open spec fn utf8_width(c: char) -> nat {
    if (c as int) < 0x80 {
        1
    } else if (c as int) < 0x800 {
        2
    } else if (c as int) < 0x10000 {
        3
    } else {
        4
    }
}

/// The characters of `s` that take exactly its first `n` bytes in UTF-8;
/// `None` when byte `n` falls inside a character or past the end.
pub open spec fn byte_prefix(s: Seq<char>, n: nat) -> Option<Seq<char>>
    decreases s.len(),
{
    if n == 0 {
        Some(Seq::empty())
    } else if s.len() == 0 || utf8_width(s[0]) > n {
        None
    } else {
        match byte_prefix(s.drop_first(), (n - utf8_width(s[0])) as nat) {
            Some(rest) => Some(seq![s[0]] + rest),
            None => None,
        }
    }
}

/// The first twelve bytes of a hash; nothing when the hash is shorter or
/// byte twelve falls inside a character.
pub open spec fn hash_prefix(hash: Seq<char>) -> Seq<char> {
    match byte_prefix(hash, 12) {
        Some(prefix) => prefix,
        None => Seq::empty(),
    }
}

/// The baseline line.
pub open spec fn baseline_line(baseline: Option<BaselineSummary>) -> Seq<char> {
    match baseline {
        Some(b) => "- "@ + mark_spec(b.regressions == 0) + " "@ + decimal_spec(b.regressions as nat)
            + " regression(s) vs baseline across "@ + decimal_spec(b.compared as nat) + " comparison(s) (suite `"@
            + b.suite@ + "`, hash `"@ + hash_prefix(b.hash@) + "`)\n"@,
        None => "- baseline: not used by this workflow\n"@,
    }
}

/// The scope line.
pub open spec fn scope_line(files_touched: usize, violations: nat) -> Seq<char> {
    "- "@ + mark_spec(violations == 0) + " scope: "@ + decimal_spec(files_touched as nat) + " file(s) touched, "@
        + decimal_spec(violations) + " violation(s)\n"@
}

/// One fan-out group's line.
pub open spec fn group_line(group: (Seq<char>, Seq<RunnerUsage>)) -> Seq<char> {
    "- ✓ Reviewed by "@ + decimal_spec(group.1.len()) + " independent runner(s) via `"@ + group.0 + "` ("@
        + join_spec(group.1.map_values(|m: RunnerUsage| m.adapter@), ", "@) + ")\n"@
}

/// Every group's line, in order.
pub open spec fn group_lines(groups: Seq<(Seq<char>, Seq<RunnerUsage>)>) -> Seq<char>
    decreases groups.len(),
{
    if groups.len() == 0 { Seq::empty() } else { group_lines(groups.drop_last()) + group_line(groups.last()) }
}

/// The runners' lines: the fan-out reviews, or how many runners ran.
pub open spec fn runners_lines(runners: Seq<RunnerUsage>) -> Seq<char> {
    if fan_out_spec(runners).len() == 0 {
        "- "@ + decimal_spec(runners.len()) + " runner(s) used, no fan-out review\n"@
    } else {
        group_lines(fan_out_spec(runners))
    }
}

/// The cost line; `cptv` is the cost per task verified as the caller
/// rendered it, when any task reached `done`.
pub open spec fn cost_line(input: u64, output: u64, cptv: Option<Seq<char>>, reroutes: usize) -> Seq<char> {
    "- cost: "@ + decimal_spec(saturating(input + output) as nat) + " tokens ("@ + decimal_spec(input as nat) + " in / "@
        + decimal_spec(output as nat) + " out)"@ + match cptv {
            Some(c) => " · CPTV: "@ + c + " tokens/task"@,
            None => Seq::empty(),
        } + " · "@ + decimal_spec(reroutes as nat) + " reroute(s)\n"@
}

/// The event chain's line.
pub open spec fn chain_line(chain: EventChainStatus) -> Seq<char> {
    match chain {
        EventChainStatus::Intact { events } => "- ✓ event chain: "@ + decimal_spec(events as nat) + " event(s), hash-linked, replayable\n"@,
        EventChainStatus::Broken { seq, detail } => "- ✗ event chain BROKEN at seq "@ + decimal_spec(seq as nat) + ": "@ + detail@ + "\n"@,
    }
}

/// One criterion's line.
pub open spec fn entry_line(entry: CriterionEntry) -> Seq<char> {
    "- "@ + mark_spec(entry.exit_code == 0) + " `"@ + entry.task_id@ + "` — `"@ + entry.cmd@ + "` (exit "@
        + signed_decimal_spec(entry.exit_code as int) + ")\n"@
}

/// Every criterion's line, in order.
pub open spec fn entry_lines(entries: Seq<CriterionEntry>) -> Seq<char>
    decreases entries.len(),
{
    if entries.len() == 0 { Seq::empty() } else { entry_lines(entries.drop_last()) + entry_line(entries.last()) }
}

/// Every violation's line, in order.
pub open spec fn violation_lines(paths: Seq<Seq<char>>) -> Seq<char>
    decreases paths.len(),
{
    if paths.len() == 0 { Seq::empty() } else { violation_lines(paths.drop_last()) + "- "@ + paths.last() + "\n"@ }
}

/// The PR-attachable markdown of a receipt.
pub open spec fn markdown_spec(receipt: Receipt, cptv: Option<Seq<char>>) -> Seq<char> {
    header_spec(receipt)
        + criteria_line(receipt.criteria.green, receipt.criteria.total)
        + unknown_line(receipt.unknown_kinds@)
        + diagnostics_line(receipt.diagnostics@)
        + self_check_line(receipt.self_checks)
        + never_checked_line(texts(receipt.self_checks.nodes_that_never_checked@))
        + baseline_line(receipt.baseline)
        + scope_line(receipt.scope.files_touched, receipt.scope.violations@.len())
        + runners_lines(receipt.runners@)
        + cost_line(receipt.cost.tokens.input, receipt.cost.tokens.output, cptv, receipt.cost.reroutes)
        + chain_line(receipt.event_chain)
        + (if receipt.criteria.entries@.len() == 0 { Seq::empty() } else { "\n## Criteria\n\n"@ + entry_lines(receipt.criteria.entries@) })
        + (if receipt.scope.violations@.len() == 0 { Seq::empty() } else { "\n## Scope violations\n\n"@ + violation_lines(texts(receipt.scope.violations@)) })
}

fn append_decimal(out: &mut String, n: u64)
    ensures
        final(out)@ == old(out)@ + decimal_spec(n as nat),
{
    let digits = decimal(n);
    out.append(digits.as_str());
}

fn char_width(c: char) -> (width: usize)
    ensures
        width == utf8_width(c),
{
    let code = c as u32;
    if code < 0x80 {
        1
    } else if code < 0x800 {
        2
    } else if code < 0x10000 {
        3
    } else {
        4
    }
}

fn hash_prefix_text(hash: &String) -> (prefix: String)
    ensures
        prefix@ == hash_prefix(hash@),
{
    let text = hash.as_str();
    let len = text.unicode_len();
    let mut i: usize = 0;
    let mut bytes: usize = 0;
    proof {
        assert(hash@.skip(0) =~= hash@);
        match byte_prefix(hash@, 12) {
            Some(rest) => { assert(hash@.take(0) + rest =~= rest); },
            None => {},
        }
    }
    while bytes < 12
        invariant
            text@ == hash@,
            len == hash@.len(),
            i <= len,
            bytes <= 12,
            byte_prefix(hash@, 12) == match byte_prefix(hash@.skip(i as int), (12 - bytes) as nat) {
                Some(rest) => Some(hash@.take(i as int) + rest),
                None => None::<Seq<char>>,
            },
        decreases 12 - bytes,
    {
        if i == len {
            proof { assert(hash@.skip(i as int).len() == 0); }
            return String::new();
        }
        let c = text.get_char(i);
        let width = char_width(c);
        proof {
            assert(hash@.skip(i as int)[0] == c);
            assert(hash@.skip(i as int).drop_first() =~= hash@.skip(i + 1));
        }
        if width > 12 - bytes {
            return String::new();
        }
        proof {
            assert(hash@.take(i + 1) =~= hash@.take(i as int) + seq![c]);
            let n = (12 - bytes) as nat;
            let m = (12 - bytes - width) as nat;
            match byte_prefix(hash@.skip(i + 1), m) {
                Some(rest) => {
                    assert(hash@.take(i as int) + (seq![c] + rest) =~= hash@.take(i + 1) + rest);
                },
                None => {},
            }
        }
        bytes = bytes + width;
        i = i + 1;
    }
    proof { assert(hash@.take(i as int) + Seq::<char>::empty() =~= hash@.take(i as int)); }
    text.substring_char(0, i).to_string()
}

fn unknown_text(kinds: &Vec<UnknownKindCount>) -> (text: String)
    ensures
        text@ == unknown_line(kinds@),
{
    if kinds.len() == 0 {
        return String::new();
    }
    let mut items: Vec<String> = Vec::new();
    let mut i: usize = 0;
    while i < kinds.len()
        invariant
            i <= kinds@.len(),
            texts(items@) == kinds@.take(i as int).map_values(|k: UnknownKindCount| unknown_item(k)),
        decreases kinds@.len() - i,
    {
        let mut item = String::from_str("`");
        item.append(kinds[i].kind.as_str());
        item.append("` ×");
        append_decimal(&mut item, kinds[i].events as u64);
        let ghost before = texts(items@);
        items.push(item);
        proof {
            assert(texts(items@) =~= before.push(item@));
            assert(kinds@.take(i + 1).map_values(|k: UnknownKindCount| unknown_item(k))
                =~= kinds@.take(i as int).map_values(|k: UnknownKindCount| unknown_item(k)).push(unknown_item(kinds@[i as int])));
        }
        i = i + 1;
    }
    proof { assert(kinds@.take(i as int) =~= kinds@); }
    let mut text = String::from_str("- ");
    text.append(mark(false));
    text.append(" event kind(s) this binary does not know — interpreted partially: ");
    let joined = join(&items, ", ");
    text.append(joined.as_str());
    text.append("\n");
    text
}

fn counts_joined(counts: &Vec<DiagnosticCount>) -> (text: String)
    ensures
        text@ == counts_text(counts@),
{
    let mut items: Vec<String> = Vec::new();
    let mut i: usize = 0;
    while i < counts.len()
        invariant
            i <= counts@.len(),
            texts(items@) == counts@.take(i as int).map_values(|c: DiagnosticCount| count_text(c)),
        decreases counts@.len() - i,
    {
        let item = counts[i].describe();
        let ghost before = texts(items@);
        items.push(item);
        proof {
            assert(texts(items@) =~= before.push(item@));
            assert(counts@.take(i + 1).map_values(|c: DiagnosticCount| count_text(c))
                =~= counts@.take(i as int).map_values(|c: DiagnosticCount| count_text(c)).push(count_text(counts@[i as int])));
        }
        i = i + 1;
    }
    proof { assert(counts@.take(i as int) =~= counts@); }
    join(&items, ", ")
}

fn diagnostics_text(counts: &Vec<DiagnosticCount>) -> (text: String)
    ensures
        text@ == diagnostics_line(counts@),
{
    if counts.len() == 0 {
        return String::new();
    }
    let mut text = String::from_str("- ");
    text.append(mark(false));
    text.append(" document problem(s) reported during the run: ");
    let joined = counts_joined(counts);
    text.append(joined.as_str());
    text.append("\n");
    text
}

fn self_check_text(checks: &SelfCheckSummary) -> (text: String)
    ensures
        text@ == self_check_line(*checks),
{
    if checks.checks == 0 {
        return String::new();
    }
    let mut text = String::from_str("- ");
    text.append(mark(checks.nodes_that_never_checked.len() == 0));
    text.append(" ");
    append_decimal(&mut text, checks.checks as u64);
    text.append(" self-check(s) before close, ");
    append_decimal(&mut text, checks.clean as u64);
    text.append(" clean");
    if checks.corrected.len() > 0 {
        text.append(" \u{2014} corrected in place: ");
        let joined = counts_joined(&checks.corrected);
        text.append(joined.as_str());
    }
    text.append("\n");
    text
}

fn never_checked_text(nodes: &Vec<String>) -> (text: String)
    ensures
        text@ == never_checked_line(texts(nodes@)),
{
    if nodes.len() == 0 {
        return String::new();
    }
    let mut items: Vec<String> = Vec::new();
    let mut i: usize = 0;
    while i < nodes.len()
        invariant
            i <= nodes@.len(),
            texts(items@) == texts(nodes@).take(i as int).map_values(|n: Seq<char>| "`"@ + n + "`"@),
        decreases nodes@.len() - i,
    {
        let mut item = String::from_str("`");
        item.append(nodes[i].as_str());
        item.append("`");
        let ghost before = texts(items@);
        items.push(item);
        proof {
            assert(texts(items@) =~= before.push(item@));
            assert(texts(nodes@).take(i + 1).map_values(|n: Seq<char>| "`"@ + n + "`"@)
                =~= texts(nodes@).take(i as int).map_values(|n: Seq<char>| "`"@ + n + "`"@).push("`"@ + nodes@[i as int]@ + "`"@));
        }
        i = i + 1;
    }
    proof { assert(texts(nodes@).take(i as int) =~= texts(nodes@)); }
    let mut text = String::from_str("- ");
    text.append(mark(false));
    text.append(" node(s) produced an interpreted artifact without checking it: ");
    let joined = join(&items, ", ");
    text.append(joined.as_str());
    text.append("\n");
    text
}

fn group_text(group: &(String, Vec<RunnerUsage>)) -> (text: String)
    ensures
        text@ == group_line(group_view(*group)),
{
    let mut adapters: Vec<String> = Vec::new();
    let mut i: usize = 0;
    while i < group.1.len()
        invariant
            i <= group.1@.len(),
            texts(adapters@) == group.1@.take(i as int).map_values(|m: RunnerUsage| m.adapter@),
        decreases group.1@.len() - i,
    {
        let ghost before = texts(adapters@);
        adapters.push(group.1[i].adapter.clone());
        proof {
            assert(texts(adapters@) =~= before.push(group.1@[i as int].adapter@));
            assert(group.1@.take(i + 1).map_values(|m: RunnerUsage| m.adapter@)
                =~= group.1@.take(i as int).map_values(|m: RunnerUsage| m.adapter@).push(group.1@[i as int].adapter@));
        }
        i = i + 1;
    }
    proof { assert(group.1@.take(i as int) =~= group.1@); }
    let mut text = String::from_str("- ✓ Reviewed by ");
    append_decimal(&mut text, group.1.len() as u64);
    text.append(" independent runner(s) via `");
    text.append(group.0.as_str());
    text.append("` (");
    let joined = join(&adapters, ", ");
    text.append(joined.as_str());
    text.append(")\n");
    text
}

fn runners_text(runners: &Vec<RunnerUsage>) -> (text: String)
    ensures
        text@ == runners_lines(runners@),
{
    let groups = fan_out_groups(runners);
    let ghost view = groups@.map_values(|g| group_view(g));
    if groups.len() == 0 {
        let mut text = String::from_str("- ");
        append_decimal(&mut text, runners.len() as u64);
        text.append(" runner(s) used, no fan-out review\n");
        return text;
    }
    let mut text = String::new();
    let mut i: usize = 0;
    while i < groups.len()
        invariant
            i <= groups@.len(),
            view == groups@.map_values(|g| group_view(g)),
            view == fan_out_spec(runners@),
            text@ == group_lines(view.take(i as int)),
        decreases groups@.len() - i,
    {
        proof {
            assert(view.take(i + 1).drop_last() =~= view.take(i as int));
            assert(view.take(i + 1).last() == group_view(groups@[i as int]));
        }
        let line = group_text(&groups[i]);
        text.append(line.as_str());
        i = i + 1;
    }
    proof { assert(view.take(i as int) =~= view); }
    text
}

fn header_text(receipt: &Receipt) -> (text: String)
    ensures
        text@ == header_spec(*receipt),
{
    let mut out = String::from_str("# Verified Work Receipt — run ");
    out.append(receipt.run_id.as_str());
    out.append("\n\n");
    out.append("workflow: `");
    out.append(receipt.workflow.as_str());
    out.append("` · mode: `");
    out.append(receipt.mode.as_str());
    out.append("` · state: ");
    out.append(terminal_text(receipt.terminal_state));
    out.append("\n\n");
    out
}

fn criteria_text(green: usize, total: usize) -> (text: String)
    ensures
        text@ == criteria_line(green, total),
{
    let mut out = String::from_str("- ");
    out.append(mark(green == total && total > 0));
    out.append(" ");
    append_decimal(&mut out, green as u64);
    out.append("/");
    append_decimal(&mut out, total as u64);
    out.append(" criteria green (commands + exit codes below)\n");
    out
}

fn baseline_text(baseline: &Option<BaselineSummary>) -> (text: String)
    ensures
        text@ == baseline_line(*baseline),
{
    match baseline {
        Some(b) => {
            let mut out = String::from_str("- ");
            out.append(mark(b.regressions == 0));
            out.append(" ");
            append_decimal(&mut out, b.regressions as u64);
            out.append(" regression(s) vs baseline across ");
            append_decimal(&mut out, b.compared as u64);
            out.append(" comparison(s) (suite `");
            out.append(b.suite.as_str());
            out.append("`, hash `");
            let prefix = hash_prefix_text(&b.hash);
            out.append(prefix.as_str());
            out.append("`)\n");
            out
        },
        None => String::from_str("- baseline: not used by this workflow\n"),
    }
}

fn scope_text(files_touched: usize, violations: usize) -> (text: String)
    ensures
        text@ == scope_line(files_touched, violations as nat),
{
    let mut out = String::from_str("- ");
    out.append(mark(violations == 0));
    out.append(" scope: ");
    append_decimal(&mut out, files_touched as u64);
    out.append(" file(s) touched, ");
    append_decimal(&mut out, violations as u64);
    out.append(" violation(s)\n");
    out
}

fn cost_text(input: u64, output: u64, cptv: Option<&String>, reroutes: usize) -> (text: String)
    ensures
        text@ == cost_line(input, output, match cptv {
            Some(c) => Some(c@),
            None => None,
        }, reroutes),
{
    let tokens = crate::ledger::TokenUsage { input, output };
    let mut out = String::from_str("- cost: ");
    append_decimal(&mut out, tokens.total());
    out.append(" tokens (");
    append_decimal(&mut out, input);
    out.append(" in / ");
    append_decimal(&mut out, output);
    out.append(" out)");
    if let Some(c) = cptv {
        out.append(" · CPTV: ");
        out.append(c.as_str());
        out.append(" tokens/task");
    }
    out.append(" · ");
    append_decimal(&mut out, reroutes as u64);
    out.append(" reroute(s)\n");
    out
}

fn chain_text(chain: &EventChainStatus) -> (text: String)
    ensures
        text@ == chain_line(*chain),
{
    match chain {
        EventChainStatus::Intact { events } => {
            let mut out = String::from_str("- ✓ event chain: ");
            append_decimal(&mut out, *events as u64);
            out.append(" event(s), hash-linked, replayable\n");
            out
        },
        EventChainStatus::Broken { seq, detail } => {
            let mut out = String::from_str("- ✗ event chain BROKEN at seq ");
            append_decimal(&mut out, *seq);
            out.append(": ");
            out.append(detail.as_str());
            out.append("\n");
            out
        },
    }
}

fn entries_text(entries: &Vec<CriterionEntry>) -> (text: String)
    ensures
        text@ == (if entries@.len() == 0 { Seq::empty() } else { "\n## Criteria\n\n"@ + entry_lines(entries@) }),
{
    if entries.len() == 0 {
        return String::new();
    }
    let mut out = String::from_str("\n## Criteria\n\n");
    let ghost base = out@;
    let mut i: usize = 0;
    while i < entries.len()
        invariant
            i <= entries@.len(),
            out@ == base + entry_lines(entries@.take(i as int)),
        decreases entries@.len() - i,
    {
        proof {
            assert(entries@.take(i + 1).drop_last() =~= entries@.take(i as int));
            assert(entries@.take(i + 1).last() == entries@[i as int]);
        }
        let entry = &entries[i];
        out.append("- ");
        out.append(mark(entry.exit_code == 0));
        out.append(" `");
        out.append(entry.task_id.as_str());
        out.append("` — `");
        out.append(entry.cmd.as_str());
        out.append("` (exit ");
        let code = signed_decimal(entry.exit_code);
        out.append(code.as_str());
        out.append(")\n");
        i = i + 1;
    }
    proof { assert(entries@.take(i as int) =~= entries@); }
    out
}

fn violations_text(violations: &Vec<String>) -> (text: String)
    ensures
        text@ == (if violations@.len() == 0 { Seq::empty() } else { "\n## Scope violations\n\n"@ + violation_lines(texts(violations@)) }),
{
    if violations.len() == 0 {
        return String::new();
    }
    let mut out = String::from_str("\n## Scope violations\n\n");
    let ghost base = out@;
    let mut i: usize = 0;
    while i < violations.len()
        invariant
            i <= violations@.len(),
            out@ == base + violation_lines(texts(violations@).take(i as int)),
        decreases violations@.len() - i,
    {
        proof {
            assert(texts(violations@).take(i + 1).drop_last() =~= texts(violations@).take(i as int));
            assert(texts(violations@).take(i + 1).last() == violations@[i as int]@);
        }
        out.append("- ");
        out.append(violations[i].as_str());
        out.append("\n");
        i = i + 1;
    }
    proof { assert(texts(violations@).take(i as int) =~= texts(violations@)); }
    out
}

/// The PR-attachable markdown of a receipt. `cptv` is the cost per task
/// verified, as the caller rendered it (one decimal), when any task
/// reached `done`.
pub fn render_markdown(receipt: &Receipt, cptv: Option<&String>) -> (markdown: String)
    ensures
        markdown@ == markdown_spec(*receipt, match cptv {
            Some(c) => Some(c@),
            None => None,
        }),
{
    let parts: [String; 13] = [
        header_text(receipt),
        criteria_text(receipt.criteria.green, receipt.criteria.total),
        unknown_text(&receipt.unknown_kinds),
        diagnostics_text(&receipt.diagnostics),
        self_check_text(&receipt.self_checks),
        never_checked_text(&receipt.self_checks.nodes_that_never_checked),
        baseline_text(&receipt.baseline),
        scope_text(receipt.scope.files_touched, receipt.scope.violations.len()),
        runners_text(&receipt.runners),
        cost_text(receipt.cost.tokens.input, receipt.cost.tokens.output, cptv, receipt.cost.reroutes),
        chain_text(&receipt.event_chain),
        entries_text(&receipt.criteria.entries),
        violations_text(&receipt.scope.violations),
    ];
    let mut out = String::new();
    out.append(parts[0].as_str());
    out.append(parts[1].as_str());
    out.append(parts[2].as_str());
    out.append(parts[3].as_str());
    out.append(parts[4].as_str());
    out.append(parts[5].as_str());
    out.append(parts[6].as_str());
    out.append(parts[7].as_str());
    out.append(parts[8].as_str());
    out.append(parts[9].as_str());
    out.append(parts[10].as_str());
    out.append(parts[11].as_str());
    out.append(parts[12].as_str());
    out
}

} // verus!
