//! Runner fan-out, done statically before anything runs: a node with
//! `runners: [a, b]` becomes one `<id>@<role>` node per role, each
//! resolving its own runner, and every reference to the original id
//! follows the expansion (downstream `depends_on` onto all siblings, a
//! mode's include list naming them all). The scheduler needs no fan-out
//! awareness.

use vstd::prelude::*;
use vstd::string::StringExecFns;

use crate::ledger::dup_text;
use crate::text::{copy_strings, texts};
use crate::workflow::{
    ArtifactSpec, ContextSpec, GateRoute, HookStep, Hooks, ModeEntry, ModeInclude, Mount, Node, NodeKind, OnFailure,
    PromptSource, Workflow,
};

verus! {

/// Two context declarations read the same.
pub open spec fn context_copy(a: ContextSpec, b: ContextSpec) -> bool {
    match a {
        ContextSpec::Files { files: x } => b matches ContextSpec::Files { files: y } && x@ == y@,
        ContextSpec::Knowledge { layers: x } => b matches ContextSpec::Knowledge { layers: y } && x@ == y@,
        _ => a == b,
    }
}

/// Two lists of context declarations read the same, one for one.
pub open spec fn contexts_copy(a: Seq<ContextSpec>, b: Seq<ContextSpec>) -> bool {
    a.len() == b.len() && forall|i: int| 0 <= i < a.len() ==> #[trigger] context_copy(a[i], b[i])
}

/// Two hook declarations read the same.
pub open spec fn hooks_copy(a: Option<Hooks>, b: Option<Hooks>) -> bool {
    match a {
        Some(x) => b matches Some(y) && x.before@ == y.before@ && x.after@ == y.after@,
        None => b is None,
    }
}

/// Two node kinds read the same, a `parallel` group's children included.
pub open spec fn kind_copy(a: NodeKind, b: NodeKind) -> bool
    decreases a, 2int,
{
    match a {
        NodeKind::Parallel { nodes: x, join } => b matches NodeKind::Parallel { nodes: y, join: j } && j == join
            && all_copies(x@, y@),
        NodeKind::Gate { assignee, message, options, on, external } => b matches NodeKind::Gate {
            assignee: a2,
            message: m2,
            options: o2,
            on: on2,
            external: e2,
        } && a2 == assignee && m2 == message && o2@ == options@ && on2@ == on@ && e2 == external,
        NodeKind::Workflow { mounts } => b matches NodeKind::Workflow { mounts: m2 } && m2@ == mounts@,
        _ => a == b,
    }
}

/// Everything of two nodes reads the same but their id, runner, runners
/// and dependencies.
pub open spec fn same_work(a: Node, b: Node) -> bool
    decreases a, 1int,
{
    &&& b.description == a.description
    &&& b.on_failure == a.on_failure
    &&& b.on_interrupt == a.on_interrupt
    &&& b.agent == a.agent
    &&& contexts_copy(a.context@, b.context@)
    &&& b.artifacts@ == a.artifacts@
    &&& hooks_copy(a.hooks, b.hooks)
    &&& b.scope@ == a.scope@
    &&& kind_copy(a.kind, b.kind)
}

/// `b` is a copy of `a`.
pub open spec fn node_copy(a: Node, b: Node) -> bool
    decreases a, 2int,
{
    &&& b.id == a.id
    &&& b.runner == a.runner
    &&& b.runners@ == a.runners@
    &&& b.depends_on@ == a.depends_on@
    &&& same_work(a, b)
}

/// Each of `b` is a copy of the node at its place in `a`.
pub open spec fn all_copies(a: Seq<Node>, b: Seq<Node>) -> bool
    decreases a, 0int,
{
    if a.len() == 0 {
        b.len() == 0
    } else {
        b.len() == a.len() && all_copies(a.drop_last(), b.drop_last()) && node_copy(a.last(), b.last())
    }
}

fn dup_prompt(p: &PromptSource) -> (copy: PromptSource)
    ensures
        copy == *p,
{
    match p {
        PromptSource::Inline(text) => PromptSource::Inline(text.clone()),
        PromptSource::File(path) => PromptSource::File(path.clone()),
    }
}

fn dup_routes(routes: &Vec<GateRoute>) -> (copy: Vec<GateRoute>)
    ensures
        copy@ == routes@,
{
    let mut copy: Vec<GateRoute> = Vec::new();
    let mut i: usize = 0;
    while i < routes.len()
        invariant
            i <= routes@.len(),
            copy@ == routes@.take(i as int),
        decreases routes@.len() - i,
    {
        copy.push(GateRoute { option: routes[i].option.clone(), target: routes[i].target.clone() });
        proof {
            assert(copy@ =~= routes@.take(i + 1));
        }
        i = i + 1;
    }
    proof {
        assert(routes@.take(routes@.len() as int) =~= routes@);
    }
    copy
}

fn dup_mounts(mounts: &Vec<Mount>) -> (copy: Vec<Mount>)
    ensures
        copy@ == mounts@,
{
    let mut copy: Vec<Mount> = Vec::new();
    let mut i: usize = 0;
    while i < mounts.len()
        invariant
            i <= mounts@.len(),
            copy@ == mounts@.take(i as int),
        decreases mounts@.len() - i,
    {
        copy.push(Mount { node: mounts[i].node.clone(), name: mounts[i].name.clone() });
        proof {
            assert(copy@ =~= mounts@.take(i + 1));
        }
        i = i + 1;
    }
    proof {
        assert(mounts@.take(mounts@.len() as int) =~= mounts@);
    }
    copy
}

fn dup_steps(steps: &Vec<HookStep>) -> (copy: Vec<HookStep>)
    ensures
        copy@ == steps@,
{
    let mut copy: Vec<HookStep> = Vec::new();
    let mut i: usize = 0;
    while i < steps.len()
        invariant
            i <= steps@.len(),
            copy@ == steps@.take(i as int),
        decreases steps@.len() - i,
    {
        copy.push(HookStep { run: steps[i].run.clone() });
        proof {
            assert(copy@ =~= steps@.take(i + 1));
        }
        i = i + 1;
    }
    proof {
        assert(steps@.take(steps@.len() as int) =~= steps@);
    }
    copy
}

fn dup_artifacts(specs: &Vec<ArtifactSpec>) -> (copy: Vec<ArtifactSpec>)
    ensures
        copy@ == specs@,
{
    let mut copy: Vec<ArtifactSpec> = Vec::new();
    let mut i: usize = 0;
    while i < specs.len()
        invariant
            i <= specs@.len(),
            copy@ == specs@.take(i as int),
        decreases specs@.len() - i,
    {
        let item = match &specs[i] {
            ArtifactSpec::Plain(name) => ArtifactSpec::Plain(name.clone()),
            ArtifactSpec::Typed { name, kind } => ArtifactSpec::Typed { name: name.clone(), kind: *kind },
        };
        copy.push(item);
        proof {
            assert(copy@ =~= specs@.take(i + 1));
        }
        i = i + 1;
    }
    proof {
        assert(specs@.take(specs@.len() as int) =~= specs@);
    }
    copy
}

fn dup_context(spec: &ContextSpec) -> (copy: ContextSpec)
    ensures
        context_copy(*spec, copy),
{
    match spec {
        ContextSpec::Files { files } => ContextSpec::Files { files: copy_strings(files) },
        ContextSpec::Command { command } => ContextSpec::Command { command: command.clone() },
        ContextSpec::Artifact { node, name } => ContextSpec::Artifact { node: dup_text(node), name: name.clone() },
        ContextSpec::RunEvents { filter } => ContextSpec::RunEvents { filter: dup_text(filter) },
        ContextSpec::Ledger => ContextSpec::Ledger,
        ContextSpec::Knowledge { layers } => ContextSpec::Knowledge { layers: copy_strings(layers) },
        ContextSpec::NodeOutput { node } => ContextSpec::NodeOutput { node: node.clone() },
        ContextSpec::Mcp { server, query } => ContextSpec::Mcp { server: server.clone(), query: query.clone() },
    }
}

fn dup_contexts(specs: &Vec<ContextSpec>) -> (copy: Vec<ContextSpec>)
    ensures
        contexts_copy(specs@, copy@),
{
    let mut copy: Vec<ContextSpec> = Vec::new();
    let mut i: usize = 0;
    while i < specs.len()
        invariant
            i <= specs@.len(),
            copy@.len() == i,
            forall|k: int| 0 <= k < i ==> #[trigger] context_copy(specs@[k], copy@[k]),
        decreases specs@.len() - i,
    {
        copy.push(dup_context(&specs[i]));
        i = i + 1;
    }
    copy
}

fn dup_hooks(hooks: &Option<Hooks>) -> (copy: Option<Hooks>)
    ensures
        hooks_copy(*hooks, copy),
{
    match hooks {
        Some(h) => Some(Hooks { before: dup_steps(&h.before), after: dup_steps(&h.after) }),
        None => None,
    }
}

fn dup_on_failure(on_failure: &Option<OnFailure>) -> (copy: Option<OnFailure>)
    ensures
        copy == *on_failure,
{
    match on_failure {
        Some(f) => Some(OnFailure { goto: f.goto.clone(), max_reroutes: f.max_reroutes }),
        None => None,
    }
}

fn dup_kind(kind: &NodeKind) -> (copy: NodeKind)
    ensures
        kind_copy(*kind, copy),
    decreases *kind, 2int,
{
    match kind {
        NodeKind::Prompt { prompt } => NodeKind::Prompt { prompt: dup_prompt(prompt) },
        NodeKind::Bash { run } => NodeKind::Bash { run: run.clone() },
        NodeKind::Loop { until, prompt, concurrency } => NodeKind::Loop { until: until.clone(), prompt: dup_prompt(prompt), concurrency: *concurrency },
        NodeKind::Parallel { nodes, join } => {
            proof {
                assert(decreases_to!(*kind => *nodes));
            }
            NodeKind::Parallel { nodes: dup_nodes(nodes), join: *join }
        },
        NodeKind::Check(builtin) => NodeKind::Check(*builtin),
        NodeKind::Executor { executor } => NodeKind::Executor { executor: executor.clone() },
        NodeKind::Gate { assignee, message, options, on, external } => NodeKind::Gate {
            assignee: assignee.clone(),
            message: dup_text(message),
            options: copy_strings(options),
            on: dup_routes(on),
            external: *external,
        },
        NodeKind::Workflow { mounts } => NodeKind::Workflow { mounts: dup_mounts(mounts) },
    }
}

/// A copy of `node`.
pub fn dup_node(node: &Node) -> (copy: Node)
    ensures
        node_copy(*node, copy),
    decreases *node, 1int,
{
    proof {
        assert(decreases_to!(*node => node.kind));
    }
    Node {
        id: node.id.clone(),
        kind: dup_kind(&node.kind),
        description: dup_text(&node.description),
        depends_on: copy_strings(&node.depends_on),
        on_failure: dup_on_failure(&node.on_failure),
        on_interrupt: node.on_interrupt,
        runner: dup_text(&node.runner),
        agent: dup_text(&node.agent),
        runners: copy_strings(&node.runners),
        context: dup_contexts(&node.context),
        artifacts: dup_artifacts(&node.artifacts),
        hooks: dup_hooks(&node.hooks),
        scope: copy_strings(&node.scope),
    }
}

/// Copies of `nodes`, one for one.
pub fn dup_nodes(nodes: &Vec<Node>) -> (copy: Vec<Node>)
    ensures
        all_copies(nodes@, copy@),
    decreases nodes@, 0int,
{
    let mut copy: Vec<Node> = Vec::new();
    let mut i: usize = 0;
    while i < nodes.len()
        invariant
            i <= nodes@.len(),
            all_copies(nodes@.take(i as int), copy@),
        decreases nodes@.len() - i,
    {
        proof {
            assert(decreases_to!(nodes@ => nodes@[i as int]));
        }
        let item = dup_node(&nodes[i]);
        let ghost prev = copy@;
        copy.push(item);
        proof {
            assert(nodes@.take(i + 1).drop_last() =~= nodes@.take(i as int));
            assert(copy@.drop_last() =~= prev);
        }
        i = i + 1;
    }
    proof {
        assert(nodes@.take(nodes@.len() as int) =~= nodes@);
    }
    copy
}

/// The ids a fanned-out node's siblings take: `<id>@<role>` per role, in
/// order.
pub open spec fn sibling_ids(node: Node) -> Seq<Seq<char>> {
    texts(node.runners@).map_values(|role: Seq<char>| node.id@ + "@"@ + role)
}

/// What a reference to `id` becomes: the siblings of the last node of
/// that id that fans out; nothing when none does.
pub open spec fn expansion_of(nodes: Seq<Node>, id: Seq<char>) -> Option<Seq<Seq<char>>>
    decreases nodes.len(),
{
    if nodes.len() == 0 {
        None
    } else if nodes.last().id@ == id && nodes.last().runners@.len() > 0 {
        Some(sibling_ids(nodes.last()))
    } else {
        expansion_of(nodes.drop_last(), id)
    }
}

/// A list of node references once each follows the expansion, in order.
pub open spec fn rewired(nodes: Seq<Node>, ids: Seq<Seq<char>>) -> Seq<Seq<char>>
    decreases ids.len(),
{
    if ids.len() == 0 {
        Seq::empty()
    } else {
        rewired(nodes, ids.drop_last()) + match expansion_of(nodes, ids.last()) {
            Some(siblings) => siblings,
            None => seq![ids.last()],
        }
    }
}

/// How many nodes a node becomes.
pub open spec fn group_len(node: Node) -> int {
    if node.runners@.len() == 0 { 1 } else { node.runners@.len() as int }
}

/// `sibling` is the `k`th sibling a fanned-out `node` becomes: its id and
/// runner are the role's, it fans out no further, its dependencies follow
/// the expansion, and its work is the node's.
pub open spec fn sibling_of(all: Seq<Node>, node: Node, k: int, sibling: Node) -> bool {
    &&& sibling.id@ == node.id@ + "@"@ + node.runners@[k]@
    &&& sibling.runner matches Some(role) && role@ == node.runners@[k]@
    &&& sibling.runners@.len() == 0
    &&& texts(sibling.depends_on@) == rewired(all, texts(node.depends_on@))
    &&& same_work(node, sibling)
}

/// `out` is what `node` becomes: itself, its dependencies following the
/// expansion, when it declares no `runners:`; one sibling per role
/// otherwise.
pub open spec fn group_ok(all: Seq<Node>, node: Node, out: Seq<Node>) -> bool {
    if node.runners@.len() == 0 {
        &&& out.len() == 1
        &&& out[0].id == node.id
        &&& out[0].runner == node.runner
        &&& out[0].runners@.len() == 0
        &&& texts(out[0].depends_on@) == rewired(all, texts(node.depends_on@))
        &&& same_work(node, out[0])
    } else {
        &&& out.len() == node.runners@.len()
        &&& forall|k: int| 0 <= k < out.len() ==> #[trigger] sibling_of(all, node, k, out[k])
    }
}

/// `out` is `nodes` expanded, node by node, references following the
/// expansion of the whole of `all`.
pub open spec fn fanned(all: Seq<Node>, nodes: Seq<Node>, out: Seq<Node>) -> bool
    decreases nodes.len(),
{
    if nodes.len() == 0 {
        out.len() == 0
    } else {
        let g = group_len(nodes.last());
        &&& out.len() >= g
        &&& fanned(all, nodes.drop_last(), out.subrange(0, out.len() - g))
        &&& group_ok(all, nodes.last(), out.subrange(out.len() - g, out.len() as int))
    }
}

/// The modes once each include list follows the expansion.
pub open spec fn modes_fanned(all: Seq<Node>, old: Option<Seq<ModeEntry>>, new: Option<Seq<ModeEntry>>) -> bool {
    match old {
        None => new is None,
        Some(o) => new matches Some(n) && n.len() == o.len() && forall|i: int| 0 <= i < o.len() ==> {
            &&& (#[trigger] n[i]).name == o[i].name
            &&& match o[i].selects {
                ModeInclude::All => n[i].selects == ModeInclude::All,
                ModeInclude::Nodes(ids) => n[i].selects matches ModeInclude::Nodes(new_ids) && texts(new_ids@) == rewired(all, texts(ids@)),
            }
        },
    }
}

/// The position of the last node of id `id` that fans out.
fn expansion_at(all: &Vec<Node>, id: &String) -> (found: Option<usize>)
    ensures
        match found {
            Some(k) => k < all@.len() && expansion_of(all@, id@) == Some(sibling_ids(all@[k as int])),
            None => expansion_of(all@, id@) is None,
        },
{
    let mut i: usize = all.len();
    proof {
        assert(all@.take(all@.len() as int) =~= all@);
    }
    while i > 0
        invariant
            i <= all@.len(),
            expansion_of(all@, id@) == expansion_of(all@.take(i as int), id@),
        decreases i,
    {
        let k = i - 1;
        proof {
            assert(all@.take(i as int).drop_last() =~= all@.take(k as int));
            assert(all@.take(i as int).last() == all@[k as int]);
        }
        if crate::text::same_text(&all[k].id, id) && all[k].runners.len() > 0 {
            return Some(k);
        }
        i = k;
    }
    None
}

/// The sibling ids of `node`.
fn siblings_of(node: &Node) -> (ids: Vec<String>)
    ensures
        texts(ids@) == sibling_ids(*node),
{
    let mut ids: Vec<String> = Vec::new();
    let mut j: usize = 0;
    while j < node.runners.len()
        invariant
            j <= node.runners@.len(),
            texts(ids@) == sibling_ids(*node).take(j as int),
        decreases node.runners@.len() - j,
    {
        let mut id = node.id.clone();
        id.append("@");
        id.append(node.runners[j].as_str());
        let ghost prev = ids@;
        ids.push(id);
        proof {
            assert(texts(ids@) =~= texts(prev).push(node.id@ + "@"@ + node.runners@[j as int]@));
            assert(sibling_ids(*node).take(j + 1) =~= sibling_ids(*node).take(j as int).push(node.id@ + "@"@ + node.runners@[j as int]@));
        }
        j = j + 1;
    }
    proof {
        assert(sibling_ids(*node).take(node.runners@.len() as int) =~= sibling_ids(*node));
    }
    ids
}

/// References once each follows the expansion.
pub fn rewire(all: &Vec<Node>, ids: &Vec<String>) -> (out: Vec<String>)
    ensures
        texts(out@) == rewired(all@, texts(ids@)),
{
    let mut out: Vec<String> = Vec::new();
    let mut i: usize = 0;
    while i < ids.len()
        invariant
            i <= ids@.len(),
            texts(out@) == rewired(all@, texts(ids@).take(i as int)),
        decreases ids@.len() - i,
    {
        proof {
            assert(texts(ids@).take(i + 1).drop_last() =~= texts(ids@).take(i as int));
            assert(texts(ids@).take(i + 1).last() == ids@[i as int]@);
        }
        let ghost before = texts(out@);
        match expansion_at(all, &ids[i]) {
            Some(k) => {
                let mut siblings = siblings_of(&all[k]);
                let ghost more = siblings@;
                out.append(&mut siblings);
                proof {
                    assert(texts(out@) =~= before + texts(more));
                }
            },
            None => {
                out.push(ids[i].clone());
                proof {
                    assert(texts(out@) =~= before + seq![ids@[i as int]@]);
                }
            },
        }
        i = i + 1;
    }
    proof {
        assert(texts(ids@).take(ids@.len() as int) =~= texts(ids@));
    }
    out
}

/// What one node becomes.
fn expand_node(all: &Vec<Node>, node: &Node) -> (group: Vec<Node>)
    ensures
        group_ok(all@, *node, group@),
{
    let mut group: Vec<Node> = Vec::new();
    if node.runners.len() == 0 {
        let mut kept = dup_node(node);
        kept.depends_on = rewire(all, &node.depends_on);
        group.push(kept);
        return group;
    }
    let mut k: usize = 0;
    while k < node.runners.len()
        invariant
            k <= node.runners@.len(),
            group@.len() == k,
            forall|t: int| 0 <= t < k ==> #[trigger] sibling_of(all@, *node, t, group@[t]),
        decreases node.runners@.len() - k,
    {
        let mut sibling = dup_node(node);
        let mut id = node.id.clone();
        id.append("@");
        id.append(node.runners[k].as_str());
        sibling.id = id;
        sibling.runner = Some(node.runners[k].clone());
        sibling.runners = Vec::new();
        sibling.depends_on = rewire(all, &node.depends_on);
        proof {
            assert(sibling_of(all@, *node, k as int, sibling));
        }
        group.push(sibling);
        k = k + 1;
    }
    group
}

/// Expands every node declaring `runners:` into one node per role, and
/// makes every reference (each node's `depends_on`, each mode's include
/// list) follow the expansion. Re-route and gate targets onto a fan-out
/// node are refused before a workflow gets here, so none is rewritten.
pub fn expand_runner_fanout(workflow: &mut Workflow)
    ensures
        final(workflow).name == old(workflow).name,
        fanned(old(workflow).nodes@, old(workflow).nodes@, final(workflow).nodes@),
        modes_fanned(old(workflow).nodes@, match old(workflow).modes {
            Some(m) => Some(m@),
            None => None,
        }, match final(workflow).modes {
            Some(m) => Some(m@),
            None => None,
        }),
{
    let mut out: Vec<Node> = Vec::new();
    let mut i: usize = 0;
    while i < workflow.nodes.len()
        invariant
            i <= workflow.nodes@.len(),
            workflow.nodes@ == old(workflow).nodes@,
            workflow.name == old(workflow).name,
            workflow.modes == old(workflow).modes,
            fanned(old(workflow).nodes@, old(workflow).nodes@.take(i as int), out@),
        decreases workflow.nodes@.len() - i,
    {
        let mut group = expand_node(&workflow.nodes, &workflow.nodes[i]);
        let ghost before = out@;
        let ghost more = group@;
        out.append(&mut group);
        proof {
            let all = old(workflow).nodes@;
            let nodes = all.take(i + 1);
            assert(nodes.drop_last() =~= all.take(i as int));
            assert(nodes.last() == all[i as int]);
            let g = group_len(all[i as int]);
            assert(more.len() == g);
            assert(out@.subrange(0, out@.len() - g) =~= before);
            assert(out@.subrange(out@.len() - g, out@.len() as int) =~= more);
        }
        i = i + 1;
    }
    proof {
        assert(old(workflow).nodes@.take(old(workflow).nodes@.len() as int) =~= old(workflow).nodes@);
    }
    let modes = match &workflow.modes {
        Some(entries) => {
            let mut rewritten: Vec<ModeEntry> = Vec::new();
            let mut m: usize = 0;
            while m < entries.len()
                invariant
                    m <= entries@.len(),
                    workflow.nodes@ == old(workflow).nodes@,
                    workflow.modes == old(workflow).modes,
                    old(workflow).modes == Some(*entries),
                    rewritten@.len() == m,
                    forall|t: int| 0 <= t < m ==> {
                        &&& (#[trigger] rewritten@[t]).name == entries@[t].name
                        &&& match entries@[t].selects {
                            ModeInclude::All => rewritten@[t].selects == ModeInclude::All,
                            ModeInclude::Nodes(ids) => rewritten@[t].selects matches ModeInclude::Nodes(new_ids)
                                && texts(new_ids@) == rewired(old(workflow).nodes@, texts(ids@)),
                        }
                    },
                decreases entries@.len() - m,
            {
                let selects = match &entries[m].selects {
                    ModeInclude::All => ModeInclude::All,
                    ModeInclude::Nodes(ids) => ModeInclude::Nodes(rewire(&workflow.nodes, ids)),
                };
                rewritten.push(ModeEntry { name: entries[m].name.clone(), selects });
                m = m + 1;
            }
            Some(rewritten)
        },
        None => None,
    };
    workflow.nodes = out;
    workflow.modes = modes;
}

proof fn lemma_no_expansion(all: Seq<Node>, id: Seq<char>)
    requires
        forall|k: int| 0 <= k < all.len() ==> (#[trigger] all[k]).runners@.len() == 0,
    ensures
        expansion_of(all, id) is None,
    decreases all.len(),
{
    if all.len() > 0 {
        assert(all[all.len() - 1].runners@.len() == 0);
        assert forall|k: int| 0 <= k < all.drop_last().len() implies (#[trigger] all.drop_last()[k]).runners@.len() == 0 by {
            assert(all.drop_last()[k] == all[k]);
        }
        lemma_no_expansion(all.drop_last(), id);
    }
}

/// A workflow where no node declares `runners:` keeps every reference as
/// it was: nothing fans out, so nothing is rewired.
pub proof fn law_without_runners_every_reference_stays(all: Seq<Node>, ids: Seq<Seq<char>>)
    requires
        forall|k: int| 0 <= k < all.len() ==> (#[trigger] all[k]).runners@.len() == 0,
    ensures
        rewired(all, ids) == ids,
    decreases ids.len(),
{
    if ids.len() > 0 {
        lemma_no_expansion(all, ids.last());
        law_without_runners_every_reference_stays(all, ids.drop_last());
        assert(ids.drop_last().push(ids.last()) =~= ids);
    }
}

proof fn lemma_expansion_at(all: Seq<Node>, k: int)
    requires
        0 <= k < all.len(),
        all[k].runners@.len() > 0,
        forall|j: int| k < j < all.len() ==> (#[trigger] all[j]).id@ != all[k].id@,
    ensures
        expansion_of(all, all[k].id@) == Some(sibling_ids(all[k])),
    decreases all.len(),
{
    if k < all.len() - 1 {
        assert(all[all.len() - 1].id@ != all[k].id@);
        assert forall|j: int| k < j < all.drop_last().len() implies (#[trigger] all.drop_last()[j]).id@ != all.drop_last()[k].id@ by {
            assert(all.drop_last()[j] == all[j]);
        }
        assert(all.drop_last()[k] == all[k]);
        lemma_expansion_at(all.drop_last(), k);
    }
}

/// A reference to a node that fans out becomes every one of its
/// siblings, and never names the original id again.
pub proof fn law_a_fanned_out_reference_names_every_sibling(all: Seq<Node>, k: int)
    requires
        0 <= k < all.len(),
        all[k].runners@.len() > 0,
        forall|j: int| k < j < all.len() ==> (#[trigger] all[j]).id@ != all[k].id@,
    ensures
        rewired(all, seq![all[k].id@]) == sibling_ids(all[k]),
{
    lemma_expansion_at(all, k);
    let ids = seq![all[k].id@];
    assert(ids.drop_last() =~= Seq::<Seq<char>>::empty());
    assert(ids.last() == all[k].id@);
    assert(rewired(all, ids.drop_last()) == Seq::<Seq<char>>::empty());
    assert(Seq::<Seq<char>>::empty() + sibling_ids(all[k]) =~= sibling_ids(all[k]));
}

} // verus!
