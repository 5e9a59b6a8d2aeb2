//! The edges a workflow implies before it is frozen into a run's
//! manifest: a node that reads another node's outcome, through a context
//! artifact or a mount, orders behind it exactly as if it said so.

use vstd::prelude::*;

use crate::text::{push_unique, texts};
use crate::workflow::{ContextSpec, Mount, Node, NodeKind, Workflow};

verus! {

/// The nodes a node's mounts read, for a `workflow` node.
pub open spec fn mount_sources(kind: NodeKind) -> Seq<Seq<char>> {
    match kind {
        NodeKind::Workflow { mounts } => mounts@.map_values(|m: Mount| m.node@),
        _ => Seq::empty(),
    }
}

/// The nodes the context artifacts name, in order. A node-less reference
/// reads the run's own artifacts and orders behind nothing.
pub open spec fn context_sources(context: Seq<ContextSpec>) -> Seq<Seq<char>>
    decreases context.len(),
{
    if context.len() == 0 {
        Seq::empty()
    } else {
        context_sources(context.drop_last()) + match context.last() {
            ContextSpec::Artifact { node: Some(n), .. } => seq![n@],
            _ => Seq::empty(),
        }
    }
}

/// Every node whose outcome this node reads: its mounts' sources first,
/// then those of its context artifacts.
pub open spec fn implied_sources(node: Node) -> Seq<Seq<char>> {
    mount_sources(node.kind) + context_sources(node.context@)
}

/// `deps` with each of `more` added, in order, unless it is already
/// there by the time it comes.
pub open spec fn add_missing(deps: Seq<Seq<char>>, more: Seq<Seq<char>>) -> Seq<Seq<char>>
    decreases more.len(),
{
    if more.len() == 0 {
        deps
    } else {
        let d = add_missing(deps, more.drop_last());
        if d.contains(more.last()) {
            d
        } else {
            d.push(more.last())
        }
    }
}

/// `new` is `old` with its implied edges folded into `depends_on`, and
/// the same done to each child of a `parallel` node; nothing else
/// changes.
pub open spec fn expanded(old: Node, new: Node) -> bool
    decreases old, 1int,
{
    &&& new.id == old.id
    &&& new.description == old.description
    &&& new.on_failure == old.on_failure
    &&& new.on_interrupt == old.on_interrupt
    &&& new.runner == old.runner
    &&& new.agent == old.agent
    &&& new.runners == old.runners
    &&& new.context == old.context
    &&& new.artifacts == old.artifacts
    &&& new.hooks == old.hooks
    &&& new.scope == old.scope
    &&& texts(new.depends_on@) == add_missing(texts(old.depends_on@), implied_sources(old))
    &&& match old.kind {
        NodeKind::Parallel { nodes: olds, join } => match new.kind {
            NodeKind::Parallel { nodes: news, join: j } => j == join && all_expanded(olds@, news@),
            _ => false,
        },
        _ => new.kind == old.kind,
    }
}

/// Each of `news` is the node at its place in `olds`, expanded.
pub open spec fn all_expanded(olds: Seq<Node>, news: Seq<Node>) -> bool
    decreases olds, 0int,
{
    if olds.len() == 0 {
        news.len() == 0
    } else {
        news.len() == olds.len() && all_expanded(olds.drop_last(), news.drop_last()) && expanded(olds.last(), news.last())
    }
}

/// The nodes a node's mounts and context artifacts read, in order.
fn implied_of(kind: &NodeKind, context: &Vec<ContextSpec>) -> (implied: Vec<String>)
    ensures
        texts(implied@) == mount_sources(*kind) + context_sources(context@),
{
    let mut implied: Vec<String> = Vec::new();
    match kind {
        NodeKind::Workflow { mounts } => {
            let mut i: usize = 0;
            while i < mounts.len()
                invariant
                    i <= mounts@.len(),
                    texts(implied@) == mounts@.take(i as int).map_values(|m: Mount| m.node@),
                decreases mounts@.len() - i,
            {
                let ghost prev = implied@;
                implied.push(mounts[i].node.clone());
                proof {
                    assert(texts(implied@) =~= texts(prev).push(mounts@[i as int].node@));
                    assert(mounts@.take(i + 1).map_values(|m: Mount| m.node@)
                        =~= mounts@.take(i as int).map_values(|m: Mount| m.node@).push(mounts@[i as int].node@));
                }
                i = i + 1;
            }
            proof {
                assert(mounts@.take(mounts@.len() as int) =~= mounts@);
            }
        },
        _ => {
            proof {
                assert(texts(implied@) =~= Seq::<Seq<char>>::empty());
            }
        },
    }
    let ghost mounted = texts(implied@);
    let mut j: usize = 0;
    while j < context.len()
        invariant
            j <= context@.len(),
            texts(implied@) == mounted + context_sources(context@.take(j as int)),
        decreases context@.len() - j,
    {
        proof {
            assert(context@.take(j + 1).drop_last() =~= context@.take(j as int));
        }
        let ghost prev = implied@;
        match &context[j] {
            ContextSpec::Artifact { node: Some(n), .. } => {
                implied.push(n.clone());
                proof {
                    assert(texts(implied@) =~= texts(prev).push(n@));
                }
            },
            _ => {},
        }
        proof {
            assert(texts(implied@) =~= mounted + context_sources(context@.take(j + 1)));
        }
        j = j + 1;
    }
    proof {
        assert(context@.take(context@.len() as int) =~= context@);
    }
    implied
}

/// `deps` with each of `more` added unless already there.
fn add_missing_to(deps: &mut Vec<String>, more: &Vec<String>)
    ensures
        texts(final(deps)@) == add_missing(texts(old(deps)@), texts(more@)),
{
    let ghost start = texts(deps@);
    let mut i: usize = 0;
    while i < more.len()
        invariant
            i <= more@.len(),
            texts(deps@) == add_missing(start, texts(more@).take(i as int)),
        decreases more@.len() - i,
    {
        proof {
            assert(texts(more@).take(i + 1).drop_last() =~= texts(more@).take(i as int));
            assert(texts(more@).take(i + 1).last() == more@[i as int]@);
        }
        let ghost prev = deps@;
        push_unique(deps, more[i].clone());
        proof {
            if !texts(prev).contains(more@[i as int]@) {
                assert(texts(deps@) =~= texts(prev).push(more@[i as int]@));
            }
        }
        i = i + 1;
    }
    proof {
        assert(texts(more@).take(more@.len() as int) =~= texts(more@));
    }
}

/// Folds a node's implied edges into its `depends_on`, children of a
/// `parallel` node first. Idempotent: a node that already lists a source
/// gets no duplicate.
pub fn expand_implicit_dependencies_in(node: Node) -> (new: Node)
    ensures
        expanded(node, new),
    decreases node,
{
    let ghost old_node = node;
    let Node { id, kind, description, depends_on, on_failure, on_interrupt, runner, agent, runners, context, artifacts, hooks, scope } = node;
    let implied = implied_of(&kind, &context);
    let mut depends_on = depends_on;
    add_missing_to(&mut depends_on, &implied);
    let kind = match kind {
        NodeKind::Parallel { nodes, join } => {
            let ghost olds = nodes@;
            let mut rest = nodes;
            let mut news: Vec<Node> = Vec::new();
            let mut i: usize = 0;
            let n = rest.len();
            while i < n
                invariant
                    n == olds.len(),
                    i <= n,
                    rest@ == olds.subrange(i as int, n as int),
                    all_expanded(olds.take(i as int), news@),
                    old_node.kind matches NodeKind::Parallel { nodes: o, join: j } && o@ == olds && j == join,
                    node == old_node,
                decreases n - i,
            {
                let child = rest.remove(0);
                proof {
                    assert(child == olds[i as int]);
                    let o = old_node.kind->nodes;
                    assert(decreases_to!(old_node => old_node.kind));
                    assert(decreases_to!(old_node.kind => o));
                    assert(decreases_to!(o => o@));
                    assert(decreases_to!(o@ => o@[i as int]));
                    assert(decreases_to!(old_node => child));
                }
                let grown = expand_implicit_dependencies_in(child);
                let ghost prev = news@;
                news.push(grown);
                proof {
                    assert(rest@ =~= olds.subrange(i + 1, n as int));
                    assert(olds.take(i + 1).drop_last() =~= olds.take(i as int));
                    assert(news@.drop_last() =~= prev);
                }
                i = i + 1;
            }
            proof {
                assert(olds.take(n as int) =~= olds);
            }
            NodeKind::Parallel { nodes: news, join }
        },
        other => other,
    };
    Node { id, kind, description, depends_on, on_failure, on_interrupt, runner, agent, runners, context, artifacts, hooks, scope }
}

/// Folds every node's implied edges into its `depends_on`, so the
/// workflow's checks and its scheduler, which read only `depends_on`,
/// need no awareness of context or mounts.
pub fn expand_implicit_dependencies(workflow: &mut Workflow)
    ensures
        final(workflow).name == old(workflow).name,
        final(workflow).modes == old(workflow).modes,
        all_expanded(old(workflow).nodes@, final(workflow).nodes@),
{
    let mut rest: Vec<Node> = Vec::new();
    std::mem::swap(&mut rest, &mut workflow.nodes);
    let ghost olds = rest@;
    let n = rest.len();
    let mut news: Vec<Node> = Vec::new();
    let mut i: usize = 0;
    while i < n
        invariant
            n == olds.len(),
            i <= n,
            rest@ == olds.subrange(i as int, n as int),
            all_expanded(olds.take(i as int), news@),
        decreases n - i,
    {
        let child = rest.remove(0);
        proof {
            assert(child == olds[i as int]);
        }
        let grown = expand_implicit_dependencies_in(child);
        let ghost prev = news@;
        news.push(grown);
        proof {
            assert(rest@ =~= olds.subrange(i + 1, n as int));
            assert(olds.take(i + 1).drop_last() =~= olds.take(i as int));
            assert(news@.drop_last() =~= prev);
        }
        i = i + 1;
    }
    proof {
        assert(olds.take(n as int) =~= olds);
    }
    workflow.nodes = news;
}

/// Every source ends up among the dependencies, and those already there
/// stay first, in their order.
pub proof fn lemma_add_missing_covers(deps: Seq<Seq<char>>, more: Seq<Seq<char>>)
    ensures
        forall|k: int| 0 <= k < more.len() ==> add_missing(deps, more).contains(#[trigger] more[k]),
        add_missing(deps, more).len() >= deps.len(),
        add_missing(deps, more).subrange(0, deps.len() as int) == deps,
    decreases more.len(),
{
    if more.len() > 0 {
        let e = add_missing(deps, more.drop_last());
        lemma_add_missing_covers(deps, more.drop_last());
        let r = add_missing(deps, more);
        assert forall|k: int| 0 <= k < more.len() implies r.contains(#[trigger] more[k]) by {
            if k < more.len() - 1 {
                assert(more.drop_last()[k] == more[k]);
                assert(e.contains(more[k]));
                if !e.contains(more.last()) {
                    let j = choose|j: int| 0 <= j < e.len() && e[j] == more[k];
                    assert(r[j] == more[k]);
                }
            } else if !e.contains(more.last()) {
                assert(r[e.len() as int] == more.last());
            }
        }
        if !e.contains(more.last()) {
            assert(r.subrange(0, deps.len() as int) =~= e.subrange(0, deps.len() as int));
        }
    }
}

/// Adding sources that are all there already adds nothing.
pub proof fn lemma_add_missing_present(deps: Seq<Seq<char>>, more: Seq<Seq<char>>)
    requires
        forall|k: int| 0 <= k < more.len() ==> deps.contains(#[trigger] more[k]),
    ensures
        add_missing(deps, more) == deps,
    decreases more.len(),
{
    if more.len() > 0 {
        assert forall|k: int| 0 <= k < more.drop_last().len() implies deps.contains(#[trigger] more.drop_last()[k]) by {
            assert(more.drop_last()[k] == more[k]);
        }
        lemma_add_missing_present(deps, more.drop_last());
        assert(deps.contains(more[more.len() - 1]));
    }
}

/// Folding a node's implied edges in twice adds nothing the first time
/// did not: a node that already lists a source gets no duplicate.
pub proof fn law_expanding_twice_adds_no_edge(first: Node, once: Node, twice: Node)
    requires
        expanded(first, once),
        expanded(once, twice),
    ensures
        texts(twice.depends_on@) == texts(once.depends_on@),
{
    assert(mount_sources(once.kind) == mount_sources(first.kind));
    assert(implied_sources(once) == implied_sources(first));
    let m = implied_sources(first);
    lemma_add_missing_covers(texts(first.depends_on@), m);
    lemma_add_missing_present(texts(once.depends_on@), m);
}

/// The workflow a run freezes into its manifest: runner fan-out expanded
/// first, so each sibling reads its own context, then every node's
/// implied edges folded into its `depends_on`.
pub fn expand_workflow(workflow: &mut Workflow)
    ensures
        final(workflow).name == old(workflow).name,
        exists|fanned_out: Seq<Node>|
            crate::fanout::fanned(old(workflow).nodes@, old(workflow).nodes@, fanned_out)
                && all_expanded(fanned_out, final(workflow).nodes@),
{
    crate::fanout::expand_runner_fanout(workflow);
    let ghost fanned_out = workflow.nodes@;
    expand_implicit_dependencies(workflow);
    proof {
        assert(crate::fanout::fanned(old(workflow).nodes@, old(workflow).nodes@, fanned_out));
    }
}

} // verus!
