//! What a run's mode does to the workflow graph: which top-level nodes it
//! schedules, and what each of them waits on once the excluded nodes drop
//! out.

use vstd::prelude::*;
use vstd::string::StringExecFns;

use crate::text::{contains_text, push_unique, same_text, texts};
use crate::workflow::{
    copy_texts, find_node_index, last_node_index, lemma_last_node_index, node_ids, ModeEntry,
    ModeInclude, Node, Workflow,
};

verus! {

/// Whether a mode that selects `selected` (`None`: every node) schedules
/// the node `id`.
pub open spec fn in_mode(selected: Option<Seq<String>>, id: Seq<char>) -> bool {
    match selected {
        None => true,
        Some(ids) => texts(ids).contains(id),
    }
}

/// The dependencies a node declares, looked up by id (the last node
/// carrying it); nothing for an id no node carries.
pub open spec fn declared_deps(nodes: Seq<Node>, id: Seq<char>) -> Seq<Seq<char>> {
    match last_node_index(nodes, id) {
        Some(i) => texts(nodes[i].depends_on@),
        None => Seq::empty(),
    }
}

/// A chain of declared dependencies from `path[0]` whose every later
/// member the mode excludes.
pub open spec fn excluded_path(nodes: Seq<Node>, selected: Option<Seq<String>>, path: Seq<Seq<char>>) -> bool {
    &&& path.len() >= 2
    &&& forall|k: int| 1 <= k < path.len() ==>
            declared_deps(nodes, path[k - 1]).contains(#[trigger] path[k]) && !in_mode(selected, path[k])
}

/// `d` is what `from` waits on under the mode: an included dependency of
/// `from` itself, or of a node reached from `from` through excluded ones.
pub open spec fn mode_dependency(nodes: Seq<Node>, selected: Option<Seq<String>>, from: Seq<char>, d: Seq<char>) -> bool {
    &&& in_mode(selected, d)
    &&& (declared_deps(nodes, from).contains(d) || exists|path: Seq<Seq<char>>|
            #[trigger] excluded_path(nodes, selected, path) && path[0] == from
                && declared_deps(nodes, path.last()).contains(d))
}

/// `s` appended onto `acc`, each element kept only the first time it
/// appears.
pub open spec fn unique_append(acc: Seq<Seq<char>>, s: Seq<Seq<char>>) -> Seq<Seq<char>>
    decreases s.len(),
{
    if s.len() == 0 {
        acc
    } else {
        let r = unique_append(acc, s.drop_last());
        if r.contains(s.last()) { r } else { r.push(s.last()) }
    }
}

/// `s` in order, without duplicates.
pub open spec fn dedup(s: Seq<Seq<char>>) -> Seq<Seq<char>> {
    unique_append(Seq::empty(), s)
}

/// The dependencies one included node waits on under a mode.
#[derive(Debug, Clone, PartialEq, Eq)]
pub struct ModeDependencies {
    pub node: String,
    pub depends_on: Vec<String>,
}

spec fn count_false(s: Seq<bool>) -> nat
    decreases s.len(),
{
    if s.len() == 0 {
        0
    } else {
        count_false(s.drop_last()) + if s.last() { 0nat } else { 1nat }
    }
}

proof fn lemma_count_false_grow(a: Seq<bool>, b: Seq<bool>)
    requires
        a.len() == b.len(),
        forall|i: int| 0 <= i < a.len() && #[trigger] a[i] ==> b[i],
    ensures
        count_false(b) <= count_false(a),
        (exists|i: int| 0 <= i < a.len() && !a[i] && #[trigger] b[i]) ==> count_false(b) < count_false(a),
    decreases a.len(),
{
    if a.len() > 0 {
        assert forall|i: int| 0 <= i < a.drop_last().len() && #[trigger] a.drop_last()[i] implies b.drop_last()[i] by {
            assert(a[i]);
        }
        lemma_count_false_grow(a.drop_last(), b.drop_last());
        if exists|i: int| 0 <= i < a.len() && !a[i] && #[trigger] b[i] {
            let i = choose|i: int| 0 <= i < a.len() && !a[i] && #[trigger] b[i];
            if i < a.len() - 1 {
                assert(0 <= i < a.drop_last().len() && !a.drop_last()[i] && b.drop_last()[i]);
            }
        }
    }
}

/// Every dependency of the node at `k` has been handled: an included one
/// is in `out`, an excluded one that names a node has that node visited.
spec fn closed(nodes: Seq<Node>, selected: Option<Seq<String>>, visited: Seq<bool>, out: Seq<Seq<char>>, k: int) -> bool {
    forall|j: int| 0 <= j < nodes[k].depends_on@.len() ==> handled(nodes, selected, visited, out, #[trigger] nodes[k].depends_on@[j]@)
}

spec fn handled(nodes: Seq<Node>, selected: Option<Seq<String>>, visited: Seq<bool>, out: Seq<Seq<char>>, d: Seq<char>) -> bool {
    &&& in_mode(selected, d) ==> out.contains(d)
    &&& !in_mode(selected, d) ==> match last_node_index(nodes, d) {
        Some(m) => visited[m],
        None => true,
    }
}

/// Where the walk from `root` has been: the root itself, or a node reached
/// through excluded ones — each visited under the index a lookup finds.
spec fn reached(nodes: Seq<Node>, selected: Option<Seq<String>>, root: Seq<char>, visited: Seq<bool>) -> bool {
    forall|m: int| 0 <= m < visited.len() && #[trigger] visited[m] ==> {
        &&& last_node_index(nodes, nodes[m].id@) == Some(m)
        &&& (nodes[m].id@ == root || exists|path: Seq<Seq<char>>|
                #[trigger] excluded_path(nodes, selected, path) && path[0] == root && path.last() == nodes[m].id@)
    }
}

/// What the walk has produced so far is what `root` waits on, once each.
spec fn sound_out(nodes: Seq<Node>, selected: Option<Seq<String>>, root: Seq<char>, out: Seq<Seq<char>>) -> bool {
    &&& out.no_duplicates()
    &&& forall|i: int| 0 <= i < out.len() ==> mode_dependency(nodes, selected, root, #[trigger] out[i])
}

proof fn lemma_texts_push(list: Seq<String>, s: String)
    ensures
        texts(list.push(s)) == texts(list).push(s@),
{
    assert(texts(list.push(s)) =~= texts(list).push(s@));
}

proof fn lemma_handled_grow(
    nodes: Seq<Node>, selected: Option<Seq<String>>,
    v1: Seq<bool>, o1: Seq<Seq<char>>, v2: Seq<bool>, o2: Seq<Seq<char>>, d: Seq<char>,
)
    requires
        handled(nodes, selected, v1, o1, d),
        v1.len() == v2.len(),
        forall|i: int| 0 <= i < v1.len() && #[trigger] v1[i] ==> v2[i],
        o1.len() <= o2.len(),
        o2.subrange(0, o1.len() as int) == o1,
        !in_mode(selected, d) ==> (last_node_index(nodes, d) matches Some(m) ==> 0 <= m < v1.len()),
    ensures
        handled(nodes, selected, v2, o2, d),
{
    if in_mode(selected, d) {
        let i = choose|i: int| 0 <= i < o1.len() && o1[i] == d;
        assert(o2[i] == o1[i]);
    }
}

/// Walks the dependencies of the node at `k`, collecting the included
/// ones and descending into the excluded ones, each node at most once.
fn walk(
    nodes: &Vec<Node>,
    selected: Option<&Vec<String>>,
    root: Ghost<Seq<char>>,
    k: usize,
    visited: &mut Vec<bool>,
    out: &mut Vec<String>,
)
    requires
        k < nodes@.len(),
        old(visited)@.len() == nodes@.len(),
        old(visited)@[k as int],
        reached(nodes@, opt_texts(selected), root@, old(visited)@),
        sound_out(nodes@, opt_texts(selected), root@, texts(old(out)@)),
    ensures
        final(visited)@.len() == nodes@.len(),
        forall|i: int| 0 <= i < nodes@.len() && #[trigger] old(visited)@[i] ==> final(visited)@[i],
        old(out)@.len() <= final(out)@.len(),
        final(out)@.subrange(0, old(out)@.len() as int) == old(out)@,
        reached(nodes@, opt_texts(selected), root@, final(visited)@),
        sound_out(nodes@, opt_texts(selected), root@, texts(final(out)@)),
        closed(nodes@, opt_texts(selected), final(visited)@, texts(final(out)@), k as int),
        forall|i: int| 0 <= i < nodes@.len() && #[trigger] final(visited)@[i] && !old(visited)@[i]
            ==> closed(nodes@, opt_texts(selected), final(visited)@, texts(final(out)@), i),
        (forall|j: int| 0 <= j < nodes@[k as int].depends_on@.len()
            ==> in_mode(opt_texts(selected), #[trigger] nodes@[k as int].depends_on@[j]@))
            ==> texts(final(out)@) == unique_append(texts(old(out)@), texts(nodes@[k as int].depends_on@)),
    decreases count_false(old(visited)@),
{
    let ghost sel = opt_texts(selected);
    let ghost v0 = visited@;
    let ghost o0 = out@;
    let deps = &nodes[k].depends_on;
    let mut j: usize = 0;
    while j < deps.len()
        invariant
            deps == &nodes@[k as int].depends_on,
            sel == opt_texts(selected),
            k < nodes@.len(),
            j <= deps@.len(),
            visited@.len() == nodes@.len(),
            v0.len() == nodes@.len(),
            v0 == old(visited)@,
            v0[k as int],
            forall|i: int| 0 <= i < nodes@.len() && #[trigger] v0[i] ==> visited@[i],
            count_false(visited@) <= count_false(v0),
            o0.len() <= out@.len(),
            out@.subrange(0, o0.len() as int) == o0,
            reached(nodes@, sel, root@, visited@),
            sound_out(nodes@, sel, root@, texts(out@)),
            forall|jj: int| 0 <= jj < j ==> handled(nodes@, sel, visited@, texts(out@), #[trigger] deps@[jj]@),
            forall|i: int| 0 <= i < nodes@.len() && #[trigger] visited@[i] && !v0[i]
                ==> closed(nodes@, sel, visited@, texts(out@), i),
            (forall|jj: int| 0 <= jj < deps@.len() ==> in_mode(sel, #[trigger] deps@[jj]@))
                ==> texts(out@) == unique_append(texts(o0), texts(deps@.subrange(0, j as int))),
        decreases deps@.len() - j,
    {
        let dep = &deps[j];
        let ghost vb = visited@;
        let ghost ob = out@;
        proof {
            assert(reached(nodes@, sel, root@, v0));
            assert(last_node_index(nodes@, nodes@[k as int].id@) == Some(k as int));
            assert(declared_deps(nodes@, nodes@[k as int].id@) == texts(deps@));
            assert(texts(deps@)[j as int] == dep@);
        }
        let included = match selected {
            None => true,
            Some(ids) => contains_text(ids, dep),
        };
        if included {
            proof {
                lemma_texts_push(out@, *dep);
                // `dep` is what `root` waits on: directly, or through the path to `k`.
                if nodes@[k as int].id@ != root@ {
                    let path = choose|path: Seq<Seq<char>>|
                        #[trigger] excluded_path(nodes@, sel, path) && path[0] == root@ && path.last() == nodes@[k as int].id@;
                    assert(declared_deps(nodes@, path.last()).contains(dep@));
                } else {
                    assert(declared_deps(nodes@, root@).contains(dep@));
                }
                assert(mode_dependency(nodes@, sel, root@, dep@));
                assert(deps@.subrange(0, j + 1).drop_last() =~= deps@.subrange(0, j as int));
                assert(texts(deps@.subrange(0, j + 1)) =~= texts(deps@.subrange(0, j as int)).push(dep@));
                assert(texts(deps@.subrange(0, j + 1)).drop_last() =~= texts(deps@.subrange(0, j as int)));
            }
            push_unique(out, dep.clone());
            proof {
                assert(texts(out@).contains(dep@)) by {
                    if texts(ob).contains(dep@) {
                        let i = choose|i: int| 0 <= i < texts(ob).len() && texts(ob)[i] == dep@;
                        assert(texts(out@)[i] == dep@);
                    } else {
                        assert(texts(out@)[ob.len() as int] == dep@);
                    }
                }
                assert(out@.subrange(0, ob.len() as int) =~= ob);
                assert(out@.subrange(0, o0.len() as int) =~= o0) by {
                    assert(ob.subrange(0, o0.len() as int) =~= o0);
                }
                assert forall|jj: int| 0 <= jj < j + 1 implies handled(nodes@, sel, visited@, texts(out@), #[trigger] deps@[jj]@) by {
                    if jj < j {
                        lemma_texts_prefix(ob, out@);
                        lemma_last_node_index(nodes@, deps@[jj]@);
                        lemma_handled_grow(nodes@, sel, visited@, texts(ob), visited@, texts(out@), deps@[jj]@);
                    }
                }
                assert forall|i: int| 0 <= i < nodes@.len() && #[trigger] visited@[i] && !v0[i]
                    implies closed(nodes@, sel, visited@, texts(out@), i) by {
                    lemma_texts_prefix(ob, out@);
                    assert forall|jj: int| 0 <= jj < nodes@[i].depends_on@.len()
                        implies handled(nodes@, sel, visited@, texts(out@), #[trigger] nodes@[i].depends_on@[jj]@) by {
                        lemma_last_node_index(nodes@, nodes@[i].depends_on@[jj]@);
                        lemma_handled_grow(nodes@, sel, visited@, texts(ob), visited@, texts(out@), nodes@[i].depends_on@[jj]@);
                    }
                }
            }
        } else if let Some(m) = find_node_index(nodes, dep) {
            proof {
                lemma_last_node_index(nodes@, dep@);
            }
            if !visited[m] {
                visited.set(m, true);
                proof {
                    // `m` is reached: extend the path to `k` by `dep`.
                    assert forall|i: int| 0 <= i < vb.len() && #[trigger] vb[i] implies visited@[i] by {}
                    lemma_count_false_grow(vb, visited@);
                    assert(0 <= m < vb.len() && !vb[m as int] && visited@[m as int]);
                    assert(reached(nodes@, sel, root@, visited@)) by {
                        assert forall|mm: int| 0 <= mm < visited@.len() && #[trigger] visited@[mm] implies {
                            &&& last_node_index(nodes@, nodes@[mm].id@) == Some(mm)
                            &&& (nodes@[mm].id@ == root@ || exists|path: Seq<Seq<char>>|
                                    #[trigger] excluded_path(nodes@, sel, path) && path[0] == root@ && path.last() == nodes@[mm].id@)
                        } by {
                            if mm == m {
                                assert(nodes@[mm].id@ == dep@);
                                if nodes@[k as int].id@ == root@ {
                                    let path = seq![root@, dep@];
                                    assert(declared_deps(nodes@, path[0]).contains(path[1]));
                                    assert(excluded_path(nodes@, sel, path));
                                    assert(path.last() == nodes@[mm].id@);
                                } else {
                                    let p0 = choose|path: Seq<Seq<char>>|
                                        #[trigger] excluded_path(nodes@, sel, path) && path[0] == root@ && path.last() == nodes@[k as int].id@;
                                    let path = p0.push(dep@);
                                    assert(declared_deps(nodes@, path[p0.len() - 1]).contains(path[p0.len() as int]));
                                    assert forall|kk: int| 1 <= kk < path.len() implies
                                        declared_deps(nodes@, path[kk - 1]).contains(#[trigger] path[kk]) && !in_mode(sel, path[kk]) by {
                                        if kk < p0.len() {
                                            assert(path[kk] == p0[kk]);
                                            assert(path[kk - 1] == p0[kk - 1]);
                                        }
                                    }
                                    assert(excluded_path(nodes@, sel, path));
                                    assert(path.last() == nodes@[mm].id@);
                                }
                            } else {
                                assert(vb[mm]);
                            }
                        }
                    }
                }
                assert(count_false(visited@) < count_false(v0));
                walk(nodes, selected, root, m, visited, out);
                proof {
                    lemma_texts_prefix(ob, out@);
                    assert(out@.subrange(0, o0.len() as int) =~= o0) by {
                        assert(ob.subrange(0, o0.len() as int) =~= o0);
                        assert(out@.subrange(0, ob.len() as int) =~= ob);
                    }
                    assert forall|jj: int| 0 <= jj < j + 1 implies handled(nodes@, sel, visited@, texts(out@), #[trigger] deps@[jj]@) by {
                        lemma_last_node_index(nodes@, deps@[jj]@);
                        if jj < j {
                            lemma_handled_grow(nodes@, sel, vb, texts(ob), visited@, texts(out@), deps@[jj]@);
                        }
                    }
                    assert forall|i: int| 0 <= i < nodes@.len() && #[trigger] visited@[i] && !v0[i]
                        implies closed(nodes@, sel, visited@, texts(out@), i) by {
                        if vb[i] && i != m {
                            assert forall|jj: int| 0 <= jj < nodes@[i].depends_on@.len()
                                implies handled(nodes@, sel, visited@, texts(out@), #[trigger] nodes@[i].depends_on@[jj]@) by {
                                lemma_last_node_index(nodes@, nodes@[i].depends_on@[jj]@);
                                lemma_handled_grow(nodes@, sel, vb, texts(ob), visited@, texts(out@), nodes@[i].depends_on@[jj]@);
                            }
                        }
                    }
                    assert forall|i: int| 0 <= i < vb.len() && #[trigger] vb[i] implies visited@[i] by {}
                    lemma_count_false_grow(vb, visited@);
                }
            } else {
                proof {
                    lemma_last_node_index(nodes@, dep@);
                    assert(handled(nodes@, sel, visited@, texts(out@), dep@));
                }
            }
        } else {
            proof {
                assert(handled(nodes@, sel, visited@, texts(out@), dep@));
            }
        }
        j = j + 1;
    }
    proof {
        assert(deps@.subrange(0, deps@.len() as int) =~= deps@);
        assert forall|jj: int| 0 <= jj < nodes@[k as int].depends_on@.len()
            implies handled(nodes@, sel, visited@, texts(out@), #[trigger] nodes@[k as int].depends_on@[jj]@) by {
            assert(deps@[jj] == nodes@[k as int].depends_on@[jj]);
        }
    }
}

proof fn lemma_texts_prefix(a: Seq<String>, b: Seq<String>)
    requires
        a.len() <= b.len(),
        b.subrange(0, a.len() as int) == a,
    ensures
        texts(b).subrange(0, a.len() as int) == texts(a),
        texts(a).len() <= texts(b).len(),
{
    assert(texts(b).subrange(0, a.len() as int) =~= texts(a)) by {
        assert forall|i: int| 0 <= i < a.len() implies texts(b)[i] == texts(a)[i] by {
            assert(b[i] == b.subrange(0, a.len() as int)[i]);
        }
    }
}

/// The texts an optional list of ids spells.
pub open spec fn opt_texts(selected: Option<&Vec<String>>) -> Option<Seq<String>> {
    match selected {
        Some(ids) => Some(ids@),
        None => None,
    }
}


/// Along an excluded path from the root, every member that names a node
/// is visited once the walk has closed every visited node.
proof fn lemma_path_visited(
    nodes: Seq<Node>, selected: Option<Seq<String>>, visited: Seq<bool>, out: Seq<Seq<char>>,
    root_index: int, path: Seq<Seq<char>>, k: int,
)
    requires
        visited.len() == nodes.len(),
        0 <= root_index < nodes.len(),
        last_node_index(nodes, nodes[root_index].id@) == Some(root_index),
        forall|i: int| 0 <= i < nodes.len() && #[trigger] visited[i] ==> closed(nodes, selected, visited, out, i),
        visited[root_index],
        excluded_path(nodes, selected, path),
        path[0] == nodes[root_index].id@,
        1 <= k < path.len(),
        last_node_index(nodes, path[k]) is Some,
    ensures
        visited[last_node_index(nodes, path[k]).unwrap()],
    decreases k,
{
    let prev = path[k - 1];
    assert(declared_deps(nodes, prev).contains(path[k]));
    let pi: int = if k == 1 {
        root_index
    } else {
        lemma_last_node_index(nodes, prev);
        if last_node_index(nodes, prev) is None {
            assert(declared_deps(nodes, prev).len() == 0);
        }
        lemma_path_visited(nodes, selected, visited, out, root_index, path, k - 1);
        last_node_index(nodes, prev).unwrap()
    };
    lemma_last_node_index(nodes, prev);
    assert(last_node_index(nodes, prev) == Some(pi));
    let j = choose|j: int| 0 <= j < texts(nodes[pi].depends_on@).len() && texts(nodes[pi].depends_on@)[j] == path[k];
    assert(closed(nodes, selected, visited, out, pi));
    assert(handled(nodes, selected, visited, out, nodes[pi].depends_on@[j]@));
    lemma_last_node_index(nodes, path[k]);
}

/// What the node at `root_index` waits on under the mode, in the order a
/// depth-first walk of its declared dependencies meets them.
fn effective_dependencies(nodes: &Vec<Node>, selected: Option<&Vec<String>>, root_index: usize) -> (deps: Vec<String>)
    requires
        root_index < nodes@.len(),
        last_node_index(nodes@, nodes@[root_index as int].id@) == Some(root_index as int),
    ensures
        texts(deps@).no_duplicates(),
        forall|d: Seq<char>| #[trigger] texts(deps@).contains(d)
            <==> mode_dependency(nodes@, opt_texts(selected), nodes@[root_index as int].id@, d),
        (forall|j: int| 0 <= j < declared_deps(nodes@, nodes@[root_index as int].id@).len()
            ==> in_mode(opt_texts(selected), #[trigger] declared_deps(nodes@, nodes@[root_index as int].id@)[j]))
            ==> texts(deps@) == dedup(declared_deps(nodes@, nodes@[root_index as int].id@)),
{
    let ghost sel = opt_texts(selected);
    let ghost root = nodes@[root_index as int].id@;
    let mut visited: Vec<bool> = Vec::new();
    let mut i: usize = 0;
    while i < nodes.len()
        invariant
            i <= nodes@.len(),
            visited@.len() == i,
            forall|m: int| 0 <= m < i ==> !#[trigger] visited@[m],
        decreases nodes@.len() - i,
    {
        visited.push(false);
        i = i + 1;
    }
    visited.set(root_index, true);
    let mut out: Vec<String> = Vec::new();
    proof {
        assert(reached(nodes@, sel, root, visited@)) by {
            assert forall|m: int| 0 <= m < visited@.len() && #[trigger] visited@[m] implies m == root_index by {}
        }
        assert(texts(out@) =~= Seq::<Seq<char>>::empty());
    }
    let ghost v_pre = visited@;
    walk(nodes, selected, Ghost(root), root_index, &mut visited, &mut out);
    proof {
        let v = visited@;
        assert(v_pre[root_index as int]);
        assert(v[root_index as int]);
        let o = texts(out@);
        assert forall|i: int| 0 <= i < nodes@.len() && #[trigger] v[i] implies closed(nodes@, sel, v, o, i) by {
            if i != root_index {
                assert(!(i == root_index));
            }
        }
        assert forall|d: Seq<char>| mode_dependency(nodes@, sel, root, d) implies #[trigger] o.contains(d) by {
            {
                if declared_deps(nodes@, root).contains(d) {
                    let j = choose|j: int| 0 <= j < declared_deps(nodes@, root).len() && declared_deps(nodes@, root)[j] == d;
                    assert(handled(nodes@, sel, v, o, nodes@[root_index as int].depends_on@[j]@));
                } else {
                    let path = choose|path: Seq<Seq<char>>|
                        #[trigger] excluded_path(nodes@, sel, path) && path[0] == root && declared_deps(nodes@, path.last()).contains(d);
                    let last = path.last();
                    lemma_last_node_index(nodes@, last);
                    if last_node_index(nodes@, last) is None {
                        assert(declared_deps(nodes@, last).len() == 0);
                    }
                    lemma_path_visited(nodes@, sel, v, o, root_index as int, path, path.len() - 1);
                    let li = last_node_index(nodes@, last).unwrap();
                    let j = choose|j: int| 0 <= j < texts(nodes@[li].depends_on@).len() && texts(nodes@[li].depends_on@)[j] == d;
                    assert(closed(nodes@, sel, v, o, li));
                    assert(handled(nodes@, sel, v, o, nodes@[li].depends_on@[j]@));
                }
            }
        }
        assert forall|d: Seq<char>| #[trigger] o.contains(d) implies mode_dependency(nodes@, sel, root, d) by {
            let i = choose|i: int| 0 <= i < o.len() && o[i] == d;
        }
        assert(out@.subrange(0, 0) =~= Seq::<String>::empty());
        assert(texts(Seq::<String>::empty()) =~= Seq::<Seq<char>>::empty());
        assert(declared_deps(nodes@, root) == texts(nodes@[root_index as int].depends_on@));
        if forall|j: int| 0 <= j < declared_deps(nodes@, root).len() ==> in_mode(sel, #[trigger] declared_deps(nodes@, root)[j]) {
            assert forall|j: int| 0 <= j < nodes@[root_index as int].depends_on@.len()
                implies in_mode(sel, #[trigger] nodes@[root_index as int].depends_on@[j]@) by {
                assert(declared_deps(nodes@, root)[j] == nodes@[root_index as int].depends_on@[j]@);
            }
        }
    }
    out
}


/// The ids a mode named `name` selects: `None` when the workflow declares
/// no modes, names no such mode, or the mode selects every node.
pub open spec fn mode_selection(modes: Option<Vec<ModeEntry>>, name: Seq<char>) -> Option<Seq<String>> {
    match modes {
        None => None,
        Some(entries) => match first_mode_index(entries@, name, 0) {
            None => None,
            Some(i) => match entries@[i].selects {
                ModeInclude::All => None,
                ModeInclude::Nodes(ids) => Some(ids@),
            },
        },
    }
}

/// The first mode at or after `from` called `name`.
pub open spec fn first_mode_index(entries: Seq<ModeEntry>, name: Seq<char>, from: int) -> Option<int>
    decreases entries.len() - from,
{
    if from < 0 || from >= entries.len() {
        None
    } else if entries[from].name@ == name {
        Some(from)
    } else {
        first_mode_index(entries, name, from + 1)
    }
}

/// The position of the mode called `name` among `entries`.
pub fn find_mode(entries: &Vec<ModeEntry>, name: &String) -> (found: Option<usize>)
    ensures
        found matches Some(i) ==> i < entries@.len() && first_mode_index(entries@, name@, 0) == Some(i as int),
        found is None ==> first_mode_index(entries@, name@, 0) is None,
{
    let mut i: usize = 0;
    while i < entries.len()
        invariant
            i <= entries@.len(),
            first_mode_index(entries@, name@, 0) == first_mode_index(entries@, name@, i as int),
        decreases entries@.len() - i,
    {
        if same_text(&entries[i].name, name) {
            return Some(i);
        }
        i = i + 1;
    }
    None
}

/// The top-level node ids `mode_name` makes schedulable, or `None` when
/// nothing narrows the graph — no `modes:` declared at all, no mode of
/// that name, or the mode's own `include: all`.
pub fn mode_included_nodes(workflow: &Workflow, mode_name: &String) -> (selected: Option<Vec<String>>)
    ensures
        selected matches Some(ids) ==> mode_selection(workflow.modes, mode_name@) == Some(ids@),
        selected is None ==> mode_selection(workflow.modes, mode_name@) is None,
{
    let modes = match &workflow.modes {
        Some(modes) => modes,
        None => return None,
    };
    let i = match find_mode(modes, mode_name) {
        Some(i) => i,
        None => return None,
    };
    match &modes[i].selects {
        ModeInclude::All => None,
        ModeInclude::Nodes(ids) => Some(copy_texts(ids)),
    }
}

/// The dependencies each included top-level node waits on under a mode.
///
/// An included dependency stays as declared. An excluded one is replaced
/// by that node's own dependencies, transitively, so a mode that cuts a
/// node out of a chain keeps the chain's order instead of snapping the
/// edge. Each list holds every dependency once; a node the mode excludes
/// has no entry. `selected: None` (nothing narrows the graph) returns
/// every node's declared list, each dependency kept once.
///
/// A `depends_on` cycle through excluded nodes ends the walk where it
/// closes: each node is walked at most once per entry.
pub fn dependencies_in_mode(workflow: &Workflow, selected: Option<&Vec<String>>) -> (deps: Vec<ModeDependencies>)
    ensures
        forall|i: int| 0 <= i < deps@.len() ==> in_mode(opt_texts(selected), #[trigger] deps@[i].node@)
            && node_ids(workflow.nodes@).contains(deps@[i].node@),
        forall|i: int, j: int| 0 <= i < j < deps@.len() ==> #[trigger] deps@[i].node@ != #[trigger] deps@[j].node@,
        forall|m: int| 0 <= m < workflow.nodes@.len() && in_mode(opt_texts(selected), #[trigger] workflow.nodes@[m].id@)
            ==> exists|i: int| 0 <= i < deps@.len() && #[trigger] deps@[i].node@ == workflow.nodes@[m].id@,
        forall|i: int| 0 <= i < deps@.len() ==> #[trigger] texts(deps@[i].depends_on@).no_duplicates(),
        forall|i: int, d: Seq<char>| 0 <= i < deps@.len() ==>
            (#[trigger] texts(deps@[i].depends_on@).contains(d)
                <==> mode_dependency(workflow.nodes@, opt_texts(selected), deps@[i].node@, d)),
        forall|i: int| 0 <= i < deps@.len() && (forall|j: int| 0 <= j < declared_deps(workflow.nodes@, deps@[i].node@).len()
            ==> in_mode(opt_texts(selected), #[trigger] declared_deps(workflow.nodes@, deps@[i].node@)[j]))
            ==> texts(#[trigger] deps@[i].depends_on@) == dedup(declared_deps(workflow.nodes@, deps@[i].node@)),
{
    let nodes = &workflow.nodes;
    let mut deps: Vec<ModeDependencies> = Vec::new();
    let mut i: usize = 0;
    while i < nodes.len()
        invariant
            nodes == &workflow.nodes,
            i <= nodes@.len(),
            forall|k: int| 0 <= k < deps@.len() ==> in_mode(opt_texts(selected), #[trigger] deps@[k].node@)
                && node_ids(nodes@).contains(deps@[k].node@),
            forall|k: int, l: int| 0 <= k < l < deps@.len() ==> #[trigger] deps@[k].node@ != #[trigger] deps@[l].node@,
            forall|m: int| 0 <= m < i && in_mode(opt_texts(selected), #[trigger] nodes@[m].id@)
                ==> exists|k: int| 0 <= k < deps@.len() && #[trigger] deps@[k].node@ == nodes@[m].id@,
            forall|k: int| 0 <= k < deps@.len() ==> #[trigger] texts(deps@[k].depends_on@).no_duplicates(),
            forall|k: int, d: Seq<char>| 0 <= k < deps@.len() ==>
                (#[trigger] texts(deps@[k].depends_on@).contains(d)
                    <==> mode_dependency(nodes@, opt_texts(selected), deps@[k].node@, d)),
            forall|k: int| 0 <= k < deps@.len() && (forall|j: int| 0 <= j < declared_deps(nodes@, deps@[k].node@).len()
                ==> in_mode(opt_texts(selected), #[trigger] declared_deps(nodes@, deps@[k].node@)[j]))
                ==> texts(#[trigger] deps@[k].depends_on@) == dedup(declared_deps(nodes@, deps@[k].node@)),
        decreases nodes@.len() - i,
    {
        let id = &nodes[i].id;
        let included = match selected {
            None => true,
            Some(ids) => contains_text(ids, id),
        };
        if included {
            let mut known = false;
            let mut k: usize = 0;
            while k < deps.len()
                invariant
                    k <= deps@.len(),
                    !known ==> forall|l: int| 0 <= l < k ==> #[trigger] deps@[l].node@ != id@,
                    known ==> exists|l: int| 0 <= l < deps@.len() && #[trigger] deps@[l].node@ == id@,
                decreases deps@.len() - k,
            {
                if same_text(&deps[k].node, id) {
                    known = true;
                }
                k = k + 1;
            }
            if !known {
                proof {
                    lemma_last_node_index(nodes@, id@);
                }
                let root_index = find_node_index(nodes, id).unwrap();
                proof {
                    lemma_last_node_index(nodes@, nodes@[root_index as int].id@);
                }
                let depends_on = effective_dependencies(nodes, selected, root_index);
                let ghost before = deps@;
                deps.push(ModeDependencies { node: id.clone(), depends_on });
                proof {
                    assert(node_ids(nodes@)[i as int] == id@);
                    assert forall|m: int| 0 <= m < i + 1 && in_mode(opt_texts(selected), #[trigger] nodes@[m].id@)
                        implies exists|k: int| 0 <= k < deps@.len() && #[trigger] deps@[k].node@ == nodes@[m].id@ by {
                        if m < i {
                            let k = choose|k: int| 0 <= k < before.len() && #[trigger] before[k].node@ == nodes@[m].id@;
                            assert(deps@[k] == before[k]);
                        } else {
                            assert(deps@[before.len() as int].node@ == nodes@[m].id@);
                        }
                    }
                }
            }
        }
        i = i + 1;
    }
    deps
}

/// What `id` waits on under the mode the list was derived for; `None` for
/// a node the mode excludes.
pub fn dependencies_of<'a>(deps: &'a Vec<ModeDependencies>, id: &String) -> (found: Option<&'a Vec<String>>)
    ensures
        found matches Some(list) ==> exists|i: int| 0 <= i < deps@.len() && #[trigger] deps@[i].node@ == id@
            && deps@[i].depends_on == *list,
        found is None ==> forall|i: int| 0 <= i < deps@.len() ==> #[trigger] deps@[i].node@ != id@,
{
    let mut i: usize = 0;
    while i < deps.len()
        invariant
            i <= deps@.len(),
            forall|k: int| 0 <= k < i ==> #[trigger] deps@[k].node@ != id@,
        decreases deps@.len() - i,
    {
        if same_text(&deps[i].node, id) {
            return Some(&deps[i].depends_on);
        }
        i = i + 1;
    }
    None
}

/// A run asked for a mode its workflow does not declare.
#[derive(Debug, Clone, PartialEq, Eq)]
pub struct UnknownMode {
    pub workflow: String,
    pub mode: String,
    /// The modes the workflow does declare, as a reader is told them.
    pub declared: String,
}

/// The sentence an unknown mode is reported with.
pub open spec fn unknown_mode_message(error: UnknownMode) -> Seq<char> {
    "workflow `"@ + error.workflow@ + "` declares no mode `"@ + error.mode@ + "` \u{2014} declared modes: "@ + error.declared@
}

impl UnknownMode {
    /// The sentence this error is reported with.
    pub fn message(&self) -> (text: String)
        ensures
            text@ == unknown_mode_message(*self),
    {
        let mut text = String::from_str("workflow `");
        text.append(self.workflow.as_str());
        text.append("` declares no mode `");
        text.append(self.mode.as_str());
        text.append("` \u{2014} declared modes: ");
        text.append(self.declared.as_str());
        text
    }
}

/// The name a run asks for when nothing else applies: it always passes.
pub open spec fn default_mode_name() -> Seq<char> {
    "default"@
}

/// What a workflow that declares modes says it declares.
pub open spec fn declared_modes(entries: Seq<ModeEntry>) -> Seq<char> {
    crate::render::join_spec(entries.map_values(|e: ModeEntry| e.name@), ", "@)
}

/// Whether a run may be born in `mode`: the default name always may; a
/// workflow that declares modes refuses any name it does not declare,
/// and one that declares none refuses every other name.
pub open spec fn mode_check_spec(workflow: Workflow, mode: Seq<char>, result: Result<(), UnknownMode>) -> bool {
    if mode == default_mode_name() {
        result is Ok
    } else {
        match workflow.modes {
            Some(entries) => if first_mode_index(entries@, mode, 0) is Some {
                result is Ok
            } else {
                result matches Err(e) && e.workflow@ == workflow.name@ && e.mode@ == mode && e.declared@ == declared_modes(entries@)
            },
            None => result matches Err(e) && e.workflow@ == workflow.name@ && e.mode@ == mode
                && e.declared@ == "(none \u{2014} this workflow declares no modes:)"@,
        }
    }
}

/// Whether a run may be born in `mode`, caught before anything is
/// written.
pub fn check_mode(workflow: &Workflow, mode: &String) -> (result: Result<(), UnknownMode>)
    ensures
        mode_check_spec(*workflow, mode@, result),
{
    if crate::text::text_equals(mode.as_str(), "default") {
        return Ok(());
    }
    match &workflow.modes {
        Some(entries) => match find_mode(entries, mode) {
            Some(_) => Ok(()),
            None => {
                let mut names: Vec<String> = Vec::new();
                let mut i: usize = 0;
                while i < entries.len()
                    invariant
                        i <= entries@.len(),
                        texts(names@) == entries@.take(i as int).map_values(|e: ModeEntry| e.name@),
                    decreases entries@.len() - i,
                {
                    let ghost prev = names@;
                    names.push(entries[i].name.clone());
                    proof {
                        assert(texts(names@) =~= texts(prev).push(entries@[i as int].name@));
                        assert(entries@.take(i + 1).map_values(|e: ModeEntry| e.name@)
                            =~= entries@.take(i as int).map_values(|e: ModeEntry| e.name@).push(entries@[i as int].name@));
                    }
                    i = i + 1;
                }
                proof {
                    assert(entries@.take(entries@.len() as int) =~= entries@);
                }
                Err(UnknownMode { workflow: workflow.name.clone(), mode: mode.clone(), declared: crate::render::join(&names, ", ") })
            },
        },
        None => Err(UnknownMode {
            workflow: workflow.name.clone(),
            mode: mode.clone(),
            declared: String::from_str("(none \u{2014} this workflow declares no modes:)"),
        }),
    }
}

} // verus!
