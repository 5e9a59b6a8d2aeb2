//! The variables a node's own text is rendered with. Rendering itself is
//! the caller's.

use vstd::prelude::*;
use vstd::string::StringExecFns;

verus! {

/// What the merged configuration's `project:` group declares.
#[derive(Debug, Clone, PartialEq, Eq)]
pub struct ProjectVars {
    pub name: Option<String>,
    pub base_branch: Option<String>,
    pub branch_prefix: Option<String>,
}

/// The bindings a list of name-value pairs makes, a later pair replacing
/// an earlier one of the same name.
pub open spec fn bindings(pairs: Seq<(String, String)>) -> Map<Seq<char>, Seq<char>>
    decreases pairs.len(),
{
    if pairs.len() == 0 {
        Map::empty()
    } else {
        bindings(pairs.drop_last()).insert(pairs.last().0@, pairs.last().1@)
    }
}

/// `vars` with `name` bound to `value`, when there is one.
pub open spec fn bind_optional(vars: Map<Seq<char>, Seq<char>>, name: Seq<char>, value: Option<String>) -> Map<Seq<char>, Seq<char>> {
    match value {
        Some(v) => vars.insert(name, v@),
        None => vars,
    }
}

/// `vars` with each input bound under `inputs.` and its name, in order.
pub open spec fn bind_inputs(vars: Map<Seq<char>, Seq<char>>, inputs: Seq<(String, String)>) -> Map<Seq<char>, Seq<char>>
    decreases inputs.len(),
{
    if inputs.len() == 0 {
        vars
    } else {
        bind_inputs(vars, inputs.drop_last()).insert("inputs."@ + inputs.last().0@, inputs.last().1@)
    }
}

/// A node's template variables: `run.dir`, `run.worktree` and
/// `run.branch` always; `runner.role` when the node declares its own
/// runner role (the role, never what it resolves to); each `project.*`
/// the configuration declares; and every input the run resolved.
pub open spec fn template_vars_spec(
    run_dir: Seq<char>,
    worktree: Seq<char>,
    run_id: Seq<char>,
    role: Option<String>,
    project: Option<ProjectVars>,
    inputs: Seq<(String, String)>,
) -> Map<Seq<char>, Seq<char>> {
    let base = Map::<Seq<char>, Seq<char>>::empty().insert("run.dir"@, run_dir).insert("run.worktree"@, worktree).insert(
        "run.branch"@,
        "yunta/"@ + run_id,
    );
    let with_role = bind_optional(base, "runner.role"@, role);
    let with_project = match project {
        Some(p) => bind_optional(
            bind_optional(bind_optional(with_role, "project.name"@, p.name), "project.base_branch"@, p.base_branch),
            "project.branch_prefix"@,
            p.branch_prefix,
        ),
        None => with_role,
    };
    bind_inputs(with_project, inputs)
}

fn push_optional(vars: &mut Vec<(String, String)>, name: &str, value: &Option<String>)
    ensures
        bindings(final(vars)@) == bind_optional(bindings(old(vars)@), name@, *value),
{
    if let Some(v) = value {
        let ghost before = vars@;
        vars.push((name.to_string(), v.clone()));
        proof { assert(vars@.drop_last() =~= before); }
    }
}

/// The variables a node's text is rendered with, as name-value pairs.
pub fn template_vars(
    run_dir: &String,
    worktree: &String,
    run_id: &String,
    role: &Option<String>,
    project: &Option<ProjectVars>,
    inputs: &Vec<(String, String)>,
) -> (vars: Vec<(String, String)>)
    ensures
        bindings(vars@) == template_vars_spec(run_dir@, worktree@, run_id@, *role, *project, inputs@),
{
    let mut vars: Vec<(String, String)> = Vec::new();
    let ghost v0 = vars@;
    vars.push((String::from_str("run.dir"), run_dir.clone()));
    let ghost v1 = vars@;
    vars.push((String::from_str("run.worktree"), worktree.clone()));
    let ghost v2 = vars@;
    let mut branch = String::from_str("yunta/");
    branch.append(run_id.as_str());
    vars.push((String::from_str("run.branch"), branch));
    proof {
        assert(vars@.drop_last() =~= v2);
        assert(v2.drop_last() =~= v1);
        assert(v1.drop_last() =~= v0);
        assert(bindings(v0) == Map::<Seq<char>, Seq<char>>::empty());
        assert(bindings(v1) == Map::<Seq<char>, Seq<char>>::empty().insert("run.dir"@, run_dir@));
        assert(bindings(v2) == Map::<Seq<char>, Seq<char>>::empty().insert("run.dir"@, run_dir@).insert("run.worktree"@, worktree@));
    }
    let ghost base = bindings(vars@);
    assert(base == Map::<Seq<char>, Seq<char>>::empty().insert("run.dir"@, run_dir@).insert("run.worktree"@, worktree@).insert(
        "run.branch"@,
        "yunta/"@ + run_id@,
    ));
    push_optional(&mut vars, "runner.role", role);
    let ghost with_role = bindings(vars@);
    if let Some(p) = project {
        push_optional(&mut vars, "project.name", &p.name);
        push_optional(&mut vars, "project.base_branch", &p.base_branch);
        push_optional(&mut vars, "project.branch_prefix", &p.branch_prefix);
    }
    let ghost start = vars@;
    assert(bindings(start) == match *project {
        Some(p) => bind_optional(
            bind_optional(bind_optional(with_role, "project.name"@, p.name), "project.base_branch"@, p.base_branch),
            "project.branch_prefix"@,
            p.branch_prefix,
        ),
        None => with_role,
    });
    proof { assert(inputs@.take(0) =~= Seq::<(String, String)>::empty()); }
    let mut i: usize = 0;
    while i < inputs.len()
        invariant
            i <= inputs@.len(),
            vars@.len() == start.len() + i,
            vars@.take(start.len() as int) == start,
            bindings(vars@) == bind_inputs(bindings(start), inputs@.take(i as int)),
        decreases inputs@.len() - i,
    {
        let mut name = String::from_str("inputs.");
        name.append(inputs[i].0.as_str());
        let ghost before = vars@;
        vars.push((name, inputs[i].1.clone()));
        proof {
            assert(vars@.drop_last() =~= before);
            assert(inputs@.take(i + 1).drop_last() =~= inputs@.take(i as int));
            assert(vars@.take(start.len() as int) =~= before.take(start.len() as int));
        }
        i = i + 1;
    }
    proof { assert(inputs@.take(i as int) =~= inputs@); }
    vars
}

} // verus!
