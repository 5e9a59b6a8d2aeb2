//! Where a run's files live, as paths spelled out in text.

use vstd::prelude::*;
use vstd::string::{StrSliceExecFns, StringExecFns};

verus! {

/// `base` joined with `rel` the way a path is extended: an absolute `rel`
/// replaces `base`; otherwise one `/` separates them unless `base` is
/// empty or already ends in one.
pub open spec fn path_join(base: Seq<char>, rel: Seq<char>) -> Seq<char> {
    if rel.len() > 0 && rel[0] == '/' {
        rel
    } else if base.len() == 0 || base.last() == '/' {
        base + rel
    } else {
        base + seq!['/'] + rel
    }
}

/// `base` joined with `rel`.
pub fn join(base: &str, rel: &str) -> (joined: String)
    ensures
        joined@ == path_join(base@, rel@),
{
    proof {
        reveal_strlit("/");
    }
    let rel_len = rel.unicode_len();
    if rel_len > 0 && rel.get_char(0) == '/' {
        return rel.to_string();
    }
    let base_len = base.unicode_len();
    let mut joined = base.to_string();
    if base_len > 0 && base.get_char(base_len - 1) != '/' {
        joined.append("/");
    }
    joined.append(rel);
    proof {
        assert("/"@ =~= seq!['/']);
    }
    joined
}

/// The registry's place under the run directory.
pub open spec fn registry_file() -> Seq<char> {
    "scratch/engine.json"@
}

/// Where a run's process registry lives: `run.dir/scratch/engine.json`.
pub fn registry_path(run_dir: &str) -> (path: String)
    ensures
        path@ == path_join(run_dir@, registry_file()),
{
    join(run_dir, "scratch/engine.json")
}

/// Whether a run works in a worktree of its own or in the caller's
/// checkout.
#[derive(Debug, Clone, Copy, PartialEq, Eq)]
pub enum Isolation {
    Worktree,
    Shared,
}

/// Where a successor is placed: the runs root its run directory goes under
/// and the worktrees root its tree goes under.
#[derive(Debug, Clone, PartialEq, Eq)]
pub struct RunRoots {
    pub runs: String,
    pub worktrees: String,
}

impl RunRoots {
    /// The tree a promotion successor works in: a worktree of its own
    /// under the worktrees root, named by its id, or — without isolation —
    /// the predecessor's own checkout.
    pub fn successor_worktree(&self, isolation: Isolation, successor_id: &str, predecessor_worktree: &str) -> (tree: String)
        ensures
            isolation == Isolation::Worktree ==> tree@ == path_join(self.worktrees@, successor_id@),
            isolation == Isolation::Shared ==> tree@ == predecessor_worktree@,
    {
        match isolation {
            Isolation::Worktree => join(self.worktrees.as_str(), successor_id),
            Isolation::Shared => predecessor_worktree.to_string(),
        }
    }
}

} // verus!
