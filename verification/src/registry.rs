//! What a run's process registry holds: the engine driving the run and
//! the process groups of the sessions, hooks and executors it has alive,
//! so that a separate process can find and signal a live run's whole
//! process tree. Writing and deleting the file is the caller's.

use vstd::prelude::*;

use crate::text::{lemma_filter_empty, lemma_filter_step};

verus! {

/// The version of the registry file's own schema.
pub const REGISTRY_SCHEMA_VERSION: u32 = 1;

/// The registry file's whole content.
#[derive(Debug, Clone, PartialEq, Eq)]
pub struct EngineProcessFile {
    pub schema_version: u32,
    /// The process driving the run: signalled first.
    pub engine_pid: u32,
    /// When this engine started, as its own clock read it (RFC 3339).
    pub started_at: String,
    /// Process-group ids of live sessions, hooks and executors.
    pub process_groups: Vec<u32>,
}

/// No group is registered twice.
pub open spec fn groups_unique(groups: Seq<u32>) -> bool {
    forall|i: int, j: int| 0 <= i < j < groups.len() ==> groups[i] != groups[j]
}

/// The groups once `pgid` is registered: unchanged when it already is.
pub open spec fn added(groups: Seq<u32>, pgid: u32) -> Seq<u32> {
    if groups.contains(pgid) {
        groups
    } else {
        groups.push(pgid)
    }
}

/// Whether a group is another one than `pgid`.
pub open spec fn other_than(pgid: u32) -> spec_fn(u32) -> bool {
    |g: u32| g != pgid
}

/// The groups once `pgid` is unregistered, the others in their order.
pub open spec fn removed(groups: Seq<u32>, pgid: u32) -> Seq<u32> {
    groups.filter(other_than(pgid))
}

impl EngineProcessFile {
    /// The file an engine writes when it starts: nothing registered yet.
    pub fn new(engine_pid: u32, started_at: String) -> (file: EngineProcessFile)
        ensures
            file.schema_version == REGISTRY_SCHEMA_VERSION,
            file.engine_pid == engine_pid,
            file.started_at@ == started_at@,
            file.process_groups@ == Seq::<u32>::empty(),
    {
        EngineProcessFile {
            schema_version: REGISTRY_SCHEMA_VERSION,
            engine_pid,
            started_at,
            process_groups: Vec::new(),
        }
    }

    /// Registers a spawned process group.
    pub fn add(&mut self, pgid: u32)
        ensures
            final(self).process_groups@ == added(old(self).process_groups@, pgid),
            final(self).engine_pid == old(self).engine_pid,
            final(self).schema_version == old(self).schema_version,
            final(self).started_at@ == old(self).started_at@,
    {
        let mut i: usize = 0;
        let mut present = false;
        while i < self.process_groups.len()
            invariant
                i <= self.process_groups@.len(),
                present == self.process_groups@.subrange(0, i as int).contains(pgid),
            decreases self.process_groups@.len() - i,
        {
            proof {
                let s = self.process_groups@;
                assert(s.subrange(0, i + 1) =~= s.subrange(0, i as int).push(s[i as int]));
                if s.subrange(0, i as int).contains(pgid) {
                    let k = choose|k: int| 0 <= k < i && s.subrange(0, i as int)[k] == pgid;
                    assert(s.subrange(0, i + 1)[k] == pgid);
                }
                if s[i as int] == pgid {
                    assert(s.subrange(0, i + 1)[i as int] == pgid);
                }
            }
            if self.process_groups[i] == pgid {
                present = true;
            }
            i = i + 1;
        }
        proof {
            assert(self.process_groups@.subrange(0, self.process_groups@.len() as int) =~= self.process_groups@);
        }
        if !present {
            self.process_groups.push(pgid);
        }
    }

    /// Unregisters a closed process group.
    pub fn remove(&mut self, pgid: u32)
        ensures
            final(self).process_groups@ == removed(old(self).process_groups@, pgid),
            final(self).engine_pid == old(self).engine_pid,
            final(self).schema_version == old(self).schema_version,
            final(self).started_at@ == old(self).started_at@,
    {
        let mut kept: Vec<u32> = Vec::new();
        let mut i: usize = 0;
        let ghost pred = other_than(pgid);
        proof {
            lemma_filter_empty(pred);
            assert(self.process_groups@.subrange(0, 0) =~= Seq::<u32>::empty());
        }
        while i < self.process_groups.len()
            invariant
                i <= self.process_groups@.len(),
                pred == other_than(pgid),
                kept@ == self.process_groups@.subrange(0, i as int).filter(pred),
            decreases self.process_groups@.len() - i,
        {
            proof {
                lemma_filter_step(self.process_groups@, pred, i as int);
            }
            let g = self.process_groups[i];
            if g != pgid {
                kept.push(g);
            }
            i = i + 1;
        }
        proof {
            assert(self.process_groups@.subrange(0, self.process_groups@.len() as int) =~= self.process_groups@);
        }
        self.process_groups = kept;
    }
}

/// Registering keeps every group registered once.
pub proof fn law_registering_never_repeats_a_group(groups: Seq<u32>, pgid: u32)
    requires
        groups_unique(groups),
    ensures
        groups_unique(added(groups, pgid)),
        added(groups, pgid).contains(pgid),
{
    let a = added(groups, pgid);
    if !groups.contains(pgid) {
        assert forall|i: int, j: int| 0 <= i < j < a.len() implies a[i] != a[j] by {
            if j == groups.len() {
                assert(groups[i] == a[i]);
            }
        }
        assert(a[groups.len() as int] == pgid);
    }
}

/// An unregistered group is gone, every other one stays, and
/// unregistering what was just registered leaves the registry as
/// unregistering alone would.
pub proof fn law_unregistering_forgets_exactly_that_group(groups: Seq<u32>, pgid: u32, other: u32)
    ensures
        !removed(groups, pgid).contains(pgid),
        other != pgid ==> (removed(groups, pgid).contains(other) == groups.contains(other)),
        removed(added(groups, pgid), pgid) == removed(groups, pgid),
{
    let pred = other_than(pgid);
    let r = removed(groups, pgid);
    if r.contains(pgid) {
        let k = choose|k: int| 0 <= k < r.len() && r[k] == pgid;
        groups.lemma_filter_pred(pred, k);
    }
    if other != pgid {
        if groups.contains(other) {
            let k = choose|k: int| 0 <= k < groups.len() && groups[k] == other;
            groups.lemma_filter_contains(pred, k);
        }
        if r.contains(other) {
            groups.lemma_filter_contains_rev(pred, other);
        }
    }
    if !groups.contains(pgid) {
        groups.lemma_filter_push(pgid, pred);
    }
}

} // verus!
