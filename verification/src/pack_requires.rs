//! `requires:` validated against the installer's own merged config: the
//! floor the installer's config must clear before a pack can run. Pure
//! comparison only.

use vstd::prelude::*;
use vstd::string::StringExecFns;

use crate::text::{contains_text, lemma_filter_empty, lemma_filter_step, same_text, texts};

verus! {

/// What a pack says it needs from the config it is installed under.
#[derive(Debug, Clone, PartialEq, Eq)]
pub struct PackRequires {
    /// Runner role names the pack's workflows use.
    pub roles: Vec<String>,
    pub mcp_servers: Vec<String>,
    /// Commands the pack expects on `PATH`.
    pub commands: Vec<String>,
}

/// The part of a pack's manifest this check reads.
#[derive(Debug, Clone, PartialEq, Eq)]
pub struct PackManifest {
    pub publisher: String,
    pub name: String,
    pub requires: PackRequires,
}

/// One runner role under `runners:`, with its candidates.
#[derive(Debug, Clone, PartialEq, Eq)]
pub struct RunnerRole {
    pub name: String,
    pub candidates: Vec<String>,
}

/// The part of the installer's merged config this check reads.
#[derive(Debug, Clone, PartialEq, Eq)]
pub struct ConfigLayer {
    pub runners: Option<Vec<RunnerRole>>,
    pub mcp_servers: Option<Vec<String>>,
}

/// One pack's requirements the local config can't currently satisfy —
/// empty in every field means the pack is fully resolvable as installed.
#[derive(Debug, Clone, PartialEq, Eq)]
pub struct PackRequiresGap {
    pub pack: String,
    /// Role names not defined under `runners:`, or defined with zero
    /// candidates.
    pub missing_roles: Vec<String>,
    /// `requires.mcp_servers` names absent from `mcp_servers:`.
    pub missing_mcp_servers: Vec<String>,
    /// `requires.commands`, passed through untouched.
    pub required_commands: Vec<String>,
}

impl PackRequiresGap {
    /// Whether the pack can run as installed.
    pub fn is_satisfied(&self) -> (satisfied: bool)
        ensures
            satisfied == (self.missing_roles@.len() == 0 && self.missing_mcp_servers@.len() == 0),
    {
        self.missing_roles.len() == 0 && self.missing_mcp_servers.len() == 0
    }
}

/// The first role under `runners:` called `name`.
pub open spec fn first_role(roles: Seq<RunnerRole>, name: Seq<char>, from: int) -> Option<int>
    decreases roles.len() - from,
{
    if from < 0 || from >= roles.len() {
        None
    } else if roles[from].name@ == name {
        Some(from)
    } else {
        first_role(roles, name, from + 1)
    }
}

/// A role is missing when `runners:` is absent, does not define it, or
/// defines it with no candidate.
pub open spec fn role_missing(config: ConfigLayer, role: Seq<char>) -> bool {
    match config.runners {
        None => true,
        Some(runners) => match first_role(runners@, role, 0) {
            None => true,
            Some(i) => runners@[i].candidates@.len() == 0,
        },
    }
}

/// A server is missing when `mcp_servers:` is absent or does not name it.
pub open spec fn server_missing(config: ConfigLayer, server: Seq<char>) -> bool {
    match config.mcp_servers {
        None => true,
        Some(servers) => !texts(servers@).contains(server),
    }
}

#[verifier::loop_isolation(false)]
fn is_role_missing(config: &ConfigLayer, role: &String) -> (missing: bool)
    ensures
        missing == role_missing(*config, role@),
{
    match &config.runners {
        None => true,
        Some(runners) => {
            let mut i: usize = 0;
            while i < runners.len()
                invariant
                    i <= runners@.len(),
                    first_role(runners@, role@, 0) == first_role(runners@, role@, i as int),
                decreases runners@.len() - i,
            {
                if same_text(&runners[i].name, role) {
                    return runners[i].candidates.len() == 0;
                }
                i = i + 1;
            }
            true
        },
    }
}

fn is_server_missing(config: &ConfigLayer, server: &String) -> (missing: bool)
    ensures
        missing == server_missing(*config, server@),
{
    match &config.mcp_servers {
        None => true,
        Some(servers) => !contains_text(servers, server),
    }
}

/// Compares a pack's `requires:` with the installer's config.
#[verifier::loop_isolation(false)]
pub fn check_pack_requires(manifest: &PackManifest, config: &ConfigLayer) -> (gap: PackRequiresGap)
    ensures
        gap.pack@ == manifest.publisher@ + "/"@ + manifest.name@,
        texts(gap.missing_roles@) == texts(manifest.requires.roles@).filter(|r: Seq<char>| role_missing(*config, r)),
        texts(gap.missing_mcp_servers@) == texts(manifest.requires.mcp_servers@).filter(|s: Seq<char>| server_missing(*config, s)),
        gap.required_commands@ == manifest.requires.commands@,
{
    let ghost role_pred = |r: Seq<char>| role_missing(*config, r);
    let ghost server_pred = |s: Seq<char>| server_missing(*config, s);
    let roles = &manifest.requires.roles;
    let mut missing_roles: Vec<String> = Vec::new();
    let mut i: usize = 0;
    proof {
        lemma_filter_empty(role_pred);
        assert(texts(roles@).subrange(0, 0) =~= Seq::<Seq<char>>::empty());
        assert(texts(missing_roles@) =~= Seq::<Seq<char>>::empty());
    }
    while i < roles.len()
        invariant
            roles == &manifest.requires.roles,
            i <= roles@.len(),
            texts(missing_roles@) == texts(roles@).subrange(0, i as int).filter(role_pred),
        decreases roles@.len() - i,
    {
        proof {
            lemma_filter_step(texts(roles@), role_pred, i as int);
            assert(texts(roles@)[i as int] == roles@[i as int]@);
        }
        if is_role_missing(config, &roles[i]) {
            let ghost before = missing_roles@;
            missing_roles.push(roles[i].clone());
            proof { assert(texts(missing_roles@) =~= texts(before).push(roles@[i as int]@)); }
        }
        i = i + 1;
    }
    let servers = &manifest.requires.mcp_servers;
    let mut missing_mcp_servers: Vec<String> = Vec::new();
    let mut j: usize = 0;
    proof {
        lemma_filter_empty(server_pred);
        assert(texts(servers@).subrange(0, 0) =~= Seq::<Seq<char>>::empty());
        assert(texts(missing_mcp_servers@) =~= Seq::<Seq<char>>::empty());
    }
    while j < servers.len()
        invariant
            servers == &manifest.requires.mcp_servers,
            j <= servers@.len(),
            texts(missing_mcp_servers@) == texts(servers@).subrange(0, j as int).filter(server_pred),
        decreases servers@.len() - j,
    {
        proof {
            lemma_filter_step(texts(servers@), server_pred, j as int);
            assert(texts(servers@)[j as int] == servers@[j as int]@);
        }
        if is_server_missing(config, &servers[j]) {
            let ghost before = missing_mcp_servers@;
            missing_mcp_servers.push(servers[j].clone());
            proof { assert(texts(missing_mcp_servers@) =~= texts(before).push(servers@[j as int]@)); }
        }
        j = j + 1;
    }
    proof {
        assert(texts(roles@).subrange(0, roles@.len() as int) =~= texts(roles@));
        assert(texts(servers@).subrange(0, servers@.len() as int) =~= texts(servers@));
    }
    let mut pack = manifest.publisher.clone();
    pack.append("/");
    pack.append(manifest.name.as_str());
    PackRequiresGap {
        pack,
        missing_roles,
        missing_mcp_servers,
        required_commands: crate::text::copy_strings(&manifest.requires.commands),
    }
}

} // verus!
