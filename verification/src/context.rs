//! A node's context, assembled: each source named and classified by how
//! stable its content is, rendered inline or by reference, and the whole
//! always ordered stable first, so a provider's prompt cache sees a
//! byte-stable prefix whatever order `context:` declared.

use vstd::prelude::*;
use vstd::string::StringExecFns;

use crate::render::{join, join_spec};
use crate::text::{decimal, decimal_spec, texts};
use crate::workflow::ContextSpec;

verus! {

/// How stable a source's content is across sessions.
#[derive(Debug, Clone, Copy, PartialEq, Eq, Structural)]
pub enum StabilityClass {
    /// Repo files and durable knowledge.
    Stable,
    /// Frozen artifacts: immutable once written within a run.
    RunStable,
    /// Commands, the run's own events and ledger, node output, MCP.
    Volatile,
}

/// How stable a source's content is.
pub open spec fn stability_spec(spec: ContextSpec) -> StabilityClass {
    match spec {
        ContextSpec::Files { .. } | ContextSpec::Knowledge { .. } => StabilityClass::Stable,
        ContextSpec::Artifact { .. } => StabilityClass::RunStable,
        _ => StabilityClass::Volatile,
    }
}

/// How stable a source's content is.
pub fn stability_class(spec: &ContextSpec) -> (class: StabilityClass)
    ensures
        class == stability_spec(*spec),
{
    match spec {
        ContextSpec::Files { .. } | ContextSpec::Knowledge { .. } => StabilityClass::Stable,
        ContextSpec::Artifact { .. } => StabilityClass::RunStable,
        _ => StabilityClass::Volatile,
    }
}

/// Whether a resolved source may be served again from an earlier brief of
/// the same loop node: only a class whose content cannot change within a
/// run.
pub fn memoizable(spec: &ContextSpec) -> (may: bool)
    ensures
        may == (stability_spec(*spec) != StabilityClass::Volatile),
{
    !matches!(stability_class(spec), StabilityClass::Volatile)
}

/// The name a source's kind is recorded under.
pub open spec fn kind_name_spec(spec: ContextSpec) -> Seq<char> {
    match spec {
        ContextSpec::Files { .. } => "files"@,
        ContextSpec::Command { .. } => "command"@,
        ContextSpec::Artifact { .. } => "artifact"@,
        ContextSpec::RunEvents { .. } => "run-events"@,
        ContextSpec::Ledger => "ledger"@,
        ContextSpec::Knowledge { .. } => "knowledge"@,
        ContextSpec::NodeOutput { .. } => "node-output"@,
        ContextSpec::Mcp { .. } => "mcp"@,
    }
}

/// The name a source's kind is recorded under.
pub fn kind_name(spec: &ContextSpec) -> (name: &'static str)
    ensures
        name@ == kind_name_spec(*spec),
{
    match spec {
        ContextSpec::Files { .. } => "files",
        ContextSpec::Command { .. } => "command",
        ContextSpec::Artifact { .. } => "artifact",
        ContextSpec::RunEvents { .. } => "run-events",
        ContextSpec::Ledger => "ledger",
        ContextSpec::Knowledge { .. } => "knowledge",
        ContextSpec::NodeOutput { .. } => "node-output",
        ContextSpec::Mcp { .. } => "mcp",
    }
}

/// The id a source is recorded and cached under.
pub open spec fn source_id_spec(spec: ContextSpec) -> Seq<char> {
    match spec {
        ContextSpec::Files { files } => "files:"@ + join_spec(texts(files@), ","@),
        ContextSpec::Command { command } => "command:"@ + command@,
        ContextSpec::Artifact { node, name } => match node {
            Some(n) => "artifact:"@ + n@ + "/"@ + name@,
            None => "artifact:"@ + name@,
        },
        ContextSpec::RunEvents { filter } => "run-events:"@ + match filter {
            Some(f) => f@,
            None => "all"@,
        },
        ContextSpec::Ledger => "ledger"@,
        ContextSpec::Knowledge { layers } => if layers@.len() == 0 {
            "knowledge:all"@
        } else {
            "knowledge:"@ + join_spec(texts(layers@), ","@)
        },
        ContextSpec::NodeOutput { node } => "node-output:"@ + node@,
        ContextSpec::Mcp { server, query } => "mcp:"@ + server@ + "/"@ + query@,
    }
}

/// The id a source is recorded and cached under.
pub fn source_id_for(spec: &ContextSpec) -> (id: String)
    ensures
        id@ == source_id_spec(*spec),
{
    match spec {
        ContextSpec::Files { files } => {
            let mut id = String::from_str("files:");
            let joined = join(files, ",");
            id.append(joined.as_str());
            id
        },
        ContextSpec::Command { command } => {
            let mut id = String::from_str("command:");
            id.append(command.as_str());
            id
        },
        ContextSpec::Artifact { node, name } => match node {
            Some(n) => {
                let mut id = String::from_str("artifact:");
                id.append(n.as_str());
                id.append("/");
                id.append(name.as_str());
                id
            },
            None => {
                let mut id = String::from_str("artifact:");
                id.append(name.as_str());
                id
            },
        },
        ContextSpec::RunEvents { filter } => {
            let mut id = String::from_str("run-events:");
            match filter {
                Some(f) => id.append(f.as_str()),
                None => id.append("all"),
            }
            id
        },
        ContextSpec::Ledger => String::from_str("ledger"),
        ContextSpec::Knowledge { layers } => {
            if layers.len() == 0 {
                String::from_str("knowledge:all")
            } else {
                let mut id = String::from_str("knowledge:");
                let joined = join(layers, ",");
                id.append(joined.as_str());
                id
            }
        },
        ContextSpec::NodeOutput { node } => {
            let mut id = String::from_str("node-output:");
            id.append(node.as_str());
            id
        },
        ContextSpec::Mcp { server, query } => {
            let mut id = String::from_str("mcp:");
            id.append(server.as_str());
            id.append("/");
            id.append(query.as_str());
            id
        },
    }
}

/// What `String::from_utf8_lossy` reads `bytes` as: the text they encode,
/// each invalid sequence replaced by U+FFFD.
pub uninterp spec fn utf8_lossy(bytes: Seq<u8>) -> Seq<char>;

/// Calls `String::from_utf8_lossy`. Claimed: the result is a function of
/// the bytes alone, and bytes that are all ASCII read as those same
/// characters (ASCII is valid UTF-8, which the call keeps unchanged).
#[verifier::external_body]
pub(crate) fn lossy_text(bytes: &[u8]) -> (text: String)
    ensures
        text@ == utf8_lossy(bytes@),
        (forall|i: int| 0 <= i < bytes@.len() ==> #[trigger] bytes@[i] < 128) ==> text@ == bytes@.map_values(|b: u8| b as char),
{
    String::from_utf8_lossy(bytes).into_owned()
}

/// The header every block opens with.
pub open spec fn block_header(source_id: Seq<char>, kind: Seq<char>) -> Seq<char> {
    "--- context: "@ + source_id + " ("@ + kind + ") ---\n"@
}

/// A resolved source's block: its content inline at or below the
/// threshold, otherwise only a pointer to where it was materialized.
pub open spec fn block_spec(source_id: Seq<char>, kind: Seq<char>, content: Seq<u8>, materialized_path: Seq<char>, inline_threshold: usize) -> Seq<char> {
    if content.len() <= inline_threshold {
        block_header(source_id, kind) + utf8_lossy(content)
    } else {
        block_header(source_id, kind) + "["@ + decimal_spec(content.len()) + " bytes, referenced — see "@ + materialized_path + "]\n"@
    }
}

/// A resolved source's block, inline or by reference.
pub fn render_block(source_id: &str, kind: &str, content: &[u8], materialized_path: &str, inline_threshold: usize) -> (block: String)
    ensures
        block@ == block_spec(source_id@, kind@, content@, materialized_path@, inline_threshold),
{
    let mut block = String::from_str("--- context: ");
    block.append(source_id);
    block.append(" (");
    block.append(kind);
    block.append(") ---\n");
    if content.len() <= inline_threshold {
        let text = lossy_text(content);
        block.append(text.as_str());
    } else {
        block.append("[");
        let n = decimal(content.len() as u64);
        block.append(n.as_str());
        block.append(" bytes, referenced — see ");
        block.append(materialized_path);
        block.append("]\n");
    }
    block
}

/// The blocks of one class, in declaration order.
pub open spec fn class_blocks(blocks: Seq<(StabilityClass, String)>, class: StabilityClass) -> Seq<Seq<char>>
    decreases blocks.len(),
{
    if blocks.len() == 0 {
        Seq::empty()
    } else {
        class_blocks(blocks.drop_last(), class) + if blocks.last().0 == class { seq![blocks.last().1@] } else { Seq::empty() }
    }
}

/// One class's segment, when it has any block: the class's name and its
/// blocks joined by line feeds.
pub open spec fn segment(blocks: Seq<(StabilityClass, String)>, class: StabilityClass, key: Seq<char>) -> Seq<(Seq<char>, Seq<char>)> {
    if class_blocks(blocks, class).len() == 0 {
        Seq::empty()
    } else {
        seq![(key, join_spec(class_blocks(blocks, class), "\n"@))]
    }
}

/// The non-empty segments, always stable, then run-stable, then volatile.
pub open spec fn segments_spec(blocks: Seq<(StabilityClass, String)>) -> Seq<(Seq<char>, Seq<char>)> {
    segment(blocks, StabilityClass::Stable, "stable"@) + segment(blocks, StabilityClass::RunStable, "run-stable"@)
        + segment(blocks, StabilityClass::Volatile, "volatile"@)
}

fn class_text(blocks: &Vec<(StabilityClass, String)>, class: StabilityClass) -> (found: Vec<String>)
    ensures
        texts(found@) == class_blocks(blocks@, class),
{
    let mut found: Vec<String> = Vec::new();
    let mut i: usize = 0;
    while i < blocks.len()
        invariant
            i <= blocks@.len(),
            texts(found@) == class_blocks(blocks@.take(i as int), class),
        decreases blocks@.len() - i,
    {
        proof {
            assert(blocks@.take(i + 1).drop_last() =~= blocks@.take(i as int));
            assert(blocks@.take(i + 1).last() == blocks@[i as int]);
        }
        let ghost before = texts(found@);
        if blocks[i].0 == class {
            found.push(blocks[i].1.clone());
            proof { assert(texts(found@) =~= before + seq![blocks@[i as int].1@]); }
        } else {
            proof { assert(texts(found@) =~= before + Seq::<Seq<char>>::empty()); }
        }
        i = i + 1;
    }
    proof { assert(blocks@.take(i as int) =~= blocks@); }
    found
}

/// The segments of a node's context, stable first whatever order the
/// sources were declared in: each non-empty class's name and canonical
/// text, for the caller to hash and join.
pub fn assemble_segments(blocks: &Vec<(StabilityClass, String)>) -> (segments: Vec<(String, String)>)
    ensures
        segments@.map_values(|s: (String, String)| (s.0@, s.1@)) == segments_spec(blocks@),
{
    let mut segments: Vec<(String, String)> = Vec::new();
    let ghost view = |s: (String, String)| (s.0@, s.1@);
    let stable = class_text(blocks, StabilityClass::Stable);
    if stable.len() > 0 {
        segments.push((String::from_str("stable"), join(&stable, "\n")));
    }
    let ghost first = segments@;
    proof { assert(first.map_values(view) =~= segment(blocks@, StabilityClass::Stable, "stable"@)); }
    let run_stable = class_text(blocks, StabilityClass::RunStable);
    if run_stable.len() > 0 {
        segments.push((String::from_str("run-stable"), join(&run_stable, "\n")));
    }
    let ghost second = segments@;
    proof {
        assert(second.map_values(view) =~= segment(blocks@, StabilityClass::Stable, "stable"@)
            + segment(blocks@, StabilityClass::RunStable, "run-stable"@));
    }
    let volatile = class_text(blocks, StabilityClass::Volatile);
    if volatile.len() > 0 {
        segments.push((String::from_str("volatile"), join(&volatile, "\n")));
    }
    proof { assert(segments@.map_values(view) =~= segments_spec(blocks@)); }
    segments
}

/// The context text a node's prompt is prefixed with: the segments joined
/// by a line feed, stable first.
pub open spec fn assembled_spec(blocks: Seq<(StabilityClass, String)>) -> Seq<char> {
    join_spec(segments_spec(blocks).map_values(|s: (Seq<char>, Seq<char>)| s.1), "\n"@)
}

/// The context text a node's prompt is prefixed with.
pub fn assemble(segments: &Vec<(String, String)>) -> (text: String)
    ensures
        text@ == join_spec(segments@.map_values(|s: (String, String)| s.1@), "\n"@),
{
    let mut parts: Vec<String> = Vec::new();
    let mut i: usize = 0;
    while i < segments.len()
        invariant
            i <= segments@.len(),
            texts(parts@) == segments@.take(i as int).map_values(|s: (String, String)| s.1@),
        decreases segments@.len() - i,
    {
        let ghost before = texts(parts@);
        parts.push(segments[i].1.clone());
        proof {
            assert(texts(parts@) =~= before.push(segments@[i as int].1@));
            assert(segments@.take(i + 1).map_values(|s: (String, String)| s.1@)
                =~= segments@.take(i as int).map_values(|s: (String, String)| s.1@).push(segments@[i as int].1@));
        }
        i = i + 1;
    }
    proof { assert(segments@.take(i as int) =~= segments@); }
    join(&parts, "\n")
}

} // verus!
