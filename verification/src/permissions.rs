//! Runtime permission enforcement, pure half: full-string glob patterns
//! over raw bytes, checked against a command just before it runs.

use vstd::prelude::*;
use vstd::string::StringSliceAdditionalSpecFns;
use vstd::string::StringExecFns;
use vstd::utf8::encode_utf8;

verus! {

/// `pattern[p..]` matches `text[t..]` in full: `*` matches any (possibly
/// empty) run of bytes and every other byte is literal.
pub open spec fn glob_from(pattern: Seq<u8>, text: Seq<u8>, p: int, t: int) -> bool
    decreases pattern.len() - p, text.len() - t,
{
    if p < 0 || t < 0 || p > pattern.len() || t > text.len() {
        false
    } else if p == pattern.len() {
        t == text.len()
    } else if pattern[p] == 42u8 {
        glob_from(pattern, text, p + 1, t) || (t < text.len() && glob_from(pattern, text, p, t + 1))
    } else {
        t < text.len() && pattern[p] == text[t] && glob_from(pattern, text, p + 1, t + 1)
    }
}

/// The whole of `pattern` matches the whole of `text`.
pub open spec fn glob_matches(pattern: Seq<u8>, text: Seq<u8>) -> bool {
    glob_from(pattern, text, 0, 0)
}

} // verus!

verus! {

/// The alternative a remembered `*` at `sp` still offers: it may swallow
/// more bytes than it has, so `pattern[sp + 1..]` may match from any
/// position past `st`.
spec fn star_alternative(pattern: Seq<u8>, text: Seq<u8>, star: Option<(usize, usize)>) -> bool {
    match star {
        None => false,
        Some((sp, st)) => exists|k: int|
            st < k <= text.len() && #[trigger] glob_from(pattern, text, sp + 1, k),
    }
}

/// What the remembered `*` has consumed since: `pattern[sp + 1..p]` is
/// star-free and equal to `text[st..t]`.
spec fn star_segment(pattern: Seq<u8>, text: Seq<u8>, star: Option<(usize, usize)>, p: int, t: int) -> bool {
    match star {
        None => true,
        Some((sp, st)) => {
            &&& sp < p
            &&& pattern[sp as int] == 42u8
            &&& st <= t
            &&& t - st == p - (sp + 1)
            &&& forall|i: int| sp + 1 <= i < p ==> pattern[i] != 42u8 && #[trigger] pattern[i] == text[st + (i - (sp + 1))]
        },
    }
}

/// A `*` at `p` matches from `t` exactly when the rest of the pattern
/// matches from some later-or-equal position.
proof fn lemma_star(pattern: Seq<u8>, text: Seq<u8>, p: int, t: int)
    requires
        0 <= p < pattern.len(),
        pattern[p] == 42u8,
        0 <= t <= text.len(),
    ensures
        glob_from(pattern, text, p, t) <==> exists|k: int| t <= k <= text.len() && #[trigger] glob_from(pattern, text, p + 1, k),
    decreases text.len() - t,
{
    if t < text.len() {
        lemma_star(pattern, text, p, t + 1);
        if glob_from(pattern, text, p, t) {
            if !glob_from(pattern, text, p + 1, t) {
                let k = choose|k: int| t + 1 <= k <= text.len() && #[trigger] glob_from(pattern, text, p + 1, k);
                assert(t <= k <= text.len() && glob_from(pattern, text, p + 1, k));
            } else {
                assert(t <= t <= text.len() && glob_from(pattern, text, p + 1, t));
            }
        }
        if exists|k: int| t <= k <= text.len() && #[trigger] glob_from(pattern, text, p + 1, k) {
            let k = choose|k: int| t <= k <= text.len() && #[trigger] glob_from(pattern, text, p + 1, k);
            if k != t {
                assert(t + 1 <= k <= text.len() && glob_from(pattern, text, p + 1, k));
            }
        }
    } else {
        if exists|k: int| t <= k <= text.len() && #[trigger] glob_from(pattern, text, p + 1, k) {
            let k = choose|k: int| t <= k <= text.len() && #[trigger] glob_from(pattern, text, p + 1, k);
            assert(k == t);
        }
        if glob_from(pattern, text, p + 1, t) {
            assert(t <= t <= text.len() && glob_from(pattern, text, p + 1, t));
        }
    }
}

/// A star-free stretch `pattern[q..p]` can only be matched byte for byte.
proof fn lemma_literal_run(pattern: Seq<u8>, text: Seq<u8>, q: int, p: int, k: int)
    requires
        0 <= q <= p <= pattern.len(),
        forall|i: int| q <= i < p ==> #[trigger] pattern[i] != 42u8,
        glob_from(pattern, text, q, k),
    ensures
        k + (p - q) <= text.len(),
        glob_from(pattern, text, p, k + (p - q)),
    decreases p - q,
{
    if q < p {
        assert(pattern[q] != 42u8);
        lemma_literal_run(pattern, text, q + 1, p, k + 1);
    }
}

/// Full-string glob: `*` matches any (possibly empty) run of bytes —
/// newlines included — and every other byte is literal. Iterative
/// backtracking that only ever remembers the last `*`.
pub fn glob_match(pattern: &str, text: &str) -> (matched: bool)
    ensures
        matched == glob_matches(pattern.spec_bytes(), text.spec_bytes()),
{
    let pat = pattern.as_bytes();
    let txt = text.as_bytes();
    let ghost ps = pat@;
    let ghost ts = txt@;
    let mut p: usize = 0;
    let mut t: usize = 0;
    let mut star: Option<(usize, usize)> = None;

    while t < txt.len()
        invariant
            ps == pat@,
            ts == txt@,
            ps == pattern.spec_bytes(),
            ts == text.spec_bytes(),
            p <= ps.len(),
            t <= ts.len(),
            star_segment(ps, ts, star, p as int, t as int),
            glob_matches(ps, ts) == (glob_from(ps, ts, p as int, t as int) || star_alternative(ps, ts, star)),
        decreases
            ts.len() - (match star { None => -1int, Some((_, st)) => st as int }),
            (ts.len() - t) + (ps.len() - p),
    {
        if p < pat.len() && pat[p] == 42u8 {
            proof {
                lemma_star(ps, ts, p as int, t as int);
                if star_alternative(ps, ts, star) {
                    let (sp, st) = star.unwrap();
                    let k = choose|k: int| st < k <= ts.len() && #[trigger] glob_from(ps, ts, sp + 1, k);
                    lemma_literal_run(ps, ts, sp + 1, p as int, k);
                    let k2 = k + (p - (sp + 1));
                    lemma_star(ps, ts, p as int, k2);
                    let k3 = choose|k3: int| k2 <= k3 <= ts.len() && #[trigger] glob_from(ps, ts, p + 1, k3);
                    assert(t < k3);
                }
                if glob_from(ps, ts, p as int, t as int) && !glob_from(ps, ts, p + 1, t as int) {
                    let k = choose|k: int| t <= k <= ts.len() && #[trigger] glob_from(ps, ts, p + 1, k);
                    assert(t < k);
                }
                if star_alternative(ps, ts, Some((p, t))) {
                    let k = choose|k: int| t < k <= ts.len() && #[trigger] glob_from(ps, ts, p + 1, k);
                    assert(t <= k <= ts.len() && glob_from(ps, ts, p + 1, k));
                }
            }
            star = Some((p, t));
            p = p + 1;
        } else if p < pat.len() && pat[p] == txt[t] {
            p = p + 1;
            t = t + 1;
        } else if let Some((star_p, star_t)) = star {
            proof {
                let next = Some((star_p, (star_t + 1) as usize));
                if star_alternative(ps, ts, star) {
                    let k = choose|k: int| star_t < k <= ts.len() && #[trigger] glob_from(ps, ts, star_p + 1, k);
                    if k != star_t + 1 {
                        assert(star_t + 1 < k <= ts.len() && glob_from(ps, ts, star_p + 1, k));
                    }
                }
                if star_alternative(ps, ts, next) {
                    let k = choose|k: int| star_t + 1 < k <= ts.len() && #[trigger] glob_from(ps, ts, star_p + 1, k);
                    assert(star_t < k <= ts.len() && glob_from(ps, ts, star_p + 1, k));
                }
                if glob_from(ps, ts, star_p + 1, star_t + 1) {
                    assert(star_t < star_t + 1 <= ts.len() && glob_from(ps, ts, star_p + 1, star_t + 1));
                }
            }
            p = star_p + 1;
            t = star_t + 1;
            star = Some((star_p, star_t + 1));
        } else {
            return false;
        }
    }
    proof {
        if star_alternative(ps, ts, star) {
            let (sp, st) = star.unwrap();
            let k = choose|k: int| st < k <= ts.len() && #[trigger] glob_from(ps, ts, sp + 1, k);
            lemma_literal_run(ps, ts, sp + 1, p as int, k);
        }
    }
    while p < pat.len() && pat[p] == 42u8
        invariant
            ps == pat@,
            ts == txt@,
            t == ts.len(),
            p <= ps.len(),
            glob_matches(ps, ts) == glob_from(ps, ts, p as int, t as int),
        decreases ps.len() - p,
    {
        p = p + 1;
    }
    p == pat.len()
}

} // verus!

verus! {

/// The command patterns a run's effective (ceiling-merged) permissions
/// carry. An empty `allow` is denylist mode; a non-empty one is a strict
/// allowlist.
#[derive(Debug, Clone, PartialEq, Eq)]
pub struct CommandPatterns {
    pub allow: Vec<String>,
    pub deny: Vec<String>,
}

/// The part of a permissions block the engine enforces on commands.
#[derive(Debug, Clone, PartialEq, Eq)]
pub struct PermissionsConfig {
    pub commands: Option<CommandPatterns>,
}

/// `pattern` matches the whole of `text`, both read as their UTF-8 bytes.
pub open spec fn pattern_matches(pattern: Seq<char>, text: Seq<char>) -> bool {
    glob_matches(encode_utf8(pattern), encode_utf8(text))
}

/// The first pattern at or after `from` that matches `text`.
pub open spec fn first_match(patterns: Seq<String>, text: Seq<char>, from: int) -> Option<int>
    decreases patterns.len() - from,
{
    if from < 0 || from >= patterns.len() {
        None
    } else if pattern_matches(patterns[from]@, text) {
        Some(from)
    } else {
        first_match(patterns, text, from + 1)
    }
}

pub open spec fn denied_message(command: Seq<char>, pattern: Seq<char>) -> Seq<char> {
    "command `"@ + command + "` matches denied pattern `"@ + pattern
        + "` (permissions.commands.deny, §6.1)"@
}

pub open spec fn not_allowed_message(command: Seq<char>) -> Seq<char> {
    "command `"@ + command
        + "` matches no pattern in the strict allowlist (permissions.commands.allow, §6.1)"@
}

/// What a command's check answers: the first denied pattern that matches
/// wins; otherwise a non-empty allowlist that nothing matches refuses it.
pub open spec fn violation_of(command: Seq<char>, permissions: Option<PermissionsConfig>) -> Option<Seq<char>> {
    match permissions {
        None => None,
        Some(config) => match config.commands {
            None => None,
            Some(commands) => match first_match(commands.deny@, command, 0) {
                Some(i) => Some(denied_message(command, commands.deny@[i]@)),
                None => if commands.allow@.len() > 0 && first_match(commands.allow@, command, 0) is None {
                    Some(not_allowed_message(command))
                } else {
                    None
                },
            },
        },
    }
}

proof fn lemma_first_match_skip(patterns: Seq<String>, text: Seq<char>, from: int)
    requires
        0 <= from < patterns.len(),
        !pattern_matches(patterns[from]@, text),
    ensures
        first_match(patterns, text, from) == first_match(patterns, text, from + 1),
{
}

proof fn lemma_first_match_is_first(patterns: Seq<String>, text: Seq<char>, from: int)
    requires
        0 <= from,
    ensures
        first_match(patterns, text, from) matches Some(j) ==> from <= j < patterns.len()
            && pattern_matches(patterns[j]@, text)
            && forall|m: int| from <= m < j ==> !pattern_matches(#[trigger] patterns[m]@, text),
        first_match(patterns, text, from) is None ==>
            forall|m: int| from <= m < patterns.len() ==> !pattern_matches(#[trigger] patterns[m]@, text),
    decreases patterns.len() - from,
{
    if from < patterns.len() {
        lemma_first_match_is_first(patterns, text, from + 1);
    }
}

/// A command is refused by the first deny pattern, at whatever position,
/// that matches it; with no deny pattern matching, it is refused exactly
/// when the allowlist is non-empty and none of its patterns matches.
pub proof fn law_every_pattern_is_consulted(command: Seq<char>, commands: CommandPatterns)
    ensures
        ({
            let verdict = violation_of(command, Some(PermissionsConfig { commands: Some(commands) }));
            &&& (exists|i: int| 0 <= i < commands.deny@.len() && pattern_matches(#[trigger] commands.deny@[i]@, command)) ==> (
                verdict matches Some(message) && exists|j: int| 0 <= j < commands.deny@.len()
                    && pattern_matches(#[trigger] commands.deny@[j]@, command)
                    && message == denied_message(command, commands.deny@[j]@)
                    && forall|m: int| 0 <= m < j ==> !pattern_matches(#[trigger] commands.deny@[m]@, command))
            &&& (forall|i: int| 0 <= i < commands.deny@.len() ==> !pattern_matches(#[trigger] commands.deny@[i]@, command)) ==> (
                (verdict is None) <==> (commands.allow@.len() == 0
                    || exists|i: int| 0 <= i < commands.allow@.len() && pattern_matches(#[trigger] commands.allow@[i]@, command)))
            &&& (forall|i: int| 0 <= i < commands.deny@.len() ==> !pattern_matches(#[trigger] commands.deny@[i]@, command)) ==> (
                verdict matches Some(message) ==> message == not_allowed_message(command))
        }),
{
    lemma_first_match_is_first(commands.deny@, command, 0);
    lemma_first_match_is_first(commands.allow@, command, 0);
}

/// The first index in `patterns` whose pattern matches `text`.
fn find_match(patterns: &Vec<String>, text: &str) -> (found: Option<usize>)
    ensures
        found matches Some(i) ==> i < patterns@.len() && first_match(patterns@, text@, 0) == Some(i as int),
        found is None ==> first_match(patterns@, text@, 0) is None,
{
    let mut i: usize = 0;
    while i < patterns.len()
        invariant
            i <= patterns@.len(),
            first_match(patterns@, text@, 0) == first_match(patterns@, text@, i as int),
        decreases patterns@.len() - i,
    {
        let pattern = patterns[i].as_str();
        if glob_match(pattern, text) {
            return Some(i);
        }
        proof {
            lemma_first_match_skip(patterns@, text@, i as int);
        }
        i = i + 1;
    }
    None
}

/// The value an optional reference points at.
pub open spec fn opt_ref<T>(value: Option<&T>) -> Option<T> {
    match value {
        Some(v) => Some(*v),
        None => None,
    }
}

/// Checks one rendered command against the effective permissions.
/// `None` = allowed; `Some(rule)` = blocked, with the diagnostic citing
/// the rule that blocked it.
pub fn command_violation(command: &str, permissions: Option<&PermissionsConfig>) -> (violation: Option<String>)
    ensures
        violation matches Some(message) ==> violation_of(command@, opt_ref(permissions)) == Some(message@),
        violation is None ==> violation_of(command@, opt_ref(permissions)) is None,
{
    let config = match permissions {
        Some(config) => config,
        None => return None,
    };
    let commands = match &config.commands {
        Some(commands) => commands,
        None => return None,
    };
    if let Some(i) = find_match(&commands.deny, command) {
        let pattern = commands.deny[i].as_str();
        let mut message = String::from_str("command `");
        message.append(command);
        message.append("` matches denied pattern `");
        message.append(pattern);
        message.append("` (permissions.commands.deny, §6.1)");
        return Some(message);
    }
    if commands.allow.len() > 0 && find_match(&commands.allow, command).is_none() {
        let mut message = String::from_str("command `");
        message.append(command);
        message.append("` matches no pattern in the strict allowlist (permissions.commands.allow, §6.1)");
        return Some(message);
    }
    None
}

} // verus!
