//! Findings as the engine reads them: the check on their severity, and the
//! deduplicated view for counting and display (the log keeps every
//! posting).

use vstd::prelude::*;
use vstd::string::{StrSliceExecFns, StringExecFns};

use crate::events::Finding;
use crate::render::{join, join_spec};
use crate::text::{is_white_space, same_text, texts, white_space};
use crate::workflow::FindingSeverity;

verus! {

/// How bad a severity is, worst first.
pub open spec fn rank_spec(severity: FindingSeverity) -> u8 {
    match severity {
        FindingSeverity::Blocking => 0,
        FindingSeverity::Major => 1,
        FindingSeverity::Minor => 2,
        FindingSeverity::Note => 3,
    }
}

/// How bad a severity is, worst first, in declaration order.
pub fn severity_rank(severity: FindingSeverity) -> (rank: u8)
    ensures
        rank == rank_spec(severity),
{
    match severity {
        FindingSeverity::Blocking => 0,
        FindingSeverity::Major => 1,
        FindingSeverity::Minor => 2,
        FindingSeverity::Note => 3,
    }
}

/// How a severity names itself.
pub open spec fn severity_name(severity: FindingSeverity) -> Seq<char> {
    match severity {
        FindingSeverity::Blocking => "Blocking"@,
        FindingSeverity::Major => "Major"@,
        FindingSeverity::Minor => "Minor"@,
        FindingSeverity::Note => "Note"@,
    }
}

fn severity_text(severity: FindingSeverity) -> (text: &'static str)
    ensures
        text@ == severity_name(severity),
{
    match severity {
        FindingSeverity::Blocking => "Blocking",
        FindingSeverity::Major => "Major",
        FindingSeverity::Minor => "Minor",
        FindingSeverity::Note => "Note",
    }
}

/// What a findings gate decides.
#[derive(Debug, Clone, PartialEq, Eq)]
pub enum GateVerdict {
    Pass { outcome: String },
    Fail { message: String },
}

/// The ids of the findings at or above `max`, in posting order.
pub open spec fn offending(findings: Seq<Finding>, max: FindingSeverity) -> Seq<Seq<char>>
    decreases findings.len(),
{
    if findings.len() == 0 {
        Seq::empty()
    } else {
        offending(findings.drop_last(), max) + if rank_spec(findings.last().severity) <= rank_spec(max) {
            seq![findings.last().id@]
        } else {
            Seq::empty()
        }
    }
}

/// A findings gate: it fails when any finding posted so far — raw, never
/// deduplicated, so two distinct findings are never conflated — is at or
/// above `max`, naming them; it passes otherwise.
pub fn findings_gate(findings: &Vec<Finding>, max: FindingSeverity) -> (verdict: GateVerdict)
    ensures
        offending(findings@, max).len() == 0 ==> (verdict matches GateVerdict::Pass { outcome }
            && outcome@ == "no finding at or above "@ + severity_name(max)),
        offending(findings@, max).len() > 0 ==> (verdict matches GateVerdict::Fail { message }
            && message@ == crate::text::decimal_spec(offending(findings@, max).len()) + " finding(s) at or above "@
                + severity_name(max) + ": "@ + join_spec(offending(findings@, max), ", "@)),
{
    let mut ids: Vec<String> = Vec::new();
    let mut i: usize = 0;
    while i < findings.len()
        invariant
            i <= findings@.len(),
            texts(ids@) == offending(findings@.take(i as int), max),
        decreases findings@.len() - i,
    {
        proof {
            assert(findings@.take(i + 1).drop_last() =~= findings@.take(i as int));
            assert(findings@.take(i + 1).last() == findings@[i as int]);
        }
        let ghost before = texts(ids@);
        if severity_rank(findings[i].severity) <= severity_rank(max) {
            ids.push(findings[i].id.clone());
            proof { assert(texts(ids@) =~= before + seq![findings@[i as int].id@]); }
        } else {
            proof { assert(texts(ids@) =~= before + Seq::<Seq<char>>::empty()); }
        }
        i = i + 1;
    }
    proof { assert(findings@.take(i as int) =~= findings@); }
    if ids.len() == 0 {
        let mut outcome = String::from_str("no finding at or above ");
        outcome.append(severity_text(max));
        GateVerdict::Pass { outcome }
    } else {
        let mut message = crate::text::decimal(ids.len() as u64);
        message.append(" finding(s) at or above ");
        message.append(severity_text(max));
        message.append(": ");
        let joined = join(&ids, ", ");
        message.append(joined.as_str());
        GateVerdict::Fail { message }
    }
}

/// The words of a text from `from` on: maximal runs of characters that are
/// not white space.
pub open spec fn words_from(text: Seq<char>, from: int) -> Seq<Seq<char>>
    decreases text.len() - from, 1int,
{
    if from < 0 || from >= text.len() {
        Seq::empty()
    } else if is_white_space(text[from]) {
        words_from(text, from + 1)
    } else {
        let end = word_end(text, from);
        proof { lemma_word_end(text, from); }
        seq![text.subrange(from, end)] + words_from(text, end)
    }
}

/// Where the word starting at `from` ends.
pub open spec fn word_end(text: Seq<char>, from: int) -> int
    decreases text.len() - from, 0int,
{
    if from < 0 || from >= text.len() || is_white_space(text[from]) {
        if from < 0 { 0 } else if from > text.len() { text.len() as int } else { from }
    } else {
        word_end(text, from + 1)
    }
}

pub proof fn lemma_word_end(text: Seq<char>, from: int)
    requires
        0 <= from <= text.len(),
    ensures
        from <= word_end(text, from) <= text.len(),
        word_end(text, from) < text.len() ==> is_white_space(text[word_end(text, from)]),
        forall|k: int| from <= k < word_end(text, from) ==> !is_white_space(#[trigger] text[k]),
    decreases text.len() - from,
{
    if from < text.len() && !is_white_space(text[from]) {
        lemma_word_end(text, from + 1);
    }
}

/// What `str::to_lowercase` makes of a text: each character's Unicode
/// lowercase mapping.
pub uninterp spec fn lowercase(text: Seq<char>) -> Seq<char>;

/// Calls `str::to_lowercase`. Claimed: the result is a function of the
/// text alone.
#[verifier::external_body]
fn lowercase_text(text: &str) -> (lower: String)
    ensures
        lower@ == lowercase(text@),
{
    text.to_lowercase()
}

/// A title with its white space collapsed to single spaces and its case
/// folded: "Scope  expansion DENIED" and "scope expansion denied" are the
/// same complaint.
pub open spec fn normalized_title_spec(title: Seq<char>) -> Seq<char> {
    lowercase(join_spec(words_from(title, 0), " "@))
}

/// The words of a text, split at white space.
pub fn words(text: &str) -> (found: Vec<String>)
    ensures
        texts(found@) == words_from(text@, 0),
{
    let len = text.unicode_len();
    let mut found: Vec<String> = Vec::new();
    let mut i: usize = 0;
    while i < len
        invariant
            len == text@.len(),
            i <= len,
            texts(found@) + words_from(text@, i as int) == words_from(text@, 0),
        decreases len - i,
    {
        if white_space(text.get_char(i)) {
            i = i + 1;
        } else {
            proof { lemma_word_end(text@, i as int); }
            let mut end: usize = i;
            while end < len && !white_space(text.get_char(end))
                invariant
                    len == text@.len(),
                    i <= end <= len,
                    word_end(text@, i as int) == word_end(text@, end as int),
                decreases len - end,
            {
                end = end + 1;
            }
            let ghost before = texts(found@);
            let word = text.substring_char(i, end).to_string();
            found.push(word);
            proof {
                assert(texts(found@) =~= before.push(text@.subrange(i as int, end as int)));
                assert(before + words_from(text@, i as int) =~= texts(found@) + words_from(text@, end as int));
            }
            i = end;
        }
    }
    proof { assert(texts(found@) + Seq::<Seq<char>>::empty() =~= texts(found@)); }
    found
}

/// A title with its white space collapsed and its case folded.
pub fn normalized_title(title: &str) -> (normal: String)
    ensures
        normal@ == normalized_title_spec(title@),
{
    let found = words(title);
    let joined = join(&found, " ");
    lowercase_text(joined.as_str())
}

/// The key findings are deduplicated by: where, and what, normalized.
pub open spec fn finding_key(finding: Finding) -> (Seq<char>, Seq<char>) {
    (finding.location@, normalized_title_spec(finding.title@))
}

/// The first finding of each key, in posting order.
pub open spec fn dedup_spec(findings: Seq<Finding>) -> Seq<Finding>
    decreases findings.len(),
{
    if findings.len() == 0 {
        Seq::empty()
    } else {
        let kept = dedup_spec(findings.drop_last());
        if kept.map_values(|f: Finding| finding_key(f)).contains(finding_key(findings.last())) {
            kept
        } else {
            kept.push(findings.last())
        }
    }
}

/// Findings from every source, deduplicated by location and normalized
/// title, keeping the first occurrence: a view for counting and display.
/// The log keeps every posting.
pub fn dedup_findings(findings: &Vec<Finding>) -> (kept: Vec<Finding>)
    ensures
        kept@ == dedup_spec(findings@),
{
    let mut kept: Vec<Finding> = Vec::new();
    let mut keys: Vec<(String, String)> = Vec::new();
    let mut i: usize = 0;
    while i < findings.len()
        invariant
            i <= findings@.len(),
            kept@ == dedup_spec(findings@.take(i as int)),
            keys@.len() == kept@.len(),
            forall|k: int| 0 <= k < keys@.len() ==> (#[trigger] keys@[k]).0@ == kept@[k].location@
                && keys@[k].1@ == normalized_title_spec(kept@[k].title@),
        decreases findings@.len() - i,
    {
        proof {
            assert(findings@.take(i + 1).drop_last() =~= findings@.take(i as int));
            assert(findings@.take(i + 1).last() == findings@[i as int]);
        }
        let finding = &findings[i];
        let title = normalized_title(finding.title.as_str());
        let ghost kept_keys = kept@.map_values(|f: Finding| finding_key(f));
        let mut seen = false;
        let mut k: usize = 0;
        while k < keys.len()
            invariant
                k <= keys@.len(),
                keys@.len() == kept@.len(),
                kept_keys == kept@.map_values(|f: Finding| finding_key(f)),
                title@ == normalized_title_spec(finding.title@),
                forall|j: int| 0 <= j < keys@.len() ==> (#[trigger] keys@[j]).0@ == kept@[j].location@
                    && keys@[j].1@ == normalized_title_spec(kept@[j].title@),
                seen == exists|j: int| 0 <= j < k && (#[trigger] kept_keys[j]) == finding_key(*finding),
            decreases keys@.len() - k,
        {
            proof {
                assert(kept_keys[k as int] == finding_key(kept@[k as int]));
                assert(keys@[k as int].0@ == kept@[k as int].location@);
            }
            if same_text(&keys[k].0, &finding.location) && same_text(&keys[k].1, &title) {
                seen = true;
            }
            k = k + 1;
        }
        proof {
            if seen {
                let j = choose|j: int| 0 <= j < k && (#[trigger] kept_keys[j]) == finding_key(*finding);
                assert(kept_keys.contains(finding_key(*finding)));
            } else {
                assert(!kept_keys.contains(finding_key(*finding)));
            }
        }
        if !seen {
            keys.push((finding.location.clone(), title));
            kept.push(finding.duplicate());
        }
        i = i + 1;
    }
    proof { assert(findings@.take(i as int) =~= findings@); }
    kept
}

/// The text a coverage figure is read from: the run of digits, with at
/// most one dot, that ends at position `end` (exclusive), scanning back.
pub open spec fn figure_start(text: Seq<char>, start: int, seen_dot: bool) -> int
    decreases start,
{
    if start <= 0 || start > text.len() {
        if start < 0 { 0 } else { start }
    } else if '0' <= text[start - 1] && text[start - 1] <= '9' {
        figure_start(text, start - 1, seen_dot)
    } else if text[start - 1] == '.' && !seen_dot {
        figure_start(text, start - 1, true)
    } else {
        start
    }
}

/// The figure a `%` at `i` closes, when there is one that reads as a
/// number: digits, with at most one dot, not the dot alone.
pub open spec fn figure_at(text: Seq<char>, i: int) -> Option<Seq<char>> {
    if 0 <= i < text.len() && text[i] == '%' {
        let start = figure_start(text, i, false);
        if start < i && text.subrange(start, i) != seq!['.'] { Some(text.subrange(start, i)) } else { None }
    } else {
        None
    }
}

/// The last figure among the first `n` characters.
pub open spec fn last_figure(text: Seq<char>, n: int) -> Option<Seq<char>>
    decreases n,
{
    if n <= 0 {
        None
    } else {
        match figure_at(text, n - 1) {
            Some(figure) => Some(figure),
            None => last_figure(text, n - 1),
        }
    }
}

proof fn lemma_figure_start(text: Seq<char>, start: int, seen_dot: bool)
    requires
        0 <= start <= text.len(),
    ensures
        0 <= figure_start(text, start, seen_dot) <= start,
    decreases start,
{
    if start > 0 {
        if ('0' <= text[start - 1] && text[start - 1] <= '9') || (text[start - 1] == '.' && !seen_dot) {
            lemma_figure_start(text, start - 1, seen_dot || text[start - 1] == '.');
        }
    }
}

/// The text of the last `NN[.NN]%` figure in `text`: a coverage command's
/// measured coverage, as the caller parses it into a number. Every figure
/// returned reads as a decimal number.
pub fn last_percentage(text: &str) -> (figure: Option<String>)
    ensures
        match figure {
            Some(f) => last_figure(text@, text@.len() as int) == Some(f@),
            None => last_figure(text@, text@.len() as int) is None,
        },
{
    let len = text.unicode_len();
    let mut i: usize = len;
    while i > 0
        invariant
            len == text@.len(),
            i <= len,
            forall|k: int| i <= k < len ==> figure_at(text@, k) is None,
            last_figure(text@, len as int) == last_figure(text@, i as int),
        decreases i,
    {
        let at = i - 1;
        if text.get_char(at) == '%' {
            let mut start: usize = at;
            let mut seen_dot = false;
            proof { lemma_figure_start(text@, at as int, false); }
            while start > 0
                invariant
                    len == text@.len(),
                    start <= at < len,
                    figure_start(text@, at as int, false) == figure_start(text@, start as int, seen_dot),
                ensures
                    figure_start(text@, at as int, false) == start,
                decreases start,
            {
                let c = text.get_char(start - 1);
                if '0' <= c && c <= '9' {
                    start = start - 1;
                } else if c == '.' && !seen_dot {
                    seen_dot = true;
                    start = start - 1;
                } else {
                    break;
                }
            }
            if start < at {
                let candidate = text.substring_char(start, at);
                let lone_dot = at - start == 1 && candidate.get_char(0) == '.';
                proof {
                    if at - start == 1 {
                        assert(lone_dot == (candidate@ =~= seq!['.']));
                    } else {
                        assert(candidate@.len() != 1);
                    }
                }
                if !lone_dot {
                    proof {
                        assert(figure_at(text@, at as int) == Some(candidate@));
                        assert(last_figure(text@, i as int) == Some(candidate@));
                    }
                    return Some(candidate.to_string());
                }
            }
        }
        proof { assert(figure_at(text@, at as int) is None); }
        i = at;
    }
    None
}

} // verus!
