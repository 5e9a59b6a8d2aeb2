//! Text read as lines, the way a reader of a log or a page sees it.

use vstd::prelude::*;
use vstd::string::{StrSliceExecFns, StringExecFns};

use crate::render::{join, join_spec};
use crate::text::texts;

verus! {

/// The position of the first line feed at or after `from`, or the length.
pub open spec fn next_newline(text: Seq<char>, from: int) -> int
    decreases text.len() - from,
{
    if from < 0 || from >= text.len() {
        text.len() as int
    } else if text[from] == '\n' {
        from
    } else {
        next_newline(text, from + 1)
    }
}

/// A line without the carriage return that ended it, if one did.
pub open spec fn strip_cr(line: Seq<char>) -> Seq<char> {
    if line.len() > 0 && line.last() == '\r' { line.drop_last() } else { line }
}

/// The lines from `from` on: split at each line feed, a line's `\r\n`
/// ending removed, and no empty line after a final line feed.
pub open spec fn lines_from(text: Seq<char>, from: int) -> Seq<Seq<char>>
    decreases text.len() - from,
{
    if from < 0 || from >= text.len() {
        Seq::empty()
    } else {
        let end = next_newline(text, from);
        proof { lemma_next_newline(text, from); }
        if end >= text.len() {
            seq![text.subrange(from, text.len() as int)]
        } else {
            seq![strip_cr(text.subrange(from, end))] + lines_from(text, end + 1)
        }
    }
}

/// A text's lines.
pub open spec fn lines_spec(text: Seq<char>) -> Seq<Seq<char>> {
    lines_from(text, 0)
}

pub proof fn lemma_next_newline(text: Seq<char>, from: int)
    requires
        0 <= from <= text.len(),
    ensures
        from <= next_newline(text, from) <= text.len(),
        next_newline(text, from) < text.len() ==> text[next_newline(text, from)] == '\n',
        forall|k: int| from <= k < next_newline(text, from) ==> #[trigger] text[k] != '\n',
    decreases text.len() - from,
{
    if from < text.len() && text[from] != '\n' {
        lemma_next_newline(text, from + 1);
    }
}

/// A text's lines, split the way a reader sees them.
pub fn lines(text: &str) -> (found: Vec<String>)
    ensures
        texts(found@) == lines_spec(text@),
{
    let len = text.unicode_len();
    let mut found: Vec<String> = Vec::new();
    let mut from: usize = 0;
    while from < len
        invariant
            len == text@.len(),
            from <= len,
            texts(found@) + lines_from(text@, from as int) == lines_spec(text@),
        decreases len - from,
    {
        proof { lemma_next_newline(text@, from as int); }
        let mut end: usize = from;
        while end < len && text.get_char(end) != '\n'
            invariant
                len == text@.len(),
                from <= end <= len,
                next_newline(text@, from as int) == next_newline(text@, end as int),
            decreases len - end,
        {
            end = end + 1;
        }
        let ghost before = texts(found@);
        if end >= len {
            let line = text.substring_char(from, len).to_string();
            found.push(line);
            proof {
                assert(texts(found@) =~= before.push(text@.subrange(from as int, len as int)));
                assert(lines_from(text@, len as int) =~= Seq::<Seq<char>>::empty());
                assert(before + lines_from(text@, from as int) =~= texts(found@) + lines_from(text@, len as int));
            }
            from = len;
        } else {
            let piece = text.substring_char(from, end);
            let piece_len = end - from;
            let line = if piece_len > 0 && piece.get_char(piece_len - 1) == '\r' {
                piece.substring_char(0, piece_len - 1).to_string()
            } else {
                piece.to_string()
            };
            proof {
                assert(line@ =~= strip_cr(text@.subrange(from as int, end as int)));
            }
            found.push(line);
            proof {
                assert(texts(found@) =~= before.push(line@));
                assert(before + lines_from(text@, from as int) =~= texts(found@) + lines_from(text@, end + 1));
            }
            from = end + 1;
        }
    }
    proof {
        assert(lines_from(text@, from as int) =~= Seq::<Seq<char>>::empty());
        assert(texts(found@) + Seq::<Seq<char>>::empty() =~= texts(found@));
    }
    found
}

/// Every line of `text` behind `indent`, joined by line feeds.
pub open spec fn indent_lines_spec(text: Seq<char>, indent: Seq<char>) -> Seq<char> {
    join_spec(lines_spec(text).map_values(|line: Seq<char>| indent + line), "\n"@)
}

/// Every line of `text` behind `indent`.
pub fn indent_lines(text: &str, indent: &str) -> (indented: String)
    ensures
        indented@ == indent_lines_spec(text@, indent@),
{
    let found = lines(text);
    let mut shifted: Vec<String> = Vec::new();
    let mut i: usize = 0;
    while i < found.len()
        invariant
            i <= found@.len(),
            texts(found@) == lines_spec(text@),
            texts(shifted@) == texts(found@).take(i as int).map_values(|line: Seq<char>| indent@ + line),
        decreases found@.len() - i,
    {
        let mut line = indent.to_string();
        line.append(found[i].as_str());
        let ghost before = texts(shifted@);
        shifted.push(line);
        proof {
            assert(texts(shifted@) =~= before.push(indent@ + found@[i as int]@));
            assert(texts(found@).take(i + 1).map_values(|line: Seq<char>| indent@ + line)
                =~= texts(found@).take(i as int).map_values(|line: Seq<char>| indent@ + line).push(indent@ + found@[i as int]@));
        }
        i = i + 1;
    }
    proof { assert(texts(found@).take(i as int) =~= texts(found@)); }
    join(&shifted, "\n")
}

/// An outcome inside a Markdown bullet: inline code when it is one line
/// with no backtick, otherwise a fenced block indented under the bullet,
/// so neither a person nor the next session has to guess where one problem
/// ends and the next begins.
pub open spec fn fenced_spec(outcome: Seq<char>) -> Seq<char> {
    if !outcome.contains('\n') && !outcome.contains('`') {
        "`"@ + outcome + "`"@
    } else {
        "\n\n  ```\n"@ + indent_lines_spec(outcome, "  "@) + "\n  ```"@
    }
}

fn contains_char(text: &str, c: char) -> (found: bool)
    ensures
        found == text@.contains(c),
{
    let len = text.unicode_len();
    let mut i: usize = 0;
    while i < len
        invariant
            len == text@.len(),
            i <= len,
            forall|k: int| 0 <= k < i ==> #[trigger] text@[k] != c,
        decreases len - i,
    {
        if text.get_char(i) == c {
            proof { assert(text@[i as int] == c); }
            return true;
        }
        i = i + 1;
    }
    false
}

/// An outcome inside a Markdown bullet.
pub fn fenced(outcome: &str) -> (text: String)
    ensures
        text@ == fenced_spec(outcome@),
{
    if !contains_char(outcome, '\n') && !contains_char(outcome, '`') {
        let mut text = String::from_str("`");
        text.append(outcome);
        text.append("`");
        return text;
    }
    let mut text = String::from_str("\n\n  ```\n");
    let body = indent_lines(outcome, "  ");
    text.append(body.as_str());
    text.append("\n  ```");
    text
}

/// The tail of a suite's output a reader sees without opening the capture:
/// its last five lines, the last one first.
pub open spec fn summary_spec(stdout: Seq<char>) -> Seq<char> {
    let all = lines_spec(stdout);
    let count = if all.len() < 5 { all.len() as int } else { 5 };
    join_spec(Seq::new(count as nat, |k: int| all[all.len() - 1 - k]), "\n"@)
}

/// The tail of a suite's output: its last five lines, the last one first.
pub fn summary(stdout: &str) -> (tail: String)
    ensures
        tail@ == summary_spec(stdout@),
{
    let all = lines(stdout);
    let ghost all_view = texts(all@);
    let count: usize = if all.len() < 5 { all.len() } else { 5 };
    let mut picked: Vec<String> = Vec::new();
    let mut k: usize = 0;
    while k < count
        invariant
            k <= count,
            count <= all@.len(),
            all_view == texts(all@),
            all_view == lines_spec(stdout@),
            count == (if all_view.len() < 5 { all_view.len() as int } else { 5 }),
            texts(picked@) == Seq::new(k as nat, |j: int| all_view[all_view.len() - 1 - j]),
        decreases count - k,
    {
        let ghost before = texts(picked@);
        let ghost old_picked = picked@;
        proof {
            assert(before.len() == k);
            assert(texts(old_picked).len() == old_picked.len());
            assert(old_picked.len() == k);
        }
        let item = all[all.len() - 1 - k].clone();
        proof { assert(item@ == all_view[all_view.len() - 1 - k as int]); }
        picked.push(item);
        proof {
            let target = Seq::new((k + 1) as nat, |j: int| all_view[all_view.len() - 1 - j]);
            assert forall|j: int| 0 <= j < k + 1 implies texts(picked@)[j] == target[j] by {
                assert(picked@ == old_picked.push(item));
                assert(texts(picked@)[j] == picked@[j]@);
                if j < k {
                    assert(picked@[j] == old_picked[j]);
                    assert(before[j] == old_picked[j]@);
                }
            }
            assert(texts(picked@) =~= target);
        }
        k = k + 1;
    }
    join(&picked, "\n")
}

} // verus!
