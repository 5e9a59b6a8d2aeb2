//! Identifiers and lists of identifiers, compared by their text.

use vstd::prelude::*;
use vstd::string::{StrSliceExecFns, StringExecFns};

verus! {

/// The text of every string in a list.
pub open spec fn texts(list: Seq<String>) -> Seq<Seq<char>> {
    list.map_values(|s: String| s@)
}

/// Two strings spell the same text.
pub fn same_text(a: &String, b: &String) -> (same: bool)
    ensures
        same == (a@ == b@),
{
    (*a) == (*b)
}

/// Whether `list` holds a string spelling `id`.
pub fn contains_text(list: &Vec<String>, id: &String) -> (found: bool)
    ensures
        found == texts(list@).contains(id@),
{
    let mut i: usize = 0;
    while i < list.len()
        invariant
            i <= list@.len(),
            forall|j: int| 0 <= j < i ==> list@[j]@ != id@,
        decreases list@.len() - i,
    {
        if same_text(&list[i], id) {
            assert(texts(list@)[i as int] == id@);
            return true;
        }
        i = i + 1;
    }
    proof {
        if texts(list@).contains(id@) {
            let j = choose|j: int| 0 <= j < texts(list@).len() && texts(list@)[j] == id@;
            assert(list@[j]@ == id@);
        }
    }
    false
}

/// Appends `id` unless `list` already holds it.
pub fn push_unique(list: &mut Vec<String>, id: String)
    ensures
        texts(old(list)@).contains(id@) ==> final(list)@ == old(list)@,
        !texts(old(list)@).contains(id@) ==> final(list)@ == old(list)@.push(id),
{
    if !contains_text(list, &id) {
        list.push(id);
    }
}

/// Growing a prefix by one element grows its filter by that element when
/// the predicate keeps it.
pub proof fn lemma_filter_step<A>(s: Seq<A>, pred: spec_fn(A) -> bool, i: int)
    requires
        0 <= i < s.len(),
    ensures
        s.subrange(0, i + 1).filter(pred) == (if pred(s[i]) {
            s.subrange(0, i).filter(pred).push(s[i])
        } else {
            s.subrange(0, i).filter(pred)
        }),
{
    reveal(Seq::filter);
    assert(s.subrange(0, i + 1).drop_last() =~= s.subrange(0, i));
}

pub proof fn lemma_filter_empty<A>(pred: spec_fn(A) -> bool)
    ensures
        Seq::<A>::empty().filter(pred) == Seq::<A>::empty(),
{
    reveal(Seq::filter);
}

/// A copy of a list of strings.
pub fn copy_strings(list: &Vec<String>) -> (copy: Vec<String>)
    ensures
        copy@ == list@,
{
    let mut copy: Vec<String> = Vec::new();
    let mut i: usize = 0;
    while i < list.len()
        invariant
            i <= list@.len(),
            copy@ == list@.subrange(0, i as int),
        decreases list@.len() - i,
    {
        copy.push(list[i].clone());
        i = i + 1;
    }
    proof { assert(list@.subrange(0, list@.len() as int) =~= list@); }
    copy
}

/// Two texts are the same.
pub fn text_equals(a: &str, b: &str) -> (same: bool)
    ensures
        same == (a@ == b@),
{
    a.to_string() == b.to_string()
}

/// The decimal digit `d` spells.
pub open spec fn digit_char(d: nat) -> char {
    if d == 0 { '0' } else if d == 1 { '1' } else if d == 2 { '2' } else if d == 3 { '3' }
    else if d == 4 { '4' } else if d == 5 { '5' } else if d == 6 { '6' } else if d == 7 { '7' }
    else if d == 8 { '8' } else { '9' }
}

/// `n` written in decimal, most significant digit first, no leading zero.
pub open spec fn decimal_spec(n: nat) -> Seq<char>
    decreases n,
{
    if n < 10 { seq![digit_char(n)] } else { decimal_spec(n / 10) + seq![digit_char(n % 10)] }
}

fn digit_str(d: u64) -> (s: &'static str)
    requires
        d < 10,
    ensures
        s@ == seq![digit_char(d as nat)],
{
    proof {
        reveal_strlit("0"); reveal_strlit("1"); reveal_strlit("2"); reveal_strlit("3"); reveal_strlit("4");
        reveal_strlit("5"); reveal_strlit("6"); reveal_strlit("7"); reveal_strlit("8"); reveal_strlit("9");
    }
    let s = if d == 0 { "0" } else if d == 1 { "1" } else if d == 2 { "2" } else if d == 3 { "3" }
        else if d == 4 { "4" } else if d == 5 { "5" } else if d == 6 { "6" } else if d == 7 { "7" }
        else if d == 8 { "8" } else { "9" };
    assert(s@ =~= seq![digit_char(d as nat)]);
    s
}

/// `n` written in decimal.
pub fn decimal(n: u64) -> (text: String)
    ensures
        text@ == decimal_spec(n as nat),
    decreases n,
{
    if n < 10 {
        return digit_str(n).to_string();
    }
    let mut text = decimal(n / 10);
    text.append(digit_str(n % 10));
    text
}

/// Two different characters: `x` ranks below `y` by code point, except
/// that a path separator ranks below every other character when
/// `slash_first`.
pub open spec fn ranks_below(x: char, y: char, slash_first: bool) -> bool {
    if slash_first && x == '/' {
        true
    } else if slash_first && y == '/' {
        false
    } else {
        (x as int) < (y as int)
    }
}

/// `a` sorts before `b` from position `i` on, comparing character ranks,
/// a proper prefix first.
pub open spec fn order_lt_from(a: Seq<char>, b: Seq<char>, i: int, slash_first: bool) -> bool
    decreases a.len() - i,
{
    if i < 0 || i >= a.len() {
        0 <= i < b.len()
    } else if i >= b.len() {
        false
    } else if a[i] != b[i] {
        ranks_below(a[i], b[i], slash_first)
    } else {
        order_lt_from(a, b, i + 1, slash_first)
    }
}

/// `a` sorts strictly before `b` as text, by code point.
pub open spec fn text_lt(a: Seq<char>, b: Seq<char>) -> bool {
    order_lt_from(a, b, 0, false)
}

/// `a` sorts strictly before `b` as a path: component by component, which
/// for paths without empty components is text order with the separator
/// ranked first.
pub open spec fn path_lt(a: Seq<char>, b: Seq<char>) -> bool {
    order_lt_from(a, b, 0, true)
}

fn order_less(a: &str, b: &str, slash_first: bool) -> (less: bool)
    ensures
        less == order_lt_from(a@, b@, 0, slash_first),
{
    let a_len = a.unicode_len();
    let b_len = b.unicode_len();
    let mut i: usize = 0;
    while i < a_len && i < b_len
        invariant
            a_len == a@.len(),
            b_len == b@.len(),
            i <= a_len,
            i <= b_len,
            order_lt_from(a@, b@, 0, slash_first) == order_lt_from(a@, b@, i as int, slash_first),
        decreases a_len - i,
    {
        let x = a.get_char(i);
        let y = b.get_char(i);
        if x != y {
            if slash_first && x == '/' {
                return true;
            }
            if slash_first && y == '/' {
                return false;
            }
            return (x as u32) < (y as u32);
        }
        i = i + 1;
    }
    i == a_len && i < b_len
}

/// Whether `a` sorts strictly before `b` as text.
pub fn text_less(a: &str, b: &str) -> (less: bool)
    ensures
        less == text_lt(a@, b@),
{
    order_less(a, b, false)
}

/// Whether `a` sorts strictly before `b` as a path.
pub fn path_less(a: &str, b: &str) -> (less: bool)
    ensures
        less == path_lt(a@, b@),
{
    order_less(a, b, true)
}

proof fn lemma_order_irreflexive(a: Seq<char>, i: int, f: bool)
    requires
        0 <= i,
    ensures
        !order_lt_from(a, a, i, f),
    decreases a.len() - i,
{
    if i < a.len() {
        lemma_order_irreflexive(a, i + 1, f);
    }
}

proof fn lemma_order_asymmetric(a: Seq<char>, b: Seq<char>, i: int, f: bool)
    requires
        0 <= i,
    ensures
        order_lt_from(a, b, i, f) ==> !order_lt_from(b, a, i, f),
    decreases a.len() - i,
{
    if i < a.len() && i < b.len() && a[i] == b[i] {
        lemma_order_asymmetric(a, b, i + 1, f);
    }
}

proof fn lemma_order_transitive(a: Seq<char>, b: Seq<char>, c: Seq<char>, i: int, f: bool)
    requires
        0 <= i,
    ensures
        order_lt_from(a, b, i, f) && order_lt_from(b, c, i, f) ==> order_lt_from(a, c, i, f),
    decreases a.len() - i,
{
    if i < a.len() && i < b.len() && i < c.len() && a[i] == b[i] && b[i] == c[i] {
        lemma_order_transitive(a, b, c, i + 1, f);
    }
}

proof fn lemma_order_total(a: Seq<char>, b: Seq<char>, i: int, f: bool)
    requires
        0 <= i <= a.len(),
        i <= b.len(),
    ensures
        !order_lt_from(a, b, i, f) && !order_lt_from(b, a, i, f) ==> a.skip(i) == b.skip(i),
    decreases a.len() - i,
{
    if i < a.len() && i < b.len() && a[i] == b[i] {
        lemma_order_total(a, b, i + 1, f);
        assert(a.skip(i) =~= seq![a[i]] + a.skip(i + 1));
        assert(b.skip(i) =~= seq![b[i]] + b.skip(i + 1));
    } else if i == a.len() && i == b.len() {
        assert(a.skip(i) =~= b.skip(i));
    }
}

/// Either order is a strict total order on texts.
pub proof fn lemma_order(a: Seq<char>, b: Seq<char>, c: Seq<char>, f: bool)
    ensures
        !order_lt_from(a, a, 0, f),
        order_lt_from(a, b, 0, f) ==> !order_lt_from(b, a, 0, f),
        order_lt_from(a, b, 0, f) && order_lt_from(b, c, 0, f) ==> order_lt_from(a, c, 0, f),
        !order_lt_from(a, b, 0, f) && !order_lt_from(b, a, 0, f) ==> a == b,
{
    lemma_order_irreflexive(a, 0, f);
    lemma_order_asymmetric(a, b, 0, f);
    lemma_order_transitive(a, b, c, 0, f);
    lemma_order_total(a, b, 0, f);
    assert(a.skip(0) =~= a);
    assert(b.skip(0) =~= b);
}

/// Text order is a strict total order on texts.
pub proof fn lemma_text_lt_order(a: Seq<char>, b: Seq<char>, c: Seq<char>)
    ensures
        !text_lt(a, a),
        text_lt(a, b) ==> !text_lt(b, a),
        text_lt(a, b) && text_lt(b, c) ==> text_lt(a, c),
        !text_lt(a, b) && !text_lt(b, a) ==> a == b,
{
    lemma_order(a, b, c, false);
}

/// Path order is a strict total order on paths.
pub proof fn lemma_path_lt_order(a: Seq<char>, b: Seq<char>, c: Seq<char>)
    ensures
        !path_lt(a, a),
        path_lt(a, b) ==> !path_lt(b, a),
        path_lt(a, b) && path_lt(b, c) ==> path_lt(a, c),
        !path_lt(a, b) && !path_lt(b, a) ==> a == b,
{
    lemma_order(a, b, c, true);
}

/// `n` written in decimal, with a minus sign when negative.
pub open spec fn signed_decimal_spec(n: int) -> Seq<char> {
    if n < 0 { "-"@ + decimal_spec((-n) as nat) } else { decimal_spec(n as nat) }
}

/// `n` written in decimal, with a minus sign when negative.
pub fn signed_decimal(n: i32) -> (text: String)
    ensures
        text@ == signed_decimal_spec(n as int),
{
    if n < 0 {
        let magnitude: u64 = (-(n as i64)) as u64;
        let digits = decimal(magnitude);
        let mut text = String::from_str("-");
        text.append(digits.as_str());
        text
    } else {
        decimal(n as u64)
    }
}

/// The 1-based position of the item at `index`, written in decimal.
pub fn ordinal(index: usize) -> (text: String)
    ensures
        text@ == decimal_spec(index as nat + 1),
{
    decimal_wide(index as u128 + 1)
}

/// `n` written in decimal.
pub fn decimal_wide(n: u128) -> (text: String)
    ensures
        text@ == decimal_spec(n as nat),
    decreases n,
{
    if n < 10 {
        return digit_str(n as u64).to_string();
    }
    let mut text = decimal_wide(n / 10);
    text.append(digit_str((n % 10) as u64));
    text
}

/// Whether a character is Unicode white space.
pub open spec fn is_white_space(c: char) -> bool {
    ||| c == '\u{9}' || c == '\u{a}' || c == '\u{b}' || c == '\u{c}' || c == '\u{d}' || c == ' '
    ||| c == '\u{85}' || c == '\u{a0}' || c == '\u{1680}'
    ||| ('\u{2000}' <= c && c <= '\u{200a}')
    ||| c == '\u{2028}' || c == '\u{2029}' || c == '\u{202f}' || c == '\u{205f}' || c == '\u{3000}'
}

/// Whether a text has something to read once white space is trimmed.
pub open spec fn readable(text: Seq<char>) -> bool {
    exists|i: int| 0 <= i < text.len() && !is_white_space(#[trigger] text[i])
}

/// Whether a character is white space.
pub fn white_space(c: char) -> (is: bool)
    ensures
        is == is_white_space(c),
{
    c == '\u{9}' || c == '\u{a}' || c == '\u{b}' || c == '\u{c}' || c == '\u{d}' || c == ' '
        || c == '\u{85}' || c == '\u{a0}' || c == '\u{1680}'
        || ('\u{2000}' <= c && c <= '\u{200a}')
        || c == '\u{2028}' || c == '\u{2029}' || c == '\u{202f}' || c == '\u{205f}' || c == '\u{3000}'
}

/// Whether a text is empty once white space is trimmed.
pub fn is_blank(text: &str) -> (blank: bool)
    ensures
        blank == !readable(text@),
{
    let len = text.unicode_len();
    let mut i: usize = 0;
    while i < len
        invariant
            len == text@.len(),
            i <= len,
            forall|k: int| 0 <= k < i ==> is_white_space(#[trigger] text@[k]),
        decreases len - i,
    {
        if !white_space(text.get_char(i)) {
            return false;
        }
        i = i + 1;
    }
    true
}

} // verus!
