//! The questions document's registration rules: the rule that spans the
//! document (an id used twice), and the two a type cannot express — text
//! that is blank, and a `choice` with nothing to choose from.

use vstd::prelude::*;
use vstd::string::StringExecFns;

use crate::diagnostic::{Diagnostic, Subject};
use crate::text::{is_blank, readable, same_text};

verus! {

/// How a question is answered.
#[derive(Debug, Clone, Copy, PartialEq, Eq)]
pub enum AnswerType {
    Text,
    Choice,
    YesNo,
}

/// One question a node asks.
#[derive(Debug, Clone, PartialEq, Eq)]
pub struct Question {
    pub id: String,
    pub text: String,
    pub answer_type: AnswerType,
    /// The answers a `choice` allows.
    pub values: Vec<String>,
}

/// A parsed questions document.
#[derive(Debug, Clone, PartialEq, Eq)]
pub struct QuestionsFile {
    pub questions: Vec<Question>,
}

/// The sentence each rule's violation is reported with.
pub open spec fn rule_message(code: Seq<char>) -> Seq<char> {
    if code == "duplicate-id"@ {
        "a second question already carries this id; every id is declared once"@
    } else if code == "empty-text"@ {
        "`text` is empty; a person has to be able to read the question"@
    } else {
        "`answer_type` is `choice` but `values` is empty; list the answers allowed"@
    }
}

/// Whether an earlier question already carries question `i`'s id.
pub open spec fn id_taken(questions: Seq<Question>, i: int) -> bool {
    exists|j: int| 0 <= j < i && (#[trigger] questions[j]).id@ == questions[i].id@
}

/// The rules question `i` breaks, in the order they are checked.
pub open spec fn broken_rules(questions: Seq<Question>, i: int) -> Seq<Seq<char>> {
    (if id_taken(questions, i) { seq!["duplicate-id"@] } else { Seq::empty() })
        + (if !readable(questions[i].text@) { seq!["empty-text"@] } else { Seq::empty() })
        + (if questions[i].answer_type == AnswerType::Choice && questions[i].values@.len() == 0 {
            seq!["missing-values"@]
        } else {
            Seq::empty()
        })
}

/// Every violation among the first `n` questions, by question position and
/// rule, collected rather than stopping at the first.
pub open spec fn violations(questions: Seq<Question>, n: int) -> Seq<(int, Seq<char>)>
    decreases n,
{
    if n <= 0 || n > questions.len() {
        Seq::empty()
    } else {
        violations(questions, n - 1) + broken_rules(questions, n - 1).map_values(|code: Seq<char>| (n - 1, code))
    }
}

/// `errors` is `start` followed by one report of each of `added`, all about
/// question `i`.
pub open spec fn extends(errors: Seq<Diagnostic>, start: Seq<Diagnostic>, added: Seq<Seq<char>>, questions: Seq<Question>, i: int) -> bool {
    &&& errors.len() == start.len() + added.len()
    &&& forall|k: int| 0 <= k < start.len() ==> #[trigger] errors[k] == start[k]
    &&& forall|m: int| 0 <= m < added.len() ==> reports(#[trigger] errors[start.len() + m], questions, (i, added[m]))
}

/// Whether `diagnostic` reports `violation` of `questions`.
pub open spec fn reports(diagnostic: Diagnostic, questions: Seq<Question>, violation: (int, Seq<char>)) -> bool {
    &&& 0 <= violation.0 < questions.len()
    &&& diagnostic.subject == Subject::Question { id: Some(questions[violation.0].id), index: violation.0 as usize }
    &&& diagnostic.code@ == violation.1
    &&& diagnostic.message@ == rule_message(violation.1)
}

fn broke(index: usize, id: &String, code: &str, detail: &str) -> (diagnostic: Diagnostic)
    ensures
        diagnostic.subject == (Subject::Question { id: Some(*id), index }),
        diagnostic.code@ == code@,
        diagnostic.message@ == detail@,
{
    Diagnostic { subject: Subject::Question { id: Some(id.clone()), index }, code: code.to_string(), message: detail.to_string() }
}

/// Validates a parsed questions document, collecting every violation rather
/// than stopping at the first.
pub fn register(file: &QuestionsFile) -> (errors: Vec<Diagnostic>)
    ensures
        errors@.len() == violations(file.questions@, file.questions@.len() as int).len(),
        forall|k: int| 0 <= k < errors@.len()
            ==> reports(#[trigger] errors@[k], file.questions@, violations(file.questions@, file.questions@.len() as int)[k]),
{
    let questions = &file.questions;
    let mut errors: Vec<Diagnostic> = Vec::new();
    let mut i: usize = 0;
    while i < questions.len()
        invariant
            i <= questions@.len(),
            errors@.len() == violations(questions@, i as int).len(),
            forall|k: int| 0 <= k < errors@.len() ==> reports(#[trigger] errors@[k], questions@, violations(questions@, i as int)[k]),
        decreases questions@.len() - i,
    {
        let question = &questions[i];
        let ghost before = violations(questions@, i as int);
        let ghost rules = broken_rules(questions@, i as int);
        let ghost after = violations(questions@, i + 1);
        proof {
            assert(after == before + rules.map_values(|code: Seq<char>| (i as int, code)));
        }
        let mut taken = false;
        let mut j: usize = 0;
        while j < i
            invariant
                j <= i < questions@.len(),
                *question == questions@[i as int],
                taken == exists|t: int| 0 <= t < j && (#[trigger] questions@[t]).id@ == questions@[i as int].id@,
            decreases i - j,
        {
            if same_text(&questions[j].id, &question.id) {
                taken = true;
                proof { assert(questions@[j as int].id@ == questions@[i as int].id@); }
            }
            j = j + 1;
        }
        let ghost start = errors@;
        let ghost mut added: Seq<Seq<char>> = Seq::empty();
        proof {
            reveal_strlit("duplicate-id");
            reveal_strlit("empty-text");
            reveal_strlit("missing-values");
            assert("empty-text"@ != "duplicate-id"@) by { assert("empty-text"@[0] != "duplicate-id"@[0]); }
            assert("missing-values"@ != "duplicate-id"@) by { assert("missing-values"@[0] != "duplicate-id"@[0]); }
            assert("missing-values"@ != "empty-text"@) by { assert("missing-values"@[0] != "empty-text"@[0]); }
        }
        if taken {
            let d = broke(i, &question.id, "duplicate-id", "a second question already carries this id; every id is declared once");
            errors.push(d);
            proof {
                assert(reports(d, questions@, (i as int, "duplicate-id"@)));
                let prev = added;
                added = added.push("duplicate-id"@);
                assert forall|m: int| 0 <= m < added.len() implies reports(#[trigger] errors@[start.len() + m], questions@, (i as int, added[m])) by {
                    if m < prev.len() { assert(added[m] == prev[m]); }
                }
            }
        }
        if is_blank(question.text.as_str()) {
            let d = broke(i, &question.id, "empty-text", "`text` is empty; a person has to be able to read the question");
            let ghost mid = errors@;
            errors.push(d);
            proof {
                assert(reports(d, questions@, (i as int, "empty-text"@)));
                let prev = added;
                added = added.push("empty-text"@);
                assert forall|m: int| 0 <= m < added.len() implies reports(#[trigger] errors@[start.len() + m], questions@, (i as int, added[m])) by {
                    if m < prev.len() { assert(added[m] == prev[m]); assert(errors@[start.len() + m] == mid[start.len() + m]); }
                }
                assert forall|k: int| 0 <= k < start.len() implies #[trigger] errors@[k] == start[k] by {
                    assert(errors@[k] == mid[k]);
                }
            }
        }
        if matches!(question.answer_type, AnswerType::Choice) && question.values.len() == 0 {
            let d = broke(
                i,
                &question.id,
                "missing-values",
                "`answer_type` is `choice` but `values` is empty; list the answers allowed",
            );
            let ghost mid = errors@;
            errors.push(d);
            proof {
                assert(reports(d, questions@, (i as int, "missing-values"@)));
                let prev = added;
                added = added.push("missing-values"@);
                assert forall|m: int| 0 <= m < added.len() implies reports(#[trigger] errors@[start.len() + m], questions@, (i as int, added[m])) by {
                    if m < prev.len() { assert(added[m] == prev[m]); assert(errors@[start.len() + m] == mid[start.len() + m]); }
                }
                assert forall|k: int| 0 <= k < start.len() implies #[trigger] errors@[k] == start[k] by {
                    assert(errors@[k] == mid[k]);
                }
            }
        }
        proof {
            assert(added =~= rules);
            assert forall|k: int| 0 <= k < errors@.len() implies reports(#[trigger] errors@[k], questions@, after[k]) by {
                if k < start.len() {
                    assert(errors@[k] == start[k]);
                    assert(after[k] == before[k]);
                } else {
                    assert(after[k] == (i as int, rules[k - start.len()]));
                    assert(errors@[start.len() + (k - start.len())] == errors@[k]);
                }
            }
        }
        i = i + 1;
    }
    errors
}

} // verus!
