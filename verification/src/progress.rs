//! The progress navigator: which visible question to ask next, and how
//! many are answered.
//!
//! A question counts as answered when an explicit non-null answer is
//! present; when the policy treats defaults as answers and the question
//! has one; or when it is computed and not overridden by an explicit
//! answer.  `next_question` returns `None` exactly when every visible
//! question is answered — the engine's only completion signal.

use vstd::prelude::*;

use crate::form::{FormSpec, ProgressPolicy, QuestionSpec};
use crate::json::{get_field, JsonValue, JsonView};
use crate::strutil::to_string;
use crate::visibility::{question_visible, vis_lookup, VisibilityMode};

verus! {

/// Whether the answers hold an explicit, non-null value for `id`.
pub open spec fn has_answer(answers: JsonView, id: Seq<char>) -> bool {
    match get_field(answers, id) {
        Some(v) => !(v is Null),
        None => false,
    }
}

/// Whether one question counts as answered under the policy.
pub open spec fn question_answered(q: QuestionSpec, answers: JsonView, policy: ProgressPolicy) -> bool {
    ||| has_answer(answers, q.id@)
    ||| (policy.treat_default_as_answered && q.default_value is Some && !has_answer(answers, q.id@))
    ||| (q.computed is Some && !(q.computed_overridable && has_answer(answers, q.id@)))
}

/// A question's visibility as recorded in the map; unmapped ids count
/// as visible.
pub open spec fn map_visible(vis: Seq<(String, bool)>, q: QuestionSpec) -> bool {
    vis_lookup(vis, q.id@, true)
}

/// Whether every visible question is answered.
pub open spec fn all_visible_answered(
    qs: Seq<QuestionSpec>,
    answers: JsonView,
    policy: ProgressPolicy,
    vis: Seq<(String, bool)>,
) -> bool {
    forall|i: int|
        0 <= i < qs.len() && map_visible(vis, #[trigger] qs[i]) ==> question_answered(
            qs[i],
            answers,
            policy,
        )
}

/// The index of the first visible question at or after `from`, if any.
pub open spec fn first_visible_at(qs: Seq<QuestionSpec>, vis: Seq<(String, bool)>, from: int) -> Option<int>
    decreases qs.len() - from,
        when 0 <= from <= qs.len()
{
    if from >= qs.len() {
        None
    } else if map_visible(vis, qs[from]) {
        Some(from)
    } else {
        first_visible_at(qs, vis, from + 1)
    }
}

/// The index of the first visible, unanswered question at or after
/// `from`, if any.
pub open spec fn first_open_at(
    qs: Seq<QuestionSpec>,
    answers: JsonView,
    policy: ProgressPolicy,
    vis: Seq<(String, bool)>,
    from: int,
) -> Option<int>
    decreases qs.len() - from,
        when 0 <= from <= qs.len()
{
    if from >= qs.len() {
        None
    } else if map_visible(vis, qs[from]) && !question_answered(qs[from], answers, policy) {
        Some(from)
    } else {
        first_open_at(qs, answers, policy, vis, from + 1)
    }
}

/// How many of the first `upto` questions are visible.
pub open spec fn count_visible(qs: Seq<QuestionSpec>, vis: Seq<(String, bool)>, upto: int) -> int
    decreases upto,
        when 0 <= upto <= qs.len()
{
    if upto <= 0 {
        0
    } else {
        count_visible(qs, vis, upto - 1) + if map_visible(vis, qs[upto - 1]) {
            1int
        } else {
            0int
        }
    }
}

/// How many of the first `upto` questions are visible and answered.
pub open spec fn count_answered(
    qs: Seq<QuestionSpec>,
    answers: JsonView,
    policy: ProgressPolicy,
    vis: Seq<(String, bool)>,
    upto: int,
) -> int
    decreases upto,
        when 0 <= upto <= qs.len()
{
    if upto <= 0 {
        0
    } else {
        count_answered(qs, answers, policy, vis, upto - 1) + if map_visible(vis, qs[upto - 1])
            && question_answered(qs[upto - 1], answers, policy) {
            1int
        } else {
            0int
        }
    }
}

/// Whether the question has an explicit, non-null answer.
pub fn question_has_answer(q: &QuestionSpec, answers: &JsonValue) -> (r: bool)
    ensures
        r == has_answer(answers@, q.id@),
{
    match answers.get(q.id.as_str()) {
        Some(v) => !v.is_null(),
        None => false,
    }
}

/// Whether the question counts as answered under the policy.
pub fn question_answered_exec(q: &QuestionSpec, answers: &JsonValue, policy: &ProgressPolicy) -> (r:
    bool)
    ensures
        r == question_answered(*q, answers@, *policy),
{
    let explicit = question_has_answer(q, answers);
    if explicit {
        return true;
    }
    if policy.treat_default_as_answered && q.default_value.is_some() {
        return true;
    }
    if q.computed.is_some() {
        return true;
    }
    false
}

/// The next question to ask: `None` exactly when every visible question
/// is answered; otherwise the first visible unanswered question when the
/// policy skips answered ones, and the first visible question at all
/// when it does not.
pub fn next_question(
    spec: &FormSpec,
    policy: &ProgressPolicy,
    answers: &JsonValue,
    vis: &Vec<(String, bool)>,
) -> (r: Option<String>)
    ensures
        (r is None) == all_visible_answered(spec.questions@, answers@, *policy, vis@),
        match r {
            Some(id) => {
                &&& if policy.skip_answered {
                    match first_open_at(spec.questions@, answers@, *policy, vis@, 0) {
                        Some(i) => id@ == spec.questions@[i].id@,
                        None => false,
                    }
                } else {
                    match first_visible_at(spec.questions@, vis@, 0) {
                        Some(i) => id@ == spec.questions@[i].id@,
                        None => false,
                    }
                }
            },
            None => true,
        },
{
    let qs = &spec.questions;
    let n = qs.len();
    let mut open_idx: Option<usize> = None;
    let mut vis_idx: Option<usize> = None;
    let mut i: usize = 0;
    while i < n
        invariant
            i <= n,
            n == qs@.len(),
            match open_idx {
                Some(k) => first_open_at(qs@, answers@, *policy, vis@, 0) == Some(k as int) && k
                    < n,
                None => first_open_at(qs@, answers@, *policy, vis@, 0) == first_open_at(
                    qs@,
                    answers@,
                    *policy,
                    vis@,
                    i as int,
                ),
            },
            match vis_idx {
                Some(k) => first_visible_at(qs@, vis@, 0) == Some(k as int) && k < n,
                None => first_visible_at(qs@, vis@, 0) == first_visible_at(qs@, vis@, i as int),
            },
        decreases n - i,
    {
        let visible = crate::visibility::vis_get(vis, qs[i].id.as_str());
        if visible {
            if vis_idx.is_none() {
                vis_idx = Some(i);
            }
            if open_idx.is_none() {
                let answered = question_answered_exec(&qs[i], answers, policy);
                if !answered {
                    open_idx = Some(i);
                }
            }
        }
        i += 1;
    }
    proof {
        lemma_first_open_none(qs@, answers@, *policy, vis@, n as int);
        lemma_open_means_not_all(qs@, answers@, *policy, vis@);
    }
    match open_idx {
        Some(k) => {
            if policy.skip_answered {
                Some(to_string(qs[k].id.as_str()))
            } else {
                match vis_idx {
                    Some(v) => Some(to_string(qs[v].id.as_str())),
                    None => {
                        proof {
                            lemma_open_implies_visible(qs@, answers@, *policy, vis@, 0);
                        }
                        None
                    },
                }
            }
        },
        None => None,
    }
}

/// Past the end, there is no open question; and an exhausted scan means
/// every visible question is answered.
proof fn lemma_first_open_none(
    qs: Seq<QuestionSpec>,
    answers: JsonView,
    policy: ProgressPolicy,
    vis: Seq<(String, bool)>,
    from: int,
)
    requires
        0 <= from <= qs.len(),
    ensures
        first_open_at(qs, answers, policy, vis, from) is None ==> forall|i: int|
            from <= i < qs.len() && map_visible(vis, #[trigger] qs[i]) ==> question_answered(
                qs[i],
                answers,
                policy,
            ),
    decreases qs.len() - from,
{
    if from < qs.len() {
        lemma_first_open_none(qs, answers, policy, vis, from + 1);
    }
}

/// An open question exists exactly when not every visible question is
/// answered.
proof fn lemma_open_means_not_all(
    qs: Seq<QuestionSpec>,
    answers: JsonView,
    policy: ProgressPolicy,
    vis: Seq<(String, bool)>,
)
    ensures
        (first_open_at(qs, answers, policy, vis, 0) is None) == all_visible_answered(
            qs,
            answers,
            policy,
            vis,
        ),
{
    lemma_first_open_none(qs, answers, policy, vis, 0);
    lemma_open_is_open(qs, answers, policy, vis, 0);
}

/// Whatever `first_open_at` returns is a visible unanswered question.
proof fn lemma_open_is_open(
    qs: Seq<QuestionSpec>,
    answers: JsonView,
    policy: ProgressPolicy,
    vis: Seq<(String, bool)>,
    from: int,
)
    requires
        0 <= from <= qs.len(),
    ensures
        match first_open_at(qs, answers, policy, vis, from) {
            Some(i) => from <= i < qs.len() && map_visible(vis, qs[i]) && !question_answered(
                qs[i],
                answers,
                policy,
            ),
            None => true,
        },
    decreases qs.len() - from,
{
    if from < qs.len() {
        lemma_open_is_open(qs, answers, policy, vis, from + 1);
    }
}

/// When some question is open, some question is visible.
proof fn lemma_open_implies_visible(
    qs: Seq<QuestionSpec>,
    answers: JsonView,
    policy: ProgressPolicy,
    vis: Seq<(String, bool)>,
    from: int,
)
    requires
        0 <= from <= qs.len(),
    ensures
        first_open_at(qs, answers, policy, vis, from) is Some ==> first_visible_at(
            qs,
            vis,
            from,
        ) is Some,
    decreases qs.len() - from,
{
    if from < qs.len() {
        lemma_open_implies_visible(qs, answers, policy, vis, from + 1);
    }
}

/// Counts the visible questions and the answered visible questions.
pub fn progress_counts(
    spec: &FormSpec,
    policy: &ProgressPolicy,
    answers: &JsonValue,
    vis: &Vec<(String, bool)>,
) -> (r: (usize, usize))
    ensures
        r.0 == count_answered(
            spec.questions@,
            answers@,
            *policy,
            vis@,
            spec.questions@.len() as int,
        ),
        r.1 == count_visible(spec.questions@, vis@, spec.questions@.len() as int),
        r.0 <= r.1 <= spec.questions@.len(),
{
    let qs = &spec.questions;
    let n = qs.len();
    let mut answered: usize = 0;
    let mut total: usize = 0;
    let mut i: usize = 0;
    while i < n
        invariant
            i <= n,
            n == qs@.len(),
            answered == count_answered(qs@, answers@, *policy, vis@, i as int),
            total == count_visible(qs@, vis@, i as int),
            answered <= total <= i,
        decreases n - i,
    {
        let visible = crate::visibility::vis_get(vis, qs[i].id.as_str());
        if visible {
            total += 1;
            if question_answered_exec(&qs[i], answers, policy) {
                answered += 1;
            }
        }
        i += 1;
    }
    (answered, total)
}

/// The policy a form runs under: its own, or the fallback.
pub fn effective_policy(spec: &FormSpec) -> (r: ProgressPolicy)
    ensures
        r == spec_effective_policy(*spec),
{
    match &spec.progress_policy {
        Some(p) => ProgressPolicy {
            skip_answered: p.skip_answered,
            autofill_defaults: p.autofill_defaults,
            treat_default_as_answered: p.treat_default_as_answered,
        },
        None => ProgressPolicy::fallback(),
    }
}

/// The policy a form runs under, as a specification.
pub open spec fn spec_effective_policy(spec: FormSpec) -> ProgressPolicy {
    match spec.progress_policy {
        Some(p) => p,
        None => ProgressPolicy {
            skip_answered: true,
            autofill_defaults: false,
            treat_default_as_answered: false,
        },
    }
}

} // verus!
