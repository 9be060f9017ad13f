//! The validator: type, constraint, enum and cross-field checks, scoped
//! to the questions currently visible.
//!
//! Invisible questions are never checked or reported missing.  A present
//! answer is checked for type first, then constraints in a fixed order,
//! then enum membership; the first failure wins.  String length bounds
//! measure the UTF-8 byte form.  Cross-field rules are evaluated over
//! the full
//! answer context and their failures are attributed to the configured
//! fields as given, with no visibility filter; a failing rule that
//! names no fields is reported once, unattributed.  The result is valid
//! exactly when no error, no missing required answer and no unknown
//! field was found.

use vstd::prelude::*;
use vstd::string::StrSliceExecFns;

use crate::form::{Constraint, CrossFieldValidation, FormSpec, QuestionSpec, QuestionType};
use crate::json::{get_field, jview, jview_obj, Dec as FormDec, JsonValue, JsonView};
use crate::num::{num_triple, triple_le};
use crate::pointer::strs_view;
use crate::strutil::{str_eq, to_string};
use crate::visibility::{question_visible, VisibilityMode};
use vstd::string::StringSliceAdditionalSpecFns;
use vstd::utf8::encode_utf8;

verus! {

/// One reported problem with one answer.
pub struct ValidationError {
    pub question_id: Option<String>,
    pub path: Option<String>,
    pub message: String,
    pub code: Option<String>,
}

/// The outcome of validating a whole answer set.
pub struct ValidationResult {
    pub valid: bool,
    pub errors: Vec<ValidationError>,
    pub missing_required: Vec<String>,
    pub unknown_fields: Vec<String>,
}

/// The ways one answer value can fail its question's checks.
#[derive(PartialEq, Eq, Structural, Clone, Copy)]
pub enum CheckFail {
    TypeMismatch,
    PatternMismatch,
    MinLength,
    MaxLength,
    Min,
    Max,
    MinItems,
    MaxItems,
    EnumMismatch,
}

/// Whether the regular expression compiles; a function of the pattern
/// alone.
pub uninterp spec fn regex_valid(pattern: Seq<char>) -> bool;

/// Whether the regular expression matches somewhere in the text; a
/// function of pattern and text alone.
pub uninterp spec fn regex_match(pattern: Seq<char>, text: Seq<char>) -> bool;

/// Relies on `regex::Regex::new` and `regex::Regex::is_match`: compiling
/// the same pattern and matching the same text always come out the same
/// way; `None` reports a pattern that does not compile.
#[verifier::external_body]
fn regex_is_match(pattern: &str, text: &str) -> (r: Option<bool>)
    ensures
        r == if regex_valid(pattern@) {
            Some(regex_match(pattern@, text@))
        } else {
            None::<bool>
        },
{
    match regex::Regex::new(pattern) {
        Ok(re) => Some(re.is_match(text)),
        Err(_) => None,
    }
}

/// The error code for one failure.
pub open spec fn code_of(f: CheckFail) -> Seq<char> {
    match f {
        CheckFail::TypeMismatch => "type_mismatch"@,
        CheckFail::PatternMismatch => "pattern_mismatch"@,
        CheckFail::MinLength => "min_length"@,
        CheckFail::MaxLength => "max_length"@,
        CheckFail::Min => "min"@,
        CheckFail::Max => "max"@,
        CheckFail::MinItems => "min_items"@,
        CheckFail::MaxItems => "max_items"@,
        CheckFail::EnumMismatch => "enum_mismatch"@,
    }
}

/// The human message for one failure.
pub open spec fn message_of(f: CheckFail) -> Seq<char> {
    match f {
        CheckFail::TypeMismatch => "type mismatch"@,
        CheckFail::PatternMismatch => "value does not match pattern"@,
        CheckFail::MinLength => "string shorter than min length"@,
        CheckFail::MaxLength => "string longer than max length"@,
        CheckFail::Min => "value below minimum"@,
        CheckFail::Max => "value above maximum"@,
        CheckFail::MinItems => "too few list items"@,
        CheckFail::MaxItems => "too many list items"@,
        CheckFail::EnumMismatch => "invalid enum option"@,
    }
}

/// Whether a value has the type its question demands.
pub open spec fn type_ok(kind: QuestionType, v: JsonView) -> bool {
    match kind {
        QuestionType::String => v is Str,
        QuestionType::Enum => v is Str,
        QuestionType::Boolean => v is Bool,
        QuestionType::Integer => v is Int,
        QuestionType::Number => v is Int || v is Num,
        QuestionType::List => v is Arr,
    }
}

/// The numeric triple of a constraint bound.
pub open spec fn dec_triple(d: FormDec) -> (bool, nat, int) {
    (d.neg, d.mant as nat, d.exp10 as int)
}

/// The first constraint failure, in the fixed order: pattern, minimum
/// and maximum length, numeric minimum and maximum, list item bounds.
pub open spec fn constraint_fail(q: QuestionSpec, v: JsonView) -> Option<CheckFail> {
    let c = q.constraint;
    if (match c {
        Some(c) => match (c.pattern, v) {
            (Some(p), JsonView::Str(s)) => regex_valid(p@) && !regex_match(p@, s),
            _ => false,
        },
        None => false,
    }) {
        Some(CheckFail::PatternMismatch)
    } else if (match c {
        Some(c) => match (c.min_len, v) {
            (Some(m), JsonView::Str(s)) => encode_utf8(s).len() < m,
            _ => false,
        },
        None => false,
    }) {
        Some(CheckFail::MinLength)
    } else if (match c {
        Some(c) => match (c.max_len, v) {
            (Some(m), JsonView::Str(s)) => encode_utf8(s).len() > m,
            _ => false,
        },
        None => false,
    }) {
        Some(CheckFail::MaxLength)
    } else if (match c {
        Some(c) => match (c.min, num_triple(v)) {
            (Some(d), Some(t)) => !triple_le(dec_triple(d), t),
            _ => false,
        },
        None => false,
    }) {
        Some(CheckFail::Min)
    } else if (match c {
        Some(c) => match (c.max, num_triple(v)) {
            (Some(d), Some(t)) => !triple_le(t, dec_triple(d)),
            _ => false,
        },
        None => false,
    }) {
        Some(CheckFail::Max)
    } else if (match (q.list, v) {
        (Some(l), JsonView::Arr(items)) => match l.min_items {
            Some(m) => items.len() < m,
            None => false,
        },
        _ => false,
    }) {
        Some(CheckFail::MinItems)
    } else if (match (q.list, v) {
        (Some(l), JsonView::Arr(items)) => match l.max_items {
            Some(m) => items.len() > m,
            None => false,
        },
        _ => false,
    }) {
        Some(CheckFail::MaxItems)
    } else {
        None
    }
}

/// Whether a string is one of the question's enum choices.
pub open spec fn choice_listed(choices: Seq<String>, s: Seq<char>) -> bool {
    exists|i: int| 0 <= i < choices.len() && (#[trigger] choices[i])@ == s
}

/// The enum-membership failure, when the question is an enum with
/// choices and the value names none of them.
pub open spec fn enum_fail(q: QuestionSpec, v: JsonView) -> Option<CheckFail> {
    if (match (q.kind, q.choices, v) {
        (QuestionType::Enum, Some(cs), JsonView::Str(s)) => !choice_listed(cs@, s),
        _ => false,
    }) {
        Some(CheckFail::EnumMismatch)
    } else {
        None
    }
}

/// The first failure of one present answer: type, then constraints,
/// then enum membership.
pub open spec fn value_check(q: QuestionSpec, v: JsonView) -> Option<CheckFail> {
    if !type_ok(q.kind, v) {
        Some(CheckFail::TypeMismatch)
    } else {
        match constraint_fail(q, v) {
            Some(f) => Some(f),
            None => enum_fail(q, v),
        }
    }
}

/// A reported error, reduced to its four field views.
pub open spec fn verr_view(e: ValidationError) -> (
    Option<Seq<char>>,
    Option<Seq<char>>,
    Seq<char>,
    Option<Seq<char>>,
) {
    (
        match e.question_id {
            Some(s) => Some(s@),
            None => None,
        },
        match e.path {
            Some(s) => Some(s@),
            None => None,
        },
        e.message@,
        match e.code {
            Some(s) => Some(s@),
            None => None,
        },
    )
}

/// The views of an error list.
pub open spec fn errs_view(s: Seq<ValidationError>) -> Seq<
    (Option<Seq<char>>, Option<Seq<char>>, Seq<char>, Option<Seq<char>>),
> {
    Seq::new(s.len(), |i: int| verr_view(s[i]))
}

/// The error attributed to one question for one failure.
pub open spec fn q_error_view(id: Seq<char>, f: CheckFail) -> (
    Option<Seq<char>>,
    Option<Seq<char>>,
    Seq<char>,
    Option<Seq<char>>,
) {
    (Some(id), Some(seq!['/'] + id), message_of(f), Some(code_of(f)))
}

/// Whether the question is visible under the validator's mode.
pub open spec fn q_visible(q: QuestionSpec, answers: JsonView) -> bool {
    question_visible(q, answers, VisibilityMode::Visible)
}

/// The ids of visible required questions with no answer entry at all,
/// in specification order.
pub open spec fn spec_missing(qs: Seq<QuestionSpec>, answers: JsonView, from: int) -> Seq<
    Seq<char>,
>
    decreases qs.len() - from,
        when 0 <= from <= qs.len()
{
    if from >= qs.len() {
        Seq::empty()
    } else {
        (if q_visible(qs[from], answers) && qs[from].required && get_field(
            answers,
            qs[from].id@,
        ) is None {
            seq![qs[from].id@]
        } else {
            Seq::empty()
        }) + spec_missing(qs, answers, from + 1)
    }
}

/// The per-question errors: each visible question with a present answer
/// that fails its checks contributes one error, in order.
pub open spec fn spec_value_errors(qs: Seq<QuestionSpec>, answers: JsonView, from: int) -> Seq<
    (Option<Seq<char>>, Option<Seq<char>>, Seq<char>, Option<Seq<char>>),
>
    decreases qs.len() - from,
        when 0 <= from <= qs.len()
{
    if from >= qs.len() {
        Seq::empty()
    } else {
        (match get_field(answers, qs[from].id@) {
            Some(v) => if q_visible(qs[from], answers) {
                match value_check(qs[from], v) {
                    Some(f) => seq![q_error_view(qs[from].id@, f)],
                    None => Seq::empty(),
                }
            } else {
                Seq::empty()
            },
            None => Seq::empty(),
        }) + spec_value_errors(qs, answers, from + 1)
    }
}

/// The errors of one failed cross-field rule: one per attributed
/// field, or a single unattributed error when the rule names no fields
/// — a failing rule is never silent.
pub open spec fn cross_errors_of(v: CrossFieldValidation) -> Seq<
    (Option<Seq<char>>, Option<Seq<char>>, Seq<char>, Option<Seq<char>>),
> {
    if v.fields@.len() == 0 {
        seq![
            (
                None,
                None,
                v.message@,
                match v.code {
                    Some(c) => Some(c@),
                    None => None,
                },
            ),
        ]
    } else {
        Seq::new(
            v.fields@.len(),
            |i: int|
                (
                    Some(v.fields@[i]@),
                    Some(seq!['/'] + v.fields@[i]@),
                    v.message@,
                    match v.code {
                        Some(c) => Some(c@),
                        None => None,
                    },
                ),
        )
    }
}

/// The cross-field errors: each rule whose condition is definitely false
/// contributes one error per attributed field, in order.
pub open spec fn spec_cross_errors(
    vals: Seq<CrossFieldValidation>,
    answers: JsonView,
    from: int,
) -> Seq<(Option<Seq<char>>, Option<Seq<char>>, Seq<char>, Option<Seq<char>>)>
    decreases vals.len() - from,
        when 0 <= from <= vals.len()
{
    if from >= vals.len() {
        Seq::empty()
    } else {
        (if crate::expr::eval(vals[from].condition, answers) == Some(false) {
            cross_errors_of(vals[from])
        } else {
            Seq::empty()
        }) + spec_cross_errors(vals, answers, from + 1)
    }
}

/// Whether some question carries this id.
pub open spec fn id_known(qs: Seq<QuestionSpec>, id: Seq<char>) -> bool {
    exists|i: int| 0 <= i < qs.len() && (#[trigger] qs[i]).id@ == id
}

/// The top-level answer keys naming no question, in answer order; a
/// non-object answer set has none.
pub open spec fn spec_unknown(answers: JsonView, qs: Seq<QuestionSpec>) -> Seq<Seq<char>> {
    match answers {
        JsonView::Obj(entries) => spec_unknown_at(entries, qs, 0),
        _ => Seq::empty(),
    }
}

/// The unknown keys among the entries from `from` on.
pub open spec fn spec_unknown_at(
    entries: Seq<(Seq<char>, JsonView)>,
    qs: Seq<QuestionSpec>,
    from: int,
) -> Seq<Seq<char>>
    decreases entries.len() - from,
        when 0 <= from <= entries.len()
{
    if from >= entries.len() {
        Seq::empty()
    } else {
        (if id_known(qs, entries[from].0) {
            Seq::empty()
        } else {
            seq![entries[from].0]
        }) + spec_unknown_at(entries, qs, from + 1)
    }
}

/// Whether a string equals one of the choices.
fn choice_listed_exec(choices: &Vec<String>, s: &str) -> (r: bool)
    ensures
        r == choice_listed(choices@, s@),
{
    let n = choices.len();
    let mut i: usize = 0;
    while i < n
        invariant
            i <= n,
            n == choices@.len(),
            forall|j: int| 0 <= j < i ==> (#[trigger] choices@[j])@ != s@,
        decreases n - i,
    {
        if str_eq(choices[i].as_str(), s) {
            return true;
        }
        i += 1;
    }
    false
}

/// Checks one present answer against its question: type, constraints,
/// enum membership, in that order.
pub fn value_check_exec(q: &QuestionSpec, v: &JsonValue) -> (r: Option<CheckFail>)
    ensures
        r == value_check(*q, v@),
{
    let ok = match (&q.kind, v) {
        (QuestionType::String, JsonValue::Str(_)) => true,
        (QuestionType::Enum, JsonValue::Str(_)) => true,
        (QuestionType::Boolean, JsonValue::Bool(_)) => true,
        (QuestionType::Integer, JsonValue::Int(_)) => true,
        (QuestionType::Number, JsonValue::Int(_)) => true,
        (QuestionType::Number, JsonValue::Num(_)) => true,
        (QuestionType::List, JsonValue::Arr(_)) => true,
        _ => false,
    };
    if !ok {
        return Some(CheckFail::TypeMismatch);
    }
    if let Some(c) = &q.constraint {
        if let (Some(p), Some(s)) = (&c.pattern, v.as_str()) {
            match regex_is_match(p.as_str(), s) {
                Some(false) => {
                    return Some(CheckFail::PatternMismatch);
                },
                _ => {},
            }
        }
        if let (Some(m), Some(s)) = (&c.min_len, v.as_str()) {
            let bytes = s.as_bytes_vec();
            proof {
                assert(bytes@ == encode_utf8(s@));
            }
            if bytes.len() < *m {
                return Some(CheckFail::MinLength);
            }
        }
        if let (Some(m), Some(s)) = (&c.max_len, v.as_str()) {
            let bytes = s.as_bytes_vec();
            proof {
                assert(bytes@ == encode_utf8(s@));
            }
            if bytes.len() > *m {
                return Some(CheckFail::MaxLength);
            }
        }
        if let Some(d) = &c.min {
            let bound = JsonValue::Num(crate::json::Dec { neg: d.neg, mant: d.mant, exp10: d.exp10 });
            match crate::num::cmp_values(&bound, v) {
                Some(cmp) => {
                    if cmp > 0 {
                        return Some(CheckFail::Min);
                    }
                },
                None => {},
            }
        }
        if let Some(d) = &c.max {
            let bound = JsonValue::Num(crate::json::Dec { neg: d.neg, mant: d.mant, exp10: d.exp10 });
            match crate::num::cmp_values(v, &bound) {
                Some(cmp) => {
                    if cmp > 0 {
                        return Some(CheckFail::Max);
                    }
                },
                None => {},
            }
        }
    }
    if let (Some(l), Some(items)) = (&q.list, v.as_array()) {
        proof {
            crate::json::lemma_jview_arr(items@);
        }
        if let Some(m) = &l.min_items {
            if items.len() < *m {
                return Some(CheckFail::MinItems);
            }
        }
        if let Some(m) = &l.max_items {
            if items.len() > *m {
                return Some(CheckFail::MaxItems);
            }
        }
    }
    if matches!(q.kind, QuestionType::Enum) {
        if let (Some(cs), Some(s)) = (&q.choices, v.as_str()) {
            if !choice_listed_exec(cs, s) {
                return Some(CheckFail::EnumMismatch);
            }
        }
    }
    None
}

/// The error message, code and path for one failed question.
fn build_error(id: &str, f: CheckFail) -> (r: ValidationError)
    ensures
        verr_view(r) == q_error_view(id@, f),
{
    let mut path = to_string("/");
    crate::strutil::push_str(&mut path, id);
    proof {
        reveal_strlit("/");
        assert(path@ =~= seq!['/'] + id@);
    }
    let message = match f {
        CheckFail::TypeMismatch => to_string("type mismatch"),
        CheckFail::PatternMismatch => to_string("value does not match pattern"),
        CheckFail::MinLength => to_string("string shorter than min length"),
        CheckFail::MaxLength => to_string("string longer than max length"),
        CheckFail::Min => to_string("value below minimum"),
        CheckFail::Max => to_string("value above maximum"),
        CheckFail::MinItems => to_string("too few list items"),
        CheckFail::MaxItems => to_string("too many list items"),
        CheckFail::EnumMismatch => to_string("invalid enum option"),
    };
    let code = match f {
        CheckFail::TypeMismatch => to_string("type_mismatch"),
        CheckFail::PatternMismatch => to_string("pattern_mismatch"),
        CheckFail::MinLength => to_string("min_length"),
        CheckFail::MaxLength => to_string("max_length"),
        CheckFail::Min => to_string("min"),
        CheckFail::Max => to_string("max"),
        CheckFail::MinItems => to_string("min_items"),
        CheckFail::MaxItems => to_string("max_items"),
        CheckFail::EnumMismatch => to_string("enum_mismatch"),
    };
    ValidationError {
        question_id: Some(to_string(id)),
        path: Some(path),
        message,
        code: Some(code),
    }
}

/// Whether one question is visible to the validator.
fn q_visible_exec(q: &QuestionSpec, answers: &JsonValue) -> (r: bool)
    ensures
        r == q_visible(*q, answers@),
{
    match &q.visible_if {
        Some(e) => match e.evaluate(answers) {
            Some(b) => b,
            None => true,
        },
        None => true,
    }
}

/// Validates the answers against the form: only visible questions are
/// checked or reported missing; the result is valid exactly when no
/// error, missing required answer or unknown field was found.
pub fn validate(spec: &FormSpec, answers: &JsonValue) -> (r: ValidationResult)
    ensures
        errs_view(r.errors@) == spec_value_errors(spec.questions@, answers@, 0)
            + spec_cross_errors(spec.validations@, answers@, 0),
        strs_view(r.missing_required@) == spec_missing(spec.questions@, answers@, 0),
        strs_view(r.unknown_fields@) == spec_unknown(answers@, spec.questions@),
        r.valid == (r.errors@.len() == 0 && r.missing_required@.len() == 0
            && r.unknown_fields@.len() == 0),
{
    let qs = &spec.questions;
    let n = qs.len();
    let mut errors: Vec<ValidationError> = Vec::new();
    let mut missing: Vec<String> = Vec::new();
    let mut i: usize = 0;
    proof {
        assert(errs_view(errors@) =~= Seq::<(
            Option<Seq<char>>,
            Option<Seq<char>>,
            Seq<char>,
            Option<Seq<char>>,
        )>::empty());
        assert(strs_view(missing@) =~= Seq::<Seq<char>>::empty());
    }
    while i < n
        invariant
            i <= n,
            n == qs@.len(),
            errs_view(errors@) + spec_value_errors(qs@, answers@, i as int) == spec_value_errors(
                qs@,
                answers@,
                0,
            ),
            strs_view(missing@) + spec_missing(qs@, answers@, i as int) == spec_missing(
                qs@,
                answers@,
                0,
            ),
        decreases n - i,
    {
        let q = &qs[i];
        let visible = q_visible_exec(q, answers);
        let ghost old_errs = errors@;
        let ghost old_missing = missing@;
        match answers.get(q.id.as_str()) {
            None => {
                if visible && q.required {
                    missing.push(to_string(q.id.as_str()));
                    proof {
                        assert(strs_view(missing@) =~= strs_view(old_missing).push(q.id@));
                    }
                }
            },
            Some(v) => {
                if visible {
                    match value_check_exec(q, v) {
                        Some(f) => {
                            let e = build_error(q.id.as_str(), f);
                            errors.push(e);
                            proof {
                                assert(errs_view(errors@) =~= errs_view(old_errs).push(
                                    q_error_view(q.id@, f),
                                ));
                            }
                        },
                        None => {},
                    }
                }
            },
        }
        proof {
            assert(errs_view(errors@) + spec_value_errors(qs@, answers@, i + 1)
                =~= errs_view(old_errs) + spec_value_errors(qs@, answers@, i as int));
            assert(strs_view(missing@) + spec_missing(qs@, answers@, i + 1) =~= strs_view(
                old_missing,
            ) + spec_missing(qs@, answers@, i as int));
        }
        i += 1;
    }
    proof {
        assert(spec_value_errors(qs@, answers@, n as int) =~= Seq::<(
            Option<Seq<char>>,
            Option<Seq<char>>,
            Seq<char>,
            Option<Seq<char>>,
        )>::empty());
        assert(spec_missing(qs@, answers@, n as int) =~= Seq::<Seq<char>>::empty());
        assert(errs_view(errors@) =~= spec_value_errors(qs@, answers@, 0));
        assert(strs_view(missing@) =~= spec_missing(qs@, answers@, 0));
    }
    let ghost value_errs = errs_view(errors@);
    let vals = &spec.validations;
    let vn = vals.len();
    let mut k: usize = 0;
    while k < vn
        invariant
            k <= vn,
            vn == vals@.len(),
            value_errs == spec_value_errors(spec.questions@, answers@, 0),
            errs_view(errors@) + spec_cross_errors(vals@, answers@, k as int) == value_errs
                + spec_cross_errors(vals@, answers@, 0),
        decreases vn - k,
    {
        let val = &vals[k];
        let ghost old_errs = errors@;
        let failed = match val.condition.evaluate(answers) {
            Some(false) => true,
            _ => false,
        };
        if failed {
            let fm = val.fields.len();
            if fm == 0 {
                let ghost prev = errors@;
                let code = match &val.code {
                    Some(c) => Some(to_string(c.as_str())),
                    None => None,
                };
                let e = ValidationError {
                    question_id: None,
                    path: None,
                    message: to_string(val.message.as_str()),
                    code,
                };
                errors.push(e);
                proof {
                    assert(errs_view(errors@) =~= errs_view(prev) + cross_errors_of(
                        vals@[k as int],
                    ));
                }
            } else {
            let mut fi: usize = 0;
            while fi < fm
                invariant
                    fi <= fm,
                    fm > 0,
                    fm == val.fields@.len(),
                    k < vals@.len(),
                    val == vals@[k as int],
                    errs_view(errors@) =~= errs_view(old_errs) + cross_errors_of(*val).take(
                        fi as int,
                    ),
                decreases fm - fi,
            {
                let ghost prev = errors@;
                let mut path = to_string("/");
                crate::strutil::push_str(&mut path, val.fields[fi].as_str());
                proof {
                    reveal_strlit("/");
                    assert(path@ =~= seq!['/'] + val.fields@[fi as int]@);
                }
                let code = match &val.code {
                    Some(c) => Some(to_string(c.as_str())),
                    None => None,
                };
                let e = ValidationError {
                    question_id: Some(to_string(val.fields[fi].as_str())),
                    path: Some(path),
                    message: to_string(val.message.as_str()),
                    code,
                };
                errors.push(e);
                proof {
                    assert(errs_view(errors@) =~= errs_view(prev).push(
                        cross_errors_of(vals@[k as int])[fi as int],
                    ));
                    assert(errs_view(prev).push(cross_errors_of(vals@[k as int])[fi as int])
                        =~= errs_view(old_errs) + cross_errors_of(vals@[k as int]).take(fi + 1));
                }
                fi += 1;
            }
            proof {
                assert(cross_errors_of(vals@[k as int]).take(fm as int) =~= cross_errors_of(
                    vals@[k as int],
                ));
            }
            }
        }
        proof {
            assert(errs_view(errors@) + spec_cross_errors(vals@, answers@, k + 1) =~= errs_view(
                old_errs,
            ) + spec_cross_errors(vals@, answers@, k as int));
        }
        k += 1;
    }
    proof {
        assert(spec_cross_errors(vals@, answers@, vn as int) =~= Seq::<(
            Option<Seq<char>>,
            Option<Seq<char>>,
            Seq<char>,
            Option<Seq<char>>,
        )>::empty());
        assert(errs_view(errors@) =~= value_errs + spec_cross_errors(vals@, answers@, 0));
    }
    let mut unknown: Vec<String> = Vec::new();
    proof {
        assert(strs_view(unknown@) =~= Seq::<Seq<char>>::empty());
    }
    match answers.as_object() {
        Some(entries) => {
            proof {
                crate::json::lemma_jview_obj(entries@);
            }
            let en = entries.len();
            let mut ei: usize = 0;
            while ei < en
                invariant
                    ei <= en,
                    en == entries@.len(),
                    answers@ == JsonView::Obj(jview_obj(entries@)),
                    jview_obj(entries@).len() == en,
                    forall|j: int|
                        0 <= j < entries@.len() ==> #[trigger] jview_obj(entries@)[j] == (
                            entries@[j].0@,
                            jview(entries@[j].1),
                        ),
                    strs_view(unknown@) + spec_unknown_at(
                        jview_obj(entries@),
                        spec.questions@,
                        ei as int,
                    ) == spec_unknown_at(jview_obj(entries@), spec.questions@, 0),
                decreases en - ei,
            {
                let ghost prev = unknown@;
                let mut known = false;
                let qn = spec.questions.len();
                let mut qi: usize = 0;
                while qi < qn && !known
                    invariant
                        qi <= qn,
                        qn == spec.questions@.len(),
                        ei < entries@.len(),
                        known ==> id_known(spec.questions@, entries@[ei as int].0@),
                        !known ==> forall|j: int|
                            0 <= j < qi ==> (#[trigger] spec.questions@[j]).id@
                                != entries@[ei as int].0@,
                    decreases qn - qi, (if known { 0int } else { 1int }),
                {
                    if str_eq(spec.questions[qi].id.as_str(), entries[ei].0.as_str()) {
                        known = true;
                        proof {
                            assert(id_known(spec.questions@, entries@[ei as int].0@));
                        }
                    } else {
                        qi += 1;
                    }
                }
                if !known {
                    unknown.push(to_string(entries[ei].0.as_str()));
                    proof {
                        assert(strs_view(unknown@) =~= strs_view(prev).push(
                            entries@[ei as int].0@,
                        ));
                    }
                }
                proof {
                    if known {
                        assert(spec_unknown_at(jview_obj(entries@), spec.questions@, ei as int)
                            == Seq::<Seq<char>>::empty() + spec_unknown_at(
                            jview_obj(entries@),
                            spec.questions@,
                            ei + 1,
                        ));
                        assert(strs_view(unknown@) + spec_unknown_at(
                            jview_obj(entries@),
                            spec.questions@,
                            ei + 1,
                        ) =~= strs_view(prev) + spec_unknown_at(
                            jview_obj(entries@),
                            spec.questions@,
                            ei as int,
                        ));
                    } else {
                        assert(!id_known(spec.questions@, jview_obj(entries@)[ei as int].0));
                        assert(strs_view(unknown@) + spec_unknown_at(
                            jview_obj(entries@),
                            spec.questions@,
                            ei + 1,
                        ) =~= strs_view(prev) + spec_unknown_at(
                            jview_obj(entries@),
                            spec.questions@,
                            ei as int,
                        ));
                    }
                }
                ei += 1;
            }
            proof {
                assert(spec_unknown_at(jview_obj(entries@), spec.questions@, en as int) =~= Seq::<
                    Seq<char>,
                >::empty());
                assert(strs_view(unknown@) =~= spec_unknown_at(
                    jview_obj(entries@),
                    spec.questions@,
                    0,
                ));
            }
        },
        None => {
            proof {
                assert(spec_unknown(answers@, spec.questions@) =~= Seq::<Seq<char>>::empty());
            }
        },
    }
    let valid = errors.is_empty() && missing.is_empty() && unknown.is_empty();
    ValidationResult { valid, errors, missing_required: missing, unknown_fields: unknown }
}

/// No missing entries from `from` on means every later visible required
/// question has an answer entry, and conversely.
proof fn lemma_missing_empty(qs: Seq<QuestionSpec>, answers: JsonView, from: int)
    requires
        0 <= from <= qs.len(),
    ensures
        (spec_missing(qs, answers, from).len() == 0) == (forall|i: int|
            from <= i < qs.len() && q_visible(#[trigger] qs[i], answers) && qs[i].required
                ==> get_field(answers, qs[i].id@) is Some),
    decreases qs.len() - from,
{
    if from < qs.len() {
        lemma_missing_empty(qs, answers, from + 1);
    }
}

/// No value errors from `from` on means every later visible present
/// answer passes its checks, and conversely.
proof fn lemma_value_errors_empty(qs: Seq<QuestionSpec>, answers: JsonView, from: int)
    requires
        0 <= from <= qs.len(),
    ensures
        (spec_value_errors(qs, answers, from).len() == 0) == (forall|i: int|
            from <= i < qs.len() && q_visible(#[trigger] qs[i], answers) ==> match get_field(
                answers,
                qs[i].id@,
            ) {
                Some(v) => value_check(qs[i], v) is None,
                None => true,
            }),
    decreases qs.len() - from,
{
    if from < qs.len() {
        lemma_value_errors_empty(qs, answers, from + 1);
    }
}

/// No cross-field errors from `from` on means no later rule fails,
/// and conversely.
proof fn lemma_cross_empty(vals: Seq<CrossFieldValidation>, answers: JsonView, from: int)
    requires
        0 <= from <= vals.len(),
    ensures
        (spec_cross_errors(vals, answers, from).len() == 0) == (forall|i: int|
            from <= i < vals.len() ==> crate::expr::eval((#[trigger] vals[i]).condition, answers)
                != Some(false)),
    decreases vals.len() - from,
{
    if from < vals.len() {
        lemma_cross_empty(vals, answers, from + 1);
    }
}

/// No unknown keys from `from` on means every later answer key names a
/// question, and conversely.
proof fn lemma_unknown_empty(
    entries: Seq<(Seq<char>, JsonView)>,
    qs: Seq<QuestionSpec>,
    from: int,
)
    requires
        0 <= from <= entries.len(),
    ensures
        (spec_unknown_at(entries, qs, from).len() == 0) == (forall|i: int|
            from <= i < entries.len() ==> id_known(qs, (#[trigger] entries[i]).0)),
    decreases entries.len() - from,
{
    if from < entries.len() {
        lemma_unknown_empty(entries, qs, from + 1);
    }
}

/// The validator's law: its result is valid exactly when every visible
/// required question has an answer entry, every visible present answer
/// is type-correct and passes its constraint and enum checks, every
/// cross-field condition holds, and every top-level answer key names a
/// question.
pub proof fn lemma_valid_characterization(spec: FormSpec, answers: JsonView)
    ensures
        (spec_missing(spec.questions@, answers, 0).len() == 0 && spec_value_errors(
            spec.questions@,
            answers,
            0,
        ).len() == 0 && spec_cross_errors(spec.validations@, answers, 0).len() == 0
            && spec_unknown(answers, spec.questions@).len() == 0) == ({
            &&& forall|i: int|
                0 <= i < spec.questions@.len() && q_visible(#[trigger] spec.questions@[i], answers)
                    && spec.questions@[i].required ==> get_field(
                    answers,
                    spec.questions@[i].id@,
                ) is Some
            &&& forall|i: int|
                0 <= i < spec.questions@.len() && q_visible(#[trigger] spec.questions@[i], answers)
                    ==> match get_field(answers, spec.questions@[i].id@) {
                    Some(v) => value_check(spec.questions@[i], v) is None,
                    None => true,
                }
            &&& forall|i: int|
                0 <= i < spec.validations@.len() ==> crate::expr::eval(
                    (#[trigger] spec.validations@[i]).condition,
                    answers,
                ) != Some(false)
            &&& match answers {
                JsonView::Obj(entries) => forall|i: int|
                    0 <= i < entries.len() ==> id_known(spec.questions@, (#[trigger] entries[i]).0),
                _ => true,
            }
        }),
{
    lemma_missing_empty(spec.questions@, answers, 0);
    lemma_value_errors_empty(spec.questions@, answers, 0);
    lemma_cross_empty(spec.validations@, answers, 0);
    match answers {
        JsonView::Obj(entries) => {
            lemma_unknown_empty(entries, spec.questions@, 0);
        },
        _ => {},
    }
}

} // verus!
