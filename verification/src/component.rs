//! The engine's call-level interface: form lookup, navigation, store
//! application and the two submission workflows, all over parsed values.
//!
//! The host passes a complete spec, context and answer snapshot into
//! every call and receives structured results; turning text into these
//! values and back is the host's business.

use vstd::prelude::*;

use crate::form::FormSpec;
use crate::json::{get_field, jview, jview_obj, obj_set, JsonValue, JsonView};
use crate::render::{payload_ok, RenderPayload, RenderStatus};
use crate::store::{spec_apply_ops, spec_namespace, StoreContext, StoreError, StoreErrorKind};
use crate::validate::{
    errs_view, spec_cross_errors, spec_missing, spec_unknown, spec_value_errors, ValidationResult,
};
use crate::visibility::VisibilityMode;

verus! {

/// Whether the loaded form carries the requested id.
pub fn ensure_form(spec: &FormSpec, form_id: &str) -> (r: bool)
    ensures
        r == (spec.id@ == form_id@),
{
    crate::strutil::str_eq(spec.id.as_str(), form_id)
}

/// Whether the context grants a secret-capable host store: the flag at
/// the top level, or nested under `config`.
pub open spec fn spec_host_available(ctx: JsonView) -> bool {
    match get_field(ctx, "secrets_host_available"@) {
        Some(JsonView::Bool(b)) => b,
        _ => match get_field(ctx, "config"@) {
            Some(cfg) => match get_field(cfg, "secrets_host_available"@) {
                Some(JsonView::Bool(b)) => b,
                _ => false,
            },
            None => false,
        },
    }
}

/// Reads the secret-host flag out of the context.
pub fn secrets_host_available(ctx: &JsonValue) -> (r: bool)
    ensures
        r == spec_host_available(ctx@),
{
    match ctx.get("secrets_host_available") {
        Some(v) => {
            match v.as_bool() {
                Some(b) => {
                    return b;
                },
                None => {},
            }
        },
        None => {},
    }
    proof {
        assert(!(match get_field(ctx@, "secrets_host_available"@) {
            Some(JsonView::Bool(b)) => true,
            _ => false,
        }));
    }
    match ctx.get("config") {
        Some(cfg) => {
            match cfg.get("secrets_host_available") {
                Some(v) => {
                    match v.as_bool() {
                        Some(b) => b,
                        None => false,
                    }
                },
                None => false,
            }
        },
        None => false,
    }
}

/// The answers carried inside a context value, an empty object when
/// absent.
pub open spec fn spec_context_answers(ctx: JsonView) -> JsonView {
    match get_field(ctx, "answers"@) {
        Some(a) => a,
        None => JsonView::Obj(Seq::empty()),
    }
}

/// Extracts the answer object from a context snapshot.
pub fn resolve_context_answers(ctx: &JsonValue) -> (r: JsonValue)
    ensures
        r@ == spec_context_answers(ctx@),
{
    match ctx.get("answers") {
        Some(a) => a.deep_copy(),
        None => JsonValue::empty_obj(),
    }
}

/// The answers after one question's value is stored: a non-object
/// answer set is replaced by a fresh object first.
pub open spec fn mutate_answers(answers: JsonView, question_id: Seq<char>, value: JsonView) -> JsonView {
    let entries = match answers {
        JsonView::Obj(entries) => entries,
        _ => Seq::empty(),
    };
    JsonView::Obj(obj_set(entries, question_id, value))
}

/// Stores one submitted value into the answer object.
pub fn with_answers_mutated(answers: &JsonValue, question_id: &str, value: JsonValue) -> (r:
    JsonValue)
    ensures
        r@ == mutate_answers(answers@, question_id@, value@),
{
    let mut entries: Vec<(String, JsonValue)> = match answers.as_object() {
        Some(e) => {
            let mut copy: Vec<(String, JsonValue)> = Vec::new();
            let n = e.len();
            let mut i: usize = 0;
            proof {
                crate::json::lemma_jview_obj(copy@);
                assert(jview_obj(copy@) =~= jview_obj(e@).take(0));
                crate::json::lemma_jview_obj(e@);
            }
            while i < n
                invariant
                    i <= n,
                    n == e@.len(),
                    jview_obj(e@).len() == n,
                    forall|j: int|
                        0 <= j < e@.len() ==> #[trigger] jview_obj(e@)[j] == (
                            e@[j].0@,
                            jview(e@[j].1),
                        ),
                    jview_obj(copy@) =~= jview_obj(e@).take(i as int),
                decreases n - i,
            {
                let ghost prev = copy@;
                let k = e[i].0.clone();
                let v = e[i].1.deep_copy();
                copy.push((k, v));
                proof {
                    crate::json::lemma_jview_obj(copy@);
                    crate::json::lemma_jview_obj(prev);
                    assert(jview_obj(copy@) =~= jview_obj(e@).take(i + 1));
                }
                i += 1;
            }
            proof {
                assert(jview_obj(e@).take(n as int) =~= jview_obj(e@));
            }
            copy
        },
        None => Vec::new(),
    };
    proof {
        if !(answers@ is Obj) {
            assert(jview_obj(entries@) =~= Seq::<(Seq<char>, JsonView)>::empty());
        }
    }
    crate::json::obj_entries_set(&mut entries, question_id, value);
    JsonValue::Obj(entries)
}

/// Generates the answer schema for the context's current answers.
pub fn get_answer_schema(spec: &FormSpec, ctx: &JsonValue) -> (r: JsonValue)
    ensures
        exists|vis: Seq<(String, bool)>|
            {
                &&& #[trigger] crate::visibility::vis_map_ok(
                    vis,
                    spec.questions@,
                    spec_context_answers(ctx@),
                    VisibilityMode::Visible,
                )
                &&& r@ == crate::schema::schema_view(spec.questions@, vis)
            },
{
    let answers = resolve_context_answers(ctx);
    let vis = crate::visibility::resolve_visibility(spec, &answers, VisibilityMode::Visible);
    crate::schema::answers_schema(spec, &vis)
}

/// Generates the example answers for the context's current answers.
pub fn get_example_answers(spec: &FormSpec, ctx: &JsonValue) -> (r: JsonValue)
    ensures
        exists|vis: Seq<(String, bool)>|
            {
                &&& #[trigger] crate::visibility::vis_map_ok(
                    vis,
                    spec.questions@,
                    spec_context_answers(ctx@),
                    VisibilityMode::Visible,
                )
                &&& r@ == crate::schema::examples_view(spec.questions@, vis)
            },
{
    let answers = resolve_context_answers(ctx);
    let vis = crate::visibility::resolve_visibility(spec, &answers, VisibilityMode::Visible);
    crate::schema::example_answers(spec, &vis)
}

/// The navigation summary returned by `next`.
pub struct NextResponse {
    pub status: RenderStatus,
    pub next_question_id: Option<String>,
    pub answered: usize,
    pub total: usize,
}

/// Computes the next question and the progress counters for one answer
/// snapshot; the status is `Complete` exactly when every visible
/// question is answered.
pub fn next(spec: &FormSpec, answers: &JsonValue) -> (r: NextResponse)
    ensures
        exists|vis: Seq<(String, bool)>|
            {
                &&& #[trigger] crate::visibility::vis_map_ok(
                    vis,
                    spec.questions@,
                    answers@,
                    VisibilityMode::Visible,
                )
                &&& (r.status == RenderStatus::Complete) == crate::progress::all_visible_answered(
                    spec.questions@,
                    answers@,
                    crate::progress::spec_effective_policy(*spec),
                    vis,
                )
                &&& (r.status == RenderStatus::Complete || r.status == RenderStatus::NeedInput)
                &&& (r.next_question_id is Some) == (r.status == RenderStatus::NeedInput)
                &&& r.answered == crate::progress::count_answered(
                    spec.questions@,
                    answers@,
                    crate::progress::spec_effective_policy(*spec),
                    vis,
                    spec.questions@.len() as int,
                )
                &&& r.total == crate::progress::count_visible(
                    spec.questions@,
                    vis,
                    spec.questions@.len() as int,
                )
                &&& (match r.next_question_id {
                    Some(id) => if crate::progress::spec_effective_policy(*spec).skip_answered {
                        match crate::progress::first_open_at(
                            spec.questions@,
                            answers@,
                            crate::progress::spec_effective_policy(*spec),
                            vis,
                            0,
                        ) {
                            Some(i) => id@ == spec.questions@[i].id@,
                            None => false,
                        }
                    } else {
                        match crate::progress::first_visible_at(spec.questions@, vis, 0) {
                            Some(i) => id@ == spec.questions@[i].id@,
                            None => false,
                        }
                    },
                    None => true,
                })
            },
{
    let vis = crate::visibility::resolve_visibility(spec, answers, VisibilityMode::Visible);
    let policy = crate::progress::effective_policy(spec);
    let next_q = crate::progress::next_question(spec, &policy, answers, &vis);
    let counts = crate::progress::progress_counts(spec, &policy, answers, &vis);
    let status = if next_q.is_some() {
        RenderStatus::NeedInput
    } else {
        RenderStatus::Complete
    };
    NextResponse { status, next_question_id: next_q, answered: counts.0, total: counts.1 }
}

/// Applies the form's store operations over the context's namespaces,
/// with the given answers as the answers namespace; all-or-nothing.
pub fn apply_store(spec: &FormSpec, ctx: &JsonValue, answers: &JsonValue) -> (r: Result<
    StoreContext,
    StoreError,
>)
    ensures
        match r {
            Ok(out) => spec_apply_ops(
                (answers@, spec_namespace(ctx@, "state"@), spec_namespace(ctx@, "secrets"@)),
                spec.store@,
                opt_policy(*spec),
                spec_host_available(ctx@),
                0,
            ) == Ok::<_, (int, StoreErrorKind)>((out.answers@, out.state@, out.secrets@)),
            Err(e) => spec_apply_ops(
                (answers@, spec_namespace(ctx@, "state"@), spec_namespace(ctx@, "secrets"@)),
                spec.store@,
                opt_policy(*spec),
                spec_host_available(ctx@),
                0,
            ) == Err::<(JsonView, JsonView, JsonView), _>((e.op_index as int, e.kind)),
        },
{
    let mut store_ctx = StoreContext::from_value(ctx);
    store_ctx.answers = answers.deep_copy();
    let host_available = secrets_host_available(ctx);
    let policy = match &spec.secrets_policy {
        Some(p) => Some(p),
        None => None,
    };
    match store_ctx.apply_ops(&spec.store, policy, host_available) {
        Ok(_) => Ok(store_ctx),
        Err(e) => Err(e),
    }
}

/// The form's secrets policy as an option over values.
pub open spec fn opt_policy(spec: FormSpec) -> Option<crate::form::SecretsPolicy> {
    spec.secrets_policy
}

/// The outcome of a submission: a validation failure, a store failure,
/// or an accepted submission with its updated store context.
pub enum SubmitOutcome {
    /// Validation failed; the caller reports the errors.
    Invalid { payload: RenderPayload, validation: ValidationResult },
    /// Validation passed but a store operation was refused.
    StoreFailed { error: StoreError },
    /// The submission was accepted and the store updated.
    Accepted { payload: RenderPayload, store: StoreContext },
}

/// Whether the validation verdict for these answers is clean.
pub open spec fn answers_valid(spec: FormSpec, answers: JsonView) -> bool {
    &&& spec_missing(spec.questions@, answers, 0).len() == 0
    &&& spec_value_errors(spec.questions@, answers, 0).len() == 0
    &&& spec_cross_errors(spec.validations@, answers, 0).len() == 0
    &&& spec_unknown(answers, spec.questions@).len() == 0
}

/// What every submission outcome must satisfy for a given final answer
/// set: invalid exactly when validation fails, and an accepted outcome
/// carries the all-or-nothing store result over those answers.
pub open spec fn submit_outcome_ok(
    r: SubmitOutcome,
    spec: FormSpec,
    ctx: JsonView,
    answers: JsonView,
) -> bool {
    match r {
        SubmitOutcome::Invalid { payload, validation } => {
            &&& !answers_valid(spec, answers)
            &&& payload_ok(payload, spec, answers)
            &&& errs_view(validation.errors@) == spec_value_errors(spec.questions@, answers, 0)
                + spec_cross_errors(spec.validations@, answers, 0)
            &&& crate::pointer::strs_view(validation.missing_required@) == spec_missing(
                spec.questions@,
                answers,
                0,
            )
            &&& crate::pointer::strs_view(validation.unknown_fields@) == spec_unknown(
                answers,
                spec.questions@,
            )
            &&& !validation.valid
        },
        SubmitOutcome::StoreFailed { error } => {
            &&& answers_valid(spec, answers)
            &&& spec_apply_ops(
                (answers, spec_namespace(ctx, "state"@), spec_namespace(ctx, "secrets"@)),
                spec.store@,
                opt_policy(spec),
                spec_host_available(ctx),
                0,
            ) == Err::<(JsonView, JsonView, JsonView), _>((error.op_index as int, error.kind))
        },
        SubmitOutcome::Accepted { payload, store } => {
            &&& answers_valid(spec, answers)
            &&& payload_ok(payload, spec, answers)
            &&& spec_apply_ops(
                (answers, spec_namespace(ctx, "state"@), spec_namespace(ctx, "secrets"@)),
                spec.store@,
                opt_policy(spec),
                spec_host_available(ctx),
                0,
            ) == Ok::<_, (int, StoreErrorKind)>((store.answers@, store.state@, store.secrets@))
        },
    }
}

/// Runs one submission over a complete answer set: validation first,
/// then the store batch; a validation failure never reaches the store.
pub fn submit_all(spec: &FormSpec, ctx: &JsonValue, answers: &JsonValue) -> (r: SubmitOutcome)
    ensures
        submit_outcome_ok(r, *spec, ctx@, answers@),
{
    let validation = crate::validate::validate(spec, answers);
    let payload = crate::render::build_render_payload(spec, answers);
    proof {
        assert(errs_view(validation.errors@).len() == validation.errors@.len());
        assert(crate::pointer::strs_view(validation.missing_required@).len()
            == validation.missing_required@.len());
        assert(crate::pointer::strs_view(validation.unknown_fields@).len()
            == validation.unknown_fields@.len());
    }
    if !validation.valid {
        return SubmitOutcome::Invalid { payload, validation };
    }
    match apply_store(spec, ctx, answers) {
        Ok(store) => SubmitOutcome::Accepted { payload, store },
        Err(error) => SubmitOutcome::StoreFailed { error },
    }
}

/// Stores one submitted value, then runs the submission over the
/// updated answers.
pub fn submit_patch(
    spec: &FormSpec,
    ctx: &JsonValue,
    answers: &JsonValue,
    question_id: &str,
    value: JsonValue,
) -> (r: (JsonValue, SubmitOutcome))
    ensures
        r.0@ == mutate_answers(answers@, question_id@, value@),
        submit_outcome_ok(r.1, *spec, ctx@, r.0@),
{
    let mutated = with_answers_mutated(answers, question_id, value);
    let outcome = submit_all(spec, ctx, &mutated);
    (mutated, outcome)
}

} // verus!
