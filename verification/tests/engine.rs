//! End-to-end tests of the form engine: visibility, navigation,
//! validation, the secrets gate, the store, rendering and the builder.

use qa_engine::builder::{
    build_binary_expression, build_bundle, default_prompt_for, describe_list_size,
    describe_type_hint, ensure_default_matches_type, question_step_id, sanitize_file_name,
    sanitize_identifier, summarize_list_fields, to_question_spec, validate_input,
    validate_question_input, CliQuestionType, FormInput, GenerationInput, QuestionInput, StepSpec,
};
use qa_engine::component::{
    apply_store, ensure_form, get_answer_schema, get_example_answers, next, secrets_host_available,
    submit_all, submit_patch, with_answers_mutated, NextResponse, SubmitOutcome,
};
use qa_engine::expr::Expr;
use qa_engine::form::{
    Constraint, CrossFieldValidation, FormSpec, ProgressPolicy, QuestionSpec, QuestionType,
    SecretsPolicy, StoreOp, StoreTarget,
};
use qa_engine::json::{Dec, JsonValue};
use qa_engine::render::{build_render_payload, render_card, render_json_ui, render_text, RenderStatus};
use qa_engine::secrets::{evaluate, DenyReason, SecretAccessResult, SecretAction};
use qa_engine::store::{StoreContext, StoreErrorKind};
use qa_engine::validate::validate;
use qa_engine::visibility::{resolve_visibility, vis_get, VisibilityMode};
use qa_engine::wizard::{
    encode_hex, gather_validation_details, parse_answer, trim_exec, QuestionKind,
    RenderStatus as WizardStatus, WizardPayload,
};

fn jstr(s: &str) -> JsonValue {
    JsonValue::Str(s.to_string())
}

fn jobj(entries: Vec<(&str, JsonValue)>) -> JsonValue {
    let mut out: Vec<(String, JsonValue)> = Vec::new();
    for (k, v) in entries {
        out.push((k.to_string(), v));
    }
    JsonValue::Obj(out)
}

fn question(id: &str, kind: QuestionType, required: bool) -> QuestionSpec {
    QuestionSpec {
        id: id.to_string(),
        kind,
        title: id.to_string(),
        description: None,
        required,
        choices: None,
        default_value: None,
        secret: false,
        visible_if: None,
        constraint: None,
        list: None,
        computed: None,
        computed_overridable: false,
    }
}

fn form(id: &str, questions: Vec<QuestionSpec>) -> FormSpec {
    FormSpec {
        id: id.to_string(),
        title: id.to_string(),
        version: "1.0".to_string(),
        description: None,
        presentation: None,
        progress_policy: None,
        secrets_policy: None,
        store: Vec::new(),
        questions,
        validations: Vec::new(),
    }
}

/// The fixture the host ships as its fallback form: one required string
/// question and one optional boolean question.
fn example_form() -> FormSpec {
    let mut f = form("example-form", vec![
        question("q1", QuestionType::String, true),
        question("q2", QuestionType::Boolean, false),
    ]);
    f.title = "Example Form".to_string();
    f
}

fn as_text(v: &JsonValue) -> String {
    match v.as_str() {
        Some(s) => s.to_string(),
        None => panic!("expected a string value"),
    }
}

fn to_serde(v: &JsonValue) -> serde_json::Value {
    match v {
        JsonValue::Null => serde_json::Value::Null,
        JsonValue::Bool(b) => serde_json::Value::Bool(*b),
        JsonValue::Int(i) => serde_json::Value::Number(serde_json::Number::from(*i)),
        JsonValue::Num(d) => {
            let text = format!(
                "{}{}e{}",
                if d.neg { "-" } else { "" },
                d.mant,
                d.exp10
            );
            let parsed: f64 = text.parse().expect("decimal text");
            serde_json::Value::Number(
                serde_json::Number::from_f64(parsed).expect("finite decimal"),
            )
        }
        JsonValue::Str(s) => serde_json::Value::String(s.clone()),
        JsonValue::Arr(items) => {
            serde_json::Value::Array(items.iter().map(to_serde).collect())
        }
        JsonValue::Obj(entries) => {
            let mut map = serde_json::Map::new();
            for (k, v) in entries {
                map.insert(k.clone(), to_serde(v));
            }
            serde_json::Value::Object(map)
        }
    }
}

#[test]
fn schema_matches_questions() {
    let spec = example_form();
    let ctx = jobj(vec![]);
    let schema = get_answer_schema(&spec, &ctx);
    let props = schema.get("properties").expect("properties");
    assert!(props.get("q1").is_some());
}

#[test]
fn example_answers_include_question_values() {
    let spec = example_form();
    let ctx = jobj(vec![]);
    let examples = get_example_answers(&spec, &ctx);
    let q1 = examples.get("q1").expect("q1 example");
    assert_eq!(as_text(q1), "example-q1");
}

#[test]
fn validate_answers_reports_valid_when_complete() {
    let spec = example_form();
    let answers = jobj(vec![("q1", jstr("tester")), ("q2", JsonValue::Bool(true))]);
    let result = validate(&spec, &answers);
    assert!(result.valid);
}

#[test]
fn next_returns_progress_payload() {
    let mut spec = form("progress-form", vec![
        question("q1", QuestionType::String, true),
        question("q2", QuestionType::String, true),
    ]);
    spec.title = "Progress".to_string();
    spec.progress_policy = Some(ProgressPolicy {
        skip_answered: true,
        autofill_defaults: false,
        treat_default_as_answered: false,
    });
    let answers = jobj(vec![("q1", jstr("test"))]);
    let r: NextResponse = next(&spec, &answers);
    assert_eq!(r.status, RenderStatus::NeedInput);
    assert_eq!(r.next_question_id.as_deref(), Some("q2"));
    assert_eq!(r.answered, 1);
    assert_eq!(r.total, 2);
}

#[test]
fn apply_store_writes_state_value() {
    let mut spec = form("store-form", vec![question("q1", QuestionType::String, true)]);
    spec.title = "Store".to_string();
    spec.store = vec![StoreOp {
        target: StoreTarget::State,
        path: "/flag".to_string(),
        value: JsonValue::Bool(true),
    }];
    let ctx = jobj(vec![("state", jobj(vec![]))]);
    let answers = jobj(vec![]);
    let out = apply_store(&spec, &ctx, &answers).expect("store should apply");
    let flag = out.state.get("flag").expect("flag");
    assert!(matches!(flag, JsonValue::Bool(true)));
}

#[test]
fn apply_store_writes_secret_when_allowed() {
    let mut spec = form("store-secret", vec![question("q1", QuestionType::String, true)]);
    spec.title = "Store Secret".to_string();
    spec.store = vec![StoreOp {
        target: StoreTarget::Secrets,
        path: "/aws/key".to_string(),
        value: jstr("value"),
    }];
    spec.secrets_policy = Some(SecretsPolicy {
        enabled: true,
        read_enabled: true,
        write_enabled: true,
        allow: vec!["aws/*".to_string()],
        deny: Vec::new(),
    });
    let ctx = jobj(vec![
        ("state", jobj(vec![])),
        ("secrets_host_available", JsonValue::Bool(true)),
    ]);
    let answers = jobj(vec![]);
    let out = apply_store(&spec, &ctx, &answers).expect("secret write should apply");
    let aws = out.secrets.get("aws").expect("aws");
    let key = aws.get("key").expect("key");
    assert_eq!(as_text(key), "value");
}

#[test]
fn apply_store_denies_secret_outside_allow_list() {
    let mut spec = form("store-secret-denied", vec![question("q1", QuestionType::String, true)]);
    spec.store = vec![StoreOp {
        target: StoreTarget::Secrets,
        path: "/other/key".to_string(),
        value: jstr("value"),
    }];
    spec.secrets_policy = Some(SecretsPolicy {
        enabled: true,
        read_enabled: true,
        write_enabled: true,
        allow: vec!["aws/*".to_string()],
        deny: Vec::new(),
    });
    let ctx = jobj(vec![("secrets_host_available", JsonValue::Bool(true))]);
    let answers = jobj(vec![]);
    let err = apply_store(&spec, &ctx, &answers).expect_err("write must be denied");
    assert_eq!(err.op_index, 0);
    assert_eq!(err.kind, StoreErrorKind::WriteDenied);
}

#[test]
fn store_apply_is_all_or_nothing() {
    let mut ctx = StoreContext::new_empty();
    let ops = vec![
        StoreOp {
            target: StoreTarget::State,
            path: "/written".to_string(),
            value: JsonValue::Bool(true),
        },
        StoreOp {
            target: StoreTarget::Secrets,
            path: "/aws/key".to_string(),
            value: jstr("value"),
        },
    ];
    let before = ctx.to_value();
    let result = ctx.apply_ops(&ops, None, true);
    assert!(result.is_err());
    let after = ctx.to_value();
    assert!(before.eq_value(&after));
    assert!(ctx.state.get("written").is_none());
}

#[test]
fn store_context_round_trips_bytes() {
    let ctx_value = jobj(vec![
        ("answers", jobj(vec![("q1", jstr("Acme"))])),
        ("state", jobj(vec![("flag", JsonValue::Bool(true))])),
        ("secrets", jobj(vec![])),
    ]);
    let ctx = StoreContext::from_value(&ctx_value);
    let first = serde_json::to_string(&to_serde(&ctx.to_value())).expect("encode");
    let reparsed: serde_json::Value = serde_json::from_str(&first).expect("decode");
    let second = serde_json::to_string(&reparsed).expect("re-encode");
    assert_eq!(first, second);
}

#[test]
fn render_text_outputs_summary() {
    let spec = example_form();
    let answers = jobj(vec![]);
    let payload = build_render_payload(&spec, &answers);
    let output = render_text(&payload);
    assert!(output.contains("Form:"));
    assert!(output.contains("Visible questions"));
}

#[test]
fn render_text_includes_next_question() {
    let spec = example_form();
    let answers = jobj(vec![]);
    let payload = build_render_payload(&spec, &answers);
    assert_eq!(payload.status, RenderStatus::NeedInput);
    assert_eq!(payload.next_question_id.as_deref(), Some("q1"));
    let text = render_text(&payload);
    assert!(text.contains("Next question"));
    assert!(text.contains("Visible questions"));
}

#[test]
fn render_json_ui_outputs_json_payload() {
    let spec = example_form();
    let answers = jobj(vec![("q1", jstr("value"))]);
    let payload = build_render_payload(&spec, &answers);
    let ui = render_json_ui(&payload);
    assert_eq!(as_text(ui.get("form_id").expect("form_id")), "example-form");
    let progress = ui.get("progress").expect("progress");
    assert!(matches!(progress.get("total").expect("total"), JsonValue::Int(2)));
}

#[test]
fn render_json_ui_exposes_structure() {
    let spec = example_form();
    let answers = jobj(vec![("q1", jstr("test-corp"))]);
    let payload = build_render_payload(&spec, &answers);
    let ui = render_json_ui(&payload);
    assert_eq!(as_text(ui.get("form_id").expect("form_id")), "example-form");
    let questions = match ui.get("questions").expect("questions").as_array() {
        Some(items) => items,
        None => panic!("questions array"),
    };
    assert_eq!(questions.len(), 2);
    assert_eq!(as_text(questions[0].get("id").expect("id")), "q1");
    assert!(matches!(
        questions[0].get("visible").expect("visible"),
        JsonValue::Bool(true)
    ));
}

#[test]
fn render_card_outputs_patch_action() {
    let spec = example_form();
    let answers = jobj(vec![]);
    let payload = build_render_payload(&spec, &answers);
    let card = render_card(&payload);
    assert_eq!(as_text(card.get("version").expect("version")), "1.3");
    let actions = match card.get("actions").expect("actions").as_array() {
        Some(items) => items,
        None => panic!("actions array"),
    };
    assert_eq!(as_text(actions[0].get("type").expect("type")), "Action.Submit");
    let data = actions[0].get("data").expect("data");
    let qa = data.get("qa").expect("qa");
    assert_eq!(as_text(qa.get("mode").expect("mode")), "patch");
}

#[test]
fn render_card_uses_choice_input_for_enum() {
    let mut q = question("q_enum", QuestionType::Enum, true);
    q.title = "Choose option".to_string();
    q.choices = Some(vec!["alpha".to_string(), "beta".to_string()]);
    let mut spec = form("enum-form", vec![q]);
    spec.title = "Enum Form".to_string();
    let answers = jobj(vec![("q1", jstr("example-q1"))]);
    let payload = build_render_payload(&spec, &answers);
    let card = render_card(&payload);
    let body = match card.get("body").expect("body").as_array() {
        Some(items) => items,
        None => panic!("body array"),
    };
    let container = body
        .iter()
        .find(|item| match item.get("type") {
            Some(t) => as_text(t) == "Container",
            None => false,
        })
        .expect("question container");
    let items = match container.get("items").expect("items").as_array() {
        Some(items) => items,
        None => panic!("items array"),
    };
    assert!(items.iter().any(|item| match item.get("type") {
        Some(t) => as_text(t) == "Input.ChoiceSet",
        None => false,
    }));
}

#[test]
fn submit_patch_advances_and_updates_store() {
    let spec = example_form();
    let ctx = jobj(vec![]);
    let answers = jobj(vec![]);
    let (mutated, outcome) = submit_patch(&spec, &ctx, &answers, "q1", jstr("Acme"));
    assert_eq!(as_text(mutated.get("q1").expect("q1")), "Acme");
    match outcome {
        SubmitOutcome::Accepted { payload, store } => {
            assert_eq!(payload.status, RenderStatus::NeedInput);
            assert_eq!(payload.next_question_id.as_deref(), Some("q2"));
            assert_eq!(as_text(store.answers.get("q1").expect("stored q1")), "Acme");
        }
        _ => panic!("submission should be accepted"),
    }
}

#[test]
fn submit_patch_returns_validation_error() {
    let spec = example_form();
    let ctx = jobj(vec![]);
    let answers = jobj(vec![]);
    let (_, outcome) = submit_patch(&spec, &ctx, &answers, "q1", JsonValue::Bool(true));
    match outcome {
        SubmitOutcome::Invalid { validation, .. } => {
            assert!(!validation.valid);
            assert_eq!(
                validation.errors[0].code.as_deref(),
                Some("type_mismatch")
            );
        }
        _ => panic!("submission should be invalid"),
    }
}

#[test]
fn submit_all_completes_with_valid_answers() {
    let spec = example_form();
    let ctx = jobj(vec![]);
    let answers = jobj(vec![("q1", jstr("Acme")), ("q2", JsonValue::Bool(true))]);
    match submit_all(&spec, &ctx, &answers) {
        SubmitOutcome::Accepted { payload, store } => {
            assert_eq!(payload.status, RenderStatus::Complete);
            assert!(payload.next_question_id.is_none());
            assert!(matches!(
                store.answers.get("q2").expect("stored q2"),
                JsonValue::Bool(true)
            ));
        }
        _ => panic!("submission should be accepted"),
    }
}

#[test]
fn submit_final_required_answer_completes() {
    let spec = form("pair-form", vec![
        question("first", QuestionType::String, true),
        question("second", QuestionType::String, true),
    ]);
    let ctx = jobj(vec![]);
    let answers = jobj(vec![("first", jstr("done"))]);
    let (mutated, outcome) = submit_patch(&spec, &ctx, &answers, "second", jstr("also done"));
    match outcome {
        SubmitOutcome::Accepted { payload, store } => {
            assert_eq!(payload.status, RenderStatus::Complete);
            assert!(payload.next_question_id.is_none());
            assert_eq!(as_text(store.answers.get("first").expect("first")), "done");
            assert_eq!(
                as_text(store.answers.get("second").expect("second")),
                "also done"
            );
            assert!(store.answers.eq_value(&mutated));
        }
        _ => panic!("submission should be accepted"),
    }
}

#[test]
fn visibility_map_is_total_and_ordered() {
    let mut hidden = question("extra", QuestionType::String, false);
    hidden.visible_if = Some(Expr::Eq {
        left: Box::new(Expr::Answer { path: "q1".to_string() }),
        right: Box::new(Expr::Literal { value: jstr("yes") }),
    });
    let spec = form("vis-form", vec![
        question("q1", QuestionType::String, true),
        hidden,
    ]);
    let answers = jobj(vec![]);
    let vis = resolve_visibility(&spec, &answers, VisibilityMode::Visible);
    assert_eq!(vis.len(), 2);
    assert_eq!(vis[0].0, "q1");
    assert_eq!(vis[1].0, "extra");
    assert!(vis[0].1);
    assert!(vis[1].1);
    let again = resolve_visibility(&spec, &answers, VisibilityMode::Visible);
    assert_eq!(vis[1].1, again[1].1);
    let strict = resolve_visibility(&spec, &answers, VisibilityMode::Hidden);
    assert!(!strict[1].1);
    let yes = jobj(vec![("q1", jstr("no"))]);
    let decided = resolve_visibility(&spec, &yes, VisibilityMode::Visible);
    assert!(!decided[1].1);
    assert!(vis_get(&decided, "q1"));
}

#[test]
fn next_is_none_exactly_when_all_visible_answered() {
    let spec = form("done-form", vec![
        question("a", QuestionType::String, true),
        question("b", QuestionType::String, false),
    ]);
    let partial = jobj(vec![("a", jstr("x"))]);
    let partial_next = next(&spec, &partial);
    assert_eq!(partial_next.next_question_id.as_deref(), Some("b"));
    let full = jobj(vec![("a", jstr("x")), ("b", jstr("y"))]);
    let full_next = next(&spec, &full);
    assert!(full_next.next_question_id.is_none());
    assert_eq!(full_next.status, RenderStatus::Complete);
}

#[test]
fn computed_questions_count_as_answered() {
    let mut computed = question("derived", QuestionType::String, false);
    computed.computed = Some(Expr::Answer { path: "a".to_string() });
    let spec = form("computed-form", vec![
        question("a", QuestionType::String, true),
        computed,
    ]);
    let answers = jobj(vec![("a", jstr("x"))]);
    let r = next(&spec, &answers);
    assert!(r.next_question_id.is_none());
    assert_eq!(r.answered, 2);
}

#[test]
fn default_counts_as_answered_only_under_policy() {
    let mut with_default = question("pick", QuestionType::String, false);
    with_default.default_value = Some("fallback".to_string());
    let mut spec = form("default-form", vec![with_default]);
    let empty = jobj(vec![]);
    let asked = next(&spec, &empty);
    assert_eq!(asked.next_question_id.as_deref(), Some("pick"));
    spec.progress_policy = Some(ProgressPolicy {
        skip_answered: true,
        autofill_defaults: false,
        treat_default_as_answered: true,
    });
    let satisfied = next(&spec, &empty);
    assert!(satisfied.next_question_id.is_none());
}

#[test]
fn invisible_required_questions_are_not_missing() {
    let mut gated = question("secret_detail", QuestionType::String, true);
    gated.visible_if = Some(Expr::Eq {
        left: Box::new(Expr::Answer { path: "mode".to_string() }),
        right: Box::new(Expr::Literal { value: jstr("advanced") }),
    });
    let spec = form("gate-form", vec![
        question("mode", QuestionType::String, true),
        gated,
    ]);
    let answers = jobj(vec![("mode", jstr("simple"))]);
    let result = validate(&spec, &answers);
    assert!(result.valid);
    assert!(result.missing_required.is_empty());
}

#[test]
fn validation_reports_missing() {
    let spec = form("simple", vec![
        question("name", QuestionType::String, true),
        question("flag", QuestionType::Boolean, false),
    ]);
    let answers = jobj(vec![]);
    let result = validate(&spec, &answers);
    assert!(!result.valid);
    assert_eq!(result.missing_required, vec!["name".to_string()]);
}

#[test]
fn validation_reports_unknown_fields() {
    let spec = form("strict", vec![question("known", QuestionType::String, true)]);
    let answers = jobj(vec![("known", jstr("x")), ("mystery", jstr("y"))]);
    let result = validate(&spec, &answers);
    assert!(!result.valid);
    assert_eq!(result.unknown_fields, vec!["mystery".to_string()]);
}

#[test]
fn validation_checks_numeric_bounds() {
    let mut q = question("count", QuestionType::Number, true);
    q.constraint = Some(Constraint {
        pattern: None,
        min: Some(Dec { neg: false, mant: 15, exp10: -1 }),
        max: Some(Dec { neg: false, mant: 100, exp10: 0 }),
        min_len: None,
        max_len: None,
    });
    let spec = form("bounds", vec![q]);
    let low = validate(&spec, &jobj(vec![("count", JsonValue::Int(1))]));
    assert_eq!(low.errors[0].code.as_deref(), Some("min"));
    let ok = validate(&spec, &jobj(vec![("count", JsonValue::Int(2))]));
    assert!(ok.valid);
    let high = validate(&spec, &jobj(vec![("count", JsonValue::Int(500))]));
    assert_eq!(high.errors[0].code.as_deref(), Some("max"));
}

#[test]
fn validation_checks_pattern_and_lengths() {
    let mut q = question("code", QuestionType::String, true);
    q.constraint = Some(Constraint {
        pattern: Some("^[a-z]+$".to_string()),
        min: None,
        max: None,
        min_len: Some(2),
        max_len: Some(4),
    });
    let spec = form("texty", vec![q]);
    let bad_pattern = validate(&spec, &jobj(vec![("code", jstr("ABC"))]));
    assert_eq!(bad_pattern.errors[0].code.as_deref(), Some("pattern_mismatch"));
    let too_short = validate(&spec, &jobj(vec![("code", jstr("a"))]));
    assert_eq!(too_short.errors[0].code.as_deref(), Some("min_length"));
    let too_long = validate(&spec, &jobj(vec![("code", jstr("abcde"))]));
    assert_eq!(too_long.errors[0].code.as_deref(), Some("max_length"));
    let fine = validate(&spec, &jobj(vec![("code", jstr("abc"))]));
    assert!(fine.valid);
}

#[test]
fn validation_checks_enum_membership() {
    let mut q = question("color", QuestionType::Enum, true);
    q.choices = Some(vec!["red".to_string(), "blue".to_string()]);
    let spec = form("colors", vec![q]);
    let bad = validate(&spec, &jobj(vec![("color", jstr("green"))]));
    assert_eq!(bad.errors[0].code.as_deref(), Some("enum_mismatch"));
    let good = validate(&spec, &jobj(vec![("color", jstr("red"))]));
    assert!(good.valid);
}

#[test]
fn cross_field_rules_fail_on_definite_false() {
    let mut spec = form("pairwise", vec![
        question("a", QuestionType::String, false),
        question("b", QuestionType::String, false),
    ]);
    spec.validations = vec![CrossFieldValidation {
        id: None,
        message: "values must agree".to_string(),
        fields: vec!["b".to_string()],
        condition: Expr::Eq {
            left: Box::new(Expr::Answer { path: "a".to_string() }),
            right: Box::new(Expr::Answer { path: "b".to_string() }),
        },
        code: Some("agreement".to_string()),
    }];
    let disagree = jobj(vec![("a", jstr("x")), ("b", jstr("y"))]);
    let failed = validate(&spec, &disagree);
    assert!(!failed.valid);
    assert_eq!(failed.errors[0].code.as_deref(), Some("agreement"));
    assert_eq!(failed.errors[0].message, "values must agree");
    let indeterminate = jobj(vec![]);
    let open = validate(&spec, &indeterminate);
    assert!(open.valid);
}

#[test]
fn secrets_policy_is_default_closed() {
    let policy = SecretsPolicy {
        enabled: true,
        read_enabled: true,
        write_enabled: true,
        allow: vec!["aws/*".to_string()],
        deny: vec!["aws/root".to_string()],
    };
    assert_eq!(
        evaluate(SecretAction::Write, "aws/key", Some(&policy), true),
        SecretAccessResult::Allowed
    );
    assert_eq!(
        evaluate(SecretAction::Write, "aws/root", Some(&policy), true),
        SecretAccessResult::Denied(DenyReason::DeniedByRule)
    );
    assert_eq!(
        evaluate(SecretAction::Write, "gcp/key", Some(&policy), true),
        SecretAccessResult::Denied(DenyReason::NotAllowed)
    );
    assert_eq!(
        evaluate(SecretAction::Write, "aws/key", Some(&policy), false),
        SecretAccessResult::Denied(DenyReason::HostUnavailable)
    );
    assert_eq!(
        evaluate(SecretAction::Write, "aws/key", None, true),
        SecretAccessResult::Denied(DenyReason::Disabled)
    );
    assert_eq!(
        evaluate(SecretAction::Read, "aws/key/extra", Some(&policy), false),
        SecretAccessResult::Denied(DenyReason::NotAllowed)
    );
}

#[test]
fn definite_children_decide_conjunctions() {
    let answers = jobj(vec![("present", JsonValue::Bool(true))]);
    let unknown = || Expr::Eq {
        left: Box::new(Expr::Answer { path: "absent".to_string() }),
        right: Box::new(Expr::Literal { value: jstr("x") }),
    };
    assert_eq!(unknown().evaluate(&answers), None);
    let and_false_first = Expr::And {
        expressions: vec![Expr::Literal { value: JsonValue::Bool(false) }, unknown()],
    };
    assert_eq!(and_false_first.evaluate(&answers), Some(false));
    let and_false_last = Expr::And {
        expressions: vec![unknown(), Expr::Literal { value: JsonValue::Bool(false) }],
    };
    assert_eq!(and_false_last.evaluate(&answers), Some(false));
    let and_open = Expr::And {
        expressions: vec![unknown(), Expr::Literal { value: JsonValue::Bool(true) }],
    };
    assert_eq!(and_open.evaluate(&answers), None);
    let or_true_last = Expr::Or {
        expressions: vec![unknown(), Expr::Literal { value: JsonValue::Bool(true) }],
    };
    assert_eq!(or_true_last.evaluate(&answers), Some(true));
    let or_open = Expr::Or {
        expressions: vec![unknown(), Expr::Literal { value: JsonValue::Bool(false) }],
    };
    assert_eq!(or_open.evaluate(&answers), None);
    let or_all_false = Expr::Or {
        expressions: vec![
            Expr::Literal { value: JsonValue::Bool(false) },
            Expr::Literal { value: JsonValue::Bool(false) },
        ],
    };
    assert_eq!(or_all_false.evaluate(&answers), Some(false));
    let is_set = Expr::IsSet { path: "present".to_string() };
    assert_eq!(is_set.evaluate(&answers), Some(true));
    let not_set = Expr::IsSet { path: "absent".to_string() };
    assert_eq!(not_set.evaluate(&answers), Some(false));
    let negated = Expr::Not { expression: Box::new(not_set) };
    assert_eq!(negated.evaluate(&answers), Some(true));
}

#[test]
fn numeric_ordering_spans_integers_and_decimals() {
    let lt = Expr::Lt {
        left: Box::new(Expr::Literal { value: JsonValue::Int(1) }),
        right: Box::new(Expr::Literal {
            value: JsonValue::Num(Dec { neg: false, mant: 15, exp10: -1 }),
        }),
    };
    let answers = jobj(vec![]);
    assert_eq!(lt.evaluate(&answers), Some(true));
    let gte = Expr::Gte {
        left: Box::new(Expr::Literal { value: JsonValue::Int(2) }),
        right: Box::new(Expr::Literal {
            value: JsonValue::Num(Dec { neg: false, mant: 15, exp10: -1 }),
        }),
    };
    assert_eq!(gte.evaluate(&answers), Some(true));
    let mixed = Expr::Lt {
        left: Box::new(Expr::Literal { value: jstr("not a number") }),
        right: Box::new(Expr::Literal { value: JsonValue::Int(2) }),
    };
    assert_eq!(mixed.evaluate(&answers), None);
    let negative = Expr::Lt {
        left: Box::new(Expr::Literal {
            value: JsonValue::Num(Dec { neg: true, mant: 5, exp10: 2 }),
        }),
        right: Box::new(Expr::Literal { value: JsonValue::Int(-499) }),
    };
    assert_eq!(negative.evaluate(&answers), Some(true));
}

#[test]
fn ensure_form_checks_the_id() {
    let spec = example_form();
    assert!(ensure_form(&spec, "example-form"));
    assert!(!ensure_form(&spec, "other-form"));
}

#[test]
fn host_flag_is_read_from_both_spots() {
    let top = jobj(vec![("secrets_host_available", JsonValue::Bool(true))]);
    assert!(secrets_host_available(&top));
    let nested = jobj(vec![(
        "config",
        jobj(vec![("secrets_host_available", JsonValue::Bool(true))]),
    )]);
    assert!(secrets_host_available(&nested));
    let absent = jobj(vec![]);
    assert!(!secrets_host_available(&absent));
}

#[test]
fn mutating_answers_replaces_existing_values() {
    let answers = jobj(vec![("q1", jstr("old"))]);
    let updated = with_answers_mutated(&answers, "q1", jstr("new"));
    assert_eq!(as_text(updated.get("q1").expect("q1")), "new");
    let extended = with_answers_mutated(&updated, "q2", JsonValue::Bool(false));
    assert_eq!(as_text(extended.get("q1").expect("q1")), "new");
    assert!(matches!(extended.get("q2").expect("q2"), JsonValue::Bool(false)));
}

#[test]
fn parse_answer_boolean_accepts_yes() {
    let q = jobj(vec![("type", jstr("boolean")), ("required", JsonValue::Bool(true))]);
    let parsed = parse_answer(&q, "yes").expect("boolean parse");
    assert!(matches!(parsed, JsonValue::Bool(true)));
}

#[test]
fn parse_answer_integer_handles_numbers() {
    let q = jobj(vec![("type", jstr("integer"))]);
    let parsed = parse_answer(&q, "42").expect("integer parse");
    assert!(matches!(parsed, JsonValue::Int(42)));
}

#[test]
fn parse_answer_enum_checks_choices() {
    let q = jobj(vec![
        ("type", jstr("enum")),
        (
            "choices",
            JsonValue::Arr(vec![jstr("alpha"), jstr("beta")]),
        ),
        ("required", JsonValue::Bool(true)),
    ]);
    assert!(parse_answer(&q, "gamma").is_err());
    let parsed = parse_answer(&q, "alpha").expect("enum parse");
    assert_eq!(as_text(&parsed), "alpha");
}

#[test]
fn parse_answer_respects_defaults() {
    let q = jobj(vec![
        ("type", jstr("string")),
        ("default", jstr("default-value")),
        ("required", JsonValue::Bool(true)),
    ]);
    let parsed = parse_answer(&q, "").expect("default should apply");
    assert_eq!(as_text(&parsed), "default-value");
}

#[test]
fn parse_answer_rejects_empty_required_input() {
    let q = jobj(vec![("type", jstr("string")), ("required", JsonValue::Bool(true))]);
    let err = parse_answer(&q, "   ").expect_err("required answer");
    assert_eq!(err.user_message, "This question requires an answer.");
    let optional = jobj(vec![("type", jstr("string")), ("required", JsonValue::Bool(false))]);
    let parsed = parse_answer(&optional, "").expect("optional blank");
    assert!(matches!(parsed, JsonValue::Null));
}

#[test]
fn wizard_payload_decodes_render_output() {
    let spec = example_form();
    let answers = jobj(vec![("q1", jstr("Acme"))]);
    let payload = build_render_payload(&spec, &answers);
    let ui = render_json_ui(&payload);
    let decoded = WizardPayload::from_json(&ui).expect("decode payload");
    assert_eq!(decoded.form_title, "Example Form");
    assert_eq!(decoded.status, WizardStatus::NeedInput);
    assert_eq!(decoded.progress.total, 2);
    assert_eq!(decoded.visible_count(), 2);
    let q2 = decoded.question("q2").expect("q2 present");
    assert!(matches!(q2.kind, QuestionKind::Boolean));
    assert!(decoded.question("q9").is_none());
}

#[test]
fn trim_and_hex_helpers_behave() {
    assert_eq!(trim_exec("  padded \t"), "padded");
    assert_eq!(encode_hex(&vec![0x0f, 0xa0, 0x00]), "0fa000");
}

#[test]
fn default_validation_accepts_boolean_values() {
    assert!(ensure_default_matches_type(CliQuestionType::Boolean, "y", None).is_ok());
    assert!(ensure_default_matches_type(CliQuestionType::Boolean, "false", None).is_ok());
    assert!(ensure_default_matches_type(CliQuestionType::Boolean, "maybe", None).is_err());
}

#[test]
fn default_validation_requires_numeric_defaults() {
    assert!(ensure_default_matches_type(CliQuestionType::Integer, "0", None).is_ok());
    assert!(ensure_default_matches_type(CliQuestionType::Integer, "1.5", None).is_err());
    assert!(ensure_default_matches_type(CliQuestionType::Number, "1.5", None).is_ok());
    assert!(ensure_default_matches_type(CliQuestionType::Number, "bad", None).is_err());
}

#[test]
fn default_validation_checks_enum_choice() {
    let choices = vec!["one".to_string(), "two".to_string()];
    assert!(ensure_default_matches_type(CliQuestionType::Enum, "one", Some(&choices)).is_ok());
    assert!(ensure_default_matches_type(CliQuestionType::Enum, "three", Some(&choices)).is_err());
}

fn plain_input(id: &str, kind: CliQuestionType) -> QuestionInput {
    QuestionInput {
        id: id.to_string(),
        kind,
        title: id.to_string(),
        description: None,
        required: true,
        default_value: None,
        choices: None,
        secret: false,
        list: None,
        visible_if: None,
        constraint: None,
        computed: None,
        computed_overridable: false,
    }
}

#[test]
fn validate_question_input_rejects_bad_boolean_default() {
    let mut q = plain_input("bool", CliQuestionType::Boolean);
    q.title = "Bool".to_string();
    q.default_value = Some("we".to_string());
    assert!(validate_question_input(&q).is_err());
}

#[test]
fn builder_rejects_duplicate_question_ids() {
    let input = GenerationInput {
        dir_name: "bundle-dir".to_string(),
        summary_md: None,
        form: FormInput {
            id: "form-id".to_string(),
            title: "Form".to_string(),
            version: "0.1.0".to_string(),
            description: None,
            progress_policy: None,
        },
        questions: vec![
            plain_input("twin", CliQuestionType::String),
            plain_input("twin", CliQuestionType::String),
        ],
        validations: Vec::new(),
    };
    assert!(validate_input(&input).is_err());
}

#[test]
fn builder_produces_spec_flow_and_schema() {
    let input = GenerationInput {
        dir_name: "smoke".to_string(),
        summary_md: Some("A short summary.".to_string()),
        form: FormInput {
            id: "smoke-form".to_string(),
            title: "Smoke Form".to_string(),
            version: "0.1.0".to_string(),
            description: None,
            progress_policy: None,
        },
        questions: vec![
            plain_input("first", CliQuestionType::String),
            plain_input("second", CliQuestionType::Boolean),
        ],
        validations: Vec::new(),
    };
    let bundle = build_bundle(input).expect("bundle should build");
    assert_eq!(bundle.spec.id, "smoke-form");
    assert_eq!(bundle.spec.questions.len(), 2);
    assert_eq!(bundle.flow.id, "smoke-form-flow");
    assert_eq!(bundle.flow.entry, "question_first");
    assert_eq!(bundle.flow.steps.len(), 3);
    match &bundle.flow.steps[0].1 {
        StepSpec::Question { question_id, next } => {
            assert_eq!(question_id.as_str(), "first");
            assert_eq!(next.as_deref(), Some("question_second"));
        }
        StepSpec::End => panic!("first step should ask a question"),
    }
    assert_eq!(bundle.flow.steps[2].0, "complete");
    let props = bundle.schema.get("properties").expect("properties");
    assert!(props.get("first").is_some());
    let example = bundle.examples.get("first").expect("first example");
    assert_eq!(as_text(example), "example-first");
}

#[test]
fn sanitizers_replace_unusual_characters() {
    assert_eq!(sanitize_identifier("a b!c"), "a_b_c");
    assert_eq!(sanitize_identifier(""), "step");
    assert_eq!(sanitize_file_name("my.form/id"), "my-form-id");
    assert_eq!(sanitize_file_name(""), "bundle");
    assert_eq!(question_step_id("q 1"), "question_q_1");
}

#[test]
fn converted_questions_keep_enum_choices_only() {
    let mut e = plain_input("pick", CliQuestionType::Enum);
    e.choices = Some(vec!["a".to_string(), "b".to_string()]);
    let converted = to_question_spec(e);
    assert_eq!(converted.kind, QuestionType::Enum);
    assert_eq!(converted.choices.as_ref().map(|c| c.len()), Some(2));
    let mut s = plain_input("free", CliQuestionType::String);
    s.choices = Some(vec!["ignored".to_string()]);
    let converted_s = to_question_spec(s);
    assert!(converted_s.choices.is_none());
}

#[test]
fn schema_contains_required_properties() {
    let spec = form("simple", vec![
        question("name", QuestionType::String, true),
        question("flag", QuestionType::Boolean, false),
    ]);
    let answers = jobj(vec![]);
    let vis = resolve_visibility(&spec, &answers, VisibilityMode::Visible);
    let schema = qa_engine::schema::answers_schema(&spec, &vis);
    let props = schema.get("properties").expect("properties");
    assert!(props.get("name").is_some());
    assert!(props.get("flag").is_some());
    let required = match schema.get("required").expect("required").as_array() {
        Some(items) => items,
        None => panic!("required array"),
    };
    assert!(required.iter().any(|v| match v.as_str() {
        Some(s) => s == "name",
        None => false,
    }));
}

#[test]
fn example_answers_include_questions() {
    let spec = form("simple-examples", vec![
        question("name", QuestionType::String, true),
        question("flag", QuestionType::Boolean, false),
    ]);
    let vis = vec![("name".to_string(), true), ("flag".to_string(), true)];
    let examples = qa_engine::schema::example_answers(&spec, &vis);
    assert_eq!(as_text(examples.get("name").expect("name")), "example-name");
    assert!(matches!(
        examples.get("flag").expect("flag"),
        JsonValue::Bool(false)
    ));
}

#[test]
fn prompt_helpers_word_their_hints() {
    assert_eq!(describe_list_size(Some(3), Some(5)), "3 to 5 items");
    assert_eq!(describe_list_size(Some(3), None), "at least 3 items");
    assert_eq!(describe_list_size(None, Some(5)), "up to 5 items");
    assert_eq!(describe_list_size(None, None), "unrestricted");
    let fields = vec![
        plain_input("name", CliQuestionType::String),
        plain_input("count", CliQuestionType::Integer),
    ];
    assert_eq!(summarize_list_fields(&fields), "name (string), count (integer)");
    let choices = vec!["alpha".to_string(), "beta".to_string()];
    let hint = describe_type_hint(CliQuestionType::Enum, Some(&choices), None);
    assert_eq!(hint.expected, "enum (one of: alpha, beta)");
    assert_eq!(hint.example, "alpha");
    let list_hint = describe_type_hint(CliQuestionType::List, None, Some(&fields));
    assert_eq!(
        list_hint.expected,
        "list (JSON array of objects with fields: name (string), count (integer))"
    );
    assert_eq!(
        default_prompt_for(CliQuestionType::Enum, Some(&choices)),
        "Default value (optional, one of alpha, beta)"
    );
    let lt = build_binary_expression(
        "lt",
        Expr::Answer { path: "a".to_string() },
        Expr::Literal { value: JsonValue::Int(3) },
    );
    assert!(matches!(lt, Expr::Lt { .. }));
    let fallback = build_binary_expression(
        "weird",
        Expr::Answer { path: "a".to_string() },
        Expr::Literal { value: JsonValue::Int(3) },
    );
    assert!(matches!(fallback, Expr::Eq { .. }));
}

#[test]
fn validation_details_are_collected_from_responses() {
    let response = jobj(vec![(
        "validation",
        jobj(vec![
            (
                "errors",
                JsonValue::Arr(vec![jobj(vec![
                    ("path", jstr("/q1")),
                    ("message", jstr("type mismatch")),
                ])]),
            ),
            ("missing_required", JsonValue::Arr(vec![jstr("q2")])),
            ("unknown_fields", JsonValue::Arr(vec![])),
        ]),
    )]);
    let details = gather_validation_details(&response);
    assert_eq!(details.errors.len(), 1);
    assert_eq!(details.errors[0].0, "/q1");
    assert_eq!(details.errors[0].1, "type mismatch");
    assert_eq!(details.missing_required, vec!["q2".to_string()]);
    assert!(details.unknown_fields.is_empty());
    let empty = gather_validation_details(&jobj(vec![]));
    assert!(empty.errors.is_empty());
}

#[test]
fn conditions_see_the_wrapped_context() {
    let mut gated = question("detail", QuestionType::String, false);
    gated.visible_if = Some(Expr::Eq {
        left: Box::new(Expr::Answer { path: "/answers/q1".to_string() }),
        right: Box::new(Expr::Literal { value: jstr("yes") }),
    });
    let spec = form("pointer-form", vec![
        question("q1", QuestionType::String, true),
        gated,
    ]);
    let shown = resolve_visibility(
        &spec,
        &jobj(vec![("q1", jstr("yes"))]),
        VisibilityMode::Hidden,
    );
    assert!(shown[1].1);
    let hidden = resolve_visibility(
        &spec,
        &jobj(vec![("q1", jstr("no"))]),
        VisibilityMode::Visible,
    );
    assert!(!hidden[1].1);
    let whole = Expr::IsSet { path: "/answers".to_string() };
    assert_eq!(whole.evaluate(&jobj(vec![])), Some(true));
    let bare = Expr::Eq {
        left: Box::new(Expr::Answer { path: "q1".to_string() }),
        right: Box::new(Expr::Answer { path: "/answers/q1".to_string() }),
    };
    assert_eq!(bare.evaluate(&jobj(vec![("q1", jstr("same"))])), Some(true));
}

#[test]
fn next_reasks_first_visible_without_skip() {
    let mut spec = form("reask-form", vec![
        question("a", QuestionType::String, true),
        question("b", QuestionType::String, true),
    ]);
    spec.progress_policy = Some(ProgressPolicy {
        skip_answered: false,
        autofill_defaults: false,
        treat_default_as_answered: false,
    });
    let partial = jobj(vec![("a", jstr("done"))]);
    let r = next(&spec, &partial);
    assert_eq!(r.status, RenderStatus::NeedInput);
    assert_eq!(r.next_question_id.as_deref(), Some("a"));
    let full = jobj(vec![("a", jstr("done")), ("b", jstr("done"))]);
    let complete = next(&spec, &full);
    assert!(complete.next_question_id.is_none());
}

#[test]
fn length_bounds_measure_utf8_bytes() {
    let mut q = question("token", QuestionType::String, true);
    q.constraint = Some(Constraint {
        pattern: None,
        min: None,
        max: None,
        min_len: Some(2),
        max_len: Some(2),
    });
    let spec = form("bytes-form", vec![q]);
    let two_byte_char = validate(&spec, &jobj(vec![("token", jstr("\u{00e9}"))]));
    assert!(two_byte_char.valid);
    let one_byte = validate(&spec, &jobj(vec![("token", jstr("a"))]));
    assert_eq!(one_byte.errors[0].code.as_deref(), Some("min_length"));
}

#[test]
fn failing_rule_without_fields_is_reported_once() {
    let mut spec = form("strict-rule", vec![question("a", QuestionType::String, false)]);
    spec.validations = vec![CrossFieldValidation {
        id: None,
        message: "never satisfied".to_string(),
        fields: Vec::new(),
        condition: Expr::Literal { value: JsonValue::Bool(false) },
        code: Some("always".to_string()),
    }];
    let result = validate(&spec, &jobj(vec![]));
    assert!(!result.valid);
    assert_eq!(result.errors.len(), 1);
    assert!(result.errors[0].question_id.is_none());
    assert!(result.errors[0].path.is_none());
    assert_eq!(result.errors[0].message, "never satisfied");
    assert_eq!(result.errors[0].code.as_deref(), Some("always"));
}
