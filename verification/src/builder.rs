//! The bundle builder: turns collected form inputs into a form
//! specification, a step flow, an answer schema and example answers,
//! after checking the inputs.

use vstd::prelude::*;
use vstd::string::StrSliceExecFns;

use crate::form::{
    Constraint, CrossFieldValidation, FormPresentation, FormSpec, ListSpec, ProgressPolicy,
    QuestionSpec, QuestionType,
};
use crate::json::{JsonValue, JsonView};
use crate::strutil::{
    is_number_literal, is_number_literal_exec, parse_i64_spec, push_char, push_str, str_eq,
    to_string,
};
use crate::wizard::{trim_exec, trim_view};

verus! {

/// Input shape describing what should be generated.
pub struct GenerationInput {
    pub dir_name: String,
    pub summary_md: Option<String>,
    pub form: FormInput,
    pub questions: Vec<QuestionInput>,
    pub validations: Vec<CrossFieldValidation>,
}

/// Metadata describing the form.
pub struct FormInput {
    pub id: String,
    pub title: String,
    pub version: String,
    pub description: Option<String>,
    pub progress_policy: Option<ProgressPolicyInput>,
}

/// Optional progress directives.
pub struct ProgressPolicyInput {
    pub skip_answered: bool,
    pub autofill_defaults: bool,
    pub treat_default_as_answered: bool,
}

impl ProgressPolicyInput {
    /// The directives used when none are given: skip answered questions.
    pub fn fallback() -> (r: ProgressPolicyInput)
        ensures
            r.skip_answered,
            !r.autofill_defaults,
            !r.treat_default_as_answered,
    {
        ProgressPolicyInput {
            skip_answered: true,
            autofill_defaults: false,
            treat_default_as_answered: false,
        }
    }
}

/// Supported question types for generation.
#[derive(PartialEq, Eq, Structural, Clone, Copy)]
pub enum CliQuestionType {
    String,
    Boolean,
    Integer,
    Number,
    Enum,
    List,
}

impl CliQuestionType {
    /// The engine type this input type builds.
    pub fn to_question_type(self) -> (r: QuestionType)
        ensures
            r == spec_question_type(self),
    {
        match self {
            CliQuestionType::String => QuestionType::String,
            CliQuestionType::Boolean => QuestionType::Boolean,
            CliQuestionType::Integer => QuestionType::Integer,
            CliQuestionType::Number => QuestionType::Number,
            CliQuestionType::Enum => QuestionType::Enum,
            CliQuestionType::List => QuestionType::List,
        }
    }

    /// The label of this input type.
    pub fn label(self) -> (r: &'static str)
        ensures
            r@ == cli_type_label(self),
    {
        match self {
            CliQuestionType::String => "string",
            CliQuestionType::Boolean => "boolean",
            CliQuestionType::Integer => "integer",
            CliQuestionType::Number => "number",
            CliQuestionType::Enum => "enum",
            CliQuestionType::List => "list",
        }
    }
}

/// The engine type of each input type.
pub open spec fn spec_question_type(t: CliQuestionType) -> QuestionType {
    match t {
        CliQuestionType::String => QuestionType::String,
        CliQuestionType::Boolean => QuestionType::Boolean,
        CliQuestionType::Integer => QuestionType::Integer,
        CliQuestionType::Number => QuestionType::Number,
        CliQuestionType::Enum => QuestionType::Enum,
        CliQuestionType::List => QuestionType::List,
    }
}

/// The label of each input type.
pub open spec fn cli_type_label(t: CliQuestionType) -> Seq<char> {
    match t {
        CliQuestionType::String => "string"@,
        CliQuestionType::Boolean => "boolean"@,
        CliQuestionType::Integer => "integer"@,
        CliQuestionType::Number => "number"@,
        CliQuestionType::Enum => "enum"@,
        CliQuestionType::List => "list"@,
    }
}

/// Metadata required to describe a repeatable list question.
pub struct ListInput {
    pub min_items: Option<usize>,
    pub max_items: Option<usize>,
    pub fields: Vec<QuestionInput>,
}

/// Question metadata collected from shell interactions or structured
/// input.
pub struct QuestionInput {
    pub id: String,
    pub kind: CliQuestionType,
    pub title: String,
    pub description: Option<String>,
    pub required: bool,
    pub default_value: Option<String>,
    pub choices: Option<Vec<String>>,
    pub secret: bool,
    pub list: Option<ListInput>,
    pub visible_if: Option<crate::expr::Expr>,
    pub constraint: Option<Constraint>,
    pub computed: Option<crate::expr::Expr>,
    pub computed_overridable: bool,
}

/// Whether a default string spells a boolean.
pub open spec fn boolean_default_ok(s: Seq<char>) -> bool {
    crate::schema::truthy_default(s) || crate::wizard::falsy_default(s)
}

/// Checks a boolean default: yes/no, y/n, true/false, t/f, 1/0, in any
/// ASCII case.
pub fn parse_boolean_default(raw: &str) -> (r: Result<(), String>)
    ensures
        match r {
            Ok(_) => boolean_default_ok(raw@),
            Err(msg) => !boolean_default_ok(raw@) && msg@
                == "Boolean default must be yes/no/true/false/1/0."@,
        },
{
    match crate::wizard::parse_boolean(raw) {
        Ok(_) => Ok(()),
        Err(_) => Err(to_string("Boolean default must be yes/no/true/false/1/0.")),
    }
}

/// Checks an integer default: a whole number in 64-bit range.
pub fn parse_integer_default(raw: &str) -> (r: Result<(), String>)
    ensures
        match r {
            Ok(_) => parse_i64_spec(raw@) is Some,
            Err(msg) => parse_i64_spec(raw@) is None && msg@
                == "Default value for integer questions must be a whole number (leave blank to skip)."@,
        },
{
    match crate::strutil::parse_i64(raw) {
        Some(_) => Ok(()),
        None => Err(
            to_string(
                "Default value for integer questions must be a whole number (leave blank to skip).",
            ),
        ),
    }
}

/// Checks a number default: a decimal literal by shape — an optional
/// sign, digits, an optional fraction and an optional exponent.  The
/// check is deliberately wider than a finite-double reader: a literal
/// with an oversized exponent, such as `1e999`, passes here and is left
/// to the host's number reader to range-check.
pub fn parse_number_default(raw: &str) -> (r: Result<(), String>)
    ensures
        match r {
            Ok(_) => is_number_literal(raw@),
            Err(msg) => !is_number_literal(raw@) && msg@
                == "Default value for number questions must be numeric (leave blank to skip)."@,
        },
{
    if is_number_literal_exec(raw) {
        Ok(())
    } else {
        Err(
            to_string(
                "Default value for number questions must be numeric (leave blank to skip).",
            ),
        )
    }
}

/// Whether the default names one of the choices exactly.
pub open spec fn enum_default_ok(raw: Seq<char>, choices: Option<Vec<String>>) -> bool {
    match choices {
        Some(cs) => crate::validate::choice_listed(cs@, raw),
        None => false,
    }
}

/// Checks an enum default: it must name one of the provided choices.
pub fn parse_enum_default(raw: &str, choices: Option<&Vec<String>>) -> (r: Result<(), String>)
    ensures
        match r {
            Ok(_) => (match choices {
                Some(cs) => crate::validate::choice_listed(cs@, raw@),
                None => false,
            }),
            Err(_) => !(match choices {
                Some(cs) => crate::validate::choice_listed(cs@, raw@),
                None => false,
            }),
        },
{
    let cs = match choices {
        Some(cs) => cs,
        None => {
            return Err(
                to_string("Enum default cannot be validated because no choices were provided."),
            );
        },
    };
    let n = cs.len();
    let mut i: usize = 0;
    while i < n
        invariant
            i <= n,
            n == cs@.len(),
            (match choices {
                Some(c) => c == cs,
                None => false,
            }),
            forall|j: int| 0 <= j < i ==> (#[trigger] cs@[j])@ != raw@,
        decreases n - i,
    {
        if str_eq(cs[i].as_str(), raw) {
            proof {
                assert(crate::validate::choice_listed(cs@, raw@));
            }
            return Ok(());
        }
        i += 1;
    }
    Err(to_string("Default must match one of the choices."))
}

/// Whether a default fits its question's type.
pub open spec fn default_matches(
    kind: CliQuestionType,
    raw: Seq<char>,
    choices: Option<Vec<String>>,
) -> bool {
    match kind {
        CliQuestionType::Boolean => boolean_default_ok(raw),
        CliQuestionType::Integer => parse_i64_spec(raw) is Some,
        CliQuestionType::Number => is_number_literal(raw),
        CliQuestionType::Enum => enum_default_ok(raw, choices),
        CliQuestionType::String => true,
        CliQuestionType::List => false,
    }
}

/// Checks one default value against its question's type; list questions
/// take no default at all.
pub fn ensure_default_matches_type(
    kind: CliQuestionType,
    default: &str,
    choices: Option<&Vec<String>>,
) -> (r: Result<(), String>)
    ensures
        r is Ok == default_matches(
            kind,
            default@,
            match choices {
                Some(cs) => Some(*cs),
                None => None,
            },
        ),
{
    match kind {
        CliQuestionType::Boolean => parse_boolean_default(default),
        CliQuestionType::Integer => parse_integer_default(default),
        CliQuestionType::Number => parse_number_default(default),
        CliQuestionType::Enum => parse_enum_default(default, choices),
        CliQuestionType::String => Ok(()),
        CliQuestionType::List => Err(to_string("list questions cannot have default values")),
    }
}

/// Whether any collected question carries this id.
pub fn question_exists(questions: &Vec<QuestionInput>, candidate: &str) -> (r: bool)
    ensures
        r == exists|i: int|
            0 <= i < questions@.len() && (#[trigger] questions@[i]).id@ == candidate@,
{
    let n = questions.len();
    let mut i: usize = 0;
    while i < n
        invariant
            i <= n,
            n == questions@.len(),
            forall|j: int| 0 <= j < i ==> (#[trigger] questions@[j]).id@ != candidate@,
        decreases n - i,
    {
        if str_eq(questions[i].id.as_str(), candidate) {
            return true;
        }
        i += 1;
    }
    false
}

/// Whether one question input is self-consistent: enums carry choices,
/// lists carry fields with sane bounds, and defaults fit the type.
pub open spec fn question_input_ok(q: QuestionInput) -> bool {
    &&& (q.kind == CliQuestionType::Enum ==> (match q.choices {
        Some(cs) => cs@.len() > 0,
        None => false,
    }))
    &&& (q.kind == CliQuestionType::List ==> (match q.list {
        Some(l) => l.fields@.len() > 0 && (match (l.min_items, l.max_items) {
            (Some(lo), Some(hi)) => lo <= hi,
            _ => true,
        }),
        None => false,
    }))
    &&& (match q.default_value {
        Some(d) => default_matches(q.kind, d@, q.choices),
        None => true,
    })
}

/// Checks one question input; the error says what is wrong first:
/// enum choices, then list metadata, then the default value.
pub fn validate_question_input(question: &QuestionInput) -> (r: Result<(), String>)
    ensures
        r is Ok == question_input_ok(*question),
{
    if matches!(question.kind, CliQuestionType::Enum) {
        let has_choices = match &question.choices {
            Some(cs) => cs.len() > 0,
            None => false,
        };
        if !has_choices {
            return Err(to_string("enum questions require at least one comma-separated choice"));
        }
    }
    if matches!(question.kind, CliQuestionType::List) {
        let list = match &question.list {
            Some(l) => l,
            None => {
                return Err(to_string("list questions must define list metadata"));
            },
        };
        if list.fields.len() == 0 {
            return Err(to_string("list questions must define at least one field"));
        }
        match (&list.min_items, &list.max_items) {
            (Some(lo), Some(hi)) => {
                if *lo > *hi {
                    return Err(to_string("list minimum cannot exceed maximum"));
                }
            },
            _ => {},
        }
    }
    match &question.default_value {
        Some(d) => {
            match ensure_default_matches_type(
                question.kind,
                d.as_str(),
                match &question.choices {
                    Some(cs) => Some(cs),
                    None => None,
                },
            ) {
                Ok(_) => Ok(()),
                Err(e) => Err(e),
            }
        },
        None => Ok(()),
    }
}

/// A character kept as it is by the identifier cleaner.
pub open spec fn ident_char_ok(c: char) -> bool {
    ('a' <= c <= 'z') || ('A' <= c <= 'Z') || ('0' <= c <= '9') || c == '-' || c == '_'
}

/// The cleaned identifier characters: anything unusual becomes an
/// underscore.
pub open spec fn sanitized_ident(s: Seq<char>) -> Seq<char> {
    Seq::new(
        s.len(),
        |i: int|
            if ident_char_ok(s[i]) {
                s[i]
            } else {
                '_'
            },
    )
}

/// Cleans an identifier: ASCII letters, digits, dashes and underscores
/// stay, everything else becomes an underscore; an empty input becomes
/// `step`.
pub fn sanitize_identifier(value: &str) -> (r: String)
    ensures
        r@ == (if value@.len() == 0 {
            "step"@
        } else {
            sanitized_ident(value@)
        }),
{
    let n = value.unicode_len();
    if n == 0 {
        return to_string("step");
    }
    let mut out = String::new();
    let mut i: usize = 0;
    proof {
        assert(out@ =~= sanitized_ident(value@).take(0));
    }
    while i < n
        invariant
            i <= n,
            n == value@.len(),
            out@ == sanitized_ident(value@).take(i as int),
        decreases n - i,
    {
        let c = value.get_char(i);
        let keep = (('a' <= c && c <= 'z') || ('A' <= c && c <= 'Z') || ('0' <= c && c <= '9')
            || c == '-' || c == '_');
        let piece = if keep {
            c
        } else {
            '_'
        };
        push_char(&mut out, piece);
        proof {
            assert(out@ =~= sanitized_ident(value@).take(i + 1));
        }
        i += 1;
    }
    proof {
        assert(sanitized_ident(value@).take(n as int) =~= sanitized_ident(value@));
    }
    out
}

/// The cleaned file-name characters: anything unusual becomes a dash.
pub open spec fn sanitized_file(s: Seq<char>) -> Seq<char> {
    Seq::new(
        s.len(),
        |i: int|
            if ident_char_ok(s[i]) {
                s[i]
            } else {
                '-'
            },
    )
}

/// Cleans a file name: ASCII letters, digits, dashes and underscores
/// stay, everything else becomes a dash; an empty input becomes
/// `bundle`.
pub fn sanitize_file_name(value: &str) -> (r: String)
    ensures
        r@ == (if value@.len() == 0 {
            "bundle"@
        } else {
            sanitized_file(value@)
        }),
{
    let n = value.unicode_len();
    if n == 0 {
        return to_string("bundle");
    }
    let mut out = String::new();
    let mut i: usize = 0;
    proof {
        assert(out@ =~= sanitized_file(value@).take(0));
    }
    while i < n
        invariant
            i <= n,
            n == value@.len(),
            out@ == sanitized_file(value@).take(i as int),
        decreases n - i,
    {
        let c = value.get_char(i);
        let keep = (('a' <= c && c <= 'z') || ('A' <= c && c <= 'Z') || ('0' <= c && c <= '9')
            || c == '-' || c == '_');
        let piece = if keep {
            c
        } else {
            '-'
        };
        push_char(&mut out, piece);
        proof {
            assert(out@ =~= sanitized_file(value@).take(i + 1));
        }
        i += 1;
    }
    proof {
        assert(sanitized_file(value@).take(n as int) =~= sanitized_file(value@));
    }
    out
}

/// The step id of one question: `question_` plus the cleaned id.
pub open spec fn step_id_view(id: Seq<char>) -> Seq<char> {
    "question_"@ + (if id.len() == 0 {
        "step"@
    } else {
        sanitized_ident(id)
    })
}

/// Builds the step id of one question.
pub fn question_step_id(id: &str) -> (r: String)
    ensures
        r@ == step_id_view(id@),
{
    let mut out = to_string("question_");
    let cleaned = sanitize_identifier(id);
    push_str(&mut out, cleaned.as_str());
    out
}

/// The progress policy the builder writes: the given directives, or the
/// fallback.
pub fn compute_progress_policy(input: Option<&ProgressPolicyInput>) -> (r: ProgressPolicy)
    ensures
        match input {
            Some(p) => r.skip_answered == p.skip_answered && r.autofill_defaults
                == p.autofill_defaults && r.treat_default_as_answered
                == p.treat_default_as_answered,
            None => r.skip_answered && !r.autofill_defaults && !r.treat_default_as_answered,
        },
{
    match input {
        Some(p) => ProgressPolicy {
            skip_answered: p.skip_answered,
            autofill_defaults: p.autofill_defaults,
            treat_default_as_answered: p.treat_default_as_answered,
        },
        None => ProgressPolicy {
            skip_answered: true,
            autofill_defaults: false,
            treat_default_as_answered: false,
        },
    }
}

/// What the engine question built from one input field must hold; the
/// expression, constraint and flag fields move over unchanged.
pub open spec fn field_matches(out: QuestionSpec, q: QuestionInput) -> bool {
    &&& out.id == q.id
    &&& out.kind == spec_question_type(q.kind)
    &&& out.title == q.title
    &&& out.description == q.description
    &&& out.required == q.required
    &&& (out.choices == if q.kind == CliQuestionType::Enum {
        q.choices
    } else {
        Option::<Vec<String>>::None
    })
    &&& out.default_value == q.default_value
    &&& out.secret == q.secret
    &&& out.visible_if == q.visible_if
    &&& out.constraint == q.constraint
    &&& out.computed == q.computed
    &&& out.computed_overridable == q.computed_overridable
}

/// What the engine question built from one input must hold: the field
/// relation, plus its list metadata converted field by field.  A list
/// field cannot itself be a list, so nested list metadata is not
/// carried.
pub open spec fn qspec_matches(out: QuestionSpec, q: QuestionInput) -> bool {
    &&& field_matches(out, q)
    &&& (match (out.list, q.list) {
        (Some(a), Some(b)) => {
            &&& a.min_items == b.min_items
            &&& a.max_items == b.max_items
            &&& a.fields@.len() == b.fields@.len()
            &&& (forall|i: int|
                0 <= i < a.fields@.len() ==> field_matches(
                    #[trigger] a.fields@[i],
                    b.fields@[i],
                ) && a.fields@[i].list is None)
        },
        (None, None) => true,
        _ => false,
    })
}

/// Converts one list field, which cannot itself be a list.
fn to_field_spec(field: QuestionInput) -> (r: QuestionSpec)
    ensures
        field_matches(r, field),
        r.list is None,
{
    let choices = if matches!(field.kind, CliQuestionType::Enum) {
        field.choices
    } else {
        None
    };
    QuestionSpec {
        id: field.id,
        kind: field.kind.to_question_type(),
        title: field.title,
        description: field.description,
        required: field.required,
        choices,
        default_value: field.default_value,
        secret: field.secret,
        visible_if: field.visible_if,
        constraint: field.constraint,
        list: None,
        computed: field.computed,
        computed_overridable: field.computed_overridable,
    }
}

/// Builds one engine question from its input; choices are kept for
/// enums only, and list fields are converted in order.
pub fn to_question_spec(question: QuestionInput) -> (r: QuestionSpec)
    ensures
        qspec_matches(r, question),
{
    let QuestionInput {
        id,
        kind,
        title,
        description,
        required,
        default_value,
        choices,
        secret,
        list,
        visible_if,
        constraint,
        computed,
        computed_overridable,
    } = question;
    let kept_choices = if matches!(kind, CliQuestionType::Enum) {
        choices
    } else {
        None
    };
    let out_list = match list {
        Some(l) => {
            let ListInput { min_items, max_items, fields } = l;
            let mut fields = fields;
            let ghost orig_fields = fields@;
            let mut out_fields: Vec<QuestionSpec> = Vec::new();
            while fields.len() > 0
                invariant
                    out_fields@.len() + fields@.len() == orig_fields.len(),
                    forall|j: int|
                        0 <= j < fields@.len() ==> #[trigger] fields@[j] == orig_fields[j
                            + out_fields@.len()],
                    forall|j: int|
                        0 <= j < out_fields@.len() ==> field_matches(
                            #[trigger] out_fields@[j],
                            orig_fields[j],
                        ) && out_fields@[j].list is None,
                decreases fields@.len(),
            {
                let ghost pre = fields@;
                let f = fields.remove(0);
                proof {
                    assert(f == orig_fields[out_fields@.len() as int]);
                    assert(fields@ =~= pre.skip(1));
                }
                let converted = to_field_spec(f);
                out_fields.push(converted);
            }
            Some(ListSpec { min_items, max_items, fields: out_fields })
        },
        None => None,
    };
    QuestionSpec {
        id,
        kind: kind.to_question_type(),
        title,
        description,
        required,
        choices: kept_choices,
        default_value,
        secret,
        visible_if,
        constraint,
        list: out_list,
        computed,
        computed_overridable,
    }
}

/// One step of a generated flow: ask a question, or end.
pub enum StepSpec {
    /// Ask the named question, then move to the next step.
    Question { question_id: String, next: Option<String> },
    /// The flow is complete.
    End,
}

/// A generated flow: an entry step and a step table.
pub struct QAFlowSpec {
    pub id: String,
    pub title: String,
    pub version: String,
    pub entry: String,
    pub steps: Vec<(String, StepSpec)>,
}

/// Whether one question input passes the builder's checks: a non-empty
/// id, enum choices, list metadata with consistent bounds and clean
/// fields, and consistent constraint bounds.
pub open spec fn build_question_ok(q: QuestionInput) -> bool {
    &&& trim_view(q.id@).len() > 0
    &&& (q.kind == CliQuestionType::Enum ==> (match q.choices {
        Some(cs) => cs@.len() > 0,
        None => false,
    }))
    &&& (q.kind == CliQuestionType::List ==> (match q.list {
        Some(l) => {
            &&& l.fields@.len() > 0
            &&& (match (l.min_items, l.max_items) {
                (Some(lo), Some(hi)) => lo <= hi,
                _ => true,
            })
            &&& (forall|i: int|
                0 <= i < l.fields@.len() ==> trim_view(
                    (#[trigger] l.fields@[i]).id@,
                ).len() > 0 && l.fields@[i].kind != CliQuestionType::List)
            &&& (forall|i: int, j: int|
                0 <= i < j < l.fields@.len() ==> (#[trigger] l.fields@[i].id)@ != (
                #[trigger] l.fields@[j].id)@)
        },
        None => false,
    }))
    &&& (match q.constraint {
        Some(c) => {
            &&& (match (c.min, c.max) {
                (Some(lo), Some(hi)) => crate::num::triple_le(
                    crate::validate::dec_triple(lo),
                    crate::validate::dec_triple(hi),
                ),
                _ => true,
            })
            &&& (match (c.min_len, c.max_len) {
                (Some(lo), Some(hi)) => lo <= hi,
                _ => true,
            })
        },
        None => true,
    })
}

/// Whether some question of the input carries this id.
pub open spec fn id_known_input(input: GenerationInput, id: Seq<char>) -> bool {
    exists|q: int|
        0 <= q < input.questions@.len() && (#[trigger] input.questions@[q].id)@ == id
}

/// Whether every field a cross-field rule names is a question id.
pub open spec fn validation_fields_known(input: GenerationInput, j: int) -> bool {
    forall|k: int|
        0 <= k < input.validations@[j].fields@.len() ==> id_known_input(
            input,
            (#[trigger] input.validations@[j].fields@[k])@,
        )
}

/// Whether a whole generation input passes the builder's checks.
pub open spec fn input_ok(input: GenerationInput) -> bool {
    &&& trim_view(input.dir_name@).len() > 0
    &&& trim_view(input.form.id@).len() > 0
    &&& input.questions@.len() > 0
    &&& (forall|i: int| 0 <= i < input.questions@.len() ==> build_question_ok(
        #[trigger] input.questions@[i],
    ))
    &&& (forall|i: int, j: int|
        0 <= i < j < input.questions@.len() ==> (#[trigger] input.questions@[i].id)@ != (
        #[trigger] input.questions@[j].id)@)
    &&& (forall|i: int|
        0 <= i < input.validations@.len() ==> trim_view(
            (#[trigger] input.validations@[i]).message@,
        ).len() > 0 && input.validations@[i].fields@.len() > 0)
    &&& (forall|i: int|
        0 <= i < input.validations@.len() ==> #[trigger] validation_fields_known(input, i))
}

/// Checks one question input for the builder; the message names the
/// first broken rule.
fn check_build_question(q: &QuestionInput) -> (r: Result<(), String>)
    ensures
        r is Ok == build_question_ok(*q),
{
    let trimmed = trim_exec(q.id.as_str());
    if trimmed.as_str().unicode_len() == 0 {
        return Err(to_string("question id cannot be empty"));
    }
    if matches!(q.kind, CliQuestionType::Enum) {
        let ok = match &q.choices {
            Some(cs) => cs.len() > 0,
            None => false,
        };
        if !ok {
            return Err(to_string("enum questions must include choices"));
        }
    }
    if matches!(q.kind, CliQuestionType::List) {
        let l = match &q.list {
            Some(l) => l,
            None => {
                return Err(to_string("list questions must include list metadata"));
            },
        };
        if l.fields.len() == 0 {
            return Err(to_string("list questions must define at least one field"));
        }
        match (&l.min_items, &l.max_items) {
            (Some(lo), Some(hi)) => {
                if *lo > *hi {
                    return Err(to_string("list min_items cannot exceed max_items"));
                }
            },
            _ => {},
        }
        let fn_count = l.fields.len();
        let mut fi: usize = 0;
        while fi < fn_count
            invariant
                fi <= fn_count,
                q.kind == CliQuestionType::List,
                q.list matches Some(ql) && ql.fields@ == l.fields@ && ql.min_items == l.min_items
                    && ql.max_items == l.max_items,
                fn_count == l.fields@.len(),
                forall|i: int|
                    0 <= i < fi ==> trim_view((#[trigger] l.fields@[i]).id@).len() > 0
                        && l.fields@[i].kind != CliQuestionType::List,
                forall|i: int, j: int|
                    0 <= i < j < fi ==> (#[trigger] l.fields@[i].id)@ != (
                    #[trigger] l.fields@[j].id)@,
            decreases fn_count - fi,
        {
            let ftrim = trim_exec(l.fields[fi].id.as_str());
            if ftrim.as_str().unicode_len() == 0 {
                return Err(to_string("list field id cannot be empty"));
            }
            if matches!(l.fields[fi].kind, CliQuestionType::List) {
                return Err(to_string("list fields cannot be lists"));
            }
            let mut fj: usize = 0;
            while fj < fi
                invariant
                    fj <= fi < fn_count,
                    q.kind == CliQuestionType::List,
                    q.list matches Some(ql) && ql.fields@ == l.fields@,
                    fn_count == l.fields@.len(),
                    forall|j: int|
                        0 <= j < fj ==> (#[trigger] l.fields@[j].id)@ != l.fields@[fi as int].id@,
                decreases fi - fj,
            {
                if str_eq(l.fields[fj].id.as_str(), l.fields[fi].id.as_str()) {
                    return Err(to_string("duplicate field id in list question"));
                }
                fj += 1;
            }
            fi += 1;
        }
    }
    match &q.constraint {
        Some(c) => {
            match (&c.min, &c.max) {
                (Some(lo), Some(hi)) => {
                    let cmp = crate::num::num_cmp(
                        lo.neg,
                        lo.mant,
                        lo.exp10,
                        hi.neg,
                        hi.mant,
                        hi.exp10,
                    );
                    if cmp > 0 {
                        return Err(to_string("constraint min cannot exceed max"));
                    }
                },
                _ => {},
            }
            match (&c.min_len, &c.max_len) {
                (Some(lo), Some(hi)) => {
                    if *lo > *hi {
                        return Err(to_string("constraint min_len cannot exceed max_len"));
                    }
                },
                _ => {},
            }
        },
        None => {},
    }
    Ok(())
}

/// Checks a whole generation input; the message names the first broken
/// rule: the directory and form id, then each question in order, then
/// each cross-field rule.
pub fn validate_input(input: &GenerationInput) -> (r: Result<(), String>)
    ensures
        r is Ok == input_ok(*input),
{
    let d = trim_exec(input.dir_name.as_str());
    if d.as_str().unicode_len() == 0 {
        return Err(to_string("dir_name must be provided"));
    }
    let f = trim_exec(input.form.id.as_str());
    if f.as_str().unicode_len() == 0 {
        return Err(to_string("form.id is required"));
    }
    if input.questions.len() == 0 {
        return Err(to_string("at least one question must be defined"));
    }
    let n = input.questions.len();
    let mut i: usize = 0;
    while i < n
        invariant
            i <= n,
            n == input.questions@.len(),
            forall|j: int| 0 <= j < i ==> build_question_ok(#[trigger] input.questions@[j]),
            forall|j: int, k: int|
                0 <= j < k < i ==> (#[trigger] input.questions@[j].id)@ != (
                #[trigger] input.questions@[k].id)@,
        decreases n - i,
    {
        match check_build_question(&input.questions[i]) {
            Ok(_) => {},
            Err(e) => {
                return Err(e);
            },
        }
        let mut j: usize = 0;
        while j < i
            invariant
                j <= i < n,
                n == input.questions@.len(),
                forall|k: int|
                    0 <= k < j ==> (#[trigger] input.questions@[k].id)@ != input.questions@[i
                        as int].id@,
            decreases i - j,
        {
            if str_eq(input.questions[j].id.as_str(), input.questions[i].id.as_str()) {
                return Err(to_string("duplicate question id"));
            }
            j += 1;
        }
        i += 1;
    }
    let vn = input.validations.len();
    let mut vi: usize = 0;
    while vi < vn
        invariant
            vi <= vn,
            vn == input.validations@.len(),
            forall|j: int|
                0 <= j < vi ==> trim_view((#[trigger] input.validations@[j]).message@).len() > 0
                    && input.validations@[j].fields@.len() > 0,
            forall|j: int| 0 <= j < vi ==> #[trigger] validation_fields_known(*input, j),
        decreases vn - vi,
    {
        let v = &input.validations[vi];
        let m = trim_exec(v.message.as_str());
        if m.as_str().unicode_len() == 0 {
            return Err(to_string("validation message must be provided"));
        }
        if v.fields.len() == 0 {
            return Err(to_string("validation must list at least one field"));
        }
        let fm = v.fields.len();
        let mut fi: usize = 0;
        while fi < fm
            invariant
                fi <= fm,
                vi < vn,
                vn == input.validations@.len(),
                *v == input.validations@[vi as int],
                fm == v.fields@.len(),
                forall|k: int|
                    0 <= k < fi ==> id_known_input(*input, (#[trigger] v.fields@[k])@),
            decreases fm - fi,
        {
            if !question_exists(&input.questions, v.fields[fi].as_str()) {
                proof {
                    assert(!id_known_input(*input, v.fields@[fi as int]@));
                    assert(!validation_fields_known(*input, vi as int)) by {
                        assert(input.validations@[vi as int].fields@[fi as int] == v.fields@[fi
                            as int]);
                    }
                }
                return Err(to_string("validation references an unknown field"));
            }
            fi += 1;
        }
        proof {
            assert(validation_fields_known(*input, vi as int)) by {
                assert forall|k: int|
                    0 <= k < input.validations@[vi as int].fields@.len() implies id_known_input(
                    *input,
                    (#[trigger] input.validations@[vi as int].fields@[k])@,
                ) by {
                    assert(v.fields@[k] == input.validations@[vi as int].fields@[k]);
                }
            }
        }
        vi += 1;
    }
    Ok(())
}

/// Generated bundle returned by the builder.
pub struct GeneratedBundle {
    pub spec: FormSpec,
    pub flow: QAFlowSpec,
    pub schema: JsonValue,
    pub examples: JsonValue,
}

/// Builds the full bundle from the collected inputs: the form, its
/// linear flow, and the schema and examples generated over an empty
/// answer set; the inputs must pass `validate_input` first.
pub fn build_bundle(input: GenerationInput) -> (r: Result<GeneratedBundle, String>)
    ensures
        r is Ok == input_ok(input),
        match r {
            Ok(bundle) => {
                &&& bundle.spec.id == input.form.id
                &&& bundle.spec.title == input.form.title
                &&& bundle.spec.version == input.form.version
                &&& bundle.spec.description == input.form.description
                &&& bundle.spec.secrets_policy is None
                &&& bundle.spec.store@.len() == 0
                &&& bundle.spec.questions@.len() == input.questions@.len()
                &&& (forall|i: int|
                    0 <= i < input.questions@.len() ==> qspec_matches(
                        #[trigger] bundle.spec.questions@[i],
                        input.questions@[i],
                    ))
                &&& bundle.spec.validations == input.validations
                &&& (match bundle.spec.progress_policy {
                    Some(p) => (match input.form.progress_policy {
                        Some(given) => p.skip_answered == given.skip_answered
                            && p.autofill_defaults == given.autofill_defaults
                            && p.treat_default_as_answered == given.treat_default_as_answered,
                        None => p.skip_answered && !p.autofill_defaults
                            && !p.treat_default_as_answered,
                    }),
                    None => false,
                })
                &&& (match (bundle.spec.presentation, input.summary_md) {
                    (Some(p), Some(intro)) => p.intro == Some(intro) && p.theme is None,
                    (None, None) => true,
                    _ => false,
                })
                &&& flow_matches(bundle.flow, bundle.spec)
                &&& exists|vis: Seq<(String, bool)>|
                    {
                        &&& #[trigger] crate::visibility::vis_map_ok(
                            vis,
                            bundle.spec.questions@,
                            JsonView::Obj(Seq::empty()),
                            crate::visibility::VisibilityMode::Visible,
                        )
                        &&& bundle.schema@ == crate::schema::schema_view(
                            bundle.spec.questions@,
                            vis,
                        )
                        &&& bundle.examples@ == crate::schema::examples_view(
                            bundle.spec.questions@,
                            vis,
                        )
                    }
            },
            Err(_) => true,
        },
{
    match validate_input(&input) {
        Ok(_) => {},
        Err(e) => {
            return Err(e);
        },
    }
    let GenerationInput { dir_name: _, summary_md, form, questions, validations } = input;
    let presentation = match summary_md {
        Some(intro) => Some(FormPresentation { intro: Some(intro), theme: None }),
        None => None,
    };
    let progress_policy = Some(
        compute_progress_policy(
            match &form.progress_policy {
                Some(p) => Some(p),
                None => None,
            },
        ),
    );
    let ghost qs_in = questions@;
    let mut questions = questions;
    let mut converted: Vec<QuestionSpec> = Vec::new();
    while questions.len() > 0
        invariant
            converted@.len() + questions@.len() == qs_in.len(),
            forall|j: int|
                0 <= j < questions@.len() ==> #[trigger] questions@[j] == qs_in[j
                    + converted@.len()],
            forall|j: int|
                0 <= j < converted@.len() ==> qspec_matches(#[trigger] converted@[j], qs_in[j]),
        decreases questions@.len(),
    {
        let ghost pre = questions@;
        let q = questions.remove(0);
        proof {
            assert(q == qs_in[converted@.len() as int]);
            assert(questions@ =~= pre.skip(1));
        }
        let converted_q = to_question_spec(q);
        converted.push(converted_q);
    }
    let spec = FormSpec {
        id: form.id,
        title: form.title,
        version: form.version,
        description: form.description,
        presentation,
        progress_policy,
        secrets_policy: None,
        store: Vec::new(),
        questions: converted,
        validations,
    };
    let empty_answers = JsonValue::empty_obj();
    let vis = crate::visibility::resolve_visibility(
        &spec,
        &empty_answers,
        crate::visibility::VisibilityMode::Visible,
    );
    proof {
        assert(crate::visibility::vis_map_ok(
            vis@,
            spec.questions@,
            JsonView::Obj(Seq::empty()),
            crate::visibility::VisibilityMode::Visible,
        ));
    }
    let schema = crate::schema::answers_schema(&spec, &vis);
    let examples = crate::schema::example_answers(&spec, &vis);
    let flow = build_flow_spec(&spec);
    Ok(GeneratedBundle { spec, flow, schema, examples })
}

/// What the linear flow of a form must hold: one step per question in
/// order, each pointing at the next, the last pointing at `complete`.
pub open spec fn flow_matches(flow: QAFlowSpec, form: FormSpec) -> bool {
    &&& flow.id@ == form.id@ + "-flow"@
    &&& flow.title@ == form.title@ + " flow"@
    &&& flow.version@ == form.version@
    &&& (form.questions@.len() > 0 ==> flow.entry@ == step_id_view(form.questions@[0].id@))
    &&& flow.steps@.len() == form.questions@.len() + 1
    &&& forall|i: int|
        0 <= i < form.questions@.len() ==> {
            &&& (#[trigger] flow.steps@[i]).0@ == step_id_view(form.questions@[i].id@)
            &&& (match flow.steps@[i].1 {
                StepSpec::Question { question_id, next } => question_id@
                    == form.questions@[i].id@ && (match next {
                    Some(nx) => nx@ == (if i + 1 < form.questions@.len() {
                        step_id_view(form.questions@[i + 1].id@)
                    } else {
                        "complete"@
                    }),
                    None => false,
                }),
                StepSpec::End => false,
            })
        }
    &&& flow.steps@.last().0@ == "complete"@
    &&& flow.steps@.last().1 is End
}

/// Builds the linear flow over the form's questions: one step per
/// question in order, each pointing at the next, the last pointing at
/// `complete`.
pub fn build_flow_spec(form: &FormSpec) -> (r: QAFlowSpec)
    requires
        form.questions@.len() > 0,
    ensures
        flow_matches(r, *form),
{
    let mut id = to_string(form.id.as_str());
    push_str(&mut id, "-flow");
    let mut title = to_string(form.title.as_str());
    push_str(&mut title, " flow");
    let entry = question_step_id(form.questions[0].id.as_str());
    let mut steps: Vec<(String, StepSpec)> = Vec::new();
    let n = form.questions.len();
    let mut i: usize = 0;
    while i < n
        invariant
            i <= n,
            n == form.questions@.len(),
            steps@.len() == i,
            forall|j: int|
                0 <= j < i ==> {
                    &&& (#[trigger] steps@[j]).0@ == step_id_view(form.questions@[j].id@)
                    &&& (match steps@[j].1 {
                        StepSpec::Question { question_id, next } => question_id@
                            == form.questions@[j].id@ && (match next {
                            Some(nx) => nx@ == (if j + 1 < form.questions@.len() {
                                step_id_view(form.questions@[j + 1].id@)
                            } else {
                                "complete"@
                            }),
                            None => false,
                        }),
                        StepSpec::End => false,
                    })
                },
        decreases n - i,
    {
        let step_id = question_step_id(form.questions[i].id.as_str());
        let next_step = if i + 1 < n {
            question_step_id(form.questions[i + 1].id.as_str())
        } else {
            to_string("complete")
        };
        steps.push(
            (
                step_id,
                StepSpec::Question {
                    question_id: to_string(form.questions[i].id.as_str()),
                    next: Some(next_step),
                },
            ),
        );
        i += 1;
    }
    steps.push((to_string("complete"), StepSpec::End));
    QAFlowSpec { id, title, version: to_string(form.version.as_str()), entry, steps }
}

/// Builds the comparison node an operator name denotes; anything
/// unrecognised compares for equality.
pub fn build_binary_expression(
    operator: &str,
    left: crate::expr::Expr,
    right: crate::expr::Expr,
) -> (r: crate::expr::Expr)
    ensures
        r == spec_binary_expression(operator@, left, right),
{
    if str_eq(operator, "ne") {
        crate::expr::Expr::Ne { left: Box::new(left), right: Box::new(right) }
    } else if str_eq(operator, "lt") {
        crate::expr::Expr::Lt { left: Box::new(left), right: Box::new(right) }
    } else if str_eq(operator, "lte") {
        crate::expr::Expr::Lte { left: Box::new(left), right: Box::new(right) }
    } else if str_eq(operator, "gt") {
        crate::expr::Expr::Gt { left: Box::new(left), right: Box::new(right) }
    } else if str_eq(operator, "gte") {
        crate::expr::Expr::Gte { left: Box::new(left), right: Box::new(right) }
    } else {
        crate::expr::Expr::Eq { left: Box::new(left), right: Box::new(right) }
    }
}

/// The comparison node each operator name denotes.
pub open spec fn spec_binary_expression(
    operator: Seq<char>,
    left: crate::expr::Expr,
    right: crate::expr::Expr,
) -> crate::expr::Expr {
    if operator == "ne"@ {
        crate::expr::Expr::Ne { left: Box::new(left), right: Box::new(right) }
    } else if operator == "lt"@ {
        crate::expr::Expr::Lt { left: Box::new(left), right: Box::new(right) }
    } else if operator == "lte"@ {
        crate::expr::Expr::Lte { left: Box::new(left), right: Box::new(right) }
    } else if operator == "gt"@ {
        crate::expr::Expr::Gt { left: Box::new(left), right: Box::new(right) }
    } else if operator == "gte"@ {
        crate::expr::Expr::Gte { left: Box::new(left), right: Box::new(right) }
    } else {
        crate::expr::Expr::Eq { left: Box::new(left), right: Box::new(right) }
    }
}

/// The wording of a list's size bounds.
pub open spec fn list_size_view(min_items: Option<usize>, max_items: Option<usize>) -> Seq<char> {
    match (min_items, max_items) {
        (Some(lo), Some(hi)) => crate::strutil::spec_digits(lo as nat) + " to "@
            + crate::strutil::spec_digits(hi as nat) + " items"@,
        (Some(lo), None) => "at least "@ + crate::strutil::spec_digits(lo as nat) + " items"@,
        (None, Some(hi)) => "up to "@ + crate::strutil::spec_digits(hi as nat) + " items"@,
        (None, None) => "unrestricted"@,
    }
}

/// Words a list's size bounds for a prompt.
pub fn describe_list_size(min_items: Option<usize>, max_items: Option<usize>) -> (r: String)
    ensures
        r@ == list_size_view(min_items, max_items),
{
    match (min_items, max_items) {
        (Some(lo), Some(hi)) => {
            let mut out = String::new();
            crate::strutil::push_u64(&mut out, lo as u64);
            push_str(&mut out, " to ");
            crate::strutil::push_u64(&mut out, hi as u64);
            push_str(&mut out, " items");
            proof {
                assert(out@ =~= list_size_view(min_items, max_items));
            }
            out
        },
        (Some(lo), None) => {
            let mut out = to_string("at least ");
            crate::strutil::push_u64(&mut out, lo as u64);
            push_str(&mut out, " items");
            proof {
                assert(out@ =~= list_size_view(min_items, max_items));
            }
            out
        },
        (None, Some(hi)) => {
            let mut out = to_string("up to ");
            crate::strutil::push_u64(&mut out, hi as u64);
            push_str(&mut out, " items");
            proof {
                assert(out@ =~= list_size_view(min_items, max_items));
            }
            out
        },
        (None, None) => to_string("unrestricted"),
    }
}

/// One list field summarised as `id (type)`.
pub open spec fn field_summary(f: QuestionInput) -> Seq<char> {
    f.id@ + " ("@ + cli_type_label(f.kind) + ")"@
}

/// The field summaries joined with commas, from `from` on.
pub open spec fn summaries_view(fields: Seq<QuestionInput>, from: int) -> Seq<char>
    decreases fields.len() - from,
        when 0 <= from <= fields.len()
{
    if from >= fields.len() {
        Seq::empty()
    } else if from == fields.len() - 1 {
        field_summary(fields[from])
    } else {
        field_summary(fields[from]) + ", "@ + summaries_view(fields, from + 1)
    }
}

/// Summarises a list's fields as `id (type), id (type), ...`.
pub fn summarize_list_fields(fields: &Vec<QuestionInput>) -> (r: String)
    ensures
        r@ == summaries_view(fields@, 0),
{
    let mut out = String::new();
    let n = fields.len();
    if n == 0 {
        return out;
    }
    let mut i: usize = 0;
    proof {
        assert(out@ + summaries_view(fields@, 0) =~= summaries_view(fields@, 0));
    }
    while i < n
        invariant
            i <= n,
            n == fields@.len(),
            n > 0,
            (if i < n {
                out@ + summaries_view(fields@, i as int)
            } else {
                out@
            }) == summaries_view(fields@, 0),
        decreases n - i,
    {
        push_str(&mut out, fields[i].id.as_str());
        push_str(&mut out, " (");
        let label = fields[i].kind.label();
        push_str(&mut out, label);
        push_str(&mut out, ")");
        proof {
            if i + 1 < n {
                assert(summaries_view(fields@, i as int) =~= field_summary(fields@[i as int])
                    + ", "@ + summaries_view(fields@, i + 1));
            } else {
                assert(summaries_view(fields@, i as int) =~= field_summary(fields@[i as int]));
                assert(out@ =~= summaries_view(fields@, 0));
            }
        }
        if i + 1 < n {
            push_str(&mut out, ", ");
            proof {
                assert(out@ + summaries_view(fields@, i + 1) =~= summaries_view(fields@, 0));
            }
        }
        i += 1;
    }
    out
}

/// A hint shown when an answer or default does not fit: what shape is
/// expected, and one example of it.
pub struct TypeHint {
    pub expected: String,
    pub example: String,
}

/// The expected-shape wording for one input type.
pub open spec fn hint_expected_view(
    kind: CliQuestionType,
    choices: Option<Vec<String>>,
    fields: Option<Vec<QuestionInput>>,
) -> Seq<char> {
    match kind {
        CliQuestionType::String => "text"@,
        CliQuestionType::Boolean => "boolean (yes/no)"@,
        CliQuestionType::Integer => "integer (whole number)"@,
        CliQuestionType::Number => "number (decimals allowed)"@,
        CliQuestionType::Enum => match choices {
            Some(cs) => if cs@.len() > 0 {
                "enum (one of: "@ + choices_joined(cs@, 0) + ")"@
            } else {
                "enum choice"@
            },
            None => "enum choice"@,
        },
        CliQuestionType::List => "list (JSON array of objects with fields: "@ + (match fields {
            Some(fs) => if fs@.len() > 0 {
                summaries_view(fs@, 0)
            } else {
                "configured fields"@
            },
            None => "configured fields"@,
        }) + ")"@,
    }
}

/// The example wording for one input type.
pub open spec fn hint_example_view(kind: CliQuestionType, choices: Option<Vec<String>>) -> Seq<
    char,
> {
    match kind {
        CliQuestionType::String => "plain text"@,
        CliQuestionType::Boolean => "yes"@,
        CliQuestionType::Integer => "42"@,
        CliQuestionType::Number => "a decimal"@,
        CliQuestionType::Enum => match choices {
            Some(cs) => if cs@.len() > 0 {
                cs@[0]@
            } else {
                "example-choice"@
            },
            None => "example-choice"@,
        },
        CliQuestionType::List => "a JSON array of objects"@,
    }
}

/// The choice names joined with commas, from `from` on.
pub open spec fn choices_joined(cs: Seq<String>, from: int) -> Seq<char>
    decreases cs.len() - from,
        when 0 <= from <= cs.len()
{
    if from >= cs.len() {
        Seq::empty()
    } else if from == cs.len() - 1 {
        cs[from]@
    } else {
        cs[from]@ + ", "@ + choices_joined(cs, from + 1)
    }
}

/// Joins choice names with commas.
fn join_choices(cs: &Vec<String>) -> (r: String)
    ensures
        r@ == choices_joined(cs@, 0),
{
    let mut out = String::new();
    let n = cs.len();
    if n == 0 {
        return out;
    }
    let mut i: usize = 0;
    proof {
        assert(out@ + choices_joined(cs@, 0) =~= choices_joined(cs@, 0));
    }
    while i < n
        invariant
            i <= n,
            n == cs@.len(),
            n > 0,
            (if i < n {
                out@ + choices_joined(cs@, i as int)
            } else {
                out@
            }) == choices_joined(cs@, 0),
        decreases n - i,
    {
        push_str(&mut out, cs[i].as_str());
        proof {
            if i + 1 < n {
                assert(choices_joined(cs@, i as int) =~= cs@[i as int]@ + ", "@ + choices_joined(
                    cs@,
                    i + 1,
                ));
            } else {
                assert(choices_joined(cs@, i as int) =~= cs@[i as int]@);
                assert(out@ =~= choices_joined(cs@, 0));
            }
        }
        if i + 1 < n {
            push_str(&mut out, ", ");
            proof {
                assert(out@ + choices_joined(cs@, i + 1) =~= choices_joined(cs@, 0));
            }
        }
        i += 1;
    }
    out
}

/// Words what an input type expects, with one example, for prompts and
/// error hints.
pub fn describe_type_hint(
    kind: CliQuestionType,
    choices: Option<&Vec<String>>,
    fields: Option<&Vec<QuestionInput>>,
) -> (r: TypeHint)
    ensures
        r.expected@ == hint_expected_view(
            kind,
            match choices {
                Some(cs) => Some(*cs),
                None => None,
            },
            match fields {
                Some(fs) => Some(*fs),
                None => None,
            },
        ),
        r.example@ == hint_example_view(
            kind,
            match choices {
                Some(cs) => Some(*cs),
                None => None,
            },
        ),
{
    match kind {
        CliQuestionType::String => TypeHint {
            expected: to_string("text"),
            example: to_string("plain text"),
        },
        CliQuestionType::Boolean => TypeHint {
            expected: to_string("boolean (yes/no)"),
            example: to_string("yes"),
        },
        CliQuestionType::Integer => TypeHint {
            expected: to_string("integer (whole number)"),
            example: to_string("42"),
        },
        CliQuestionType::Number => TypeHint {
            expected: to_string("number (decimals allowed)"),
            example: to_string("a decimal"),
        },
        CliQuestionType::Enum => {
            let expected = match choices {
                Some(cs) => {
                    if cs.len() > 0 {
                        let mut out = to_string("enum (one of: ");
                        let joined = join_choices(cs);
                        push_str(&mut out, joined.as_str());
                        push_str(&mut out, ")");
                        proof {
                            assert(out@ =~= "enum (one of: "@ + choices_joined(cs@, 0) + ")"@);
                        }
                        out
                    } else {
                        to_string("enum choice")
                    }
                },
                None => to_string("enum choice"),
            };
            let example = match choices {
                Some(cs) => {
                    if cs.len() > 0 {
                        to_string(cs[0].as_str())
                    } else {
                        to_string("example-choice")
                    }
                },
                None => to_string("example-choice"),
            };
            TypeHint { expected, example }
        },
        CliQuestionType::List => {
            let mut expected = to_string("list (JSON array of objects with fields: ");
            match fields {
                Some(fs) => {
                    if fs.len() > 0 {
                        let joined = summarize_list_fields(fs);
                        push_str(&mut expected, joined.as_str());
                    } else {
                        push_str(&mut expected, "configured fields");
                    }
                },
                None => {
                    push_str(&mut expected, "configured fields");
                },
            }
            push_str(&mut expected, ")");
            proof {
                assert(expected@ =~= hint_expected_view(
                    kind,
                    match choices {
                        Some(cs) => Some(*cs),
                        None => None,
                    },
                    match fields {
                        Some(fs) => Some(*fs),
                        None => None,
                    },
                ));
            }
            TypeHint { expected, example: to_string("a JSON array of objects") }
        },
    }
}

/// The default-value prompt for one input type.
pub open spec fn default_prompt_view(kind: CliQuestionType, choices: Option<Vec<String>>) -> Seq<
    char,
> {
    match kind {
        CliQuestionType::Boolean => "Default value (yes/no or leave blank for optional)"@,
        CliQuestionType::Integer => "Default value (optional, enter a whole number)"@,
        CliQuestionType::Number => "Default value (optional, enter a number)"@,
        CliQuestionType::Enum => match choices {
            Some(cs) => if cs@.len() > 0 {
                "Default value (optional, one of "@ + choices_joined(cs@, 0) + ")"@
            } else {
                "Default value (optional, match one of the provided choices)"@
            },
            None => "Default value (optional, match one of the provided choices)"@,
        },
        _ => "Default value (optional)"@,
    }
}

/// Words the default-value prompt for one input type.
pub fn default_prompt_for(kind: CliQuestionType, choices: Option<&Vec<String>>) -> (r: String)
    ensures
        r@ == default_prompt_view(
            kind,
            match choices {
                Some(cs) => Some(*cs),
                None => None,
            },
        ),
{
    match kind {
        CliQuestionType::Boolean => to_string("Default value (yes/no or leave blank for optional)"),
        CliQuestionType::Integer => to_string("Default value (optional, enter a whole number)"),
        CliQuestionType::Number => to_string("Default value (optional, enter a number)"),
        CliQuestionType::Enum => {
            match choices {
                Some(cs) => {
                    if cs.len() > 0 {
                        let mut out = to_string("Default value (optional, one of ");
                        let joined = join_choices(cs);
                        push_str(&mut out, joined.as_str());
                        push_str(&mut out, ")");
                        proof {
                            assert(out@ =~= "Default value (optional, one of "@ + choices_joined(
                                cs@,
                                0,
                            ) + ")"@);
                        }
                        out
                    } else {
                        to_string("Default value (optional, match one of the provided choices)")
                    }
                },
                None => to_string("Default value (optional, match one of the provided choices)"),
            }
        },
        _ => to_string("Default value (optional)"),
    }
}

} // verus!
