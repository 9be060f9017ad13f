//! The render payload and its three formatters.
//!
//! `build_render_payload` aggregates visibility, navigation, progress and
//! the generated answer schema into one snapshot; the text, JSON-UI and
//! card formatters only lay that snapshot out.

use vstd::prelude::*;

use crate::form::{FormSpec, QuestionSpec, QuestionType};
use crate::json::{jview, jview_arr, jview_obj, JsonValue, JsonView};
use crate::progress::{
    all_visible_answered, count_answered, count_visible, spec_effective_policy,
};
use crate::schema::{schema_view, type_label};
use crate::strutil::{push_str, push_u64, spec_digits, to_string};
use crate::visibility::{question_visible, VisibilityMode};

verus! {

/// Status labels returned by the renderers.
#[derive(PartialEq, Eq, Structural, Clone, Copy, Debug)]
pub enum RenderStatus {
    /// More input is required.
    NeedInput,
    /// All visible questions are filled.
    Complete,
    /// Something unexpected occurred.
    Error,
}

/// The label of each status.
pub open spec fn status_label(s: RenderStatus) -> Seq<char> {
    match s {
        RenderStatus::NeedInput => "need_input"@,
        RenderStatus::Complete => "complete"@,
        RenderStatus::Error => "error"@,
    }
}

impl RenderStatus {
    /// The wire label of this status.
    pub fn as_str(&self) -> (r: &'static str)
        ensures
            r@ == status_label(*self),
    {
        match self {
            RenderStatus::NeedInput => "need_input",
            RenderStatus::Complete => "complete",
            RenderStatus::Error => "error",
        }
    }
}

/// Progress counters exposed to renderers.
pub struct RenderProgress {
    pub answered: usize,
    pub total: usize,
}

/// Describes a single question for render outputs.
pub struct RenderQuestion {
    pub id: String,
    pub title: String,
    pub description: Option<String>,
    pub kind: QuestionType,
    pub required: bool,
    pub default: Option<String>,
    pub secret: bool,
    pub visible: bool,
    pub current_value: Option<JsonValue>,
    pub choices: Option<Vec<String>>,
}

/// Collected payload used by all renderers.
pub struct RenderPayload {
    pub form_id: String,
    pub form_title: String,
    pub form_version: String,
    pub status: RenderStatus,
    pub next_question_id: Option<String>,
    pub progress: RenderProgress,
    pub help: Option<String>,
    pub questions: Vec<RenderQuestion>,
    pub schema: JsonValue,
}

/// What one question's render view must hold, given the form and the
/// answers.
pub open spec fn rq_matches(r: RenderQuestion, q: QuestionSpec, answers: JsonView, visible: bool) -> bool {
    &&& r.id@ == q.id@
    &&& r.title@ == q.title@
    &&& (match (r.description, q.description) {
        (Some(a), Some(b)) => a@ == b@,
        (None, None) => true,
        _ => false,
    })
    &&& r.kind == q.kind
    &&& r.required == q.required
    &&& (match (r.default, q.default_value) {
        (Some(a), Some(b)) => a@ == b@,
        (None, None) => true,
        _ => false,
    })
    &&& r.secret == q.secret
    &&& r.visible == visible
    &&& (match (r.current_value, crate::json::get_field(answers, q.id@)) {
        (Some(a), Some(b)) => a@ == b,
        (None, None) => true,
        _ => false,
    })
    &&& (match (r.choices, q.choices) {
        (Some(a), Some(b)) => a@.len() == b@.len() && forall|i: int|
            0 <= i < a@.len() ==> (#[trigger] a@[i])@ == b@[i]@,
        (None, None) => true,
        _ => false,
    })
}

/// The help text of a form: the presentation intro when given, else the
/// description.
pub open spec fn help_view(spec: FormSpec) -> Option<Seq<char>> {
    match spec.presentation {
        Some(p) => match p.intro {
            Some(i) => Some(i@),
            None => match spec.description {
                Some(d) => Some(d@),
                None => None,
            },
        },
        None => match spec.description {
            Some(d) => Some(d@),
            None => None,
        },
    }
}

/// Everything the payload builder promises: identity fields, a status
/// and progress derived from the resolved visibility, the generated
/// schema, per-question render views and the help text.
pub open spec fn payload_ok(r: RenderPayload, spec: FormSpec, answers: JsonView) -> bool {
    &&& r.form_id@ == spec.id@
    &&& r.form_title@ == spec.title@
    &&& r.form_version@ == spec.version@
    &&& exists|vis: Seq<(String, bool)>|
        {
            &&& #[trigger] crate::visibility::vis_map_ok(
                vis,
                spec.questions@,
                answers,
                VisibilityMode::Visible,
            )
            &&& (r.status == RenderStatus::NeedInput) == !all_visible_answered(
                spec.questions@,
                answers,
                spec_effective_policy(spec),
                vis,
            )
            &&& (r.status == RenderStatus::NeedInput || r.status == RenderStatus::Complete)
            &&& (r.next_question_id is Some) == (r.status == RenderStatus::NeedInput)
            &&& r.progress.answered == count_answered(
                spec.questions@,
                answers,
                spec_effective_policy(spec),
                vis,
                spec.questions@.len() as int,
            )
            &&& r.progress.total == count_visible(
                spec.questions@,
                vis,
                spec.questions@.len() as int,
            )
            &&& r.schema@ == schema_view(spec.questions@, vis)
            &&& (match r.next_question_id {
                Some(id) => if spec_effective_policy(spec).skip_answered {
                    match crate::progress::first_open_at(
                        spec.questions@,
                        answers,
                        spec_effective_policy(spec),
                        vis,
                        0,
                    ) {
                        Some(i) => id@ == spec.questions@[i].id@,
                        None => false,
                    }
                } else {
                    match crate::progress::first_visible_at(spec.questions@, vis, 0) {
                        Some(i) => id@ == spec.questions@[i].id@,
                        None => false,
                    }
                },
                None => true,
            })
        }
    &&& r.questions@.len() == spec.questions@.len()
    &&& forall|i: int|
        0 <= i < r.questions@.len() ==> rq_matches(
            #[trigger] r.questions@[i],
            spec.questions@[i],
            answers,
            question_visible(spec.questions@[i], answers, VisibilityMode::Visible),
        )
    &&& (match (r.help, help_view(spec)) {
        (Some(a), Some(b)) => a@ == b,
        (None, None) => true,
        _ => false,
    })
}

/// Builds the renderer payload: visibility, navigation, progress and the
/// answer schema, aggregated over one snapshot of the answers.
pub fn build_render_payload(spec: &FormSpec, answers: &JsonValue) -> (r: RenderPayload)
    ensures
        payload_ok(r, *spec, answers@),
{
    let vis = crate::visibility::resolve_visibility(spec, answers, VisibilityMode::Visible);
    let policy = crate::progress::effective_policy(spec);
    let next = crate::progress::next_question(spec, &policy, answers, &vis);
    let counts = crate::progress::progress_counts(spec, &policy, answers, &vis);
    let schema = crate::schema::answers_schema(spec, &vis);
    let n = spec.questions.len();
    let mut questions: Vec<RenderQuestion> = Vec::new();
    let mut i: usize = 0;
    while i < n
        invariant
            i <= n,
            n == spec.questions@.len(),
            vis@.len() == n,
            forall|j: int|
                0 <= j < n ==> (#[trigger] vis@[j]).0@ == spec.questions@[j].id@ && vis@[j].1
                    == question_visible(spec.questions@[j], answers@, VisibilityMode::Visible),
            questions@.len() == i,
            forall|j: int|
                0 <= j < i ==> rq_matches(
                    #[trigger] questions@[j],
                    spec.questions@[j],
                    answers@,
                    question_visible(spec.questions@[j], answers@, VisibilityMode::Visible),
                ),
        decreases n - i,
    {
        let q = &spec.questions[i];
        let description = match &q.description {
            Some(d) => Some(to_string(d.as_str())),
            None => None,
        };
        let default = match &q.default_value {
            Some(d) => Some(to_string(d.as_str())),
            None => None,
        };
        let current_value = match answers.get(q.id.as_str()) {
            Some(v) => Some(v.deep_copy()),
            None => None,
        };
        let choices = match &q.choices {
            Some(cs) => {
                let mut copy: Vec<String> = Vec::new();
                let cn = cs.len();
                let mut ci: usize = 0;
                while ci < cn
                    invariant
                        ci <= cn,
                        cn == cs@.len(),
                        copy@.len() == ci,
                        forall|j: int| 0 <= j < ci ==> (#[trigger] copy@[j])@ == cs@[j]@,
                    decreases cn - ci,
                {
                    copy.push(to_string(cs[ci].as_str()));
                    ci += 1;
                }
                Some(copy)
            },
            None => None,
        };
        let visible = (&vis[i]).1;
        let rq = RenderQuestion {
            id: to_string(q.id.as_str()),
            title: to_string(q.title.as_str()),
            description,
            kind: q.kind,
            required: q.required,
            default,
            secret: q.secret,
            visible,
            current_value,
            choices,
        };
        questions.push(rq);
        i += 1;
    }
    let help = match &spec.presentation {
        Some(p) => match &p.intro {
            Some(intro) => Some(to_string(intro.as_str())),
            None => match &spec.description {
                Some(d) => Some(to_string(d.as_str())),
                None => None,
            },
        },
        None => match &spec.description {
            Some(d) => Some(to_string(d.as_str())),
            None => None,
        },
    };
    let status = if next.is_some() {
        RenderStatus::NeedInput
    } else {
        RenderStatus::Complete
    };
    let ghost gvis = vis@;
    RenderPayload {
        form_id: to_string(spec.id.as_str()),
        form_title: to_string(spec.title.as_str()),
        form_version: to_string(spec.version.as_str()),
        status,
        next_question_id: next,
        progress: RenderProgress { answered: counts.0, total: counts.1 },
        help,
        questions,
        schema,
    }
}

/// The view of an optional string.
pub open spec fn opt_view(o: Option<String>) -> Option<Seq<char>> {
    match o {
        Some(s) => Some(s@),
        None => None,
    }
}

/// The characters of an integer, sign first.
pub open spec fn int_chars(i: int) -> Seq<char> {
    if i < 0 {
        seq!['-'] + spec_digits((-i) as nat)
    } else {
        spec_digits(i as nat)
    }
}

/// A value displayed as one line of text: strings as they are, numbers
/// in sign/digits/exponent form, containers as placeholders.
pub open spec fn value_display(v: JsonView) -> Seq<char> {
    match v {
        JsonView::Str(s) => s,
        JsonView::Null => "null"@,
        JsonView::Bool(b) => if b {
            "true"@
        } else {
            "false"@
        },
        JsonView::Int(i) => int_chars(i),
        JsonView::Num { neg, mant, exp10 } => (if neg {
            seq!['-']
        } else {
            Seq::empty()
        }) + spec_digits(mant) + (if exp10 != 0 {
            seq!['e'] + int_chars(exp10)
        } else {
            Seq::empty()
        }),
        JsonView::Arr(_) => "[list]"@,
        JsonView::Obj(_) => "{object}"@,
    }
}

/// Appends an integer, sign first.
fn push_i64(out: &mut String, i: i64)
    ensures
        final(out)@ == old(out)@ + int_chars(i as int),
{
    if i < 0 {
        crate::strutil::push_char(out, '-');
        let m = (-(i as i128)) as u64;
        push_u64(out, m);
        proof {
            assert(out@ =~= old(out)@ + int_chars(i as int));
        }
    } else {
        push_u64(out, i as u64);
    }
}

/// Renders one value for display.
pub fn value_display_exec(v: &JsonValue) -> (r: String)
    ensures
        r@ == value_display(v@),
{
    match v {
        JsonValue::Str(s) => to_string(s.as_str()),
        JsonValue::Null => to_string("null"),
        JsonValue::Bool(b) => if *b {
            to_string("true")
        } else {
            to_string("false")
        },
        JsonValue::Int(i) => {
            let mut out = String::new();
            push_i64(&mut out, *i);
            proof {
                assert(out@ =~= int_chars(*i as int));
            }
            out
        },
        JsonValue::Num(d) => {
            let mut out = String::new();
            if d.neg {
                crate::strutil::push_char(&mut out, '-');
            }
            push_u64(&mut out, d.mant);
            if d.exp10 != 0 {
                crate::strutil::push_char(&mut out, 'e');
                push_i64(&mut out, d.exp10 as i64);
            }
            proof {
                assert(out@ =~= value_display(v@));
            }
            out
        },
        JsonValue::Arr(_) => to_string("[list]"),
        JsonValue::Obj(_) => to_string("{object}"),
    }
}

/// The first render question carrying the id, from `from` on.
pub open spec fn find_rq(qs: Seq<RenderQuestion>, id: Seq<char>, from: int) -> Option<int>
    decreases qs.len() - from,
        when 0 <= from <= qs.len()
{
    if from >= qs.len() {
        None
    } else if qs[from].id@ == id {
        Some(from)
    } else {
        find_rq(qs, id, from + 1)
    }
}

/// The detail lines of one question: title, then optional description,
/// required marker, default and current value.
pub open spec fn detail_of(q: RenderQuestion) -> Seq<char> {
    "\n  Title: "@ + q.title@ + (match q.description {
        Some(d) => "\n  Description: "@ + d@,
        None => Seq::empty(),
    }) + (if q.required {
        "\n  Required: yes"@
    } else {
        Seq::empty()
    }) + (match q.default {
        Some(d) => "\n  Default: "@ + d@,
        None => Seq::empty(),
    }) + (match q.current_value {
        Some(v) => "\n  Current value: "@ + value_display(jview(v)),
        None => Seq::empty(),
    })
}

/// The detail lines shown under the next question.
pub open spec fn next_detail(qs: Seq<RenderQuestion>, id: Seq<char>) -> Seq<char> {
    match find_rq(qs, id, 0) {
        None => Seq::empty(),
        Some(i) => detail_of(qs[i]),
    }
}

/// The listing line of one question.
pub open spec fn vline_of(q: RenderQuestion) -> Seq<char> {
    "\n - "@ + q.id@ + " ("@ + q.title@ + ")"@ + (if q.required {
        " [required]"@
    } else {
        Seq::empty()
    }) + (match q.current_value {
        Some(v) => " = "@ + value_display(jview(v)),
        None => Seq::empty(),
    })
}

/// One listing line per visible question, from `from` on.
pub open spec fn visible_lines(qs: Seq<RenderQuestion>, from: int) -> Seq<char>
    decreases qs.len() - from,
        when 0 <= from <= qs.len()
{
    if from >= qs.len() {
        Seq::empty()
    } else {
        (if qs[from].visible {
            vline_of(qs[from])
        } else {
            Seq::empty()
        }) + visible_lines(qs, from + 1)
    }
}

/// Appends one question's detail lines.
#[verifier::rlimit(60)]
fn push_detail(out: &mut String, q: &RenderQuestion)
    ensures
        final(out)@ == old(out)@ + detail_of(*q),
{
    push_str(out, "\n  Title: ");
    push_str(out, q.title.as_str());
    match &q.description {
        Some(d) => {
            push_str(out, "\n  Description: ");
            push_str(out, d.as_str());
        },
        None => {},
    }
    if q.required {
        push_str(out, "\n  Required: yes");
    }
    match &q.default {
        Some(d) => {
            push_str(out, "\n  Default: ");
            push_str(out, d.as_str());
        },
        None => {},
    }
    match &q.current_value {
        Some(v) => {
            push_str(out, "\n  Current value: ");
            let disp = value_display_exec(v);
            push_str(out, disp.as_str());
        },
        None => {},
    }
    proof {
        assert(out@ =~= old(out)@ + detail_of(*q));
    }
}

/// Appends one question's listing line.
#[verifier::rlimit(60)]
fn push_vline(out: &mut String, q: &RenderQuestion)
    ensures
        final(out)@ == old(out)@ + vline_of(*q),
{
    push_str(out, "\n - ");
    push_str(out, q.id.as_str());
    push_str(out, " (");
    push_str(out, q.title.as_str());
    push_str(out, ")");
    if q.required {
        push_str(out, " [required]");
    }
    match &q.current_value {
        Some(v) => {
            push_str(out, " = ");
            let disp = value_display_exec(v);
            push_str(out, disp.as_str());
        },
        None => {},
    }
    proof {
        assert(out@ =~= old(out)@ + vline_of(*q));
    }
}

/// The header of the text rendering: the form line, the status line and
/// the optional help line.
pub open spec fn text_head(p: RenderPayload) -> Seq<char> {
    "Form: "@ + p.form_title@ + " ("@ + p.form_id@ + ")"@ + "\nStatus: "@ + status_label(p.status)
        + " ("@ + spec_digits(p.progress.answered as nat) + "/"@ + spec_digits(
        p.progress.total as nat,
    ) + ")"@ + (match p.help {
        Some(h) => "\nHelp: "@ + h@,
        None => Seq::empty(),
    })
}

/// The header plus the next-question section or the completion line.
pub open spec fn text_mid(p: RenderPayload) -> Seq<char> {
    text_head(p) + (match p.next_question_id {
        Some(id) => "\nNext question: "@ + id@ + next_detail(p.questions@, id@),
        None => "\nAll visible questions are answered."@,
    })
}

/// The whole text rendering of a payload: the form line, the status
/// line, optional help, the next question with its details or the
/// completion line, and one line per visible question.
pub open spec fn render_text_view(p: RenderPayload) -> Seq<char> {
    text_mid(p) + "\nVisible questions:"@ + visible_lines(p.questions@, 0)
}

/// Renders the payload as human-friendly text.
#[verifier::rlimit(100)]
pub fn render_text(payload: &RenderPayload) -> (r: String)
    ensures
        r@ == render_text_view(*payload),
{
    let mut out = to_string("Form: ");
    push_str(&mut out, payload.form_title.as_str());
    push_str(&mut out, " (");
    push_str(&mut out, payload.form_id.as_str());
    push_str(&mut out, ")");
    push_str(&mut out, "\nStatus: ");
    push_str(&mut out, payload.status.as_str());
    push_str(&mut out, " (");
    push_u64(&mut out, payload.progress.answered as u64);
    push_str(&mut out, "/");
    push_u64(&mut out, payload.progress.total as u64);
    push_str(&mut out, ")");
    match &payload.help {
        Some(h) => {
            push_str(&mut out, "\nHelp: ");
            push_str(&mut out, h.as_str());
        },
        None => {},
    }
    proof {
        assert(out@ =~= text_head(*payload));
    }
    let ghost head = out@;
    match &payload.next_question_id {
        Some(id) => {
            push_str(&mut out, "\nNext question: ");
            push_str(&mut out, id.as_str());
            let qs = &payload.questions;
            let n = qs.len();
            let mut i: usize = 0;
            let mut found: Option<usize> = None;
            while i < n && found.is_none()
                invariant
                    i <= n,
                    n == qs@.len(),
                    match found {
                        Some(k) => find_rq(qs@, id@, 0) == Some(k as int) && k < n,
                        None => find_rq(qs@, id@, 0) == find_rq(qs@, id@, i as int),
                    },
                decreases n - i, (if found is Some { 0int } else { 1int }),
            {
                if crate::strutil::str_eq(qs[i].id.as_str(), id.as_str()) {
                    found = Some(i);
                } else {
                    i += 1;
                }
            }
            match found {
                Some(k) => {
                    let q = &qs[k];
                    push_detail(&mut out, q);
                    proof {
                        assert(out@ =~= head + ("\nNext question: "@ + id@ + next_detail(
                            qs@,
                            id@,
                        )));
                    }
                },
                None => {
                    proof {
                        assert(next_detail(qs@, id@) =~= Seq::<char>::empty());
                        assert(out@ =~= head + ("\nNext question: "@ + id@ + next_detail(
                            qs@,
                            id@,
                        )));
                    }
                },
            }
        },
        None => {
            push_str(&mut out, "\nAll visible questions are answered.");
        },
    }
    proof {
        assert(out@ =~= text_mid(*payload));
    }
    push_str(&mut out, "\nVisible questions:");
    let ghost mid = out@;
    proof {
        assert(mid =~= text_mid(*payload) + "\nVisible questions:"@);
    }
    let qs = &payload.questions;
    let n = qs.len();
    let mut i: usize = 0;
    proof {
        assert(out@ + visible_lines(qs@, 0) == mid + visible_lines(qs@, 0));
    }
    while i < n
        invariant
            i <= n,
            n == qs@.len(),
            out@ + visible_lines(qs@, i as int) == mid + visible_lines(qs@, 0),
        decreases n - i,
    {
        let ghost prev = out@;
        let q = &qs[i];
        if q.visible {
            push_vline(&mut out, q);
        }
        proof {
            assert(out@ + visible_lines(qs@, i + 1) =~= prev + visible_lines(qs@, i as int));
        }
        i += 1;
    }
    proof {
        assert(visible_lines(qs@, n as int) =~= Seq::<char>::empty());
        assert(out@ =~= mid + visible_lines(qs@, 0));
        assert(out@ =~= render_text_view(*payload));
    }
    out
}

/// A count as a JSON integer, clamped into signed range.
pub open spec fn count_view(n: nat) -> JsonView {
    crate::schema::len_bound_view(n)
}

/// The fixed head of one question's JSON view: id, title, description,
/// type and required flag.
pub open spec fn qjson_s0(q: RenderQuestion) -> Seq<(Seq<char>, JsonView)> {
    seq![
        ("id"@, JsonView::Str(q.id@)),
        ("title"@, JsonView::Str(q.title@)),
        (
            "description"@,
            match q.description {
                Some(d) => JsonView::Str(d@),
                None => JsonView::Null,
            },
        ),
        ("type"@, JsonView::Str(type_label(q.kind))),
        ("required"@, JsonView::Bool(q.required)),
    ]
}

/// ... plus the default, when one is set.
pub open spec fn qjson_s1(q: RenderQuestion) -> Seq<(Seq<char>, JsonView)> {
    match q.default {
        Some(d) => qjson_s0(q).push(("default"@, JsonView::Str(d@))),
        None => qjson_s0(q),
    }
}

/// ... plus the current value, when one is present.
pub open spec fn qjson_s2(q: RenderQuestion) -> Seq<(Seq<char>, JsonView)> {
    match q.current_value {
        Some(v) => qjson_s1(q).push(("current_value"@, jview(v))),
        None => qjson_s1(q),
    }
}

/// ... plus the choices, when the question has any.
pub open spec fn qjson_s3(q: RenderQuestion) -> Seq<(Seq<char>, JsonView)> {
    match q.choices {
        Some(cs) => qjson_s2(q).push(("choices"@, JsonView::Arr(crate::schema::choices_view(cs@)))),
        None => qjson_s2(q),
    }
}

/// The JSON view of one question in the UI payload.
pub open spec fn qjson(q: RenderQuestion) -> JsonView {
    JsonView::Obj(
        qjson_s3(q).push(("visible"@, JsonView::Bool(q.visible))).push(
            ("secret"@, JsonView::Bool(q.secret)),
        ),
    )
}

/// The JSON views of all questions, in order.
pub open spec fn qjsons(qs: Seq<RenderQuestion>) -> Seq<JsonView> {
    Seq::new(qs.len(), |i: int| qjson(qs[i]))
}

/// The whole JSON-UI view of a payload.
pub open spec fn ui_view(p: RenderPayload) -> JsonView {
    JsonView::Obj(
        seq![
            ("form_id"@, JsonView::Str(p.form_id@)),
            ("form_title"@, JsonView::Str(p.form_title@)),
            ("form_version"@, JsonView::Str(p.form_version@)),
            ("status"@, JsonView::Str(status_label(p.status))),
            (
                "next_question_id"@,
                match p.next_question_id {
                    Some(id) => JsonView::Str(id@),
                    None => JsonView::Null,
                },
            ),
            (
                "progress"@,
                JsonView::Obj(
                    seq![
                        ("answered"@, count_view(p.progress.answered as nat)),
                        ("total"@, count_view(p.progress.total as nat)),
                    ],
                ),
            ),
            (
                "help"@,
                match p.help {
                    Some(h) => JsonView::Str(h@),
                    None => JsonView::Null,
                },
            ),
            ("questions"@, JsonView::Arr(qjsons(p.questions@))),
            ("schema"@, jview(p.schema)),
        ],
    )
}

/// Builds one question's JSON object for the UI payload.
#[verifier::rlimit(80)]
fn question_json(q: &RenderQuestion) -> (r: JsonValue)
    ensures
        r@ == qjson(*q),
{
    let mut entries: Vec<(String, JsonValue)> = Vec::new();
    entries.push((to_string("id"), JsonValue::Str(to_string(q.id.as_str()))));
    entries.push((to_string("title"), JsonValue::Str(to_string(q.title.as_str()))));
    let description = match &q.description {
        Some(d) => JsonValue::Str(to_string(d.as_str())),
        None => JsonValue::Null,
    };
    entries.push((to_string("description"), description));
    let label = match q.kind {
        QuestionType::String => to_string("string"),
        QuestionType::Boolean => to_string("boolean"),
        QuestionType::Integer => to_string("integer"),
        QuestionType::Number => to_string("number"),
        QuestionType::Enum => to_string("enum"),
        QuestionType::List => to_string("list"),
    };
    entries.push((to_string("type"), JsonValue::Str(label)));
    entries.push((to_string("required"), JsonValue::Bool(q.required)));
    proof {
        crate::json::lemma_jview_obj(entries@);
        assert(jview_obj(entries@) =~= qjson_s0(*q));
    }
    match &q.default {
        Some(d) => {
            let ghost prev = entries@;
            entries.push((to_string("default"), JsonValue::Str(to_string(d.as_str()))));
            proof {
                crate::json::lemma_jview_obj(entries@);
                crate::json::lemma_jview_obj(prev);
                assert(jview_obj(entries@) =~= qjson_s1(*q));
            }
        },
        None => {},
    }
    match &q.current_value {
        Some(v) => {
            let ghost prev = entries@;
            entries.push((to_string("current_value"), v.deep_copy()));
            proof {
                crate::json::lemma_jview_obj(entries@);
                crate::json::lemma_jview_obj(prev);
                assert(jview_obj(entries@) =~= qjson_s2(*q));
            }
        },
        None => {},
    }
    match &q.choices {
        Some(cs) => {
            let mut arr: Vec<JsonValue> = Vec::new();
            let n = cs.len();
            let mut i: usize = 0;
            proof {
                crate::json::lemma_jview_arr(arr@);
                assert(jview_arr(arr@) =~= crate::schema::choices_view(cs@).take(0));
            }
            while i < n
                invariant
                    i <= n,
                    n == cs@.len(),
                    jview_arr(arr@) =~= crate::schema::choices_view(cs@).take(i as int),
                decreases n - i,
            {
                let ghost prev = arr@;
                arr.push(JsonValue::Str(to_string(cs[i].as_str())));
                proof {
                    crate::json::lemma_jview_arr(arr@);
                    crate::json::lemma_jview_arr(prev);
                    assert(jview_arr(arr@) =~= crate::schema::choices_view(cs@).take(i + 1));
                }
                i += 1;
            }
            proof {
                assert(crate::schema::choices_view(cs@).take(n as int) =~= crate::schema::choices_view(cs@));
            }
            let ghost prev = entries@;
            entries.push((to_string("choices"), JsonValue::Arr(arr)));
            proof {
                crate::json::lemma_jview_obj(entries@);
                crate::json::lemma_jview_obj(prev);
                assert(jview_obj(entries@) =~= qjson_s3(*q));
            }
        },
        None => {},
    }
    let ghost p1 = entries@;
    entries.push((to_string("visible"), JsonValue::Bool(q.visible)));
    proof {
        crate::json::lemma_jview_obj(entries@);
        crate::json::lemma_jview_obj(p1);
        assert(jview_obj(entries@) =~= qjson_s3(*q).push(("visible"@, JsonView::Bool(q.visible))));
    }
    let ghost p2 = entries@;
    entries.push((to_string("secret"), JsonValue::Bool(q.secret)));
    proof {
        crate::json::lemma_jview_obj(entries@);
        crate::json::lemma_jview_obj(p2);
        assert(jview_obj(entries@) =~= qjson_s3(*q).push(
            ("visible"@, JsonView::Bool(q.visible)),
        ).push(("secret"@, JsonView::Bool(q.secret))));
    }
    JsonValue::Obj(entries)
}

/// A count as a JSON integer value.
fn count_value(n: usize) -> (r: JsonValue)
    ensures
        r@ == count_view(n as nat),
{
    crate::schema::len_bound(n)
}

/// Renders the payload as a structured JSON value.
#[verifier::rlimit(60)]
pub fn render_json_ui(payload: &RenderPayload) -> (r: JsonValue)
    ensures
        r@ == ui_view(*payload),
{
    let qs = &payload.questions;
    let n = qs.len();
    let mut questions: Vec<JsonValue> = Vec::new();
    let mut i: usize = 0;
    proof {
        crate::json::lemma_jview_arr(questions@);
        assert(jview_arr(questions@) =~= qjsons(qs@).take(0));
    }
    while i < n
        invariant
            i <= n,
            n == qs@.len(),
            jview_arr(questions@) =~= qjsons(qs@).take(i as int),
        decreases n - i,
    {
        let ghost prev = questions@;
        let qj = question_json(&qs[i]);
        questions.push(qj);
        proof {
            crate::json::lemma_jview_arr(questions@);
            crate::json::lemma_jview_arr(prev);
            assert(jview_arr(questions@) =~= qjsons(qs@).take(i + 1));
        }
        i += 1;
    }
    proof {
        assert(qjsons(qs@).take(n as int) =~= qjsons(qs@));
    }
    let mut progress: Vec<(String, JsonValue)> = Vec::new();
    progress.push((to_string("answered"), count_value(payload.progress.answered)));
    progress.push((to_string("total"), count_value(payload.progress.total)));
    let progress_obj = JsonValue::Obj(progress);
    proof {
        crate::json::lemma_jview_obj(progress_obj->Obj_0@);
        assert(jview_obj(progress_obj->Obj_0@) =~= seq![
            ("answered"@, count_view(payload.progress.answered as nat)),
            ("total"@, count_view(payload.progress.total as nat)),
        ]);
    }
    let mut entries: Vec<(String, JsonValue)> = Vec::new();
    entries.push((to_string("form_id"), JsonValue::Str(to_string(payload.form_id.as_str()))));
    entries.push((
        to_string("form_title"),
        JsonValue::Str(to_string(payload.form_title.as_str())),
    ));
    entries.push((
        to_string("form_version"),
        JsonValue::Str(to_string(payload.form_version.as_str())),
    ));
    entries.push((to_string("status"), JsonValue::Str(to_string(payload.status.as_str()))));
    let next_val = match &payload.next_question_id {
        Some(id) => JsonValue::Str(to_string(id.as_str())),
        None => JsonValue::Null,
    };
    entries.push((to_string("next_question_id"), next_val));
    entries.push((to_string("progress"), progress_obj));
    let help_val = match &payload.help {
        Some(h) => JsonValue::Str(to_string(h.as_str())),
        None => JsonValue::Null,
    };
    entries.push((to_string("help"), help_val));
    entries.push((to_string("questions"), JsonValue::Arr(questions)));
    entries.push((to_string("schema"), payload.schema.deep_copy()));
    let r = JsonValue::Obj(entries);
    proof {
        crate::json::lemma_jview_obj(r->Obj_0@);
        assert(jview_obj(r->Obj_0@) =~= ui_view(*payload)->Obj_0);
    }
    r
}

/// A text block of the card, optionally bold, large or tightly spaced.
pub open spec fn tb_view(text: Seq<char>, bolder: bool, large: bool, small: bool) -> JsonView {
    let s0 = seq![("type"@, JsonView::Str("TextBlock"@)), ("text"@, JsonView::Str(text))];
    let s1 = if bolder {
        s0.push(("weight"@, JsonView::Str("Bolder"@)))
    } else {
        s0
    };
    let s2 = if large {
        s1.push(("size"@, JsonView::Str("Large"@)))
    } else {
        s1
    };
    let s3 = s2.push(("wrap"@, JsonView::Bool(true)));
    JsonView::Obj(
        if small {
            s3.push(("spacing"@, JsonView::Str("Small"@)))
        } else {
            s3
        },
    )
}

/// One fact row of the card's fact set.
pub open spec fn fact_view(title: Seq<char>, value: Seq<char>) -> JsonView {
    JsonView::Obj(seq![("title"@, JsonView::Str(title)), ("value"@, JsonView::Str(value))])
}

/// The card's progress fact set.
pub open spec fn factset_view(p: RenderPayload) -> JsonView {
    JsonView::Obj(
        seq![
            ("type"@, JsonView::Str("FactSet"@)),
            (
                "facts"@,
                JsonView::Arr(
                    seq![
                        fact_view("Answered"@, spec_digits(p.progress.answered as nat)),
                        fact_view("Total"@, spec_digits(p.progress.total as nat)),
                    ],
                ),
            ),
        ],
    )
}

/// The input element of one question: a text field, a toggle, or a
/// choice set for enums.
pub open spec fn input_view(q: RenderQuestion) -> JsonView {
    match q.kind {
        QuestionType::Boolean => {
            let s0 = seq![
                ("type"@, JsonView::Str("Input.Toggle"@)),
                ("id"@, JsonView::Str(q.id@)),
                ("title"@, JsonView::Str(q.title@)),
                ("isRequired"@, JsonView::Bool(q.required)),
                ("valueOn"@, JsonView::Str("true"@)),
                ("valueOff"@, JsonView::Str("false"@)),
            ];
            JsonView::Obj(
                match q.current_value {
                    Some(v) => s0.push(
                        (
                            "value"@,
                            JsonView::Str(
                                if v@ == JsonView::Bool(true) {
                                    "true"@
                                } else {
                                    "false"@
                                },
                            ),
                        ),
                    ),
                    None => s0,
                },
            )
        },
        QuestionType::Enum => {
            let s0 = seq![
                ("type"@, JsonView::Str("Input.ChoiceSet"@)),
                ("id"@, JsonView::Str(q.id@)),
                ("style"@, JsonView::Str("compact"@)),
                ("isRequired"@, JsonView::Bool(q.required)),
                ("choices"@, JsonView::Arr(choice_rows(q.choices))),
            ];
            JsonView::Obj(
                match q.current_value {
                    Some(v) => s0.push(("value"@, JsonView::Str(value_display(jview(v))))),
                    None => s0,
                },
            )
        },
        _ => {
            let s0 = seq![
                ("type"@, JsonView::Str("Input.Text"@)),
                ("id"@, JsonView::Str(q.id@)),
                ("isRequired"@, JsonView::Bool(q.required)),
            ];
            JsonView::Obj(
                match q.current_value {
                    Some(v) => s0.push(("value"@, JsonView::Str(value_display(jview(v))))),
                    None => s0,
                },
            )
        },
    }
}

/// The choice rows of a choice set: one title/value pair per choice.
pub open spec fn choice_rows(choices: Option<Vec<String>>) -> Seq<JsonView> {
    match choices {
        Some(cs) => Seq::new(
            cs@.len(),
            |i: int| JsonView::Obj(
                seq![
                    ("title"@, JsonView::Str(cs@[i]@)),
                    ("value"@, JsonView::Str(cs@[i]@)),
                ],
            ),
        ),
        None => Seq::empty(),
    }
}

/// The container presenting the next question: its title, optional
/// description, and input element.
pub open spec fn container_view(q: RenderQuestion) -> JsonView {
    let items = seq![tb_view(q.title@, true, false, false)] + (match q.description {
        Some(d) => seq![tb_view(d@, false, false, true)],
        None => Seq::empty(),
    }) + seq![input_view(q)];
    JsonView::Obj(
        seq![("type"@, JsonView::Str("Container"@)), ("items"@, JsonView::Arr(items))],
    )
}

/// The submit action of the card, patching one question's answer.
pub open spec fn action_view(p: RenderPayload, q: RenderQuestion) -> JsonView {
    JsonView::Obj(
        seq![
            ("type"@, JsonView::Str("Action.Submit"@)),
            ("title"@, JsonView::Str("Next"@)),
            (
                "data"@,
                JsonView::Obj(
                    seq![
                        (
                            "qa"@,
                            JsonView::Obj(
                                seq![
                                    ("formId"@, JsonView::Str(p.form_id@)),
                                    ("mode"@, JsonView::Str("patch"@)),
                                    ("questionId"@, JsonView::Str(q.id@)),
                                    ("field"@, JsonView::Str("answer"@)),
                                ],
                            ),
                        ),
                    ],
                ),
            ),
        ],
    )
}

/// The card body: the title block, optional help, the fact set, and the
/// question container or the completion line.
pub open spec fn card_body(p: RenderPayload) -> Seq<JsonView> {
    let s0 = seq![tb_view(p.form_title@, true, true, false)] + (match p.help {
        Some(h) => seq![tb_view(h@, false, false, false)],
        None => Seq::empty(),
    }) + seq![factset_view(p)];
    match p.next_question_id {
        Some(id) => match find_rq(p.questions@, id@, 0) {
            Some(i) => s0.push(container_view(p.questions@[i])),
            None => s0,
        },
        None => s0.push(tb_view("All visible questions are answered."@, false, false, false)),
    }
}

/// The card actions: one submit action when a next question exists.
pub open spec fn card_actions(p: RenderPayload) -> Seq<JsonView> {
    match p.next_question_id {
        Some(id) => match find_rq(p.questions@, id@, 0) {
            Some(i) => seq![action_view(p, p.questions@[i])],
            None => Seq::empty(),
        },
        None => Seq::empty(),
    }
}

/// The whole card view of a payload.
pub open spec fn card_view(p: RenderPayload) -> JsonView {
    JsonView::Obj(
        seq![
            ("$schema"@, JsonView::Str("http://adaptivecards.io/schemas/adaptive-card.json"@)),
            ("type"@, JsonView::Str("AdaptiveCard"@)),
            ("version"@, JsonView::Str("1.3"@)),
            ("body"@, JsonView::Arr(card_body(p))),
            ("actions"@, JsonView::Arr(card_actions(p))),
        ],
    )
}

/// Builds one text block.
#[verifier::rlimit(50)]
fn text_block(text: &str, bolder: bool, large: bool, small: bool) -> (r: JsonValue)
    ensures
        r@ == tb_view(text@, bolder, large, small),
{
    let mut entries: Vec<(String, JsonValue)> = Vec::new();
    entries.push((to_string("type"), JsonValue::Str(to_string("TextBlock"))));
    entries.push((to_string("text"), JsonValue::Str(to_string(text))));
    if bolder {
        entries.push((to_string("weight"), JsonValue::Str(to_string("Bolder"))));
    }
    if large {
        entries.push((to_string("size"), JsonValue::Str(to_string("Large"))));
    }
    entries.push((to_string("wrap"), JsonValue::Bool(true)));
    if small {
        entries.push((to_string("spacing"), JsonValue::Str(to_string("Small"))));
    }
    let r = JsonValue::Obj(entries);
    proof {
        crate::json::lemma_jview_obj(r->Obj_0@);
        assert(jview_obj(r->Obj_0@) =~= tb_view(text@, bolder, large, small)->Obj_0);
    }
    r
}

/// Builds the question input element.
#[verifier::rlimit(100)]
fn question_input(q: &RenderQuestion) -> (r: JsonValue)
    ensures
        r@ == input_view(*q),
{
    match q.kind {
        QuestionType::Boolean => {
            let mut entries: Vec<(String, JsonValue)> = Vec::new();
            entries.push((to_string("type"), JsonValue::Str(to_string("Input.Toggle"))));
            entries.push((to_string("id"), JsonValue::Str(to_string(q.id.as_str()))));
            entries.push((to_string("title"), JsonValue::Str(to_string(q.title.as_str()))));
            entries.push((to_string("isRequired"), JsonValue::Bool(q.required)));
            entries.push((to_string("valueOn"), JsonValue::Str(to_string("true"))));
            entries.push((to_string("valueOff"), JsonValue::Str(to_string("false"))));
            match &q.current_value {
                Some(v) => {
                    let is_true = match v.as_bool() {
                        Some(true) => true,
                        _ => false,
                    };
                    let val = if is_true {
                        to_string("true")
                    } else {
                        to_string("false")
                    };
                    entries.push((to_string("value"), JsonValue::Str(val)));
                },
                None => {},
            }
            let r = JsonValue::Obj(entries);
            proof {
                crate::json::lemma_jview_obj(r->Obj_0@);
                assert(jview_obj(r->Obj_0@) =~= input_view(*q)->Obj_0);
            }
            r
        },
        QuestionType::Enum => {
            let mut rows: Vec<JsonValue> = Vec::new();
            match &q.choices {
                Some(cs) => {
                    let n = cs.len();
                    let mut i: usize = 0;
                    proof {
                        crate::json::lemma_jview_arr(rows@);
                        assert(jview_arr(rows@) =~= choice_rows(q.choices).take(0));
                    }
                    while i < n
                        invariant
                            i <= n,
                            n == cs@.len(),
                            q.choices matches Some(qcs) && qcs@ == cs@,
                            jview_arr(rows@) =~= choice_rows(q.choices).take(i as int),
                        decreases n - i,
                    {
                        let mut row: Vec<(String, JsonValue)> = Vec::new();
                        row.push((to_string("title"), JsonValue::Str(to_string(cs[i].as_str()))));
                        row.push((to_string("value"), JsonValue::Str(to_string(cs[i].as_str()))));
                        let rowv = JsonValue::Obj(row);
                        proof {
                            crate::json::lemma_jview_obj(rowv->Obj_0@);
                            assert(jview_obj(rowv->Obj_0@) =~= seq![
                                ("title"@, JsonView::Str(cs@[i as int]@)),
                                ("value"@, JsonView::Str(cs@[i as int]@)),
                            ]);
                        }
                        let ghost prev = rows@;
                        rows.push(rowv);
                        proof {
                            crate::json::lemma_jview_arr(rows@);
                            crate::json::lemma_jview_arr(prev);
                            assert(jview_arr(rows@) =~= choice_rows(q.choices).take(i + 1));
                        }
                        i += 1;
                    }
                    proof {
                        assert(choice_rows(q.choices).take(n as int) =~= choice_rows(q.choices));
                    }
                },
                None => {
                    proof {
                        crate::json::lemma_jview_arr(rows@);
                        assert(jview_arr(rows@) =~= choice_rows(q.choices));
                    }
                },
            }
            let mut entries: Vec<(String, JsonValue)> = Vec::new();
            entries.push((to_string("type"), JsonValue::Str(to_string("Input.ChoiceSet"))));
            entries.push((to_string("id"), JsonValue::Str(to_string(q.id.as_str()))));
            entries.push((to_string("style"), JsonValue::Str(to_string("compact"))));
            entries.push((to_string("isRequired"), JsonValue::Bool(q.required)));
            entries.push((to_string("choices"), JsonValue::Arr(rows)));
            match &q.current_value {
                Some(v) => {
                    let disp = value_display_exec(v);
                    entries.push((to_string("value"), JsonValue::Str(disp)));
                },
                None => {},
            }
            let r = JsonValue::Obj(entries);
            proof {
                crate::json::lemma_jview_obj(r->Obj_0@);
                assert(jview_obj(r->Obj_0@) =~= input_view(*q)->Obj_0);
            }
            r
        },
        _ => {
            let mut entries: Vec<(String, JsonValue)> = Vec::new();
            entries.push((to_string("type"), JsonValue::Str(to_string("Input.Text"))));
            entries.push((to_string("id"), JsonValue::Str(to_string(q.id.as_str()))));
            entries.push((to_string("isRequired"), JsonValue::Bool(q.required)));
            match &q.current_value {
                Some(v) => {
                    let disp = value_display_exec(v);
                    entries.push((to_string("value"), JsonValue::Str(disp)));
                },
                None => {},
            }
            let r = JsonValue::Obj(entries);
            proof {
                crate::json::lemma_jview_obj(r->Obj_0@);
                assert(jview_obj(r->Obj_0@) =~= input_view(*q)->Obj_0);
            }
            r
        },
    }
}

/// Renders the payload as an adaptive-card transport.
#[verifier::rlimit(100)]
pub fn render_card(payload: &RenderPayload) -> (r: JsonValue)
    ensures
        r@ == card_view(*payload),
{
    let mut body: Vec<JsonValue> = Vec::new();
    body.push(text_block(payload.form_title.as_str(), true, true, false));
    match &payload.help {
        Some(h) => {
            body.push(text_block(h.as_str(), false, false, false));
        },
        None => {},
    }
    let mut answered_s = String::new();
    push_u64(&mut answered_s, payload.progress.answered as u64);
    let mut total_s = String::new();
    push_u64(&mut total_s, payload.progress.total as u64);
    let mut fact1: Vec<(String, JsonValue)> = Vec::new();
    fact1.push((to_string("title"), JsonValue::Str(to_string("Answered"))));
    fact1.push((to_string("value"), JsonValue::Str(answered_s)));
    let fact1v = JsonValue::Obj(fact1);
    let mut fact2: Vec<(String, JsonValue)> = Vec::new();
    fact2.push((to_string("title"), JsonValue::Str(to_string("Total"))));
    fact2.push((to_string("value"), JsonValue::Str(total_s)));
    let fact2v = JsonValue::Obj(fact2);
    proof {
        crate::json::lemma_jview_obj(fact1v->Obj_0@);
        crate::json::lemma_jview_obj(fact2v->Obj_0@);
        assert(fact1v@ == fact_view("Answered"@, spec_digits(payload.progress.answered as nat)))
            by {
            assert(jview_obj(fact1v->Obj_0@) =~= fact_view(
                "Answered"@,
                spec_digits(payload.progress.answered as nat),
            )->Obj_0);
        }
        assert(fact2v@ == fact_view("Total"@, spec_digits(payload.progress.total as nat))) by {
            assert(jview_obj(fact2v->Obj_0@) =~= fact_view(
                "Total"@,
                spec_digits(payload.progress.total as nat),
            )->Obj_0);
        }
    }
    let mut facts: Vec<JsonValue> = Vec::new();
    facts.push(fact1v);
    facts.push(fact2v);
    let mut factset: Vec<(String, JsonValue)> = Vec::new();
    factset.push((to_string("type"), JsonValue::Str(to_string("FactSet"))));
    proof {
        crate::json::lemma_jview_arr(facts@);
        assert(jview_arr(facts@) =~= seq![
            fact_view("Answered"@, spec_digits(payload.progress.answered as nat)),
            fact_view("Total"@, spec_digits(payload.progress.total as nat)),
        ]);
    }
    factset.push((to_string("facts"), JsonValue::Arr(facts)));
    let factsetv = JsonValue::Obj(factset);
    proof {
        crate::json::lemma_jview_obj(factsetv->Obj_0@);
        assert(jview_obj(factsetv->Obj_0@) =~= factset_view(*payload)->Obj_0);
    }
    body.push(factsetv);
    let ghost base_body = jview_arr(body@);
    proof {
        crate::json::lemma_jview_arr(body@);
        assert(base_body =~= seq![tb_view(payload.form_title@, true, true, false)] + (
        match payload.help {
            Some(h) => seq![tb_view(h@, false, false, false)],
            None => Seq::<JsonView>::empty(),
        }) + seq![factset_view(*payload)]);
    }
    let mut actions: Vec<JsonValue> = Vec::new();
    match &payload.next_question_id {
        Some(id) => {
            let qs = &payload.questions;
            let n = qs.len();
            let mut i: usize = 0;
            let mut found: Option<usize> = None;
            while i < n && found.is_none()
                invariant
                    i <= n,
                    n == qs@.len(),
                    match found {
                        Some(k) => find_rq(qs@, id@, 0) == Some(k as int) && k < n,
                        None => find_rq(qs@, id@, 0) == find_rq(qs@, id@, i as int),
                    },
                decreases n - i, (if found is Some { 0int } else { 1int }),
            {
                if crate::strutil::str_eq(qs[i].id.as_str(), id.as_str()) {
                    found = Some(i);
                } else {
                    i += 1;
                }
            }
            match found {
                Some(k) => {
                    let q = &qs[k];
                    let mut items: Vec<JsonValue> = Vec::new();
                    items.push(text_block(q.title.as_str(), true, false, false));
                    match &q.description {
                        Some(d) => {
                            items.push(text_block(d.as_str(), false, false, true));
                        },
                        None => {},
                    }
                    items.push(question_input(q));
                    proof {
                        crate::json::lemma_jview_arr(items@);
                        assert(jview_arr(items@) =~= seq![tb_view(q.title@, true, false, false)]
                            + (match q.description {
                            Some(d) => seq![tb_view(d@, false, false, true)],
                            None => Seq::<JsonView>::empty(),
                        }) + seq![input_view(*q)]);
                    }
                    let mut cont: Vec<(String, JsonValue)> = Vec::new();
                    cont.push((to_string("type"), JsonValue::Str(to_string("Container"))));
                    cont.push((to_string("items"), JsonValue::Arr(items)));
                    let contv = JsonValue::Obj(cont);
                    proof {
                        crate::json::lemma_jview_obj(contv->Obj_0@);
                        assert(jview_obj(contv->Obj_0@) =~= container_view(qs@[k as int])->Obj_0);
                    }
                    body.push(contv);
                    proof {
                        crate::json::lemma_jview_arr(body@);
                        assert(jview_arr(body@) =~= card_body(*payload));
                    }
                    let mut qa: Vec<(String, JsonValue)> = Vec::new();
                    qa.push((to_string("formId"), JsonValue::Str(to_string(payload.form_id.as_str()))));
                    qa.push((to_string("mode"), JsonValue::Str(to_string("patch"))));
                    qa.push((to_string("questionId"), JsonValue::Str(to_string(q.id.as_str()))));
                    qa.push((to_string("field"), JsonValue::Str(to_string("answer"))));
                    let qav = JsonValue::Obj(qa);
                    let mut data: Vec<(String, JsonValue)> = Vec::new();
                    data.push((to_string("qa"), qav));
                    let datav = JsonValue::Obj(data);
                    let mut act: Vec<(String, JsonValue)> = Vec::new();
                    act.push((to_string("type"), JsonValue::Str(to_string("Action.Submit"))));
                    act.push((to_string("title"), JsonValue::Str(to_string("Next"))));
                    act.push((to_string("data"), datav));
                    let actv = JsonValue::Obj(act);
                    proof {
                        crate::json::lemma_jview_obj(actv->Obj_0@);
                        crate::json::lemma_jview_obj(datav->Obj_0@);
                        crate::json::lemma_jview_obj(qav->Obj_0@);
                        assert(jview_obj(qav->Obj_0@) =~= seq![
                            ("formId"@, JsonView::Str(payload.form_id@)),
                            ("mode"@, JsonView::Str("patch"@)),
                            ("questionId"@, JsonView::Str(qs@[k as int].id@)),
                            ("field"@, JsonView::Str("answer"@)),
                        ]);
                        assert(jview_obj(datav->Obj_0@) =~= seq![("qa"@, qav@)]);
                        assert(jview_obj(actv->Obj_0@) =~= action_view(*payload, qs@[k as int])
                            ->Obj_0);
                    }
                    actions.push(actv);
                    proof {
                        crate::json::lemma_jview_arr(actions@);
                        assert(jview_arr(actions@) =~= card_actions(*payload));
                    }
                },
                None => {
                    proof {
                        crate::json::lemma_jview_arr(body@);
                        crate::json::lemma_jview_arr(actions@);
                        assert(jview_arr(body@) =~= card_body(*payload));
                        assert(jview_arr(actions@) =~= card_actions(*payload));
                    }
                },
            }
        },
        None => {
            body.push(text_block("All visible questions are answered.", false, false, false));
            proof {
                crate::json::lemma_jview_arr(body@);
                crate::json::lemma_jview_arr(actions@);
                assert(jview_arr(body@) =~= card_body(*payload));
                assert(jview_arr(actions@) =~= card_actions(*payload));
            }
        },
    }
    let mut entries: Vec<(String, JsonValue)> = Vec::new();
    entries.push((
        to_string("$schema"),
        JsonValue::Str(to_string("http://adaptivecards.io/schemas/adaptive-card.json")),
    ));
    entries.push((to_string("type"), JsonValue::Str(to_string("AdaptiveCard"))));
    entries.push((to_string("version"), JsonValue::Str(to_string("1.3"))));
    entries.push((to_string("body"), JsonValue::Arr(body)));
    entries.push((to_string("actions"), JsonValue::Arr(actions)));
    let r = JsonValue::Obj(entries);
    proof {
        crate::json::lemma_jview_obj(r->Obj_0@);
        assert(jview_obj(r->Obj_0@) =~= card_view(*payload)->Obj_0);
    }
    r
}

} // verus!
