//! Answer-schema and example generation: a JSON-Schema-shaped object
//! scoped to the visible questions, and one plausible example answer per
//! visible question.

use vstd::prelude::*;

use crate::form::{FormSpec, QuestionSpec, QuestionType};
use crate::json::{jview, jview_arr, jview_obj, JsonValue, JsonView};
use crate::strutil::{ascii_lower, parse_i64_spec, to_string};
use crate::visibility::vis_lookup;

verus! {

/// The schema vocabulary name of a question type.
pub open spec fn type_label(kind: QuestionType) -> Seq<char> {
    match kind {
        QuestionType::String => "string"@,
        QuestionType::Boolean => "boolean"@,
        QuestionType::Integer => "integer"@,
        QuestionType::Number => "number"@,
        QuestionType::Enum => "enum"@,
        QuestionType::List => "list"@,
    }
}

/// The label as it appears in the generated answer schema; enums are
/// strings there and lists are arrays.
pub open spec fn schema_type_label(kind: QuestionType) -> Seq<char> {
    match kind {
        QuestionType::Enum => "string"@,
        QuestionType::List => "array"@,
        _ => type_label(kind),
    }
}

/// The views of a choice list as JSON strings.
pub open spec fn choices_view(cs: Seq<String>) -> Seq<JsonView> {
    Seq::new(cs.len(), |i: int| JsonView::Str(cs[i]@))
}

/// A length bound clamped into 64-bit signed range.
pub open spec fn len_bound_view(m: nat) -> JsonView {
    JsonView::Int(
        if m > i64::MAX {
            i64::MAX as int
        } else {
            m as int
        },
    )
}

/// The first schema entry of a question: its type label.
pub open spec fn prop_s0(q: QuestionSpec) -> Seq<(Seq<char>, JsonView)> {
    seq![("type"@, JsonView::Str(schema_type_label(q.kind)))]
}

/// ... plus its choices, when it is an enum.
pub open spec fn prop_s1(q: QuestionSpec) -> Seq<(Seq<char>, JsonView)> {
    match (q.kind, q.choices) {
        (QuestionType::Enum, Some(cs)) => prop_s0(q).push(
            ("enum"@, JsonView::Arr(choices_view(cs@))),
        ),
        _ => prop_s0(q),
    }
}

/// ... plus its pattern constraint.
pub open spec fn prop_s2(q: QuestionSpec) -> Seq<(Seq<char>, JsonView)> {
    match q.constraint {
        Some(c) => match c.pattern {
            Some(p) => prop_s1(q).push(("pattern"@, JsonView::Str(p@))),
            None => prop_s1(q),
        },
        None => prop_s1(q),
    }
}

/// ... plus its minimum length.
pub open spec fn prop_s3(q: QuestionSpec) -> Seq<(Seq<char>, JsonView)> {
    match q.constraint {
        Some(c) => match c.min_len {
            Some(m) => prop_s2(q).push(("minLength"@, len_bound_view(m as nat))),
            None => prop_s2(q),
        },
        None => prop_s2(q),
    }
}

/// ... plus its maximum length.
pub open spec fn prop_s4(q: QuestionSpec) -> Seq<(Seq<char>, JsonView)> {
    match q.constraint {
        Some(c) => match c.max_len {
            Some(m) => prop_s3(q).push(("maxLength"@, len_bound_view(m as nat))),
            None => prop_s3(q),
        },
        None => prop_s3(q),
    }
}

/// ... plus its numeric minimum.
pub open spec fn prop_s5(q: QuestionSpec) -> Seq<(Seq<char>, JsonView)> {
    match q.constraint {
        Some(c) => match c.min {
            Some(d) => prop_s4(q).push(
                ("minimum"@, JsonView::Num { neg: d.neg, mant: d.mant as nat, exp10: d.exp10 as int }),
            ),
            None => prop_s4(q),
        },
        None => prop_s4(q),
    }
}

/// ... plus its numeric maximum.
pub open spec fn prop_s6(q: QuestionSpec) -> Seq<(Seq<char>, JsonView)> {
    match q.constraint {
        Some(c) => match c.max {
            Some(d) => prop_s5(q).push(
                ("maximum"@, JsonView::Num { neg: d.neg, mant: d.mant as nat, exp10: d.exp10 as int }),
            ),
            None => prop_s5(q),
        },
        None => prop_s5(q),
    }
}

/// ... plus the least item count of a list question.
pub open spec fn prop_s7(q: QuestionSpec) -> Seq<(Seq<char>, JsonView)> {
    match q.list {
        Some(l) => match l.min_items {
            Some(m) => prop_s6(q).push(("minItems"@, len_bound_view(m as nat))),
            None => prop_s6(q),
        },
        None => prop_s6(q),
    }
}

/// The schema entries of one question: its type, its choices when it is
/// an enum, and its constraints mapped to schema vocabulary, appended in
/// a fixed order.
pub open spec fn prop_entries(q: QuestionSpec) -> Seq<(Seq<char>, JsonView)> {
    match q.list {
        Some(l) => match l.max_items {
            Some(m) => prop_s7(q).push(("maxItems"@, len_bound_view(m as nat))),
            None => prop_s7(q),
        },
        None => prop_s7(q),
    }
}

/// The property entries of the visible questions from `from` on.
pub open spec fn props_at(qs: Seq<QuestionSpec>, vis: Seq<(String, bool)>, from: int) -> Seq<
    (Seq<char>, JsonView),
>
    decreases qs.len() - from,
        when 0 <= from <= qs.len()
{
    if from >= qs.len() {
        Seq::empty()
    } else {
        (if vis_lookup(vis, qs[from].id@, true) {
            seq![(qs[from].id@, JsonView::Obj(prop_entries(qs[from])))]
        } else {
            Seq::empty()
        }) + props_at(qs, vis, from + 1)
    }
}

/// The ids of the visible required questions from `from` on, as JSON
/// strings.
pub open spec fn required_at(qs: Seq<QuestionSpec>, vis: Seq<(String, bool)>, from: int) -> Seq<
    JsonView,
>
    decreases qs.len() - from,
        when 0 <= from <= qs.len()
{
    if from >= qs.len() {
        Seq::empty()
    } else {
        (if vis_lookup(vis, qs[from].id@, true) && qs[from].required {
            seq![JsonView::Str(qs[from].id@)]
        } else {
            Seq::empty()
        }) + required_at(qs, vis, from + 1)
    }
}

/// The whole answer schema of a form under a visibility map.
pub open spec fn schema_view(qs: Seq<QuestionSpec>, vis: Seq<(String, bool)>) -> JsonView {
    JsonView::Obj(
        seq![
            ("type"@, JsonView::Str("object"@)),
            ("properties"@, JsonView::Obj(props_at(qs, vis, 0))),
            ("required"@, JsonView::Arr(required_at(qs, vis, 0))),
            ("additionalProperties"@, JsonView::Bool(false)),
        ],
    )
}

/// Whether a default string spells a true boolean.
pub open spec fn truthy_default(s: Seq<char>) -> bool {
    ||| ascii_lower(s) == "true"@
    ||| ascii_lower(s) == "t"@
    ||| ascii_lower(s) == "yes"@
    ||| ascii_lower(s) == "y"@
    ||| ascii_lower(s) == "1"@
}

/// The example value of one question: its default when one is given,
/// else a placeholder fitting its type.
pub open spec fn example_view(q: QuestionSpec) -> JsonView {
    match q.default_value {
        Some(d) => match q.kind {
            QuestionType::Boolean => JsonView::Bool(truthy_default(d@)),
            QuestionType::Integer => JsonView::Int(
                match parse_i64_spec(d@) {
                    Some(v) => v,
                    None => 0,
                },
            ),
            QuestionType::Number => JsonView::Int(
                match parse_i64_spec(d@) {
                    Some(v) => v,
                    None => 0,
                },
            ),
            QuestionType::List => JsonView::Arr(Seq::empty()),
            _ => JsonView::Str(d@),
        },
        None => match q.kind {
            QuestionType::String => JsonView::Str("example-"@ + q.id@),
            QuestionType::Boolean => JsonView::Bool(false),
            QuestionType::Integer => JsonView::Int(0),
            QuestionType::Number => JsonView::Int(0),
            QuestionType::Enum => match q.choices {
                Some(cs) => if cs@.len() > 0 {
                    JsonView::Str(cs@[0]@)
                } else {
                    JsonView::Str(Seq::empty())
                },
                None => JsonView::Str(Seq::empty()),
            },
            QuestionType::List => JsonView::Arr(Seq::empty()),
        },
    }
}

/// The example entries of the visible questions from `from` on.
pub open spec fn examples_at(qs: Seq<QuestionSpec>, vis: Seq<(String, bool)>, from: int) -> Seq<
    (Seq<char>, JsonView),
>
    decreases qs.len() - from,
        when 0 <= from <= qs.len()
{
    if from >= qs.len() {
        Seq::empty()
    } else {
        (if vis_lookup(vis, qs[from].id@, true) {
            seq![(qs[from].id@, example_view(qs[from]))]
        } else {
            Seq::empty()
        }) + examples_at(qs, vis, from + 1)
    }
}

/// The example-answers object of a form under a visibility map.
pub open spec fn examples_view(qs: Seq<QuestionSpec>, vis: Seq<(String, bool)>) -> JsonView {
    JsonView::Obj(examples_at(qs, vis, 0))
}

/// Builds the schema entries of one question.
#[verifier::rlimit(80)]
fn question_schema(q: &QuestionSpec) -> (r: JsonValue)
    ensures
        r@ == JsonView::Obj(prop_entries(*q)),
{
    let mut entries: Vec<(String, JsonValue)> = Vec::new();
    let label = match q.kind {
        QuestionType::String => to_string("string"),
        QuestionType::Boolean => to_string("boolean"),
        QuestionType::Integer => to_string("integer"),
        QuestionType::Number => to_string("number"),
        QuestionType::Enum => to_string("string"),
        QuestionType::List => to_string("array"),
    };
    entries.push((to_string("type"), JsonValue::Str(label)));
    proof {
        crate::json::lemma_jview_obj(entries@);
        assert(jview_obj(entries@) =~= seq![
            ("type"@, JsonView::Str(schema_type_label(q.kind))),
        ]);
    }
    proof {
        assert(jview_obj(entries@) == prop_s0(*q));
    }
    if matches!(q.kind, QuestionType::Enum) {
        if let Some(cs) = &q.choices {
            let mut arr: Vec<JsonValue> = Vec::new();
            let n = cs.len();
            let mut i: usize = 0;
            proof {
                crate::json::lemma_jview_arr(arr@);
                assert(jview_arr(arr@) =~= choices_view(cs@).take(0));
            }
            while i < n
                invariant
                    i <= n,
                    n == cs@.len(),
                    jview_arr(arr@) =~= choices_view(cs@).take(i as int),
                decreases n - i,
            {
                let ghost prev = arr@;
                arr.push(JsonValue::Str(to_string(cs[i].as_str())));
                proof {
                    crate::json::lemma_jview_arr(arr@);
                    crate::json::lemma_jview_arr(prev);
                    assert(jview_arr(arr@) =~= choices_view(cs@).take(i + 1));
                }
                i += 1;
            }
            proof {
                assert(choices_view(cs@).take(n as int) =~= choices_view(cs@));
            }
            let ghost prev = entries@;
            entries.push((to_string("enum"), JsonValue::Arr(arr)));
            proof {
                push_view(prev, entries@);
            }
        }
    }
    proof {
        assert(jview_obj(entries@) == prop_s1(*q));
    }
    if let Some(c) = &q.constraint {
        if let Some(p) = &c.pattern {
            let ghost prev = entries@;
            entries.push((to_string("pattern"), JsonValue::Str(to_string(p.as_str()))));
            proof {
                push_view(prev, entries@);
            }
        }
        proof {
            assert(jview_obj(entries@) == prop_s2(*q));
        }
        if let Some(m) = &c.min_len {
            let ghost prev = entries@;
            entries.push((to_string("minLength"), len_bound(*m)));
            proof {
                push_view(prev, entries@);
            }
        }
        proof {
            assert(jview_obj(entries@) == prop_s3(*q));
        }
        if let Some(m) = &c.max_len {
            let ghost prev = entries@;
            entries.push((to_string("maxLength"), len_bound(*m)));
            proof {
                push_view(prev, entries@);
            }
        }
        proof {
            assert(jview_obj(entries@) == prop_s4(*q));
        }
        if let Some(d) = &c.min {
            let ghost prev = entries@;
            entries.push((
                to_string("minimum"),
                JsonValue::Num(crate::json::Dec { neg: d.neg, mant: d.mant, exp10: d.exp10 }),
            ));
            proof {
                push_view(prev, entries@);
            }
        }
        proof {
            assert(jview_obj(entries@) == prop_s5(*q));
        }
        if let Some(d) = &c.max {
            let ghost prev = entries@;
            entries.push((
                to_string("maximum"),
                JsonValue::Num(crate::json::Dec { neg: d.neg, mant: d.mant, exp10: d.exp10 }),
            ));
            proof {
                push_view(prev, entries@);
            }
        }
    }
    proof {
        assert(jview_obj(entries@) == prop_s6(*q));
    }
    if let Some(l) = &q.list {
        if let Some(m) = &l.min_items {
            let ghost prev = entries@;
            entries.push((to_string("minItems"), len_bound(*m)));
            proof {
                push_view(prev, entries@);
            }
        }
        proof {
            assert(jview_obj(entries@) == prop_s7(*q));
        }
        if let Some(m) = &l.max_items {
            let ghost prev = entries@;
            entries.push((to_string("maxItems"), len_bound(*m)));
            proof {
                push_view(prev, entries@);
            }
        }
    }
    proof {
        assert(jview_obj(entries@) == prop_entries(*q));
    }
    let r = JsonValue::Obj(entries);
    r
}

/// Pushing one entry pushes its view.
proof fn push_view(prev: Seq<(String, JsonValue)>, cur: Seq<(String, JsonValue)>)
    requires
        cur == prev.push((cur.last().0, cur.last().1)),
        cur.len() == prev.len() + 1,
    ensures
        jview_obj(cur) == jview_obj(prev).push((cur.last().0@, jview(cur.last().1))),
{
    crate::json::lemma_jview_obj(prev);
    crate::json::lemma_jview_obj(cur);
    assert(jview_obj(cur) =~= jview_obj(prev).push((cur.last().0@, jview(cur.last().1))));
}

/// A length bound as a JSON integer, clamped into signed range.
pub fn len_bound(m: usize) -> (r: JsonValue)
    ensures
        r@ == len_bound_view(m as nat),
{
    if (m as u64) > (i64::MAX as u64) {
        JsonValue::Int(i64::MAX)
    } else {
        JsonValue::Int(m as i64)
    }
}

/// Generates the JSON-Schema-shaped description of the visible
/// questions: their properties, the required ids, and a closed shape.
pub fn answers_schema(spec: &FormSpec, vis: &Vec<(String, bool)>) -> (r: JsonValue)
    ensures
        r@ == schema_view(spec.questions@, vis@),
{
    let qs = &spec.questions;
    let n = qs.len();
    let mut props: Vec<(String, JsonValue)> = Vec::new();
    let mut required: Vec<JsonValue> = Vec::new();
    let mut i: usize = 0;
    proof {
        assert(jview_obj(props@) =~= Seq::<(Seq<char>, JsonView)>::empty());
        assert(jview_arr(required@) =~= Seq::<JsonView>::empty());
    }
    while i < n
        invariant
            i <= n,
            n == qs@.len(),
            jview_obj(props@) + props_at(qs@, vis@, i as int) == props_at(qs@, vis@, 0),
            jview_arr(required@) + required_at(qs@, vis@, i as int) == required_at(qs@, vis@, 0),
        decreases n - i,
    {
        let q = &qs[i];
        let ghost old_props = props@;
        let ghost old_required = required@;
        if crate::visibility::vis_get(vis, q.id.as_str()) {
            let prop = question_schema(q);
            props.push((to_string(q.id.as_str()), prop));
            proof {
                crate::json::lemma_jview_obj(props@);
                crate::json::lemma_jview_obj(old_props);
                assert(jview_obj(props@) =~= jview_obj(old_props).push(
                    (q.id@, JsonView::Obj(prop_entries(*q))),
                ));
            }
            if q.required {
                required.push(JsonValue::Str(to_string(q.id.as_str())));
                proof {
                    crate::json::lemma_jview_arr(required@);
                    crate::json::lemma_jview_arr(old_required);
                    assert(jview_arr(required@) =~= jview_arr(old_required).push(
                        JsonView::Str(q.id@),
                    ));
                }
            }
        }
        proof {
            assert(jview_obj(props@) + props_at(qs@, vis@, i + 1) =~= jview_obj(old_props)
                + props_at(qs@, vis@, i as int));
            assert(jview_arr(required@) + required_at(qs@, vis@, i + 1) =~= jview_arr(
                old_required,
            ) + required_at(qs@, vis@, i as int));
        }
        i += 1;
    }
    proof {
        assert(props_at(qs@, vis@, n as int) =~= Seq::<(Seq<char>, JsonView)>::empty());
        assert(required_at(qs@, vis@, n as int) =~= Seq::<JsonView>::empty());
        assert(jview_obj(props@) =~= props_at(qs@, vis@, 0));
        assert(jview_arr(required@) =~= required_at(qs@, vis@, 0));
    }
    let mut entries: Vec<(String, JsonValue)> = Vec::new();
    entries.push((to_string("type"), JsonValue::Str(to_string("object"))));
    entries.push((to_string("properties"), JsonValue::Obj(props)));
    entries.push((to_string("required"), JsonValue::Arr(required)));
    entries.push((to_string("additionalProperties"), JsonValue::Bool(false)));
    let r = JsonValue::Obj(entries);
    proof {
        crate::json::lemma_jview_obj(r->Obj_0@);
        assert(jview_obj(r->Obj_0@) =~= schema_view(qs@, vis@)->Obj_0);
    }
    r
}

/// Builds the example value of one question.
fn question_example(q: &QuestionSpec) -> (r: JsonValue)
    ensures
        r@ == example_view(*q),
{
    match &q.default_value {
        Some(d) => {
            match q.kind {
                QuestionType::Boolean => {
                    let truthy = crate::strutil::eq_ignore_ascii_case(d.as_str(), "true")
                        || crate::strutil::eq_ignore_ascii_case(d.as_str(), "t")
                        || crate::strutil::eq_ignore_ascii_case(d.as_str(), "yes")
                        || crate::strutil::eq_ignore_ascii_case(d.as_str(), "y")
                        || crate::strutil::eq_ignore_ascii_case(d.as_str(), "1");
                    proof {
                        reveal_strlit("true");
                        reveal_strlit("t");
                        reveal_strlit("yes");
                        reveal_strlit("y");
                        reveal_strlit("1");
                        lemma_lower_of_lower("true"@);
                        lemma_lower_of_lower("t"@);
                        lemma_lower_of_lower("yes"@);
                        lemma_lower_of_lower("y"@);
                        lemma_lower_of_lower("1"@);
                    }
                    JsonValue::Bool(truthy)
                },
                QuestionType::Integer => {
                    match crate::strutil::parse_i64(d.as_str()) {
                        Some(v) => JsonValue::Int(v),
                        None => JsonValue::Int(0),
                    }
                },
                QuestionType::Number => {
                    match crate::strutil::parse_i64(d.as_str()) {
                        Some(v) => JsonValue::Int(v),
                        None => JsonValue::Int(0),
                    }
                },
                QuestionType::List => {
                    let items: Vec<JsonValue> = Vec::new();
                    proof {
                        assert(jview_arr(items@) =~= Seq::<JsonView>::empty());
                    }
                    JsonValue::Arr(items)
                },
                _ => JsonValue::Str(to_string(d.as_str())),
            }
        },
        None => {
            match q.kind {
                QuestionType::String => {
                    let mut s = to_string("example-");
                    crate::strutil::push_str(&mut s, q.id.as_str());
                    JsonValue::Str(s)
                },
                QuestionType::Boolean => JsonValue::Bool(false),
                QuestionType::Integer => JsonValue::Int(0),
                QuestionType::Number => JsonValue::Int(0),
                QuestionType::Enum => {
                    match &q.choices {
                        Some(cs) => {
                            if cs.len() > 0 {
                                JsonValue::Str(to_string(cs[0].as_str()))
                            } else {
                                let s = String::new();
                                JsonValue::Str(s)
                            }
                        },
                        None => {
                            let s = String::new();
                            JsonValue::Str(s)
                        },
                    }
                },
                QuestionType::List => {
                    let items: Vec<JsonValue> = Vec::new();
                    proof {
                        assert(jview_arr(items@) =~= Seq::<JsonView>::empty());
                    }
                    JsonValue::Arr(items)
                },
            }
        },
    }
}

/// A string equal to its own ASCII-lowercase stays fixed under
/// lowercasing, which pins the truthy comparisons to their literals.
proof fn lemma_lower_of_lower(s: Seq<char>)
    requires
        forall|j: int| 0 <= j < s.len() ==> !('A' <= #[trigger] s[j] <= 'Z'),
    ensures
        ascii_lower(s) == s,
{
    assert(ascii_lower(s) =~= s);
}

/// Generates the example-answers object: one typed placeholder or
/// default per visible question.
pub fn example_answers(spec: &FormSpec, vis: &Vec<(String, bool)>) -> (r: JsonValue)
    ensures
        r@ == examples_view(spec.questions@, vis@),
{
    let qs = &spec.questions;
    let n = qs.len();
    let mut out: Vec<(String, JsonValue)> = Vec::new();
    let mut i: usize = 0;
    proof {
        assert(jview_obj(out@) =~= Seq::<(Seq<char>, JsonView)>::empty());
    }
    while i < n
        invariant
            i <= n,
            n == qs@.len(),
            jview_obj(out@) + examples_at(qs@, vis@, i as int) == examples_at(qs@, vis@, 0),
        decreases n - i,
    {
        let q = &qs[i];
        let ghost old_out = out@;
        if crate::visibility::vis_get(vis, q.id.as_str()) {
            let ex = question_example(q);
            out.push((to_string(q.id.as_str()), ex));
            proof {
                crate::json::lemma_jview_obj(out@);
                crate::json::lemma_jview_obj(old_out);
                assert(jview_obj(out@) =~= jview_obj(old_out).push((q.id@, example_view(*q))));
            }
        }
        proof {
            assert(jview_obj(out@) + examples_at(qs@, vis@, i + 1) =~= jview_obj(old_out)
                + examples_at(qs@, vis@, i as int));
        }
        i += 1;
    }
    proof {
        assert(examples_at(qs@, vis@, n as int) =~= Seq::<(Seq<char>, JsonView)>::empty());
        assert(jview_obj(out@) =~= examples_at(qs@, vis@, 0));
    }
    JsonValue::Obj(out)
}

} // verus!
