//! The expression language used by `visible_if` conditions, computed
//! fields and cross-field rules.
//!
//! Expressions evaluate against an answer context — a JSON object
//! carrying the answers under the key `answers` — to a three-valued
//! boolean: `Some(true)`, `Some(false)`, or `None` for indeterminate; a
//! comparison whose operand path is absent is unknown, not false.
//! Deciding values win wherever they stand: `and` is false whenever any
//! child is definitely false, `or` is true whenever any child is
//! definitely true; otherwise an indeterminate child makes the whole
//! result indeterminate.

use vstd::prelude::*;
use vstd::string::StrSliceExecFns;

use crate::json::{get_field, jview, JsonValue, JsonView};
use crate::num::{num_triple, triple_le};
use crate::pointer::{get_pointer, ptr_get, ptr_segments, split_pointer, strs_view};

verus! {

/// One node of an expression tree.
pub enum Expr {
    /// A constant value.
    Literal { value: JsonValue },
    /// A reference into the context: a bare key names an answer, a
    /// `/`-pointer walks the `{answers}` context.
    Answer { path: String },
    /// Whether the referenced answer is present and non-null.
    IsSet { path: String },
    Eq { left: Box<Expr>, right: Box<Expr> },
    Ne { left: Box<Expr>, right: Box<Expr> },
    Lt { left: Box<Expr>, right: Box<Expr> },
    Lte { left: Box<Expr>, right: Box<Expr> },
    Gt { left: Box<Expr>, right: Box<Expr> },
    Gte { left: Box<Expr>, right: Box<Expr> },
    And { expressions: Vec<Expr> },
    Or { expressions: Vec<Expr> },
    Not { expression: Box<Expr> },
}

/// The evaluation context: one object holding the answers under the
/// key `answers`.
pub open spec fn wrap_context(answers: JsonView) -> JsonView {
    JsonView::Obj(seq![("answers"@, answers)])
}

/// Resolves an answer reference against the evaluation context
/// `{answers}`: a path starting with `/` is a JSON pointer into that
/// context (so `/answers/q1` names an answer), an empty path is the
/// whole context, and a bare key names a top-level answer directly.
pub open spec fn resolve_path(answers: JsonView, path: Seq<char>) -> Option<JsonView> {
    if path.len() == 0 {
        Some(wrap_context(answers))
    } else if path[0] == '/' {
        match ptr_segments(path) {
            Some(segs) => ptr_get(wrap_context(answers), segs),
            None => None,
        }
    } else {
        get_field(answers, path)
    }
}

/// The value of an expression used as a comparison operand: literals and
/// answer references yield their value, any other expression yields its
/// boolean result.
pub open spec fn operand_value(e: Expr, answers: JsonView) -> Option<JsonView>
    decreases e, 1int,
{
    match e {
        Expr::Literal { value } => Some(jview(value)),
        Expr::Answer { path } => resolve_path(answers, path@),
        _ => match eval(e, answers) {
            Some(b) => Some(JsonView::Bool(b)),
            None => None,
        },
    }
}

/// Numeric strict order between two operand values, when both are numbers.
pub open spec fn operand_lt(a: JsonView, b: JsonView) -> Option<bool> {
    match (num_triple(a), num_triple(b)) {
        (Some(ta), Some(tb)) => Some(triple_le(ta, tb) && !triple_le(tb, ta)),
        _ => None,
    }
}

/// Numeric non-strict order between two operand values.
pub open spec fn operand_lte(a: JsonView, b: JsonView) -> Option<bool> {
    match (num_triple(a), num_triple(b)) {
        (Some(ta), Some(tb)) => Some(triple_le(ta, tb)),
        _ => None,
    }
}

/// The three-valued result of an expression over the answers, read
/// through the `{answers}` evaluation context.
pub open spec fn eval(e: Expr, answers: JsonView) -> Option<bool>
    decreases e, 0int,
{
    match e {
        Expr::Literal { value } => match jview(value) {
            JsonView::Bool(b) => Some(b),
            _ => None,
        },
        Expr::Answer { path } => match resolve_path(answers, path@) {
            Some(JsonView::Bool(b)) => Some(b),
            _ => None,
        },
        Expr::IsSet { path } => Some(match resolve_path(answers, path@) {
            Some(v) => !(v is Null),
            None => false,
        }),
        Expr::Eq { left, right } => match (operand_value(*left, answers), operand_value(
            *right,
            answers,
        )) {
            (Some(a), Some(b)) => Some(a == b),
            _ => None,
        },
        Expr::Ne { left, right } => match (operand_value(*left, answers), operand_value(
            *right,
            answers,
        )) {
            (Some(a), Some(b)) => Some(a != b),
            _ => None,
        },
        Expr::Lt { left, right } => match (operand_value(*left, answers), operand_value(
            *right,
            answers,
        )) {
            (Some(a), Some(b)) => operand_lt(a, b),
            _ => None,
        },
        Expr::Lte { left, right } => match (operand_value(*left, answers), operand_value(
            *right,
            answers,
        )) {
            (Some(a), Some(b)) => operand_lte(a, b),
            _ => None,
        },
        Expr::Gt { left, right } => match (operand_value(*left, answers), operand_value(
            *right,
            answers,
        )) {
            (Some(a), Some(b)) => operand_lt(b, a),
            _ => None,
        },
        Expr::Gte { left, right } => match (operand_value(*left, answers), operand_value(
            *right,
            answers,
        )) {
            (Some(a), Some(b)) => operand_lte(b, a),
            _ => None,
        },
        Expr::And { expressions } => eval_and(expressions@, answers),
        Expr::Or { expressions } => eval_or(expressions@, answers),
        Expr::Not { expression } => match eval(*expression, answers) {
            Some(b) => Some(!b),
            None => None,
        },
    }
}

/// Conjunction: false whenever some child is definitely false,
/// indeterminate when none is false but some child is indeterminate,
/// else true.
pub open spec fn eval_and(es: Seq<Expr>, answers: JsonView) -> Option<bool>
    decreases es, 0int,
{
    if es.len() == 0 {
        Some(true)
    } else {
        let head = eval(es[0], answers);
        let rest = eval_and(es.skip(1), answers);
        if head == Some(false) || rest == Some(false) {
            Some(false)
        } else if head is None || rest is None {
            None
        } else {
            Some(true)
        }
    }
}

/// The conjunction result once a prefix is processed: `seen` records an
/// indeterminate child among the prefix, `rest` is the suffix's result.
pub open spec fn and_combine(seen: bool, rest: Option<bool>) -> Option<bool> {
    if rest == Some(false) {
        Some(false)
    } else if seen || rest is None {
        None
    } else {
        Some(true)
    }
}

/// Disjunction, mirroring conjunction: true whenever some child is
/// definitely true, indeterminate when none is true but some child is
/// indeterminate, else false.
pub open spec fn eval_or(es: Seq<Expr>, answers: JsonView) -> Option<bool>
    decreases es, 0int,
{
    if es.len() == 0 {
        Some(false)
    } else {
        let head = eval(es[0], answers);
        let rest = eval_or(es.skip(1), answers);
        if head == Some(true) || rest == Some(true) {
            Some(true)
        } else if head is None || rest is None {
            None
        } else {
            Some(false)
        }
    }
}

/// The disjunction result once a prefix is processed: `seen` records an
/// indeterminate child among the prefix, `rest` is the suffix's result.
pub open spec fn or_combine(seen: bool, rest: Option<bool>) -> Option<bool> {
    if rest == Some(true) {
        Some(true)
    } else if seen || rest is None {
        None
    } else {
        Some(false)
    }
}

/// Builds the evaluation context as a value.
fn wrap_context_exec(answers: &JsonValue) -> (r: JsonValue)
    ensures
        r@ == wrap_context(answers@),
{
    let mut entries: Vec<(String, JsonValue)> = Vec::new();
    entries.push((crate::strutil::to_string("answers"), answers.deep_copy()));
    let r = JsonValue::Obj(entries);
    proof {
        crate::json::lemma_jview_obj(r->Obj_0@);
        assert(crate::json::jview_obj(r->Obj_0@) =~= seq![("answers"@, answers@)]);
    }
    r
}

/// Resolves an answer reference against the `{answers}` context.
pub fn resolve_path_exec(answers: &JsonValue, path: &str) -> (r: Option<JsonValue>)
    ensures
        match r {
            Some(v) => resolve_path(answers@, path@) == Some(v@),
            None => resolve_path(answers@, path@) is None,
        },
{
    let n = path.unicode_len();
    if n == 0 {
        return Some(wrap_context_exec(answers));
    }
    if path.get_char(0) == '/' {
        match split_pointer(path) {
            Some(segs) => {
                let ghost sv = strs_view(segs@);
                if segs.len() == 0 {
                    proof {
                        assert(sv.len() == 0);
                    }
                    return Some(wrap_context_exec(answers));
                }
                proof {
                    assert(sv[0] == segs@[0]@);
                }
                if crate::strutil::str_eq(segs[0].as_str(), "answers") {
                    proof {
                        let entries = seq![("answers"@, answers@)];
                        assert(crate::json::obj_lookup(entries, sv[0]) == Some(answers@));
                        assert(ptr_get(wrap_context(answers@), sv) == ptr_get(
                            answers@,
                            sv.skip(1),
                        ));
                    }
                    match get_pointer(answers, &segs, 1) {
                        Some(v) => Some(v.deep_copy()),
                        None => None,
                    }
                } else {
                    proof {
                        let entries = seq![("answers"@, answers@)];
                        assert(entries.skip(1) =~= Seq::<(Seq<char>, JsonView)>::empty());
                        assert(crate::json::obj_lookup(entries.skip(1), sv[0]) is None);
                        assert(crate::json::obj_lookup(entries, sv[0]) is None);
                        assert(ptr_get(wrap_context(answers@), sv) is None);
                    }
                    None
                }
            },
            None => None,
        }
    } else {
        match answers.get(path) {
            Some(v) => Some(v.deep_copy()),
            None => None,
        }
    }
}

impl Expr {
    /// Evaluates the expression to a three-valued boolean over the answer
    /// context.
    pub fn evaluate(&self, answers: &JsonValue) -> (r: Option<bool>)
        ensures
            r == eval(*self, answers@),
        decreases self, 0int,
    {
        match self {
            Expr::Literal { value } => value.as_bool(),
            Expr::Answer { path } => {
                match resolve_path_exec(answers, path.as_str()) {
                    Some(v) => v.as_bool(),
                    None => None,
                }
            },
            Expr::IsSet { path } => {
                match resolve_path_exec(answers, path.as_str()) {
                    Some(v) => Some(!v.is_null()),
                    None => Some(false),
                }
            },
            Expr::Eq { left, right } => {
                match (left.operand(answers), right.operand(answers)) {
                    (Some(a), Some(b)) => Some(a.eq_value(&b)),
                    _ => None,
                }
            },
            Expr::Ne { left, right } => {
                match (left.operand(answers), right.operand(answers)) {
                    (Some(a), Some(b)) => Some(!a.eq_value(&b)),
                    _ => None,
                }
            },
            Expr::Lt { left, right } => {
                match (left.operand(answers), right.operand(answers)) {
                    (Some(a), Some(b)) => match crate::num::cmp_values(&a, &b) {
                        Some(c) => Some(c < 0),
                        None => None,
                    },
                    _ => None,
                }
            },
            Expr::Lte { left, right } => {
                match (left.operand(answers), right.operand(answers)) {
                    (Some(a), Some(b)) => match crate::num::cmp_values(&a, &b) {
                        Some(c) => Some(c <= 0),
                        None => None,
                    },
                    _ => None,
                }
            },
            Expr::Gt { left, right } => {
                match (left.operand(answers), right.operand(answers)) {
                    (Some(a), Some(b)) => match crate::num::cmp_values(&b, &a) {
                        Some(c) => Some(c < 0),
                        None => None,
                    },
                    _ => None,
                }
            },
            Expr::Gte { left, right } => {
                match (left.operand(answers), right.operand(answers)) {
                    (Some(a), Some(b)) => match crate::num::cmp_values(&b, &a) {
                        Some(c) => Some(c <= 0),
                        None => None,
                    },
                    _ => None,
                }
            },
            Expr::And { expressions } => {
                let n = expressions.len();
                let mut i: usize = 0;
                let mut indeterminate = false;
                proof {
                    assert(expressions@.skip(0) =~= expressions@);
                    assert(eval(*self, answers@) == eval_and(expressions@, answers@));
                }
                while i < n
                    invariant
                        i <= n,
                        n == expressions@.len(),
                        *self == (Expr::And { expressions: *expressions }),
                        and_combine(
                            indeterminate,
                            eval_and(expressions@.skip(i as int), answers@),
                        ) == eval(*self, answers@),
                    decreases n - i,
                {
                    proof {
                        assert(decreases_to!(*self => self->And_expressions));
                        assert(decreases_to!(self->And_expressions => self->And_expressions[i as int]));
                        assert(self->And_expressions == *expressions);
                        assert(decreases_to!(*self => expressions@[i as int]));
                        assert(expressions@.skip(i as int)[0] == expressions@[i as int]);
                        assert(expressions@.skip(i as int).skip(1) =~= expressions@.skip(i + 1));
                    }
                    match expressions[i].evaluate(answers) {
                        Some(true) => {},
                        Some(false) => {
                            return Some(false);
                        },
                        None => {
                            indeterminate = true;
                        },
                    }
                    i += 1;
                }
                proof {
                    assert(expressions@.skip(n as int) =~= Seq::<Expr>::empty());
                }
                if indeterminate {
                    None
                } else {
                    Some(true)
                }
            },
            Expr::Or { expressions } => {
                let n = expressions.len();
                let mut i: usize = 0;
                let mut indeterminate = false;
                proof {
                    assert(expressions@.skip(0) =~= expressions@);
                    assert(eval(*self, answers@) == eval_or(expressions@, answers@));
                }
                while i < n
                    invariant
                        i <= n,
                        n == expressions@.len(),
                        *self == (Expr::Or { expressions: *expressions }),
                        or_combine(
                            indeterminate,
                            eval_or(expressions@.skip(i as int), answers@),
                        ) == eval(*self, answers@),
                    decreases n - i,
                {
                    proof {
                        assert(decreases_to!(*self => self->Or_expressions));
                        assert(decreases_to!(self->Or_expressions => self->Or_expressions[i as int]));
                        assert(self->Or_expressions == *expressions);
                        assert(decreases_to!(*self => expressions@[i as int]));
                        assert(expressions@.skip(i as int)[0] == expressions@[i as int]);
                        assert(expressions@.skip(i as int).skip(1) =~= expressions@.skip(i + 1));
                    }
                    match expressions[i].evaluate(answers) {
                        Some(false) => {},
                        Some(true) => {
                            return Some(true);
                        },
                        None => {
                            indeterminate = true;
                        },
                    }
                    i += 1;
                }
                proof {
                    assert(expressions@.skip(n as int) =~= Seq::<Expr>::empty());
                }
                if indeterminate {
                    None
                } else {
                    Some(false)
                }
            },
            Expr::Not { expression } => {
                match expression.evaluate(answers) {
                    Some(b) => Some(!b),
                    None => None,
                }
            },
        }
    }

    /// The expression's value as a comparison operand.
    fn operand(&self, answers: &JsonValue) -> (r: Option<JsonValue>)
        ensures
            match r {
                Some(v) => operand_value(*self, answers@) == Some(v@),
                None => operand_value(*self, answers@) is None,
            },
        decreases self, 1int,
    {
        match self {
            Expr::Literal { value } => Some(value.deep_copy()),
            Expr::Answer { path } => resolve_path_exec(answers, path.as_str()),
            _ => {
                match self.evaluate(answers) {
                    Some(b) => Some(JsonValue::Bool(b)),
                    None => None,
                }
            },
        }
    }
}

} // verus!
