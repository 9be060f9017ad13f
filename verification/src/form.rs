//! The declarative form model: questions, policies, constraints, store
//! operations and cross-field rules.

use vstd::prelude::*;

use crate::expr::Expr;
use crate::json::Dec;

verus! {

/// Presentation hints for a form.
pub struct FormPresentation {
    pub intro: Option<String>,
    pub theme: Option<String>,
}

/// Navigation policy: how answered questions affect what is asked next.
pub struct ProgressPolicy {
    pub skip_answered: bool,
    pub autofill_defaults: bool,
    pub treat_default_as_answered: bool,
}

impl ProgressPolicy {
    /// The policy used when a form names none: skip answered questions,
    /// no autofill, defaults do not count as answers.
    pub fn fallback() -> (r: ProgressPolicy)
        ensures
            r.skip_answered,
            !r.autofill_defaults,
            !r.treat_default_as_answered,
    {
        ProgressPolicy { skip_answered: true, autofill_defaults: false, treat_default_as_answered: false }
    }
}

/// Allow/deny rules gating reads and writes of the secrets namespace.
pub struct SecretsPolicy {
    pub enabled: bool,
    pub read_enabled: bool,
    pub write_enabled: bool,
    pub allow: Vec<String>,
    pub deny: Vec<String>,
}

/// The type a question's answer must have.
#[derive(PartialEq, Eq, Structural, Clone, Copy, Debug)]
pub enum QuestionType {
    String,
    Boolean,
    Integer,
    Number,
    Enum,
    List,
}

/// Bounds and patterns an answer must satisfy.
pub struct Constraint {
    pub pattern: Option<String>,
    pub min: Option<Dec>,
    pub max: Option<Dec>,
    pub min_len: Option<usize>,
    pub max_len: Option<usize>,
}

/// Shape of one repeatable-list question: item count bounds and the fields
/// of each item.
pub struct ListSpec {
    pub min_items: Option<usize>,
    pub max_items: Option<usize>,
    pub fields: Vec<QuestionSpec>,
}

/// One question of a form.
pub struct QuestionSpec {
    pub id: String,
    pub kind: QuestionType,
    pub title: String,
    pub description: Option<String>,
    pub required: bool,
    pub choices: Option<Vec<String>>,
    pub default_value: Option<String>,
    pub secret: bool,
    pub visible_if: Option<Expr>,
    pub constraint: Option<Constraint>,
    pub list: Option<ListSpec>,
    pub computed: Option<Expr>,
    pub computed_overridable: bool,
}

/// Which namespace a store operation writes into.
#[derive(PartialEq, Eq, Structural, Clone, Copy, Debug)]
pub enum StoreTarget {
    Answers,
    State,
    Secrets,
}

/// One write applied on successful submission: a value stored at a
/// JSON-pointer path inside a namespace.
pub struct StoreOp {
    pub target: StoreTarget,
    pub path: String,
    pub value: crate::json::JsonValue,
}

/// A rule spanning several questions: a condition over the whole answer
/// context with a message and code attributed to the named fields.
pub struct CrossFieldValidation {
    pub id: Option<String>,
    pub message: String,
    pub fields: Vec<String>,
    pub condition: Expr,
    pub code: Option<String>,
}

/// A whole form: identity, policies, store side effects, questions and
/// cross-field rules, in order.
pub struct FormSpec {
    pub id: String,
    pub title: String,
    pub version: String,
    pub description: Option<String>,
    pub presentation: Option<FormPresentation>,
    pub progress_policy: Option<ProgressPolicy>,
    pub secrets_policy: Option<SecretsPolicy>,
    pub store: Vec<StoreOp>,
    pub questions: Vec<QuestionSpec>,
    pub validations: Vec<CrossFieldValidation>,
}

} // verus!
