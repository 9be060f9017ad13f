//! The visibility resolver: which questions are currently shown, given
//! the answers so far.
//!
//! A question without a condition is visible.  Otherwise its `visible_if`
//! expression is evaluated over the `{answers}` context; a definite
//! boolean decides,
//! and an indeterminate result falls back to the mode's default — shown
//! under `Visible`, hidden under `Hidden`, and shown under `Error` too,
//! which treats an undecidable condition as a question still worth asking.

use vstd::prelude::*;

use crate::expr::eval;
use crate::form::{FormSpec, QuestionSpec};
use crate::json::{JsonValue, JsonView};
use crate::strutil::{str_eq, to_string};

verus! {

/// How an indeterminate `visible_if` result is resolved.
#[derive(PartialEq, Eq, Structural, Clone, Copy)]
pub enum VisibilityMode {
    /// Indeterminate conditions leave the question visible.
    Visible,
    /// Indeterminate conditions hide the question.
    Hidden,
    /// Strict mode; an indeterminate condition still shows the question,
    /// so that no answer is silently skipped.
    Error,
}

/// The fallback for an indeterminate condition under each mode.
pub open spec fn mode_default(mode: VisibilityMode) -> bool {
    match mode {
        VisibilityMode::Visible => true,
        VisibilityMode::Hidden => false,
        VisibilityMode::Error => true,
    }
}

/// Whether one question is visible: no condition means visible, a
/// definite condition over the `{answers}` context decides, and an
/// indeterminate one takes the mode's default.
pub open spec fn question_visible(q: QuestionSpec, answers: JsonView, mode: VisibilityMode) -> bool {
    match q.visible_if {
        Some(e) => match eval(e, answers) {
            Some(b) => b,
            None => mode_default(mode),
        },
        None => true,
    }
}

/// The value bound to `id` in a visibility map, or `default` when the
/// map holds no entry for it.
pub open spec fn vis_lookup(vis: Seq<(String, bool)>, id: Seq<char>, default: bool) -> bool
    decreases vis.len(),
{
    if vis.len() == 0 {
        default
    } else if vis[0].0@ == id {
        vis[0].1
    } else {
        vis_lookup(vis.skip(1), id, default)
    }
}

/// What it means for a map to be the resolved visibility of a form:
/// exactly one entry per question, in order, each the question's own
/// visibility.
pub open spec fn vis_map_ok(
    vis: Seq<(String, bool)>,
    qs: Seq<QuestionSpec>,
    answers: JsonView,
    mode: VisibilityMode,
) -> bool {
    &&& vis.len() == qs.len()
    &&& forall|i: int|
        0 <= i < vis.len() ==> (#[trigger] vis[i]).0@ == qs[i].id@ && vis[i].1
            == question_visible(qs[i], answers, mode)
}

/// Resolves visibility for every question: the map holds exactly one
/// entry per question, in specification order, each computed by
/// `question_visible` — so the result is total and a pure function of
/// its inputs.
pub fn resolve_visibility(spec: &FormSpec, answers: &JsonValue, mode: VisibilityMode) -> (r: Vec<
    (String, bool),
>)
    ensures
        r@.len() == spec.questions@.len(),
        forall|i: int|
            0 <= i < r@.len() ==> (#[trigger] r@[i]).0@ == spec.questions@[i].id@ && r@[i].1
                == question_visible(spec.questions@[i], answers@, mode),
        vis_map_ok(r@, spec.questions@, answers@, mode),
{
    let mut out: Vec<(String, bool)> = Vec::new();
    let n = spec.questions.len();
    let mut i: usize = 0;
    while i < n
        invariant
            i <= n,
            n == spec.questions@.len(),
            out@.len() == i,
            forall|j: int|
                0 <= j < i ==> (#[trigger] out@[j]).0@ == spec.questions@[j].id@ && out@[j].1
                    == question_visible(spec.questions@[j], answers@, mode),
        decreases n - i,
    {
        let q = &spec.questions[i];
        let visible = match &q.visible_if {
            Some(e) => {
                match e.evaluate(answers) {
                    Some(b) => b,
                    None => {
                        match mode {
                            VisibilityMode::Visible => true,
                            VisibilityMode::Hidden => false,
                            VisibilityMode::Error => true,
                        }
                    },
                }
            },
            None => true,
        };
        let id = to_string(q.id.as_str());
        out.push((id, visible));
        i += 1;
    }
    out
}

/// Reads a question's visibility out of a map; an id the map does not
/// mention counts as visible.
pub fn vis_get(vis: &Vec<(String, bool)>, id: &str) -> (r: bool)
    ensures
        r == vis_lookup(vis@, id@, true),
{
    let n = vis.len();
    let mut i: usize = 0;
    proof {
        assert(vis@.skip(0) =~= vis@);
    }
    while i < n
        invariant
            i <= n,
            n == vis@.len(),
            vis_lookup(vis@, id@, true) == vis_lookup(vis@.skip(i as int), id@, true),
        decreases n - i,
    {
        proof {
            assert(vis@.skip(i as int)[0] == vis@[i as int]);
            assert(vis@.skip(i as int).skip(1) =~= vis@.skip(i + 1));
        }
        if str_eq(vis[i].0.as_str(), id) {
            return vis[i].1;
        }
        i += 1;
    }
    proof {
        assert(vis@.skip(n as int) =~= Seq::<(String, bool)>::empty());
    }
    true
}

/// In a map built by `resolve_visibility` over unique question ids, each
/// question's entry is its own visibility.
pub proof fn lemma_vis_lookup_resolved(
    vis: Seq<(String, bool)>,
    qs: Seq<QuestionSpec>,
    answers: JsonView,
    mode: VisibilityMode,
    i: int,
)
    requires
        vis.len() == qs.len(),
        forall|j: int|
            0 <= j < vis.len() ==> (#[trigger] vis[j]).0@ == qs[j].id@ && vis[j].1
                == question_visible(qs[j], answers, mode),
        forall|j: int, k: int| 0 <= j < k < qs.len() ==> (#[trigger] qs[j].id@) != (#[trigger] qs[k].id@),
        0 <= i < qs.len(),
    ensures
        vis_lookup(vis, qs[i].id@, true) == question_visible(qs[i], answers, mode),
    decreases i,
{
    lemma_vis_lookup_skip(vis, qs[i].id@, i);
    let rest = vis.skip(i);
    assert(rest[0] == vis[i]);
    assert(vis_lookup(rest, qs[i].id@, true) == vis[i].1);
}

/// Skipping entries whose ids differ leaves the lookup unchanged.
proof fn lemma_vis_lookup_skip(vis: Seq<(String, bool)>, id: Seq<char>, i: int)
    requires
        0 <= i <= vis.len(),
        forall|j: int| 0 <= j < i ==> (#[trigger] vis[j]).0@ != id,
    ensures
        vis_lookup(vis, id, true) == vis_lookup(vis.skip(i), id, true),
    decreases i,
{
    if i > 0 {
        lemma_vis_lookup_skip(vis.skip(1), id, i - 1);
        assert(vis.skip(1).skip(i - 1) =~= vis.skip(i));
    } else {
        assert(vis.skip(0) =~= vis);
    }
}

} // verus!
