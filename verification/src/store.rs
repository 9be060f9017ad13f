//! The store engine: applies a form's store operations to the three
//! namespaces `answers`, `state` and `secrets`.
//!
//! Writes into `secrets` pass the secrets policy first.  A batch is
//! all-or-nothing: when any operation is denied or its path is invalid,
//! the context is left exactly as it was.  Values are written as given;
//! a caller that wants computed or templated values resolves them
//! before building the operations.

use vstd::prelude::*;

use crate::form::{SecretsPolicy, StoreOp, StoreTarget};
use crate::json::{jview, jview_obj, JsonValue, JsonView};
use crate::pointer::{ptr_can_set, ptr_segments, ptr_set, set_pointer, split_pointer, strs_view};
use crate::secrets::{spec_evaluate, DenyReason, SecretAccessResult, SecretAction};

verus! {

/// Why a store batch failed, with the index of the operation at fault.
#[derive(Debug)]
pub struct StoreError {
    pub op_index: usize,
    pub kind: StoreErrorKind,
}

/// The ways one store operation can fail.
#[derive(PartialEq, Eq, Structural, Clone, Copy, Debug)]
pub enum StoreErrorKind {
    /// A secret write while the policy is absent or disabled.
    SecretsDisabled,
    /// A secret write the policy's rules deny.
    WriteDenied,
    /// A secret write without a secret-capable host store.
    HostUnavailable,
    /// A path that cannot be split or written.
    InvalidPath,
}

/// The three JSON namespaces a form writes into.
#[derive(Debug)]
pub struct StoreContext {
    pub answers: JsonValue,
    pub state: JsonValue,
    pub secrets: JsonValue,
}

/// The failure kind for one denied secret write.
pub open spec fn deny_kind(reason: DenyReason) -> StoreErrorKind {
    match reason {
        DenyReason::Disabled => StoreErrorKind::SecretsDisabled,
        DenyReason::HostUnavailable => StoreErrorKind::HostUnavailable,
        _ => StoreErrorKind::WriteDenied,
    }
}

/// The result of one operation on the namespace views: the updated
/// triple, or the failure kind.
pub open spec fn spec_apply_op(
    ctx: (JsonView, JsonView, JsonView),
    op: StoreOp,
    policy: Option<SecretsPolicy>,
    host_available: bool,
) -> Result<(JsonView, JsonView, JsonView), StoreErrorKind> {
    let gate = if op.target == StoreTarget::Secrets {
        spec_evaluate(SecretAction::Write, op.path@, policy, host_available)
    } else {
        SecretAccessResult::Allowed
    };
    match gate {
        SecretAccessResult::Denied(reason) => Err(deny_kind(reason)),
        SecretAccessResult::Allowed => match ptr_segments(op.path@) {
            None => Err(StoreErrorKind::InvalidPath),
            Some(segs) => {
                let target_view = match op.target {
                    StoreTarget::Answers => ctx.0,
                    StoreTarget::State => ctx.1,
                    StoreTarget::Secrets => ctx.2,
                };
                if ptr_can_set(target_view, segs) {
                    let written = ptr_set(target_view, segs, jview(op.value));
                    Ok(
                        match op.target {
                            StoreTarget::Answers => (written, ctx.1, ctx.2),
                            StoreTarget::State => (ctx.0, written, ctx.2),
                            StoreTarget::Secrets => (ctx.0, ctx.1, written),
                        },
                    )
                } else {
                    Err(StoreErrorKind::InvalidPath)
                }
            },
        },
    }
}

/// The result of a whole batch from operation `from` on: the final
/// namespace triple, or the first failure with its index.
pub open spec fn spec_apply_ops(
    ctx: (JsonView, JsonView, JsonView),
    ops: Seq<StoreOp>,
    policy: Option<SecretsPolicy>,
    host_available: bool,
    from: int,
) -> Result<(JsonView, JsonView, JsonView), (int, StoreErrorKind)>
    decreases ops.len() - from,
        when 0 <= from <= ops.len()
{
    if from >= ops.len() {
        Ok(ctx)
    } else {
        match spec_apply_op(ctx, ops[from], policy, host_available) {
            Err(kind) => Err((from, kind)),
            Ok(next) => spec_apply_ops(next, ops, policy, host_available, from + 1),
        }
    }
}

/// The view of a policy option.
pub open spec fn policy_view(policy: Option<&SecretsPolicy>) -> Option<SecretsPolicy> {
    match policy {
        Some(p) => Some(*p),
        None => None,
    }
}

impl StoreContext {
    /// A context of three empty namespaces.
    pub fn new_empty() -> (r: StoreContext)
        ensures
            r.answers@ == JsonView::Obj(Seq::<(Seq<char>, JsonView)>::empty()),
            r.state@ == JsonView::Obj(Seq::<(Seq<char>, JsonView)>::empty()),
            r.secrets@ == JsonView::Obj(Seq::<(Seq<char>, JsonView)>::empty()),
    {
        StoreContext {
            answers: JsonValue::empty_obj(),
            state: JsonValue::empty_obj(),
            secrets: JsonValue::empty_obj(),
        }
    }

    /// The namespaces read out of one JSON value: each of `answers`,
    /// `state` and `secrets` when present, an empty object otherwise.
    pub fn from_value(v: &JsonValue) -> (r: StoreContext)
        ensures
            r.answers@ == spec_namespace(v@, "answers"@),
            r.state@ == spec_namespace(v@, "state"@),
            r.secrets@ == spec_namespace(v@, "secrets"@),
    {
        StoreContext {
            answers: read_namespace(v, "answers"),
            state: read_namespace(v, "state"),
            secrets: read_namespace(v, "secrets"),
        }
    }

    /// One JSON object holding the three namespaces under their fixed
    /// keys, in that order.
    pub fn to_value(&self) -> (r: JsonValue)
        ensures
            r@ == spec_to_value(self.answers@, self.state@, self.secrets@),
    {
        let mut entries: Vec<(String, JsonValue)> = Vec::new();
        entries.push((crate::strutil::to_string("answers"), self.answers.deep_copy()));
        entries.push((crate::strutil::to_string("state"), self.state.deep_copy()));
        entries.push((crate::strutil::to_string("secrets"), self.secrets.deep_copy()));
        let r = JsonValue::Obj(entries);
        proof {
            crate::json::lemma_jview_obj(r->Obj_0@);
            assert(jview_obj(r->Obj_0@) =~= seq![
                ("answers"@, self.answers@),
                ("state"@, self.state@),
                ("secrets"@, self.secrets@),
            ]);
        }
        r
    }

    /// Applies the operations in order; on any failure the context is
    /// unchanged — a denied or invalid write never leaves a partial
    /// batch behind.
    pub fn apply_ops(
        &mut self,
        ops: &Vec<StoreOp>,
        policy: Option<&SecretsPolicy>,
        host_available: bool,
    ) -> (r: Result<(), StoreError>)
        ensures
            match r {
                Ok(_) => spec_apply_ops(
                    (old(self).answers@, old(self).state@, old(self).secrets@),
                    ops@,
                    policy_view(policy),
                    host_available,
                    0,
                ) == Ok::<_, (int, StoreErrorKind)>(
                    (final(self).answers@, final(self).state@, final(self).secrets@),
                ),
                Err(e) => {
                    &&& *final(self) == *old(self)
                    &&& spec_apply_ops(
                        (old(self).answers@, old(self).state@, old(self).secrets@),
                        ops@,
                        policy_view(policy),
                        host_available,
                        0,
                    ) == Err::<(JsonView, JsonView, JsonView), _>((e.op_index as int, e.kind))
                },
            },
    {
        let mut answers = self.answers.deep_copy();
        let mut state = self.state.deep_copy();
        let mut secrets = self.secrets.deep_copy();
        let n = ops.len();
        let mut i: usize = 0;
        while i < n
            invariant
                i <= n,
                n == ops@.len(),
                spec_apply_ops(
                    (old(self).answers@, old(self).state@, old(self).secrets@),
                    ops@,
                    policy_view(policy),
                    host_available,
                    0,
                ) == spec_apply_ops(
                    (answers@, state@, secrets@),
                    ops@,
                    policy_view(policy),
                    host_available,
                    i as int,
                ),
                *self == *old(self),
            decreases n - i,
        {
            let op = &ops[i];
            if matches!(op.target, StoreTarget::Secrets) {
                let gate = crate::secrets::evaluate(
                    SecretAction::Write,
                    op.path.as_str(),
                    policy,
                    host_available,
                );
                match gate {
                    SecretAccessResult::Denied(reason) => {
                        let kind = match reason {
                            DenyReason::Disabled => StoreErrorKind::SecretsDisabled,
                            DenyReason::HostUnavailable => StoreErrorKind::HostUnavailable,
                            _ => StoreErrorKind::WriteDenied,
                        };
                        return Err(StoreError { op_index: i, kind });
                    },
                    SecretAccessResult::Allowed => {},
                }
            }
            let segs = match split_pointer(op.path.as_str()) {
                Some(segs) => segs,
                None => {
                    return Err(StoreError { op_index: i, kind: StoreErrorKind::InvalidPath });
                },
            };
            proof {
                assert(strs_view(segs@).skip(0) =~= strs_view(segs@));
            }
            let written = op.value.deep_copy();
            match op.target {
                StoreTarget::Answers => {
                    let current = answers;
                    match set_pointer(current, &segs, 0, written) {
                        Ok(updated) => {
                            answers = updated;
                        },
                        Err(_) => {
                            return Err(
                                StoreError { op_index: i, kind: StoreErrorKind::InvalidPath },
                            );
                        },
                    }
                },
                StoreTarget::State => {
                    let current = state;
                    match set_pointer(current, &segs, 0, written) {
                        Ok(updated) => {
                            state = updated;
                        },
                        Err(_) => {
                            return Err(
                                StoreError { op_index: i, kind: StoreErrorKind::InvalidPath },
                            );
                        },
                    }
                },
                StoreTarget::Secrets => {
                    let current = secrets;
                    match set_pointer(current, &segs, 0, written) {
                        Ok(updated) => {
                            secrets = updated;
                        },
                        Err(_) => {
                            return Err(
                                StoreError { op_index: i, kind: StoreErrorKind::InvalidPath },
                            );
                        },
                    }
                },
            }
            i += 1;
        }
        self.answers = answers;
        self.state = state;
        self.secrets = secrets;
        Ok(())
    }
}

/// One namespace read out of a context value: the field when present,
/// an empty object otherwise.
pub open spec fn spec_namespace(v: JsonView, key: Seq<char>) -> JsonView {
    match crate::json::get_field(v, key) {
        Some(ns) => ns,
        None => JsonView::Obj(Seq::empty()),
    }
}

/// The serialized shape of a context: one object with the three
/// namespaces under their fixed keys.
pub open spec fn spec_to_value(answers: JsonView, state: JsonView, secrets: JsonView) -> JsonView {
    JsonView::Obj(
        seq![("answers"@, answers), ("state"@, state), ("secrets"@, secrets)],
    )
}

/// Reads one namespace field, defaulting to an empty object.
fn read_namespace(v: &JsonValue, key: &str) -> (r: JsonValue)
    ensures
        r@ == spec_namespace(v@, key@),
{
    match v.get(key) {
        Some(ns) => ns.deep_copy(),
        None => JsonValue::empty_obj(),
    }
}

/// Turning a context into its one-object form and reading it back
/// yields the same three namespaces: nothing is lost either way.
pub proof fn lemma_context_round_trip(answers: JsonView, state: JsonView, secrets: JsonView)
    ensures
        spec_namespace(spec_to_value(answers, state, secrets), "answers"@) == answers,
        spec_namespace(spec_to_value(answers, state, secrets), "state"@) == state,
        spec_namespace(spec_to_value(answers, state, secrets), "secrets"@) == secrets,
{
    let entries = seq![("answers"@, answers), ("state"@, state), ("secrets"@, secrets)];
    reveal_strlit("answers");
    reveal_strlit("state");
    reveal_strlit("secrets");
    assert("answers"@ != "state"@) by {
        assert("answers"@.len() != "state"@.len());
    }
    assert("answers"@ != "secrets"@) by {
        assert("answers"@[0] != "secrets"@[0]);
    }
    assert("state"@ != "secrets"@) by {
        assert("state"@.len() != "secrets"@.len());
    }
    assert(entries.skip(1) =~= seq![("state"@, state), ("secrets"@, secrets)]);
    assert(entries.skip(1).skip(1) =~= seq![("secrets"@, secrets)]);
    assert(crate::json::obj_lookup(entries, "answers"@) == Some(answers));
    assert(crate::json::obj_lookup(entries.skip(1), "state"@) == Some(state));
    assert(crate::json::obj_lookup(entries.skip(1).skip(1), "secrets"@) == Some(secrets));
    assert(crate::json::obj_lookup(entries.skip(1), "secrets"@) == crate::json::obj_lookup(
        entries.skip(1).skip(1),
        "secrets"@,
    ));
    assert(crate::json::obj_lookup(entries, "state"@) == Some(state));
    assert(crate::json::obj_lookup(entries, "secrets"@) == Some(secrets));
}

} // verus!
