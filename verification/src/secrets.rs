//! The secrets policy engine: allow/deny path patterns gating reads and
//! writes of the secrets namespace.
//!
//! Patterns and paths are split on `/` (one leading `/` is ignored); a
//! `*` pattern segment matches exactly one path segment.  Deny rules win
//! over allow rules, and anything unmatched is denied.

use vstd::prelude::*;
use vstd::string::StrSliceExecFns;

use crate::form::SecretsPolicy;
use crate::pointer::{split_path, split_pointer, strs_view};
use crate::strutil::str_eq;

verus! {

/// Whether access is sought for reading or writing.
#[derive(PartialEq, Eq, Structural, Clone, Copy, Debug)]
pub enum SecretAction {
    Read,
    Write,
}

/// Why an access was denied.
#[derive(PartialEq, Eq, Structural, Clone, Copy, Debug)]
pub enum DenyReason {
    /// No policy was given, or it is not enabled.
    Disabled,
    /// The policy does not enable reads.
    ReadDisabled,
    /// The policy does not enable writes.
    WriteDisabled,
    /// A write was attempted without a secret-capable host store.
    HostUnavailable,
    /// A deny pattern matches the path.
    DeniedByRule,
    /// No allow pattern matches the path.
    NotAllowed,
}

/// The verdict on one access.
#[derive(PartialEq, Eq, Structural, Clone, Copy, Debug)]
pub enum SecretAccessResult {
    Allowed,
    Denied(DenyReason),
}

/// A path or pattern reduced to segments: split on `/` after dropping
/// one leading separator.
pub open spec fn path_segments_of(s: Seq<char>) -> Seq<Seq<char>> {
    if s.len() > 0 && s[0] == '/' {
        split_path(s.skip(1))
    } else {
        split_path(s)
    }
}

/// Segment-wise glob match: equal lengths, and each pattern segment is
/// `*` or equals the path segment.
pub open spec fn segments_match(pat: Seq<Seq<char>>, path: Seq<Seq<char>>) -> bool {
    pat.len() == path.len() && forall|i: int|
        0 <= i < pat.len() ==> (#[trigger] pat[i]) == path[i] || pat[i] == seq!['*']
}

/// Whether one pattern matches one path.
pub open spec fn pattern_matches(pattern: Seq<char>, path: Seq<char>) -> bool {
    segments_match(path_segments_of(pattern), path_segments_of(path))
}

/// Whether any pattern of the list matches the path.
pub open spec fn any_pattern_matches(patterns: Seq<String>, path: Seq<char>) -> bool {
    exists|i: int| 0 <= i < patterns.len() && pattern_matches((#[trigger] patterns[i])@, path)
}

/// The policy verdict for one access, checked in order: a write needs a
/// host store; the policy must exist and be enabled; the action's toggle
/// must be on; a deny match denies; an allow match allows; everything
/// else is denied.
pub open spec fn spec_evaluate(
    action: SecretAction,
    path: Seq<char>,
    policy: Option<SecretsPolicy>,
    host_available: bool,
) -> SecretAccessResult {
    if action == SecretAction::Write && !host_available {
        SecretAccessResult::Denied(DenyReason::HostUnavailable)
    } else {
        match policy {
            None => SecretAccessResult::Denied(DenyReason::Disabled),
            Some(p) => if !p.enabled {
                SecretAccessResult::Denied(DenyReason::Disabled)
            } else if action == SecretAction::Write && !p.write_enabled {
                SecretAccessResult::Denied(DenyReason::WriteDisabled)
            } else if action == SecretAction::Read && !p.read_enabled {
                SecretAccessResult::Denied(DenyReason::ReadDisabled)
            } else if any_pattern_matches(p.deny@, path) {
                SecretAccessResult::Denied(DenyReason::DeniedByRule)
            } else if any_pattern_matches(p.allow@, path) {
                SecretAccessResult::Allowed
            } else {
                SecretAccessResult::Denied(DenyReason::NotAllowed)
            },
        }
    }
}

/// A path that matches a deny pattern is never allowed, whatever the
/// allow list says.
pub proof fn lemma_deny_overrides_allow(
    action: SecretAction,
    path: Seq<char>,
    policy: SecretsPolicy,
    host_available: bool,
)
    requires
        any_pattern_matches(policy.deny@, path),
    ensures
        spec_evaluate(action, path, Some(policy), host_available) != SecretAccessResult::Allowed,
{
}

/// Splits on `/` after dropping one leading separator.
fn segments_exec(s: &str) -> (r: Vec<String>)
    ensures
        strs_view(r@) == path_segments_of(s@),
{
    let n = s.unicode_len();
    if n > 0 && s.get_char(0) == '/' {
        match split_pointer(s) {
            Some(segs) => segs,
            None => {
                proof {
                    assert(false);
                }
                Vec::new()
            },
        }
    } else {
        let mut with_slash = crate::strutil::to_string("/");
        crate::strutil::push_str(&mut with_slash, s);
        proof {
            reveal_strlit("/");
            assert(with_slash@ =~= seq!['/'] + s@);
            assert(with_slash@[0] == '/');
            assert(with_slash@.skip(1) =~= s@);
        }
        match split_pointer(with_slash.as_str()) {
            Some(segs) => segs,
            None => {
                proof {
                    assert(false);
                }
                Vec::new()
            },
        }
    }
}

/// Whether one glob pattern matches the path.
fn pattern_matches_exec(pattern: &str, path: &str) -> (r: bool)
    ensures
        r == pattern_matches(pattern@, path@),
{
    let pat_segs = segments_exec(pattern);
    let path_segs = segments_exec(path);
    if pat_segs.len() != path_segs.len() {
        return false;
    }
    let n = pat_segs.len();
    let mut i: usize = 0;
    while i < n
        invariant
            i <= n,
            n == pat_segs@.len(),
            n == path_segs@.len(),
            strs_view(pat_segs@) == path_segments_of(pattern@),
            strs_view(path_segs@) == path_segments_of(path@),
            forall|j: int|
                0 <= j < i ==> (#[trigger] strs_view(pat_segs@)[j]) == strs_view(path_segs@)[j]
                    || strs_view(pat_segs@)[j] == seq!['*'],
        decreases n - i,
    {
        let ghost pv = strs_view(pat_segs@)[i as int];
        if !str_eq(pat_segs[i].as_str(), path_segs[i].as_str()) {
            let not_star = !str_eq(pat_segs[i].as_str(), "*");
            if not_star {
                proof {
                    reveal_strlit("*");
                    assert("*"@ =~= seq!['*']);
                    assert(pv != strs_view(path_segs@)[i as int]);
                    assert(pv != seq!['*']);
                }
                return false;
            }
            proof {
                reveal_strlit("*");
                assert("*"@ =~= seq!['*']);
                assert(pv == seq!['*']);
            }
        }
        i += 1;
    }
    true
}

/// Whether any pattern of the list matches the path.
fn any_match_exec(patterns: &Vec<String>, path: &str) -> (r: bool)
    ensures
        r == any_pattern_matches(patterns@, path@),
{
    let n = patterns.len();
    let mut i: usize = 0;
    while i < n
        invariant
            i <= n,
            n == patterns@.len(),
            forall|j: int| 0 <= j < i ==> !pattern_matches((#[trigger] patterns@[j])@, path@),
        decreases n - i,
    {
        if pattern_matches_exec(patterns[i].as_str(), path) {
            return true;
        }
        i += 1;
    }
    false
}

/// Evaluates one access against the policy; pure in all four inputs.
pub fn evaluate(
    action: SecretAction,
    path: &str,
    policy: Option<&SecretsPolicy>,
    host_available: bool,
) -> (r: SecretAccessResult)
    ensures
        r == spec_evaluate(
            action,
            path@,
            match policy {
                Some(p) => Some(*p),
                None => None,
            },
            host_available,
        ),
{
    if matches!(action, SecretAction::Write) && !host_available {
        return SecretAccessResult::Denied(DenyReason::HostUnavailable);
    }
    match policy {
        None => SecretAccessResult::Denied(DenyReason::Disabled),
        Some(p) => {
            if !p.enabled {
                SecretAccessResult::Denied(DenyReason::Disabled)
            } else if matches!(action, SecretAction::Write) && !p.write_enabled {
                SecretAccessResult::Denied(DenyReason::WriteDisabled)
            } else if matches!(action, SecretAction::Read) && !p.read_enabled {
                SecretAccessResult::Denied(DenyReason::ReadDisabled)
            } else if any_match_exec(&p.deny, path) {
                SecretAccessResult::Denied(DenyReason::DeniedByRule)
            } else if any_match_exec(&p.allow, path) {
                SecretAccessResult::Allowed
            } else {
                SecretAccessResult::Denied(DenyReason::NotAllowed)
            }
        },
    }
}

} // verus!
