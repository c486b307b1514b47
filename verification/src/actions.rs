//! The action engine: resolving which actions govern a key and evaluating
//! an action against a key value.
//!
//! Resolution is override-not-merge: a key that declares its own
//! [`ActionsSpec`] fully replaces the resource-level one for that key.
//! Evaluation of one action runs the pattern or external validator first and
//! the length bounds last; the first failure ends the phase.

use vstd::prelude::*;

use crate::crds::ActionSpec;
use crate::crds::ActionsSpec;
use crate::crds::KeySpec;
use crate::pattern::pattern_accepts;
use crate::pattern::pattern_compiles;
use crate::pattern::pattern_full_match;
use crate::pattern::pattern_ok;

verus! {

/// Why a value failed a validate phase.
#[derive(Clone, Copy, Debug, PartialEq, Eq, Structural)]
pub enum InvalidReason {
    /// The value does not match the declared pattern.
    PatternMismatch,
    /// The external validator rejected the value.
    ValidatorRejected,
    /// The value is shorter than the declared minimum length.
    TooShort,
    /// The value is longer than the declared maximum length.
    TooLong,
}

/// Outcome of evaluating one action against one value.
#[derive(Clone, Copy, Debug, PartialEq, Eq, Structural)]
pub enum PhaseResult {
    /// The value satisfies the action.
    Pass,
    /// The value fails the action.
    Invalid(InvalidReason),
    /// The action names an external validator and no verdict was supplied;
    /// the caller must run the validator and evaluate again.
    ValidatorPending,
    /// The action itself is malformed and was not evaluated.
    ConfigError,
}

/// The actions that govern `key`: its own block when it declares one,
/// otherwise the resource-level block. The two are never merged.
pub open spec fn effective_actions_of(resource: Option<ActionsSpec>, key: KeySpec) -> Option<
    ActionsSpec,
> {
    if key.actions is Some {
        key.actions
    } else {
        resource
    }
}

/// Resolve the actions that govern `key`.
///
/// A key-level block fully replaces the resource-level one: when
/// `key.actions` is present the result is exactly that block, and the
/// resource-level block is not consulted.
pub fn effective_actions<'a>(resource: &'a Option<ActionsSpec>, key: &'a KeySpec) -> (r: &'a Option<
    ActionsSpec,
>)
    ensures
        *r == effective_actions_of(*resource, *key),
        key.actions is Some ==> *r == key.actions,
        key.actions is None ==> r == resource,
{
    if key.actions.is_some() {
        &key.actions
    } else {
        resource
    }
}

/// Whether declared length bounds are consistent: when both are set the
/// minimum must not exceed the maximum.
pub open spec fn bounds_ok(a: ActionSpec) -> bool {
    match (a.minimum, a.maximum) {
        (Some(mn), Some(mx)) => mn <= mx,
        _ => true,
    }
}

/// Whether one action is well formed: consistent bounds and, if a pattern
/// is declared, a compilable pattern.
pub open spec fn action_spec_valid(a: ActionSpec) -> bool {
    &&& bounds_ok(a)
    &&& (a.pattern is Some ==> pattern_ok(a.pattern->0@))
}

/// Whether an actions block is well formed in every declared phase.
pub open spec fn actions_valid(a: ActionsSpec) -> bool {
    &&& (a.create is Some ==> action_spec_valid(a.create->0))
    &&& (a.rotate is Some ==> action_spec_valid(a.rotate->0))
    &&& (a.validate is Some ==> action_spec_valid(a.validate->0))
}

/// Check that one action is well formed.
pub fn check_action_spec(a: &ActionSpec) -> (r: bool)
    ensures
        r == action_spec_valid(*a),
{
    let bounds = match (&a.minimum, &a.maximum) {
        (Some(mn), Some(mx)) => *mn <= *mx,
        _ => true,
    };
    if !bounds {
        return false;
    }
    match &a.pattern {
        Some(p) => pattern_compiles(p.as_str()),
        None => true,
    }
}

/// Check that an actions block is well formed in every declared phase.
pub fn check_actions(a: &ActionsSpec) -> (r: bool)
    ensures
        r == actions_valid(*a),
{
    let c = match &a.create {
        Some(s) => check_action_spec(s),
        None => true,
    };
    let ro = match &a.rotate {
        Some(s) => check_action_spec(s),
        None => true,
    };
    let v = match &a.validate {
        Some(s) => check_action_spec(s),
        None => true,
    };
    c && ro && v
}

/// What evaluating `a` against `value` yields, given the external
/// validator's verdict where one was run. Inconsistent bounds or a bad
/// pattern are a configuration error and the value is never evaluated;
/// otherwise the pattern or validator is consulted first and the length
/// bounds last, and the first failure ends the phase.
pub open spec fn eval_value_spec(a: ActionSpec, value: Seq<u8>, verdict: Option<bool>) -> PhaseResult {
    if !bounds_ok(a) {
        PhaseResult::ConfigError
    } else if a.pattern is Some && !pattern_ok(a.pattern->0@) {
        PhaseResult::ConfigError
    } else if a.pattern is Some && !pattern_accepts(a.pattern->0@, value) {
        PhaseResult::Invalid(InvalidReason::PatternMismatch)
    } else if a.container is Some && verdict is None {
        PhaseResult::ValidatorPending
    } else if a.container is Some && verdict == Some(false) {
        PhaseResult::Invalid(InvalidReason::ValidatorRejected)
    } else if a.minimum is Some && value.len() < a.minimum->0 {
        PhaseResult::Invalid(InvalidReason::TooShort)
    } else if a.maximum is Some && value.len() > a.maximum->0 {
        PhaseResult::Invalid(InvalidReason::TooLong)
    } else {
        PhaseResult::Pass
    }
}

/// Evaluate one action against one value.
///
/// `verdict` is the external validator's result where the caller already
/// ran it; `None` when it was not run. When the action names a validator
/// and no verdict is supplied the result is [`PhaseResult::ValidatorPending`]
/// and nothing is decided about the value.
pub fn evaluate_value(a: &ActionSpec, value: &[u8], verdict: Option<bool>) -> (r: PhaseResult)
    ensures
        r == eval_value_spec(*a, value@, verdict),
{
    let bounds = match (&a.minimum, &a.maximum) {
        (Some(mn), Some(mx)) => *mn <= *mx,
        _ => true,
    };
    if !bounds {
        return PhaseResult::ConfigError;
    }
    match &a.pattern {
        Some(p) => {
            match pattern_full_match(p.as_str(), value) {
                None => {
                    return PhaseResult::ConfigError;
                },
                Some(false) => {
                    return PhaseResult::Invalid(InvalidReason::PatternMismatch);
                },
                Some(true) => {},
            }
        },
        None => {},
    }
    if a.container.is_some() {
        match verdict {
            None => {
                return PhaseResult::ValidatorPending;
            },
            Some(false) => {
                return PhaseResult::Invalid(InvalidReason::ValidatorRejected);
            },
            Some(true) => {},
        }
    }
    match &a.minimum {
        Some(mn) => {
            if (value.len() as u64) < *mn {
                return PhaseResult::Invalid(InvalidReason::TooShort);
            }
        },
        None => {},
    }
    match &a.maximum {
        Some(mx) => {
            if (value.len() as u64) > *mx {
                return PhaseResult::Invalid(InvalidReason::TooLong);
            }
        },
        None => {},
    }
    PhaseResult::Pass
}

} // verus!
