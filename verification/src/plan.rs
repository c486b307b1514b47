//! The sync planner: the diff between the declared key set and what the
//! provider and the derived secret currently hold, as an ordered plan.
//!
//! Removes come last, after the ops of every retained key, so a failed
//! addition never follows a drop of a still-needed key. A declared key with
//! no provider entry and no create action aborts the whole plan with
//! `MissingKey` before anything is mutated.

use vstd::prelude::*;

use crate::actions::actions_valid;
use crate::actions::effective_actions;
use crate::actions::effective_actions_of;
use crate::crds::ActionsSpec;
use crate::crds::KeySpec;
use crate::crds::key_target;
use crate::crds::target_of;
use crate::interval::interval_seconds;
use crate::interval::is_interval;
use crate::interval::parse_interval;
use crate::secret::ProviderEntry;
use crate::secret::RotationRecord;
use crate::secret::SecretEntry;
use crate::secret::bytes_eq;
use crate::secret::find_provider;
use crate::secret::find_rotation;
use crate::secret::find_secret;
use crate::secret::provider_lookup;
use crate::secret::rotation_lookup;
use crate::secret::secret_lookup;

verus! {

/// The operation planned for one key.
#[derive(Clone, Copy, Debug, PartialEq, Eq, Structural)]
pub enum PlanAction {
    /// Write the key's resolved value into the derived secret (the key is
    /// new there, its value changed, or it must be generated).
    Create,
    /// Generate a fresh value: the key's rotation interval has elapsed.
    Rotate,
    /// Re-check the current value against the key's validate action.
    Validate,
    /// The derived secret already holds the right value.
    Unchanged,
    /// Drop an undeclared key from the derived secret (strict mode only).
    Remove,
}

/// One step of a plan.
#[derive(Debug, Clone)]
pub struct PlanStep {
    /// What to do.
    pub action: PlanAction,
    /// Key name in the source provider.
    pub source: String,
    /// Key name in the derived secret.
    pub target: String,
}

/// Why no plan could be produced.
#[derive(Debug, Clone)]
pub enum PlanError {
    /// A declared key is absent from the provider and declares no create
    /// action; the plan is aborted before any mutation.
    MissingKey {
        /// Source name of the offending key.
        key: String,
    },
}

/// Whether `k`'s rotation interval has elapsed since its last recorded
/// rotation. A key with no rotation record is not due: its clock starts
/// when it is first written.
pub open spec fn rotation_due(k: KeySpec, rots: Seq<RotationRecord>, now: u64) -> bool {
    &&& k.rotate_interval is Some
    &&& match rotation_lookup(rots, key_target(k)) {
        Some(rec) => rec.last_rotated + interval_seconds(k.rotate_interval->0@) <= now,
        None => false,
    }
}

/// Configuration a key must satisfy before planning: a parseable rotation
/// interval and well-formed effective actions.
pub open spec fn key_config_ok(ra: Option<ActionsSpec>, k: KeySpec) -> bool {
    &&& (k.rotate_interval is Some ==> is_interval(k.rotate_interval->0@) && interval_seconds(
        k.rotate_interval->0@,
    ) <= u64::MAX)
    &&& match effective_actions_of(ra, k) {
        Some(a) => actions_valid(a),
        None => true,
    }
}

/// Configuration the whole key list must satisfy before planning.
pub open spec fn plan_config_ok(ra: Option<ActionsSpec>, keys: Seq<KeySpec>) -> bool {
    forall|i: int| 0 <= i < keys.len() ==> key_config_ok(ra, #[trigger] keys[i])
}

/// The operation planned for one declared key, or `None` when the key is
/// absent from the provider and has no create action (a `MissingKey`).
pub open spec fn op_for_key(
    ra: Option<ActionsSpec>,
    k: KeySpec,
    provider: Seq<ProviderEntry>,
    derived: Seq<SecretEntry>,
    rots: Seq<RotationRecord>,
    now: u64,
) -> Option<PlanAction> {
    let acts = effective_actions_of(ra, k);
    match provider_lookup(provider, k.name@) {
        None => {
            if acts is Some && acts->0.create is Some {
                Some(PlanAction::Create)
            } else {
                None
            }
        },
        Some(pe) => {
            if rotation_due(k, rots, now) {
                Some(PlanAction::Rotate)
            } else {
                match secret_lookup(derived, key_target(k)) {
                    Some(se) => {
                        if se.value@ == pe.value@ {
                            if acts is Some && acts->0.validate is Some {
                                Some(PlanAction::Validate)
                            } else {
                                Some(PlanAction::Unchanged)
                            }
                        } else {
                            Some(PlanAction::Create)
                        }
                    },
                    None => Some(PlanAction::Create),
                }
            }
        },
    }
}

/// Whether some declared key lands on `t` in the derived secret.
pub open spec fn is_declared_target(keys: Seq<KeySpec>, t: Seq<char>) -> bool {
    exists|i: int| 0 <= i < keys.len() && key_target(#[trigger] keys[i]) == t
}

/// The derived-secret entries no declared key lands on, in derived order.
pub open spec fn plan_extras(keys: Seq<KeySpec>, derived: Seq<SecretEntry>) -> Seq<SecretEntry> {
    derived.filter(|e: SecretEntry| !is_declared_target(keys, e.key@))
}

/// A filtered push grows the filtered sequence exactly when the pushed
/// element satisfies the predicate.
pub proof fn lemma_filter_push<A>(s: Seq<A>, pred: spec_fn(A) -> bool, x: A)
    ensures
        s.push(x).filter(pred) == if pred(x) {
            s.filter(pred).push(x)
        } else {
            s.filter(pred)
        },
{
    reveal(Seq::filter);
    assert(s.push(x).drop_last() =~= s);
    assert(s.push(x).last() == x);
}

/// Whether `k`'s rotation interval has elapsed.
pub fn check_rotation_due(k: &KeySpec, rots: &Vec<RotationRecord>, now: u64) -> (r: bool)
    requires
        k.rotate_interval is Some ==> is_interval(k.rotate_interval->0@) && interval_seconds(
            k.rotate_interval->0@,
        ) <= u64::MAX,
    ensures
        r == rotation_due(*k, rots@, now),
{
    match &k.rotate_interval {
        None => false,
        Some(s) => {
            match parse_interval(s.as_str()) {
                None => false,
                Some(secs) => {
                    match find_rotation(rots, target_of(k)) {
                        None => false,
                        Some(ri) => {
                            match rots[ri].last_rotated.checked_add(secs) {
                                Some(deadline) => deadline <= now,
                                None => false,
                            }
                        },
                    }
                },
            }
        },
    }
}

/// Whether some declared key lands on `t` in the derived secret.
pub fn declared_target(keys: &Vec<KeySpec>, t: &String) -> (r: bool)
    ensures
        r == is_declared_target(keys@, t@),
{
    let mut i: usize = 0;
    while i < keys.len()
        invariant
            i <= keys.len(),
            forall|j: int| 0 <= j < i ==> key_target(#[trigger] keys@[j]) != t@,
        decreases keys.len() - i,
    {
        if *target_of(&keys[i]) == *t {
            return true;
        }
        i = i + 1;
    }
    false
}

/// Compute the plan for one reconciliation attempt.
///
/// The first `keys.len()` steps are the declared keys' operations in
/// declaration order; when `strict` is set they are followed by one
/// `Remove` per undeclared derived-secret entry, in derived order. Without
/// `strict` no `Remove` is ever issued. A declared key with no provider
/// entry and no create action yields `MissingKey` for the first such key
/// and no plan.
pub fn make_plan(
    resource_actions: &Option<ActionsSpec>,
    keys: &Vec<KeySpec>,
    provider: &Vec<ProviderEntry>,
    derived: &Vec<SecretEntry>,
    rots: &Vec<RotationRecord>,
    strict: bool,
    now: u64,
) -> (r: Result<Vec<PlanStep>, PlanError>)
    requires
        plan_config_ok(*resource_actions, keys@),
    ensures
        match r {
            Ok(steps) => {
                &&& forall|i: int|
                    0 <= i < keys@.len() ==> op_for_key(
                        *resource_actions,
                        #[trigger] keys@[i],
                        provider@,
                        derived@,
                        rots@,
                        now,
                    ) is Some
                &&& steps@.len() == keys@.len() + if strict {
                    plan_extras(keys@, derived@).len()
                } else {
                    0
                }
                &&& forall|i: int|
                    0 <= i < keys@.len() ==> {
                        &&& (#[trigger] steps@[i]).action == op_for_key(
                            *resource_actions,
                            keys@[i],
                            provider@,
                            derived@,
                            rots@,
                            now,
                        )->0
                        &&& steps@[i].source@ == keys@[i].name@
                        &&& steps@[i].target@ == key_target(keys@[i])
                    }
                &&& forall|j: int|
                    keys@.len() <= j < steps@.len() ==> {
                        &&& (#[trigger] steps@[j]).action == PlanAction::Remove
                        &&& steps@[j].target@ == plan_extras(keys@, derived@)[j - keys@.len()].key@
                        &&& steps@[j].source@ == steps@[j].target@
                    }
                &&& !strict ==> forall|i: int|
                    0 <= i < steps@.len() ==> (#[trigger] steps@[i]).action != PlanAction::Remove
            },
            Err(e) => {
                match e {
                    PlanError::MissingKey { key } => {
                        exists|i: int|
                            {
                                &&& 0 <= i < keys@.len()
                                &&& op_for_key(
                                    *resource_actions,
                                    #[trigger] keys@[i],
                                    provider@,
                                    derived@,
                                    rots@,
                                    now,
                                ) is None
                                &&& key@ == keys@[i].name@
                                &&& forall|j: int|
                                    0 <= j < i ==> op_for_key(
                                        *resource_actions,
                                        #[trigger] keys@[j],
                                        provider@,
                                        derived@,
                                        rots@,
                                        now,
                                    ) is Some
                            }
                    },
                }
            },
        },
{
    let mut steps: Vec<PlanStep> = Vec::new();
    let mut i: usize = 0;
    while i < keys.len()
        invariant
            plan_config_ok(*resource_actions, keys@),
            i <= keys.len(),
            steps@.len() == i,
            forall|j: int|
                0 <= j < i ==> op_for_key(
                    *resource_actions,
                    #[trigger] keys@[j],
                    provider@,
                    derived@,
                    rots@,
                    now,
                ) is Some,
            forall|j: int|
                0 <= j < i ==> {
                    &&& (#[trigger] steps@[j]).action == op_for_key(
                        *resource_actions,
                        keys@[j],
                        provider@,
                        derived@,
                        rots@,
                        now,
                    )->0
                    &&& steps@[j].source@ == keys@[j].name@
                    &&& steps@[j].target@ == key_target(keys@[j])
                },
            forall|j: int|
                0 <= j < i ==> (#[trigger] steps@[j]).action != PlanAction::Remove,
        decreases keys.len() - i,
    {
        let k = &keys[i];
        assert(key_config_ok(*resource_actions, keys@[i as int]));
        let acts = effective_actions(resource_actions, k);
        let target = target_of(k);
        let action: PlanAction = match find_provider(provider, &k.name) {
            None => {
                let has_create = match acts {
                    Some(a) => a.create.is_some(),
                    None => false,
                };
                if !has_create {
                    return Err(PlanError::MissingKey { key: k.name.clone() });
                }
                PlanAction::Create
            },
            Some(pi) => {
                if check_rotation_due(k, rots, now) {
                    PlanAction::Rotate
                } else {
                    match find_secret(derived, target) {
                        Some(si) => {
                            if bytes_eq(&derived[si].value, &provider[pi].value) {
                                let has_validate = match acts {
                                    Some(a) => a.validate.is_some(),
                                    None => false,
                                };
                                if has_validate {
                                    PlanAction::Validate
                                } else {
                                    PlanAction::Unchanged
                                }
                            } else {
                                PlanAction::Create
                            }
                        },
                        None => PlanAction::Create,
                    }
                }
            },
        };
        assert(Some(action) == op_for_key(
            *resource_actions,
            keys@[i as int],
            provider@,
            derived@,
            rots@,
            now,
        ));
        steps.push(PlanStep { action, source: k.name.clone(), target: target.clone() });
        i = i + 1;
    }
    if !strict {
        return Ok(steps);
    }
    let ghost n = keys@.len();
    let ghost pred = |e: SecretEntry| !is_declared_target(keys@, e.key@);
    let mut d: usize = 0;
    proof {
        assert(derived@.take(0).filter(pred) =~= Seq::<SecretEntry>::empty());
    }
    while d < derived.len()
        invariant
            n == keys@.len(),
            pred == (|e: SecretEntry| !is_declared_target(keys@, e.key@)),
            d <= derived.len(),
            steps@.len() == n + derived@.take(d as int).filter(pred).len(),
            forall|j: int|
                0 <= j < n ==> {
                    &&& (#[trigger] steps@[j]).action == op_for_key(
                        *resource_actions,
                        keys@[j],
                        provider@,
                        derived@,
                        rots@,
                        now,
                    )->0
                    &&& steps@[j].source@ == keys@[j].name@
                    &&& steps@[j].target@ == key_target(keys@[j])
                },
            forall|j: int|
                0 <= j < n ==> op_for_key(
                    *resource_actions,
                    #[trigger] keys@[j],
                    provider@,
                    derived@,
                    rots@,
                    now,
                ) is Some,
            forall|j: int|
                n <= j < steps@.len() ==> {
                    &&& (#[trigger] steps@[j]).action == PlanAction::Remove
                    &&& steps@[j].target@ == derived@.take(d as int).filter(pred)[j - n].key@
                    &&& steps@[j].source@ == steps@[j].target@
                },
        decreases derived.len() - d,
    {
        let e = &derived[d];
        proof {
            assert(derived@.take(d as int + 1) =~= derived@.take(d as int).push(derived@[d as int]));
            lemma_filter_push(derived@.take(d as int), pred, derived@[d as int]);
        }
        if !declared_target(keys, &e.key) {
            steps.push(
                PlanStep { action: PlanAction::Remove, source: e.key.clone(), target: e.key.clone() },
            );
        }
        d = d + 1;
    }
    proof {
        assert(derived@.take(derived@.len() as int) =~= derived@);
    }
    Ok(steps)
}

/// A key with its own actions block is planned the same whatever the
/// resource-level actions say: the override fully replaces them, so the
/// resource-level block is never consulted for that key.
pub proof fn lemma_override_shields_key(
    ra1: Option<ActionsSpec>,
    ra2: Option<ActionsSpec>,
    k: KeySpec,
    provider: Seq<ProviderEntry>,
    derived: Seq<SecretEntry>,
    rots: Seq<RotationRecord>,
    now: u64,
)
    requires
        k.actions is Some,
    ensures
        op_for_key(ra1, k, provider, derived, rots, now) == op_for_key(
            ra2,
            k,
            provider,
            derived,
            rots,
            now,
        ),
        effective_actions_of(ra1, k) == k.actions,
{
}

} // verus!
