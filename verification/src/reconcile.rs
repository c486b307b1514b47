//! The reconciler: one full pass over a `CloudSecret`, from a provider
//! snapshot to the new derived-secret content, provider write-backs,
//! rotation stamps and status conditions.
//!
//! All I/O stays with the caller: the provider snapshot, the generated
//! values and the external validator verdicts are plain inputs, and the
//! outcome lists what must be written. A pass that finds a problem before
//! its first mutation reports it with nothing written.

use vstd::prelude::*;

use crate::actions::PhaseResult;
use crate::actions::check_actions;
use crate::actions::effective_actions;
use crate::actions::effective_actions_of;
use crate::actions::eval_value_spec;
use crate::actions::evaluate_value;
use crate::crds::CloudSecretStatus;
use crate::crds::CloudSecretStatusCondition;
use crate::crds::CloudSecretStatusReason;
use crate::crds::CloudSecretStatusType;
use crate::crds::ConditionStatus;
use crate::crds::KeySpec;
use crate::crds::key_target;
use crate::crds::target_of;
use crate::interval::parse_interval;
use crate::plan::PlanAction;
use crate::plan::PlanError;
use crate::plan::key_config_ok;
use crate::plan::make_plan;
use crate::plan::declared_target;
use crate::plan::is_declared_target;
use crate::plan::op_for_key;
use crate::plan::plan_config_ok;
use crate::plan::plan_extras;
use crate::plan::rotation_due;
use crate::plan::lemma_filter_push;
use crate::secret::ProviderEntry;
use crate::secret::RotationRecord;
use crate::secret::SecretEntry;
use crate::secret::bytes_eq;
use crate::secret::find_provider;
use crate::secret::find_rotation;
use crate::secret::find_secret;
use crate::secret::provider_lookup;
use crate::secret::rotation_lookup;
use crate::secret::secret_lookup;
use crate::status::cond_lookup;
use crate::status::conds_wf;
use crate::status::set_condition;

verus! {

/// What the provider fetch produced: a snapshot, or a transient failure
/// (a timeout or an unreachable store).
pub enum ProviderFetch {
    /// The provider answered with its entries.
    Fetched(Vec<ProviderEntry>),
    /// The call timed out or failed transiently.
    TimedOut,
}

/// One external validator verdict, keyed by the derived-secret key name.
#[derive(Debug, Clone)]
pub struct Verdict {
    /// Key the verdict is about.
    pub target: String,
    /// Whether the validator accepted the value.
    pub pass: bool,
}

/// Values and verdicts produced by the pluggable generation and
/// validation capabilities, handed in by the caller.
#[derive(Debug, Clone)]
pub struct Supplied {
    /// Generated values, keyed by derived-secret key name.
    pub values: Vec<SecretEntry>,
    /// External validator verdicts.
    pub verdicts: Vec<Verdict>,
}

/// First verdict for key `t`.
pub open spec fn verdict_lookup(v: Seq<Verdict>, t: Seq<char>) -> Option<bool>
    decreases v.len(),
{
    if v.len() == 0 {
        None
    } else if v[0].target@ == t {
        Some(v[0].pass)
    } else {
        verdict_lookup(v.skip(1), t)
    }
}

/// Find the first verdict for key `t`.
pub fn find_verdict(v: &Vec<Verdict>, t: &String) -> (r: Option<bool>)
    ensures
        r == verdict_lookup(v@, t@),
{
    let mut i: usize = 0;
    proof {
        assert(v@.skip(0) =~= v@);
    }
    while i < v.len()
        invariant
            i <= v.len(),
            verdict_lookup(v@, t@) == verdict_lookup(v@.skip(i as int), t@),
        decreases v.len() - i,
    {
        proof {
            assert(v@.skip(i as int)[0] == v@[i as int]);
            assert(v@.skip(i as int).skip(1) =~= v@.skip(i as int + 1));
        }
        if v[i].target == *t {
            return Some(v[i].pass);
        }
        i = i + 1;
    }
    proof {
        assert(v@.skip(i as int) =~= Seq::<Verdict>::empty());
    }
    None
}

/// Copy a byte string.
pub fn clone_bytes(v: &Vec<u8>) -> (r: Vec<u8>)
    ensures
        r@ == v@,
{
    let mut r: Vec<u8> = Vec::new();
    let mut i: usize = 0;
    while i < v.len()
        invariant
            i <= v.len(),
            r@ == v@.take(i as int),
        decreases v.len() - i,
    {
        r.push(v[i]);
        proof {
            assert(v@.take(i as int).push(v@[i as int]) =~= v@.take(i as int + 1));
        }
        i = i + 1;
    }
    proof {
        assert(v@.take(v@.len() as int) =~= v@);
        assert(r@ =~= v@);
    }
    r
}

/// Copy the rotation records.
pub fn copy_rotations(v: &Vec<RotationRecord>) -> (r: Vec<RotationRecord>)
    ensures
        r@ == v@,
{
    let mut r: Vec<RotationRecord> = Vec::new();
    let mut i: usize = 0;
    while i < v.len()
        invariant
            i <= v.len(),
            r@ == v@.take(i as int),
        decreases v.len() - i,
    {
        r.push(RotationRecord { target: v[i].target.clone(), last_rotated: v[i].last_rotated });
        proof {
            assert(v@.take(i as int).push(v@[i as int]) =~= v@.take(i as int + 1));
        }
        i = i + 1;
    }
    proof {
        assert(v@.take(v@.len() as int) =~= v@);
    }
    r
}

/// Copy the status conditions.
pub fn copy_conditions(v: &Vec<CloudSecretStatusCondition>) -> (r: Vec<CloudSecretStatusCondition>)
    ensures
        r@ == v@,
{
    let mut r: Vec<CloudSecretStatusCondition> = Vec::new();
    let mut i: usize = 0;
    while i < v.len()
        invariant
            i <= v.len(),
            r@ == v@.take(i as int),
        decreases v.len() - i,
    {
        let c = CloudSecretStatusCondition {
            type_: v[i].type_,
            status: v[i].status,
            observed_generation: v[i].observed_generation,
            last_transition_time: v[i].last_transition_time.clone(),
            message: v[i].message.clone(),
            reason: v[i].reason,
        };
        r.push(c);
        proof {
            assert(v@.take(i as int).push(v@[i as int]) =~= v@.take(i as int + 1));
        }
        i = i + 1;
    }
    proof {
        assert(v@.take(v@.len() as int) =~= v@);
    }
    r
}

/// Whether every entry of `a` is present in `b` with the same value.
pub open spec fn covers(a: Seq<SecretEntry>, b: Seq<SecretEntry>) -> bool {
    forall|i: int|
        0 <= i < a.len() ==> match secret_lookup(b, (#[trigger] a[i]).key@) {
            Some(e) => e.value@ == a[i].value@,
            None => false,
        }
}

/// Whether `a` and `b` hold the same keys with the same values.
pub open spec fn same_content(a: Seq<SecretEntry>, b: Seq<SecretEntry>) -> bool {
    covers(a, b) && covers(b, a)
}

/// Whether every entry of `a` is present in `b` with the same value.
pub fn check_covers(a: &Vec<SecretEntry>, b: &Vec<SecretEntry>) -> (r: bool)
    ensures
        r == covers(a@, b@),
{
    let mut i: usize = 0;
    while i < a.len()
        invariant
            i <= a.len(),
            forall|j: int|
                0 <= j < i ==> match secret_lookup(b@, (#[trigger] a@[j]).key@) {
                    Some(e) => e.value@ == a@[j].value@,
                    None => false,
                },
        decreases a.len() - i,
    {
        match find_secret(b, &a[i].key) {
            Some(bi) => {
                if !bytes_eq(&b[bi].value, &a[i].value) {
                    return false;
                }
            },
            None => {
                return false;
            },
        }
        i = i + 1;
    }
    true
}

/// Whether `a` and `b` hold the same keys with the same values.
pub fn check_same_content(a: &Vec<SecretEntry>, b: &Vec<SecretEntry>) -> (r: bool)
    ensures
        r == same_content(a@, b@),
{
    let ca = check_covers(a, b);
    let cb = check_covers(b, a);
    ca && cb
}

/// At most one rotation record per key.
pub open spec fn rots_wf(s: Seq<RotationRecord>) -> bool {
    forall|i: int, j: int|
        #![trigger s[i].target, s[j].target]
        0 <= i < j < s.len() ==> s[i].target@ != s[j].target@
}

/// A rotation lookup misses exactly when no record has the target.
#[verifier::spinoff_prover]
proof fn lemma_rot_lookup_none_iff(s: Seq<RotationRecord>, t: Seq<char>)
    ensures
        rotation_lookup(s, t) is None <==> forall|i: int|
            0 <= i < s.len() ==> (#[trigger] s[i]).target@ != t,
    decreases s.len(),
{
    if s.len() > 0 {
        lemma_rot_lookup_none_iff(s.skip(1), t);
        assert(forall|i: int| 0 <= i < s.skip(1).len() ==> #[trigger] s.skip(1)[i] == s[i + 1]);
        if s[0].target@ != t && (forall|i: int|
            0 <= i < s.skip(1).len() ==> (#[trigger] s.skip(1)[i]).target@ != t) {
            assert(forall|i: int|
                0 < i < s.len() ==> (#[trigger] s[i]).target@ == s.skip(1)[i - 1].target@);
        }
    }
}

/// Replacing the record at `i` by one of the same target moves only that
/// target's lookup.
#[verifier::spinoff_prover]
proof fn lemma_rot_lookup_update(s: Seq<RotationRecord>, i: int, c: RotationRecord, t: Seq<char>)
    requires
        0 <= i < s.len(),
        rots_wf(s),
        s[i].target@ == c.target@,
    ensures
        rotation_lookup(s.update(i, c), t) == if t == c.target@ {
            Some(c)
        } else {
            rotation_lookup(s, t)
        },
    decreases s.len(),
{
    if i == 0 {
        assert(s.update(0, c)[0] == c);
        assert(s.update(0, c).skip(1) =~= s.skip(1));
    } else {
        assert(s.update(i, c)[0] == s[0]);
        assert(s.update(i, c).skip(1) =~= s.skip(1).update(i - 1, c));
        assert(rots_wf(s.skip(1))) by {
            assert(forall|a: int|
                0 <= a < s.skip(1).len() ==> #[trigger] s.skip(1)[a] == s[a + 1]);
        }
        assert(s.skip(1)[i - 1] == s[i]);
        lemma_rot_lookup_update(s.skip(1), i - 1, c, t);
        if s[0].target@ == t && t == c.target@ {
            assert(s[0].target@ == s[i].target@);
            assert(false);
        }
    }
}

/// Appending a record of a target not yet present moves only that
/// target's lookup.
#[verifier::spinoff_prover]
proof fn lemma_rot_lookup_push(s: Seq<RotationRecord>, c: RotationRecord, t: Seq<char>)
    requires
        rotation_lookup(s, c.target@) is None,
    ensures
        rotation_lookup(s.push(c), t) == if t == c.target@ {
            Some(c)
        } else {
            rotation_lookup(s, t)
        },
    decreases s.len(),
{
    if s.len() == 0 {
        assert(s.push(c).len() == 1);
        assert(s.push(c)[0] == c);
        assert(s.push(c).skip(1) =~= Seq::<RotationRecord>::empty());
        assert(rotation_lookup(s.push(c).skip(1), t) is None);
        if t == c.target@ {
            assert(rotation_lookup(s.push(c), t) == Some(c));
        } else {
            assert(rotation_lookup(s.push(c), t) is None);
            assert(rotation_lookup(s, t) is None);
        }
    } else {
        assert(s[0].target@ != c.target@);
        assert(s.push(c)[0] == s[0]);
        assert(s.push(c).skip(1) =~= s.skip(1).push(c));
        lemma_rot_lookup_push(s.skip(1), c, t);
        if s[0].target@ == t {
            assert(rotation_lookup(s.push(c), t) == Some(s[0]));
            assert(rotation_lookup(s, t) == Some(s[0]));
        } else {
            assert(rotation_lookup(s.push(c), t) == rotation_lookup(s.skip(1).push(c), t));
            assert(rotation_lookup(s, t) == rotation_lookup(s.skip(1), t));
        }
    }
}

/// Record that `target` was rotated (or first written) at `now`.
pub fn stamp_rotation(rots: &mut Vec<RotationRecord>, target: &String, now: u64)
    requires
        rots_wf(old(rots)@),
    ensures
        rots_wf(final(rots)@),
        ({
            let cur = rotation_lookup(final(rots)@, target@);
            &&& cur is Some
            &&& cur->0.target@ == target@
            &&& cur->0.last_rotated == now
        }),
        forall|t: Seq<char>|
            t != target@ ==> #[trigger] rotation_lookup(final(rots)@, t) == rotation_lookup(
                old(rots)@,
                t,
            ),
{
    let c = RotationRecord { target: target.clone(), last_rotated: now };
    match find_rotation(rots, target) {
        Some(i) => {
            let ghost prev = rots@;
            rots.set(i, c);
            proof {
                assert(rots@ == prev.update(i as int, c));
                lemma_rot_lookup_update(prev, i as int, c, target@);
                assert forall|t: Seq<char>|
                    t != target@ implies #[trigger] rotation_lookup(rots@, t) == rotation_lookup(
                    prev,
                    t,
                ) by {
                    lemma_rot_lookup_update(prev, i as int, c, t);
                }
            }
        },
        None => {
            let ghost prev = rots@;
            proof {
                lemma_rot_lookup_none_iff(prev, target@);
            }
            rots.push(c);
            proof {
                assert(rots@ == prev.push(c));
                lemma_rot_lookup_push(prev, c, target@);
                assert forall|t: Seq<char>|
                    t != target@ implies #[trigger] rotation_lookup(rots@, t) == rotation_lookup(
                    prev,
                    t,
                ) by {
                    lemma_rot_lookup_push(prev, c, t);
                }
            }
        },
    }
}

/// Keys to mirror when the spec declares none: every provider key under
/// its own name, with no actions and no rotation.
pub fn mirror_keys(provider: &Vec<ProviderEntry>) -> (r: Vec<KeySpec>)
    ensures
        r@.len() == provider@.len(),
        forall|i: int|
            0 <= i < r@.len() ==> {
                &&& (#[trigger] r@[i]).name@ == provider@[i].key@
                &&& r@[i].target_name is None
                &&& r@[i].rotate_interval is None
                &&& r@[i].actions is None
            },
{
    let mut r: Vec<KeySpec> = Vec::new();
    let mut i: usize = 0;
    while i < provider.len()
        invariant
            i <= provider.len(),
            r@.len() == i,
            forall|j: int|
                0 <= j < i ==> {
                    &&& (#[trigger] r@[j]).name@ == provider@[j].key@
                    &&& r@[j].target_name is None
                    &&& r@[j].rotate_interval is None
                    &&& r@[j].actions is None
                },
        decreases provider.len() - i,
    {
        r.push(
            KeySpec {
                name: provider[i].key.clone(),
                target_name: None,
                description: None,
                rotate_interval: None,
                actions: None,
            },
        );
        i = i + 1;
    }
    r
}

/// How the pass ended.
#[derive(Clone, Copy, Debug, PartialEq, Eq, Structural)]
pub enum ReconcileResult {
    /// Every declared key is applied and validated; the derived secret
    /// holds the resolved content.
    Synced,
    /// The provider could not be read; nothing was decided or mutated.
    SourceUnavailable,
    /// The spec itself is malformed (inconsistent bounds, a bad pattern,
    /// an unparseable interval); terminal for this generation.
    Config,
    /// A declared key is absent from the provider with no create action.
    Missing,
    /// A generation or validation capability must run before the pass can
    /// decide; nothing was mutated.
    Pending,
    /// At least one key value failed validation.
    Invalid,
}

/// When the next attempt should run.
#[derive(Clone, Copy, Debug, PartialEq, Eq, Structural)]
pub enum Requeue {
    /// At the normal refresh cadence.
    AfterRefresh,
    /// Sooner, with exponential backoff.
    Backoff,
}

/// Everything one pass decided: the new conditions, the content the
/// derived secret should hold, whether it must be written, the values to
/// write back to the provider, and the updated rotation records.
pub struct ReconcileOutcome {
    /// How the pass ended.
    pub result: ReconcileResult,
    /// Updated status conditions.
    pub conditions: Vec<CloudSecretStatusCondition>,
    /// The content the derived secret should hold after this pass.
    pub entries: Vec<SecretEntry>,
    /// Whether `entries` differs from the current derived secret and must
    /// be written.
    pub secret_write: bool,
    /// Generated values to write back to the provider, under their source
    /// key names.
    pub provider_writes: Vec<SecretEntry>,
    /// Updated rotation records.
    pub rotations: Vec<RotationRecord>,
    /// When to run again.
    pub requeue: Requeue,
}

/// The value that should land in the derived secret for key `k`: the
/// provider's value, or the supplied generated value where one must be
/// generated. `None` when the key is a `MissingKey` or the needed
/// generated value was not supplied.
pub open spec fn planned_value(
    ra: Option<crate::crds::ActionsSpec>,
    k: KeySpec,
    provider: Seq<ProviderEntry>,
    derived: Seq<SecretEntry>,
    rots: Seq<RotationRecord>,
    vals: Seq<SecretEntry>,
    now: u64,
) -> Option<Seq<u8>> {
    match op_for_key(ra, k, provider, derived, rots, now) {
        None => None,
        Some(op) => {
            if op == PlanAction::Rotate {
                match secret_lookup(vals, key_target(k)) {
                    Some(e) => Some(e.value@),
                    None => None,
                }
            } else if op == PlanAction::Create {
                match provider_lookup(provider, k.name@) {
                    Some(pe) => Some(pe.value@),
                    None => match secret_lookup(vals, key_target(k)) {
                        Some(e) => Some(e.value@),
                        None => None,
                    },
                }
            } else {
                match provider_lookup(provider, k.name@) {
                    Some(pe) => Some(pe.value@),
                    None => None,
                }
            }
        },
    }
}

/// What `k`'s effective validate action says about `value`.
pub open spec fn key_check_result(
    ra: Option<crate::crds::ActionsSpec>,
    k: KeySpec,
    value: Seq<u8>,
    verds: Seq<Verdict>,
) -> PhaseResult {
    match effective_actions_of(ra, k) {
        Some(a) => match a.validate {
            Some(va) => eval_value_spec(va, value, verdict_lookup(verds, key_target(k))),
            None => PhaseResult::Pass,
        },
        None => PhaseResult::Pass,
    }
}

/// Whether key `k` resolves to a value that passes its validate action.
pub open spec fn key_ok(
    ra: Option<crate::crds::ActionsSpec>,
    k: KeySpec,
    provider: Seq<ProviderEntry>,
    derived: Seq<SecretEntry>,
    rots: Seq<RotationRecord>,
    vals: Seq<SecretEntry>,
    verds: Seq<Verdict>,
    now: u64,
) -> bool {
    &&& op_for_key(ra, k, provider, derived, rots, now) is Some
    &&& planned_value(ra, k, provider, derived, rots, vals, now) is Some
    &&& key_check_result(ra, k, planned_value(ra, k, provider, derived, rots, vals, now)->0, verds)
        == PhaseResult::Pass
}

/// Whether every declared key resolves and validates.
pub open spec fn all_keys_ok(
    ra: Option<crate::crds::ActionsSpec>,
    keys: Seq<KeySpec>,
    provider: Seq<ProviderEntry>,
    derived: Seq<SecretEntry>,
    rots: Seq<RotationRecord>,
    vals: Seq<SecretEntry>,
    verds: Seq<Verdict>,
    now: u64,
) -> bool {
    forall|i: int|
        0 <= i < keys.len() ==> key_ok(
            ra,
            #[trigger] keys[i],
            provider,
            derived,
            rots,
            vals,
            verds,
            now,
        )
}

/// Whether key `k`'s value is generated this pass (a rotation, or a
/// creation of a key the provider lacks) and so written back to the
/// provider.
pub open spec fn generates(
    ra: Option<crate::crds::ActionsSpec>,
    k: KeySpec,
    provider: Seq<ProviderEntry>,
    derived: Seq<SecretEntry>,
    rots: Seq<RotationRecord>,
    now: u64,
) -> bool {
    match op_for_key(ra, k, provider, derived, rots, now) {
        Some(op) => op == PlanAction::Rotate || (op == PlanAction::Create && provider_lookup(
            provider,
            k.name@,
        ) is None),
        None => false,
    }
}

/// Whether this pass stamps a rotation time for `k`: it rotates, or it
/// has a rotation interval and no record yet (its clock starts now).
pub open spec fn stamps(
    ra: Option<crate::crds::ActionsSpec>,
    k: KeySpec,
    provider: Seq<ProviderEntry>,
    derived: Seq<SecretEntry>,
    rots: Seq<RotationRecord>,
    now: u64,
) -> bool {
    &&& k.rotate_interval is Some
    &&& match op_for_key(ra, k, provider, derived, rots, now) {
        Some(op) => op == PlanAction::Rotate || rotation_lookup(rots, key_target(k)) is None,
        None => false,
    }
}

/// Whether the condition of type `t` reads (`st`, `rsn`) at generation `g`.
pub open spec fn cond_is(
    conds: Seq<CloudSecretStatusCondition>,
    t: CloudSecretStatusType,
    st: ConditionStatus,
    rsn: Option<CloudSecretStatusReason>,
    g: i64,
) -> bool {
    match cond_lookup(conds, t) {
        Some(c) => c.status == st && c.reason == rsn && c.observed_generation == g,
        None => false,
    }
}

/// Check the whole key list's configuration before planning.
pub fn check_config(ra: &Option<crate::crds::ActionsSpec>, keys: &Vec<KeySpec>) -> (r: bool)
    ensures
        r == plan_config_ok(*ra, keys@),
{
    let mut i: usize = 0;
    while i < keys.len()
        invariant
            i <= keys.len(),
            forall|j: int| 0 <= j < i ==> key_config_ok(*ra, #[trigger] keys@[j]),
        decreases keys.len() - i,
    {
        let k = &keys[i];
        let rot_ok = match &k.rotate_interval {
            None => true,
            Some(s) => parse_interval(s.as_str()).is_some(),
        };
        if !rot_ok {
            return false;
        }
        let acts_ok = match effective_actions(ra, k) {
            Some(a) => check_actions(a),
            None => true,
        };
        if !acts_ok {
            return false;
        }
        i = i + 1;
    }
    true
}

/// The entries of a successful fetch; empty for a failed one.
pub open spec fn fetched_entries(pf: ProviderFetch) -> Seq<ProviderEntry> {
    match pf {
        ProviderFetch::Fetched(v) => v@,
        ProviderFetch::TimedOut => Seq::empty(),
    }
}

/// Whether the pass left every store untouched.
pub open spec fn untouched(out: ReconcileOutcome, rotations: Seq<RotationRecord>) -> bool {
    &&& !out.secret_write
    &&& out.provider_writes@.len() == 0
    &&& out.rotations@ == rotations
}

/// Run one reconciliation pass.
///
/// `keys` is the resolved desired key list: the spec's `keys` when it
/// declares one, else one mirror key per provider entry (see
/// [`mirror_keys`]). `ra` is the resource-level actions block and `strict`
/// the spec's strictness flag. The provider snapshot, the generated values
/// and validator verdicts in `supplied`, the current derived-secret
/// entries, the rotation records and the current conditions are plain
/// inputs; the outcome says what to write. A pass that fails before its
/// first mutation (timeout, bad configuration, missing key, a capability
/// still to run, or any invalid key under `strict`) mutates nothing.
#[verifier::rlimit(100)]
pub fn reconcile(
    generation: i64,
    ra: &Option<crate::crds::ActionsSpec>,
    strict: bool,
    keys: &Vec<KeySpec>,
    provider: &ProviderFetch,
    derived: &Vec<SecretEntry>,
    rotations: &Vec<RotationRecord>,
    supplied: &Supplied,
    conditions: &Vec<CloudSecretStatusCondition>,
    now: u64,
    now_str: &String,
) -> (out: ReconcileOutcome)
    requires
        conds_wf(conditions@),
        rots_wf(rotations@),
    ensures
        conds_wf(out.conditions@),
        rots_wf(out.rotations@),
        (out.result == ReconcileResult::SourceUnavailable <==> provider is TimedOut),
        provider is TimedOut ==> {
            &&& untouched(out, rotations@)
            &&& out.requeue == Requeue::Backoff
            &&& cond_is(
                out.conditions@,
                CloudSecretStatusType::Reconciling,
                ConditionStatus::True,
                Some(CloudSecretStatusReason::SourceUnavailable),
                generation,
            )
            &&& forall|t: CloudSecretStatusType|
                t != CloudSecretStatusType::Reconciling ==> #[trigger] cond_lookup(
                    out.conditions@,
                    t,
                ) == cond_lookup(conditions@, t)
        },
        provider is Fetched ==> {
            let p = fetched_entries(*provider);
            let vals = supplied.values@;
            let verds = supplied.verdicts@;
            &&& (out.result == ReconcileResult::Config <==> !plan_config_ok(*ra, keys@))
            &&& out.result == ReconcileResult::Config ==> {
                &&& untouched(out, rotations@)
                &&& out.requeue == Requeue::AfterRefresh
                &&& cond_is(
                    out.conditions@,
                    CloudSecretStatusType::Synced,
                    ConditionStatus::False,
                    Some(CloudSecretStatusReason::ValidationFailed),
                    generation,
                )
            }
            &&& plan_config_ok(*ra, keys@) ==> {
                &&& (out.result == ReconcileResult::Missing <==> exists|i: int|
                    0 <= i < keys@.len() && op_for_key(
                        *ra,
                        #[trigger] keys@[i],
                        p,
                        derived@,
                        rotations@,
                        now,
                    ) is None)
                &&& out.result == ReconcileResult::Missing ==> {
                    &&& untouched(out, rotations@)
                    &&& out.requeue == Requeue::AfterRefresh
                    &&& cond_is(
                        out.conditions@,
                        CloudSecretStatusType::Synced,
                        ConditionStatus::False,
                        Some(CloudSecretStatusReason::ProviderError),
                        generation,
                    )
                }
                &&& (out.result == ReconcileResult::Synced <==> all_keys_ok(
                    *ra,
                    keys@,
                    p,
                    derived@,
                    rotations@,
                    vals,
                    verds,
                    now,
                ))
                &&& out.result == ReconcileResult::Pending ==> {
                    &&& untouched(out, rotations@)
                    &&& out.requeue == Requeue::Backoff
                }
                &&& out.result == ReconcileResult::Invalid ==> {
                    &&& out.requeue == Requeue::AfterRefresh
                    &&& cond_is(
                        out.conditions@,
                        CloudSecretStatusType::Synced,
                        ConditionStatus::False,
                        Some(CloudSecretStatusReason::ValidationFailed),
                        generation,
                    )
                    &&& strict ==> untouched(out, rotations@)
                }
                &&& out.result == ReconcileResult::Synced ==> {
                    &&& out.requeue == Requeue::AfterRefresh
                    // the resolved content, declared keys first, then (when
                    // not strict) the retained undeclared entries
                    &&& out.entries@.len() == keys@.len() + if strict {
                        0int
                    } else {
                        plan_extras(keys@, derived@).len() as int
                    }
                    &&& forall|i: int|
                        0 <= i < keys@.len() ==> {
                            &&& (#[trigger] out.entries@[i]).key@ == key_target(keys@[i])
                            &&& Some(out.entries@[i].value@) == planned_value(
                                *ra,
                                keys@[i],
                                p,
                                derived@,
                                rotations@,
                                vals,
                                now,
                            )
                        }
                    &&& forall|j: int|
                        keys@.len() <= j < out.entries@.len() ==> {
                            &&& (#[trigger] out.entries@[j]).key@ == plan_extras(
                                keys@,
                                derived@,
                            )[j - keys@.len()].key@
                            &&& out.entries@[j].value@ == plan_extras(
                                keys@,
                                derived@,
                            )[j - keys@.len()].value@
                        }
                    // the secret is written exactly when the content differs
                    &&& out.secret_write == !same_content(out.entries@, derived@)
                    // provider write-backs: exactly the generated values
                    &&& forall|j2: int|
                        0 <= j2 < out.provider_writes@.len() ==> exists|i: int|
                            {
                                &&& 0 <= i < keys@.len()
                                &&& generates(*ra, #[trigger] keys@[i], p, derived@, rotations@, now)
                                &&& (#[trigger] out.provider_writes@[j2]).key@ == keys@[i].name@
                                &&& Some(out.provider_writes@[j2].value@) == planned_value(
                                    *ra,
                                    keys@[i],
                                    p,
                                    derived@,
                                    rotations@,
                                    vals,
                                    now,
                                )
                            }
                    &&& (forall|i: int|
                        0 <= i < keys@.len() ==> !generates(
                            *ra,
                            #[trigger] keys@[i],
                            p,
                            derived@,
                            rotations@,
                            now,
                        )) ==> out.provider_writes@.len() == 0
                    // rotation stamps
                    &&& forall|i: int|
                        0 <= i < keys@.len() && stamps(
                            *ra,
                            #[trigger] keys@[i],
                            p,
                            derived@,
                            rotations@,
                            now,
                        ) ==> match rotation_lookup(out.rotations@, key_target(keys@[i])) {
                            Some(rec) => rec.last_rotated == now,
                            None => false,
                        }
                    &&& forall|t: Seq<char>|
                        (forall|i: int|
                            0 <= i < keys@.len() ==> !(stamps(
                                *ra,
                                #[trigger] keys@[i],
                                p,
                                derived@,
                                rotations@,
                                now,
                            ) && key_target(keys@[i]) == t)) ==> #[trigger] rotation_lookup(
                            out.rotations@,
                            t,
                        ) == rotation_lookup(rotations@, t)
                    // conditions
                    &&& cond_is(
                        out.conditions@,
                        CloudSecretStatusType::Reconciling,
                        ConditionStatus::False,
                        None,
                        generation,
                    )
                    &&& cond_is(
                        out.conditions@,
                        CloudSecretStatusType::Synced,
                        ConditionStatus::True,
                        Some(CloudSecretStatusReason::SecretApplied),
                        generation,
                    )
                    // an unchanged synced condition keeps its transition time
                    &&& match cond_lookup(conditions@, CloudSecretStatusType::Synced) {
                        Some(prev) => (prev.status == ConditionStatus::True && prev.reason == Some(
                            CloudSecretStatusReason::SecretApplied,
                        )) ==> cond_lookup(
                            out.conditions@,
                            CloudSecretStatusType::Synced,
                        )->0.last_transition_time@ == prev.last_transition_time@,
                        None => true,
                    }
                    // a rotation is recorded on the rotating condition
                    &&& (exists|i: int|
                        0 <= i < keys@.len() && key_ok(
                            *ra,
                            #[trigger] keys@[i],
                            p,
                            derived@,
                            rotations@,
                            vals,
                            verds,
                            now,
                        ) && op_for_key(*ra, keys@[i], p, derived@, rotations@, now) == Some(
                            PlanAction::Rotate,
                        )) ==> cond_is(
                        out.conditions@,
                        CloudSecretStatusType::Rotating,
                        ConditionStatus::False,
                        Some(CloudSecretStatusReason::SecretRotated),
                        generation,
                    )
                }
            }
        },
{
    let pentries: &Vec<ProviderEntry> = match provider {
        ProviderFetch::TimedOut => {
            let mut conds = copy_conditions(conditions);
            set_condition(
                &mut conds,
                CloudSecretStatusType::Reconciling,
                ConditionStatus::True,
                Some(CloudSecretStatusReason::SourceUnavailable),
                &"secret store unreachable, will retry with backoff".to_owned(),
                generation,
                now_str,
            );
            return ReconcileOutcome {
                result: ReconcileResult::SourceUnavailable,
                conditions: conds,
                entries: Vec::new(),
                secret_write: false,
                provider_writes: Vec::new(),
                rotations: copy_rotations(rotations),
                requeue: Requeue::Backoff,
            };
        },
        ProviderFetch::Fetched(v) => v,
    };
    if !check_config(ra, keys) {
        let mut conds = copy_conditions(conditions);
        set_condition(
            &mut conds,
            CloudSecretStatusType::Reconciling,
            ConditionStatus::False,
            None,
            &"reconciliation stopped on a configuration error".to_owned(),
            generation,
            now_str,
        );
        set_condition(
            &mut conds,
            CloudSecretStatusType::Synced,
            ConditionStatus::False,
            Some(CloudSecretStatusReason::ValidationFailed),
            &"spec rejected: inconsistent bounds, bad pattern or bad interval".to_owned(),
            generation,
            now_str,
        );
        return ReconcileOutcome {
            result: ReconcileResult::Config,
            conditions: conds,
            entries: Vec::new(),
            secret_write: false,
            provider_writes: Vec::new(),
            rotations: copy_rotations(rotations),
            requeue: Requeue::AfterRefresh,
        };
    }
    let steps = match make_plan(ra, keys, pentries, derived, rotations, strict, now) {
        Err(e) => {
            let mut conds = copy_conditions(conditions);
            set_condition(
                &mut conds,
                CloudSecretStatusType::Reconciling,
                ConditionStatus::False,
                None,
                &"reconciliation stopped before any mutation".to_owned(),
                generation,
                now_str,
            );
            let msg = match &e {
                PlanError::MissingKey { key } => "key absent from provider with no create action: "
                    .to_owned().concat(key.as_str()),
            };
            set_condition(
                &mut conds,
                CloudSecretStatusType::Synced,
                ConditionStatus::False,
                Some(CloudSecretStatusReason::ProviderError),
                &msg,
                generation,
                now_str,
            );
            return ReconcileOutcome {
                result: ReconcileResult::Missing,
                conditions: conds,
                entries: Vec::new(),
                secret_write: false,
                provider_writes: Vec::new(),
                rotations: copy_rotations(rotations),
                requeue: Requeue::AfterRefresh,
            };
        },
        Ok(steps) => steps,
    };
    let ghost gp = pentries@;
    let ghost gvals = supplied.values@;
    let ghost gverds = supplied.verdicts@;
    let mut entries: Vec<SecretEntry> = Vec::new();
    let mut pwrites: Vec<SecretEntry> = Vec::new();
    let mut rots_out = copy_rotations(rotations);
    let mut any_rot = false;
    let mut invalid = false;
    let mut i: usize = 0;
    while i < keys.len()
        invariant
            rots_wf(rotations@),
            conds_wf(conditions@),
            plan_config_ok(*ra, keys@),
            provider is Fetched,
            gp == fetched_entries(*provider),
            gp == pentries@,
            gvals == supplied.values@,
            gverds == supplied.verdicts@,
            i <= keys.len(),
            steps@.len() >= keys@.len(),
            forall|j: int|
                0 <= j < keys@.len() ==> op_for_key(
                    *ra,
                    #[trigger] keys@[j],
                    gp,
                    derived@,
                    rotations@,
                    now,
                ) is Some,
            forall|j: int|
                0 <= j < keys@.len() ==> (#[trigger] steps@[j]).action == op_for_key(
                    *ra,
                    keys@[j],
                    gp,
                    derived@,
                    rotations@,
                    now,
                )->0,
            !invalid ==> entries@.len() == i,
            !invalid ==> forall|j: int|
                0 <= j < i ==> key_ok(
                    *ra,
                    #[trigger] keys@[j],
                    gp,
                    derived@,
                    rotations@,
                    gvals,
                    gverds,
                    now,
                ),
            !invalid ==> forall|j: int|
                0 <= j < i ==> {
                    &&& (#[trigger] entries@[j]).key@ == key_target(keys@[j])
                    &&& Some(entries@[j].value@) == planned_value(
                        *ra,
                        keys@[j],
                        gp,
                        derived@,
                        rotations@,
                        gvals,
                        now,
                    )
                },
            invalid ==> !strict,
            invalid ==> exists|j: int|
                0 <= j < i && !key_ok(
                    *ra,
                    #[trigger] keys@[j],
                    gp,
                    derived@,
                    rotations@,
                    gvals,
                    gverds,
                    now,
                ),
            any_rot <==> exists|j: int|
                0 <= j < i && key_ok(
                    *ra,
                    #[trigger] keys@[j],
                    gp,
                    derived@,
                    rotations@,
                    gvals,
                    gverds,
                    now,
                ) && op_for_key(*ra, keys@[j], gp, derived@, rotations@, now) == Some(
                    PlanAction::Rotate,
                ),
            forall|j2: int|
                0 <= j2 < pwrites@.len() ==> exists|j: int|
                    {
                        &&& 0 <= j < i
                        &&& generates(*ra, #[trigger] keys@[j], gp, derived@, rotations@, now)
                        &&& (#[trigger] pwrites@[j2]).key@ == keys@[j].name@
                        &&& Some(pwrites@[j2].value@) == planned_value(
                            *ra,
                            keys@[j],
                            gp,
                            derived@,
                            rotations@,
                            gvals,
                            now,
                        )
                    },
            (forall|j: int|
                0 <= j < i ==> !generates(*ra, #[trigger] keys@[j], gp, derived@, rotations@, now))
                ==> pwrites@.len() == 0,
            rots_wf(rots_out@),
            forall|j: int|
                0 <= j < i && key_ok(
                    *ra,
                    #[trigger] keys@[j],
                    gp,
                    derived@,
                    rotations@,
                    gvals,
                    gverds,
                    now,
                ) && stamps(*ra, keys@[j], gp, derived@, rotations@, now) ==> match rotation_lookup(
                    rots_out@,
                    key_target(keys@[j]),
                ) {
                    Some(rec) => rec.last_rotated == now,
                    None => false,
                },
            forall|t: Seq<char>|
                (forall|j: int|
                    0 <= j < i ==> !(key_ok(
                        *ra,
                        #[trigger] keys@[j],
                        gp,
                        derived@,
                        rotations@,
                        gvals,
                        gverds,
                        now,
                    ) && stamps(*ra, keys@[j], gp, derived@, rotations@, now) && key_target(keys@[j])
                        == t)) ==> #[trigger] rotation_lookup(rots_out@, t) == rotation_lookup(
                    rotations@,
                    t,
                ),
        decreases keys.len() - i,
    {
        let k = &keys[i];
        let target = target_of(k);
        let action = steps[i].action;
        let value_opt: Option<Vec<u8>> = match action {
            PlanAction::Rotate => match find_secret(&supplied.values, target) {
                Some(vi) => Some(clone_bytes(&supplied.values[vi].value)),
                None => None,
            },
            PlanAction::Create => match find_provider(pentries, &k.name) {
                Some(pi) => Some(clone_bytes(&pentries[pi].value)),
                None => match find_secret(&supplied.values, target) {
                    Some(vi) => Some(clone_bytes(&supplied.values[vi].value)),
                    None => None,
                },
            },
            _ => match find_provider(pentries, &k.name) {
                Some(pi) => Some(clone_bytes(&pentries[pi].value)),
                None => None,
            },
        };
        let value = match value_opt {
            Some(v) => v,
            None => {
                // a needed generated value was not supplied: the generation
                // capability must run before anything is mutated
                assert(!key_ok(*ra, keys@[i as int], gp, derived@, rotations@, gvals, gverds, now));
                let mut conds = copy_conditions(conditions);
                set_condition(
                    &mut conds,
                    CloudSecretStatusType::Reconciling,
                    ConditionStatus::True,
                    None,
                    &"waiting for a value to be generated".to_owned(),
                    generation,
                    now_str,
                );
                set_condition(
                    &mut conds,
                    CloudSecretStatusType::Validating,
                    ConditionStatus::True,
                    None,
                    &"waiting for the generation capability".to_owned(),
                    generation,
                    now_str,
                );
                return ReconcileOutcome {
                    result: ReconcileResult::Pending,
                    conditions: conds,
                    entries: Vec::new(),
                    secret_write: false,
                    provider_writes: Vec::new(),
                    rotations: copy_rotations(rotations),
                    requeue: Requeue::Backoff,
                };
            },
        };
        let check = match effective_actions(ra, k) {
            Some(a) => match &a.validate {
                Some(va) => evaluate_value(
                    va,
                    value.as_slice(),
                    find_verdict(&supplied.verdicts, target),
                ),
                None => PhaseResult::Pass,
            },
            None => PhaseResult::Pass,
        };
        assert(check == key_check_result(*ra, keys@[i as int], value@, gverds));
        match check {
            PhaseResult::Pass => {},
            PhaseResult::ConfigError => {
                // excluded by the configuration check before planning
                proof {
                    assert(key_config_ok(*ra, keys@[i as int]));
                    assert(false);
                }
                return ReconcileOutcome {
                    result: ReconcileResult::Pending,
                    conditions: copy_conditions(conditions),
                    entries: Vec::new(),
                    secret_write: false,
                    provider_writes: Vec::new(),
                    rotations: copy_rotations(rotations),
                    requeue: Requeue::Backoff,
                };
            },
            PhaseResult::ValidatorPending => {
                assert(!key_ok(*ra, keys@[i as int], gp, derived@, rotations@, gvals, gverds, now));
                let mut conds = copy_conditions(conditions);
                set_condition(
                    &mut conds,
                    CloudSecretStatusType::Reconciling,
                    ConditionStatus::True,
                    None,
                    &"waiting for the external validator".to_owned(),
                    generation,
                    now_str,
                );
                set_condition(
                    &mut conds,
                    CloudSecretStatusType::Validating,
                    ConditionStatus::True,
                    None,
                    &"external validator verdict outstanding".to_owned(),
                    generation,
                    now_str,
                );
                return ReconcileOutcome {
                    result: ReconcileResult::Pending,
                    conditions: conds,
                    entries: Vec::new(),
                    secret_write: false,
                    provider_writes: Vec::new(),
                    rotations: copy_rotations(rotations),
                    requeue: Requeue::Backoff,
                };
            },
            PhaseResult::Invalid(_) => {
                assert(!key_ok(*ra, keys@[i as int], gp, derived@, rotations@, gvals, gverds, now));
                if strict {
                    // strict mode applies the plan atomically: one bad key
                    // blocks the whole write
                    let mut conds = copy_conditions(conditions);
                    set_condition(
                        &mut conds,
                        CloudSecretStatusType::Reconciling,
                        ConditionStatus::False,
                        None,
                        &"reconciliation failed on validation".to_owned(),
                        generation,
                        now_str,
                    );
                    set_condition(
                        &mut conds,
                        CloudSecretStatusType::Validating,
                        ConditionStatus::False,
                        Some(CloudSecretStatusReason::ValidationFailed),
                        &"a key value failed validation".to_owned(),
                        generation,
                        now_str,
                    );
                    set_condition(
                        &mut conds,
                        CloudSecretStatusType::Synced,
                        ConditionStatus::False,
                        Some(CloudSecretStatusReason::ValidationFailed),
                        &"strict mode: nothing applied".to_owned(),
                        generation,
                        now_str,
                    );
                    return ReconcileOutcome {
                        result: ReconcileResult::Invalid,
                        conditions: conds,
                        entries: Vec::new(),
                        secret_write: false,
                        provider_writes: Vec::new(),
                        rotations: copy_rotations(rotations),
                        requeue: Requeue::AfterRefresh,
                    };
                }
                invalid = true;
                // the failed key keeps its current entry, if it has one
                match find_secret(derived, target) {
                    Some(di) => {
                        entries.push(
                            SecretEntry {
                                key: target.clone(),
                                value: clone_bytes(&derived[di].value),
                            },
                        );
                    },
                    None => {},
                }
                i = i + 1;
                continue ;
            },
        }
        // the key is applied
        proof {
            assert(Some(value@) == planned_value(
                *ra,
                keys@[i as int],
                gp,
                derived@,
                rotations@,
                gvals,
                now,
            ));
            assert(key_ok(*ra, keys@[i as int], gp, derived@, rotations@, gvals, gverds, now));
        }
        let gen = match action {
            PlanAction::Rotate => true,
            PlanAction::Create => find_provider(pentries, &k.name).is_none(),
            _ => false,
        };
        if gen {
            proof {
                assert(generates(*ra, keys@[i as int], gp, derived@, rotations@, now));
            }
            pwrites.push(SecretEntry { key: k.name.clone(), value: clone_bytes(&value) });
            proof {
                assert(pwrites@[pwrites@.len() - 1].key@ == keys@[i as int].name@);
            }
        } else {
            proof {
                assert(!generates(*ra, keys@[i as int], gp, derived@, rotations@, now));
            }
        }
        if matches!(action, PlanAction::Rotate) {
            any_rot = true;
        }
        if k.rotate_interval.is_some() {
            let need_stamp = matches!(action, PlanAction::Rotate) || find_rotation(
                rotations,
                target,
            ).is_none();
            if need_stamp {
                stamp_rotation(&mut rots_out, target, now);
            }
        }
        entries.push(SecretEntry { key: target.clone(), value });
        i = i + 1;
    }
    if invalid {
        let mut conds = copy_conditions(conditions);
        set_condition(
            &mut conds,
            CloudSecretStatusType::Reconciling,
            ConditionStatus::False,
            None,
            &"reconciliation finished with failed keys".to_owned(),
            generation,
            now_str,
        );
        set_condition(
            &mut conds,
            CloudSecretStatusType::Validating,
            ConditionStatus::False,
            Some(CloudSecretStatusReason::ValidationFailed),
            &"a key value failed validation".to_owned(),
            generation,
            now_str,
        );
        set_condition(
            &mut conds,
            CloudSecretStatusType::Synced,
            ConditionStatus::False,
            Some(CloudSecretStatusReason::ValidationFailed),
            &"failed keys kept their previous values".to_owned(),
            generation,
            now_str,
        );
        let wr = !check_same_content(&entries, derived);
        return ReconcileOutcome {
            result: ReconcileResult::Invalid,
            conditions: conds,
            entries,
            secret_write: wr,
            provider_writes: pwrites,
            rotations: rots_out,
            requeue: Requeue::AfterRefresh,
        };
    }
    proof {
        assert forall|ii: int|
            0 <= ii < keys@.len() && stamps(*ra, keys@[ii], gp, derived@, rotations@, now) implies (
        match rotation_lookup(rots_out@, key_target(keys@[ii])) {
            Some(rec) => rec.last_rotated == now,
            None => false,
        }) by {
            assert(key_ok(*ra, keys@[ii], gp, derived@, rotations@, gvals, gverds, now));
        }
    }
    if !strict {
        // retain the derived secret's undeclared entries
        let ghost pred = |e: SecretEntry| !is_declared_target(keys@, e.key@);
        let ghost n = keys@.len();
        let mut d: usize = 0;
        proof {
            assert(derived@.take(0).filter(pred) =~= Seq::<SecretEntry>::empty());
        }
        while d < derived.len()
            invariant
                n == keys@.len(),
                pred == (|e: SecretEntry| !is_declared_target(keys@, e.key@)),
                d <= derived.len(),
                entries@.len() == n + derived@.take(d as int).filter(pred).len(),
                forall|j: int|
                    0 <= j < n ==> {
                        &&& (#[trigger] entries@[j]).key@ == key_target(keys@[j])
                        &&& Some(entries@[j].value@) == planned_value(
                            *ra,
                            keys@[j],
                            gp,
                            derived@,
                            rotations@,
                            gvals,
                            now,
                        )
                    },
                forall|j: int|
                    n <= j < entries@.len() ==> {
                        &&& (#[trigger] entries@[j]).key@ == derived@.take(d as int).filter(pred)[j
                            - n].key@
                        &&& entries@[j].value@ == derived@.take(d as int).filter(pred)[j - n].value@
                    },
            decreases derived.len() - d,
        {
            let e = &derived[d];
            proof {
                assert(derived@.take(d as int + 1) =~= derived@.take(d as int).push(
                    derived@[d as int],
                ));
                lemma_filter_push(derived@.take(d as int), pred, derived@[d as int]);
            }
            if !declared_target(keys, &e.key) {
                entries.push(
                    SecretEntry { key: e.key.clone(), value: clone_bytes(&e.value) },
                );
            }
            d = d + 1;
        }
        proof {
            assert(derived@.take(derived@.len() as int) =~= derived@);
        }
    }
    let wr = !check_same_content(&entries, derived);
    let mut conds = copy_conditions(conditions);
    set_condition(
        &mut conds,
        CloudSecretStatusType::Reconciling,
        ConditionStatus::False,
        None,
        &"reconciliation complete".to_owned(),
        generation,
        now_str,
    );
    if any_rot {
        set_condition(
            &mut conds,
            CloudSecretStatusType::Rotating,
            ConditionStatus::False,
            Some(CloudSecretStatusReason::SecretRotated),
            &"rotation complete".to_owned(),
            generation,
            now_str,
        );
    }
    set_condition(
        &mut conds,
        CloudSecretStatusType::Synced,
        ConditionStatus::True,
        Some(CloudSecretStatusReason::SecretApplied),
        &"secret synced".to_owned(),
        generation,
        now_str,
    );
    ReconcileOutcome {
        result: ReconcileResult::Synced,
        conditions: conds,
        entries,
        secret_write: wr,
        provider_writes: pwrites,
        rotations: rots_out,
        requeue: Requeue::AfterRefresh,
    }
}

/// Assemble the status a pass leaves behind: the derived secret's name
/// (the declared one, or the resource's own name), the new conditions, and
/// a fresh sync time when the pass synced.
pub fn finish_status(
    spec_secret_name: &Option<String>,
    resource_name: &String,
    conditions: Vec<CloudSecretStatusCondition>,
    synced: bool,
    now_str: &String,
    prev: &CloudSecretStatus,
) -> (r: CloudSecretStatus)
    ensures
        r.target_secret_name@ == match spec_secret_name {
            Some(n) => n@,
            None => resource_name@,
        },
        r.conditions@ == conditions@,
        synced ==> r.last_sync_time is Some && r.last_sync_time->0@ == now_str@,
        !synced ==> (r.last_sync_time is Some <==> prev.last_sync_time is Some) && (
        r.last_sync_time is Some ==> r.last_sync_time->0@ == prev.last_sync_time->0@),
        r.version_id is Some <==> prev.version_id is Some,
        r.version_id is Some ==> r.version_id->0@ == prev.version_id->0@,
{
    CloudSecretStatus {
        target_secret_name: match spec_secret_name {
            Some(n) => n.clone(),
            None => resource_name.clone(),
        },
        conditions,
        last_sync_time: if synced {
            Some(now_str.clone())
        } else {
            match &prev.last_sync_time {
                Some(t) => Some(t.clone()),
                None => None,
            }
        },
        version_id: match &prev.version_id {
            Some(v) => Some(v.clone()),
            None => None,
        },
    }
}

/// With prefix-unique keys, looking an entry's own key up finds it.
#[verifier::spinoff_prover]
proof fn lemma_secret_lookup_index(s: Seq<SecretEntry>, i: int)
    requires
        0 <= i < s.len(),
        forall|j: int| 0 <= j < i ==> (#[trigger] s[j]).key@ != s[i].key@,
    ensures
        secret_lookup(s, s[i].key@) == Some(s[i]),
    decreases i,
{
    if i > 0 {
        assert(forall|j: int| 0 <= j < s.skip(1).len() ==> #[trigger] s.skip(1)[j] == s[j + 1]);
        lemma_secret_lookup_index(s.skip(1), i - 1);
    }
}

/// Filtering keeps a sequence whose every element passes.
#[verifier::spinoff_prover]
proof fn lemma_filter_all<A>(s: Seq<A>, pred: spec_fn(A) -> bool)
    requires
        forall|i: int| 0 <= i < s.len() ==> pred(#[trigger] s[i]),
    ensures
        s.filter(pred) == s,
    decreases s.len(),
{
    reveal(Seq::filter);
    if s.len() > 0 {
        assert(forall|i: int|
            0 <= i < s.drop_last().len() ==> #[trigger] s.drop_last()[i] == s[i]);
        lemma_filter_all(s.drop_last(), pred);
        assert(s.drop_last().push(s.last()) =~= s);
    }
}

/// Idempotence of a sync: on a derived secret that already holds the
/// resolved content — every declared key present under its target name
/// with the provider's current value, the undeclared entries after them,
/// no rotation due and every rotation clock already started — the next
/// pass plans only `Unchanged` or `Validate` steps, generates nothing,
/// stamps nothing, and any content `es` built the way a successful pass
/// builds it holds exactly what the derived secret already holds, so
/// nothing is written.
pub proof fn lemma_sync_idempotent(
    ra: Option<crate::crds::ActionsSpec>,
    keys: Seq<KeySpec>,
    provider: Seq<ProviderEntry>,
    derived: Seq<SecretEntry>,
    rots: Seq<RotationRecord>,
    vals: Seq<SecretEntry>,
    now: u64,
    es: Seq<SecretEntry>,
)
    requires
        keys.len() <= derived.len(),
        // distinct entry keys in the derived secret
        forall|i: int, j: int|
            #![trigger derived[i].key, derived[j].key]
            0 <= i < j < derived.len() ==> derived[i].key@ != derived[j].key@,
        // the declared keys stand first, under their target names, with
        // the provider's current values
        forall|i: int|
            0 <= i < keys.len() ==> (#[trigger] derived[i]).key@ == key_target(keys[i]),
        forall|i: int|
            0 <= i < keys.len() ==> match provider_lookup(provider, (#[trigger] keys[i]).name@) {
                Some(pe) => pe.value@ == derived[i].value@,
                None => false,
            },
        // the remaining entries are undeclared
        forall|j: int|
            keys.len() <= j < derived.len() ==> !is_declared_target(
                keys,
                (#[trigger] derived[j]).key@,
            ),
        // no rotation is due and every rotation clock has started
        forall|i: int| 0 <= i < keys.len() ==> !rotation_due(#[trigger] keys[i], rots, now),
        forall|i: int|
            0 <= i < keys.len() && (#[trigger] keys[i]).rotate_interval is Some ==> rotation_lookup(
                rots,
                key_target(keys[i]),
            ) is Some,
        // es is content built the way a successful pass builds it
        es.len() == keys.len() + plan_extras(keys, derived).len(),
        forall|i: int|
            0 <= i < keys.len() ==> {
                &&& (#[trigger] es[i]).key@ == key_target(keys[i])
                &&& Some(es[i].value@) == planned_value(ra, keys[i], provider, derived, rots, vals, now)
            },
        forall|j: int|
            keys.len() <= j < es.len() ==> {
                &&& (#[trigger] es[j]).key@ == plan_extras(keys, derived)[j - keys.len()].key@
                &&& es[j].value@ == plan_extras(keys, derived)[j - keys.len()].value@
            },
    ensures
        forall|i: int|
            0 <= i < keys.len() ==> {
                let op = op_for_key(ra, #[trigger] keys[i], provider, derived, rots, now);
                &&& op is Some
                &&& (op->0 == PlanAction::Unchanged || op->0 == PlanAction::Validate)
            },
        forall|i: int|
            0 <= i < keys.len() ==> !generates(ra, #[trigger] keys[i], provider, derived, rots, now),
        forall|i: int|
            0 <= i < keys.len() ==> !stamps(ra, #[trigger] keys[i], provider, derived, rots, now),
        plan_extras(keys, derived) == derived.skip(keys.len() as int),
        same_content(es, derived),
{
    let n = keys.len() as int;
    let pred = |e: SecretEntry| !is_declared_target(keys, e.key@);
    // every declared key finds its own entry first
    assert forall|i: int| 0 <= i < n implies secret_lookup(derived, key_target(#[trigger] keys[i]))
        == Some(derived[i]) by {
        lemma_secret_lookup_index(derived, i);
    }
    // the extras are exactly the tail
    assert(derived.take(n) + derived.skip(n) =~= derived);
    Seq::filter_distributes_over_add(derived.take(n), derived.skip(n), pred);
    assert(derived.take(n).filter(pred) =~= Seq::<SecretEntry>::empty()) by {
        assert forall|i: int| 0 <= i < derived.take(n).len() implies !pred(
            #[trigger] derived.take(n)[i],
        ) by {
            assert(derived.take(n)[i] == derived[i]);
            assert(key_target(keys[i]) == derived[i].key@);
            assert(is_declared_target(keys, derived[i].key@));
        }
        derived.take(n).lemma_all_neg_filter_empty(pred);
    }
    assert forall|j: int| 0 <= j < derived.skip(n).len() implies pred(
        #[trigger] derived.skip(n)[j],
    ) by {
        assert(derived.skip(n)[j] == derived[j + n]);
    }
    lemma_filter_all(derived.skip(n), pred);
    assert(plan_extras(keys, derived) =~= derived.skip(n));
    // es matches derived index by index
    assert forall|i: int| 0 <= i < es.len() implies (#[trigger] es[i]).key@ == derived[i].key@
        && es[i].value@ == derived[i].value@ by {
        if i < n {
            assert(Some(es[i].value@) == planned_value(ra, keys[i], provider, derived, rots, vals, now));
        } else {
            assert(derived.skip(n)[i - n] == derived[i]);
        }
    }
    // both directions of content equality, through first-match lookups
    assert forall|i: int| 0 <= i < es.len() implies match secret_lookup(
        derived,
        (#[trigger] es[i]).key@,
    ) {
        Some(e) => e.value@ == es[i].value@,
        None => false,
    } by {
        lemma_secret_lookup_index(derived, i);
    }
    assert forall|i: int| 0 <= i < derived.len() implies match secret_lookup(
        es,
        (#[trigger] derived[i]).key@,
    ) {
        Some(e) => e.value@ == derived[i].value@,
        None => false,
    } by {
        assert(forall|a: int, b: int|
            #![trigger es[a].key, es[b].key]
            0 <= a < b < es.len() ==> es[a].key@ != es[b].key@);
        lemma_secret_lookup_index(es, i);
    }
}

} // verus!
