//! The status reporter: condition bookkeeping for a `CloudSecret`.
//!
//! A status holds at most one live condition per type. Writing a condition
//! replaces the one of its type or appends a new one; the transition time
//! and message are rewritten only when the status or reason actually
//! changes, while the observed generation always follows the write.

use vstd::prelude::*;

use crate::crds::CloudSecretStatusCondition;
use crate::crds::CloudSecretStatusReason;
use crate::crds::CloudSecretStatusType;
use crate::crds::ConditionStatus;

verus! {

/// At most one condition per type.
pub open spec fn conds_wf(s: Seq<CloudSecretStatusCondition>) -> bool {
    forall|i: int, j: int|
        #![trigger s[i].type_, s[j].type_]
        0 <= i < j < s.len() ==> s[i].type_ != s[j].type_
}

/// First condition of `s` with type `t`.
pub open spec fn cond_lookup(s: Seq<CloudSecretStatusCondition>, t: CloudSecretStatusType) -> Option<
    CloudSecretStatusCondition,
>
    decreases s.len(),
{
    if s.len() == 0 {
        None
    } else if s[0].type_ == t {
        Some(s[0])
    } else {
        cond_lookup(s.skip(1), t)
    }
}

/// A lookup misses exactly when no entry has the type.
proof fn lemma_lookup_none_iff(s: Seq<CloudSecretStatusCondition>, t: CloudSecretStatusType)
    ensures
        cond_lookup(s, t) is None <==> forall|i: int| 0 <= i < s.len() ==> (#[trigger] s[i]).type_
            != t,
    decreases s.len(),
{
    if s.len() > 0 {
        lemma_lookup_none_iff(s.skip(1), t);
        assert(forall|i: int| 0 <= i < s.skip(1).len() ==> #[trigger] s.skip(1)[i] == s[i + 1]);
        if s[0].type_ != t && (forall|i: int|
            0 <= i < s.skip(1).len() ==> (#[trigger] s.skip(1)[i]).type_ != t) {
            assert(forall|i: int|
                0 < i < s.len() ==> (#[trigger] s[i]).type_ == s.skip(1)[i - 1].type_);
        }
    }
}

/// Replacing the entry at `i` by one of the same type moves only that
/// type's lookup.
proof fn lemma_lookup_update(
    s: Seq<CloudSecretStatusCondition>,
    i: int,
    c: CloudSecretStatusCondition,
    t: CloudSecretStatusType,
)
    requires
        0 <= i < s.len(),
        conds_wf(s),
        s[i].type_ == c.type_,
    ensures
        cond_lookup(s.update(i, c), t) == if t == c.type_ {
            Some(c)
        } else {
            cond_lookup(s, t)
        },
    decreases s.len(),
{
    if i == 0 {
        assert(s.update(0, c)[0] == c);
        assert(s.update(0, c).skip(1) =~= s.skip(1));
    } else {
        assert(s.update(i, c)[0] == s[0]);
        assert(s.update(i, c).skip(1) =~= s.skip(1).update(i - 1, c));
        assert(conds_wf(s.skip(1))) by {
            assert(forall|a: int, b: int|
                0 <= a < b < s.skip(1).len() ==> (#[trigger] s.skip(1)[a]).type_ != (
                #[trigger] s.skip(1)[b]).type_) by {
                assert(forall|a: int|
                    0 <= a < s.skip(1).len() ==> #[trigger] s.skip(1)[a] == s[a + 1]);
            }
        }
        assert(s.skip(1)[i - 1] == s[i]);
        lemma_lookup_update(s.skip(1), i - 1, c, t);
        if s[0].type_ == t && t == c.type_ {
            // two entries of one type would break well-formedness
            assert(s[0].type_ == s[i].type_);
            assert(false);
        }
    }
}

/// Appending a condition of a type not yet present moves only that type's
/// lookup.
proof fn lemma_lookup_push(
    s: Seq<CloudSecretStatusCondition>,
    c: CloudSecretStatusCondition,
    t: CloudSecretStatusType,
)
    requires
        cond_lookup(s, c.type_) is None,
    ensures
        cond_lookup(s.push(c), t) == if t == c.type_ {
            Some(c)
        } else {
            cond_lookup(s, t)
        },
    decreases s.len(),
{
    if s.len() == 0 {
        assert(s.push(c)[0] == c);
        assert(s.push(c).skip(1) =~= Seq::<CloudSecretStatusCondition>::empty());
    } else {
        assert(s.push(c)[0] == s[0]);
        assert(s.push(c).skip(1) =~= s.skip(1).push(c));
        lemma_lookup_push(s.skip(1), c, t);
    }
}

/// Find the first condition of type `t`.
pub fn find_condition(conds: &Vec<CloudSecretStatusCondition>, t: CloudSecretStatusType) -> (r:
    Option<usize>)
    ensures
        match r {
            Some(i) => i < conds.len() && conds@[i as int].type_ == t && cond_lookup(conds@, t)
                == Some(conds@[i as int]),
            None => cond_lookup(conds@, t) is None,
        },
{
    let mut i: usize = 0;
    proof {
        assert(conds@.skip(0) =~= conds@);
    }
    while i < conds.len()
        invariant
            i <= conds.len(),
            cond_lookup(conds@, t) == cond_lookup(conds@.skip(i as int), t),
        decreases conds.len() - i,
    {
        proof {
            assert(conds@.skip(i as int)[0] == conds@[i as int]);
            assert(conds@.skip(i as int).skip(1) =~= conds@.skip(i as int + 1));
        }
        if conds[i].type_ == t {
            return Some(i);
        }
        i = i + 1;
    }
    proof {
        assert(conds@.skip(i as int) =~= Seq::<CloudSecretStatusCondition>::empty());
    }
    None
}

/// Whether two optional reasons are the same.
fn reason_eq(a: &Option<CloudSecretStatusReason>, b: &Option<CloudSecretStatusReason>) -> (r: bool)
    ensures
        r == (*a == *b),
{
    match (a, b) {
        (None, None) => true,
        (Some(x), Some(y)) => *x == *y,
        _ => false,
    }
}

/// Write the condition of type `type_`, replacing the live one of that
/// type or appending a new one.
///
/// The transition time and message are rewritten to `now` and `message`
/// only when the status or the reason changes; an unchanged condition only
/// has its observed generation moved forward. Conditions of other types are
/// untouched.
pub fn set_condition(
    conds: &mut Vec<CloudSecretStatusCondition>,
    type_: CloudSecretStatusType,
    status: ConditionStatus,
    reason: Option<CloudSecretStatusReason>,
    message: &String,
    generation: i64,
    now: &String,
)
    requires
        conds_wf(old(conds)@),
    ensures
        conds_wf(final(conds)@),
        ({
            let cur = cond_lookup(final(conds)@, type_);
            &&& cur is Some
            &&& cur->0.type_ == type_
            &&& cur->0.status == status
            &&& cur->0.reason == reason
            &&& cur->0.observed_generation == generation
            &&& match cond_lookup(old(conds)@, type_) {
                Some(p) => {
                    if p.status == status && p.reason == reason {
                        cur->0.last_transition_time@ == p.last_transition_time@
                            && cur->0.message@ == p.message@
                    } else {
                        cur->0.last_transition_time@ == now@ && cur->0.message@ == message@
                    }
                },
                None => cur->0.last_transition_time@ == now@ && cur->0.message@ == message@,
            }
        }),
        forall|t: CloudSecretStatusType|
            t != type_ ==> #[trigger] cond_lookup(final(conds)@, t) == cond_lookup(old(conds)@, t),
        final(conds)@.len() == old(conds)@.len() + if cond_lookup(old(conds)@, type_) is Some {
            0int
        } else {
            1int
        },
{
    match find_condition(conds, type_) {
        Some(i) => {
            let unchanged = conds[i].status == status && reason_eq(&conds[i].reason, &reason);
            let c = if unchanged {
                CloudSecretStatusCondition {
                    type_,
                    status,
                    observed_generation: generation,
                    last_transition_time: conds[i].last_transition_time.clone(),
                    message: conds[i].message.clone(),
                    reason,
                }
            } else {
                CloudSecretStatusCondition {
                    type_,
                    status,
                    observed_generation: generation,
                    last_transition_time: now.clone(),
                    message: message.clone(),
                    reason,
                }
            };
            let ghost prev = conds@;
            conds.set(i, c);
            proof {
                assert(conds@ == prev.update(i as int, c));
                lemma_lookup_update(prev, i as int, c, type_);
                assert forall|t: CloudSecretStatusType|
                    t != type_ implies #[trigger] cond_lookup(conds@, t) == cond_lookup(
                    prev,
                    t,
                ) by {
                    lemma_lookup_update(prev, i as int, c, t);
                }
            }
        },
        None => {
            let c = CloudSecretStatusCondition {
                type_,
                status,
                observed_generation: generation,
                last_transition_time: now.clone(),
                message: message.clone(),
                reason,
            };
            let ghost prev = conds@;
            proof {
                lemma_lookup_none_iff(prev, type_);
            }
            conds.push(c);
            proof {
                assert(conds@ == prev.push(c));
                lemma_lookup_push(prev, c, type_);
                assert forall|t: CloudSecretStatusType|
                    t != type_ implies #[trigger] cond_lookup(conds@, t) == cond_lookup(
                    prev,
                    t,
                ) by {
                    lemma_lookup_push(prev, c, t);
                }
            }
        },
    }
}

} // verus!
