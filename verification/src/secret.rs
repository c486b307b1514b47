//! Plain-value snapshots the engine plans over: the provider's entries, the
//! derived secret's entries, and the per-key rotation records.
//!
//! Lookup is by first match, so every function here is deterministic in its
//! arguments; callers that need unique keys state that themselves.

use vstd::prelude::*;

verus! {

/// One key/value pair of the derived secret.
#[derive(Debug, Clone)]
pub struct SecretEntry {
    /// Key in the derived secret.
    pub key: String,
    /// Value bytes.
    pub value: Vec<u8>,
}

/// One entry observed in the source provider.
#[derive(Debug, Clone)]
pub struct ProviderEntry {
    /// Key in the provider.
    pub key: String,
    /// Value bytes.
    pub value: Vec<u8>,
    /// Provider-assigned version of this value.
    pub version_id: String,
}

/// When a key was last rotated, keyed by its derived-secret name.
#[derive(Debug, Clone)]
pub struct RotationRecord {
    /// Key name in the derived secret.
    pub target: String,
    /// Time of the last rotation, in seconds.
    pub last_rotated: u64,
}

/// First entry of `s` whose key reads `k`.
pub open spec fn secret_lookup(s: Seq<SecretEntry>, k: Seq<char>) -> Option<SecretEntry>
    decreases s.len(),
{
    if s.len() == 0 {
        None
    } else if s[0].key@ == k {
        Some(s[0])
    } else {
        secret_lookup(s.skip(1), k)
    }
}

/// First entry of `p` whose key reads `k`.
pub open spec fn provider_lookup(p: Seq<ProviderEntry>, k: Seq<char>) -> Option<ProviderEntry>
    decreases p.len(),
{
    if p.len() == 0 {
        None
    } else if p[0].key@ == k {
        Some(p[0])
    } else {
        provider_lookup(p.skip(1), k)
    }
}

/// First record of `r` whose target reads `k`.
pub open spec fn rotation_lookup(r: Seq<RotationRecord>, k: Seq<char>) -> Option<RotationRecord>
    decreases r.len(),
{
    if r.len() == 0 {
        None
    } else if r[0].target@ == k {
        Some(r[0])
    } else {
        rotation_lookup(r.skip(1), k)
    }
}

/// Find the first derived-secret entry for key `k`.
pub fn find_secret(entries: &Vec<SecretEntry>, k: &String) -> (r: Option<usize>)
    ensures
        match r {
            Some(i) => i < entries.len() && entries@[i as int].key@ == k@ && secret_lookup(
                entries@,
                k@,
            ) == Some(entries@[i as int]),
            None => secret_lookup(entries@, k@) is None,
        },
{
    let mut i: usize = 0;
    proof {
        assert(entries@.skip(0) =~= entries@);
    }
    while i < entries.len()
        invariant
            i <= entries.len(),
            secret_lookup(entries@, k@) == secret_lookup(entries@.skip(i as int), k@),
        decreases entries.len() - i,
    {
        proof {
            assert(entries@.skip(i as int)[0] == entries@[i as int]);
            assert(entries@.skip(i as int).skip(1) =~= entries@.skip(i as int + 1));
        }
        if entries[i].key == *k {
            return Some(i);
        }
        i = i + 1;
    }
    proof {
        assert(entries@.skip(i as int) =~= Seq::<SecretEntry>::empty());
    }
    None
}

/// Find the first provider entry for key `k`.
pub fn find_provider(entries: &Vec<ProviderEntry>, k: &String) -> (r: Option<usize>)
    ensures
        match r {
            Some(i) => i < entries.len() && entries@[i as int].key@ == k@ && provider_lookup(
                entries@,
                k@,
            ) == Some(entries@[i as int]),
            None => provider_lookup(entries@, k@) is None,
        },
{
    let mut i: usize = 0;
    proof {
        assert(entries@.skip(0) =~= entries@);
    }
    while i < entries.len()
        invariant
            i <= entries.len(),
            provider_lookup(entries@, k@) == provider_lookup(entries@.skip(i as int), k@),
        decreases entries.len() - i,
    {
        proof {
            assert(entries@.skip(i as int)[0] == entries@[i as int]);
            assert(entries@.skip(i as int).skip(1) =~= entries@.skip(i as int + 1));
        }
        if entries[i].key == *k {
            return Some(i);
        }
        i = i + 1;
    }
    proof {
        assert(entries@.skip(i as int) =~= Seq::<ProviderEntry>::empty());
    }
    None
}

/// Find the first rotation record for key `k`.
pub fn find_rotation(records: &Vec<RotationRecord>, k: &String) -> (r: Option<usize>)
    ensures
        match r {
            Some(i) => i < records.len() && records@[i as int].target@ == k@ && rotation_lookup(
                records@,
                k@,
            ) == Some(records@[i as int]),
            None => rotation_lookup(records@, k@) is None,
        },
{
    let mut i: usize = 0;
    proof {
        assert(records@.skip(0) =~= records@);
    }
    while i < records.len()
        invariant
            i <= records.len(),
            rotation_lookup(records@, k@) == rotation_lookup(records@.skip(i as int), k@),
        decreases records.len() - i,
    {
        proof {
            assert(records@.skip(i as int)[0] == records@[i as int]);
            assert(records@.skip(i as int).skip(1) =~= records@.skip(i as int + 1));
        }
        if records[i].target == *k {
            return Some(i);
        }
        i = i + 1;
    }
    proof {
        assert(records@.skip(i as int) =~= Seq::<RotationRecord>::empty());
    }
    None
}

/// Whether two byte strings hold the same bytes.
pub fn bytes_eq(a: &Vec<u8>, b: &Vec<u8>) -> (r: bool)
    ensures
        r == (a@ == b@),
{
    if a.len() != b.len() {
        return false;
    }
    let mut i: usize = 0;
    while i < a.len()
        invariant
            a.len() == b.len(),
            i <= a.len(),
            forall|j: int| 0 <= j < i ==> a@[j] == b@[j],
        decreases a.len() - i,
    {
        if a[i] != b[i] {
            return false;
        }
        i = i + 1;
    }
    proof {
        assert(a@ =~= b@);
    }
    true
}

} // verus!
