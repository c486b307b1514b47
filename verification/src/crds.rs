//! Canonical data model for the `CloudSecret` and `CloudSecretProvider`
//! resources.
//!
//! The engine works on this one model; the platform-facing schema copies
//! (with their serialization derives) live outside the verified library and
//! convert to and from these types.

use vstd::prelude::*;

verus! {

/// Status of a condition: the platform's three-valued condition status.
#[derive(Clone, Copy, Debug, PartialEq, Eq, Structural)]
pub enum ConditionStatus {
    True,
    False,
    Unknown,
}

/// Condition types a `CloudSecret` can report, one per reconciliation phase.
#[derive(Clone, Copy, Debug, PartialEq, Eq, Structural)]
pub enum CloudSecretStatusType {
    Synced,
    Reconciling,
    Applying,
    Rotating,
    Validating,
}

/// Reasons recorded on a `CloudSecret` condition transition.
#[derive(Clone, Copy, Debug, PartialEq, Eq, Structural)]
pub enum CloudSecretStatusReason {
    ValidationSucceeded,
    ValidationFailed,
    SecretApplied,
    SecretRotated,
    SourceUnavailable,
    ProviderError,
}

/// Condition types a `CloudSecretProvider` can report.
#[derive(Clone, Copy, Debug, PartialEq, Eq, Structural)]
pub enum CloudSecretProviderStatusType {
    Ready,
    Reconciling,
}

/// Reasons recorded on a `CloudSecretProvider` condition transition.
#[derive(Clone, Copy, Debug, PartialEq, Eq, Structural)]
pub enum CloudSecretProviderStatusReason {
    AuthenticationSucceeded,
    AuthenticationFailed,
}

/// Default refresh interval applied when a spec does not set one.
pub fn default_refresh_interval() -> (r: Option<String>)
    ensures
        r is Some,
        r->0@ == "3m"@,
{
    Some("3m".to_owned())
}

/// Identifier of the secret in the source provider.
#[derive(Debug, Clone)]
pub struct SourceSpec {
    /// Identifier used in the source provider.
    pub name: String,
}

/// Reference to an external validator, reduced to the plain values the
/// engine reads; running the container itself is the caller's concern.
#[derive(Debug, Clone)]
pub struct ContainerRef {
    /// Name of the validator container.
    pub name: String,
    /// Image the validator runs.
    pub image: String,
}

/// One action policy: a regex pattern, an external validator reference,
/// or length bounds on the value. The alternatives may be combined; the
/// pattern or validator is consulted first, length bounds last.
#[derive(Debug, Clone)]
pub struct ActionSpec {
    /// Regex pattern for the key's value.
    pub pattern: Option<String>,
    /// Reference to external validation logic for the key.
    pub container: Option<ContainerRef>,
    /// Minimum length in bytes for the key's value.
    pub minimum: Option<u64>,
    /// Maximum length in bytes for the key's value.
    pub maximum: Option<u64>,
}

/// Actions for the three phases of a key's lifecycle.
#[derive(Debug, Clone)]
pub struct ActionsSpec {
    /// If the key isn't present in the provider, create it.
    pub create: Option<ActionSpec>,
    /// Rotate the key at its rotation interval.
    pub rotate: Option<ActionSpec>,
    /// Validate the key's value.
    pub validate: Option<ActionSpec>,
}

/// One key to mirror from the provider into the derived secret.
#[derive(Debug, Clone)]
pub struct KeySpec {
    /// Name of the key in the source provider.
    pub name: String,
    /// Optional new name to use in the derived secret.
    pub target_name: Option<String>,
    /// Description of the key.
    pub description: Option<String>,
    /// Rotation interval for this key, e.g. `90d`.
    pub rotate_interval: Option<String>,
    /// Actions for this key; when present they fully replace the
    /// resource-level actions for this key.
    pub actions: Option<ActionsSpec>,
}

/// Desired state of a `CloudSecret` resource.
#[derive(Debug, Clone)]
pub struct CloudSecretSpec {
    /// Optional name for the derived secret; the resource name is used
    /// when absent.
    pub secret_name: Option<String>,
    /// Description of the secret.
    pub description: Option<String>,
    /// Where the secret data comes from.
    pub source: SourceSpec,
    /// Whether the derived secret must hold exactly the declared keys.
    pub strict: Option<bool>,
    /// Keys to mirror; when absent, every provider key is mirrored under
    /// its own name.
    pub keys: Option<Vec<KeySpec>>,
    /// Refresh interval, e.g. `3m` or `1h`.
    pub refresh_interval: Option<String>,
    /// Resource-level actions, applied to every key without an override.
    pub actions: Option<ActionsSpec>,
}

/// One recorded condition of a `CloudSecret`.
#[derive(Debug, Clone)]
pub struct CloudSecretStatusCondition {
    /// Type of the condition.
    pub type_: CloudSecretStatusType,
    /// Status of the condition.
    pub status: ConditionStatus,
    /// Generation observed when the condition was set.
    pub observed_generation: i64,
    /// Last time this condition transitioned.
    pub last_transition_time: String,
    /// Human-readable message about the transition.
    pub message: String,
    /// Reason for the condition's last transition.
    pub reason: Option<CloudSecretStatusReason>,
}

/// Mutable status of a `CloudSecret`, owned by the reconciler.
#[derive(Debug, Clone)]
pub struct CloudSecretStatus {
    /// Name of the managed derived secret.
    pub target_secret_name: String,
    /// Conditions describing the current state, at most one per type.
    pub conditions: Vec<CloudSecretStatusCondition>,
    /// Last time the secret was successfully synced.
    pub last_sync_time: Option<String>,
    /// Fingerprint of the source versions of the last successful sync.
    pub version_id: Option<String>,
}

/// IRSA (workload identity) binding for provider authentication.
#[derive(Debug, Clone)]
pub struct IrsaConfig {
    /// Name of the service account to use.
    pub secret_name: Option<String>,
    /// Role to assume.
    pub role_arn: Option<String>,
}

/// Authentication configuration for the managed secrets store.
#[derive(Debug, Clone)]
pub struct AwsAuthConfig {
    /// Optional name of a local credential object.
    pub secret_name: Option<String>,
    /// Optional workload-identity binding.
    pub irsa: Option<IrsaConfig>,
}

/// Provider kinds and their configuration.
#[derive(Debug, Clone)]
pub enum ProviderSpec {
    /// Configuration for the managed secrets store.
    AwsSecretsManager {
        /// Store region.
        region: String,
        /// Optional authentication configuration.
        auth: Option<AwsAuthConfig>,
    },
}

/// Desired state of a `CloudSecretProvider` resource.
#[derive(Debug, Clone)]
pub struct CloudSecretProviderSpec {
    /// Description of the provider.
    pub description: Option<String>,
    /// Configuration for the secrets provider.
    pub provider: ProviderSpec,
}

/// One recorded condition of a `CloudSecretProvider`.
#[derive(Debug, Clone)]
pub struct CloudSecretProviderStatusCondition {
    /// Type of the condition.
    pub type_: CloudSecretProviderStatusType,
    /// Status of the condition.
    pub status: ConditionStatus,
    /// Generation observed when the condition was set.
    pub observed_generation: i64,
    /// Last time this condition transitioned.
    pub last_transition_time: String,
    /// Human-readable message about the transition.
    pub message: String,
    /// Reason for the condition's last transition.
    pub reason: Option<CloudSecretProviderStatusReason>,
}

/// Mutable status of a `CloudSecretProvider`.
#[derive(Debug, Clone)]
pub struct CloudSecretProviderStatus {
    /// Conditions describing the current state, at most one per type.
    pub conditions: Vec<CloudSecretProviderStatusCondition>,
}

/// The name a key takes in the derived secret: the declared target name,
/// or the source name when none is declared.
pub open spec fn key_target(k: KeySpec) -> Seq<char> {
    match k.target_name {
        Some(t) => t@,
        None => k.name@,
    }
}

/// Whether the spec asks for strict mirroring.
pub open spec fn spec_strict(s: CloudSecretSpec) -> bool {
    s.strict == Some(true)
}

/// The name a key takes in the derived secret.
pub fn target_of(k: &KeySpec) -> (r: &String)
    ensures
        r@ == key_target(*k),
{
    match &k.target_name {
        Some(t) => t,
        None => &k.name,
    }
}

/// Whether the spec asks for strict mirroring.
pub fn is_strict(s: &CloudSecretSpec) -> (r: bool)
    ensures
        r == spec_strict(*s),
{
    match s.strict {
        Some(b) => b,
        None => false,
    }
}

} // verus!
