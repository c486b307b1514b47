use cloudsecrets::actions::{
    check_action_spec, effective_actions, evaluate_value, InvalidReason, PhaseResult,
};
use cloudsecrets::crds::{
    default_refresh_interval, is_strict, target_of, ActionSpec, ActionsSpec, CloudSecretSpec,
    CloudSecretStatusReason, CloudSecretStatusType, ConditionStatus, KeySpec, SourceSpec,
};
use cloudsecrets::interval::parse_interval;
use cloudsecrets::plan::{make_plan, PlanAction, PlanError};
use cloudsecrets::reconcile::{reconcile, ProviderFetch, ReconcileResult, Requeue, Supplied};
use cloudsecrets::sched::{backoff_delay, earliest_deadline, Scheduler};
use cloudsecrets::secret::{ProviderEntry, RotationRecord, SecretEntry};
use cloudsecrets::status::{find_condition, set_condition};
use cloudsecrets::crds::{CloudSecretStatus, ContainerRef};
use cloudsecrets::reconcile::{finish_status, Verdict};

fn action(
    pattern: Option<&str>,
    minimum: Option<u64>,
    maximum: Option<u64>,
) -> ActionSpec {
    ActionSpec {
        pattern: pattern.map(|p| p.to_owned()),
        container: None,
        minimum,
        maximum,
    }
}

fn key(name: &str) -> KeySpec {
    KeySpec {
        name: name.to_owned(),
        target_name: None,
        description: None,
        rotate_interval: None,
        actions: None,
    }
}

fn provider_entry(k: &str, v: &[u8], ver: &str) -> ProviderEntry {
    ProviderEntry {
        key: k.to_owned(),
        value: v.to_vec(),
        version_id: ver.to_owned(),
    }
}

fn secret_entry(k: &str, v: &[u8]) -> SecretEntry {
    SecretEntry {
        key: k.to_owned(),
        value: v.to_vec(),
    }
}

fn no_supplied() -> Supplied {
    Supplied {
        values: Vec::new(),
        verdicts: Vec::new(),
    }
}

#[test]
fn parse_interval_exact_values() {
    assert_eq!(parse_interval("3m"), Some(180));
    assert_eq!(parse_interval("1h"), Some(3600));
    assert_eq!(parse_interval("90d"), Some(90 * 86400));
    assert_eq!(parse_interval("0m"), Some(0));
    assert_eq!(parse_interval("007h"), Some(7 * 3600));
}

#[test]
fn parse_interval_rejects_malformed() {
    assert_eq!(parse_interval(""), None);
    assert_eq!(parse_interval("m"), None);
    assert_eq!(parse_interval("10"), None);
    assert_eq!(parse_interval("3x"), None);
    assert_eq!(parse_interval("1.5h"), None);
    assert_eq!(parse_interval("-3m"), None);
    assert_eq!(parse_interval("3m "), None);
}

#[test]
fn parse_interval_rejects_overflow() {
    assert_eq!(parse_interval("99999999999999999999m"), None);
    // largest that still fits: u64::MAX / 60 minutes
    assert_eq!(parse_interval("307445734561825860m"), Some(307445734561825860 * 60));
}

#[test]
fn default_refresh_is_three_minutes() {
    assert_eq!(default_refresh_interval(), Some("3m".to_owned()));
}

#[test]
fn strictness_defaults_to_false() {
    let spec = CloudSecretSpec {
        secret_name: None,
        description: None,
        source: SourceSpec { name: "db-creds".to_owned() },
        strict: None,
        keys: None,
        refresh_interval: None,
        actions: None,
    };
    assert!(!is_strict(&spec));
}

#[test]
fn target_name_falls_back_to_source_name() {
    let mut k = key("password");
    assert_eq!(target_of(&k), "password");
    k.target_name = Some("pw".to_owned());
    assert_eq!(target_of(&k), "pw");
}

#[test]
fn key_actions_override_resource_actions() {
    let resource = Some(ActionsSpec {
        create: Some(action(Some("[a-z]+"), None, None)),
        rotate: None,
        validate: Some(action(None, Some(1), Some(10))),
    });
    let mut k = key("password");
    k.actions = Some(ActionsSpec {
        create: None,
        rotate: None,
        validate: None,
    });
    // the override fully replaces the resource-level block: the key's
    // empty block wins, the resource-level validate is never consulted
    let eff = effective_actions(&resource, &k);
    let eff = eff.as_ref().unwrap();
    assert!(eff.create.is_none());
    assert!(eff.validate.is_none());
    // without an override the resource-level block applies
    let plain = key("password");
    let eff2 = effective_actions(&resource, &plain);
    assert!(eff2.as_ref().unwrap().validate.is_some());
}

#[test]
fn inconsistent_bounds_are_a_config_error() {
    let bad = action(None, Some(10), Some(5));
    assert!(!check_action_spec(&bad));
    // rejected before any evaluation, whatever the value
    assert_eq!(evaluate_value(&bad, b"0123456", None), PhaseResult::ConfigError);
}

#[test]
fn bad_pattern_is_a_config_error() {
    let bad = action(Some("["), None, None);
    assert!(!check_action_spec(&bad));
    assert_eq!(evaluate_value(&bad, b"x", None), PhaseResult::ConfigError);
}

#[test]
fn pattern_full_match_decides() {
    let a = action(Some("[0-9]+"), None, None);
    assert_eq!(evaluate_value(&a, b"12345", None), PhaseResult::Pass);
    assert_eq!(
        evaluate_value(&a, b"12a45", None),
        PhaseResult::Invalid(InvalidReason::PatternMismatch)
    );
    // a substring match is not enough: the whole value must match
    assert_eq!(
        evaluate_value(&a, b"x123", None),
        PhaseResult::Invalid(InvalidReason::PatternMismatch)
    );
}

#[test]
fn length_bounds_run_after_the_pattern() {
    let a = action(Some("[0-9]+"), Some(3), Some(4));
    assert_eq!(
        evaluate_value(&a, b"12", None),
        PhaseResult::Invalid(InvalidReason::TooShort)
    );
    assert_eq!(
        evaluate_value(&a, b"12345", None),
        PhaseResult::Invalid(InvalidReason::TooLong)
    );
    assert_eq!(evaluate_value(&a, b"123", None), PhaseResult::Pass);
    // the pattern short-circuits: a bad short value reports the pattern
    assert_eq!(
        evaluate_value(&a, b"ab", None),
        PhaseResult::Invalid(InvalidReason::PatternMismatch)
    );
}

#[test]
fn lenient_plan_never_removes() {
    let keys = vec![key("password")];
    let provider = vec![provider_entry("password", b"abc123", "v1")];
    let derived = vec![
        secret_entry("password", b"abc123"),
        secret_entry("stale", b"zzz"),
    ];
    let steps = make_plan(&None, &keys, &provider, &derived, &Vec::new(), false, 0).unwrap();
    assert_eq!(steps.len(), 1);
    assert!(steps.iter().all(|s| s.action != PlanAction::Remove));
}

#[test]
fn strict_plan_removes_undeclared_keys_last() {
    let keys = vec![key("password")];
    let provider = vec![provider_entry("password", b"abc123", "v1")];
    let derived = vec![
        secret_entry("stale", b"zzz"),
        secret_entry("password", b"abc123"),
    ];
    let steps = make_plan(&None, &keys, &provider, &derived, &Vec::new(), true, 0).unwrap();
    assert_eq!(steps.len(), 2);
    assert_eq!(steps[0].action, PlanAction::Unchanged);
    assert_eq!(steps[1].action, PlanAction::Remove);
    assert_eq!(steps[1].target, "stale");
}

#[test]
fn missing_key_aborts_the_plan() {
    let keys = vec![key("password"), key("token")];
    let provider = vec![provider_entry("password", b"abc123", "v1")];
    let r = make_plan(&None, &keys, &provider, &Vec::new(), &Vec::new(), false, 0);
    match r {
        Err(PlanError::MissingKey { key }) => assert_eq!(key, "token"),
        _ => panic!("expected MissingKey"),
    }
}

#[test]
fn missing_key_reconcile_mutates_nothing() {
    let keys = vec![key("token")];
    let provider = ProviderFetch::Fetched(vec![provider_entry("password", b"abc123", "v1")]);
    let derived = vec![secret_entry("password", b"abc123")];
    let rots: Vec<RotationRecord> = Vec::new();
    let out = reconcile(
        1,
        &None,
        false,
        &keys,
        &provider,
        &derived,
        &rots,
        &no_supplied(),
        &Vec::new(),
        1000,
        &"t0".to_owned(),
    );
    assert_eq!(out.result, ReconcileResult::Missing);
    assert!(!out.secret_write);
    assert!(out.provider_writes.is_empty());
    assert!(out.rotations.is_empty());
    let i = find_condition(&out.conditions, CloudSecretStatusType::Synced).unwrap();
    assert_eq!(out.conditions[i].status, ConditionStatus::False);
    assert_eq!(
        out.conditions[i].reason,
        Some(CloudSecretStatusReason::ProviderError)
    );
}

#[test]
fn first_sync_creates_the_secret() {
    // resource db-creds: keys ["password"], provider password=abc123,
    // derived secret absent
    let keys = vec![key("password")];
    let provider = ProviderFetch::Fetched(vec![provider_entry("password", b"abc123", "v1")]);
    let derived: Vec<SecretEntry> = Vec::new();
    let out = reconcile(
        1,
        &None,
        false,
        &keys,
        &provider,
        &derived,
        &Vec::new(),
        &no_supplied(),
        &Vec::new(),
        1000,
        &"t0".to_owned(),
    );
    assert_eq!(out.result, ReconcileResult::Synced);
    assert!(out.secret_write);
    assert_eq!(out.entries.len(), 1);
    assert_eq!(out.entries[0].key, "password");
    assert_eq!(out.entries[0].value, b"abc123".to_vec());
    assert!(out.provider_writes.is_empty());
    let s = find_condition(&out.conditions, CloudSecretStatusType::Synced).unwrap();
    assert_eq!(out.conditions[s].status, ConditionStatus::True);
    assert_eq!(
        out.conditions[s].reason,
        Some(CloudSecretStatusReason::SecretApplied)
    );
    let r = find_condition(&out.conditions, CloudSecretStatusType::Reconciling).unwrap();
    assert_eq!(out.conditions[r].status, ConditionStatus::False);
}

#[test]
fn second_sync_writes_nothing_and_keeps_transition_time() {
    let keys = vec![key("password")];
    let provider = ProviderFetch::Fetched(vec![provider_entry("password", b"abc123", "v1")]);
    let first = reconcile(
        1,
        &None,
        false,
        &keys,
        &provider,
        &Vec::new(),
        &Vec::new(),
        &no_supplied(),
        &Vec::new(),
        1000,
        &"t0".to_owned(),
    );
    assert_eq!(first.result, ReconcileResult::Synced);
    // next tick: provider unchanged, derived secret already matches
    let second = reconcile(
        1,
        &None,
        false,
        &keys,
        &provider,
        &first.entries,
        &first.rotations,
        &no_supplied(),
        &first.conditions,
        1180,
        &"t1".to_owned(),
    );
    assert_eq!(second.result, ReconcileResult::Synced);
    assert!(!second.secret_write);
    assert!(second.provider_writes.is_empty());
    let s1 = find_condition(&first.conditions, CloudSecretStatusType::Synced).unwrap();
    let s2 = find_condition(&second.conditions, CloudSecretStatusType::Synced).unwrap();
    assert_eq!(
        second.conditions[s2].last_transition_time,
        first.conditions[s1].last_transition_time
    );
    assert_eq!(
        second.conditions[s2].observed_generation,
        first.conditions[s1].observed_generation
    );
}

#[test]
fn rotation_due_rotates_and_stamps() {
    // key password rotates every 90d and was last rotated 91 days ago
    let day = 86400u64;
    let now = 200 * day;
    let mut k = key("password");
    k.rotate_interval = Some("90d".to_owned());
    let keys = vec![k];
    let provider = ProviderFetch::Fetched(vec![provider_entry("password", b"abc123", "v1")]);
    let derived = vec![secret_entry("password", b"abc123")];
    let rots = vec![RotationRecord {
        target: "password".to_owned(),
        last_rotated: now - 91 * day,
    }];
    let steps = make_plan(
        &None,
        &keys,
        &[provider_entry("password", b"abc123", "v1")].to_vec(),
        &derived,
        &rots,
        false,
        now,
    )
    .unwrap();
    assert_eq!(steps[0].action, PlanAction::Rotate);
    let supplied = Supplied {
        values: vec![secret_entry("password", b"fresh-secret")],
        verdicts: Vec::new(),
    };
    let out = reconcile(
        2,
        &None,
        false,
        &keys,
        &provider,
        &derived,
        &rots,
        &supplied,
        &Vec::new(),
        now,
        &"t-rotate".to_owned(),
    );
    assert_eq!(out.result, ReconcileResult::Synced);
    assert!(out.secret_write);
    assert_eq!(out.entries[0].value, b"fresh-secret".to_vec());
    // the new value goes back to the provider under the source key name
    assert_eq!(out.provider_writes.len(), 1);
    assert_eq!(out.provider_writes[0].key, "password");
    assert_eq!(out.provider_writes[0].value, b"fresh-secret".to_vec());
    // the rotation timestamp moves to now
    assert_eq!(out.rotations.len(), 1);
    assert_eq!(out.rotations[0].last_rotated, now);
    let ro = find_condition(&out.conditions, CloudSecretStatusType::Rotating).unwrap();
    assert_eq!(out.conditions[ro].status, ConditionStatus::False);
    assert_eq!(
        out.conditions[ro].reason,
        Some(CloudSecretStatusReason::SecretRotated)
    );
    assert_eq!(out.conditions[ro].last_transition_time, "t-rotate");
    let s = find_condition(&out.conditions, CloudSecretStatusType::Synced).unwrap();
    assert_eq!(out.conditions[s].status, ConditionStatus::True);
}

#[test]
fn provider_timeout_backs_off_without_mutation() {
    let keys = vec![key("password")];
    let derived = vec![secret_entry("password", b"abc123")];
    let out = reconcile(
        1,
        &None,
        false,
        &keys,
        &ProviderFetch::TimedOut,
        &derived,
        &Vec::new(),
        &no_supplied(),
        &Vec::new(),
        1000,
        &"t0".to_owned(),
    );
    assert_eq!(out.result, ReconcileResult::SourceUnavailable);
    assert!(!out.secret_write);
    assert!(out.provider_writes.is_empty());
    assert_eq!(out.requeue, Requeue::Backoff);
    let r = find_condition(&out.conditions, CloudSecretStatusType::Reconciling).unwrap();
    assert_eq!(out.conditions[r].status, ConditionStatus::True);
    assert_eq!(
        out.conditions[r].reason,
        Some(CloudSecretStatusReason::SourceUnavailable)
    );
}

#[test]
fn strict_mode_applies_atomically() {
    let mut k = key("password");
    k.actions = Some(ActionsSpec {
        create: None,
        rotate: None,
        validate: Some(action(Some("[0-9]+"), None, None)),
    });
    let keys = vec![k, key("token")];
    let provider = ProviderFetch::Fetched(vec![
        provider_entry("password", b"not-digits", "v1"),
        provider_entry("token", b"tok", "v1"),
    ]);
    let out = reconcile(
        1,
        &None,
        true,
        &keys,
        &provider,
        &Vec::new(),
        &Vec::new(),
        &no_supplied(),
        &Vec::new(),
        1000,
        &"t0".to_owned(),
    );
    assert_eq!(out.result, ReconcileResult::Invalid);
    assert!(!out.secret_write);
    assert!(out.provider_writes.is_empty());
    let s = find_condition(&out.conditions, CloudSecretStatusType::Synced).unwrap();
    assert_eq!(
        out.conditions[s].reason,
        Some(CloudSecretStatusReason::ValidationFailed)
    );
}

#[test]
fn lenient_mode_applies_unrelated_keys() {
    let mut k = key("password");
    k.actions = Some(ActionsSpec {
        create: None,
        rotate: None,
        validate: Some(action(Some("[0-9]+"), None, None)),
    });
    let keys = vec![k, key("token")];
    let provider = ProviderFetch::Fetched(vec![
        provider_entry("password", b"not-digits", "v1"),
        provider_entry("token", b"tok", "v1"),
    ]);
    let out = reconcile(
        1,
        &None,
        false,
        &keys,
        &provider,
        &Vec::new(),
        &Vec::new(),
        &no_supplied(),
        &Vec::new(),
        1000,
        &"t0".to_owned(),
    );
    assert_eq!(out.result, ReconcileResult::Invalid);
    // the invalid key has no previous value and is left out; the healthy
    // key is applied
    assert!(out.secret_write);
    assert_eq!(out.entries.len(), 1);
    assert_eq!(out.entries[0].key, "token");
}

#[test]
fn bad_config_is_terminal_and_mutates_nothing() {
    let mut k = key("password");
    k.actions = Some(ActionsSpec {
        create: None,
        rotate: None,
        validate: Some(action(None, Some(10), Some(5))),
    });
    let keys = vec![k];
    let provider = ProviderFetch::Fetched(vec![provider_entry("password", b"abc123", "v1")]);
    let out = reconcile(
        1,
        &None,
        false,
        &keys,
        &provider,
        &Vec::new(),
        &Vec::new(),
        &no_supplied(),
        &Vec::new(),
        1000,
        &"t0".to_owned(),
    );
    assert_eq!(out.result, ReconcileResult::Config);
    assert!(!out.secret_write);
    assert!(out.provider_writes.is_empty());
    let s = find_condition(&out.conditions, CloudSecretStatusType::Synced).unwrap();
    assert_eq!(
        out.conditions[s].reason,
        Some(CloudSecretStatusReason::ValidationFailed)
    );
}

#[test]
fn set_condition_replaces_by_type_and_keeps_time_when_unchanged() {
    let mut conds = Vec::new();
    set_condition(
        &mut conds,
        CloudSecretStatusType::Synced,
        ConditionStatus::True,
        Some(CloudSecretStatusReason::SecretApplied),
        &"synced".to_owned(),
        1,
        &"t0".to_owned(),
    );
    assert_eq!(conds.len(), 1);
    assert_eq!(conds[0].last_transition_time, "t0");
    // same status and reason: only the generation moves
    set_condition(
        &mut conds,
        CloudSecretStatusType::Synced,
        ConditionStatus::True,
        Some(CloudSecretStatusReason::SecretApplied),
        &"synced again".to_owned(),
        2,
        &"t1".to_owned(),
    );
    assert_eq!(conds.len(), 1);
    assert_eq!(conds[0].last_transition_time, "t0");
    assert_eq!(conds[0].observed_generation, 2);
    // a status change rewrites the transition time
    set_condition(
        &mut conds,
        CloudSecretStatusType::Synced,
        ConditionStatus::False,
        Some(CloudSecretStatusReason::SourceUnavailable),
        &"lost".to_owned(),
        3,
        &"t2".to_owned(),
    );
    assert_eq!(conds.len(), 1);
    assert_eq!(conds[0].last_transition_time, "t2");
}

#[test]
fn scheduler_coalesces_ticks() {
    let mut s = Scheduler::new();
    let id = "default/db-creds".to_owned();
    s.arm(&id, 100);
    assert!(!s.on_tick(&id, 50));
    assert!(s.on_tick(&id, 100));
    // a second tick while the first reconciliation runs is coalesced
    assert!(!s.on_tick(&id, 120));
    s.complete(&id, 280);
    assert!(!s.on_tick(&id, 200));
    assert!(s.on_tick(&id, 280));
}

#[test]
fn scheduler_cancel_drops_the_timer() {
    let mut s = Scheduler::new();
    let id = "default/db-creds".to_owned();
    s.arm(&id, 100);
    s.cancel(&id);
    assert!(!s.on_tick(&id, 500));
    // completing after deletion does not resurrect the timer
    s.complete(&id, 600);
    assert!(!s.on_tick(&id, 700));
}

#[test]
fn scheduler_rearms_on_spec_change() {
    let mut s = Scheduler::new();
    let id = "default/db-creds".to_owned();
    s.arm(&id, 1000);
    // the spec's intervals changed: re-arm immediately
    s.arm(&id, 300);
    assert!(s.on_tick(&id, 300));
}

#[test]
fn earliest_deadline_picks_the_minimum() {
    assert_eq!(earliest_deadline(500, &vec![700, 300, 900]), 300);
    assert_eq!(earliest_deadline(200, &vec![700, 300]), 200);
    assert_eq!(earliest_deadline(200, &Vec::new()), 200);
}

#[test]
fn backoff_doubles_and_caps_at_refresh() {
    assert_eq!(backoff_delay(0, 180), 5);
    assert_eq!(backoff_delay(1, 180), 10);
    assert_eq!(backoff_delay(3, 180), 40);
    assert_eq!(backoff_delay(10, 180), 180);
    assert_eq!(backoff_delay(60, 100000000), 5 * 1048576);
}

#[test]
fn mirror_mode_takes_every_provider_key() {
    // a spec with no key list mirrors the whole provider secret
    let provider_entries = vec![
        provider_entry("user", b"admin", "v1"),
        provider_entry("password", b"abc123", "v1"),
    ];
    let keys = cloudsecrets::reconcile::mirror_keys(&provider_entries);
    assert_eq!(keys.len(), 2);
    assert_eq!(keys[0].name, "user");
    assert_eq!(keys[1].name, "password");
    let out = reconcile(
        1,
        &None,
        false,
        &keys,
        &ProviderFetch::Fetched(provider_entries),
        &Vec::new(),
        &Vec::new(),
        &no_supplied(),
        &Vec::new(),
        1000,
        &"t0".to_owned(),
    );
    assert_eq!(out.result, ReconcileResult::Synced);
    assert_eq!(out.entries.len(), 2);
    assert_eq!(out.entries[0].key, "user");
    assert_eq!(out.entries[1].key, "password");
}

#[test]
fn outstanding_validator_verdict_is_pending_then_synced() {
    let mut k = key("password");
    k.actions = Some(ActionsSpec {
        create: None,
        rotate: None,
        validate: Some(ActionSpec {
            pattern: None,
            container: Some(ContainerRef {
                name: "checker".to_owned(),
                image: "registry.example/checker:1".to_owned(),
            }),
            minimum: None,
            maximum: None,
        }),
    });
    let keys = vec![k];
    let provider = ProviderFetch::Fetched(vec![provider_entry("password", b"abc123", "v1")]);
    // no verdict yet: the pass must wait and mutate nothing
    let out = reconcile(
        1,
        &None,
        false,
        &keys,
        &provider,
        &Vec::new(),
        &Vec::new(),
        &no_supplied(),
        &Vec::new(),
        1000,
        &"t0".to_owned(),
    );
    assert_eq!(out.result, ReconcileResult::Pending);
    assert!(!out.secret_write);
    assert!(out.provider_writes.is_empty());
    assert_eq!(out.requeue, Requeue::Backoff);
    // the validator accepted: the pass completes
    let supplied = Supplied {
        values: Vec::new(),
        verdicts: vec![Verdict {
            target: "password".to_owned(),
            pass: true,
        }],
    };
    let out2 = reconcile(
        1,
        &None,
        false,
        &keys,
        &provider,
        &Vec::new(),
        &Vec::new(),
        &supplied,
        &Vec::new(),
        1010,
        &"t1".to_owned(),
    );
    assert_eq!(out2.result, ReconcileResult::Synced);
    assert!(out2.secret_write);
    // the validator rejected: the key is invalid
    let rejected = Supplied {
        values: Vec::new(),
        verdicts: vec![Verdict {
            target: "password".to_owned(),
            pass: false,
        }],
    };
    let out3 = reconcile(
        1,
        &None,
        false,
        &keys,
        &provider,
        &Vec::new(),
        &Vec::new(),
        &rejected,
        &Vec::new(),
        1020,
        &"t2".to_owned(),
    );
    assert_eq!(out3.result, ReconcileResult::Invalid);
}

#[test]
fn finish_status_names_the_secret_and_stamps_sync_time() {
    let prev = CloudSecretStatus {
        target_secret_name: String::new(),
        conditions: Vec::new(),
        last_sync_time: Some("t-old".to_owned()),
        version_id: Some("v1".to_owned()),
    };
    let s = finish_status(
        &None,
        &"db-creds".to_owned(),
        Vec::new(),
        true,
        &"t-new".to_owned(),
        &prev,
    );
    assert_eq!(s.target_secret_name, "db-creds");
    assert_eq!(s.last_sync_time, Some("t-new".to_owned()));
    assert_eq!(s.version_id, Some("v1".to_owned()));
    let s2 = finish_status(
        &Some("custom".to_owned()),
        &"db-creds".to_owned(),
        Vec::new(),
        false,
        &"t-new".to_owned(),
        &prev,
    );
    assert_eq!(s2.target_secret_name, "custom");
    assert_eq!(s2.last_sync_time, Some("t-old".to_owned()));
}
