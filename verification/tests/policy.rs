use ironclaw::policy::{
    DetectionFilter, InvariantRule, Policy, PolicyCollection, PolicyFetchResponse,
    PolicyInvariants, PolicyRateLimits,
};

#[test]
fn default_policy_values() {
    let p = Policy::default();
    assert_eq!(p.version, 1);
    assert_eq!(p.hash, "");
    assert!(p.invariants.lsass_access.enabled);
    assert!(p.invariants.unsigned_drivers.enabled);
    assert!(p.invariants.credential_dumping.enabled);
    assert_eq!(p.collection.sysmon_events, vec![1, 3, 7, 8, 10, 11, 12, 13, 22, 23]);
    assert_eq!(p.collection.security_events, vec![4624, 4625, 4672, 4688, 4720]);
    assert!(p.collection.powershell_logging);
    assert!(!p.collection.dll_events_enabled);
    assert!(p.collection.file_events.enabled);
    assert_eq!(p.collection.file_events.path_filters, vec!["C:\\Windows\\Temp\\*".to_string()]);
    assert_eq!(p.rate_limits.events_per_second, 1000);
    assert_eq!(p.rate_limits.network_events_per_second, 200);
    assert!(p.detection_filters.is_empty());
}

#[test]
fn enforce_invariants_turns_every_rule_back_on() {
    let mut p = Policy::default();
    p.invariants = PolicyInvariants {
        lsass_access: InvariantRule { enabled: false },
        unsigned_drivers: InvariantRule { enabled: false },
        credential_dumping: InvariantRule { enabled: false },
    };
    p.version = 9;
    p.enforce_invariants();
    assert!(p.invariants.lsass_access.enabled);
    assert!(p.invariants.unsigned_drivers.enabled);
    assert!(p.invariants.credential_dumping.enabled);
    assert_eq!(p.version, 9);
}

#[test]
fn diff_of_identical_policies_is_empty() {
    let a = Policy::default();
    let b = Policy::default();
    assert!(a.diff_summary(&b).is_empty());
}

#[test]
fn diff_lists_each_changed_field_in_order() {
    let a = Policy::default();
    let mut b = Policy::default();
    b.version = 2;
    b.collection.dll_events_enabled = true;
    b.collection.powershell_logging = false;
    b.rate_limits = PolicyRateLimits { events_per_second: 50, network_events_per_second: 200 };
    b.collection.sysmon_events = vec![1, 3];
    assert_eq!(
        a.diff_summary(&b),
        vec![
            "version: 1 → 2".to_string(),
            "dll_events_enabled: false → true".to_string(),
            "powershell_logging: true → false".to_string(),
            "events_per_second: 1000 → 50".to_string(),
            "sysmon_events: [1, 3, 7, 8, 10, 11, 12, 13, 22, 23] → [1, 3]".to_string(),
        ]
    );
}

#[test]
fn diff_ignores_fields_it_does_not_report() {
    let a = Policy::default();
    let mut b = Policy::default();
    b.hash = "sha256:abc".to_string();
    b.collection.security_events = vec![];
    b.detection_filters.push(DetectionFilter {
        name: "n".to_string(),
        match_field: "cmdline".to_string(),
        pattern: "x".to_string(),
        action: "block".to_string(),
    });
    assert!(a.diff_summary(&b).is_empty());
}

#[test]
fn diff_of_empty_sysmon_list() {
    let a = Policy::default();
    let mut b = Policy::default();
    b.collection = PolicyCollection::default();
    b.collection.sysmon_events = vec![];
    assert_eq!(
        a.diff_summary(&b),
        vec!["sysmon_events: [1, 3, 7, 8, 10, 11, 12, 13, 22, 23] → []".to_string()]
    );
}

#[test]
fn compute_hash_is_sha256_of_canonical_json() {
    let p = Policy::default();
    assert_eq!(
        p.compute_hash(b""),
        "sha256:e3b0c44298fc1c149afbf4c8996fb92427ae41e4649b934ca495991b7852b855"
    );
    assert_eq!(
        p.compute_hash(b"{\"a\":1}"),
        "sha256:015abd7f5cc57a2dd94b7590f04ad8084273905ee33ec5cebeae62276a97f862"
    );
}

#[test]
fn empty_hash_always_validates() {
    let p = Policy::default();
    assert_eq!(p.validate_hash(b"anything"), Ok(()));
}

#[test]
fn matching_hash_validates() {
    let mut p = Policy::default();
    p.hash = "sha256:015abd7f5cc57a2dd94b7590f04ad8084273905ee33ec5cebeae62276a97f862".to_string();
    assert_eq!(p.validate_hash(b"{\"a\":1}"), Ok(()));
}

#[test]
fn wrong_hash_is_rejected_with_both_values() {
    let mut p = Policy::default();
    p.hash = "sha256:00".to_string();
    assert_eq!(
        p.validate_hash(b""),
        Err("Policy hash mismatch: received 'sha256:00', computed \
             'sha256:e3b0c44298fc1c149afbf4c8996fb92427ae41e4649b934ca495991b7852b855'"
            .to_string())
    );
}

#[test]
fn fetch_response_is_current_only_for_current() {
    let r = PolicyFetchResponse { status: "current".to_string(), policy: None };
    assert!(r.is_current());
    let r = PolicyFetchResponse { status: "updated".to_string(), policy: Some(Policy::default()) };
    assert!(!r.is_current());
    let r = PolicyFetchResponse { status: "Current".to_string(), policy: None };
    assert!(!r.is_current());
}
