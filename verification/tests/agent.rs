use ironclaw::agent::{
    apply_detection_filters, apply_policy_update, startup_policy, StoredPolicy, decide_role_change, finish_role_change, intake,
    plan_shipment, policy_follow_up, PolicyFollowUp, RegistrationRetry, RetryStep, RoleDecision,
    ShipPlan,
};
use ironclaw::config::BackendConfig;
use ironclaw::event::{Event, EventType, Payload, PayloadValue};
use ironclaw::policy::{DetectionFilter, InvariantRule, Policy};

fn filter(field: &str, pattern: &str, action: &str) -> DetectionFilter {
    DetectionFilter {
        name: "f".to_string(),
        match_field: field.to_string(),
        pattern: pattern.to_string(),
        action: action.to_string(),
    }
}

fn event(pairs: &[(&str, &str)]) -> Event {
    let mut p = Payload::new();
    for (k, v) in pairs {
        p.insert_text(k, v);
    }
    Event::new("collector", EventType::Process, "sysmon", Some(1), p)
}

#[test]
fn block_filter_on_command_line_drops_case_insensitively() {
    let e = event(&[("CommandLine", "PowerShell -EncodedCommand AAA")]);
    assert!(apply_detection_filters(&e, &[filter("cmdline", "-encodedcommand", "block")]));
    assert!(apply_detection_filters(&e, &[filter("CommandLine", "POWERSHELL", "block")]));
}

#[test]
fn flag_and_unknown_actions_do_not_drop() {
    let e = event(&[("CommandLine", "mimikatz")]);
    assert!(!apply_detection_filters(&e, &[filter("cmdline", "mimi", "flag")]));
    assert!(!apply_detection_filters(&e, &[filter("cmdline", "mimi", "Block")]));
    assert!(apply_detection_filters(
        &e,
        &[filter("cmdline", "mimi", "flag"), filter("cmdline", "katz", "block")]
    ));
}

#[test]
fn cmdline_key_is_used_only_without_command_line() {
    let e = event(&[("cmdline", "evil.exe")]);
    assert!(apply_detection_filters(&e, &[filter("cmdline", "evil", "block")]));
    let mut p = Payload::new();
    p.insert("CommandLine", PayloadValue::Unsigned(1));
    p.insert_text("cmdline", "evil.exe");
    let e = Event::new("c", EventType::Process, "sysmon", Some(1), p);
    assert!(!apply_detection_filters(&e, &[filter("cmdline", "evil", "block")]));
}

#[test]
fn image_filter_and_unknown_fields() {
    let e = event(&[("Image", "C:\\Tools\\NC.EXE")]);
    assert!(apply_detection_filters(&e, &[filter("image", "nc.exe", "block")]));
    assert!(apply_detection_filters(&e, &[filter("Image", "tools", "block")]));
    assert!(!apply_detection_filters(&e, &[filter("path", "tools", "block")]));
}

#[test]
fn empty_field_never_matches_even_empty_pattern() {
    let e = event(&[]);
    assert!(!apply_detection_filters(&e, &[filter("cmdline", "", "block")]));
    let e = event(&[("CommandLine", "x")]);
    assert!(apply_detection_filters(&e, &[filter("cmdline", "", "block")]));
}

#[test]
fn intake_tags_or_drops() {
    let filters = vec![filter("cmdline", "evil", "block")];
    let kept = intake(event(&[("CommandLine", "good.exe")]), &filters, "agent-42").unwrap();
    assert_eq!(kept.agent_id, "agent-42");
    assert_eq!(kept.payload.text("CommandLine"), "good.exe");
    assert!(intake(event(&[("CommandLine", "evil.exe")]), &filters, "agent-42").is_none());
}

#[test]
fn policy_update_with_bad_hash_is_refused() {
    let mut current = Policy::default();
    let mut update = Policy::default();
    update.version = 5;
    update.hash = "sha256:00".to_string();
    let r = apply_policy_update(&mut current, update, b"");
    assert!(r.unwrap_err().starts_with("Policy hash mismatch"));
    assert_eq!(current.version, 1);
}

#[test]
fn policy_update_is_applied_with_invariants_enforced() {
    let mut current = Policy::default();
    let mut update = Policy::default();
    update.version = 5;
    update.collection.dll_events_enabled = true;
    update.invariants.lsass_access = InvariantRule { enabled: false };
    let diff = apply_policy_update(&mut current, update, b"{}").unwrap();
    assert_eq!(
        diff,
        vec!["version: 1 → 5".to_string(), "dll_events_enabled: false → true".to_string()]
    );
    assert_eq!(current.version, 5);
    assert!(current.collection.dll_events_enabled);
    assert!(current.invariants.lsass_access.enabled);
}

#[test]
fn follow_up_after_heartbeat() {
    assert_eq!(policy_follow_up(true, true), PolicyFollowUp::FromHeartbeat);
    assert_eq!(policy_follow_up(true, false), PolicyFollowUp::FromHeartbeat);
    assert_eq!(policy_follow_up(false, true), PolicyFollowUp::Fetch);
    assert_eq!(policy_follow_up(false, false), PolicyFollowUp::Nothing);
}

#[test]
fn role_assignment_decisions() {
    match decide_role_change("default", "x", Err("bad role".to_string())) {
        RoleDecision::Rejected(m) => assert_eq!(m, "backend sent invalid role: bad role"),
        other => panic!("unexpected {:?}", other),
    }
    assert!(matches!(decide_role_change("analyst", "analyst", Ok(())), RoleDecision::Unchanged));
    assert!(matches!(decide_role_change("default", "analyst", Ok(())), RoleDecision::Change));
}

#[test]
fn role_change_reverts_when_not_persisted() {
    let (role, r) = finish_role_change("default", "analyst", Ok(()));
    assert_eq!(role, "analyst");
    assert_eq!(r, Ok(true));
    let (role, r) = finish_role_change("default", "analyst", Err("disk full".to_string()));
    assert_eq!(role, "default");
    assert_eq!(
        r,
        Err("persistence failed for role 'default' -> 'analyst': disk full. Reverted in-memory."
            .to_string())
    );
}

#[test]
fn registration_backoff_doubles_then_gives_up() {
    let cfg = BackendConfig {
        url: "http://hq".to_string(),
        heartbeat_interval_secs: 60,
        max_retries: 3,
        retry_delay_secs: 5,
        timeout_secs: 30,
    };
    let mut r = RegistrationRetry::new(&cfg);
    let mut waits = Vec::new();
    loop {
        match r.on_failure(cfg.max_retries, "connection refused") {
            RetryStep::Wait(s) => waits.push(s),
            RetryStep::GiveUp(m) => {
                assert_eq!(m, "Registration failed after 3 retries: connection refused");
                break;
            }
        }
    }
    assert_eq!(waits, vec![5, 10, 20]);
}

#[test]
fn registration_without_retries_gives_up_at_once() {
    let mut r = RegistrationRetry { backoff_secs: 5, retries: 0 };
    assert!(matches!(r.on_failure(0, "e"), RetryStep::GiveUp(_)));
    assert_eq!(r, RegistrationRetry { backoff_secs: 5, retries: 0 });
}

fn numbered(n: u64) -> Event {
    let mut p = Payload::new();
    p.insert_unsigned("n", n);
    Event::new("a", EventType::Process, "sysmon", Some(1), p)
}

fn nums(v: &[Event]) -> Vec<u64> {
    v.iter().map(|e| e.payload.number("n").unwrap()).collect()
}

#[test]
fn shipment_plans() {
    assert!(matches!(plan_shipment(vec![], 10), ShipPlan::Idle));
    match plan_shipment(vec![numbered(1), numbered(2)], 0) {
        ShipPlan::Hold(b) => assert_eq!(nums(&b), vec![1, 2]),
        _ => panic!("expected hold"),
    }
    match plan_shipment(vec![numbered(1), numbered(2), numbered(3)], 2) {
        ShipPlan::Ship { to_ship, remainder } => {
            assert_eq!(nums(&to_ship), vec![1, 2]);
            assert_eq!(nums(&remainder), vec![3]);
        }
        _ => panic!("expected ship"),
    }
    match plan_shipment(vec![numbered(1)], 100) {
        ShipPlan::Ship { to_ship, remainder } => {
            assert_eq!(nums(&to_ship), vec![1]);
            assert!(remainder.is_empty());
        }
        _ => panic!("expected ship"),
    }
}


#[test]
fn startup_prefers_stored_policy() {
    let mut stored = Policy::default();
    stored.version = 7;
    let mut from_identity = Policy::default();
    from_identity.version = 3;
    let (p, write) = startup_policy(StoredPolicy::Parsed(stored), from_identity.clone());
    assert_eq!((p.version, write), (7, false));
    let (p, write) = startup_policy(StoredPolicy::Unreadable, from_identity.clone());
    assert_eq!((p.version, write), (3, false));
    let (p, write) = startup_policy(StoredPolicy::Missing, from_identity);
    assert_eq!((p.version, write), (3, true));
}
