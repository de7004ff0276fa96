use ironclaw::event::{Event, EventType, Payload, PayloadValue};
use ironclaw::policy::{InvariantRule, PolicyInvariants};
use ironclaw::risk::{classify, risk_flags_for, InvariantViolation, RiskFlag};

fn proc_event(payload: Payload) -> Event {
    Event::new("test-agent", EventType::Process, "sysmon", Some(1), payload)
}

fn payload(pairs: &[(&str, &str)]) -> Payload {
    let mut p = Payload::new();
    for (k, v) in pairs {
        p.insert_text(k, v);
    }
    p
}

#[test]
fn flags_encoded_powershell() {
    let mut ev = proc_event(payload(&[
        (
            "Image",
            "C:\\Windows\\System32\\WindowsPowerShell\\v1.0\\powershell.exe",
        ),
        (
            "CommandLine",
            "powershell.exe -nop -w hidden -enc SQBFAFgAIAA=",
        ),
    ]));
    classify(&mut ev, &PolicyInvariants::default());
    assert!(ev.risk_flags.contains(&RiskFlag::EncodedCommandLine));
    assert!(ev.risk_flags.contains(&RiskFlag::SuspiciousArguments));
    assert!(ev.risk_score > 0);
}

#[test]
fn flags_temp_executable() {
    let mut ev = proc_event(payload(&[
        ("Image", "C:\\Users\\ahmed\\AppData\\Local\\Temp\\setup.exe"),
        ("CommandLine", "setup.exe"),
    ]));
    classify(&mut ev, &PolicyInvariants::default());
    assert!(ev.risk_flags.contains(&RiskFlag::ExecutableInTemp));
    assert!(ev.risk_flags.contains(&RiskFlag::PathUserWritable));
}

#[test]
fn no_flags_for_signed_system_binary() {
    let mut ev = proc_event(payload(&[
        ("Image", "C:\\Windows\\System32\\svchost.exe"),
        ("CommandLine", "svchost.exe -k netsvcs"),
        ("Signed", "true"),
    ]));
    classify(&mut ev, &PolicyInvariants::default());
    assert!(ev.risk_flags.is_empty());
    assert_eq!(ev.risk_score, 0);
}

#[test]
fn invariant_lsass_access() {
    let mut ev = Event::new(
        "test-agent",
        EventType::ProcessAccess,
        "sysmon",
        Some(10),
        payload(&[
            ("SourceImage", "C:\\Users\\ahmed\\Downloads\\tool.exe"),
            ("TargetImage", "C:\\Windows\\System32\\lsass.exe"),
            ("GrantedAccess", "0x1410"),
        ]),
    );
    classify(&mut ev, &PolicyInvariants::default());
    assert_eq!(ev.risk_score, 100);
    assert!(matches!(
        ev.invariant_violation,
        Some(InvariantViolation::LsassAccess { .. })
    ));
}

#[test]
fn invariant_unsigned_driver() {
    let mut ev = Event::new(
        "test-agent",
        EventType::DriverLoad,
        "sysmon",
        Some(6),
        payload(&[
            ("ImageLoaded", "C:\\Windows\\Temp\\bad.sys"),
            ("Signed", "false"),
        ]),
    );
    classify(&mut ev, &PolicyInvariants::default());
    assert_eq!(ev.risk_score, 100);
    assert!(matches!(
        ev.invariant_violation,
        Some(InvariantViolation::UnsignedDriver { .. })
    ));
}

#[test]
fn invariant_mimikatz_cmdline() {
    let mut ev = proc_event(payload(&[
        ("Image", "C:\\Users\\ahmed\\Downloads\\m.exe"),
        ("CommandLine", "m.exe mimikatz sekurlsa::logonpasswords"),
    ]));
    classify(&mut ev, &PolicyInvariants::default());
    assert_eq!(ev.risk_score, 100);
    assert!(matches!(
        ev.invariant_violation,
        Some(InvariantViolation::CredentialDumping { .. })
    ));
}

#[test]
fn rare_port_flagged() {
    let mut p = Payload::new();
    p.insert_text("Image", "C:\\Windows\\System32\\svchost.exe");
    p.insert_unsigned("DestinationPort", 4444);
    let mut ev = Event::new("test-agent", EventType::Network, "sysmon", Some(3), p);
    classify(&mut ev, &PolicyInvariants::default());
    assert!(ev.risk_flags.contains(&RiskFlag::RarePort));
}

#[test]
fn common_port_not_flagged() {
    let mut p = Payload::new();
    p.insert_text("Image", "C:\\Windows\\System32\\svchost.exe");
    p.insert_unsigned("DestinationPort", 443);
    let mut ev = Event::new("test-agent", EventType::Network, "sysmon", Some(3), p);
    classify(&mut ev, &PolicyInvariants::default());
    assert!(!ev.risk_flags.contains(&RiskFlag::RarePort));
}

// ---------------------------------------------------------------------------

#[test]
fn encoded_powershell_score_is_sum_of_weights() {
    // EncodedCommandLine (35) + SuspiciousArguments (30); the image is in
    // System32 and unsigned-ness is unknown.
    let mut ev = proc_event(payload(&[
        (
            "Image",
            "C:\\Windows\\System32\\WindowsPowerShell\\v1.0\\powershell.exe",
        ),
        (
            "CommandLine",
            "powershell.exe -nop -w hidden -enc SQBFAFgAIAA=",
        ),
    ]));
    classify(&mut ev, &PolicyInvariants::default());
    assert_eq!(
        ev.risk_flags,
        vec![RiskFlag::EncodedCommandLine, RiskFlag::SuspiciousArguments]
    );
    assert_eq!(ev.risk_score, 65);
    assert!(ev.invariant_violation.is_none());
}

#[test]
fn classify_twice_adds_nothing_new() {
    let mut ev = proc_event(payload(&[
        ("Image", "C:\\Users\\ahmed\\AppData\\Local\\Temp\\setup.exe"),
        ("CommandLine", "setup.exe"),
    ]));
    classify(&mut ev, &PolicyInvariants::default());
    let flags = ev.risk_flags.clone();
    classify(&mut ev, &PolicyInvariants::default());
    assert_eq!(ev.risk_flags, flags);
}

#[test]
fn disabled_rule_does_not_fire() {
    let mut inv = PolicyInvariants::default();
    inv.credential_dumping = InvariantRule { enabled: false };
    let mut ev = proc_event(payload(&[
        ("Image", "C:\\Users\\ahmed\\Downloads\\m.exe"),
        ("CommandLine", "m.exe mimikatz sekurlsa::logonpasswords"),
    ]));
    classify(&mut ev, &inv);
    assert!(ev.invariant_violation.is_none());
    assert!(ev.risk_score < 100);
}

#[test]
fn score_is_clamped_to_100() {
    let long_cmd = format!("powershell -enc AAAA -w hidden {}", "x".repeat(1200));
    let mut p = Payload::new();
    p.insert_text("Image", "C:\\Users\\ahmed\\AppData\\Local\\Temp\\a.exe");
    p.insert_text("CommandLine", &long_cmd);
    p.insert_text("Signed", "false");
    let mut ev = proc_event(p);
    classify(&mut ev, &PolicyInvariants::default());
    assert_eq!(ev.risk_score, 100);
    assert!(ev.risk_flags.contains(&RiskFlag::LongCommandLine));
    assert!(ev.risk_flags.contains(&RiskFlag::UnsignedExecutable));
}

#[test]
fn numeric_port_as_text_is_read() {
    let mut p = Payload::new();
    p.insert_text("DestinationPort", "4444");
    let mut ev = Event::new("a", EventType::Network, "sysmon", Some(3), p);
    classify(&mut ev, &PolicyInvariants::default());
    assert_eq!(ev.risk_flags, vec![RiskFlag::RarePort]);
    assert_eq!(ev.risk_score, 20);
}

#[test]
fn port_ignored_for_non_network_events() {
    let mut p = Payload::new();
    p.insert("DestinationPort", PayloadValue::Unsigned(4444));
    let mut ev = proc_event(p);
    classify(&mut ev, &PolicyInvariants::default());
    assert!(ev.risk_flags.is_empty());
}

#[test]
fn flags_for_plain_inputs() {
    let flags = risk_flags_for(
        "setup.exe",
        "setup.exe",
        "C:\\Users\\a\\AppData\\Local\\Temp\\setup.exe",
        "c:\\users\\a\\appdata\\local\\temp\\setup.exe",
        true,
        Some(4444),
    );
    assert_eq!(
        flags,
        vec![
            RiskFlag::PathUserWritable,
            RiskFlag::ExecutableInTemp,
            RiskFlag::UnsignedExecutable,
            RiskFlag::RarePort
        ]
    );
}
