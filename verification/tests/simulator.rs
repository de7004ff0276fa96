use ironclaw::event::{EventType, PayloadValue};
use ironclaw::policy::Policy;
use ironclaw::simulator::{
    build_choices, build_event, generate_event, hex64, ip_string, EventChoice, SimDraws,
    SimulatorCollector,
};

#[test]
fn default_policy_choices() {
    let p = Policy::default();
    assert_eq!(
        build_choices(&p),
        vec![
            EventChoice::ProcessCreate,
            EventChoice::NetworkConnect,
            EventChoice::DnsQuery,
            EventChoice::AuthEvent,
            EventChoice::PowerShell,
            EventChoice::FileEvent,
        ]
    );
}

#[test]
fn dll_loads_need_flag_and_sysmon_7() {
    let mut p = Policy::default();
    p.collection.dll_events_enabled = true;
    assert!(build_choices(&p).contains(&EventChoice::DllLoad));
    p.collection.sysmon_events = vec![1];
    assert!(!build_choices(&p).contains(&EventChoice::DllLoad));
}

#[test]
fn nothing_allowed_means_no_event() {
    let mut p = Policy::default();
    p.collection.sysmon_events = vec![];
    p.collection.security_events = vec![];
    p.collection.powershell_logging = false;
    p.collection.file_events.enabled = false;
    assert!(build_choices(&p).is_empty());
    let mut rng = rand::thread_rng();
    assert!(generate_event(&p, "sim", &mut rng).is_none());
    assert!(SimulatorCollector::new().tick_events(&p, "sim", &mut rng).is_empty());
}

#[test]
fn generated_events_are_of_allowed_kinds() {
    let mut p = Policy::default();
    p.collection.sysmon_events = vec![22];
    p.collection.security_events = vec![];
    p.collection.powershell_logging = false;
    p.collection.file_events.enabled = false;
    let mut rng = rand::thread_rng();
    for _ in 0..50 {
        let e = generate_event(&p, "simulator-agent", &mut rng).unwrap();
        assert_eq!(e.event_type, EventType::Dns);
        assert_eq!(e.event_id, Some(22));
        assert_eq!(e.agent_id, "simulator-agent");
        assert_eq!(e.source, "sysmon");
    }
    let events = SimulatorCollector::new().tick_events(&p, "s", &mut rng);
    assert!((1..=4).contains(&events.len()));
}

#[test]
fn simulator_name() {
    assert_eq!(SimulatorCollector::new().name(), "simulator");
}

#[test]
fn hex_is_zero_padded_to_64_digits() {
    assert_eq!(hex64(0), "0".repeat(64));
    assert_eq!(hex64(255), format!("{}ff", "0".repeat(62)));
    assert_eq!(hex64(u64::MAX), format!("{}{}", "0".repeat(48), "f".repeat(16)));
    assert_eq!(hex64(0x1234_abcd), format!("{:064x}", 0x1234_abcdu64));
}

#[test]
fn ip_text() {
    assert_eq!(ip_string((1, 0, 254, 9)), "1.0.254.9");
}

#[test]
fn process_draws_make_the_expected_payload() {
    let d = SimDraws::ProcessCreate { process_name: 1, pid: 4000, ppid: 500, cmdline: 2, user: 2, hash: 16 };
    let e = build_event(&d, "simulator-agent");
    assert_eq!(e.event_type, EventType::Process);
    assert_eq!(e.event_id, Some(1));
    assert_eq!(e.payload.text("process_name"), "cmd.exe");
    assert_eq!(e.payload.number("pid"), Some(4000));
    assert_eq!(e.payload.number("ppid"), Some(500));
    assert_eq!(e.payload.text("cmdline"), "notepad.exe C:\\temp\\file.txt");
    assert_eq!(e.payload.text("user"), "IronClaw\\ahmed");
    assert_eq!(e.payload.text("hash_sha256"), format!("{:064x}", 16u64));
}

#[test]
fn auth_and_dll_draws() {
    let d = SimDraws::AuthEvent { event_id: 3, user: 3, logon_type: 10, success: false };
    let e = build_event(&d, "a");
    assert_eq!(e.event_type, EventType::Auth);
    assert_eq!(e.source, "security_log");
    assert_eq!(e.event_id, Some(4688));
    assert_eq!(e.payload.text("user"), "Guest");
    assert_eq!(e.payload.text("source_ip"), "192.168.122.1");
    assert!(matches!(e.payload.get("success"), Some(PayloadValue::Bool(false))));
    let d = SimDraws::DllLoad { process: 0, image_loaded: 1, signed: true, signature: 2 };
    let e = build_event(&d, "a");
    assert_eq!(e.event_type, EventType::DriverLoad);
    assert_eq!(e.event_id, Some(7));
    assert_eq!(e.payload.text("image_loaded"), "C:\\Windows\\System32\\kernel32.dll");
    assert_eq!(e.payload.text("signature"), "");
}

#[test]
fn network_draws() {
    let d = SimDraws::NetworkConnect { process: 2, dst_ip: (10, 1, 2, 3), dst_port: 2 };
    let e = build_event(&d, "a");
    assert_eq!(e.event_type, EventType::Network);
    assert_eq!(e.payload.text("process"), "powershell.exe");
    assert_eq!(e.payload.text("dst_ip"), "10.1.2.3");
    assert_eq!(e.payload.number("dst_port"), Some(8080));
    assert_eq!(e.payload.text("protocol"), "tcp");
}
