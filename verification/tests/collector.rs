use ironclaw::collector::{
    event_matches_path_filters, is_file_event_id, record_query, PowerShellCollector,
    SecurityLogCollector, SysmonCollector,
};
use ironclaw::event::{Event, EventType, Payload};
use ironclaw::policy::Policy;
use ironclaw::policy::PolicyCollection;

fn sysmon_event(id: u32, record: u64, pairs: &[(&str, &str)]) -> Event {
    let mut p = Payload::new();
    for (k, v) in pairs {
        p.insert_text(k, v);
    }
    p.insert_unsigned("event_record_id", record);
    Event::new("a", EventType::Process, "sysmon", Some(id), p)
}

#[test]
fn collector_names_and_channels() {
    assert_eq!(SysmonCollector::new().name(), "windows_sysmon");
    assert_eq!(SysmonCollector::new().channel(), "Microsoft-Windows-Sysmon/Operational");
    assert_eq!(SecurityLogCollector::new().name(), "windows_security_log");
    assert_eq!(SecurityLogCollector::new().channel(), "Security");
    assert_eq!(PowerShellCollector::new().name(), "windows_powershell");
    assert_eq!(PowerShellCollector::new().channel(), "Microsoft-Windows-PowerShell/Operational");
}

#[test]
fn record_query_text() {
    assert_eq!(record_query(0), "*[System[EventRecordID > 0]]");
    assert_eq!(record_query(18446744073709551615), "*[System[EventRecordID > 18446744073709551615]]");
}

#[test]
fn file_event_ids() {
    for id in [2, 11, 15, 23] {
        assert!(is_file_event_id(id));
    }
    for id in [1, 3, 7, 22] {
        assert!(!is_file_event_id(id));
    }
}

#[test]
fn active_ids_drop_dll_and_file_events_unless_enabled() {
    let mut c = PolicyCollection::default();
    c.sysmon_events = vec![1, 2, 3, 7, 11, 15, 22, 23];
    c.dll_events_enabled = false;
    c.file_events.enabled = false;
    assert_eq!(SysmonCollector::active_event_ids(&c), vec![1, 3, 22]);
    c.dll_events_enabled = true;
    assert_eq!(SysmonCollector::active_event_ids(&c), vec![1, 3, 7, 22]);
    c.file_events.enabled = true;
    assert_eq!(SysmonCollector::active_event_ids(&c), vec![1, 2, 3, 7, 11, 15, 22, 23]);
}

#[test]
fn path_filters_use_target_filename_then_image() {
    let pats = vec!["C:\\Windows\\Temp\\*".to_string()];
    let e = sysmon_event(11, 1, &[("TargetFilename", "c:\\windows\\temp\\x.exe"), ("Image", "C:\\a.exe")]);
    assert!(event_matches_path_filters(&e, &pats));
    let e = sysmon_event(11, 1, &[("Image", "C:\\Windows\\Temp\\y.exe")]);
    assert!(event_matches_path_filters(&e, &pats));
    let e = sysmon_event(11, 1, &[("TargetFilename", "C:\\Users\\z.txt")]);
    assert!(!event_matches_path_filters(&e, &pats));
    let e = sysmon_event(11, 1, &[]);
    assert!(!event_matches_path_filters(&e, &pats));
}

#[test]
fn sysmon_accepts_only_active_ids_and_advances_position() {
    let active = vec![1, 11];
    let pats = vec!["C:\\Windows\\Temp\\*".to_string()];
    let e = sysmon_event(3, 50, &[]);
    assert_eq!(SysmonCollector::accept_event(&e, &active, &pats, 10), (false, 50));
    let e = sysmon_event(1, 5, &[]);
    assert_eq!(SysmonCollector::accept_event(&e, &active, &pats, 10), (true, 10));
    let e = sysmon_event(11, 60, &[("TargetFilename", "C:\\Users\\a.txt")]);
    assert_eq!(SysmonCollector::accept_event(&e, &active, &pats, 10), (false, 60));
    let e = sysmon_event(11, 61, &[("TargetFilename", "C:\\Windows\\Temp\\a.txt")]);
    assert_eq!(SysmonCollector::accept_event(&e, &active, &pats, 10), (true, 61));
    let none: Vec<String> = vec![];
    let e = sysmon_event(11, 62, &[("TargetFilename", "C:\\Users\\a.txt")]);
    assert_eq!(SysmonCollector::accept_event(&e, &active, &none, 10), (true, 62));
}

#[test]
fn security_log_filters_by_enabled_ids() {
    let ids = vec![4624, 4625];
    let e = sysmon_event(4624, 8, &[]);
    assert_eq!(SecurityLogCollector::accept_event(&e, &ids, 3), (true, 8));
    let e = sysmon_event(4688, 9, &[]);
    assert_eq!(SecurityLogCollector::accept_event(&e, &ids, 3), (false, 9));
}

#[test]
fn powershell_forwards_everything() {
    let e = sysmon_event(4104, 2, &[]);
    assert_eq!(PowerShellCollector::accept_event(&e, 7), (true, 7));
    let e = sysmon_event(4104, 12, &[]);
    assert_eq!(PowerShellCollector::accept_event(&e, 7), (true, 12));
}

fn record(id: u32, rec: u64, extra: &str) -> String {
    format!(
        "<Event><System><EventID>{}</EventID><TimeCreated SystemTime='t'/>\
<EventRecordID>{}</EventRecordID><Computer>H</Computer></System><EventData>{}</EventData></Event>",
        id, rec, extra
    )
}

#[test]
fn should_query_follows_the_policy() {
    let mut c = Policy::default().collection;
    assert!(SysmonCollector::should_query(&c));
    assert!(SecurityLogCollector::should_query(&c));
    assert!(PowerShellCollector::should_query(&c));
    c.sysmon_events = vec![7, 11];
    c.dll_events_enabled = false;
    c.file_events.enabled = false;
    c.security_events = vec![];
    c.powershell_logging = false;
    assert!(!SysmonCollector::should_query(&c));
    assert!(!SecurityLogCollector::should_query(&c));
    assert!(!PowerShellCollector::should_query(&c));
}

#[test]
fn sysmon_round_forwards_in_order_and_moves_position() {
    let xmls = vec![
        record(1, 10, ""),
        record(3, 11, ""),
        "garbage".to_string(),
        record(11, 12, "<Data Name='TargetFilename'>C:\\Users\\a.txt</Data>"),
        record(11, 13, "<Data Name='TargetFilename'>C:\\Windows\\Temp\\a.exe</Data>"),
        record(1, 5, ""),
    ];
    let pats = vec!["C:\\Windows\\Temp\\*".to_string()];
    let (events, last) = SysmonCollector::process_records(&xmls, &vec![1, 11], &pats, 7);
    let ids: Vec<_> = events.iter().map(|e| e.payload.number("event_record_id").unwrap()).collect();
    assert_eq!(ids, vec![10, 13, 5]);
    assert_eq!(last, 13);
    assert!(events.iter().all(|e| e.agent_id == "windows-agent" && e.source == "sysmon"));
    assert_eq!(events[0].event_type, EventType::ProcessCreate);
}

#[test]
fn security_and_powershell_rounds() {
    let xmls = vec![record(4624, 1, ""), record(4688, 2, ""), record(4104, 3, "")];
    let (events, last) = SecurityLogCollector::process_records(&xmls, &vec![4624, 4104], 0);
    assert_eq!(events.iter().map(|e| e.event_id).collect::<Vec<_>>(), vec![Some(4624), Some(4104)]);
    assert!(events.iter().all(|e| e.event_type == EventType::Auth && e.source == "security_log"));
    assert_eq!(last, 3);
    let (events, last) = PowerShellCollector::process_records(&xmls, 2);
    assert_eq!(events.len(), 1);
    assert_eq!(events[0].event_id, Some(4104));
    assert_eq!(events[0].event_type, EventType::PowerShell);
    assert_eq!(last, 3);
}
