use ironclaw::collector::SysmonCollector;
use ironclaw::event::{EventType, PayloadValue};
use ironclaw::eventlog::{
    extract_sha256, parse_event_xml, parse_would_panic_exec, record_id_of, win_basename,
};

const PROCESS_XML: &str = "<Event xmlns='http://schemas.microsoft.com/win/2004/08/events/event'>\
<System><Provider Name='Microsoft-Windows-Sysmon'/><EventID>1</EventID>\
<TimeCreated SystemTime='2024-05-01T10:00:00.123Z'/><EventRecordID>4242</EventRecordID>\
<Computer>WS01.corp.local</Computer></System><EventData>\
<Data Name='Image'>C:\\Windows\\System32\\cmd.exe</Data>\
<Data Name='CommandLine'>cmd.exe /c whoami</Data>\
<Data Name='ProcessId'>1234</Data>\
<Data Name='User'>CORP\\alice</Data>\
<Data Name='Hashes'>MD5=ABC,SHA256=DEADBEEF,IMPHASH=00</Data>\
<Data Name='ParentImage'>C:\\Windows\\explorer.exe</Data>\
<Data Name='ParentProcessId'>99</Data>\
</EventData></Event>";

#[test]
fn parses_a_sysmon_process_creation() {
    assert!(!parse_would_panic_exec(PROCESS_XML));
    let e = parse_event_xml(PROCESS_XML, "agent-7", EventType::Process, "sysmon").unwrap();
    assert_eq!(e.agent_id, "agent-7");
    assert_eq!(e.source, "sysmon");
    assert_eq!(e.event_id, Some(1));
    assert_eq!(e.event_type, EventType::ProcessCreate);
    assert_eq!(e.payload.text("Image"), "C:\\Windows\\System32\\cmd.exe");
    assert!(matches!(e.payload.get("event_record_id"), Some(PayloadValue::Unsigned(4242))));
    assert_eq!(e.payload.text("computer"), "WS01.corp.local");
    assert_eq!(e.payload.text("system_time"), "2024-05-01T10:00:00.123Z");
    assert_eq!(e.host.as_ref().unwrap().name, "WS01.corp.local");
    let user = e.user.as_ref().unwrap();
    assert_eq!(user.name, "alice");
    assert_eq!(user.domain.as_deref(), Some("CORP"));
    let p = e.process.as_ref().unwrap();
    assert_eq!(p.pid, Some(1234));
    assert_eq!(p.name.as_deref(), Some("cmd.exe"));
    assert_eq!(p.path.as_deref(), Some("C:\\Windows\\System32\\cmd.exe"));
    assert_eq!(p.command_line.as_deref(), Some("cmd.exe /c whoami"));
    assert_eq!(p.hash_sha256.as_deref(), Some("DEADBEEF"));
    let parent = e.parent_process.as_ref().unwrap();
    assert_eq!(parent.pid, Some(99));
    assert_eq!(parent.name.as_deref(), Some("explorer.exe"));
    assert_eq!(parent.command_line, None);
    assert!(e.file.is_none() && e.network.is_none() && e.dns.is_none());
}

#[test]
fn non_sysmon_source_keeps_default_type() {
    let e = parse_event_xml(PROCESS_XML, "a", EventType::Auth, "security_log").unwrap();
    assert_eq!(e.event_type, EventType::Auth);
}

#[test]
fn network_event_fields() {
    let xml = "<Event><System><EventID>3</EventID><TimeCreated SystemTime=\"2024-01-01T00:00:00Z\"/>\
<EventRecordID>7</EventRecordID><Computer>H</Computer></System><EventData>\
<Data Name=\"Image\">C:\\x\\chrome.exe</Data><Data Name=\"SourceIp\">10.0.0.5</Data>\
<Data Name=\"SourcePort\">50000</Data><Data Name=\"DestinationIp\">1.2.3.4</Data>\
<Data Name=\"DestinationPort\">443</Data><Data Name=\"Protocol\">tcp</Data></EventData></Event>";
    let e = parse_event_xml(xml, "a", EventType::Network, "sysmon").unwrap();
    assert_eq!(e.event_type, EventType::NetworkConnect);
    let n = e.network.as_ref().unwrap();
    assert_eq!(n.src_ip.as_deref(), Some("10.0.0.5"));
    assert_eq!(n.src_port, Some(50000));
    assert_eq!(n.dst_ip.as_deref(), Some("1.2.3.4"));
    assert_eq!(n.dst_port, Some(443));
    assert_eq!(n.protocol.as_deref(), Some("tcp"));
    assert_eq!(e.process.as_ref().unwrap().name.as_deref(), Some("chrome.exe"));
}

#[test]
fn missing_header_parts_give_none() {
    assert!(parse_event_xml("<Event></Event>", "a", EventType::Process, "sysmon").is_none());
    let no_time = "<EventID>1</EventID><EventRecordID>1</EventRecordID><Computer>x</Computer>";
    assert!(parse_event_xml(no_time, "a", EventType::Process, "sysmon").is_none());
    let bad_id = "<EventID>x</EventID><TimeCreated SystemTime='t'/><EventRecordID>1</EventRecordID><Computer>c</Computer>";
    assert!(parse_event_xml(bad_id, "a", EventType::Process, "sysmon").is_none());
}

#[test]
fn record_id_extraction() {
    assert_eq!(record_id_of(PROCESS_XML), Some(4242));
    assert_eq!(record_id_of("<EventRecordID>abc</EventRecordID>"), None);
    assert_eq!(record_id_of("nothing"), None);
}

#[test]
fn sha256_from_hashes_field() {
    assert_eq!(extract_sha256("SHA256=AB"), Some("AB".to_string()));
    assert_eq!(extract_sha256("MD5=1, sha256=cd ,X=2"), Some("cd".to_string()));
    assert_eq!(extract_sha256("MD5=1"), None);
}

#[test]
fn basename_of_windows_paths() {
    assert_eq!(win_basename("C:\\a\\b.exe"), "b.exe");
    assert_eq!(win_basename("b.exe"), "b.exe");
    assert_eq!(win_basename("C:\\a\\"), "");
}

#[test]
fn parsed_record_moves_the_read_position() {
    let e = parse_event_xml(PROCESS_XML, "a", EventType::Process, "sysmon").unwrap();
    let skipped = SysmonCollector::accept_event(&e, &vec![3], &vec![], 10);
    assert_eq!(skipped, (false, 4242));
    let forwarded = SysmonCollector::accept_event(&e, &vec![1], &vec![], 10);
    assert_eq!(forwarded, (true, 4242));
    let behind = SysmonCollector::accept_event(&e, &vec![1], &vec![], 5000);
    assert_eq!(behind, (true, 5000));
}
