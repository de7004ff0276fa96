use ironclaw::event::{Event, EventType, Payload, PayloadValue};

#[test]
fn insert_then_get_reads_back_the_value() {
    let mut p = Payload::new();
    p.insert_text("Image", "C:\\a.exe");
    p.insert_unsigned("pid", 7);
    assert_eq!(p.text("Image"), "C:\\a.exe");
    assert_eq!(p.number("pid"), Some(7));
    p.insert_text("Image", "C:\\b.exe");
    assert_eq!(p.text("Image"), "C:\\b.exe");
    assert_eq!(p.entries.len(), 2);
    assert_eq!(p.position("pid"), Some(1));
}

#[test]
fn missing_or_non_text_values_read_as_empty() {
    let mut p = Payload::new();
    p.insert("flag", PayloadValue::Bool(true));
    assert_eq!(p.text("flag"), "");
    assert_eq!(p.text("missing"), "");
    assert_eq!(p.nonempty_text("flag"), None);
    p.insert_text("empty", "");
    assert_eq!(p.nonempty_text("empty"), None);
    assert!(p.get("missing").is_none());
}

#[test]
fn numbers_from_text_and_signed_values() {
    let mut p = Payload::new();
    p.insert_text("a", "123");
    p.insert_text("b", "12x");
    p.insert("c", PayloadValue::Signed(-1));
    p.insert("d", PayloadValue::Signed(5));
    assert_eq!(p.number("a"), Some(123));
    assert_eq!(p.number("b"), None);
    assert_eq!(p.number("c"), None);
    assert_eq!(p.number("d"), Some(5));
}

#[test]
fn new_event_is_unclassified() {
    let e = Event::new("ag", EventType::Dns, "sysmon", Some(22), Payload::new());
    assert_eq!(e.agent_id, "ag");
    assert_eq!(e.event_type, EventType::Dns);
    assert_eq!(e.source, "sysmon");
    assert_eq!(e.event_id, Some(22));
    assert!(e.risk_flags.is_empty());
    assert_eq!(e.risk_score, 0);
    assert!(e.invariant_violation.is_none());
    assert!(e.host.is_none() && e.process.is_none() && e.dns.is_none());
}
