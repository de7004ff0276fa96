use ironclaw::buffer::{EventBuffer, PushOutcome, SpoolLine};
use ironclaw::event::{Event, EventType, Payload};

fn ev(n: u64) -> Event {
    let mut p = Payload::new();
    p.insert_unsigned("n", n);
    Event::new("agent", EventType::Process, "sysmon", Some(1), p)
}

fn num(e: &Event) -> u64 {
    e.payload.number("n").unwrap()
}

fn nums(v: &[Event]) -> Vec<u64> {
    v.iter().map(num).collect()
}

fn line(e: Event) -> SpoolLine {
    SpoolLine { text: format!("event {}", num(&e)), event: Some(e) }
}

#[test]
fn push_stores_until_capacity() {
    let mut b = EventBuffer::new(2, true, 0);
    assert!(matches!(b.push(ev(1)), PushOutcome::Stored));
    assert!(matches!(b.push(ev(2)), PushOutcome::Stored));
    assert_eq!(b.memory_depth(), 2);
}

#[test]
fn full_memory_spools_when_enabled() {
    let mut b = EventBuffer::new(1, true, 0);
    b.push(ev(1));
    match b.push(ev(2)) {
        PushOutcome::Spool(e) => assert_eq!(num(&e), 2),
        _ => panic!("expected the event to go to the spool"),
    }
    assert_eq!(b.memory_depth(), 1);
}

#[test]
fn drain_keeps_push_order_across_memory_and_spool() {
    let mut b = EventBuffer::new(1, true, 0);
    assert!(matches!(b.push(ev(1)), PushOutcome::Stored));
    let spooled = match b.push(ev(3)) {
        PushOutcome::Spool(e) => e,
        _ => panic!("expected the event to go to the spool"),
    };
    let mut batch = Vec::new();
    b.drain_batch(&mut batch, 2);
    let kept = b.read_spool_lines(&mut batch, 2, vec![line(spooled)]);
    assert_eq!(nums(&batch), vec![1, 3]);
    assert!(kept.is_empty());
}

#[test]
fn pushes_queue_behind_spooled_events() {
    let mut b = EventBuffer::new(1, true, 0);
    b.push(ev(1));
    let two = match b.push(ev(2)) {
        PushOutcome::Spool(e) => e,
        _ => panic!("expected the event to go to the spool"),
    };
    let mut batch = Vec::new();
    b.drain_batch(&mut batch, 1);
    assert_eq!(nums(&batch), vec![1]);
    // Memory has room again, but event 2 still waits in the spool.
    let three = match b.push(ev(3)) {
        PushOutcome::Spool(e) => e,
        _ => panic!("expected the event to go to the spool"),
    };
    let mut batch = Vec::new();
    b.drain_batch(&mut batch, 10);
    let kept = b.read_spool_lines(&mut batch, 10, vec![line(two), line(three)]);
    assert_eq!(nums(&batch), vec![2, 3]);
    assert!(kept.is_empty());
    assert!(matches!(b.push(ev(4)), PushOutcome::Stored));
}

#[test]
fn spool_left_by_an_earlier_run_comes_first() {
    let mut b = EventBuffer::new(5, true, 2);
    assert!(matches!(b.push(ev(1)), PushOutcome::Spool(_)));
    let b2 = EventBuffer::new(5, false, 2);
    assert_eq!(b2.memory_depth(), 0);
}

#[test]
fn full_memory_drops_oldest_when_spool_disabled() {
    let mut b = EventBuffer::new(2, false, 0);
    b.push(ev(1));
    b.push(ev(2));
    match b.push(ev(3)) {
        PushOutcome::DroppedOldest(Some(e)) => assert_eq!(num(&e), 1),
        _ => panic!("expected the oldest event to be dropped"),
    }
    let mut batch = Vec::new();
    b.drain_batch(&mut batch, 10);
    assert_eq!(nums(&batch), vec![2, 3]);
}

#[test]
fn zero_capacity_without_spool_keeps_newest() {
    let mut b = EventBuffer::new(0, false, 0);
    assert!(matches!(b.push(ev(1)), PushOutcome::DroppedOldest(None)));
    assert!(matches!(b.push(ev(2)), PushOutcome::DroppedOldest(Some(_))));
    assert_eq!(b.memory_depth(), 1);
}

#[test]
fn drain_takes_oldest_first_up_to_batch_size() {
    let mut b = EventBuffer::new(10, false, 0);
    for i in 1..=5 {
        b.push(ev(i));
    }
    let mut batch = vec![ev(0)];
    b.drain_batch(&mut batch, 3);
    assert_eq!(nums(&batch), vec![0, 1, 2]);
    assert_eq!(b.memory_depth(), 3);
}

#[test]
fn returned_batch_goes_back_in_front_in_order() {
    let mut b = EventBuffer::new(10, true, 0);
    for i in 1..=4 {
        b.push(ev(i));
    }
    let mut batch = Vec::new();
    b.drain_batch(&mut batch, 2);
    let front = b.push_batch_back(batch);
    assert!(front.is_empty());
    let mut all = Vec::new();
    b.drain_batch(&mut all, 10);
    assert_eq!(nums(&all), vec![1, 2, 3, 4]);
}

#[test]
fn returned_events_that_do_not_fit_go_to_the_spool_front() {
    let mut b = EventBuffer::new(2, true, 0);
    b.push(ev(9));
    let front = b.push_batch_back(vec![ev(1), ev(2), ev(3)]);
    assert_eq!(nums(&front), vec![3, 9]);
    let mut all = Vec::new();
    b.drain_batch(&mut all, 10);
    assert_eq!(nums(&all), vec![1, 2]);
    // The spool now holds the rest, so new events queue behind them.
    assert!(matches!(b.push(ev(10)), PushOutcome::Spool(_)));
}

#[test]
fn returned_events_that_do_not_fit_are_lost_without_spool() {
    let mut b = EventBuffer::new(1, false, 0);
    let front = b.push_batch_back(vec![ev(1), ev(2)]);
    assert!(front.is_empty());
    let mut all = Vec::new();
    b.drain_batch(&mut all, 10);
    assert_eq!(nums(&all), vec![2]);
}

#[test]
fn spool_lines_fill_batch_then_are_kept() {
    let mut b = EventBuffer::new(1, true, 4);
    let lines = vec![
        SpoolLine { text: "a".to_string(), event: Some(ev(1)) },
        SpoolLine { text: "garbage".to_string(), event: None },
        SpoolLine { text: "c".to_string(), event: Some(ev(3)) },
        SpoolLine { text: "d".to_string(), event: Some(ev(4)) },
    ];
    let mut batch = Vec::new();
    let kept = b.read_spool_lines(&mut batch, 2, lines);
    assert_eq!(nums(&batch), vec![1, 3]);
    assert_eq!(kept, vec!["d".to_string()]);
    // One line is still spooled, so a push goes behind it.
    assert!(matches!(b.push(ev(5)), PushOutcome::Spool(_)));
}
