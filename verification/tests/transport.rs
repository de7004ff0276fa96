use ironclaw::transport::{failure_message, frame_json_array, status_accepted, Batcher, Endpoint};

#[test]
fn frames_events_as_a_json_array() {
    let items = vec![b"{\"a\":1}".to_vec(), b"{\"b\":2}".to_vec()];
    assert_eq!(frame_json_array(&items), b"[{\"a\":1},{\"b\":2}]".to_vec());
    assert_eq!(frame_json_array(&[]), b"[]".to_vec());
    assert_eq!(frame_json_array(&[b"{}".to_vec()]), b"[{}]".to_vec());
}

#[test]
fn compressed_batch_round_trips_with_content_size() {
    let items = vec![b"{\"event\":\"x\"}".to_vec(); 20];
    let compressed = Batcher::compress_batch(&items).unwrap();
    assert_ne!(compressed, frame_json_array(&items));
    let expected = frame_json_array(&items);
    let size = zstd::zstd_safe::get_frame_content_size(&compressed).unwrap();
    assert_eq!(size, Some(expected.len() as u64));
    let plain = zstd::decode_all(&compressed[..]).unwrap();
    assert_eq!(plain, expected);
}


#[test]
fn registration_accepts_only_200_and_201() {
    assert!(status_accepted(Endpoint::Register, 200));
    assert!(status_accepted(Endpoint::Register, 201));
    assert!(!status_accepted(Endpoint::Register, 202));
    assert!(!status_accepted(Endpoint::Register, 409));
}

#[test]
fn other_exchanges_accept_any_2xx() {
    for e in [Endpoint::Heartbeat, Endpoint::FetchPolicy, Endpoint::ShipEvents] {
        assert!(status_accepted(e, 200));
        assert!(status_accepted(e, 204));
        assert!(status_accepted(e, 299));
        assert!(!status_accepted(e, 199));
        assert!(!status_accepted(e, 300));
        assert!(!status_accepted(e, 500));
    }
}

#[test]
fn refused_exchange_message() {
    assert_eq!(
        failure_message("Heartbeat", "404 Not Found", "no such agent"),
        "Heartbeat failed: 404 Not Found - Response: no such agent"
    );
}
