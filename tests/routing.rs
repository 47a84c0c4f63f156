use ble_link::connection::{
    is_alive_response, probe_payload, ConnectionCore, LinkState, TeardownPlan, WaitOutcome,
};
use ble_link::dispatcher::{ChunkOutcome, Dispatcher};
use ble_link::error::LinkError;
use ble_link::registry::CorrelationRegistry;

#[test]
fn register_refuses_a_pending_id() {
    let mut r: CorrelationRegistry<&str> = CorrelationRegistry::new();
    assert_eq!(r.register(7, "first"), Ok(()));
    assert_eq!(r.register(7, "second"), Err(LinkError::Collision));
    assert_eq!(r.len(), 1);
    let d = r.resolve(7, "payload".to_string()).unwrap();
    assert_eq!(d.slot, "first");
    assert_eq!(d.id, 7);
    assert_eq!(d.payload, "payload");
}

#[test]
fn resolve_is_single_use_and_ignores_unknown_ids() {
    let mut r: CorrelationRegistry<u8> = CorrelationRegistry::new();
    r.register(1, 10).unwrap();
    assert!(r.resolve(2, "x".to_string()).is_none());
    assert!(r.is_pending(1));
    assert!(r.resolve(1, "y".to_string()).is_some());
    assert!(!r.is_pending(1));
    assert!(r.resolve(1, "z".to_string()).is_none());
    assert_eq!(r.len(), 0);
}

#[test]
fn abandon_removes_without_delivery() {
    let mut r: CorrelationRegistry<u8> = CorrelationRegistry::new();
    r.register(5, 1).unwrap();
    assert!(r.abandon(5));
    assert!(!r.abandon(5));
    assert!(r.resolve(5, "late".to_string()).is_none());
    assert_eq!(r.len(), 0);
}

#[test]
fn dispatcher_routes_split_frame() {
    let mut r: CorrelationRegistry<&str> = CorrelationRegistry::new();
    r.register(0xa1b2c3d4, "hello caller").unwrap();
    let mut d = Dispatcher::new();
    assert!(matches!(d.on_chunk(&mut r, b"a1b2c3d4:He"), ChunkOutcome::Incomplete));
    assert!(!d.is_idle());
    match d.on_chunk(&mut r, b"llo#;EOF;#") {
        ChunkOutcome::Routed(del) => {
            assert_eq!(del.id, 0xa1b2c3d4);
            assert_eq!(del.slot, "hello caller");
            assert_eq!(del.payload, "Hello");
        }
        _ => panic!("frame was not routed"),
    }
    assert!(d.is_idle());
    assert_eq!(r.len(), 0);
}

#[test]
fn dispatcher_routes_by_id_not_arrival_order() {
    let mut r: CorrelationRegistry<&str> = CorrelationRegistry::new();
    r.register(0x11111111, "caller A").unwrap();
    r.register(0x22222222, "caller B").unwrap();
    let mut d = Dispatcher::new();
    let mut got = Vec::new();
    for chunk in [&b"22222222:B#;EOF;#"[..], &b"11111111:A#;EOF;#"[..]] {
        match d.on_chunk(&mut r, chunk) {
            ChunkOutcome::Routed(del) => got.push((del.slot, del.payload)),
            _ => panic!("frame was not routed"),
        }
    }
    assert_eq!(got, vec![("caller B", "B".to_string()), ("caller A", "A".to_string())]);
    assert_eq!(r.len(), 0);
}

#[test]
fn dispatcher_absorbs_malformed_and_unclaimed_frames() {
    let mut r: CorrelationRegistry<u8> = CorrelationRegistry::new();
    r.register(3, 0).unwrap();
    let mut d = Dispatcher::new();
    assert!(matches!(d.on_chunk(&mut r, b"garbage#;EOF;#"), ChunkOutcome::Malformed));
    assert!(matches!(d.on_chunk(&mut r, &[0xff, 0xfe, b'#', b';', b'E', b'O', b'F', b';', b'#']), ChunkOutcome::Malformed));
    assert!(matches!(d.on_chunk(&mut r, b"00000009:late#;EOF;#"), ChunkOutcome::Unclaimed(9)));
    assert!(r.is_pending(3));
    assert!(matches!(d.on_chunk(&mut r, b"00000003:ok#;EOF;#"), ChunkOutcome::Routed(_)));
}

#[test]
fn send_requires_an_active_connected_link() {
    let mut c: ConnectionCore<u8> = ConnectionCore::new();
    assert_eq!(c.state(), LinkState::Idle);
    assert_eq!(c.begin_request(true, 1, 0, b"x").err(), Some(LinkError::NotConnected));
    assert_eq!(c.may_initialize(false), Err(LinkError::NotConnected));
    assert_eq!(c.may_initialize(true), Ok(()));
    c.activate();
    assert_eq!(c.begin_request(false, 1, 0, b"x").err(), Some(LinkError::NotConnected));
    assert_eq!(c.begin_request(true, 1, 0, b"Hello").unwrap(), b"00000001:Hello".to_vec());
    assert_eq!(c.begin_request(true, 1, 0, b"again").err(), Some(LinkError::Collision));
    assert_eq!(c.pending_count(), 1);
}

#[test]
fn timed_out_request_leaves_no_entry() {
    let mut c: ConnectionCore<u8> = ConnectionCore::new();
    c.activate();
    c.begin_request(true, 0xabcdef01, 0, b"ping").unwrap();
    assert!(c.is_pending(0xabcdef01));
    assert_eq!(c.finish_request(0xabcdef01, WaitOutcome::TimedOut), Err(LinkError::Timeout));
    assert!(!c.is_pending(0xabcdef01));
    assert_eq!(c.pending_count(), 0);
    let mut d = Dispatcher::new();
    assert!(matches!(c.route_chunk(&mut d, b"abcdef01:pong#;EOF;#"), ChunkOutcome::Unclaimed(0xabcdef01)));
}

#[test]
fn finish_request_reports_each_outcome() {
    let mut c: ConnectionCore<u8> = ConnectionCore::new();
    c.activate();
    c.begin_request(true, 1, 0, b"a").unwrap();
    assert_eq!(c.finish_request(1, WaitOutcome::WriteFailed), Err(LinkError::TransportError));
    c.begin_request(true, 2, 0, b"b").unwrap();
    assert_eq!(c.finish_request(2, WaitOutcome::SlotClosed), Err(LinkError::Timeout));
    c.begin_request(true, 3, 0, b"c").unwrap();
    let mut d = Dispatcher::new();
    let routed = match c.route_chunk(&mut d, b"00000003:done#;EOF;#") {
        ChunkOutcome::Routed(del) => del.payload,
        _ => panic!("frame was not routed"),
    };
    assert_eq!(c.finish_request(3, WaitOutcome::Delivered(routed)), Ok("done".to_string()));
    assert_eq!(c.pending_count(), 0);
}

#[test]
fn terminate_twice_reports_already_disconnected() {
    let mut c: ConnectionCore<u8> = ConnectionCore::new();
    c.activate();
    let first = c.terminate(true);
    assert_eq!(
        first,
        TeardownPlan { cancel_dispatcher: true, unsubscribe: true, disconnect: true, already_disconnected: false }
    );
    let second = c.terminate(true);
    assert_eq!(
        second,
        TeardownPlan { cancel_dispatcher: false, unsubscribe: false, disconnect: false, already_disconnected: true }
    );
    assert_eq!(c.state(), LinkState::Terminated);
    assert_eq!(c.may_initialize(true), Err(LinkError::NotConnected));
}

#[test]
fn terminate_on_a_dropped_link() {
    let mut c: ConnectionCore<u8> = ConnectionCore::new();
    c.activate();
    let plan = c.terminate(false);
    assert_eq!(
        plan,
        TeardownPlan { cancel_dispatcher: true, unsubscribe: false, disconnect: false, already_disconnected: true }
    );
}

#[test]
fn alive_only_on_exact_ok() {
    assert_eq!(probe_payload(), b"NT_CheckAlive".to_vec());
    assert!(is_alive_response(&Ok("Ok".to_string())));
    assert!(!is_alive_response(&Ok("ok".to_string())));
    assert!(!is_alive_response(&Ok("Ok ".to_string())));
    assert!(!is_alive_response(&Ok(String::new())));
    assert!(!is_alive_response(&Err(LinkError::Timeout)));
    assert!(!is_alive_response(&Err(LinkError::NotConnected)));
    assert!(!is_alive_response(&Err(LinkError::TransportError)));
}

#[test]
fn error_messages_are_distinct() {
    let all = [LinkError::NotConnected, LinkError::Timeout, LinkError::TransportError, LinkError::Collision];
    for (i, a) in all.iter().enumerate() {
        for b in all.iter().skip(i + 1) {
            assert_ne!(a.message(), b.message());
        }
    }
}

#[test]
fn routing_ignores_registration_order() {
    let mut r: CorrelationRegistry<&str> = CorrelationRegistry::new();
    r.register(0x22222222, "caller B").unwrap();
    r.register(0x11111111, "caller A").unwrap();
    let mut d = Dispatcher::new();
    let mut got = Vec::new();
    for chunk in [&b"22222222:B#;EOF;#"[..], &b"11111111:A#;EOF;#"[..]] {
        if let ChunkOutcome::Routed(del) = d.on_chunk(&mut r, chunk) {
            got.push((del.slot, del.payload));
        }
    }
    assert_eq!(got, vec![("caller B", "B".to_string()), ("caller A", "A".to_string())]);
}
