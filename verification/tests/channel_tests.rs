use ai_engine_core::channel::{IPCChannel, PendingRequestTable, ReaderEvent};
use ai_engine_core::codec::encode_response;
use ai_engine_core::ids::{parse_id, render_id};
use ai_engine_core::rpc::RpcResponse;

fn ready_response(id: &str) -> String {
    encode_response(&RpcResponse {
        version: "2.0".to_string(),
        result: Some("{\"status\":\"ready\"}".to_string()),
        error: None,
        id: id.to_string(),
    })
}

#[test]
fn id_rendering_and_parsing_invert() {
    for n in [0u64, 1, 9, 10, 42, 12345678901234567890] {
        let s = render_id(n);
        assert_eq!(parse_id(&s), Some(n));
    }
    assert_eq!(render_id(0), "0");
    assert_eq!(render_id(1234), "1234");
}

#[test]
fn id_parsing_rejects_foreign_strings() {
    assert_eq!(parse_id(""), None);
    assert_eq!(parse_id("007"), None);
    assert_eq!(parse_id("12x"), None);
    assert_eq!(parse_id("-3"), None);
    assert_eq!(parse_id("99999999999999999999999"), None);
}

#[test]
fn request_ids_are_never_reused() {
    // No two concurrently pending requests share an id, and even ids whose
    // requests have finished are never handed out again.
    let mut table = PendingRequestTable::new();
    let a = table.register();
    let b = table.register();
    let c = table.register();
    assert!(a != b && b != c && a != c);
    assert!(table.remove(b));
    let d = table.register();
    assert!(d != a && d != b && d != c);
    assert_eq!(table.len(), 3);
}

#[test]
fn removal_is_idempotent() {
    // The timeout path and the reader racing each other: the entry goes
    // exactly once; the second taker sees nothing.
    let mut table = PendingRequestTable::new();
    let id = table.register();
    assert!(table.remove(id));
    assert!(!table.remove(id));
    assert_eq!(table.len(), 0);
}

#[test]
fn prepare_request_registers_and_frames() {
    let mut ch = IPCChannel::new();
    let (message, seq) = ch
        .prepare_request("status".to_string(), Some("{\"q\":1}".to_string()))
        .expect("valid params must be accepted");
    assert_eq!(message.version, "2.0");
    assert_eq!(message.method, "status");
    assert_eq!(message.params.as_deref(), Some("{\"q\":1}"));
    assert_eq!(message.id.as_deref(), Some(render_id(seq).as_str()));
    assert_eq!(ch.pending_count(), 1);
}

#[test]
fn prepare_request_rejects_broken_params() {
    let mut ch = IPCChannel::new();
    let r = ch.prepare_request("status".to_string(), Some("{\"q\":1".to_string()));
    assert!(r.is_err());
    assert_eq!(ch.pending_count(), 0);
}

#[test]
fn prepare_notification_has_no_id() {
    let ch = IPCChannel::new();
    let m = ch
        .prepare_notification("shutdown".to_string(), None)
        .expect("a bare notification must be accepted");
    assert_eq!(m.id, None);
    assert_eq!(m.method, "shutdown");
}

#[test]
fn response_is_delivered_to_its_request() {
    let mut ch = IPCChannel::new();
    let (_, seq) = ch.prepare_request("status".to_string(), None).unwrap();
    let line = ready_response(&render_id(seq));
    match ch.handle_line(&line) {
        ReaderEvent::Deliver(got, resp) => {
            assert_eq!(got, seq);
            assert_eq!(resp.result.as_deref(), Some("{\"status\":\"ready\"}"));
        },
        other => panic!("expected delivery, got {:?}", other),
    }
    assert_eq!(ch.pending_count(), 0);
}

#[test]
fn timed_out_request_discards_late_reply() {
    // A request under a short timeout: the timeout fires first and removes
    // the entry; the late reply is classified as an orphan, not an error,
    // and not delivered anywhere.
    let mut ch = IPCChannel::new();
    let (_, seq) = ch.prepare_request("slow_op".to_string(), None).unwrap();
    assert!(ch.on_timeout(seq));
    assert!(!ch.on_timeout(seq));
    let late = ready_response(&render_id(seq));
    match ch.handle_line(&late) {
        ReaderEvent::Orphan(resp) => assert_eq!(resp.id, render_id(seq)),
        other => panic!("expected an orphan, got {:?}", other),
    }
    assert_eq!(ch.pending_count(), 0);
}

#[test]
fn orphan_response_leaves_table_alone() {
    let mut ch = IPCChannel::new();
    let (_, seq) = ch.prepare_request("status".to_string(), None).unwrap();
    let unrelated = ready_response("99");
    match ch.handle_line(&unrelated) {
        ReaderEvent::Orphan(_) => {},
        other => panic!("expected an orphan, got {:?}", other),
    }
    let foreign = ready_response("not-a-counter");
    match ch.handle_line(&foreign) {
        ReaderEvent::Orphan(_) => {},
        other => panic!("expected an orphan, got {:?}", other),
    }
    assert_eq!(ch.pending_count(), 1);
    assert!(ch.on_timeout(seq));
}

#[test]
fn bad_lines_are_discarded_not_fatal() {
    let mut ch = IPCChannel::new();
    match ch.handle_line("garbage") {
        ReaderEvent::Discard => {},
        other => panic!("expected a discard, got {:?}", other),
    }
    match ch.handle_line("") {
        ReaderEvent::Discard => {},
        other => panic!("expected a discard, got {:?}", other),
    }
}

#[test]
fn inbound_notification_is_surfaced() {
    let mut ch = IPCChannel::new();
    let line = "{\"jsonrpc\":\"2.0\",\"method\":\"log\",\"params\":{\"level\":\"info\"}}";
    match ch.handle_line(line) {
        ReaderEvent::Inbound(m) => {
            assert_eq!(m.method, "log");
            assert_eq!(m.id, None);
        },
        other => panic!("expected an inbound message, got {:?}", other),
    }
}

#[test]
fn teardown_surfaces_every_pending_request() {
    // The process exited with requests in flight: every single caller gets
    // its entry back for an error, none is left hanging.
    let mut ch = IPCChannel::new();
    let mut seqs = Vec::new();
    for _ in 0..5 {
        let (_, seq) = ch.prepare_request("work".to_string(), None).unwrap();
        seqs.push(seq);
    }
    let drained = ch.teardown();
    assert_eq!(drained.len(), 5);
    for seq in &seqs {
        assert_eq!(drained.iter().filter(|d| *d == seq).count(), 1);
    }
    assert_eq!(ch.pending_count(), 0);
}
