use ai_engine_core::codec::{check_payload, decode_frame, decode_line, encode_message, encode_message_line, encode_response};
use ai_engine_core::rpc::{Frame, RpcMessage, RpcResponse};

fn msg(method: &str, params: Option<&str>, id: Option<&str>) -> RpcMessage {
    RpcMessage {
        version: "2.0".to_string(),
        method: method.to_string(),
        params: params.map(|p| p.to_string()),
        id: id.map(|i| i.to_string()),
    }
}

#[test]
fn encode_request_canonical_form() {
    let m = msg("status", Some("{\"verbose\":true}"), Some("7"));
    let line = encode_message(&m);
    assert_eq!(
        line,
        "{\"jsonrpc\":\"2.0\",\"method\":\"status\",\"params\":{\"verbose\":true},\"id\":\"7\"}"
    );
}

#[test]
fn encode_notification_omits_id() {
    let m = msg("shutdown", None, None);
    assert_eq!(encode_message(&m), "{\"jsonrpc\":\"2.0\",\"method\":\"shutdown\"}");
}

#[test]
fn encode_line_is_newline_terminated() {
    let m = msg("ping", None, Some("1"));
    let line = encode_message_line(&m);
    assert!(line.ends_with('\n'));
    assert_eq!(line.matches('\n').count(), 1);
}

#[test]
fn encode_escapes_quotes_and_backslashes() {
    let m = msg("we\"ird\\name", None, Some("a\"b"));
    let line = encode_message(&m);
    assert_eq!(
        line,
        "{\"jsonrpc\":\"2.0\",\"method\":\"we\\\"ird\\\\name\",\"id\":\"a\\\"b\"}"
    );
}

#[test]
fn round_trip_request() {
    let m = msg("generate_sql", Some("{\"prompt\":\"top users\",\"n\":[1,2,3]}"), Some("42"));
    let line = encode_message(&m);
    match decode_frame(&line) {
        Some(Frame::Message(d)) => {
            assert_eq!(d.version, m.version);
            assert_eq!(d.method, m.method);
            assert_eq!(d.params, m.params);
            assert_eq!(d.id, m.id);
        },
        other => panic!("expected a message frame, got {:?}", other),
    }
}

#[test]
fn round_trip_notification() {
    let m = msg("shutdown", None, None);
    let line = encode_message(&m);
    match decode_frame(&line) {
        Some(Frame::Message(d)) => {
            assert_eq!(d.method, "shutdown");
            assert_eq!(d.params, None);
            assert_eq!(d.id, None);
        },
        other => panic!("expected a message frame, got {:?}", other),
    }
}

#[test]
fn round_trip_escaped_fields() {
    let m = msg("a\\b\"c", None, Some("id\"x\\y"));
    let line = encode_message(&m);
    match decode_frame(&line) {
        Some(Frame::Message(d)) => {
            assert_eq!(d.method, m.method);
            assert_eq!(d.id, m.id);
        },
        other => panic!("expected a message frame, got {:?}", other),
    }
}

#[test]
fn round_trip_result_response() {
    let r = RpcResponse {
        version: "2.0".to_string(),
        result: Some("{\"status\":\"ready\"}".to_string()),
        error: None,
        id: "3".to_string(),
    };
    let line = encode_response(&r);
    assert_eq!(
        line,
        "{\"jsonrpc\":\"2.0\",\"result\":{\"status\":\"ready\"},\"id\":\"3\"}"
    );
    match decode_frame(&line) {
        Some(Frame::Response(d)) => {
            assert_eq!(d.result, r.result);
            assert_eq!(d.error, None);
            assert_eq!(d.id, "3");
        },
        other => panic!("expected a response frame, got {:?}", other),
    }
}

#[test]
fn round_trip_error_response() {
    let r = RpcResponse {
        version: "2.0".to_string(),
        result: None,
        error: Some("{\"code\":-32601,\"message\":\"no such method\"}".to_string()),
        id: "9".to_string(),
    };
    let line = encode_response(&r);
    match decode_frame(&line) {
        Some(Frame::Response(d)) => {
            assert_eq!(d.result, None);
            assert_eq!(d.error, r.error);
            assert_eq!(d.id, "9");
        },
        other => panic!("expected a response frame, got {:?}", other),
    }
}

#[test]
fn decode_rejects_malformed_lines() {
    assert!(decode_frame("").is_none());
    assert!(decode_frame("not json at all").is_none());
    assert!(decode_frame("{\"jsonrpc\":\"2.0\"}").is_none());
    assert!(decode_frame("{\"jsonrpc\":\"2.0\",\"method\":\"x\"} trailing").is_none());
    assert!(decode_frame("{\"jsonrpc\":\"2.0\",\"result\":{\"unbalanced\":1,\"id\":\"1\"}").is_none());
}

#[test]
fn decode_line_trims_and_ignores_empty() {
    assert!(decode_line("").is_none());
    assert!(decode_line("   \r\n").is_none());
    let m = msg("ping", None, Some("5"));
    let wire = format!("  {}\r\n", encode_message(&m));
    match decode_line(&wire) {
        Some(Frame::Message(d)) => assert_eq!(d.method, "ping"),
        other => panic!("expected a message frame, got {:?}", other),
    }
}

#[test]
fn payload_check_accepts_values_and_rejects_broken_ones() {
    assert!(check_payload("{\"a\":1}"));
    assert!(check_payload("[1,2,{\"b\":\"c,d\"}]"));
    assert!(check_payload("\"a string, with comma and }\""));
    assert!(check_payload("12345"));
    assert!(check_payload("null"));
    assert!(!check_payload(""));
    assert!(!check_payload("{\"a\":1"));
    assert!(!check_payload("1,2"));
    assert!(!check_payload("}"));
    assert!(!check_payload("\"unterminated"));
}
