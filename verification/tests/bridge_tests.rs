use grpc_echo::messages::EchoResponse;
use grpc_echo::websocket_bridge::{
    text_of_frame, Bridge, BridgeAction, BridgeEvent, ForwardAction, ForwardEvent, Forwarder,
    WsFrame, WsRequest,
};

fn request(method: &str, message: &str) -> WsRequest {
    WsRequest { method: method.to_string(), message: message.to_string() }
}

fn sent_text(action: BridgeAction) -> String {
    match action {
        BridgeAction::Send(text) => text,
        _ => panic!("expected a frame to send"),
    }
}

fn forwarded_text(action: ForwardAction) -> String {
    match action {
        ForwardAction::Send(text) => text,
        _ => panic!("expected a frame to send"),
    }
}

fn parse_step(bridge: &mut Bridge, text: &str) {
    match bridge.step(BridgeEvent::Frame(WsFrame::Text(text.to_string()))) {
        BridgeAction::Parse(t) => assert_eq!(t, text),
        _ => panic!("expected a parse"),
    }
}

#[test]
fn echo_request_round_trip() {
    let mut bridge = Bridge::new();
    parse_step(&mut bridge, "{\"method\":\"echo\",\"message\":\"hi\"}");
    match bridge.step(BridgeEvent::Parsed(Ok(request("echo", "hi")))) {
        BridgeAction::CallEcho(q) => assert_eq!(q.message, "hi"),
        _ => panic!("expected the echo call"),
    }
    let reply = EchoResponse { message: "Echo: hi".to_string(), timestamp: 1700000000 };
    let frame = sent_text(bridge.step(BridgeEvent::EchoReturned(Ok(reply))));
    assert_eq!(frame, "{\"method\":\"echo\",\"message\":\"Echo: hi\",\"timestamp\":1700000000}");
    assert!(matches!(bridge.step(BridgeEvent::Sent(true)), BridgeAction::ReadFrame));
    assert!(!bridge.is_stopped());
}

#[test]
fn echo_reply_that_cannot_be_written_ends_connection() {
    let mut bridge = Bridge::new();
    parse_step(&mut bridge, "x");
    bridge.step(BridgeEvent::Parsed(Ok(request("echo", "hi"))));
    bridge.step(BridgeEvent::EchoReturned(Ok(EchoResponse { message: "Echo: hi".to_string(), timestamp: 1 })));
    assert!(matches!(bridge.step(BridgeEvent::Sent(false)), BridgeAction::Stop));
    assert!(bridge.is_stopped());
    assert!(matches!(bridge.step(BridgeEvent::Frame(WsFrame::Other)), BridgeAction::Stop));
}

#[test]
fn echo_call_error_is_reported() {
    let mut bridge = Bridge::new();
    parse_step(&mut bridge, "x");
    bridge.step(BridgeEvent::Parsed(Ok(request("echo", "hi"))));
    let frame = sent_text(bridge.step(BridgeEvent::EchoReturned(Err("Status { code: Unavailable }".to_string()))));
    assert_eq!(frame, "Error: Status { code: Unavailable }");
    assert!(matches!(bridge.step(BridgeEvent::Sent(false)), BridgeAction::Stop));
}

#[test]
fn invalid_json_is_answered() {
    let mut bridge = Bridge::new();
    parse_step(&mut bridge, "not json");
    let frame = sent_text(bridge.step(BridgeEvent::Parsed(Err("expected value at line 1 column 1".to_string()))));
    assert_eq!(frame, "Invalid JSON format: expected value at line 1 column 1");
    assert!(matches!(bridge.step(BridgeEvent::Sent(true)), BridgeAction::ReadFrame));
}

#[test]
fn unknown_method_is_answered() {
    let mut bridge = Bridge::new();
    parse_step(&mut bridge, "x");
    let frame = sent_text(bridge.step(BridgeEvent::Parsed(Ok(request("shout", "hi")))));
    assert_eq!(frame, "Unknown method: shout");
    assert!(matches!(bridge.step(BridgeEvent::Sent(false)), BridgeAction::Stop));
}

#[test]
fn server_stream_request_starts_forwarding() {
    let mut bridge = Bridge::new();
    parse_step(&mut bridge, "x");
    match bridge.step(BridgeEvent::Parsed(Ok(request("serverStream", "go")))) {
        BridgeAction::CallServerStream(q) => assert_eq!(q.message, "go"),
        _ => panic!("expected the server-stream call"),
    }
    assert!(matches!(bridge.step(BridgeEvent::ServerStreamOpened(Ok(()))), BridgeAction::ForwardServerStream));
    assert!(matches!(bridge.step(BridgeEvent::Started), BridgeAction::ReadFrame));
}

#[test]
fn server_stream_open_failure_keeps_connection() {
    let mut bridge = Bridge::new();
    parse_step(&mut bridge, "x");
    bridge.step(BridgeEvent::Parsed(Ok(request("serverStream", "go"))));
    let frame = sent_text(bridge.step(BridgeEvent::ServerStreamOpened(Err("down".to_string()))));
    assert_eq!(frame, "Stream Error: down");
    assert!(matches!(bridge.step(BridgeEvent::Sent(false)), BridgeAction::ReadFrame));
}

#[test]
fn bidirectional_request_sends_initial_message_and_ready_frame() {
    let mut bridge = Bridge::new();
    parse_step(&mut bridge, "x");
    assert!(matches!(
        bridge.step(BridgeEvent::Parsed(Ok(request("bidirectionalStream", "ignored")))),
        BridgeAction::CallBidirectional
    ));
    match bridge.step(BridgeEvent::BidirectionalOpened(Ok(()))) {
        BridgeAction::ForwardBidirectional(q) => assert_eq!(q.message, "Initial message"),
        _ => panic!("expected forwarding"),
    }
    let ready = sent_text(bridge.step(BridgeEvent::Started));
    assert_eq!(
        ready,
        "{\"method\":\"bidirectionalStreamReady\",\"message\":\"Stream established, send messages to continue\",\"timestamp\":0}"
    );
    assert!(matches!(bridge.step(BridgeEvent::Sent(false)), BridgeAction::ReadFrame));
}

#[test]
fn bidirectional_open_failure_is_reported() {
    let mut bridge = Bridge::new();
    parse_step(&mut bridge, "x");
    bridge.step(BridgeEvent::Parsed(Ok(request("bidirectionalStream", ""))));
    let frame = sent_text(bridge.step(BridgeEvent::BidirectionalOpened(Err("refused".to_string()))));
    assert_eq!(frame, "Error: refused");
    assert!(matches!(bridge.step(BridgeEvent::Sent(true)), BridgeAction::ReadFrame));
}

#[test]
fn frames_other_than_text_and_binary_are_skipped() {
    let mut bridge = Bridge::new();
    assert!(matches!(bridge.step(BridgeEvent::Frame(WsFrame::Other)), BridgeAction::ReadFrame));
    assert!(!bridge.is_stopped());
}

#[test]
fn binary_frames_are_read_as_utf8_or_empty() {
    let mut bridge = Bridge::new();
    match bridge.step(BridgeEvent::Frame(WsFrame::Binary("{}é".as_bytes().to_vec()))) {
        BridgeAction::Parse(t) => assert_eq!(t, "{}é"),
        _ => panic!("expected a parse"),
    }
    let mut other = Bridge::new();
    match other.step(BridgeEvent::Frame(WsFrame::Binary(vec![0xff, 0xfe, 0x41]))) {
        BridgeAction::Parse(t) => assert_eq!(t, ""),
        _ => panic!("expected a parse"),
    }
    assert_eq!(text_of_frame(WsFrame::Binary(vec![0xc3, 0xa9])), Some("é".to_string()));
    assert_eq!(text_of_frame(WsFrame::Other), None);
}

#[test]
fn read_failure_and_end_stop_the_connection() {
    let mut failed = Bridge::new();
    assert!(matches!(failed.step(BridgeEvent::ReadFailed), BridgeAction::Stop));
    assert!(failed.is_stopped());
    let mut ended = Bridge::new();
    assert!(matches!(ended.step(BridgeEvent::Ended), BridgeAction::Stop));
    assert!(matches!(ended.step(BridgeEvent::Sent(true)), BridgeAction::Stop));
}

#[test]
fn bridge_accepts_only_awaited_events() {
    let mut bridge = Bridge::new();
    assert!(bridge.accepts(&BridgeEvent::Ended));
    assert!(!bridge.accepts(&BridgeEvent::Sent(true)));
    parse_step(&mut bridge, "x");
    assert!(bridge.accepts(&BridgeEvent::Parsed(Err(String::new()))));
    assert!(!bridge.accepts(&BridgeEvent::Started));
}

#[test]
fn server_stream_forwarder_relays_until_error() {
    let mut f = Forwarder::server_stream();
    let reply = EchoResponse { message: "Echo 1: go".to_string(), timestamp: 5 };
    let frame = forwarded_text(f.step(ForwardEvent::Item(Ok(reply))));
    assert_eq!(frame, "{\"method\":\"serverStream\",\"message\":\"Echo 1: go\",\"timestamp\":5}");
    assert!(matches!(f.step(ForwardEvent::Sent(true)), ForwardAction::Pull));
    assert!(matches!(f.step(ForwardEvent::Item(Err("reset".to_string()))), ForwardAction::Stop));
    assert!(matches!(f.step(ForwardEvent::Ended), ForwardAction::Stop));
}

#[test]
fn bidirectional_forwarder_reports_errors() {
    let mut f = Forwarder::bidirectional();
    let reply = EchoResponse { message: "Echo: Initial message".to_string(), timestamp: 8 };
    let frame = forwarded_text(f.step(ForwardEvent::Item(Ok(reply))));
    assert_eq!(
        frame,
        "{\"method\":\"bidirectionalStream\",\"message\":\"Echo: Initial message\",\"timestamp\":8}"
    );
    assert!(matches!(f.step(ForwardEvent::Sent(true)), ForwardAction::Pull));
    let err = forwarded_text(f.step(ForwardEvent::Item(Err("oops".to_string()))));
    assert_eq!(err, "Bidir error: oops");
    assert!(matches!(f.step(ForwardEvent::Sent(false)), ForwardAction::Stop));
    assert!(f.accepts(&ForwardEvent::Ended));
}

#[test]
fn forwarder_stops_at_end_of_stream() {
    let mut f = Forwarder::bidirectional();
    assert!(!f.accepts(&ForwardEvent::Sent(true)));
    assert!(matches!(f.step(ForwardEvent::Ended), ForwardAction::Stop));
}
