use grpc_echo::client::{
    keep_reading, server_stream_request, unary_request, Outgoing, OutgoingKind, ReplyStream,
    OUTGOING_MESSAGES,
};

#[test]
fn fixed_requests() {
    assert_eq!(unary_request().message, "Hello from client");
    assert_eq!(server_stream_request().message, "Stream me some responses");
}

#[test]
fn client_stream_writer_produces_five_messages() {
    let mut w = Outgoing::new(OutgoingKind::ClientStream);
    assert_eq!(w.pause_millis(), 100);
    for i in 1..=5 {
        let q = w.next_request().expect("message");
        assert_eq!(q.message, format!("Client message {}", i));
        w.on_sent(true);
    }
    assert!(w.next_request().is_none());
    assert_eq!(OUTGOING_MESSAGES, 5);
}

#[test]
fn bidirectional_writer_stops_after_failed_write() {
    let mut w = Outgoing::new(OutgoingKind::Bidirectional);
    assert_eq!(w.pause_millis(), 1000);
    assert_eq!(w.next_request().expect("message").message, "Bidirectional message 1");
    w.on_sent(true);
    assert_eq!(w.next_request().expect("message").message, "Bidirectional message 2");
    w.on_sent(false);
    assert!(w.next_request().is_none());
}

#[test]
fn reading_continues_after_errors_only_on_server_stream() {
    assert!(keep_reading(ReplyStream::ServerStream, true));
    assert!(keep_reading(ReplyStream::ServerStream, false));
    assert!(keep_reading(ReplyStream::Bidirectional, true));
    assert!(!keep_reading(ReplyStream::Bidirectional, false));
}
