use grpc_echo::messages::EchoRequest;
use grpc_echo::server::{
    BidirectionalAction, EchoServer, Inbound, SERVER_STREAM_PAUSE_SECS, SERVER_STREAM_REPLIES,
};

#[test]
fn echo_prefixes_message_and_keeps_timestamp() {
    let server = EchoServer::default();
    let reply = server.echo(&EchoRequest::new("Hello from client"), 1_700_000_000);
    assert_eq!(reply.message, "Echo: Hello from client");
    assert_eq!(reply.timestamp, 1_700_000_000);
}

#[test]
fn echo_of_empty_message() {
    let server = EchoServer::default();
    let reply = server.echo(&EchoRequest::new(""), -3);
    assert_eq!(reply.message, "Echo: ");
    assert_eq!(reply.timestamp, -3);
}

#[test]
fn server_stream_sends_five_numbered_replies() {
    let server = EchoServer::default();
    let mut stream = server.server_stream(EchoRequest::new("Stream me some responses"));
    for i in 1..=5i64 {
        let reply = stream.next_reply(100 + i).expect("reply");
        assert_eq!(reply.message, format!("Echo {}: Stream me some responses", i));
        assert_eq!(reply.timestamp, 100 + i);
    }
    assert!(stream.next_reply(200).is_none());
    assert!(stream.next_reply(201).is_none());
    assert_eq!(SERVER_STREAM_REPLIES, 5);
    assert_eq!(SERVER_STREAM_PAUSE_SECS, 1);
}

#[test]
fn client_stream_summary_joins_messages() {
    let server = EchoServer::default();
    let mut summary = server.client_stream();
    for i in 1..=5 {
        summary.record(&EchoRequest::new(&format!("Client message {}", i)));
    }
    assert_eq!(summary.count(), 5);
    let reply = summary.response(9);
    assert_eq!(
        reply.message,
        "Received 5 messages: Client message 1, Client message 2, Client message 3, Client message 4, Client message 5"
    );
    assert_eq!(reply.timestamp, 9);
}

#[test]
fn client_stream_summary_of_nothing() {
    let server = EchoServer::default();
    let summary = server.client_stream();
    assert_eq!(summary.count(), 0);
    assert_eq!(summary.response(0).message, "Received 0 messages: ");
}

#[test]
fn client_stream_summary_skips_separator_after_empty_start() {
    let server = EchoServer::default();
    let mut summary = server.client_stream();
    summary.record(&EchoRequest::new(""));
    summary.record(&EchoRequest::new("a"));
    assert_eq!(summary.response(1).message, "Received 2 messages: a");
    summary.record(&EchoRequest::new(""));
    assert_eq!(summary.response(1).message, "Received 3 messages: a, ");
}

#[test]
fn bidirectional_session_echoes_until_failure() {
    let server = EchoServer::default();
    let mut session = server.bidirectional_stream();
    assert!(session.is_open());
    match session.on_inbound(Inbound::Request(EchoRequest::new("Bidirectional message 1")), 5) {
        BidirectionalAction::Reply(reply) => {
            assert_eq!(reply.message, "Echo: Bidirectional message 1");
            assert_eq!(reply.timestamp, 5);
        }
        BidirectionalAction::Close => panic!("expected a reply"),
    }
    session.on_reply_sent(true);
    assert!(session.is_open());
    assert!(matches!(session.on_inbound(Inbound::Failed, 6), BidirectionalAction::Close));
    assert!(!session.is_open());
    assert!(matches!(
        session.on_inbound(Inbound::Request(EchoRequest::new("late")), 7),
        BidirectionalAction::Close
    ));
}

#[test]
fn bidirectional_session_closes_on_end_and_on_lost_client() {
    let server = EchoServer::default();
    let mut ended = server.bidirectional_stream();
    assert!(matches!(ended.on_inbound(Inbound::Ended, 0), BidirectionalAction::Close));
    assert!(!ended.is_open());

    let mut lost = server.bidirectional_stream();
    assert!(matches!(
        lost.on_inbound(Inbound::Request(EchoRequest::new("x")), 0),
        BidirectionalAction::Reply(_)
    ));
    lost.on_reply_sent(false);
    assert!(!lost.is_open());
}

#[test]
fn bidirectional_session_echoes_every_request_in_order() {
    let server = EchoServer::default();
    let mut session = server.bidirectional_stream();
    let messages = ["one", "two", "three"];
    let mut replies = Vec::new();
    for (i, m) in messages.iter().enumerate() {
        match session.on_inbound(Inbound::Request(EchoRequest::new(m)), 10 + i as i64) {
            BidirectionalAction::Reply(reply) => replies.push((reply.message, reply.timestamp)),
            BidirectionalAction::Close => panic!("expected a reply"),
        }
        session.on_reply_sent(true);
    }
    assert!(matches!(session.on_inbound(Inbound::Ended, 20), BidirectionalAction::Close));
    assert!(!session.is_open());
    assert_eq!(
        replies,
        vec![
            ("Echo: one".to_string(), 10),
            ("Echo: two".to_string(), 11),
            ("Echo: three".to_string(), 12),
        ]
    );
}

#[test]
fn client_stream_summary_drops_only_leading_empty_messages() {
    let server = EchoServer::default();
    let mut summary = server.client_stream();
    for m in ["", "", "a", "", "b"] {
        summary.record(&EchoRequest::new(m));
    }
    assert_eq!(summary.response(0).message, "Received 5 messages: a, , b");
}
