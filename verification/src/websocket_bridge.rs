//! The WebSocket-to-gRPC bridge.
//!
//! A browser sends JSON requests `{"method": .., "message": ..}` over a
//! WebSocket; the bridge calls the matching method of the echo service and
//! writes each reply back as a JSON frame. [`Bridge`] decides, for one
//! connection, what to do with each thing that happens; [`Forwarder`]
//! decides, for one opened gRPC stream, what to write back for each reply.
//! The caller performs every action (reading the socket, parsing JSON,
//! calling the service, writing frames, starting tasks) and reports back.
use vstd::prelude::*;
use vstd::utf8::{decode_utf8, valid_utf8};

use crate::json::{encode_response, response_json};
use crate::messages::{EchoRequest, EchoResponse, EchoResponseView};
use crate::server::echo_text;

verus! {

/// A frame read from the WebSocket.
pub enum WsFrame {
    /// A text frame.
    Text(String),
    /// A binary frame.
    Binary(Vec<u8>),
    /// A ping, pong or close frame.
    Other,
}

/// The mathematical value of a [`WsFrame`].
pub ghost enum WsFrameView {
    Text(Seq<char>),
    Binary(Seq<u8>),
    Other,
}

impl View for WsFrame {
    type V = WsFrameView;

    open spec fn view(&self) -> WsFrameView {
        match self {
            WsFrame::Text(s) => WsFrameView::Text(s@),
            WsFrame::Binary(b) => WsFrameView::Binary(b@),
            WsFrame::Other => WsFrameView::Other,
        }
    }
}

/// A request sent by a WebSocket client.
pub struct WsRequest {
    pub method: String,
    pub message: String,
}

/// What happened, as reported to the bridge by its driver.
pub enum BridgeEvent {
    /// A frame was read from the socket.
    Frame(WsFrame),
    /// Reading from the socket failed.
    ReadFailed,
    /// The socket has no more frames.
    Ended,
    /// The request text was parsed, or failed to parse with the given
    /// description of the parse error.
    Parsed(Result<WsRequest, String>),
    /// The unary echo call returned, or failed with the given description.
    EchoReturned(Result<EchoResponse, String>),
    /// The server-stream call was opened, or failed with the given description.
    ServerStreamOpened(Result<(), String>),
    /// The bidirectional call was opened, or failed with the given description.
    BidirectionalOpened(Result<(), String>),
    /// The forwarding task asked for was started.
    Started,
    /// A frame was written to the socket (`true`) or could not be (`false`).
    Sent(bool),
}

/// The mathematical value of a [`BridgeEvent`].
pub ghost enum BridgeEventView {
    Frame(WsFrameView),
    ReadFailed,
    Ended,
    Parsed(Result<(Seq<char>, Seq<char>), Seq<char>>),
    EchoReturned(Result<EchoResponseView, Seq<char>>),
    ServerStreamOpened(Result<(), Seq<char>>),
    BidirectionalOpened(Result<(), Seq<char>>),
    Started,
    Sent(bool),
}

impl View for BridgeEvent {
    type V = BridgeEventView;

    open spec fn view(&self) -> BridgeEventView {
        match self {
            BridgeEvent::Frame(f) => BridgeEventView::Frame(f@),
            BridgeEvent::ReadFailed => BridgeEventView::ReadFailed,
            BridgeEvent::Ended => BridgeEventView::Ended,
            BridgeEvent::Parsed(r) => BridgeEventView::Parsed(
                match r {
                    Ok(q) => Ok((q.method@, q.message@)),
                    Err(e) => Err(e@),
                },
            ),
            BridgeEvent::EchoReturned(r) => BridgeEventView::EchoReturned(
                match r {
                    Ok(reply) => Ok(reply@),
                    Err(e) => Err(e@),
                },
            ),
            BridgeEvent::ServerStreamOpened(r) => BridgeEventView::ServerStreamOpened(
                match r {
                    Ok(_) => Ok(()),
                    Err(e) => Err(e@),
                },
            ),
            BridgeEvent::BidirectionalOpened(r) => BridgeEventView::BidirectionalOpened(
                match r {
                    Ok(_) => Ok(()),
                    Err(e) => Err(e@),
                },
            ),
            BridgeEvent::Started => BridgeEventView::Started,
            BridgeEvent::Sent(ok) => BridgeEventView::Sent(*ok),
        }
    }
}

/// What the bridge asks its driver to do next.
pub enum BridgeAction {
    /// Read the next frame from the socket.
    ReadFrame,
    /// Parse this text as a JSON request.
    Parse(String),
    /// Make the unary echo call with this request.
    CallEcho(EchoRequest),
    /// Open the server stream with this request.
    CallServerStream(EchoRequest),
    /// Open the bidirectional stream.
    CallBidirectional,
    /// Start a task that forwards the opened server stream with
    /// [`Forwarder::server_stream`].
    ForwardServerStream,
    /// Send this first request on the opened bidirectional stream, then
    /// start a task that forwards its replies with [`Forwarder::bidirectional`].
    ForwardBidirectional(EchoRequest),
    /// Write this text frame to the socket.
    Send(String),
    /// Close the connection.
    Stop,
}

/// The mathematical value of a [`BridgeAction`].
pub ghost enum BridgeActionView {
    ReadFrame,
    Parse(Seq<char>),
    CallEcho(Seq<char>),
    CallServerStream(Seq<char>),
    CallBidirectional,
    ForwardServerStream,
    ForwardBidirectional(Seq<char>),
    Send(Seq<char>),
    Stop,
}

impl View for BridgeAction {
    type V = BridgeActionView;

    open spec fn view(&self) -> BridgeActionView {
        match self {
            BridgeAction::ReadFrame => BridgeActionView::ReadFrame,
            BridgeAction::Parse(t) => BridgeActionView::Parse(t@),
            BridgeAction::CallEcho(q) => BridgeActionView::CallEcho(q@),
            BridgeAction::CallServerStream(q) => BridgeActionView::CallServerStream(q@),
            BridgeAction::CallBidirectional => BridgeActionView::CallBidirectional,
            BridgeAction::ForwardServerStream => BridgeActionView::ForwardServerStream,
            BridgeAction::ForwardBidirectional(q) => BridgeActionView::ForwardBidirectional(q@),
            BridgeAction::Send(t) => BridgeActionView::Send(t@),
            BridgeAction::Stop => BridgeActionView::Stop,
        }
    }
}

/// Where a connection stands: what the bridge waits for.
#[derive(Clone, Copy)]
pub enum BridgePhase {
    /// Waiting for the next frame.
    Reading,
    /// Waiting for the parse of a request.
    Parsing,
    /// Waiting for the unary echo call.
    AwaitingEcho,
    /// Waiting for the server stream to open.
    AwaitingServerStream,
    /// Waiting for the bidirectional stream to open.
    AwaitingBidirectional,
    /// Waiting for the server-stream forwarder to start.
    StartingServerForward,
    /// Waiting for the bidirectional forwarder to start.
    StartingBidirectionalForward,
    /// Waiting for a frame to be written; `true` when a failed write ends
    /// the connection.
    Sending(bool),
    /// The connection is over.
    Stopped,
}

/// The text the bridge takes from a frame: a text frame's text, a binary
/// frame's bytes read as UTF-8 (empty when they are not UTF-8), and nothing
/// for the other frames, which are skipped.
pub open spec fn frame_text(f: WsFrameView) -> Option<Seq<char>> {
    match f {
        WsFrameView::Text(s) => Some(s),
        WsFrameView::Binary(b) => Some(
            if valid_utf8(b) {
                decode_utf8(b)
            } else {
                Seq::empty()
            },
        ),
        WsFrameView::Other => None,
    }
}

/// Answer to a request that is not valid JSON for a request.
pub open spec fn invalid_json_text(detail: Seq<char>) -> Seq<char> {
    "Invalid JSON format: "@ + detail
}

/// Answer to a request naming a method the bridge does not know.
pub open spec fn unknown_method_text(method: Seq<char>) -> Seq<char> {
    "Unknown method: "@ + method
}

/// Answer when the echo call, or opening the bidirectional stream, fails.
pub open spec fn call_error_text(detail: Seq<char>) -> Seq<char> {
    "Error: "@ + detail
}

/// Answer when opening the server stream fails.
pub open spec fn stream_error_text(detail: Seq<char>) -> Seq<char> {
    "Stream Error: "@ + detail
}

/// Frame written when a reply on the bidirectional stream is an error.
pub open spec fn bidirectional_error_text(detail: Seq<char>) -> Seq<char> {
    "Bidir error: "@ + detail
}

/// The frame announcing that the bidirectional stream is established.
pub open spec fn ready_json() -> Seq<char> {
    response_json(
        "bidirectionalStreamReady"@,
        "Stream established, send messages to continue"@,
        0,
    )
}

/// The first request sent on a bidirectional stream.
pub open spec fn initial_message() -> Seq<char> {
    "Initial message"@
}

/// Which events the bridge can take in each phase.
pub open spec fn bridge_accepts(phase: BridgePhase, event: BridgeEventView) -> bool {
    match phase {
        BridgePhase::Reading => event is Frame || event is ReadFailed || event is Ended,
        BridgePhase::Parsing => event is Parsed,
        BridgePhase::AwaitingEcho => event is EchoReturned,
        BridgePhase::AwaitingServerStream => event is ServerStreamOpened,
        BridgePhase::AwaitingBidirectional => event is BidirectionalOpened,
        BridgePhase::StartingServerForward => event is Started,
        BridgePhase::StartingBidirectionalForward => event is Started,
        BridgePhase::Sending(_) => event is Sent,
        BridgePhase::Stopped => true,
    }
}

/// How the bridge routes a parsed request.
pub open spec fn route(method: Seq<char>, message: Seq<char>) -> (BridgePhase, BridgeActionView) {
    if method == "echo"@ {
        (BridgePhase::AwaitingEcho, BridgeActionView::CallEcho(message))
    } else if method == "serverStream"@ {
        (BridgePhase::AwaitingServerStream, BridgeActionView::CallServerStream(message))
    } else if method == "bidirectionalStream"@ {
        (BridgePhase::AwaitingBidirectional, BridgeActionView::CallBidirectional)
    } else {
        (BridgePhase::Sending(true), BridgeActionView::Send(unknown_method_text(method)))
    }
}

/// The bridge's transition: the phase after `event` and the action asked for.
pub open spec fn bridge_step(phase: BridgePhase, event: BridgeEventView) -> (
    BridgePhase,
    BridgeActionView,
) {
    match phase {
        BridgePhase::Reading => match event {
            BridgeEventView::Frame(f) => match frame_text(f) {
                Some(t) => (BridgePhase::Parsing, BridgeActionView::Parse(t)),
                None => (BridgePhase::Reading, BridgeActionView::ReadFrame),
            },
            _ => (BridgePhase::Stopped, BridgeActionView::Stop),
        },
        BridgePhase::Parsing => match event {
            BridgeEventView::Parsed(Ok((method, message))) => route(method, message),
            BridgeEventView::Parsed(Err(detail)) => (
                BridgePhase::Sending(true),
                BridgeActionView::Send(invalid_json_text(detail)),
            ),
            _ => (BridgePhase::Stopped, BridgeActionView::Stop),
        },
        BridgePhase::AwaitingEcho => match event {
            BridgeEventView::EchoReturned(Ok(reply)) => (
                BridgePhase::Sending(true),
                BridgeActionView::Send(response_json("echo"@, reply.message, reply.timestamp)),
            ),
            BridgeEventView::EchoReturned(Err(detail)) => (
                BridgePhase::Sending(true),
                BridgeActionView::Send(call_error_text(detail)),
            ),
            _ => (BridgePhase::Stopped, BridgeActionView::Stop),
        },
        BridgePhase::AwaitingServerStream => match event {
            BridgeEventView::ServerStreamOpened(Ok(_)) => (
                BridgePhase::StartingServerForward,
                BridgeActionView::ForwardServerStream,
            ),
            BridgeEventView::ServerStreamOpened(Err(detail)) => (
                BridgePhase::Sending(false),
                BridgeActionView::Send(stream_error_text(detail)),
            ),
            _ => (BridgePhase::Stopped, BridgeActionView::Stop),
        },
        BridgePhase::AwaitingBidirectional => match event {
            BridgeEventView::BidirectionalOpened(Ok(_)) => (
                BridgePhase::StartingBidirectionalForward,
                BridgeActionView::ForwardBidirectional(initial_message()),
            ),
            BridgeEventView::BidirectionalOpened(Err(detail)) => (
                BridgePhase::Sending(false),
                BridgeActionView::Send(call_error_text(detail)),
            ),
            _ => (BridgePhase::Stopped, BridgeActionView::Stop),
        },
        BridgePhase::StartingServerForward => (BridgePhase::Reading, BridgeActionView::ReadFrame),
        BridgePhase::StartingBidirectionalForward => (
            BridgePhase::Sending(false),
            BridgeActionView::Send(ready_json()),
        ),
        BridgePhase::Sending(fatal) => match event {
            BridgeEventView::Sent(delivered) => if fatal && !delivered {
                (BridgePhase::Stopped, BridgeActionView::Stop)
            } else {
                (BridgePhase::Reading, BridgeActionView::ReadFrame)
            },
            _ => (BridgePhase::Stopped, BridgeActionView::Stop),
        },
        BridgePhase::Stopped => (BridgePhase::Stopped, BridgeActionView::Stop),
    }
}

/// Calls `std::str::from_utf8`, which succeeds exactly when the bytes are
/// well-formed UTF-8 and then views them as the text they encode.
#[verifier::external_body]
fn utf8_text<'a>(bytes: &'a [u8]) -> (r: Option<&'a str>)
    ensures
        r is Some <==> valid_utf8(bytes@),
        r matches Some(t) ==> t@ == decode_utf8(bytes@),
{
    match std::str::from_utf8(bytes) {
        Ok(t) => Some(t),
        Err(_) => None,
    }
}

/// The text of a frame, or `None` for a frame the bridge skips.
pub fn text_of_frame(frame: WsFrame) -> (r: Option<String>)
    ensures
        r matches Some(t) ==> frame_text(frame@) == Some(t@),
        r is None ==> frame_text(frame@) is None,
{
    match frame {
        WsFrame::Text(t) => Some(t),
        WsFrame::Binary(bytes) => match utf8_text(bytes.as_slice()) {
            Some(t) => Some(String::from_str(t)),
            None => Some(String::new()),
        },
        WsFrame::Other => None,
    }
}

/// `prefix` followed by `rest`.
fn prefixed(prefix: &str, rest: &str) -> (r: String)
    ensures
        r@ == prefix@ + rest@,
{
    let mut r = String::from_str(prefix);
    r.append(rest);
    r
}

/// One WebSocket connection of the bridge.
pub struct Bridge {
    phase: BridgePhase,
}

impl Bridge {
    /// A connection that waits for its first frame.
    pub fn new() -> (b: Bridge)
        ensures
            b.phase() == BridgePhase::Reading,
    {
        Bridge { phase: BridgePhase::Reading }
    }

    /// What the connection waits for.
    pub closed spec fn phase(self) -> BridgePhase {
        self.phase
    }

    /// Whether `event` is one the connection waits for now.
    pub fn accepts(&self, event: &BridgeEvent) -> (b: bool)
        ensures
            b == bridge_accepts(self.phase(), event@),
    {
        match self.phase {
            BridgePhase::Reading => match event {
                BridgeEvent::Frame(_) | BridgeEvent::ReadFailed | BridgeEvent::Ended => true,
                _ => false,
            },
            BridgePhase::Parsing => match event {
                BridgeEvent::Parsed(_) => true,
                _ => false,
            },
            BridgePhase::AwaitingEcho => match event {
                BridgeEvent::EchoReturned(_) => true,
                _ => false,
            },
            BridgePhase::AwaitingServerStream => match event {
                BridgeEvent::ServerStreamOpened(_) => true,
                _ => false,
            },
            BridgePhase::AwaitingBidirectional => match event {
                BridgeEvent::BidirectionalOpened(_) => true,
                _ => false,
            },
            BridgePhase::StartingServerForward | BridgePhase::StartingBidirectionalForward => {
                match event {
                    BridgeEvent::Started => true,
                    _ => false,
                }
            },
            BridgePhase::Sending(_) => match event {
                BridgeEvent::Sent(_) => true,
                _ => false,
            },
            BridgePhase::Stopped => true,
        }
    }

    /// Whether the connection is over.
    pub fn is_stopped(&self) -> (b: bool)
        ensures
            b == (self.phase() is Stopped),
    {
        match self.phase {
            BridgePhase::Stopped => true,
            _ => false,
        }
    }

    /// Takes in what happened and says what to do next, as
    /// [`bridge_step`] defines.
    pub fn step(&mut self, event: BridgeEvent) -> (a: BridgeAction)
        requires
            bridge_accepts(old(self).phase(), event@),
        ensures
            (final(self).phase(), a@) == bridge_step(old(self).phase(), event@),
    {
        let (phase, action) = match self.phase {
            BridgePhase::Reading => match event {
                BridgeEvent::Frame(frame) => match text_of_frame(frame) {
                    Some(t) => (BridgePhase::Parsing, BridgeAction::Parse(t)),
                    None => (BridgePhase::Reading, BridgeAction::ReadFrame),
                },
                _ => (BridgePhase::Stopped, BridgeAction::Stop),
            },
            BridgePhase::Parsing => match event {
                BridgeEvent::Parsed(Ok(request)) => Self::route(request),
                BridgeEvent::Parsed(Err(detail)) => (
                    BridgePhase::Sending(true),
                    BridgeAction::Send(prefixed("Invalid JSON format: ", detail.as_str())),
                ),
                _ => (BridgePhase::Stopped, BridgeAction::Stop),
            },
            BridgePhase::AwaitingEcho => match event {
                BridgeEvent::EchoReturned(Ok(reply)) => (
                    BridgePhase::Sending(true),
                    BridgeAction::Send(
                        encode_response("echo", reply.message.as_str(), reply.timestamp),
                    ),
                ),
                BridgeEvent::EchoReturned(Err(detail)) => (
                    BridgePhase::Sending(true),
                    BridgeAction::Send(prefixed("Error: ", detail.as_str())),
                ),
                _ => (BridgePhase::Stopped, BridgeAction::Stop),
            },
            BridgePhase::AwaitingServerStream => match event {
                BridgeEvent::ServerStreamOpened(Ok(_)) => (
                    BridgePhase::StartingServerForward,
                    BridgeAction::ForwardServerStream,
                ),
                BridgeEvent::ServerStreamOpened(Err(detail)) => (
                    BridgePhase::Sending(false),
                    BridgeAction::Send(prefixed("Stream Error: ", detail.as_str())),
                ),
                _ => (BridgePhase::Stopped, BridgeAction::Stop),
            },
            BridgePhase::AwaitingBidirectional => match event {
                BridgeEvent::BidirectionalOpened(Ok(_)) => (
                    BridgePhase::StartingBidirectionalForward,
                    BridgeAction::ForwardBidirectional(EchoRequest::new("Initial message")),
                ),
                BridgeEvent::BidirectionalOpened(Err(detail)) => (
                    BridgePhase::Sending(false),
                    BridgeAction::Send(prefixed("Error: ", detail.as_str())),
                ),
                _ => (BridgePhase::Stopped, BridgeAction::Stop),
            },
            BridgePhase::StartingServerForward => (BridgePhase::Reading, BridgeAction::ReadFrame),
            BridgePhase::StartingBidirectionalForward => (
                BridgePhase::Sending(false),
                BridgeAction::Send(
                    encode_response(
                        "bidirectionalStreamReady",
                        "Stream established, send messages to continue",
                        0,
                    ),
                ),
            ),
            BridgePhase::Sending(fatal) => match event {
                BridgeEvent::Sent(delivered) => if fatal && !delivered {
                    (BridgePhase::Stopped, BridgeAction::Stop)
                } else {
                    (BridgePhase::Reading, BridgeAction::ReadFrame)
                },
                _ => (BridgePhase::Stopped, BridgeAction::Stop),
            },
            BridgePhase::Stopped => (BridgePhase::Stopped, BridgeAction::Stop),
        };
        self.phase = phase;
        action
    }

    fn route(request: WsRequest) -> (r: (BridgePhase, BridgeAction))
        ensures
            (r.0, r.1@) == route(request.method@, request.message@),
    {
        if request.method == String::from_str("echo") {
            (BridgePhase::AwaitingEcho, BridgeAction::CallEcho(EchoRequest { message: request.message }))
        } else if request.method == String::from_str("serverStream") {
            (
                BridgePhase::AwaitingServerStream,
                BridgeAction::CallServerStream(EchoRequest { message: request.message }),
            )
        } else if request.method == String::from_str("bidirectionalStream") {
            (BridgePhase::AwaitingBidirectional, BridgeAction::CallBidirectional)
        } else {
            (
                BridgePhase::Sending(true),
                BridgeAction::Send(prefixed("Unknown method: ", request.method.as_str())),
            )
        }
    }
}

/// Which gRPC stream a forwarder relays.
#[derive(Clone, Copy)]
pub enum StreamKind {
    /// The server stream opened for a `serverStream` request.
    ServerStream,
    /// The bidirectional stream opened for a `bidirectionalStream` request.
    Bidirectional,
}

/// The `method` field of the frames a forwarder writes.
pub open spec fn stream_method(kind: StreamKind) -> Seq<char> {
    match kind {
        StreamKind::ServerStream => "serverStream"@,
        StreamKind::Bidirectional => "bidirectionalStream"@,
    }
}

/// What happened, as reported to a forwarder by its task.
pub enum ForwardEvent {
    /// The stream yielded a reply, or an error with the given description.
    Item(Result<EchoResponse, String>),
    /// The stream has no more items.
    Ended,
    /// A frame was written to the socket (`true`) or could not be (`false`).
    Sent(bool),
}

/// The mathematical value of a [`ForwardEvent`].
pub ghost enum ForwardEventView {
    Item(Result<EchoResponseView, Seq<char>>),
    Ended,
    Sent(bool),
}

impl View for ForwardEvent {
    type V = ForwardEventView;

    open spec fn view(&self) -> ForwardEventView {
        match self {
            ForwardEvent::Item(r) => ForwardEventView::Item(
                match r {
                    Ok(reply) => Ok(reply@),
                    Err(e) => Err(e@),
                },
            ),
            ForwardEvent::Ended => ForwardEventView::Ended,
            ForwardEvent::Sent(ok) => ForwardEventView::Sent(*ok),
        }
    }
}

/// What a forwarder asks its task to do next.
pub enum ForwardAction {
    /// Wait for the next item of the stream.
    Pull,
    /// Write this text frame to the socket.
    Send(String),
    /// End the task.
    Stop,
}

/// The mathematical value of a [`ForwardAction`].
pub ghost enum ForwardActionView {
    Pull,
    Send(Seq<char>),
    Stop,
}

impl View for ForwardAction {
    type V = ForwardActionView;

    open spec fn view(&self) -> ForwardActionView {
        match self {
            ForwardAction::Pull => ForwardActionView::Pull,
            ForwardAction::Send(t) => ForwardActionView::Send(t@),
            ForwardAction::Stop => ForwardActionView::Stop,
        }
    }
}

/// Where a forwarder stands.
#[derive(Clone, Copy)]
pub enum ForwardPhase {
    /// Waiting for the next item of the stream.
    Pulling,
    /// Waiting for a frame to be written.
    Sending,
    /// The task is over.
    Stopped,
}

/// Which events a forwarder can take in each phase.
pub open spec fn forward_accepts(phase: ForwardPhase, event: ForwardEventView) -> bool {
    match phase {
        ForwardPhase::Pulling => event is Item || event is Ended,
        ForwardPhase::Sending => event is Sent,
        ForwardPhase::Stopped => true,
    }
}

/// A forwarder's transition. Each reply becomes a JSON frame; an error ends
/// a server-stream forwarder and is reported in a frame by a bidirectional
/// one; the end of the stream or a frame that cannot be written ends both.
pub open spec fn forward_step(kind: StreamKind, phase: ForwardPhase, event: ForwardEventView) -> (
    ForwardPhase,
    ForwardActionView,
) {
    match phase {
        ForwardPhase::Pulling => match event {
            ForwardEventView::Item(Ok(reply)) => (
                ForwardPhase::Sending,
                ForwardActionView::Send(
                    response_json(stream_method(kind), reply.message, reply.timestamp),
                ),
            ),
            ForwardEventView::Item(Err(detail)) => match kind {
                StreamKind::ServerStream => (ForwardPhase::Stopped, ForwardActionView::Stop),
                StreamKind::Bidirectional => (
                    ForwardPhase::Sending,
                    ForwardActionView::Send(bidirectional_error_text(detail)),
                ),
            },
            _ => (ForwardPhase::Stopped, ForwardActionView::Stop),
        },
        ForwardPhase::Sending => match event {
            ForwardEventView::Sent(true) => (ForwardPhase::Pulling, ForwardActionView::Pull),
            _ => (ForwardPhase::Stopped, ForwardActionView::Stop),
        },
        ForwardPhase::Stopped => (ForwardPhase::Stopped, ForwardActionView::Stop),
    }
}

/// The relay of one opened gRPC stream to the socket.
pub struct Forwarder {
    kind: StreamKind,
    phase: ForwardPhase,
}

impl Forwarder {
    /// A forwarder for a server stream, waiting for the first reply.
    pub fn server_stream() -> (f: Forwarder)
        ensures
            f.kind() == StreamKind::ServerStream,
            f.phase() == ForwardPhase::Pulling,
    {
        Forwarder { kind: StreamKind::ServerStream, phase: ForwardPhase::Pulling }
    }

    /// A forwarder for a bidirectional stream, waiting for the first reply.
    pub fn bidirectional() -> (f: Forwarder)
        ensures
            f.kind() == StreamKind::Bidirectional,
            f.phase() == ForwardPhase::Pulling,
    {
        Forwarder { kind: StreamKind::Bidirectional, phase: ForwardPhase::Pulling }
    }

    /// The stream relayed.
    pub closed spec fn kind(self) -> StreamKind {
        self.kind
    }

    /// What the forwarder waits for.
    pub closed spec fn phase(self) -> ForwardPhase {
        self.phase
    }

    /// Whether `event` is one the forwarder waits for now.
    pub fn accepts(&self, event: &ForwardEvent) -> (b: bool)
        ensures
            b == forward_accepts(self.phase(), event@),
    {
        match self.phase {
            ForwardPhase::Pulling => match event {
                ForwardEvent::Sent(_) => false,
                _ => true,
            },
            ForwardPhase::Sending => match event {
                ForwardEvent::Sent(_) => true,
                _ => false,
            },
            ForwardPhase::Stopped => true,
        }
    }

    /// Takes in what happened and says what to do next, as
    /// [`forward_step`] defines.
    pub fn step(&mut self, event: ForwardEvent) -> (a: ForwardAction)
        requires
            forward_accepts(old(self).phase(), event@),
        ensures
            final(self).kind() == old(self).kind(),
            (final(self).phase(), a@) == forward_step(old(self).kind(), old(self).phase(), event@),
    {
        let (phase, action) = match self.phase {
            ForwardPhase::Pulling => match event {
                ForwardEvent::Item(Ok(reply)) => {
                    let method = match self.kind {
                        StreamKind::ServerStream => "serverStream",
                        StreamKind::Bidirectional => "bidirectionalStream",
                    };
                    (
                        ForwardPhase::Sending,
                        ForwardAction::Send(
                            encode_response(method, reply.message.as_str(), reply.timestamp),
                        ),
                    )
                },
                ForwardEvent::Item(Err(detail)) => match self.kind {
                    StreamKind::ServerStream => (ForwardPhase::Stopped, ForwardAction::Stop),
                    StreamKind::Bidirectional => (
                        ForwardPhase::Sending,
                        ForwardAction::Send(prefixed("Bidir error: ", detail.as_str())),
                    ),
                },
                _ => (ForwardPhase::Stopped, ForwardAction::Stop),
            },
            ForwardPhase::Sending => match event {
                ForwardEvent::Sent(true) => (ForwardPhase::Pulling, ForwardAction::Pull),
                _ => (ForwardPhase::Stopped, ForwardAction::Stop),
            },
            ForwardPhase::Stopped => (ForwardPhase::Stopped, ForwardAction::Stop),
        };
        self.phase = phase;
        action
    }
}

/// The phase reached and the actions asked for when a connection in
/// `phase` takes in `events` one after another.
pub open spec fn bridge_run(phase: BridgePhase, events: Seq<BridgeEventView>) -> (
    BridgePhase,
    Seq<BridgeActionView>,
)
    decreases events.len(),
{
    if events.len() == 0 {
        (phase, Seq::empty())
    } else {
        let (next, action) = bridge_step(phase, events[0]);
        let (last, rest) = bridge_run(next, events.drop_first());
        (last, seq![action] + rest)
    }
}

/// Once a connection is over it stays over: whatever is reported, it asks
/// to stop.
pub proof fn lemma_stopped_connection_stays_stopped(events: Seq<BridgeEventView>)
    ensures
        bridge_run(BridgePhase::Stopped, events).0 == BridgePhase::Stopped,
        forall|i: int|
            0 <= i < events.len() ==> #[trigger] bridge_run(BridgePhase::Stopped, events).1[i]
                == BridgeActionView::Stop,
        bridge_run(BridgePhase::Stopped, events).1.len() == events.len(),
    decreases events.len(),
{
    if events.len() > 0 {
        let rest = events.drop_first();
        lemma_stopped_connection_stays_stopped(rest);
        let (last, tail) = bridge_run(BridgePhase::Stopped, rest);
        assert(bridge_run(BridgePhase::Stopped, events).1 == seq![BridgeActionView::Stop] + tail);
        assert forall|i: int| 0 <= i < events.len() implies #[trigger] bridge_run(
            BridgePhase::Stopped,
            events,
        ).1[i] == BridgeActionView::Stop by {
            if i > 0 {
                assert(bridge_run(BridgePhase::Stopped, events).1[i] == tail[i - 1]);
            }
        }
    }
}

/// An `echo` request is answered with the echo of its message: the text of
/// the frame is parsed, the unary call is made with the message, the
/// server's reply `Echo: <message>` is written back as the JSON frame of
/// method `echo`, and once it is written the connection reads on.
pub proof fn lemma_echo_round_trip(text: Seq<char>, message: Seq<char>, timestamp: int)
    ensures
        ({
            let reply = EchoResponseView { message: echo_text(message), timestamp };
            bridge_run(
                BridgePhase::Reading,
                seq![
                    BridgeEventView::Frame(WsFrameView::Text(text)),
                    BridgeEventView::Parsed(Ok(("echo"@, message))),
                    BridgeEventView::EchoReturned(Ok(reply)),
                    BridgeEventView::Sent(true),
                ],
            ) == (
                BridgePhase::Reading,
                seq![
                    BridgeActionView::Parse(text),
                    BridgeActionView::CallEcho(message),
                    BridgeActionView::Send(response_json("echo"@, echo_text(message), timestamp)),
                    BridgeActionView::ReadFrame,
                ],
            )
        }),
{
    let reply = EchoResponseView { message: echo_text(message), timestamp };
    let e4 = seq![BridgeEventView::Sent(true)];
    let e3 = seq![BridgeEventView::EchoReturned(Ok(reply))] + e4;
    let e2 = seq![BridgeEventView::Parsed(Ok(("echo"@, message)))] + e3;
    let e1 = seq![BridgeEventView::Frame(WsFrameView::Text(text))] + e2;
    assert(e4.drop_first() =~= Seq::<BridgeEventView>::empty());
    assert(e3.drop_first() =~= e4);
    assert(e2.drop_first() =~= e3);
    assert(e1.drop_first() =~= e2);
    let r4 = bridge_run(BridgePhase::Sending(true), e4);
    assert(r4 == (BridgePhase::Reading, seq![BridgeActionView::ReadFrame])) by {
        assert(bridge_run(BridgePhase::Reading, Seq::<BridgeEventView>::empty()).1 =~= Seq::empty());
        assert(seq![BridgeActionView::ReadFrame] + Seq::<BridgeActionView>::empty() =~= seq![BridgeActionView::ReadFrame]);
    }
    let a3 = BridgeActionView::Send(response_json("echo"@, echo_text(message), timestamp));
    let r3 = bridge_run(BridgePhase::AwaitingEcho, e3);
    assert(r3 == (BridgePhase::Reading, seq![a3] + r4.1));
    let r2 = bridge_run(BridgePhase::Parsing, e2);
    assert(r2 == (BridgePhase::Reading, seq![BridgeActionView::CallEcho(message)] + r3.1));
    let r1 = bridge_run(BridgePhase::Reading, e1);
    assert(r1 == (BridgePhase::Reading, seq![BridgeActionView::Parse(text)] + r2.1));
    assert(e1 =~= seq![
        BridgeEventView::Frame(WsFrameView::Text(text)),
        BridgeEventView::Parsed(Ok(("echo"@, message))),
        BridgeEventView::EchoReturned(Ok(reply)),
        BridgeEventView::Sent(true),
    ]);
    assert(r1.1 =~= seq![
        BridgeActionView::Parse(text),
        BridgeActionView::CallEcho(message),
        a3,
        BridgeActionView::ReadFrame,
    ]);
}

/// A request that is refused (not valid JSON for a request, or naming an
/// unknown method) is answered with a frame saying why, and so is an echo
/// call that fails; the connection goes on when that frame is written and
/// ends when it cannot be.
pub proof fn lemma_refused_request_is_answered(
    detail: Seq<char>,
    method: Seq<char>,
    message: Seq<char>,
    delivered: bool,
)
    requires
        method != "echo"@,
        method != "serverStream"@,
        method != "bidirectionalStream"@,
    ensures
        bridge_step(BridgePhase::Parsing, BridgeEventView::Parsed(Err(detail))) == (
            BridgePhase::Sending(true),
            BridgeActionView::Send("Invalid JSON format: "@ + detail),
        ),
        bridge_step(BridgePhase::Parsing, BridgeEventView::Parsed(Ok((method, message)))) == (
            BridgePhase::Sending(true),
            BridgeActionView::Send("Unknown method: "@ + method),
        ),
        bridge_step(BridgePhase::AwaitingEcho, BridgeEventView::EchoReturned(Err(detail))) == (
            BridgePhase::Sending(true),
            BridgeActionView::Send("Error: "@ + detail),
        ),
        bridge_step(BridgePhase::Sending(true), BridgeEventView::Sent(delivered)) == (if delivered {
            (BridgePhase::Reading, BridgeActionView::ReadFrame)
        } else {
            (BridgePhase::Stopped, BridgeActionView::Stop)
        }),
{
}

/// A failure to open a stream is reported to the client, and the
/// connection goes on whether or not that report is written; the same holds
/// for the frame announcing an established bidirectional stream.
pub proof fn lemma_stream_setup_never_ends_connection(detail: Seq<char>, delivered: bool)
    ensures
        bridge_step(
            BridgePhase::AwaitingServerStream,
            BridgeEventView::ServerStreamOpened(Err(detail)),
        ) == (BridgePhase::Sending(false), BridgeActionView::Send("Stream Error: "@ + detail)),
        bridge_step(
            BridgePhase::AwaitingBidirectional,
            BridgeEventView::BidirectionalOpened(Err(detail)),
        ) == (BridgePhase::Sending(false), BridgeActionView::Send("Error: "@ + detail)),
        bridge_step(BridgePhase::StartingBidirectionalForward, BridgeEventView::Started) == (
            BridgePhase::Sending(false),
            BridgeActionView::Send(
                response_json(
                    "bidirectionalStreamReady"@,
                    "Stream established, send messages to continue"@,
                    0,
                ),
            ),
        ),
        bridge_step(BridgePhase::StartingServerForward, BridgeEventView::Started) == (
            BridgePhase::Reading,
            BridgeActionView::ReadFrame,
        ),
        bridge_step(BridgePhase::Sending(false), BridgeEventView::Sent(delivered)) == (
            BridgePhase::Reading,
            BridgeActionView::ReadFrame,
        ),
{
}

/// A text frame's text and a binary frame's UTF-8 text are parsed as a
/// request (a binary frame that is not UTF-8 as the empty text); control
/// frames are skipped; a failed read or the end of the socket stops the
/// connection.
pub proof fn lemma_frames_read(text: Seq<char>, bytes: Seq<u8>)
    ensures
        bridge_step(BridgePhase::Reading, BridgeEventView::Frame(WsFrameView::Text(text))) == (
            BridgePhase::Parsing,
            BridgeActionView::Parse(text),
        ),
        valid_utf8(bytes) ==> bridge_step(
            BridgePhase::Reading,
            BridgeEventView::Frame(WsFrameView::Binary(bytes)),
        ) == (BridgePhase::Parsing, BridgeActionView::Parse(decode_utf8(bytes))),
        !valid_utf8(bytes) ==> bridge_step(
            BridgePhase::Reading,
            BridgeEventView::Frame(WsFrameView::Binary(bytes)),
        ) == (BridgePhase::Parsing, BridgeActionView::Parse(Seq::empty())),
        bridge_step(BridgePhase::Reading, BridgeEventView::Frame(WsFrameView::Other)) == (
            BridgePhase::Reading,
            BridgeActionView::ReadFrame,
        ),
        bridge_step(BridgePhase::Reading, BridgeEventView::ReadFailed) == (
            BridgePhase::Stopped,
            BridgeActionView::Stop,
        ),
        bridge_step(BridgePhase::Reading, BridgeEventView::Ended) == (
            BridgePhase::Stopped,
            BridgeActionView::Stop,
        ),
{
}

/// Taking in `a` and then `b` is taking in `a + b`: the actions are those
/// asked for `a` followed by those asked for `b`.
pub proof fn lemma_bridge_run_append(
    phase: BridgePhase,
    a: Seq<BridgeEventView>,
    b: Seq<BridgeEventView>,
)
    ensures
        ({
            let (mid, first) = bridge_run(phase, a);
            let (last, second) = bridge_run(mid, b);
            bridge_run(phase, a + b) == (last, first + second)
        }),
    decreases a.len(),
{
    if a.len() == 0 {
        assert(a + b =~= b);
        assert(Seq::<BridgeActionView>::empty() + bridge_run(phase, b).1 =~= bridge_run(
            phase,
            b,
        ).1);
    } else {
        let (next, action) = bridge_step(phase, a[0]);
        assert((a + b).drop_first() =~= a.drop_first() + b);
        assert((a + b)[0] == a[0]);
        lemma_bridge_run_append(next, a.drop_first(), b);
        let (mid, first_rest) = bridge_run(next, a.drop_first());
        let second = bridge_run(mid, b).1;
        assert(seq![action] + (first_rest + second) =~= (seq![action] + first_rest) + second);
    }
}

/// The events of an echo request sent as the text frame `text`, answered
/// with `reply`, whose answer is written.
pub open spec fn echo_exchange(text: Seq<char>, message: Seq<char>, reply: EchoResponseView) -> Seq<
    BridgeEventView,
> {
    seq![
        BridgeEventView::Frame(WsFrameView::Text(text)),
        BridgeEventView::Parsed(Ok(("echo"@, message))),
        BridgeEventView::EchoReturned(Ok(reply)),
        BridgeEventView::Sent(true),
    ]
}

/// The events of a `serverStream` request sent as the text frame `text`,
/// whose stream opens and whose forwarder starts.
pub open spec fn server_stream_exchange(text: Seq<char>, message: Seq<char>) -> Seq<BridgeEventView> {
    seq![
        BridgeEventView::Frame(WsFrameView::Text(text)),
        BridgeEventView::Parsed(Ok(("serverStream"@, message))),
        BridgeEventView::ServerStreamOpened(Ok(())),
        BridgeEventView::Started,
    ]
}

proof fn lemma_run4(phase: BridgePhase, e: Seq<BridgeEventView>)
    requires
        e.len() == 4,
    ensures
        ({
            let (p1, a1) = bridge_step(phase, e[0]);
            let (p2, a2) = bridge_step(p1, e[1]);
            let (p3, a3) = bridge_step(p2, e[2]);
            let (p4, a4) = bridge_step(p3, e[3]);
            bridge_run(phase, e) == (p4, seq![a1, a2, a3, a4])
        }),
{
    let (p1, a1) = bridge_step(phase, e[0]);
    let (p2, a2) = bridge_step(p1, e[1]);
    let (p3, a3) = bridge_step(p2, e[2]);
    let (p4, a4) = bridge_step(p3, e[3]);
    let e1 = e.drop_first();
    let e2 = e1.drop_first();
    let e3 = e2.drop_first();
    let e4 = e3.drop_first();
    assert(e4 =~= Seq::<BridgeEventView>::empty());
    assert(e1[0] == e[1] && e2[0] == e[2] && e3[0] == e[3]);
    assert(bridge_run(p4, e4) == (p4, Seq::<BridgeActionView>::empty()));
    assert(bridge_run(p3, e3).1 =~= seq![a4]);
    assert(bridge_run(p2, e2).1 =~= seq![a3, a4]);
    assert(bridge_run(p1, e1).1 =~= seq![a2, a3, a4]);
    assert(bridge_run(phase, e).1 =~= seq![a1, a2, a3, a4]);
}

/// A `serverStream` request opens the stream with its message, starts the
/// forwarder, and then the connection reads on: an echo request that
/// follows is answered just as on a fresh connection.
pub proof fn lemma_server_stream_then_echo(
    text: Seq<char>,
    message: Seq<char>,
    echo_frame: Seq<char>,
    echo_message: Seq<char>,
    reply: EchoResponseView,
)
    ensures
        bridge_run(BridgePhase::Reading, server_stream_exchange(text, message)) == (
            BridgePhase::Reading,
            seq![
                BridgeActionView::Parse(text),
                BridgeActionView::CallServerStream(message),
                BridgeActionView::ForwardServerStream,
                BridgeActionView::ReadFrame,
            ],
        ),
        bridge_run(
            BridgePhase::Reading,
            server_stream_exchange(text, message) + echo_exchange(echo_frame, echo_message, reply),
        ) == (
            BridgePhase::Reading,
            seq![
                BridgeActionView::Parse(text),
                BridgeActionView::CallServerStream(message),
                BridgeActionView::ForwardServerStream,
                BridgeActionView::ReadFrame,
                BridgeActionView::Parse(echo_frame),
                BridgeActionView::CallEcho(echo_message),
                BridgeActionView::Send(response_json("echo"@, reply.message, reply.timestamp)),
                BridgeActionView::ReadFrame,
            ],
        ),
{
    let s = server_stream_exchange(text, message);
    let e = echo_exchange(echo_frame, echo_message, reply);
    lemma_run4(BridgePhase::Reading, s);
    lemma_run4(BridgePhase::Reading, e);
    lemma_bridge_run_append(BridgePhase::Reading, s, e);
    reveal_strlit("echo");
    reveal_strlit("serverStream");
    let sa = seq![
        BridgeActionView::Parse(text),
        BridgeActionView::CallServerStream(message),
        BridgeActionView::ForwardServerStream,
        BridgeActionView::ReadFrame,
    ];
    let ea = seq![
        BridgeActionView::Parse(echo_frame),
        BridgeActionView::CallEcho(echo_message),
        BridgeActionView::Send(response_json("echo"@, reply.message, reply.timestamp)),
        BridgeActionView::ReadFrame,
    ];
    assert(s[1] == BridgeEventView::Parsed(Ok(("serverStream"@, message))));
    assert(bridge_run(BridgePhase::Reading, s) == (BridgePhase::Reading, sa));
    assert(e[1] == BridgeEventView::Parsed(Ok(("echo"@, echo_message))));
    assert(e[2] == BridgeEventView::EchoReturned(Ok(reply)));
    assert(bridge_run(BridgePhase::Reading, e) == (BridgePhase::Reading, ea));
    assert(bridge_run(BridgePhase::Reading, s + e).1 =~= seq![
        BridgeActionView::Parse(text),
        BridgeActionView::CallServerStream(message),
        BridgeActionView::ForwardServerStream,
        BridgeActionView::ReadFrame,
        BridgeActionView::Parse(echo_frame),
        BridgeActionView::CallEcho(echo_message),
        BridgeActionView::Send(response_json("echo"@, reply.message, reply.timestamp)),
        BridgeActionView::ReadFrame,
    ]);
}

/// A `bidirectionalStream` request opens the stream, sends `Initial message`
/// on it, starts the forwarder, announces the stream with the ready frame,
/// and reads on whether or not that frame is written.
pub proof fn lemma_bidirectional_setup(text: Seq<char>, message: Seq<char>, delivered: bool)
    ensures
        ({
            let events = seq![
                BridgeEventView::Frame(WsFrameView::Text(text)),
                BridgeEventView::Parsed(Ok(("bidirectionalStream"@, message))),
                BridgeEventView::BidirectionalOpened(Ok(())),
                BridgeEventView::Started,
            ];
            let (phase, actions) = bridge_run(BridgePhase::Reading, events);
            &&& actions == seq![
                BridgeActionView::Parse(text),
                BridgeActionView::CallBidirectional,
                BridgeActionView::ForwardBidirectional("Initial message"@),
                BridgeActionView::Send(
                    response_json(
                        "bidirectionalStreamReady"@,
                        "Stream established, send messages to continue"@,
                        0,
                    ),
                ),
            ]
            &&& bridge_step(phase, BridgeEventView::Sent(delivered)) == (
                BridgePhase::Reading,
                BridgeActionView::ReadFrame,
            )
        }),
{
    let events = seq![
        BridgeEventView::Frame(WsFrameView::Text(text)),
        BridgeEventView::Parsed(Ok(("bidirectionalStream"@, message))),
        BridgeEventView::BidirectionalOpened(Ok(())),
        BridgeEventView::Started,
    ];
    lemma_run4(BridgePhase::Reading, events);
    reveal_strlit("echo");
    reveal_strlit("serverStream");
    reveal_strlit("bidirectionalStream");
    assert("bidirectionalStream"@.len() == 19);
    assert("bidirectionalStream"@ != "echo"@);
    assert("bidirectionalStream"@ != "serverStream"@);
    assert(route("bidirectionalStream"@, message) == (
        BridgePhase::AwaitingBidirectional,
        BridgeActionView::CallBidirectional,
    ));
    assert(events[1] == BridgeEventView::Parsed(Ok(("bidirectionalStream"@, message))));
    assert(events[2] == BridgeEventView::BidirectionalOpened(Ok(())));
    assert(events[3] == BridgeEventView::Started);
    let (phase, actions) = bridge_run(BridgePhase::Reading, events);
    assert(phase == BridgePhase::Sending(false));
    assert(actions =~= seq![
        BridgeActionView::Parse(text),
        BridgeActionView::CallBidirectional,
        BridgeActionView::ForwardBidirectional("Initial message"@),
        BridgeActionView::Send(
            response_json(
                "bidirectionalStreamReady"@,
                "Stream established, send messages to continue"@,
                0,
            ),
        ),
    ]);
}

/// The `method` of a forwarder's frames: `serverStream` or `bidirectionalStream`.
pub open spec fn kind_method(kind: StreamKind) -> Seq<char> {
    if kind is ServerStream {
        "serverStream"@
    } else {
        "bidirectionalStream"@
    }
}

/// A forwarder writes every reply of its stream as a JSON frame of its
/// method, and goes back to pulling once the frame is written; a
/// server-stream forwarder stops at the first error, while a bidirectional
/// one reports the error and goes on; both stop when a frame cannot be
/// written or the stream ends, and a stopped forwarder stays stopped.
pub proof fn lemma_forwarding(
    kind: StreamKind,
    reply: EchoResponseView,
    detail: Seq<char>,
    event: ForwardEventView,
)
    ensures
        forward_step(kind, ForwardPhase::Pulling, ForwardEventView::Item(Ok(reply))) == (
            ForwardPhase::Sending,
            ForwardActionView::Send(
                response_json(kind_method(kind), reply.message, reply.timestamp),
            ),
        ),
        forward_step(kind, ForwardPhase::Sending, ForwardEventView::Sent(true)) == (
            ForwardPhase::Pulling,
            ForwardActionView::Pull,
        ),
        forward_step(StreamKind::ServerStream, ForwardPhase::Pulling, ForwardEventView::Item(Err(detail)))
            == (ForwardPhase::Stopped, ForwardActionView::Stop),
        forward_step(StreamKind::Bidirectional, ForwardPhase::Pulling, ForwardEventView::Item(Err(detail)))
            == (ForwardPhase::Sending, ForwardActionView::Send("Bidir error: "@ + detail)),
        forward_step(kind, ForwardPhase::Sending, ForwardEventView::Sent(false)) == (
            ForwardPhase::Stopped,
            ForwardActionView::Stop,
        ),
        forward_step(kind, ForwardPhase::Pulling, ForwardEventView::Ended) == (
            ForwardPhase::Stopped,
            ForwardActionView::Stop,
        ),
        forward_step(kind, ForwardPhase::Stopped, event) == (
            ForwardPhase::Stopped,
            ForwardActionView::Stop,
        ),
{
}

/// The phase reached and the actions asked for when a forwarder of `kind`
/// in `phase` takes in `events` one after another.
pub open spec fn forward_run(kind: StreamKind, phase: ForwardPhase, events: Seq<ForwardEventView>) -> (
    ForwardPhase,
    Seq<ForwardActionView>,
)
    decreases events.len(),
{
    if events.len() == 0 {
        (phase, Seq::empty())
    } else {
        let (next, action) = forward_step(kind, phase, events[0]);
        let (last, rest) = forward_run(kind, next, events.drop_first());
        (last, seq![action] + rest)
    }
}

/// The events of a stream yielding `replies`, each frame written, then ending.
pub open spec fn relayed_stream(replies: Seq<EchoResponseView>) -> Seq<ForwardEventView>
    decreases replies.len(),
{
    if replies.len() == 0 {
        seq![ForwardEventView::Ended]
    } else {
        seq![ForwardEventView::Item(Ok(replies[0])), ForwardEventView::Sent(true)] + relayed_stream(
            replies.drop_first(),
        )
    }
}

/// The actions of a forwarder of `kind` over [`relayed_stream`]: one frame
/// per reply, each followed by a pull, then a stop.
pub open spec fn relayed_frames(kind: StreamKind, replies: Seq<EchoResponseView>) -> Seq<ForwardActionView>
    decreases replies.len(),
{
    if replies.len() == 0 {
        seq![ForwardActionView::Stop]
    } else {
        seq![
            ForwardActionView::Send(
                response_json(kind_method(kind), replies[0].message, replies[0].timestamp),
            ),
            ForwardActionView::Pull,
        ] + relayed_frames(kind, replies.drop_first())
    }
}

/// A forwarder whose frames are all written relays every reply of its
/// stream, in order, one frame each, and stops when the stream ends.
pub proof fn lemma_forwarder_relays_every_reply(kind: StreamKind, replies: Seq<EchoResponseView>)
    ensures
        forward_run(kind, ForwardPhase::Pulling, relayed_stream(replies)) == (
            ForwardPhase::Stopped,
            relayed_frames(kind, replies),
        ),
        relayed_frames(kind, replies).len() == 2 * replies.len() + 1,
        forall|i: int|
            0 <= i < replies.len() ==> #[trigger] relayed_frames(kind, replies)[2 * i]
                == ForwardActionView::Send(
                response_json(kind_method(kind), replies[i].message, replies[i].timestamp),
            ),
    decreases replies.len(),
{
    let events = relayed_stream(replies);
    if replies.len() == 0 {
        assert(events.drop_first() =~= Seq::<ForwardEventView>::empty());
        assert(forward_run(kind, ForwardPhase::Stopped, events.drop_first()).1 =~= Seq::<
            ForwardActionView,
        >::empty());
        assert(forward_run(kind, ForwardPhase::Pulling, events).1 =~= seq![ForwardActionView::Stop]);
    } else {
        let rest = replies.drop_first();
        lemma_forwarder_relays_every_reply(kind, rest);
        let tail = relayed_stream(rest);
        assert(events.drop_first().drop_first() =~= tail);
        assert(events[0] == ForwardEventView::Item(Ok(replies[0])));
        assert(events.drop_first()[0] == ForwardEventView::Sent(true));
        let send = ForwardActionView::Send(
            response_json(kind_method(kind), replies[0].message, replies[0].timestamp),
        );
        let tail_actions = relayed_frames(kind, rest);
        assert(forward_run(kind, ForwardPhase::Sending, events.drop_first()).1 =~= seq![
            ForwardActionView::Pull,
        ] + tail_actions);
        assert(forward_run(kind, ForwardPhase::Pulling, events).1 =~= seq![send, ForwardActionView::Pull]
            + tail_actions);
        let frames = relayed_frames(kind, replies);
        assert forall|i: int| 0 <= i < replies.len() implies #[trigger] frames[2 * i]
            == ForwardActionView::Send(
            response_json(kind_method(kind), replies[i].message, replies[i].timestamp),
        ) by {
            if i > 0 {
                assert(frames[2 * i] == tail_actions[2 * (i - 1)]);
                assert(rest[i - 1] == replies[i]);
            }
        }
    }
}

/// Whether `event` reports the outcome of doing `action`: a frame read (or
/// a failed read, or the end of the socket) for `ReadFrame`, the parse for
/// `Parse`, the call's result for each call, the start of the task for a
/// forwarding action, the write's outcome for `Send`; after `Stop`, anything.
pub open spec fn reports(action: BridgeActionView, event: BridgeEventView) -> bool {
    match action {
        BridgeActionView::ReadFrame => event is Frame || event is ReadFailed || event is Ended,
        BridgeActionView::Parse(_) => event is Parsed,
        BridgeActionView::CallEcho(_) => event is EchoReturned,
        BridgeActionView::CallServerStream(_) => event is ServerStreamOpened,
        BridgeActionView::CallBidirectional => event is BidirectionalOpened,
        BridgeActionView::ForwardServerStream => event is Started,
        BridgeActionView::ForwardBidirectional(_) => event is Started,
        BridgeActionView::Send(_) => event is Sent,
        BridgeActionView::Stop => true,
    }
}

/// A driver that does what the bridge asks is never refused: a fresh
/// connection takes the outcome of reading a frame, and after any step the
/// connection takes every report of the action it asked for.
pub proof fn lemma_bridge_takes_what_it_asks_for(
    phase: BridgePhase,
    event: BridgeEventView,
    outcome: BridgeEventView,
)
    ensures
        reports(BridgeActionView::ReadFrame, outcome) ==> bridge_accepts(BridgePhase::Reading, outcome),
        bridge_accepts(phase, event) && reports(bridge_step(phase, event).1, outcome)
            ==> bridge_accepts(bridge_step(phase, event).0, outcome),
{
}

/// Whether `event` reports the outcome of a forwarder's `action`.
pub open spec fn forward_reports(action: ForwardActionView, event: ForwardEventView) -> bool {
    match action {
        ForwardActionView::Pull => event is Item || event is Ended,
        ForwardActionView::Send(_) => event is Sent,
        ForwardActionView::Stop => true,
    }
}

/// A task that does what its forwarder asks is never refused.
pub proof fn lemma_forwarder_takes_what_it_asks_for(
    kind: StreamKind,
    phase: ForwardPhase,
    event: ForwardEventView,
    outcome: ForwardEventView,
)
    ensures
        forward_reports(ForwardActionView::Pull, outcome) ==> forward_accepts(
            ForwardPhase::Pulling,
            outcome,
        ),
        forward_accepts(phase, event) && forward_reports(forward_step(kind, phase, event).1, outcome)
            ==> forward_accepts(forward_step(kind, phase, event).0, outcome),
{
}

} // verus!
