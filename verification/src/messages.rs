//! The two messages of the echo protocol.
use vstd::prelude::*;

verus! {

/// What a client sends: one text message.
pub struct EchoRequest {
    pub message: String,
}

/// What the server answers: a text and the Unix time, in seconds, at which
/// it was made.
pub struct EchoResponse {
    pub message: String,
    pub timestamp: i64,
}

/// The mathematical value of an [`EchoResponse`].
pub ghost struct EchoResponseView {
    pub message: Seq<char>,
    pub timestamp: int,
}

impl View for EchoRequest {
    type V = Seq<char>;

    open spec fn view(&self) -> Seq<char> {
        self.message@
    }
}

impl View for EchoResponse {
    type V = EchoResponseView;

    open spec fn view(&self) -> EchoResponseView {
        EchoResponseView { message: self.message@, timestamp: self.timestamp as int }
    }
}

impl EchoRequest {
    /// A request carrying `message`.
    pub fn new(message: &str) -> (r: EchoRequest)
        ensures
            r@ == message@,
    {
        EchoRequest { message: String::from_str(message) }
    }
}

} // verus!
