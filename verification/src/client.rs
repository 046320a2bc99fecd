//! The demonstration client: what it sends on each kind of call and when
//! it stops reading or writing a stream.
use vstd::prelude::*;

use crate::messages::EchoRequest;
use crate::text::{int_decimal, lemma_nat_decimal_denotes, push_decimal};

verus! {

/// How many messages the client writes on a client stream or a
/// bidirectional stream.
pub const OUTGOING_MESSAGES: u32 = 5;

/// The message of the unary call.
pub open spec fn unary_text() -> Seq<char> {
    "Hello from client"@
}

/// The message that opens the server stream.
pub open spec fn server_stream_text() -> Seq<char> {
    "Stream me some responses"@
}

/// The request of the unary call.
pub fn unary_request() -> (r: EchoRequest)
    ensures
        r@ == unary_text(),
{
    EchoRequest::new("Hello from client")
}

/// The request that opens the server stream.
pub fn server_stream_request() -> (r: EchoRequest)
    ensures
        r@ == server_stream_text(),
{
    EchoRequest::new("Stream me some responses")
}

/// Which stream the client writes to.
#[derive(Clone, Copy)]
pub enum OutgoingKind {
    /// The client stream, summarised by the server in one reply.
    ClientStream,
    /// The bidirectional stream, echoed message by message.
    Bidirectional,
}

/// The `i`-th message the client writes on a stream of `kind`.
pub open spec fn outgoing_text(kind: OutgoingKind, i: int) -> Seq<char> {
    match kind {
        OutgoingKind::ClientStream => "Client message "@ + int_decimal(i),
        OutgoingKind::Bidirectional => "Bidirectional message "@ + int_decimal(i),
    }
}

/// The pause, in milliseconds, after each message on a stream of `kind`.
pub open spec fn pause_after(kind: OutgoingKind) -> u64 {
    match kind {
        OutgoingKind::ClientStream => 100,
        OutgoingKind::Bidirectional => 1000,
    }
}

/// The message the writer produces next, given how many it has produced
/// and whether a write failed; `None` when it is done.
pub open spec fn outgoing_next(kind: OutgoingKind, sent: nat, failed: bool) -> Option<Seq<char>> {
    if !failed && sent < OUTGOING_MESSAGES {
        Some(outgoing_text(kind, sent + 1int))
    } else {
        None
    }
}

/// The messages of `k` successive requests for a message, when every
/// write succeeds, starting after `sent` messages.
pub open spec fn outgoing_run(kind: OutgoingKind, sent: nat, k: nat) -> Seq<Option<Seq<char>>>
    decreases k,
{
    if k == 0 {
        Seq::empty()
    } else {
        seq![outgoing_next(kind, sent, false)] + outgoing_run(
            kind,
            if sent < OUTGOING_MESSAGES {
                sent + 1
            } else {
                sent
            },
            (k - 1) as nat,
        )
    }
}

/// The writer of the client's side of a stream: five numbered messages,
/// ending early when a write fails.
pub struct Outgoing {
    kind: OutgoingKind,
    sent: u32,
    failed: bool,
}

impl Outgoing {
    #[verifier::type_invariant]
    spec fn inv(self) -> bool {
        self.sent <= OUTGOING_MESSAGES
    }

    /// A writer that has written nothing yet.
    pub fn new(kind: OutgoingKind) -> (w: Outgoing)
        ensures
            w.kind() == kind,
            w.sent() == 0,
            !w.failed(),
    {
        Outgoing { kind, sent: 0, failed: false }
    }

    /// The stream written to.
    pub closed spec fn kind(self) -> OutgoingKind {
        self.kind
    }

    /// How many messages were produced.
    pub closed spec fn sent(self) -> nat {
        self.sent as nat
    }

    /// Whether a write failed.
    pub closed spec fn failed(self) -> bool {
        self.failed
    }

    /// The next message to write: `Client message i` (or
    /// `Bidirectional message i`) for `i` from 1 to 5, then `None`; `None`
    /// at once after a failed write.
    pub fn next_request(&mut self) -> (r: Option<EchoRequest>)
        ensures
            final(self).kind() == old(self).kind(),
            final(self).failed() == old(self).failed(),
            outgoing_next(old(self).kind(), old(self).sent(), old(self).failed()) matches Some(t)
                ==> (r matches Some(q) && q@ == t) && final(self).sent() == old(self).sent() + 1,
            outgoing_next(old(self).kind(), old(self).sent(), old(self).failed()) is None ==> r is None
                && final(self).sent() == old(self).sent(),
    {
        proof {
            use_type_invariant(&*self);
        }
        if self.failed || self.sent >= OUTGOING_MESSAGES {
            return None;
        }
        let index: u32 = self.sent + 1;
        let mut message = match self.kind {
            OutgoingKind::ClientStream => String::from_str("Client message "),
            OutgoingKind::Bidirectional => String::from_str("Bidirectional message "),
        };
        push_decimal(&mut message, index as i64);
        self.sent = index;
        Some(EchoRequest { message })
    }

    /// Records the outcome of writing the last message.
    pub fn on_sent(&mut self, delivered: bool)
        ensures
            final(self).kind() == old(self).kind(),
            final(self).sent() == old(self).sent(),
            final(self).failed() == (old(self).failed() || !delivered),
    {
        proof {
            use_type_invariant(&*self);
        }
        if !delivered {
            self.failed = true;
        }
    }

    /// The pause, in milliseconds, after each message.
    pub fn pause_millis(&self) -> (ms: u64)
        ensures
            ms == pause_after(self.kind()),
    {
        match self.kind {
            OutgoingKind::ClientStream => 100,
            OutgoingKind::Bidirectional => 1000,
        }
    }
}

/// Which reply stream the client reads.
#[derive(Clone, Copy)]
pub enum ReplyStream {
    /// Replies to the server-stream call.
    ServerStream,
    /// Replies on the bidirectional stream.
    Bidirectional,
}

/// Whether the client keeps reading after an item: always after a reply;
/// after an error only on the server stream.
pub fn keep_reading(stream: ReplyStream, item_ok: bool) -> (b: bool)
    ensures
        b == (item_ok || stream is ServerStream),
{
    match stream {
        ReplyStream::ServerStream => true,
        ReplyStream::Bidirectional => item_ok,
    }
}

/// A writer whose writes all succeed produces `Client message 1` to
/// `Client message 5` (or the bidirectional ones), in order, and nothing after.
pub proof fn lemma_outgoing_writes_five(kind: OutgoingKind, k: nat)
    ensures
        outgoing_run(kind, 0, k).len() == k,
        forall|i: int|
            0 <= i < k ==> #[trigger] outgoing_run(kind, 0, k)[i] == (if i < 5 {
                Some(outgoing_text(kind, i + 1))
            } else {
                None
            }),
{
    lemma_outgoing_run_from(kind, 0, k);
}

proof fn lemma_outgoing_run_from(kind: OutgoingKind, sent: nat, k: nat)
    requires
        sent <= OUTGOING_MESSAGES,
    ensures
        outgoing_run(kind, sent, k).len() == k,
        forall|i: int|
            0 <= i < k ==> #[trigger] outgoing_run(kind, sent, k)[i] == (if sent + i < 5 {
                Some(outgoing_text(kind, sent + i + 1))
            } else {
                None
            }),
    decreases k,
{
    if k > 0 {
        let next: nat = if sent < OUTGOING_MESSAGES {
            sent + 1
        } else {
            sent
        };
        lemma_outgoing_run_from(kind, next, (k - 1) as nat);
        let run = outgoing_run(kind, sent, k);
        let rest = outgoing_run(kind, next, (k - 1) as nat);
        assert(run == seq![outgoing_next(kind, sent, false)] + rest);
        assert forall|i: int| 0 <= i < k implies #[trigger] run[i] == (if sent + i < 5 {
            Some(outgoing_text(kind, sent + i + 1))
        } else {
            None
        }) by {
            if i > 0 {
                assert(run[i] == rest[i - 1]);
            }
        }
    }
}

/// The `i`-th message (`1 <= i <= 9`) is `Client message ` (or
/// `Bidirectional message `) followed by the digit of `i`.
pub proof fn lemma_outgoing_text_numbered(kind: OutgoingKind, i: int)
    requires
        1 <= i <= 9,
    ensures
        outgoing_text(kind, i) == (match kind {
            OutgoingKind::ClientStream => "Client message "@,
            OutgoingKind::Bidirectional => "Bidirectional message "@,
        }) + seq![((i + 48) as u32) as char],
{
    lemma_nat_decimal_denotes(i as nat);
}

/// After a failed write the writer produces nothing more.
pub proof fn lemma_outgoing_stops_after_failure(kind: OutgoingKind, sent: nat)
    ensures
        outgoing_next(kind, sent, true) is None,
{
}

} // verus!
