//! The echo service: a unary echo, a server stream of five numbered
//! echoes, a client stream that is summarised in one reply, and a
//! bidirectional stream that echoes each message as it comes.
use vstd::prelude::*;

use crate::messages::{EchoRequest, EchoResponse, EchoResponseView};
use crate::text::{int_decimal, lemma_nat_decimal_denotes, push_decimal};

verus! {

/// How many replies a server stream sends.
pub const SERVER_STREAM_REPLIES: u32 = 5;

/// The pause, in seconds, after each reply of a server stream.
pub const SERVER_STREAM_PAUSE_SECS: u64 = 1;

/// Text of the unary and bidirectional echo of `m`: `Echo: m`.
pub open spec fn echo_text(m: Seq<char>) -> Seq<char> {
    "Echo: "@ + m
}

/// Text of the `i`-th server-stream reply to `m`: `Echo i: m`.
pub open spec fn numbered_echo_text(i: int, m: Seq<char>) -> Seq<char> {
    "Echo "@ + int_decimal(i) + ": "@ + m
}

/// The text of the reply a server stream for `m` sends after `sent`
/// replies, or `None` when it is finished.
pub open spec fn server_stream_next(m: Seq<char>, sent: nat) -> Option<Seq<char>> {
    if sent < SERVER_STREAM_REPLIES {
        Some(numbered_echo_text(sent + 1int, m))
    } else {
        None
    }
}

/// How many replies a server stream has sent after one more request for a reply.
pub open spec fn server_stream_after(sent: nat) -> nat {
    if sent < SERVER_STREAM_REPLIES {
        sent + 1
    } else {
        sent
    }
}

/// The texts (or `None`) of `k` successive requests for a reply, starting
/// with `sent` replies already out.
pub open spec fn server_stream_run(m: Seq<char>, sent: nat, k: nat) -> Seq<Option<Seq<char>>>
    decreases k,
{
    if k == 0 {
        Seq::empty()
    } else {
        seq![server_stream_next(m, sent)] + server_stream_run(m, server_stream_after(sent), (k - 1) as nat)
    }
}

/// Messages received on a client stream, joined as the service joins
/// them: a message is preceded by `, ` unless everything joined before it
/// is empty.
pub open spec fn combine(msgs: Seq<Seq<char>>) -> Seq<char>
    decreases msgs.len(),
{
    if msgs.len() == 0 {
        Seq::empty()
    } else {
        let before = combine(msgs.drop_last());
        if before.len() == 0 {
            msgs.last()
        } else {
            before + ", "@ + msgs.last()
        }
    }
}

/// `msgs` joined with `sep` between consecutive elements.
pub open spec fn join(msgs: Seq<Seq<char>>, sep: Seq<char>) -> Seq<char>
    decreases msgs.len(),
{
    if msgs.len() == 0 {
        Seq::empty()
    } else if msgs.len() == 1 {
        msgs[0]
    } else {
        join(msgs.drop_last(), sep) + sep + msgs.last()
    }
}

/// Text of the reply that closes a client stream of `msgs`.
pub open spec fn summary_text(msgs: Seq<Seq<char>>) -> Seq<char> {
    "Received "@ + int_decimal(msgs.len() as int) + " messages: "@ + combine(msgs)
}

/// The echo service. It keeps no state between calls.
#[derive(Debug, Default)]
pub struct EchoServer {}

impl EchoServer {
    /// The unary echo: answers `Echo: <message>` stamped with `timestamp`.
    pub fn echo(&self, request: &EchoRequest, timestamp: i64) -> (r: EchoResponse)
        ensures
            r@ == (EchoResponseView { message: echo_text(request@), timestamp: timestamp as int }),
    {
        let mut message = String::from_str("Echo: ");
        message.append(request.message.as_str());
        EchoResponse { message, timestamp }
    }

    /// Starts the server stream answering `request`.
    pub fn server_stream(&self, request: EchoRequest) -> (s: ServerStreamReplies)
        ensures
            s.message() == request@,
            s.sent() == 0,
    {
        ServerStreamReplies { message: request.message, sent: 0 }
    }

    /// Starts the summary of a client stream.
    pub fn client_stream(&self) -> (s: ClientStreamSummary)
        ensures
            s.received() == Seq::<Seq<char>>::empty(),
    {
        ClientStreamSummary { count: 0, combined: String::new(), received: Ghost(Seq::empty()) }
    }

    /// Starts a bidirectional stream.
    pub fn bidirectional_stream(&self) -> (s: BidirectionalSession)
        ensures
            s.is_open_spec(),
    {
        BidirectionalSession { open: true }
    }
}

/// The replies of one server stream, produced one at a time.
pub struct ServerStreamReplies {
    message: String,
    sent: u32,
}

impl ServerStreamReplies {
    #[verifier::type_invariant]
    spec fn inv(self) -> bool {
        self.sent <= SERVER_STREAM_REPLIES
    }

    /// The message being echoed.
    pub closed spec fn message(self) -> Seq<char> {
        self.message@
    }

    /// How many replies have been produced.
    pub closed spec fn sent(self) -> nat {
        self.sent as nat
    }

    /// The next reply, stamped with `timestamp`: `Echo i: <message>` for the
    /// `i`-th call while `i <= 5`, and `None` once five replies are out.
    pub fn next_reply(&mut self, timestamp: i64) -> (r: Option<EchoResponse>)
        ensures
            final(self).message() == old(self).message(),
            final(self).sent() == server_stream_after(old(self).sent()),
            server_stream_next(old(self).message(), old(self).sent()) matches Some(text) ==> (
            r matches Some(reply) && reply@ == (EchoResponseView {
                message: text,
                timestamp: timestamp as int,
            })),
            server_stream_next(old(self).message(), old(self).sent()) is None ==> r is None,
    {
        proof {
            use_type_invariant(&*self);
        }
        if self.sent >= SERVER_STREAM_REPLIES {
            return None;
        }
        let index: u32 = self.sent + 1;
        let mut message = String::from_str("Echo ");
        push_decimal(&mut message, index as i64);
        message.append(": ");
        message.append(self.message.as_str());
        self.sent = index;
        Some(EchoResponse { message, timestamp })
    }
}

/// The running summary of a client stream: how many messages came and
/// their combined text.
pub struct ClientStreamSummary {
    count: i32,
    combined: String,
    received: Ghost<Seq<Seq<char>>>,
}

impl ClientStreamSummary {
    #[verifier::type_invariant]
    spec fn inv(self) -> bool {
        &&& self.count as int == self.received@.len()
        &&& self.combined@ == combine(self.received@)
    }

    /// The messages received so far, in order.
    pub closed spec fn received(self) -> Seq<Seq<char>> {
        self.received@
    }

    /// How many messages were received.
    pub fn count(&self) -> (n: i32)
        ensures
            n as int == self.received().len(),
    {
        proof {
            use_type_invariant(self);
        }
        self.count
    }

    /// Takes in one message of the stream. The counter is an `i32`, as in
    /// the service, so the count must still fit.
    pub fn record(&mut self, request: &EchoRequest)
        requires
            old(self).received().len() < i32::MAX,
        ensures
            final(self).received() == old(self).received().push(request@),
    {
        proof {
            use_type_invariant(&*self);
        }
        let ghost before = self.received@;
        let mut combined = self.combined.clone();
        if !combined.as_str().is_empty() {
            combined.append(", ");
        }
        combined.append(request.message.as_str());
        let ghost after = before.push(request@);
        proof {
            assert(after.drop_last() == before);
        }
        *self = ClientStreamSummary { count: self.count + 1, combined, received: Ghost(after) };
    }

    /// The reply that closes the stream:
    /// `Received <count> messages: <combined>`, stamped with `timestamp`.
    pub fn response(&self, timestamp: i64) -> (r: EchoResponse)
        ensures
            r@ == (EchoResponseView {
                message: summary_text(self.received()),
                timestamp: timestamp as int,
            }),
    {
        proof {
            use_type_invariant(self);
        }
        let mut message = String::from_str("Received ");
        push_decimal(&mut message, self.count as i64);
        message.append(" messages: ");
        message.append(self.combined.as_str());
        EchoResponse { message, timestamp }
    }
}

/// What arrives on the incoming side of a bidirectional stream.
pub enum Inbound {
    /// A message from the client.
    Request(EchoRequest),
    /// Receiving failed.
    Failed,
    /// The client closed its side.
    Ended,
}

/// The mathematical value of an [`Inbound`] item.
pub ghost enum InboundView {
    Request(Seq<char>),
    Failed,
    Ended,
}

impl View for Inbound {
    type V = InboundView;

    open spec fn view(&self) -> InboundView {
        match self {
            Inbound::Request(q) => InboundView::Request(q@),
            Inbound::Failed => InboundView::Failed,
            Inbound::Ended => InboundView::Ended,
        }
    }
}

/// What the service does with an incoming item.
pub enum BidirectionalAction {
    /// Send this reply back.
    Reply(EchoResponse),
    /// Stop serving the stream.
    Close,
}

impl View for BidirectionalAction {
    /// The reply to send, or `None` for `Close`.
    type V = Option<EchoResponseView>;

    open spec fn view(&self) -> Option<EchoResponseView> {
        match self {
            BidirectionalAction::Reply(r) => Some(r@),
            BidirectionalAction::Close => None,
        }
    }
}

/// One step of a bidirectional stream: whether it is still open after
/// `item`, handled at time `timestamp`, and the reply it sends, if any.
pub open spec fn session_step(open: bool, item: InboundView, timestamp: int) -> (
    bool,
    Option<EchoResponseView>,
) {
    if !open {
        (false, None)
    } else {
        match item {
            InboundView::Request(m) => (
                true,
                Some(EchoResponseView { message: echo_text(m), timestamp }),
            ),
            _ => (false, None),
        }
    }
}

/// A bidirectional stream run over `items`: each item is an incoming item,
/// the time at which it is handled, and whether the reply to it (if any)
/// reaches the client. Gives whether the stream is still open at the end
/// and the replies sent, in order.
pub open spec fn session_run(open: bool, items: Seq<(InboundView, int, bool)>) -> (
    bool,
    Seq<EchoResponseView>,
)
    decreases items.len(),
{
    if items.len() == 0 {
        (open, Seq::empty())
    } else {
        let (item, timestamp, delivered) = items[0];
        let (after, reply) = session_step(open, item, timestamp);
        let next = if reply is Some {
            after && delivered
        } else {
            after
        };
        let (last, rest) = session_run(next, items.drop_first());
        (
            last,
            match reply {
                Some(r) => seq![r] + rest,
                None => rest,
            },
        )
    }
}

/// The incoming requests `xs`, handled at times `ts`, each reply delivered.
pub open spec fn delivered_requests(xs: Seq<Seq<char>>, ts: Seq<int>) -> Seq<(InboundView, int, bool)> {
    Seq::new(xs.len(), |i: int| (InboundView::Request(xs[i]), ts[i], true))
}

/// The echoes of `xs` stamped with `ts`.
pub open spec fn echoes(xs: Seq<Seq<char>>, ts: Seq<int>) -> Seq<EchoResponseView> {
    Seq::new(xs.len(), |i: int| EchoResponseView { message: echo_text(xs[i]), timestamp: ts[i] })
}

/// The state of one bidirectional stream: open until the client ends it,
/// a receive fails, or a reply cannot be delivered.
pub struct BidirectionalSession {
    open: bool,
}

impl BidirectionalSession {
    /// Whether the stream is still served.
    pub closed spec fn is_open_spec(&self) -> bool {
        self.open
    }

    /// Whether the stream is still served.
    #[verifier::when_used_as_spec(is_open_spec)]
    pub fn is_open(&self) -> (b: bool)
        ensures
            b == self.is_open_spec(),
    {
        self.open
    }

    /// Handles one incoming item: a request is answered with `Echo: <message>`
    /// stamped with `timestamp`; a failure or the end of the input closes the
    /// stream; a closed stream answers everything with `Close`.
    pub fn on_inbound(&mut self, item: Inbound, timestamp: i64) -> (a: BidirectionalAction)
        ensures
            !old(self).is_open_spec() ==> a is Close && !final(self).is_open_spec(),
            old(self).is_open_spec() ==> match item {
                Inbound::Request(q) => final(self).is_open_spec() && (a matches BidirectionalAction::Reply(
                    reply,
                ) && reply@ == (EchoResponseView {
                    message: echo_text(q@),
                    timestamp: timestamp as int,
                })),
                _ => a is Close && !final(self).is_open_spec(),
            },
            (final(self).is_open_spec(), a@) == session_step(
                old(self).is_open_spec(),
                item@,
                timestamp as int,
            ),
    {
        if !self.open {
            return BidirectionalAction::Close;
        }
        match item {
            Inbound::Request(q) => {
                let server = EchoServer {};
                BidirectionalAction::Reply(server.echo(&q, timestamp))
            },
            _ => {
                self.open = false;
                BidirectionalAction::Close
            },
        }
    }

    /// Records whether a reply reached the client; an undelivered reply
    /// means the client is gone and closes the stream.
    pub fn on_reply_sent(&mut self, delivered: bool)
        ensures
            final(self).is_open_spec() == (old(self).is_open_spec() && delivered),
    {
        if !delivered {
            self.open = false;
        }
    }
}

/// A fresh server stream answers its first five requests for a reply with
/// `Echo 1: m` to `Echo 5: m`, in order, and every later request with `None`.
pub proof fn lemma_server_stream_sends_five(m: Seq<char>, k: nat)
    ensures
        server_stream_run(m, 0, k).len() == k,
        forall|i: int|
            0 <= i < k ==> #[trigger] server_stream_run(m, 0, k)[i] == (if i < 5 {
                Some(numbered_echo_text(i + 1, m))
            } else {
                None
            }),
{
    lemma_server_stream_run_from(m, 0, k);
}

proof fn lemma_server_stream_run_from(m: Seq<char>, sent: nat, k: nat)
    requires
        sent <= SERVER_STREAM_REPLIES,
    ensures
        server_stream_run(m, sent, k).len() == k,
        forall|i: int|
            0 <= i < k ==> #[trigger] server_stream_run(m, sent, k)[i] == (if sent + i < 5 {
                Some(numbered_echo_text(sent + i + 1, m))
            } else {
                None
            }),
    decreases k,
{
    if k > 0 {
        let next = server_stream_after(sent);
        lemma_server_stream_run_from(m, next, (k - 1) as nat);
        let run = server_stream_run(m, sent, k);
        let rest = server_stream_run(m, next, (k - 1) as nat);
        assert(run == seq![server_stream_next(m, sent)] + rest);
        assert forall|i: int| 0 <= i < k implies #[trigger] run[i] == (if sent + i < 5 {
            Some(numbered_echo_text(sent + i + 1, m))
        } else {
            None
        }) by {
            if i > 0 {
                assert(run[i] == rest[i - 1]);
            }
        }
    }
}

/// The echo of `m` is `Echo: ` followed by the whole of `m`: six more
/// characters than `m`, the first six being `Echo: `, the rest being `m`.
pub proof fn lemma_echo_text_keeps_message(m: Seq<char>)
    ensures
        echo_text(m).len() == m.len() + 6,
        echo_text(m).take(6) == "Echo: "@,
        echo_text(m).skip(6) == m,
{
    reveal_strlit("Echo: ");
    assert(echo_text(m).take(6) =~= "Echo: "@);
    assert(echo_text(m).skip(6) =~= m);
}

/// The `i`-th reply of a server stream for `m` (`1 <= i <= 9`) is `Echo `,
/// the digit of `i`, `: `, and the whole of `m`: eight more characters
/// than `m`.
pub proof fn lemma_numbered_echo_text_keeps_message(i: int, m: Seq<char>)
    requires
        1 <= i <= 9,
    ensures
        numbered_echo_text(i, m).len() == m.len() + 8,
        numbered_echo_text(i, m).take(5) == "Echo "@,
        numbered_echo_text(i, m)[5] as u32 == 48 + i,
        numbered_echo_text(i, m).subrange(6, 8) == ": "@,
        numbered_echo_text(i, m).skip(8) == m,
{
    reveal_strlit("Echo ");
    reveal_strlit(": ");
    lemma_nat_decimal_denotes(i as nat);
    let t = numbered_echo_text(i, m);
    assert(int_decimal(i) == seq![((i + 48) as u32) as char]);
    assert(t.take(5) =~= "Echo "@);
    assert(t[5] == ((i + 48) as u32) as char);
    assert(t.subrange(6, 8) =~= ": "@);
    assert(t.skip(8) =~= m);
}

/// The reply closing a client stream is `Received `, the number of
/// messages, ` messages: `, and every message after the leading empty ones,
/// joined with `, `.
pub proof fn lemma_summary_text_joins_all(msgs: Seq<Seq<char>>)
    ensures
        summary_text(msgs) == "Received "@ + int_decimal(msgs.len() as int) + " messages: "@ + join(
            drop_leading_empty(msgs),
            ", "@,
        ),
{
    lemma_combine_is_join(msgs);
}

/// Running a stream over `a` and then `b` is running it over `a + b`: the
/// replies are those of `a` followed by those of `b`.
pub proof fn lemma_session_run_append(
    open: bool,
    a: Seq<(InboundView, int, bool)>,
    b: Seq<(InboundView, int, bool)>,
)
    ensures
        ({
            let (mid, first) = session_run(open, a);
            let (last, second) = session_run(mid, b);
            session_run(open, a + b) == (last, first + second)
        }),
    decreases a.len(),
{
    if a.len() == 0 {
        assert(a + b =~= b);
        assert(Seq::<EchoResponseView>::empty() + session_run(open, b).1 =~= session_run(open, b).1);
    } else {
        let (item, timestamp, delivered) = a[0];
        let (after, reply) = session_step(open, item, timestamp);
        let next = if reply is Some {
            after && delivered
        } else {
            after
        };
        assert((a + b).drop_first() =~= a.drop_first() + b);
        assert((a + b)[0] == a[0]);
        lemma_session_run_append(next, a.drop_first(), b);
        let (mid, first_rest) = session_run(next, a.drop_first());
        let second = session_run(mid, b).1;
        match reply {
            Some(r) => {
                assert(seq![r] + (first_rest + second) =~= (seq![r] + first_rest) + second);
            },
            None => {},
        }
    }
}

/// A closed stream sends nothing more and stays closed.
pub proof fn lemma_closed_session_stays_closed(items: Seq<(InboundView, int, bool)>)
    ensures
        session_run(false, items) == (false, Seq::<EchoResponseView>::empty()),
    decreases items.len(),
{
    if items.len() > 0 {
        lemma_closed_session_stays_closed(items.drop_first());
    }
}

/// A bidirectional stream whose replies all reach the client answers the
/// requests `xs`, handled at times `ts`, with their echoes `Echo: x`, in
/// order, one each, and stays open; when the input then ends or a receive
/// fails, it closes without sending anything more. Replies to `xs + ys` are
/// the replies to `xs` followed by the replies to `ys`.
pub proof fn lemma_session_echoes_requests(
    xs: Seq<Seq<char>>,
    ts: Seq<int>,
    ys: Seq<Seq<char>>,
    us: Seq<int>,
    last: InboundView,
    t: int,
    d: bool,
)
    requires
        xs.len() == ts.len(),
        ys.len() == us.len(),
        !(last is Request),
    ensures
        session_run(true, delivered_requests(xs, ts)) == (true, echoes(xs, ts)),
        session_run(true, delivered_requests(xs, ts) + seq![(last, t, d)]) == (
            false,
            echoes(xs, ts),
        ),
        session_run(true, delivered_requests(xs + ys, ts + us)).1 == echoes(xs, ts) + echoes(ys, us),
{
    lemma_session_echoes(xs, ts);
    lemma_session_echoes(ys, us);
    lemma_session_echoes(xs + ys, ts + us);
    lemma_session_run_append(true, delivered_requests(xs, ts), seq![(last, t, d)]);
    let end = seq![(last, t, d)];
    assert(end.drop_first() =~= Seq::<(InboundView, int, bool)>::empty());
    assert(end[0] == (last, t, d));
    assert(session_step(true, last, t) == (false, None::<EchoResponseView>));
    assert(session_run(false, end.drop_first()) == (false, Seq::<EchoResponseView>::empty()));
    assert(session_run(true, end) == (false, Seq::<EchoResponseView>::empty()));
    assert(echoes(xs, ts) + Seq::<EchoResponseView>::empty() =~= echoes(xs, ts));
    assert(echoes(xs + ys, ts + us) =~= echoes(xs, ts) + echoes(ys, us));
}

proof fn lemma_session_echoes(xs: Seq<Seq<char>>, ts: Seq<int>)
    requires
        xs.len() == ts.len(),
    ensures
        session_run(true, delivered_requests(xs, ts)) == (true, echoes(xs, ts)),
    decreases xs.len(),
{
    let items = delivered_requests(xs, ts);
    if xs.len() == 0 {
        assert(echoes(xs, ts) =~= Seq::<EchoResponseView>::empty());
    } else {
        lemma_session_echoes(xs.drop_first(), ts.drop_first());
        assert(items.drop_first() =~= delivered_requests(xs.drop_first(), ts.drop_first()));
        let first = EchoResponseView { message: echo_text(xs[0]), timestamp: ts[0] };
        assert(echoes(xs, ts) =~= seq![first] + echoes(xs.drop_first(), ts.drop_first()));
    }
}

/// `msgs` without its leading empty messages.
pub open spec fn drop_leading_empty(msgs: Seq<Seq<char>>) -> Seq<Seq<char>>
    decreases msgs.len(),
{
    if msgs.len() > 0 && msgs[0].len() == 0 {
        drop_leading_empty(msgs.drop_first())
    } else {
        msgs
    }
}

/// For every input, the combined text of a client stream is its messages,
/// after the leading empty ones are dropped, joined with `, `.
pub proof fn lemma_combine_is_join(msgs: Seq<Seq<char>>)
    ensures
        combine(msgs) == join(drop_leading_empty(msgs), ", "@),
        combine(msgs).len() == 0 <==> drop_leading_empty(msgs).len() == 0,
    decreases msgs.len(),
{
    if msgs.len() == 0 {
    } else {
        let init = msgs.drop_last();
        let x = msgs.last();
        assert(msgs == init.push(x));
        lemma_combine_is_join(init);
        lemma_drop_leading_empty_push(init, x);
        let l = drop_leading_empty(init);
        if l.len() == 0 {
            if x.len() == 0 {
                assert(join(Seq::<Seq<char>>::empty(), ", "@) == Seq::<char>::empty());
            } else {
                assert(seq![x].len() == 1);
            }
        } else {
            lemma_join_nonempty(l);
            let lx = l.push(x);
            assert(lx.drop_last() =~= l);
            assert(lx.last() == x);
            assert(join(lx, ", "@).len() > 0) by {
                assert(lx[0] == l[0]);
                lemma_join_nonempty(lx);
            }
        }
    }
}

proof fn lemma_join_nonempty(s: Seq<Seq<char>>)
    requires
        s.len() > 0,
        s[0].len() > 0,
    ensures
        join(s, ", "@).len() > 0,
    decreases s.len(),
{
    if s.len() > 1 {
        assert(s.drop_last()[0] == s[0]);
        lemma_join_nonempty(s.drop_last());
    }
}

proof fn lemma_drop_leading_empty_push(init: Seq<Seq<char>>, x: Seq<char>)
    ensures
        drop_leading_empty(init).len() > 0 ==> drop_leading_empty(init.push(x)) == drop_leading_empty(
            init,
        ).push(x),
        drop_leading_empty(init).len() == 0 ==> drop_leading_empty(init.push(x)) == (if x.len()
            == 0 {
            Seq::<Seq<char>>::empty()
        } else {
            seq![x]
        }),
        drop_leading_empty(init).len() > 0 ==> drop_leading_empty(init)[0].len() > 0,
    decreases init.len(),
{
    let ix = init.push(x);
    if init.len() == 0 {
        assert(ix =~= seq![x]);
        assert(ix[0] == x);
        if x.len() == 0 {
            assert(ix.drop_first() =~= Seq::<Seq<char>>::empty());
            assert(drop_leading_empty(ix.drop_first()) == Seq::<Seq<char>>::empty());
        }
    } else if init[0].len() == 0 {
        lemma_drop_leading_empty_push(init.drop_first(), x);
        assert(ix[0] == init[0]);
        assert(ix.drop_first() =~= init.drop_first().push(x));
    } else {
        assert(ix[0] == init[0]);
    }
}

/// When no message is empty, the combined text of a client stream is the
/// messages joined with `, `.
pub proof fn lemma_combine_nonempty_is_join(msgs: Seq<Seq<char>>)
    requires
        forall|i: int| 0 <= i < msgs.len() ==> #[trigger] msgs[i].len() > 0,
    ensures
        combine(msgs) == join(msgs, ", "@),
        msgs.len() > 0 ==> combine(msgs).len() > 0,
    decreases msgs.len(),
{
    if msgs.len() > 0 {
        let init = msgs.drop_last();
        assert forall|i: int| 0 <= i < init.len() implies #[trigger] init[i].len() > 0 by {
            assert(init[i] == msgs[i]);
        }
        lemma_combine_nonempty_is_join(init);
        assert(msgs.last().len() > 0) by {
            assert(msgs[msgs.len() - 1].len() > 0);
        }
        if msgs.len() == 1 {
            assert(combine(init) == Seq::<char>::empty());
            assert(msgs.last() == msgs[0]);
        }
    }
}

} // verus!
