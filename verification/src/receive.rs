use vstd::prelude::*;

verus! {

/// The largest request body that is read into memory, in bytes (4 MiB).
pub const MAX_BODY_SIZE: usize = 4194304;

/// What the request-body channel gave when the application asked for the
/// next message.
#[derive(Debug, Clone, Copy, PartialEq, Eq, Structural)]
pub enum Received {
    /// The channel is closed: nothing more will come.
    Closed,
    /// A request body is waiting to be read.
    Body,
    /// An item without a body.
    Empty,
}

/// A message of the request-body receiver to the application.
pub enum RequestMessage {
    /// `http.disconnect`: the client is gone.
    Disconnect,
    /// `http.request`, with the body bytes where there are any.
    Request { body: Option<Vec<u8>> },
}

/// What the receiver does next.
pub enum ReceiveStep {
    /// Hand this message to the application.
    Reply(RequestMessage),
    /// Read the waiting body (at most `MAX_BODY_SIZE` bytes) and hand it over
    /// as an `http.request` message.
    ReadBody,
}

/// Whether a receive that dequeued `received` hands the application an
/// `http.request` message (after reading the body, where there is one)
/// rather than a disconnect.
pub open spec fn yields_request(received: Received, disconnected: bool) -> bool {
    received != Received::Closed && !disconnected
}

/// Decides what the receiver answers the application once the channel has
/// given `received`: a closed channel or a dropped connection is a
/// disconnect; a waiting body must be read first; an item without body is
/// an `http.request` without body.
pub fn next_receive_step(received: Received, disconnected: bool) -> (step: ReceiveStep)
    ensures
        (received == Received::Closed || disconnected) ==> step matches ReceiveStep::Reply(
            RequestMessage::Disconnect,
        ),
        (received == Received::Body && !disconnected) ==> step is ReadBody,
        (received == Received::Empty && !disconnected) ==> step matches ReceiveStep::Reply(
            RequestMessage::Request { body: None },
        ),
        !yields_request(received, disconnected) <==> step matches ReceiveStep::Reply(
            RequestMessage::Disconnect,
        ),
{
    if disconnected {
        return ReceiveStep::Reply(RequestMessage::Disconnect);
    }
    match received {
        Received::Closed => ReceiveStep::Reply(RequestMessage::Disconnect),
        Received::Body => ReceiveStep::ReadBody,
        Received::Empty => ReceiveStep::Reply(RequestMessage::Request { body: None }),
    }
}

impl RequestMessage {
    /// The ASGI `type` of the message.
    pub fn message_type(&self) -> (t: &'static str)
        ensures
            self is Disconnect ==> t@ == "http.disconnect"@,
            self is Request ==> t@ == "http.request"@,
    {
        match self {
            RequestMessage::Disconnect => "http.disconnect",
            RequestMessage::Request { .. } => "http.request",
        }
    }
}

/// The items the handler puts into the request-body channel of one request
/// before it closes the channel: the request's body, once.
pub open spec fn handler_items() -> Seq<Received> {
    seq![Received::Body]
}

/// What the `i`-th receive that completes dequeues from a channel that was
/// sent `items` and then closed: the items in order, then the closed channel.
/// (Receives are served one at a time, in the order they dequeue; a receive
/// that never completes dequeues nothing.)
pub open spec fn dequeued(items: Seq<Received>, i: int) -> Received {
    if 0 <= i < items.len() {
        items[i]
    } else {
        Received::Closed
    }
}

/// How many of the completed receives, whose connection flags at the time
/// are `flags`, hand the application an `http.request` message.
pub open spec fn requests_in(items: Seq<Received>, flags: Seq<bool>) -> nat
    decreases flags.len(),
{
    if flags.len() == 0 {
        0
    } else {
        requests_in(items, flags.drop_last()) + if yields_request(
            dequeued(items, flags.len() - 1),
            flags.last(),
        ) {
            1nat
        } else {
            0nat
        }
    }
}

/// A channel that was sent `items` yields at most as many `http.request`
/// messages as it held items, however many receives there are and whatever
/// the connection does meanwhile.
pub proof fn lemma_requests_bounded_by_items(items: Seq<Received>, flags: Seq<bool>)
    ensures
        requests_in(items, flags) <= flags.len(),
        requests_in(items, flags) <= items.len(),
    decreases flags.len(),
{
    if flags.len() > 0 {
        lemma_requests_bounded_by_items(items, flags.drop_last());
        if flags.len() - 1 >= items.len() {
            assert(dequeued(items, flags.len() - 1) == Received::Closed);
        }
    }
}

/// For one request, of all the receives the application makes, at most one
/// hands it an `http.request` message: the first one to complete, unless the
/// connection was gone by then. Every other completed receive is a
/// disconnect.
pub proof fn lemma_at_most_one_request(flags: Seq<bool>)
    ensures
        requests_in(handler_items(), flags) <= 1,
        forall|i: int|
            1 <= i < flags.len() ==> !yields_request(
                #[trigger] dequeued(handler_items(), i),
                flags[i],
            ),
        flags.len() > 0 ==> (yields_request(dequeued(handler_items(), 0), flags[0]) <==> !flags[0]),
{
    lemma_requests_bounded_by_items(handler_items(), flags);
}

} // verus!
