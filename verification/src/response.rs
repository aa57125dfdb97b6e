use vstd::prelude::*;

use crate::error::{is_client_error, AsgiError};
use crate::headers::{
    all_headers_valid, is_valid_status, normalize_headers, normalized_headers, valid_status,
    HeaderBytes,
};

verus! {

broadcast use vstd::string::to_string_from_display_ensures_for_str;

/// One field of a message dictionary the application sent, as the bridge
/// found it.
pub enum Field<T> {
    /// The key is not in the dictionary.
    Absent,
    /// The key is there, but its value does not have the required type.
    Invalid,
    /// The key is there with a value of the required type.
    Present(T),
}

/// A message the application sent through `send`, reduced to the fields
/// that the bridge reads.
pub struct AppMessage {
    /// `type`, a string.
    pub kind: Field<String>,
    /// `status`, an integer that fits 16 bits.
    pub status: Field<u16>,
    /// `headers`, a sequence of `[name, value]` byte-string pairs.
    pub headers: Field<Vec<(Vec<u8>, Vec<u8>)>>,
    /// `body`, a byte string.
    pub body: Field<Vec<u8>>,
    /// `more_body`, a boolean.
    pub more_body: Field<bool>,
}

/// The HTTP response assembled from the application's messages.
pub struct HttpResponse {
    pub status: u16,
    /// Headers in the order the application gave them, names in normal form.
    pub headers: Vec<(Vec<u8>, Vec<u8>)>,
    pub body: Vec<u8>,
}

/// The mathematical content of a response.
pub struct ResponseView {
    pub status: u16,
    pub headers: Seq<HeaderBytes>,
    pub body: Seq<u8>,
}

impl View for HttpResponse {
    type V = ResponseView;

    open spec fn view(&self) -> ResponseView {
        ResponseView { status: self.status, headers: self.headers.deep_view(), body: self.body@ }
    }
}

/// The progress of a response: waiting for `http.response.start`, collecting
/// the body, or decided.
pub enum AssemblyState {
    AwaitingStart,
    Streaming(ResponseView),
    Done(Result<ResponseView, AsgiError>),
}

/// The `type` of the message that opens a response.
pub open spec fn start_type() -> Seq<char> {
    "http.response.start"@
}

/// The `type` of the messages that carry the body.
pub open spec fn body_type() -> Seq<char> {
    "http.response.body"@
}

/// The status and the headers (where given) that an opening message
/// carries, or what is wrong with it: the type is read first, then the
/// status, then the headers.
pub open spec fn start_fields(m: AppMessage) -> Result<
    (u16, Option<Vec<(Vec<u8>, Vec<u8>)>>),
    AsgiError,
> {
    match m.kind {
        Field::Absent => Err(AsgiError::ExpectedResponseStart),
        Field::Invalid => Err(AsgiError::PyErr),
        Field::Present(t) => if t@ != start_type() {
            Err(AsgiError::ExpectedResponseStart)
        } else {
            match m.status {
                Field::Present(s) => match m.headers {
                    Field::Absent => Ok((s, None)),
                    Field::Invalid => Err(AsgiError::PyErr),
                    Field::Present(h) => Ok((s, Some(h))),
                },
                _ => Err(AsgiError::PyErr),
            }
        },
    }
}

/// An opening message with headers but with a status that no response can
/// carry: the response builder cannot take headers then.
pub open spec fn start_breaks_builder(m: AppMessage) -> bool {
    start_fields(m) matches Ok((s, Some(_))) && !valid_status(s)
}

/// The status and outgoing headers an opening message sets, or the error
/// it causes.
pub open spec fn start_outcome(m: AppMessage) -> Result<(u16, Seq<HeaderBytes>), AsgiError> {
    match start_fields(m) {
        Err(e) => Err(e),
        Ok((s, None)) => Ok((s, Seq::empty())),
        Ok((s, Some(h))) => if all_headers_valid(h.deep_view()) {
            Ok((s, normalized_headers(h.deep_view())))
        } else {
            Err(AsgiError::InvalidHeader)
        },
    }
}

/// The body bytes and the `more_body` flag a body message carries, or the
/// error it causes: a missing body is empty, a missing `more_body` is false.
pub open spec fn chunk_outcome(m: AppMessage) -> Result<(Seq<u8>, bool), AsgiError> {
    match m.kind {
        Field::Absent => Err(AsgiError::ExpectedResponseBody),
        Field::Invalid => Err(AsgiError::PyErr),
        Field::Present(t) => if t@ != body_type() {
            Err(AsgiError::ExpectedResponseBody)
        } else {
            match m.more_body {
                Field::Invalid => Err(AsgiError::PyErr),
                _ => {
                    let more = match m.more_body {
                        Field::Present(b) => b,
                        _ => false,
                    };
                    match m.body {
                        Field::Invalid => Err(AsgiError::PyErr),
                        Field::Absent => Ok((Seq::empty(), more)),
                        Field::Present(b) => Ok((b@, more)),
                    }
                },
            }
        },
    }
}

/// What a collected response turns into once the body is complete: it
/// stands if its status is one a response can carry.
pub open spec fn finish(r: ResponseView) -> Result<ResponseView, AsgiError> {
    if valid_status(r.status) {
        Ok(r)
    } else {
        Err(AsgiError::FailedToCreateResponse)
    }
}

/// One step of response assembly. The event is the next message of the
/// application, or `None` when it sends nothing more.
pub open spec fn step(s: AssemblyState, event: Option<AppMessage>) -> AssemblyState {
    match s {
        AssemblyState::AwaitingStart => match event {
            None => AssemblyState::Done(Err(AsgiError::MissingResponse)),
            Some(m) => match start_outcome(m) {
                Err(e) => AssemblyState::Done(Err(e)),
                Ok((status, headers)) => AssemblyState::Streaming(
                    ResponseView { status, headers, body: Seq::empty() },
                ),
            },
        },
        AssemblyState::Streaming(r) => match event {
            None => AssemblyState::Done(finish(r)),
            Some(m) => match chunk_outcome(m) {
                Err(e) => AssemblyState::Done(Err(e)),
                Ok((bytes, more)) => {
                    let next = ResponseView { body: r.body + bytes, ..r };
                    if more {
                        AssemblyState::Streaming(next)
                    } else {
                        AssemblyState::Done(finish(next))
                    }
                },
            },
        },
        AssemblyState::Done(out) => AssemblyState::Done(out),
    }
}

/// Assembly over a whole run of events.
pub open spec fn run(s: AssemblyState, events: Seq<Option<AppMessage>>) -> AssemblyState
    decreases events.len(),
{
    if events.len() == 0 {
        s
    } else {
        run(step(s, events[0]), events.drop_first())
    }
}

/// An event that the response builder cannot take in state `s`.
pub open spec fn event_breaks_builder(s: AssemblyState, event: Option<AppMessage>) -> bool {
    &&& s is AwaitingStart
    &&& event matches Some(m) && start_breaks_builder(m)
}

/// The mathematical content of an assembly result.
pub open spec fn outcome_view(out: Result<HttpResponse, AsgiError>) -> Result<
    ResponseView,
    AsgiError,
> {
    match out {
        Ok(r) => Ok(r@),
        Err(e) => Err(e),
    }
}

/// Whether `t` holds exactly the characters of `expected`.
fn text_is(t: &String, expected: &str) -> (b: bool)
    ensures
        b == (t@ == expected@),
{
    let e = expected.to_string();
    *t == e
}

/// Reads the fields of an opening message.
fn read_start_fields(m: AppMessage) -> (res: Result<(u16, Option<Vec<(Vec<u8>, Vec<u8>)>>), AsgiError>)
    ensures
        res == start_fields(m),
{
    match m.kind {
        Field::Absent => Err(AsgiError::ExpectedResponseStart),
        Field::Invalid => Err(AsgiError::PyErr),
        Field::Present(t) => {
            if !text_is(&t, "http.response.start") {
                return Err(AsgiError::ExpectedResponseStart);
            }
            match m.status {
                Field::Present(s) => match m.headers {
                    Field::Absent => Ok((s, None)),
                    Field::Invalid => Err(AsgiError::PyErr),
                    Field::Present(h) => Ok((s, Some(h))),
                },
                _ => Err(AsgiError::PyErr),
            }
        },
    }
}

/// Reads the body bytes and the `more_body` flag of a body message.
fn read_chunk(m: AppMessage) -> (res: Result<(Vec<u8>, bool), AsgiError>)
    ensures
        res is Ok <==> chunk_outcome(m) is Ok,
        res matches Ok((b, more)) ==> chunk_outcome(m) == Ok::<_, AsgiError>((b@, more)),
        res matches Err(e) ==> chunk_outcome(m) == Err::<(Seq<u8>, bool), _>(e),
{
    match m.kind {
        Field::Absent => Err(AsgiError::ExpectedResponseBody),
        Field::Invalid => Err(AsgiError::PyErr),
        Field::Present(t) => {
            if !text_is(&t, "http.response.body") {
                return Err(AsgiError::ExpectedResponseBody);
            }
            let more = match m.more_body {
                Field::Invalid => {
                    return Err(AsgiError::PyErr);
                },
                Field::Present(b) => b,
                Field::Absent => false,
            };
            match m.body {
                Field::Invalid => Err(AsgiError::PyErr),
                Field::Absent => Ok((Vec::new(), more)),
                Field::Present(b) => Ok((b, more)),
            }
        },
    }
}

enum Phase {
    AwaitingStart,
    Streaming,
    Done,
}

/// Assembles the HTTP response out of the messages the application sends,
/// one message at a time.
pub struct ResponseAssembler {
    phase: Phase,
    status: u16,
    headers: Vec<(Vec<u8>, Vec<u8>)>,
    body: Vec<u8>,
    outcome: Ghost<Result<ResponseView, AsgiError>>,
}

impl View for ResponseAssembler {
    type V = AssemblyState;

    closed spec fn view(&self) -> AssemblyState {
        match self.phase {
            Phase::AwaitingStart => AssemblyState::AwaitingStart,
            Phase::Streaming => AssemblyState::Streaming(
                ResponseView {
                    status: self.status,
                    headers: self.headers.deep_view(),
                    body: self.body@,
                },
            ),
            Phase::Done => AssemblyState::Done(self.outcome@),
        }
    }
}

impl ResponseAssembler {
    /// An assembler waiting for `http.response.start`.
    pub fn new() -> (a: Self)
        ensures
            a@ == AssemblyState::AwaitingStart,
    {
        ResponseAssembler {
            phase: Phase::AwaitingStart,
            status: 0,
            headers: Vec::new(),
            body: Vec::new(),
            outcome: Ghost(Err(AsgiError::MissingResponse)),
        }
    }

    /// Whether the response is decided.
    pub fn is_done(&self) -> (b: bool)
        ensures
            b == self@ is Done,
    {
        match self.phase {
            Phase::Done => true,
            _ => false,
        }
    }

    /// Whether the response builder cannot take `event` now: an opening
    /// message with headers whose status no response can carry. Such an
    /// event brings the bridge down.
    pub fn breaks_builder(&self, event: &Option<AppMessage>) -> (b: bool)
        ensures
            b == event_breaks_builder(self@, *event),
            b ==> self@ is AwaitingStart,
            b ==> (event matches Some(m) && m.kind matches Field::Present(t) && t@
                == "http.response.start"@),
            b ==> (event matches Some(m) && m.status matches Field::Present(st) && !(100 <= st
                <= 999)),
            b ==> (event matches Some(m) && m.headers is Present),
            self@ is AwaitingStart ==> (event matches Some(m) ==> (m.kind matches Field::Present(
                t,
            ) ==> (t@ == "http.response.start"@ ==> (m.status matches Field::Present(st) ==> (
            !(100 <= st <= 999) ==> (m.headers is Present ==> b)))))),
            self@ is AwaitingStart ==> (event matches Some(m) ==> (m.status matches Field::Present(
                st,
            ) ==> (100 <= st <= 999 ==> !b))),
    {
        match self.phase {
            Phase::AwaitingStart => {},
            _ => {
                return false;
            },
        }
        match event {
            None => false,
            Some(m) => match &m.kind {
                Field::Present(t) => {
                    if !text_is(t, "http.response.start") {
                        return false;
                    }
                    match (&m.status, &m.headers) {
                        (Field::Present(s), Field::Present(_)) => !is_valid_status(*s),
                        _ => false,
                    }
                },
                _ => false,
            },
        }
    }

    fn conclude(&mut self, out: Result<HttpResponse, AsgiError>) -> (res: Option<
        Result<HttpResponse, AsgiError>,
    >)
        ensures
            final(self)@ == AssemblyState::Done(outcome_view(out)),
            res == Some(out),
    {
        self.phase = Phase::Done;
        self.outcome = Ghost(outcome_view(out));
        Some(out)
    }

    fn complete(&mut self) -> (res: Option<Result<HttpResponse, AsgiError>>)
        requires
            old(self)@ is Streaming,
        ensures
            res is Some,
            final(self)@ == AssemblyState::Done(outcome_view(res->0)),
            final(self)@ == AssemblyState::Done(finish(old(self)@->Streaming_0)),
    {
        let mut headers = Vec::new();
        let mut body = Vec::new();
        std::mem::swap(&mut headers, &mut self.headers);
        std::mem::swap(&mut body, &mut self.body);
        if is_valid_status(self.status) {
            self.conclude(Ok(HttpResponse { status: self.status, headers, body }))
        } else {
            self.conclude(Err(AsgiError::FailedToCreateResponse))
        }
    }

    /// Takes the next event: the next message of the application, or `None`
    /// when it sends nothing more. Gives back the response, or the error
    /// that stands in its place, once it is decided.
    pub fn on_message(&mut self, event: Option<AppMessage>) -> (res: Option<
        Result<HttpResponse, AsgiError>,
    >)
        requires
            !(old(self)@ is Done),
            !event_breaks_builder(old(self)@, event),
        ensures
            final(self)@ == step(old(self)@, event),
            res is None <==> !(final(self)@ is Done),
            res matches Some(out) ==> final(self)@ == AssemblyState::Done(outcome_view(out)),
            old(self)@ is Streaming ==> (event matches Some(m) ==> (m.kind matches Field::Present(
                t,
            ) ==> (t@ == "http.response.body"@ ==> (m.more_body == Field::<bool>::Present(true)
                ==> (m.body matches Field::Present(b) ==> (res is None && final(self)@
                == AssemblyState::Streaming(
                ResponseView {
                    body: old(self)@->Streaming_0.body + b@,
                    ..old(self)@->Streaming_0
                },
            ))))))),
            old(self)@ is Streaming ==> (event matches Some(m) ==> (m.kind matches Field::Present(
                t,
            ) ==> (t@ == "http.response.body"@ ==> (m.more_body == Field::<bool>::Present(false)
                ==> (m.body matches Field::Present(b) ==> (100 <= old(self)@->Streaming_0.status
                <= 999 ==> (res matches Some(Ok(resp)) && resp.body@ == old(
                self,
            )@->Streaming_0.body + b@ && resp.status == old(self)@->Streaming_0.status
                && resp.headers.deep_view() == old(self)@->Streaming_0.headers))))))),
    {
        match self.phase {
            Phase::AwaitingStart => {
                let m = match event {
                    None => {
                        return self.conclude(Err(AsgiError::MissingResponse));
                    },
                    Some(m) => m,
                };
                let ghost gm = m;
                let (status, headers) = match read_start_fields(m) {
                    Err(e) => {
                        return self.conclude(Err(e));
                    },
                    Ok(fields) => fields,
                };
                let headers = match headers {
                    None => Vec::new(),
                    Some(h) => match normalize_headers(&h) {
                        Ok(n) => n,
                        Err(e) => {
                            return self.conclude(Err(e));
                        },
                    },
                };
                self.status = status;
                self.headers = headers;
                self.body = Vec::new();
                self.phase = Phase::Streaming;
                proof {
                    assert(self.headers.deep_view() =~= start_outcome(gm)->Ok_0.1);
                }
                None
            },
            Phase::Streaming => {
                let m = match event {
                    None => {
                        return self.complete();
                    },
                    Some(m) => m,
                };
                match read_chunk(m) {
                    Err(e) => self.conclude(Err(e)),
                    Ok((bytes, more)) => {
                        let mut bytes = bytes;
                        self.body.append(&mut bytes);
                        if more {
                            None
                        } else {
                            self.complete()
                        }
                    },
                }
            },
            Phase::Done => {
                proof {
                    assert(false);
                }
                None
            },
        }
    }
}


/// The events that deliver the messages `ms` one after the other.
pub open spec fn as_events(ms: Seq<AppMessage>) -> Seq<Option<AppMessage>> {
    ms.map_values(|m: AppMessage| Some(m))
}

/// `m` is a well-formed body message that announces more body.
pub open spec fn announces_more(m: AppMessage) -> bool {
    chunk_outcome(m) matches Ok((_, more)) && more
}

/// `m` is a well-formed body message that ends the body.
pub open spec fn ends_body(m: AppMessage) -> bool {
    chunk_outcome(m) matches Ok((_, more)) && !more
}

/// Every message of `ms` is a well-formed body message that announces more body.
pub open spec fn all_announce_more(ms: Seq<AppMessage>) -> bool {
    forall|i: int| 0 <= i < ms.len() ==> #[trigger] announces_more(ms[i])
}

/// The body bytes that the messages `ms` carry, in order.
pub open spec fn carried_bytes(ms: Seq<AppMessage>) -> Seq<u8>
    decreases ms.len(),
{
    if ms.len() == 0 {
        Seq::empty()
    } else {
        chunk_outcome(ms[0])->Ok_0.0 + carried_bytes(ms.drop_first())
    }
}

/// Running two stretches of events one after the other is running them as one.
pub proof fn lemma_run_concat(s: AssemblyState, a: Seq<Option<AppMessage>>, b: Seq<Option<AppMessage>>)
    ensures
        run(s, a + b) == run(run(s, a), b),
    decreases a.len(),
{
    if a.len() == 0 {
        assert(a + b =~= b);
    } else {
        assert((a + b).drop_first() =~= a.drop_first() + b);
        lemma_run_concat(step(s, a[0]), a.drop_first(), b);
    }
}

/// Running a single event is taking one step.
proof fn lemma_run_one(s: AssemblyState, e: Option<AppMessage>)
    ensures
        run(s, seq![e]) == step(s, e),
{
    assert(seq![e].drop_first() =~= Seq::<Option<AppMessage>>::empty());
    assert(run(step(s, e), Seq::<Option<AppMessage>>::empty()) == step(s, e));
}

/// A decided response stays decided, whatever the application sends after.
pub proof fn lemma_decided_is_final(out: Result<ResponseView, AsgiError>, events: Seq<Option<AppMessage>>)
    ensures
        run(AssemblyState::Done(out), events) == AssemblyState::Done(out),
    decreases events.len(),
{
    if events.len() > 0 {
        lemma_decided_is_final(out, events.drop_first());
    }
}

/// Body messages that announce more body only append their bytes, in order,
/// to the body collected so far.
pub proof fn lemma_streaming_appends(r: ResponseView, ms: Seq<AppMessage>)
    requires
        all_announce_more(ms),
    ensures
        run(AssemblyState::Streaming(r), as_events(ms)) == AssemblyState::Streaming(
            ResponseView { body: r.body + carried_bytes(ms), ..r },
        ),
    decreases ms.len(),
{
    if ms.len() == 0 {
        assert(r.body + carried_bytes(ms) =~= r.body);
    } else {
        assert(announces_more(ms[0]));
        let next = ResponseView { body: r.body + chunk_outcome(ms[0])->Ok_0.0, ..r };
        assert(as_events(ms)[0] == Some(ms[0]));
        assert(step(AssemblyState::Streaming(r), Some(ms[0])) == AssemblyState::Streaming(next));
        assert(as_events(ms).drop_first() =~= as_events(ms.drop_first()));
        assert forall|i: int| 0 <= i < ms.drop_first().len() implies #[trigger] announces_more(
            ms.drop_first()[i],
        ) by {
            assert(ms.drop_first()[i] == ms[i + 1]);
            assert(announces_more(ms[i + 1]));
        }
        lemma_streaming_appends(next, ms.drop_first());
        assert(next.body + carried_bytes(ms.drop_first()) =~= r.body + carried_bytes(ms));
    }
}

/// The response to an opening message, body messages announcing more and a
/// last body message: it has the status and the normalized headers of the
/// opening message, and its body is the bytes of all body messages in the
/// order they were sent; it stands if the status is one a response can carry.
pub proof fn lemma_complete_response(start: AppMessage, ms: Seq<AppMessage>, last: AppMessage)
    requires
        start_outcome(start) is Ok,
        all_announce_more(ms),
        ends_body(last),
    ensures
        run(
            AssemblyState::AwaitingStart,
            seq![Some(start)] + as_events(ms) + seq![Some(last)],
        ) == AssemblyState::Done(
            finish(
                ResponseView {
                    status: start_outcome(start)->Ok_0.0,
                    headers: start_outcome(start)->Ok_0.1,
                    body: carried_bytes(ms) + chunk_outcome(last)->Ok_0.0,
                },
            ),
        ),
{
    let head = ResponseView {
        status: start_outcome(start)->Ok_0.0,
        headers: start_outcome(start)->Ok_0.1,
        body: Seq::empty(),
    };
    let first: Seq<Option<AppMessage>> = seq![Some(start)];
    let tail: Seq<Option<AppMessage>> = seq![Some(last)];
    lemma_run_concat(AssemblyState::AwaitingStart, first + as_events(ms), tail);
    lemma_run_concat(AssemblyState::AwaitingStart, first, as_events(ms));
    lemma_run_one(AssemblyState::AwaitingStart, Some(start));
    lemma_streaming_appends(head, ms);
    assert(head.body + carried_bytes(ms) =~= carried_bytes(ms));
    let streamed = ResponseView { body: carried_bytes(ms), ..head };
    lemma_run_one(AssemblyState::Streaming(streamed), Some(last));
}

/// When the application stops sending after an opening message and body
/// messages that announce more, the response is what was collected: the
/// body is the bytes of all body messages in order.
pub proof fn lemma_closed_response(start: AppMessage, ms: Seq<AppMessage>)
    requires
        start_outcome(start) is Ok,
        all_announce_more(ms),
    ensures
        run(AssemblyState::AwaitingStart, seq![Some(start)] + as_events(ms) + seq![None]) == AssemblyState::Done(
            finish(
                ResponseView {
                    status: start_outcome(start)->Ok_0.0,
                    headers: start_outcome(start)->Ok_0.1,
                    body: carried_bytes(ms),
                },
            ),
        ),
{
    let head = ResponseView {
        status: start_outcome(start)->Ok_0.0,
        headers: start_outcome(start)->Ok_0.1,
        body: Seq::empty(),
    };
    let first: Seq<Option<AppMessage>> = seq![Some(start)];
    let tail: Seq<Option<AppMessage>> = seq![None];
    lemma_run_concat(AssemblyState::AwaitingStart, first + as_events(ms), tail);
    lemma_run_concat(AssemblyState::AwaitingStart, first, as_events(ms));
    lemma_run_one(AssemblyState::AwaitingStart, Some(start));
    lemma_streaming_appends(head, ms);
    assert(head.body + carried_bytes(ms) =~= carried_bytes(ms));
    let streamed = ResponseView { body: carried_bytes(ms), ..head };
    lemma_run_one(AssemblyState::Streaming(streamed), None);
}

/// A message that is not a well-formed body message, after the opening and
/// body messages announcing more, decides the response as that message's
/// error.
pub proof fn lemma_bad_body_message(start: AppMessage, ms: Seq<AppMessage>, bad: AppMessage)
    requires
        start_outcome(start) is Ok,
        all_announce_more(ms),
        chunk_outcome(bad) is Err,
    ensures
        run(AssemblyState::AwaitingStart, seq![Some(start)] + as_events(ms) + seq![Some(bad)])
            == AssemblyState::Done(Err(chunk_outcome(bad)->Err_0)),
{
    let head = ResponseView {
        status: start_outcome(start)->Ok_0.0,
        headers: start_outcome(start)->Ok_0.1,
        body: Seq::empty(),
    };
    let first: Seq<Option<AppMessage>> = seq![Some(start)];
    let tail: Seq<Option<AppMessage>> = seq![Some(bad)];
    lemma_run_concat(AssemblyState::AwaitingStart, first + as_events(ms), tail);
    lemma_run_concat(AssemblyState::AwaitingStart, first, as_events(ms));
    lemma_run_one(AssemblyState::AwaitingStart, Some(start));
    lemma_streaming_appends(head, ms);
    let streamed = ResponseView { body: head.body + carried_bytes(ms), ..head };
    lemma_run_one(AssemblyState::Streaming(streamed), Some(bad));
}

/// Taking one more event after a run is one more step.
pub proof fn lemma_run_push(s: AssemblyState, events: Seq<Option<AppMessage>>, e: Option<AppMessage>)
    ensures
        run(s, events.push(e)) == step(run(s, events), e),
{
    assert(events.push(e) =~= events + seq![e]);
    lemma_run_concat(s, events, seq![e]);
    lemma_run_one(run(s, events), e);
}

/// No state reached by assembly holds an error that blames the client.
pub open spec fn blames_no_client(s: AssemblyState) -> bool {
    s matches AssemblyState::Done(Err(e)) ==> !is_client_error(e)
}

/// Whatever the application sends, a response that fails is answered as a
/// server error (500), never as a bad request.
pub proof fn lemma_response_errors_are_server_errors(
    s: AssemblyState,
    events: Seq<Option<AppMessage>>,
)
    requires
        blames_no_client(s),
    ensures
        blames_no_client(run(s, events)),
    decreases events.len(),
{
    if events.len() > 0 {
        assert(blames_no_client(step(s, events[0])));
        lemma_response_errors_are_server_errors(step(s, events[0]), events.drop_first());
    }
}

/// An opening message with a status a response can carry never breaks the
/// response builder; one with headers and any other status always does.
pub proof fn law_usable_status_never_breaks_builder(s: AssemblyState, m: AppMessage)
    ensures
        m.status matches Field::Present(st) && 100 <= st <= 999 ==> !event_breaks_builder(
            s,
            Some(m),
        ),
        s is AwaitingStart ==> (m.kind matches Field::Present(t) ==> (t@
            == "http.response.start"@ ==> (m.status matches Field::Present(st) ==> (!(100 <= st
            <= 999) ==> (m.headers is Present ==> event_breaks_builder(s, Some(m))))))),
{
}

/// The bytes of a body message whose body is present.
spec fn present_body(m: AppMessage) -> Seq<u8> {
    m.body->Present_0@
}

proof fn lemma_announced_bytes(ms: Seq<AppMessage>)
    requires
        forall|i: int|
            0 <= i < ms.len() ==> (#[trigger] ms[i].kind matches Field::Present(t) && t@
                == "http.response.body"@),
        forall|i: int| 0 <= i < ms.len() ==> #[trigger] ms[i].more_body == Field::<bool>::Present(true),
        forall|i: int| 0 <= i < ms.len() ==> #[trigger] ms[i].body is Present,
    ensures
        all_announce_more(ms),
        carried_bytes(ms) == ms.map_values(|m: AppMessage| present_body(m)).flatten(),
    decreases ms.len(),
{
    assert forall|i: int| 0 <= i < ms.len() implies #[trigger] announces_more(ms[i]) by {
        assert(ms[i].kind matches Field::Present(t) && t@ == "http.response.body"@);
        assert(ms[i].more_body == Field::<bool>::Present(true));
        assert(ms[i].body is Present);
    }
    if ms.len() > 0 {
        let rest = ms.drop_first();
        assert forall|i: int| 0 <= i < rest.len() implies (#[trigger] rest[i].kind matches Field::Present(t)
            && t@ == "http.response.body"@) by {
            assert(rest[i] == ms[i + 1]);
            assert(ms[i + 1].kind matches Field::Present(t) && t@ == "http.response.body"@);
        }
        assert forall|i: int| 0 <= i < rest.len() implies #[trigger] rest[i].more_body == Field::<
            bool,
        >::Present(true) by {
            assert(rest[i] == ms[i + 1]);
            assert(ms[i + 1].more_body == Field::<bool>::Present(true));
        }
        assert forall|i: int| 0 <= i < rest.len() implies #[trigger] rest[i].body is Present by {
            assert(rest[i] == ms[i + 1]);
            assert(ms[i + 1].body is Present);
        }
        lemma_announced_bytes(rest);
        assert(announces_more(ms[0]));
        let bs = ms.map_values(|m: AppMessage| present_body(m));
        assert(bs.drop_first() =~= rest.map_values(|m: AppMessage| present_body(m)));
        assert(bs.first() == present_body(ms[0]));
        assert(chunk_outcome(ms[0])->Ok_0.0 == present_body(ms[0]));
    } else {
        assert(ms.map_values(|m: AppMessage| present_body(m)) =~= Seq::<Seq<u8>>::empty());
    }
}

/// Body messages that announce more body never end the response, whatever
/// their length, empty ones included: after an opening message with a usable
/// status and no headers, body messages with `more_body` true and a last
/// body message with `more_body` false or missing, the response has that
/// status and its body is the bodies of all these messages, concatenated in
/// the order they were sent.
pub proof fn law_body_is_concatenation(start: AppMessage, ms: Seq<AppMessage>, last: AppMessage)
    requires
        start.kind matches Field::Present(t) && t@ == "http.response.start"@,
        start.status matches Field::Present(st) && 100 <= st <= 999,
        start.headers is Absent,
        forall|i: int|
            0 <= i < ms.len() ==> (#[trigger] ms[i].kind matches Field::Present(t) && t@
                == "http.response.body"@),
        forall|i: int| 0 <= i < ms.len() ==> #[trigger] ms[i].more_body == Field::<bool>::Present(true),
        forall|i: int| 0 <= i < ms.len() ==> #[trigger] ms[i].body is Present,
        last.kind matches Field::Present(t) && t@ == "http.response.body"@,
        last.more_body == Field::<bool>::Present(false) || last.more_body is Absent,
        last.body is Present,
    ensures
        run(
            AssemblyState::AwaitingStart,
            seq![Some(start)] + ms.map_values(|m: AppMessage| Some(m)) + seq![Some(last)],
        ) == AssemblyState::Done(
            Ok(
                ResponseView {
                    status: start.status->Present_0,
                    headers: Seq::empty(),
                    body: ms.map_values(|m: AppMessage| m.body->Present_0@).flatten()
                        + last.body->Present_0@,
                },
            ),
        ),
{
    lemma_announced_bytes(ms);
    assert(ms.map_values(|m: AppMessage| present_body(m)) =~= ms.map_values(
        |m: AppMessage| m.body->Present_0@,
    ));
    assert(as_events(ms) =~= ms.map_values(|m: AppMessage| Some(m)));
    assert(start_outcome(start) == Ok::<(u16, Seq<HeaderBytes>), AsgiError>(
        (start.status->Present_0, Seq::empty()),
    ));
    assert(ends_body(last));
    lemma_complete_response(start, ms, last);
}

} // verus!
