//! One exchange with a server: the request and response values, and the
//! handler that answers the transport's callbacks until a result is
//! delivered.

use crate::address::{
    parse, parsed_url, room, serialized, too_long, url_with_path, url_with_query, with_path,
    with_query,
};
use crate::text::chars;
use crate::error::Error;
use crate::fields::Fields;
use crate::headers::{with_header, Headers};
use crate::text::from_utf8;
use std::time::Duration;
use vstd::prelude::*;
use vstd::string::*;
use vstd::utf8::{decode_utf8, encode_utf8, valid_utf8};

verus! {

/// The request methods.
#[derive(Debug, Clone, Copy, PartialEq, Eq, Structural)]
pub enum Method {
    Get,
    Post,
    Patch,
    Put,
    Delete,
    Options,
    Head,
    Trace,
}

/// The text of `s`, where there is one.
pub open spec fn opt_text(s: Option<String>) -> Option<Seq<char>> {
    match s {
        Some(t) => Some(t@),
        None => None,
    }
}

/// The bytes of `b`, where there are any.
pub open spec fn opt_bytes(b: Option<Vec<u8>>) -> Option<Seq<u8>> {
    match b {
        Some(v) => Some(v@),
        None => None,
    }
}

/// What a request holds.
pub struct RequestView {
    pub method: Method,
    pub route: Option<Seq<char>>,
    pub body: Option<Seq<char>>,
}

/// A request: a method, the route below the endpoint's address, and a body
/// for the methods that send one. It is built once and not changed.
#[derive(Debug)]
pub struct Request {
    method: Method,
    route: Option<String>,
    body: Option<String>,
}

impl View for Request {
    type V = RequestView;

    closed spec fn view(&self) -> RequestView {
        RequestView {
            method: self.method,
            route: opt_text(self.route),
            body: opt_text(self.body),
        }
    }
}

/// A copy of `s`.
fn copy_text(s: &Option<String>) -> (r: Option<String>)
    ensures
        opt_text(r) == opt_text(*s),
{
    match s {
        Some(t) => Some(t.clone()),
        None => None,
    }
}

impl Request {
    /// A request of `method` for `route`, with `body`.
    pub fn new(method: Method, route: Option<String>, body: Option<String>) -> (r: Request)
        ensures
            r@ == (RequestView { method, route: opt_text(route), body: opt_text(body) }),
    {
        Request { method, route, body }
    }

    /// The method.
    pub fn method(&self) -> (m: Method)
        ensures
            m == self@.method,
    {
        self.method
    }

    /// The route.
    pub fn route(&self) -> (r: &Option<String>)
        ensures
            opt_text(*r) == self@.route,
    {
        &self.route
    }

    /// The body.
    pub fn body(&self) -> (b: &Option<String>)
        ensures
            opt_text(*b) == self@.body,
    {
        &self.body
    }
}

impl Clone for Request {
    fn clone(&self) -> (r: Request)
        ensures
            r@ == self@,
    {
        Request { method: self.method, route: copy_text(&self.route), body: copy_text(&self.body) }
    }
}

/// What a response holds.
pub struct ResponseView {
    pub status: u16,
    pub headers: Seq<(Seq<char>, Seq<char>)>,
    pub body: Option<Seq<u8>>,
}

/// A response: the status code, the header fields, and the body as far as it
/// has arrived. No body is not the same as an empty one.
#[derive(Debug)]
pub struct Response {
    pub status: u16,
    pub headers: Headers,
    pub body: Option<Vec<u8>>,
}

impl View for Response {
    type V = ResponseView;

    open spec fn view(&self) -> ResponseView {
        ResponseView { status: self.status, headers: self.headers@, body: opt_bytes(self.body) }
    }
}

/// A copy of `v`.
fn copy_bytes(v: &Vec<u8>) -> (r: Vec<u8>)
    ensures
        r@ == v@,
{
    let mut r: Vec<u8> = Vec::new();
    let mut i: usize = 0;
    while i < v.len()
        invariant
            i <= v.len(),
            r@ == v@.take(i as int),
        decreases v.len() - i,
    {
        r.push(v[i]);
        i += 1;
    }
    r
}

impl Clone for Response {
    fn clone(&self) -> (r: Response)
        ensures
            r@ == self@,
    {
        let body = match &self.body {
            Some(b) => Some(copy_bytes(b)),
            None => None,
        };
        Response { status: self.status, headers: self.headers.clone(), body }
    }
}

/// The views of a response that may be missing.
pub open spec fn opt_response(r: Option<Response>) -> Option<ResponseView> {
    match r {
        Some(x) => Some(x@),
        None => None,
    }
}

/// Where an exchange stands.
#[derive(Debug, Clone, Copy, PartialEq, Eq, Structural)]
pub enum State {
    /// The transport has not asked for the request's head yet.
    AwaitingRequestHeaders,
    /// The head is out; the body waits for the connection to take it.
    AwaitingRequestBody,
    /// The request is out; the response's head has not arrived.
    AwaitingResponseHeaders,
    /// The response's head is in; its body is being read.
    AwaitingResponseBody,
    /// The exchange ended and its result was delivered.
    Done,
    /// The transport failed and what there was has been delivered.
    Errored,
}

/// What the handler asks of the transport next.
#[derive(Debug, Clone, Copy, PartialEq, Eq)]
pub enum Next {
    /// Call back when the response can be read, within so many seconds where
    /// a number is given.
    Read(Option<u64>),
    /// Call back when the request's body can be written.
    Write,
    /// The exchange is over; the connection may be used again.
    End,
    /// The exchange is over; drop the connection.
    Remove,
}

/// How a read of the response's body ended.
#[derive(Debug, Clone, Copy, PartialEq, Eq, Structural)]
pub enum ReadEnd {
    /// The stream had no more to give.
    Eof,
    /// No more can be had without waiting.
    WouldBlock,
    /// The read failed in any other way.
    Failed,
}

/// The seconds that the handler waits for a response to become readable.
pub const READ_TIMEOUT: u64 = 1000;

/// A callback of the transport, with what it brings.
pub enum Event {
    /// The request's head can be filled in.
    RequestReady,
    /// The request's body can be written.
    RequestWritable,
    /// The response's head has arrived.
    ResponseHead { status: u16, headers: Seq<(Seq<char>, Seq<char>)> },
    /// A read of the response's body brought `bytes` and ended in `end`.
    BodyReadable { bytes: Seq<u8>, end: ReadEnd },
    /// The transport failed.
    TransportError,
}

/// A request with the response that came for it, as far as any came.
pub type Delivery = (RequestView, Option<ResponseView>);

/// What a handler holds.
pub struct HandlerView {
    pub state: State,
    pub request: RequestView,
    pub response: Option<ResponseView>,
    /// What has been delivered to the caller so far.
    pub sent: Seq<Delivery>,
}

/// The exchange is over in state `s`.
pub open spec fn terminal(s: State) -> bool {
    s == State::Done || s == State::Errored
}

/// The handler may be called with `e` in state `s`.
pub open spec fn accepts(s: State, e: Event) -> bool {
    match e {
        Event::RequestReady => s == State::AwaitingRequestHeaders,
        Event::RequestWritable => s == State::AwaitingRequestBody,
        Event::ResponseHead { .. } => s == State::AwaitingResponseHeaders,
        Event::BodyReadable { .. } => s == State::AwaitingResponseBody,
        Event::TransportError => !terminal(s),
    }
}

/// The body of a response with `status` is read: `status` is one of the
/// success statuses, 200 to 299. With any other status the exchange ends at
/// the head.
pub open spec fn reads_body(status: u16) -> bool {
    200 <= status <= 299
}

/// A read that brought `bytes` and ended in `end` was the last one.
pub open spec fn last_read(bytes: Seq<u8>, end: ReadEnd) -> bool {
    match end {
        ReadEnd::Eof => bytes.len() == 0,
        ReadEnd::WouldBlock => false,
        ReadEnd::Failed => true,
    }
}

/// The handler for `request` before the first callback.
pub open spec fn fresh(request: RequestView) -> HandlerView {
    HandlerView {
        state: State::AwaitingRequestHeaders,
        request,
        response: None,
        sent: Seq::empty(),
    }
}

/// `h` once it has delivered what it holds and gone to `state`.
pub open spec fn delivered(h: HandlerView, state: State) -> HandlerView {
    HandlerView { state, sent: h.sent.push((h.request, h.response)), ..h }
}

/// `r` with `bytes` at the end of its body, which starts empty.
pub open spec fn with_bytes(r: ResponseView, bytes: Seq<u8>) -> ResponseView {
    ResponseView {
        body: Some(
            match r.body {
                Some(b) => b + bytes,
                None => bytes,
            },
        ),
        ..r
    }
}

/// The handler after the callback `e`.
pub open spec fn step(h: HandlerView, e: Event) -> HandlerView {
    match e {
        Event::RequestReady => HandlerView {
            state: if h.request.body is Some {
                State::AwaitingRequestBody
            } else {
                State::AwaitingResponseHeaders
            },
            ..h
        },
        Event::RequestWritable => HandlerView { state: State::AwaitingResponseHeaders, ..h },
        Event::ResponseHead { status, headers } => {
            let g = HandlerView {
                response: Some(ResponseView { status, headers, body: None }),
                ..h
            };
            if reads_body(status) {
                HandlerView { state: State::AwaitingResponseBody, ..g }
            } else {
                delivered(g, State::Done)
            }
        },
        Event::BodyReadable { bytes, end } => match h.response {
            Some(r) => {
                let g = HandlerView { response: Some(with_bytes(r, bytes)), ..h };
                if last_read(bytes, end) {
                    delivered(g, State::Done)
                } else {
                    g
                }
            },
            None => h,
        },
        Event::TransportError => delivered(h, State::Errored),
    }
}

/// What the handler answers to the callback `e`.
pub open spec fn answer(h: HandlerView, e: Event) -> Next {
    match e {
        Event::RequestReady => if h.request.body is Some {
            Next::Write
        } else {
            Next::Read(Some(READ_TIMEOUT))
        },
        Event::RequestWritable => Next::Read(None),
        Event::ResponseHead { status, headers } => if reads_body(status) {
            Next::Read(Some(READ_TIMEOUT))
        } else {
            Next::End
        },
        Event::BodyReadable { bytes, end } => if last_read(bytes, end) {
            Next::End
        } else if end == ReadEnd::WouldBlock {
            Next::Read(None)
        } else {
            Next::Read(Some(READ_TIMEOUT))
        },
        Event::TransportError => Next::Remove,
    }
}

/// What holds of a handler at every moment: a result has been delivered
/// once the exchange is over and not before, it is the pair that the handler
/// holds, and a response is there from its head on.
pub open spec fn consistent(h: HandlerView) -> bool {
    &&& terminal(h.state) ==> h.sent.len() == 1 && h.sent[0] == (h.request, h.response)
    &&& !terminal(h.state) ==> h.sent.len() == 0
    &&& h.state == State::AwaitingResponseBody ==> h.response is Some
    &&& h.state == State::Done ==> h.response is Some
    &&& (h.state == State::AwaitingRequestHeaders || h.state == State::AwaitingRequestBody
        || h.state == State::AwaitingResponseHeaders) ==> h.response is None
}

/// The handler after the callbacks `events`, in their order. A callback that
/// the handler may not be called with in its state is passed over.
pub open spec fn run(h: HandlerView, events: Seq<Event>) -> HandlerView
    decreases events.len(),
{
    if events.len() == 0 {
        h
    } else {
        let g = run(h, events.drop_last());
        if accepts(g.state, events.last()) {
            step(g, events.last())
        } else {
            g
        }
    }
}

/// A callback keeps the handler consistent, and delivers a result exactly
/// when it ends the exchange.
pub proof fn lemma_step(h: HandlerView, e: Event)
    requires
        consistent(h),
        accepts(h.state, e),
    ensures
        consistent(step(h, e)),
        step(h, e).request == h.request,
        terminal(step(h, e).state) <==> step(h, e).sent.len() == 1,
        !terminal(step(h, e).state) <==> step(h, e).sent.len() == 0,
        terminal(step(h, e).state) <==> (answer(h, e) == Next::End || answer(h, e)
            == Next::Remove),
        terminal(step(h, e).state) <==> match e {
            Event::RequestReady => false,
            Event::RequestWritable => false,
            Event::ResponseHead { status, headers } => !reads_body(status),
            Event::BodyReadable { bytes, end } => last_read(bytes, end),
            Event::TransportError => true,
        },
{
}

/// An exchange that is over takes no further callback.
pub proof fn lemma_over_is_over(s: State, e: Event)
    requires
        terminal(s),
    ensures
        !accepts(s, e),
{
}

/// Whatever callbacks come to a fresh handler, and in whatever order,
/// exactly one result is delivered by the time the exchange is over, and none
/// before: that holds of an exchange that ends with its body, at a head
/// whose status is no success, on a failed read and on a transport error
/// alike. The result is the request with the response as far as it came.
pub proof fn lemma_one_delivery(request: RequestView, events: Seq<Event>)
    ensures
        consistent(run(fresh(request), events)),
        run(fresh(request), events).request == request,
        terminal(run(fresh(request), events).state) ==> run(fresh(request), events).sent.len()
            == 1,
        !terminal(run(fresh(request), events).state) ==> run(fresh(request), events).sent.len()
            == 0,
        terminal(run(fresh(request), events).state) ==> run(fresh(request), events).sent == seq![
            (request, run(fresh(request), events).response),
        ],
    decreases events.len(),
{
    if events.len() > 0 {
        lemma_one_delivery(request, events.drop_last());
        let g = run(fresh(request), events.drop_last());
        if accepts(g.state, events.last()) {
            lemma_step(g, events.last());
        }
    }
    let h = run(fresh(request), events);
    if terminal(h.state) {
        assert(h.sent =~= seq![(request, h.response)]);
    }
}

/// The head of the request as the transport sends it, for the handler to
/// fill in.
#[derive(Debug)]
pub struct RequestHead {
    pub method: Method,
    pub headers: Headers,
}

/// The write side of the connection: what has been written to it, and
/// whether it has been closed.
#[derive(Debug)]
pub struct Encoder {
    pub written: Vec<u8>,
    pub closed: bool,
}

/// The head of a response as the transport hands it over.
#[derive(Debug)]
pub struct ResponseHead {
    pub status: u16,
    pub headers: Headers,
}

/// One read of the response's body: the bytes it brought and how it ended.
#[derive(Debug)]
pub struct Decoder {
    pub bytes: Vec<u8>,
    pub end: ReadEnd,
}

/// What `sent` holds, pair by pair.
pub open spec fn deliveries(sent: Seq<(Request, Option<Response>)>) -> Seq<Delivery> {
    Seq::new(sent.len(), |i: int| (sent[i].0@, opt_response(sent[i].1)))
}

/// Puts `src` at the end of `dst`.
fn append_bytes(dst: &mut Vec<u8>, src: &Vec<u8>)
    ensures
        final(dst)@ == old(dst)@ + src@,
{
    let mut i: usize = 0;
    while i < src.len()
        invariant
            i <= src.len(),
            dst@ == old(dst)@ + src@.take(i as int),
        decreases src.len() - i,
    {
        dst.push(src[i]);
        i += 1;
    }
}

/// The part of a handler that its callbacks change.
struct Progress {
    state: State,
    response: Option<Response>,
    sent: Vec<(Request, Option<Response>)>,
}

impl Progress {
    /// Where every exchange starts.
    fn start() -> (p: Progress)
        ensures
            p.state == State::AwaitingRequestHeaders,
            p.response is None,
            p.sent@.len() == 0,
    {
        Progress { state: State::AwaitingRequestHeaders, response: None, sent: Vec::new() }
    }

    /// Delivers `request` with the response held.
    fn send_result(&mut self, request: &Request)
        ensures
            final(self).state == old(self).state,
            final(self).response == old(self).response,
            deliveries(final(self).sent@) == deliveries(old(self).sent@).push(
                (request@, opt_response(old(self).response)),
            ),
    {
        let response = match &self.response {
            Some(r) => Some(r.clone()),
            None => None,
        };
        self.sent.push((request.clone(), response));
        assert(deliveries(self.sent@) =~= deliveries(old(self).sent@).push(
            (request@, opt_response(old(self).response)),
        ));
    }

    /// Delivers the result and ends the exchange.
    fn return_response(&mut self, request: &Request) -> (next: Next)
        ensures
            final(self).state == State::Done,
            final(self).response == old(self).response,
            deliveries(final(self).sent@) == deliveries(old(self).sent@).push(
                (request@, opt_response(old(self).response)),
            ),
            next == Next::End,
    {
        self.send_result(request);
        self.state = State::Done;
        Next::End
    }
}

/// The handler of one exchange. The transport calls it back as the exchange
/// goes on; each answer says what the handler waits for next. When the
/// exchange is over, one result has been delivered: the request, and the
/// response as far as it came.
pub struct Handler {
    request: Request,
    user_agent: String,
    progress: Progress,
}

impl View for Handler {
    type V = HandlerView;

    closed spec fn view(&self) -> HandlerView {
        HandlerView {
            state: self.progress.state,
            request: self.request@,
            response: opt_response(self.progress.response),
            sent: deliveries(self.progress.sent@),
        }
    }
}

impl Handler {
    #[verifier::type_invariant]
    pub closed spec fn inv(&self) -> bool {
        consistent(self@)
    }

    /// The name under which the handler presents itself to the server.
    pub closed spec fn agent(&self) -> Seq<char> {
        self.user_agent@
    }

    /// A handler for `request` that presents itself as `user_agent`.
    pub fn new(request: Request, user_agent: String) -> (h: Handler)
        ensures
            h@ == fresh(request@),
            h.agent() == user_agent@,
    {
        let progress = Progress::start();
        assert(deliveries(progress.sent@) =~= Seq::<Delivery>::empty());
        Handler { request, user_agent, progress }
    }

    /// Where the exchange stands. What the handler holds is consistent at
    /// every moment.
    pub fn state(&self) -> (s: State)
        ensures
            s == self@.state,
            consistent(self@),
    {
        proof {
            use_type_invariant(self);
        }
        self.progress.state
    }

    /// The request of the exchange.
    pub fn request(&self) -> (r: &Request)
        ensures
            r@ == self@.request,
    {
        &self.request
    }

    /// The response as far as it has come.
    pub fn response(&self) -> (r: &Option<Response>)
        ensures
            opt_response(*r) == self@.response,
    {
        &self.progress.response
    }

    /// The wait for the response to become readable.
    fn read() -> (next: Next)
        ensures
            next == Next::Read(Some(READ_TIMEOUT)),
    {
        Next::Read(Some(READ_TIMEOUT))
    }

    /// The transport is ready for the request's head: sets the method, asks
    /// for the connection to be closed and names the user agent. With a body
    /// to send the handler waits to write it, else for the response.
    pub fn on_request(&mut self, req: &mut RequestHead) -> (next: Next)
        requires
            accepts(old(self)@.state, Event::RequestReady),
        ensures
            final(self)@ == step(old(self)@, Event::RequestReady),
            next == answer(old(self)@, Event::RequestReady),
            final(self).agent() == old(self).agent(),
            consistent(final(self)@),
            final(req).method == old(self)@.request.method,
            final(req).headers@ == with_header(
                with_header(old(req).headers@, "Connection"@, "close"@),
                "User-Agent"@,
                old(self).agent(),
            ),
    {
        proof {
            use_type_invariant(&*self);
        }
        req.method = self.request.method();
        req.headers.set("Connection", "close");
        req.headers.set("User-Agent", self.user_agent.as_str());
        let mut p = Progress::start();
        std::mem::swap(&mut self.progress, &mut p);
        let next = if self.request.body().is_some() {
            p.state = State::AwaitingRequestBody;
            Next::Write
        } else {
            p.state = State::AwaitingResponseHeaders;
            Handler::read()
        };
        std::mem::swap(&mut self.progress, &mut p);
        next
    }

    /// The connection takes the request's body: writes it whole, once, and
    /// closes the write side. The handler then waits for the response.
    pub fn on_request_writable(&mut self, encoder: &mut Encoder) -> (next: Next)
        requires
            accepts(old(self)@.state, Event::RequestWritable),
        ensures
            final(self)@ == step(old(self)@, Event::RequestWritable),
            next == answer(old(self)@, Event::RequestWritable),
            final(self).agent() == old(self).agent(),
            consistent(final(self)@),
            final(encoder).closed,
            final(encoder).written@ == old(encoder).written@ + (match old(self)@.request.body {
                Some(body) => encode_utf8(body),
                None => Seq::<u8>::empty(),
            }),
    {
        proof {
            use_type_invariant(&*self);
        }
        if let Some(body) = self.request.body() {
            let bytes = body.as_str().as_bytes_vec();
            append_bytes(&mut encoder.written, &bytes);
        }
        encoder.closed = true;
        let mut p = Progress::start();
        std::mem::swap(&mut self.progress, &mut p);
        p.state = State::AwaitingResponseHeaders;
        std::mem::swap(&mut self.progress, &mut p);
        Next::Read(None)
    }

    /// The response's head has arrived: keeps the status and the header
    /// fields, with no body yet. With a success status, 200 to 299, the
    /// handler goes on to read the body. With any other status the exchange
    /// ends here and the response is delivered as it is, without a body; that
    /// is no error.
    pub fn on_response(&mut self, response: ResponseHead) -> (next: Next)
        requires
            accepts(
                old(self)@.state,
                Event::ResponseHead { status: response.status, headers: response.headers@ },
            ),
        ensures
            final(self)@ == step(
                old(self)@,
                Event::ResponseHead { status: response.status, headers: response.headers@ },
            ),
            next == answer(
                old(self)@,
                Event::ResponseHead { status: response.status, headers: response.headers@ },
            ),
            final(self).agent() == old(self).agent(),
            consistent(final(self)@),
    {
        proof {
            use_type_invariant(&*self);
        }
        let status = response.status;
        let mut p = Progress::start();
        std::mem::swap(&mut self.progress, &mut p);
        p.response = Some(Response { status, headers: response.headers, body: None });
        let next = if 200 <= status && status <= 299 {
            p.state = State::AwaitingResponseBody;
            Handler::read()
        } else {
            p.return_response(&self.request)
        };
        std::mem::swap(&mut self.progress, &mut p);
        next
    }

    /// A read of the response's body came back: its bytes go to the end of
    /// the body, which starts empty. A read that ends the stream without a
    /// byte ends the exchange; one that brought bytes, or that would have had
    /// to wait, leaves the handler reading. Any other failure of the read ends
    /// the exchange too, and the body is delivered as far as it came.
    pub fn on_response_readable(&mut self, decoder: &Decoder) -> (next: Next)
        requires
            accepts(
                old(self)@.state,
                Event::BodyReadable { bytes: decoder.bytes@, end: decoder.end },
            ),
        ensures
            final(self)@ == step(
                old(self)@,
                Event::BodyReadable { bytes: decoder.bytes@, end: decoder.end },
            ),
            next == answer(
                old(self)@,
                Event::BodyReadable { bytes: decoder.bytes@, end: decoder.end },
            ),
            final(self).agent() == old(self).agent(),
            consistent(final(self)@),
    {
        proof {
            use_type_invariant(&*self);
        }
        let mut p = Progress::start();
        std::mem::swap(&mut self.progress, &mut p);
        let mut held: Option<Response> = None;
        std::mem::swap(&mut p.response, &mut held);
        let mut response = held.unwrap();
        let mut body = match response.body {
            Some(b) => b,
            None => Vec::new(),
        };
        append_bytes(&mut body, &decoder.bytes);
        response.body = Some(body);
        p.response = Some(response);
        let next = match decoder.end {
            ReadEnd::Eof => {
                if decoder.bytes.len() == 0 {
                    p.return_response(&self.request)
                } else {
                    Handler::read()
                }
            },
            ReadEnd::WouldBlock => Next::Read(None),
            ReadEnd::Failed => p.return_response(&self.request),
        };
        std::mem::swap(&mut self.progress, &mut p);
        next
    }

    /// The transport failed: the exchange is given up at once, and the
    /// request is delivered with the response as far as it came, which is
    /// none where the head had not arrived.
    pub fn on_error(&mut self) -> (next: Next)
        requires
            accepts(old(self)@.state, Event::TransportError),
        ensures
            final(self)@ == step(old(self)@, Event::TransportError),
            next == answer(old(self)@, Event::TransportError),
            final(self).agent() == old(self).agent(),
            consistent(final(self)@),
    {
        proof {
            use_type_invariant(&*self);
        }
        let mut p = Progress::start();
        std::mem::swap(&mut self.progress, &mut p);
        p.send_result(&self.request);
        p.state = State::Errored;
        std::mem::swap(&mut self.progress, &mut p);
        Next::Remove
    }

    /// What the handler has delivered: one result once the exchange is over,
    /// none before.
    pub fn into_sent(self) -> (sent: Vec<(Request, Option<Response>)>)
        ensures
            deliveries(sent@) == self@.sent,
            sent@.len() == (if terminal(self@.state) {
                1nat
            } else {
                0nat
            }),
    {
        proof {
            use_type_invariant(&self);
        }
        self.progress.sent
    }
}

/// How the transport keeps its connections to an endpoint.
#[derive(Debug, Clone, Copy)]
pub struct Connector {
    /// The time allowed for a connection to be made.
    pub connect_timeout: Duration,
    /// Whether a connection is kept for the next exchange.
    pub keep_alive: bool,
    /// How long an idle connection is kept.
    pub keep_alive_timeout: Option<Duration>,
}

/// A server to talk to: its address, how connections to it are kept, and
/// the header fields that go with every request. It is made once and used
/// for any number of exchanges.
#[derive(Debug)]
pub struct Endpoint {
    url: String,
    client: Connector,
    header: Fields,
}

impl Endpoint {
    #[verifier::type_invariant]
    pub closed spec fn inv(&self) -> bool {
        parsed_url(self.url@) == Ok::<Seq<char>, url::ParseError>(self.url@)
    }

    /// The address, as a URL in its serialized form.
    pub closed spec fn address(&self) -> Seq<char> {
        self.url@
    }

    /// How connections are kept.
    pub closed spec fn settings(&self) -> Connector {
        self.client
    }

    /// The header fields that go with every request.
    pub closed spec fn fields(&self) -> Seq<(Seq<char>, Seq<char>)> {
        self.header@
    }

    /// The endpoint at `url`, with `timeout` to connect and to keep idle
    /// connections, and with the header fields `header`.
    pub fn new(url: String, timeout: Duration, header: Fields) -> (e: Endpoint)
        requires
            parsed_url(url@) is Ok,
        ensures
            parsed_url(url@) == Ok::<Seq<char>, url::ParseError>(e.address()),
            e.settings() == Endpoint::connector_of(timeout),
            e.fields() == header@,
    {
        Endpoint { url: Endpoint::url(&url), client: Endpoint::connector(timeout), header }
    }

    /// The endpoint at `url`, or the error where `url` is no absolute URL.
    pub fn try_new(url: String, timeout: Duration, header: Fields) -> (r: Result<Endpoint, Error>)
        ensures
            match r {
                Ok(e) => parsed_url(url@) == Ok::<Seq<char>, url::ParseError>(e.address())
                    && e.settings() == Endpoint::connector_of(timeout) && e.fields() == header@,
                Err(e) => parsed_url(url@) is Err && e == Error::UrlParseError(
                    parsed_url(url@)->Err_0,
                ),
            },
    {
        match parse(url.as_str()) {
            Ok(_) => Ok(Endpoint::new(url, timeout, header)),
            Err(e) => Err(Error::UrlParseError(e)),
        }
    }

    /// The serialized form of the URL that `url` denotes.
    fn url(url: &String) -> (s: String)
        requires
            parsed_url(url@) is Ok,
        ensures
            parsed_url(url@) == Ok::<Seq<char>, url::ParseError>(s@),
            parsed_url(s@) == Ok::<Seq<char>, url::ParseError>(s@),
    {
        match parse(url.as_str()) {
            Ok(s) => s,
            Err(_) => vstd::pervasive::unreached(),
        }
    }

    /// Connections are kept alive, and `timeout` bounds both the making of a
    /// connection and its idle time.
    pub open spec fn connector_of(timeout: Duration) -> Connector {
        Connector { connect_timeout: timeout, keep_alive: true, keep_alive_timeout: Some(timeout) }
    }

    fn connector(timeout: Duration) -> (c: Connector)
        ensures
            c == Endpoint::connector_of(timeout),
    {
        Connector { connect_timeout: timeout, keep_alive: true, keep_alive_timeout: Some(timeout) }
    }

    /// The address.
    pub fn location(&self) -> (s: &String)
        ensures
            s@ == self.address(),
            parsed_url(s@) == Ok::<Seq<char>, url::ParseError>(s@),
    {
        proof {
            use_type_invariant(self);
        }
        &self.url
    }

    /// How connections are kept.
    pub fn client(&self) -> (c: Connector)
        ensures
            c == self.settings(),
    {
        self.client
    }

    /// The header fields that go with every request.
    pub fn header(&self) -> (h: &Fields)
        ensures
            h@ == self.fields(),
    {
        &self.header
    }
}

/// The name under which every exchange presents itself to the server.
pub const USER_AGENT: &'static str =
    "Mozilla/5.0 (Macintosh; Intel Mac OS X 10_11_6) AppleWebKit/537.36 (KHTML, like Gecko) Chrome/52.0.2743.116 Safari/537.36";

/// `k` is where the query of `route` is set off: the place of its first
/// question mark, or its end where it holds none.
pub open spec fn is_mark(route: Seq<char>, k: int) -> bool {
    &&& 0 <= k <= route.len()
    &&& forall|j: int| 0 <= j < k ==> route[j] != '?'
    &&& k < route.len() ==> route[k] == '?'
}

/// Where the query of `route` is set off.
pub open spec fn mark(route: Seq<char>) -> int {
    choose|k: int| is_mark(route, k)
}

/// A route has one place where its query is set off.
pub proof fn lemma_mark(route: Seq<char>, k: int)
    requires
        is_mark(route, k),
    ensures
        mark(route) == k,
{
    let m = mark(route);
    if m < k {
        assert(route[m] != '?');
    } else if k < m {
        assert(route[k] != '?');
    }
}

/// The path that stands for `route` in a URL: what the route holds before
/// its first question mark, behind a slash, or nothing where there is no
/// route.
pub open spec fn request_path(route: Option<Seq<char>>) -> Seq<char> {
    match route {
        Some(r) => seq!['/'] + r.take(mark(r)),
        None => Seq::empty(),
    }
}

/// The query that stands for `route` in a URL: what the route holds behind
/// its first question mark, or none where it holds no question mark.
pub open spec fn request_query(route: Option<Seq<char>>) -> Option<Seq<char>> {
    match route {
        Some(r) => if mark(r) < r.len() {
            Some(r.skip(mark(r) + 1))
        } else {
            None
        },
        None => None,
    }
}

/// The URL to ask for `route` at the endpoint of `address`: the address with
/// the route's path for its path and, where the route has a query, with
/// that query for its query. A route without a query leaves the query of
/// the address as it is. There is no URL where there is no room for the
/// path or the query, or where the address with the path does not parse
/// when the query is to be set.
pub open spec fn request_url(address: Seq<char>, route: Option<Seq<char>>) -> Option<Seq<char>> {
    let path = request_path(route);
    let with = url_with_path(address, path);
    if !room(address, path) {
        None
    } else {
        match request_query(route) {
            None => Some(with),
            Some(query) => match parsed_url(with) {
                Ok(url) => if room(url, query) {
                    Some(url_with_query(url, query))
                } else {
                    None
                },
                Err(_) => None,
            },
        }
    }
}

/// The whole of a delivered response, where one was delivered. None is the
/// transport's failure.
pub open spec fn response_of(response: Option<ResponseView>) -> Result<ResponseView, Error> {
    match response {
        Some(r) => Ok(r),
        None => Err(Error::HttpError),
    }
}

/// What `r` holds, where it holds a response.
pub open spec fn result_response(r: Result<Response, Error>) -> Result<ResponseView, Error> {
    match r {
        Ok(x) => Ok(x@),
        Err(e) => Err(e),
    }
}

/// What the caller gets of a delivered response: its body as text. A
/// response without a body gives the empty text. No response at all is the
/// transport's failure, and a body that is no UTF-8 text is an I/O failure.
pub open spec fn text_of(response: Option<ResponseView>) -> Result<Seq<char>, Error> {
    match response {
        None => Err(Error::HttpError),
        Some(r) => match r.body {
            None => Ok(Seq::empty()),
            Some(b) => if valid_utf8(b) {
                Ok(decode_utf8(b))
            } else {
                Err(Error::IoError)
            },
        },
    }
}

/// The text of `r`, where it holds one.
pub open spec fn result_text(r: Result<String, Error>) -> Result<Seq<char>, Error> {
    match r {
        Ok(s) => Ok(s@),
        Err(e) => Err(e),
    }
}

/// The head of a response whose status is no success ends the exchange:
/// the response is delivered once, with that status and those header fields
/// and without a body. The caller gets that response, or the empty text of
/// it, and not an error.
pub proof fn lemma_other_status(h: HandlerView, status: u16, headers: Seq<(Seq<char>, Seq<char>)>)
    requires
        consistent(h),
        h.state == State::AwaitingResponseHeaders,
        !reads_body(status),
    ensures
        step(h, Event::ResponseHead { status, headers }).state == State::Done,
        step(h, Event::ResponseHead { status, headers }).sent == seq![
            (h.request, Some(ResponseView { status, headers, body: None })),
        ],
        answer(h, Event::ResponseHead { status, headers }) == Next::End,
        response_of(Some(ResponseView { status, headers, body: None })) == Ok::<
            ResponseView,
            Error,
        >(ResponseView { status, headers, body: None }),
        text_of(Some(ResponseView { status, headers, body: None })) == Ok::<Seq<char>, Error>(
            Seq::empty(),
        ),
{
}

/// An exchange that is ready for the transport: the URL to ask, and the
/// handler to call back.
pub struct Exchange {
    pub url: String,
    pub handler: Handler,
}

/// The two ends of a blocking call: what is handed to the transport, and what
/// is made of the result that comes back.
pub struct Client {}

impl Client {
    /// The route before its first question mark, and what stands behind it.
    fn split(route: &str) -> (parts: (String, Option<String>))
        ensures
            parts.0@ == route@.take(mark(route@)),
            opt_text(parts.1) == (if mark(route@) < route@.len() {
                Some(route@.skip(mark(route@) + 1))
            } else {
                None::<Seq<char>>
            }),
    {
        let cs = chars(route);
        let n = cs.len();
        let mut k: usize = 0;
        while k < n && cs[k] != '?'
            invariant
                cs@ == route@,
                n == cs.len(),
                k <= n,
                forall|j: int| 0 <= j < k ==> route@[j] != '?',
            decreases n - k,
        {
            k += 1;
        }
        proof {
            lemma_mark(route@, k as int);
        }
        let before = route.substring_char(0, k).to_owned();
        if k < n {
            (before, Some(route.substring_char(k + 1, n).to_owned()))
        } else {
            (before, None)
        }
    }

    /// The path that stands for the route of `request`.
    pub fn path(request: &Request) -> (s: String)
        ensures
            s@ == request_path(request@.route),
    {
        let mut s = String::new();
        if let Some(x) = request.route() {
            let parts = Client::split(x.as_str());
            s.append("/");
            s.append(parts.0.as_str());
            proof {
                reveal_strlit("/");
            }
        }
        s
    }

    /// The query that stands for the route of `request`.
    pub fn query(request: &Request) -> (q: Option<String>)
        ensures
            opt_text(q) == request_query(request@.route),
    {
        match request.route() {
            Some(x) => Client::split(x.as_str()).1,
            None => None,
        }
    }

    /// Whether a URL that starts as `base` has room for `part`.
    fn has_room(base: &str, part: &str) -> (b: bool)
        ensures
            b == room(base@, part@),
    {
        let a: u128 = base.as_bytes().len() as u128;
        let p: u128 = part.as_bytes().len() as u128;
        a + 4 * p + 8 <= 0xffff_ffff
    }

    /// The URL to ask for `request` at `endpoint`, or the error where there
    /// is none: the `url` crate's own error where the address with the
    /// path does not parse, and its error for a URL that is too long where
    /// there is no room.
    pub fn locate(endpoint: &Endpoint, request: &Request) -> (r: Result<String, Error>)
        ensures
            match r {
                Ok(s) => request_url(endpoint.address(), request@.route) == Some(s@),
                Err(e) => {
                    let path = request_path(request@.route);
                    let with = parsed_url(url_with_path(endpoint.address(), path));
                    &&& request_url(endpoint.address(), request@.route) is None
                    &&& e is UrlParseError
                    &&& room(endpoint.address(), path) && with is Err ==> e
                        == Error::UrlParseError(with->Err_0)
                },
            },
    {
        let path = Client::path(request);
        let address = endpoint.location().as_str();
        if !Client::has_room(address, path.as_str()) {
            return Err(Error::UrlParseError(too_long()));
        }
        let with = match with_path(address, path.as_str()) {
            Ok(u) => u,
            Err(e) => {
                return Err(Error::UrlParseError(e));
            },
        };
        let query = match Client::query(request) {
            Some(q) => q,
            None => {
                return Ok(with);
            },
        };
        let url = match parse(with.as_str()) {
            Ok(u) => u,
            Err(e) => {
                return Err(Error::UrlParseError(e));
            },
        };
        if !Client::has_room(url.as_str(), query.as_str()) {
            return Err(Error::UrlParseError(too_long()));
        }
        match with_query(url.as_str(), query.as_str()) {
            Ok(u) => Ok(u),
            Err(e) => Err(Error::UrlParseError(e)),
        }
    }

    /// Whether there is a URL to ask for `request` at `endpoint`.
    pub fn fits(endpoint: &Endpoint, request: &Request) -> (b: bool)
        ensures
            b == request_url(endpoint.address(), request@.route) is Some,
    {
        Client::locate(endpoint, request).is_ok()
    }

    /// Prepares the exchange of `request` with `endpoint`: the URL of the
    /// endpoint with the path and the query of the request's route, and a
    /// fresh handler that holds a copy of the request.
    pub fn request(endpoint: &Endpoint, request: &Request) -> (ex: Exchange)
        requires
            request_url(endpoint.address(), request@.route) is Some,
        ensures
            Some(ex.url@) == request_url(endpoint.address(), request@.route),
            ex.handler@ == fresh(request@),
            ex.handler.agent() == USER_AGENT@,
    {
        let req = request.clone();
        let handler = Handler::new(req, USER_AGENT.to_owned());
        let url = match Client::locate(endpoint, request) {
            Ok(u) => u,
            Err(_) => vstd::pervasive::unreached(),
        };
        Exchange { url, handler }
    }

    /// Prepares the exchange as `request` does, where there is a URL to ask,
    /// and nothing where there is none.
    pub fn try_request(endpoint: &Endpoint, request: &Request) -> (r: Option<Exchange>)
        ensures
            match r {
                Some(ex) => Some(ex.url@) == request_url(endpoint.address(), request@.route)
                    && ex.handler@ == fresh(request@) && ex.handler.agent() == USER_AGENT@,
                None => request_url(endpoint.address(), request@.route) is None,
            },
    {
        if Client::fits(endpoint, request) {
            Some(Client::request(endpoint, request))
        } else {
            None
        }
    }

    /// The response of a delivered result, with its status, its header
    /// fields and its body as far as it came, or the error where no response
    /// was delivered.
    pub fn response(delivered: (Request, Option<Response>)) -> (r: Result<Response, Error>)
        ensures
            result_response(r) == response_of(opt_response(delivered.1)),
    {
        match delivered.1 {
            Some(response) => Ok(response),
            None => Err(Error::HttpError),
        }
    }

    /// What the caller gets of a delivered result: the body of the response
    /// as text, or the error where there is none to give.
    pub fn receive(delivered: (Request, Option<Response>)) -> (r: Result<String, Error>)
        ensures
            result_text(r) == text_of(opt_response(delivered.1)),
    {
        match Client::response(delivered) {
            Err(e) => Err(e),
            Ok(response) => match response.body {
                None => Ok(String::new()),
                Some(b) => match from_utf8(b) {
                    Some(s) => Ok(s),
                    None => Err(Error::IoError),
                },
            },
        }
    }
}

} // verus!
