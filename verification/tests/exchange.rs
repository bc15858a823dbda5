use rest::headers::Headers;
use rest::http::{
    Client, Decoder, Encoder, Endpoint, Handler, Method, Next, ReadEnd, Request, RequestHead,
    Response, ResponseHead, State, READ_TIMEOUT, USER_AGENT,
};
use rest::fields::Fields;
use rest::Error;
use std::time::Duration;

fn handler(body: Option<&str>) -> Handler {
    let request = Request::new(Method::Post, Some("posts".to_string()), body.map(String::from));
    Handler::new(request, "agent/1".to_string())
}

fn head() -> RequestHead {
    RequestHead { method: Method::Get, headers: Headers::new() }
}

fn response_head(status: u16) -> ResponseHead {
    let mut headers = Headers::new();
    headers.set("Content-Type", "text/plain");
    ResponseHead { status, headers }
}

fn read(bytes: &[u8], end: ReadEnd) -> Decoder {
    Decoder { bytes: bytes.to_vec(), end }
}

fn delivered(handler: Handler) -> (Request, Option<Response>) {
    let mut sent = handler.into_sent();
    assert_eq!(sent.len(), 1);
    sent.remove(0)
}

#[test]
fn fresh_handler_waits_for_the_request_head() {
    let h = handler(None);
    assert_eq!(h.state(), State::AwaitingRequestHeaders);
    assert!(h.response().is_none());
    assert_eq!(h.request().route(), &Some("posts".to_string()));
    assert_eq!(h.into_sent().len(), 0);
}

#[test]
fn request_head_gets_method_and_headers() {
    let mut h = handler(None);
    let mut req = head();
    req.headers.set("connection", "keep-alive");
    req.headers.set("Host", "example.com");
    let next = h.on_request(&mut req);
    assert_eq!(next, Next::Read(Some(1000)));
    assert_eq!(READ_TIMEOUT, 1000);
    assert_eq!(h.state(), State::AwaitingResponseHeaders);
    assert_eq!(req.method, Method::Post);
    assert_eq!(req.headers.len(), 3);
    assert_eq!(req.headers.name(0), "Connection");
    assert_eq!(req.headers.get("Connection"), Some(&"close".to_string()));
    assert_eq!(req.headers.get("host"), Some(&"example.com".to_string()));
    assert_eq!(req.headers.get("user-agent"), Some(&"agent/1".to_string()));
    assert_eq!(h.into_sent().len(), 0);
}

#[test]
fn request_with_body_is_written_once_and_closed() {
    let mut h = handler(Some("{\"a\":\"\u{e9}\"}"));
    let mut req = head();
    assert_eq!(h.on_request(&mut req), Next::Write);
    assert_eq!(h.state(), State::AwaitingRequestBody);

    let mut encoder = Encoder { written: vec![1, 2], closed: false };
    assert_eq!(h.on_request_writable(&mut encoder), Next::Read(None));
    assert_eq!(h.state(), State::AwaitingResponseHeaders);
    let mut expected = vec![1, 2];
    expected.extend_from_slice("{\"a\":\"\u{e9}\"}".as_bytes());
    assert_eq!(encoder.written, expected);
    assert!(encoder.closed);
    assert_eq!(h.into_sent().len(), 0);
}

#[test]
fn success_reads_the_body_to_its_end() {
    for status in [200, 201, 202, 204, 206, 299] {
        let mut h = handler(None);
        h.on_request(&mut head());
        assert_eq!(h.on_response(response_head(status)), Next::Read(Some(1000)));
        assert_eq!(h.state(), State::AwaitingResponseBody);
        match h.response() {
            Some(r) => {
                assert_eq!(r.status, status);
                assert_eq!(r.headers.get("content-type"), Some(&"text/plain".to_string()));
                assert_eq!(r.body, None);
            },
            None => panic!("the head was not kept"),
        }

        assert_eq!(h.on_response_readable(&read(b"hel", ReadEnd::WouldBlock)), Next::Read(None));
        assert_eq!(h.state(), State::AwaitingResponseBody);
        assert_eq!(h.on_response_readable(&read(b"", ReadEnd::WouldBlock)), Next::Read(None));
        assert_eq!(h.on_response_readable(&read(b"lo", ReadEnd::Eof)), Next::Read(Some(1000)));
        assert_eq!(h.state(), State::AwaitingResponseBody);
        assert_eq!(h.on_response_readable(&read(b"", ReadEnd::Eof)), Next::End);
        assert_eq!(h.state(), State::Done);

        let (request, response) = delivered(h);
        assert_eq!(request.route(), &Some("posts".to_string()));
        assert_eq!(request.method(), Method::Post);
        let response = response.unwrap();
        assert_eq!(response.status, status);
        assert_eq!(response.body, Some(b"hello".to_vec()));
        assert_eq!(Client::receive((request, Some(response))).unwrap(), "hello");
    }
}

#[test]
fn other_status_ends_at_the_head_without_error() {
    for status in [100, 199, 300, 301, 404, 500] {
        let mut h = handler(None);
        h.on_request(&mut head());
        assert_eq!(h.on_response(response_head(status)), Next::End);
        assert_eq!(h.state(), State::Done);
        let (request, response) = delivered(h);
        let response = response.unwrap();
        assert_eq!(response.status, status);
        assert_eq!(response.headers.len(), 1);
        assert_eq!(response.headers.get("Content-Type"), Some(&"text/plain".to_string()));
        assert_eq!(response.body, None);
        assert_eq!(Client::receive((request, Some(response))), Ok(String::new()));
    }
}

#[test]
fn zero_byte_body_is_delivered_empty() {
    let mut h = handler(None);
    h.on_request(&mut head());
    h.on_response(response_head(200));
    assert_eq!(h.on_response_readable(&read(b"", ReadEnd::Eof)), Next::End);
    let (request, response) = delivered(h);
    let response = response.unwrap();
    assert_eq!(response.body, Some(Vec::new()));
    assert_eq!(Client::receive((request, Some(response))), Ok(String::new()));
}

#[test]
fn failed_read_delivers_what_came() {
    let mut h = handler(None);
    h.on_request(&mut head());
    h.on_response(response_head(200));
    h.on_response_readable(&read(b"par", ReadEnd::WouldBlock));
    assert_eq!(h.on_response_readable(&read(b"t", ReadEnd::Failed)), Next::End);
    assert_eq!(h.state(), State::Done);
    let (_, response) = delivered(h);
    assert_eq!(response.unwrap().body, Some(b"part".to_vec()));
}

#[test]
fn transport_error_before_the_head_delivers_no_response() {
    let mut h = handler(None);
    assert_eq!(h.on_error(), Next::Remove);
    assert_eq!(h.state(), State::Errored);
    let (request, response) = delivered(h);
    assert!(response.is_none());
    assert_eq!(Client::receive((request, response)), Err(Error::HttpError));

    let mut h = handler(Some("x"));
    h.on_request(&mut head());
    assert_eq!(h.on_error(), Next::Remove);
    let (_, response) = delivered(h);
    assert!(response.is_none());

    let mut h = handler(None);
    h.on_request(&mut head());
    assert_eq!(h.on_error(), Next::Remove);
    let (_, response) = delivered(h);
    assert!(response.is_none());
}

#[test]
fn transport_error_after_the_head_delivers_the_response() {
    let mut h = handler(None);
    h.on_request(&mut head());
    h.on_response(response_head(200));
    h.on_response_readable(&read(b"ab", ReadEnd::WouldBlock));
    assert_eq!(h.on_error(), Next::Remove);
    assert_eq!(h.state(), State::Errored);
    let (_, response) = delivered(h);
    let response = response.unwrap();
    assert_eq!(response.status, 200);
    assert_eq!(response.body, Some(b"ab".to_vec()));
}

#[test]
fn body_that_is_no_text_is_an_io_error() {
    let request = Request::new(Method::Get, None, None);
    let response = Response { status: 200, headers: Headers::new(), body: Some(vec![0xff, 0x41]) };
    assert_eq!(Client::receive((request, Some(response))), Err(Error::IoError));

    let request = Request::new(Method::Get, None, None);
    let response =
        Response { status: 200, headers: Headers::new(), body: Some("gr\u{fc}n".as_bytes().to_vec()) };
    assert_eq!(Client::receive((request, Some(response))), Ok("gr\u{fc}n".to_string()));
}

#[test]
fn path_is_the_route_behind_a_slash() {
    let request = Request::new(Method::Get, Some("posts/1".to_string()), None);
    assert_eq!(Client::path(&request), "/posts/1");
    assert_eq!(Client::query(&request), None);
    let request = Request::new(Method::Get, Some(String::new()), None);
    assert_eq!(Client::path(&request), "/");
    assert_eq!(Client::query(&request), None);
    let request = Request::new(Method::Get, None, None);
    assert_eq!(Client::path(&request), "");
    assert_eq!(Client::query(&request), None);
}

#[test]
fn query_is_what_stands_behind_the_first_question_mark() {
    let request = Request::new(Method::Get, Some("posts?userId=1".to_string()), None);
    assert_eq!(Client::path(&request), "/posts");
    assert_eq!(Client::query(&request), Some("userId=1".to_string()));
    let request = Request::new(Method::Get, Some("a?b?c".to_string()), None);
    assert_eq!(Client::path(&request), "/a");
    assert_eq!(Client::query(&request), Some("b?c".to_string()));
    let request = Request::new(Method::Get, Some("posts?".to_string()), None);
    assert_eq!(Client::path(&request), "/posts");
    assert_eq!(Client::query(&request), Some(String::new()));
    let request = Request::new(Method::Get, Some("?\u{e9}".to_string()), None);
    assert_eq!(Client::path(&request), "/");
    assert_eq!(Client::query(&request), Some("\u{e9}".to_string()));
}

#[test]
fn response_is_handed_over_whole() {
    let request = Request::new(Method::Get, None, None);
    let mut headers = Headers::new();
    headers.set("Retry-After", "120");
    let response = Response { status: 503, headers, body: None };
    match Client::response((request, Some(response))) {
        Ok(r) => {
            assert_eq!(r.status, 503);
            assert_eq!(r.headers.get("retry-after"), Some(&"120".to_string()));
            assert_eq!(r.body, None);
        },
        Err(_) => panic!("a response was taken for none"),
    }
    let request = Request::new(Method::Get, None, None);
    assert!(matches!(Client::response((request, None)), Err(Error::HttpError)));
}

fn endpoint(url: &str) -> Endpoint {
    match Endpoint::try_new(url.to_string(), Duration::from_secs(5), Fields::new()) {
        Ok(e) => e,
        Err(_) => panic!("an absolute URL was refused"),
    }
}

#[test]
fn exchange_asks_the_endpoint_for_the_route() {
    let e = endpoint("http://jsonplaceholder.typicode.com");
    assert_eq!(e.location(), "http://jsonplaceholder.typicode.com/");

    let request = Request::new(Method::Get, Some("posts/1".to_string()), None);
    assert!(Client::fits(&e, &request));
    let exchange = Client::request(&e, &request);
    assert_eq!(exchange.url, "http://jsonplaceholder.typicode.com/posts/1");
    assert_eq!(exchange.handler.state(), State::AwaitingRequestHeaders);
    assert_eq!(exchange.handler.request().route(), &Some("posts/1".to_string()));

    let mut handler = exchange.handler;
    let mut req = head();
    handler.on_request(&mut req);
    assert_eq!(req.headers.get("User-Agent"), Some(&USER_AGENT.to_string()));
    assert_eq!(
        USER_AGENT,
        "Mozilla/5.0 (Macintosh; Intel Mac OS X 10_11_6) AppleWebKit/537.36 (KHTML, like Gecko) Chrome/52.0.2743.116 Safari/537.36"
    );
}

#[test]
fn exchange_url_takes_the_path_in_place_of_the_old_one() {
    let e = endpoint("http://example.com/api/v1?key=1#top");
    let request = Request::new(Method::Get, Some("posts/a b".to_string()), None);
    let exchange = Client::try_request(&e, &request).unwrap();
    assert_eq!(exchange.url, "http://example.com/posts/a%20b?key=1#top");
    assert_eq!(
        Client::locate(&e, &request),
        Ok("http://example.com/posts/a%20b?key=1#top".to_string())
    );

    let request = Request::new(Method::Get, None, None);
    let exchange = Client::try_request(&e, &request).unwrap();
    assert_eq!(exchange.url, "http://example.com/?key=1#top");
}

#[test]
fn query_of_the_route_is_the_query_of_the_url() {
    let e = endpoint("http://example.com/old?key=1#top");
    let request = Request::new(Method::Get, Some("posts?userId=1".to_string()), None);
    let exchange = Client::request(&e, &request);
    assert_eq!(exchange.url, "http://example.com/posts?userId=1#top");
    let request = Request::new(Method::Get, Some("a b?c d?e".to_string()), None);
    let exchange = Client::request(&e, &request);
    assert_eq!(exchange.url, "http://example.com/a%20b?c%20d?e#top");
    let request = Request::new(Method::Get, Some("posts?".to_string()), None);
    let exchange = Client::request(&e, &request);
    assert_eq!(exchange.url, "http://example.com/posts?#top");
    let request = Request::new(Method::Get, Some("posts".to_string()), None);
    let exchange = Client::request(&e, &request);
    assert_eq!(exchange.url, "http://example.com/posts?key=1#top");
}

#[test]
fn endpoint_keeps_connections_alive_for_the_timeout() {
    let mut header = Fields::new();
    header.or_insert("Accept", "text/plain");
    let e = Endpoint::new("http://example.com".to_string(), Duration::from_secs(7), header);
    let client = e.client();
    assert_eq!(client.connect_timeout, Duration::from_secs(7));
    assert!(client.keep_alive);
    assert_eq!(client.keep_alive_timeout, Some(Duration::from_secs(7)));
    assert_eq!(e.header().get("Accept"), Some(&"text/plain".to_string()));
    assert!(matches!(
        Endpoint::try_new("no url".to_string(), Duration::from_secs(7), Fields::new()),
        Err(Error::UrlParseError(url::ParseError::RelativeUrlWithoutBase))
    ));
}

#[test]
fn error_descriptions() {
    assert_eq!(Error::IoError.description(), "IO error");
    assert_eq!(
        Error::UrlParseError(url::ParseError::EmptyHost).description(),
        "Url Parse error"
    );
    assert_eq!(Error::HttpError.description(), "http error");
}
