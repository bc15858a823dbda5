use rest::headers::Headers;
use rest::http::{Decoder, Encoder, Exchange, Method, Next, ReadEnd, RequestHead, ResponseHead, State};
use rest::rest::Client;
use rest::{Endpoint, Error, Request};
use std::time::Duration;

static URL: &'static str = "http://jsonplaceholder.typicode.com";

/// Plays the transport and the server for one exchange: takes the request
/// as the handler hands it out, and answers with `status` and with `body` in
/// pieces of `piece` bytes. Gives what the caller then gets.
fn serve(
    exchange: Result<Exchange, Error>,
    method: Method,
    url: &str,
    sent: Option<&str>,
    status: u16,
    body: &[u8],
    piece: usize,
) -> Result<String, Error> {
    let Exchange { url: asked, mut handler } = exchange?;
    assert_eq!(asked, url);

    assert_eq!(handler.state(), State::AwaitingRequestHeaders);
    let mut head = RequestHead { method: Method::Get, headers: Headers::new() };
    let mut next = handler.on_request(&mut head);
    assert_eq!(head.method, method);
    assert_eq!(head.headers.get("Connection"), Some(&"close".to_string()));

    let mut encoder = Encoder { written: Vec::new(), closed: false };
    if next == Next::Write {
        next = handler.on_request_writable(&mut encoder);
    }
    assert_eq!(encoder.closed, sent.is_some());
    assert_eq!(encoder.written, sent.unwrap_or("").as_bytes());
    assert!(matches!(next, Next::Read(_)));

    let mut headers = Headers::new();
    headers.set("Content-Type", "application/json; charset=utf-8");
    next = handler.on_response(ResponseHead { status, headers });
    let mut rest = body;
    while let Next::Read(_) = next {
        let n = piece.min(rest.len());
        let decoder = Decoder { bytes: rest[..n].to_vec(), end: ReadEnd::Eof };
        rest = &rest[n..];
        next = handler.on_response_readable(&decoder);
    }
    assert_eq!(next, Next::End);

    let mut results = handler.into_sent();
    assert_eq!(results.len(), 1);
    rest::http::Client::receive(results.remove(0))
}

#[test]
fn rest_get_single_url_segment() {
    let api = rest::Endpoint::configure()
        .url(URL)
        .timeout(Duration::from_secs(5))
        .add_header("Accept-Encoding", "Accept-Encoding: gzip, deflate")
        .build();

    let request = rest::Request::get()
        .path("posts/{id}")
        .add_urlsegment("id", "1")
        .build();

    let expected_result =
r#"{
  "userId": 1,
  "id": 1,
  "title": "sunt aut facere repellat provident occaecati excepturi optio reprehenderit",
  "body": "quia et suscipit\nsuscipit recusandae consequuntur expedita et cum\nreprehenderit molestiae ut ut quas totam\nnostrum rerum est autem sunt rem eveniet architecto"
}"#.to_string();

    let response = serve(
        Client::execute(&api, &request),
        Method::Get,
        "http://jsonplaceholder.typicode.com/posts/1",
        None,
        200,
        expected_result.as_bytes(),
        64,
    );
    let result = response.unwrap();
    assert_eq!(result.is_empty(), false);

    assert_eq!(&result, &expected_result);
}

#[test]
fn rest_get_single_add_parameter() {
    let api = rest::Endpoint::configure()
        .url(URL)
        .timeout(Duration::from_secs(5))
        .build();

    let request = rest::Request::get()
        .path("posts")
        .add_parameter("userId", "1")
        .build();

    let expected_result =
r#"[
  {
    "userId": 1,
    "id": 1,
    "title": "sunt aut facere repellat provident occaecati excepturi optio reprehenderit",
    "body": "quia et suscipit\nsuscipit recusandae consequuntur expedita et cum\nreprehenderit molestiae ut ut quas totam\nnostrum rerum est autem sunt rem eveniet architecto"
  },
  {
    "userId": 1,
    "id": 2,
    "title": "qui est esse",
    "body": "est rerum tempore vitae\nsequi sint nihil reprehenderit dolor beatae ea dolores neque\nfugiat blanditiis voluptate porro vel nihil molestiae ut reiciendis\nqui aperiam non debitis possimus qui neque nisi nulla"
  },
  {
    "userId": 1,
    "id": 3,
    "title": "ea molestias quasi exercitationem repellat qui ipsa sit aut",
    "body": "et iusto sed quo iure\nvoluptatem occaecati omnis eligendi aut ad\nvoluptatem doloribus vel accusantium quis pariatur\nmolestiae porro eius odio et labore et velit aut"
  },
  {
    "userId": 1,
    "id": 4,
    "title": "eum et est occaecati",
    "body": "ullam et saepe reiciendis voluptatem adipisci\nsit amet autem assumenda provident rerum culpa\nquis hic commodi nesciunt rem tenetur doloremque ipsam iure\nquis sunt voluptatem rerum illo velit"
  },
  {
    "userId": 1,
    "id": 5,
    "title": "nesciunt quas odio",
    "body": "repudiandae veniam quaerat sunt sed\nalias aut fugiat sit autem sed est\nvoluptatem omnis possimus esse voluptatibus quis\nest aut tenetur dolor neque"
  },
  {
    "userId": 1,
    "id": 6,
    "title": "dolorem eum magni eos aperiam quia",
    "body": "ut aspernatur corporis harum nihil quis provident sequi\nmollitia nobis aliquid molestiae\nperspiciatis et ea nemo ab reprehenderit accusantium quas\nvoluptate dolores velit et doloremque molestiae"
  },
  {
    "userId": 1,
    "id": 7,
    "title": "magnam facilis autem",
    "body": "dolore placeat quibusdam ea quo vitae\nmagni quis enim qui quis quo nemo aut saepe\nquidem repellat excepturi ut quia\nsunt ut sequi eos ea sed quas"
  },
  {
    "userId": 1,
    "id": 8,
    "title": "dolorem dolore est ipsam",
    "body": "dignissimos aperiam dolorem qui eum\nfacilis quibusdam animi sint suscipit qui sint possimus cum\nquaerat magni maiores excepturi\nipsam ut commodi dolor voluptatum modi aut vitae"
  },
  {
    "userId": 1,
    "id": 9,
    "title": "nesciunt iure omnis dolorem tempora et accusantium",
    "body": "consectetur animi nesciunt iure dolore\nenim quia ad\nveniam autem ut quam aut nobis\net est aut quod aut provident voluptas autem voluptas"
  },
  {
    "userId": 1,
    "id": 10,
    "title": "optio molestias id quia eum",
    "body": "quo et expedita modi cum officia vel magni\ndoloribus qui repudiandae\nvero nisi sit\nquos veniam quod sed accusamus veritatis error"
  }
]"#;

    let response = serve(
        Client::execute(&api, &request),
        Method::Get,
        "http://jsonplaceholder.typicode.com/posts?userId=1",
        None,
        200,
        expected_result.as_bytes(),
        1000,
    );
    let result = response.unwrap();
    assert_eq!(result.is_empty(), false);

    assert_eq!(&result, &expected_result);
}

#[test]
fn rest_get_list_url_segment() {
    let api = rest::Endpoint::configure()
        .url(URL)
        .timeout(Duration::from_secs(5))
        .build();

    let request = rest::Request::get()
        .path("posts")
        .build();

    let expected_result = 27520;

    let body = vec![b' '; expected_result];
    let response = serve(
        Client::execute(&api, &request),
        Method::Get,
        "http://jsonplaceholder.typicode.com/posts",
        None,
        200,
        &body,
        4096,
    );
    let result = response.unwrap();
    assert_eq!(result.is_empty(), false);

    //this is too big a string to include for an exact match,
    //so we will just check the length
    assert_eq!(result.len(), expected_result);
}

#[test]
fn rest_post_single_add_parameter() {
    let api = rest::Endpoint::configure()
        .url(URL)
        .timeout(Duration::from_secs(5))
        .build();

    let request = rest::Request::post()
        .path("post")
        .add_parameter("title", "foo")
        .add_parameter("body", "bar")
        .add_parameter("userId", "1")
        .build();

    let response = serve(
        Client::execute(&api, &request),
        Method::Post,
        "http://jsonplaceholder.typicode.com/posts",
        Some("{\"body\":\"bar\",\"title\":\"foo\",\"userId\":\"1\"}"),
        201,
        b"{\n  \"id\": 101\n}",
        7,
    );
    println!("{}", response.unwrap());
}

#[test]
fn rest_put_single_add_parameter() {
    let api = rest::Endpoint::configure()
        .url(URL)
        .timeout(Duration::from_secs(5))
        .build();

    let request = rest::Request::put()
        .path("posts")
        .add_parameter("title", "bar")
        .add_parameter("body", "foo")
        .add_parameter("userId", "1")
        .build();

    let response = serve(
        Client::execute(&api, &request),
        Method::Put,
        "http://jsonplaceholder.typicode.com/",
        None,
        404,
        b"",
        1,
    );
    println!("{}", response.unwrap());
}

#[test]
fn rest_patch_single_add_parameter() {
    let api = rest::Endpoint::configure()
        .url(URL)
        .timeout(Duration::from_secs(5))
        .build();

    let request = rest::Request::patch()
        .path("posts/{id}")
        .add_urlsegment("id", "1")
        .add_parameter("title", "foo")
        .build();

    let response = serve(
        Client::execute(&api, &request),
        Method::Patch,
        "http://jsonplaceholder.typicode.com/posts/1?title=foo",
        None,
        200,
        b"{}",
        1,
    );
    println!("{}", response.unwrap());
}

#[test]
fn rest_delete_single_url_segment() {
    let api = rest::Endpoint::configure()
        .url(URL)
        .timeout(Duration::from_secs(5))
        .build();

    let request = rest::Request::delete()
        .path("posts/{id}")
        .add_urlsegment("id", "1")
        .build();

    let response = serve(
        Client::execute(&api, &request),
        Method::Delete,
        "http://jsonplaceholder.typicode.com/posts/1",
        None,
        200,
        b"{}",
        2,
    );
    println!("{}", response.unwrap());
}

#[test]
fn execute_refuses_nothing_that_fits() {
    let api: Endpoint = Endpoint::configure().url(URL).build();
    let request: Request = Request::get().path("posts").build();
    assert!(Client::execute(&api, &request).is_ok());
}
