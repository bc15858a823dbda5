use rest::fields::Fields;
use rest::headers::{names_match, Headers};
use rest::serializer::ToJsonString;
use rest::template::{placeholder_of, push_query, resolved, route};
use rest::text::{chars, contains, replace};
use rest::rest::Client;
use rest::{Endpoint, Request};

#[test]
fn chars_are_the_characters() {
    assert_eq!(chars(""), Vec::<char>::new());
    assert_eq!(chars("a\u{e9}\u{1f600}"), vec!['a', '\u{e9}', '\u{1f600}']);
}

#[test]
fn contains_finds_the_pattern_anywhere() {
    assert!(contains("posts/{id}", "{id}"));
    assert!(contains("{id}/posts", "{id}"));
    assert!(contains("{id}", "{id}"));
    assert!(contains("aab", "ab"));
    assert!(contains("\u{e9}{id}", "{id}"));
    assert!(!contains("posts/{id", "{id}"));
    assert!(!contains("id", "{id}"));
    assert!(!contains("", "a"));
    assert!(!contains("abc", ""));
    assert!(!contains("", ""));
}

#[test]
fn replace_takes_occurrences_from_the_left() {
    assert_eq!(replace("aaa", "aa", "b"), "ba");
    assert_eq!(replace("aaaa", "aa", "b"), "bb");
    assert_eq!(replace("abab", "ab", "ba"), "baba");
    assert_eq!(replace("xay", "a", "aa"), "xaay");
    assert_eq!(replace("abc", "abc", ""), "");
    assert_eq!(replace("abc", "abcd", "x"), "abc");
    assert_eq!(replace("abc", "", "x"), "abc");
    assert_eq!(replace("", "a", "x"), "");
    assert_eq!(replace("{{k}k}", "{k}", ""), "{k}");
    assert_eq!(replace("\u{e9}{id}\u{e9}", "{id}", "\u{fc}"), "\u{e9}\u{fc}\u{e9}");
}

#[test]
fn placeholder_is_the_name_in_braces() {
    assert_eq!(placeholder_of("id"), "{id}");
    assert_eq!(placeholder_of(""), "{}");
}

#[test]
fn fields_keep_order_and_first_values() {
    let mut m = Fields::new();
    assert!(m.is_empty());
    m.or_insert("b", "1");
    m.or_insert("a", "2");
    m.or_insert("b", "3");
    m.or_insert("B", "4");
    assert!(!m.is_empty());
    assert_eq!(m.len(), 3);
    assert_eq!(m.name(0), "b");
    assert_eq!(m.value(0), "1");
    assert_eq!(m.name(1), "a");
    assert_eq!(m.value(1), "2");
    assert_eq!(m.name(2), "B");
    assert_eq!(m.get("b"), Some(&"1".to_string()));
    assert_eq!(m.get("c"), None);
    assert!(m.contains_key("a"));
    assert!(!m.contains_key("c"));
    let copy = m.clone();
    assert_eq!(copy.len(), 3);
    assert_eq!(copy.value(2), "4");
    assert_eq!(m.tojson(), "{\"B\":\"4\",\"a\":\"2\",\"b\":\"1\"}");
}

#[test]
fn header_names_match_without_regard_to_ascii_case() {
    assert!(names_match("Content-Type", "content-type"));
    assert!(names_match("", ""));
    assert!(names_match("\u{c9}", "\u{c9}"));
    assert!(!names_match("\u{c9}", "\u{e9}"));
    assert!(!names_match("Content-Type", "Content-Typ"));
    assert!(!names_match("@", "`"));
    assert!(!names_match("[", "{"));
}

#[test]
fn headers_keep_the_last_value_in_the_first_place() {
    let mut h = Headers::new();
    h.set("Accept", "a");
    h.set("Host", "b");
    h.set("ACCEPT", "c");
    assert_eq!(h.len(), 2);
    assert_eq!(h.name(0), "ACCEPT");
    assert_eq!(h.value(0), "c");
    assert_eq!(h.name(1), "Host");
    assert_eq!(h.value(1), "b");
    assert_eq!(h.get("accept"), Some(&"c".to_string()));
    assert_eq!(h.get("Cookie"), None);
    let copy = h.clone();
    assert_eq!(copy.len(), 2);
    assert_eq!(copy.get("host"), Some(&"b".to_string()));
}

#[test]
fn route_is_the_resolved_path_and_the_query() {
    let mut segments = Fields::new();
    segments.or_insert("postId", "1");
    let mut parameters = Fields::new();
    assert_eq!(route("posts/{postId}", &segments, &parameters), "posts/1");
    assert_eq!(resolved("posts/{postId}/{x}", &segments), "posts/1/{x}");
    parameters.or_insert("userId", "1");
    assert_eq!(route("posts/{postId}", &segments, &parameters), "posts/1?userId=1");
    let mut r = "posts".to_string();
    push_query(&mut r, &Fields::new());
    assert_eq!(r, "posts");
    push_query(&mut r, &parameters);
    assert_eq!(r, "posts?userId=1");
}

#[test]
fn execute_prepares_the_exchange() {
    let endpoint = Endpoint::configure().url("http://jsonplaceholder.typicode.com").build();
    let request = Request::get().path("posts/{id}").add_urlsegment("id", "1").build();
    match Client::execute(&endpoint, &request) {
        Ok(exchange) => {
            assert_eq!(exchange.url, "http://jsonplaceholder.typicode.com/posts/1");
            assert_eq!(exchange.handler.request().route(), &Some("posts/1".to_string()));
        },
        Err(_) => panic!("the exchange was refused"),
    }
    let header = rest::rest::Header::new();
    match Client::execute_headers(&endpoint, &request, &header) {
        Ok(exchange) => assert_eq!(exchange.url, "http://jsonplaceholder.typicode.com/posts/1"),
        Err(_) => panic!("the exchange was refused"),
    }
}
