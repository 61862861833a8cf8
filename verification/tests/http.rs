use iron::http::{Fields, HttpMethod, Request, RequestTrait, Response, ResponseTrait};

#[test]
fn test_parse_request() {
    let request_str = "GET /users/123 HTTP/1.1\r\nHost: example.com\r\n\r\n";
    let request = Request::parse(request_str);
    assert_eq!(request.method(), &HttpMethod::GET);
    assert_eq!(request.path(), "/users/123");
    assert_eq!(request.headers().get("Host"), Some(&"example.com".to_string()));
}

#[test]
fn test_response_to_string() {
    let mut response = Response::new("Hello, World!");
    response.set_status(200);
    response.set_header("Content-Type".to_string(), "text/plain".to_string());
    let response_str = response.to_string();
    assert!(response_str.contains("HTTP/1.1 200 OK"));
    assert!(response_str.contains("Content-Type: text/plain"));
    assert!(response_str.contains("Hello, World!"));
}

#[test]
fn parse_reads_each_known_method() {
    assert_eq!(Request::parse("GET / HTTP/1.1\r\n\r\n").method(), &HttpMethod::GET);
    assert_eq!(Request::parse("POST / HTTP/1.1\r\n\r\n").method(), &HttpMethod::POST);
    assert_eq!(Request::parse("PUT / HTTP/1.1\r\n\r\n").method(), &HttpMethod::PUT);
    assert_eq!(Request::parse("DELETE / HTTP/1.1\r\n\r\n").method(), &HttpMethod::DELETE);
}

#[test]
fn parse_takes_an_unknown_method_for_get() {
    let request = Request::parse("BREW /pot HTTP/1.1\r\n\r\n");
    assert_eq!(request.method(), &HttpMethod::GET);
    assert_eq!(request.path(), "/pot");
    let lower = Request::parse("post /pot HTTP/1.1\r\n\r\n");
    assert_eq!(lower.method(), &HttpMethod::GET);
}

#[test]
fn parse_of_nothing_gives_defaults() {
    let request = Request::parse("");
    assert_eq!(request.method(), &HttpMethod::GET);
    assert_eq!(request.path(), "");
    assert_eq!(request.body(), "");
    assert!(request.headers().is_empty());
    assert!(request.params().is_empty());
}

#[test]
fn parse_of_a_lone_method_has_an_empty_path() {
    let request = Request::parse("POST\r\n\r\nabc");
    assert_eq!(request.method(), &HttpMethod::POST);
    assert_eq!(request.path(), "");
    assert_eq!(request.body(), "abc");
}

#[test]
fn parse_separates_words_by_any_whitespace() {
    let request = Request::parse(" \tPUT\u{a0}\u{3000}/a/b   HTTP/1.1\r\n\r\n");
    assert_eq!(request.method(), &HttpMethod::PUT);
    assert_eq!(request.path(), "/a/b");
}

#[test]
fn parse_takes_everything_after_the_first_blank_line_as_body() {
    let request = Request::parse("POST /x HTTP/1.1\r\nA: b\r\n\r\nline one\r\n\r\nline two");
    assert_eq!(request.body(), "line one\r\n\r\nline two");
    assert_eq!(request.headers().len(), 1);
}

#[test]
fn parse_without_a_blank_line_has_no_body() {
    let request = Request::parse("GET /x HTTP/1.1\r\nA: b\r\n");
    assert_eq!(request.body(), "");
    assert_eq!(request.headers().get("A"), Some(&"b".to_string()));
}

#[test]
fn parse_splits_a_header_at_the_first_separator() {
    let request = Request::parse("GET / HTTP/1.1\r\nX-Note: a: b: c\r\n\r\n");
    assert_eq!(request.headers().get("X-Note"), Some(&"a: b: c".to_string()));
}

#[test]
fn parse_skips_header_lines_without_a_separator() {
    let raw = "GET / HTTP/1.1\r\nBroken\r\nAlso:broken\r\nGood: yes\r\n\r\n";
    let request = Request::parse(raw);
    assert_eq!(request.headers().len(), 1);
    assert_eq!(request.headers().get("Good"), Some(&"yes".to_string()));
    assert_eq!(request.headers().get("Broken"), None);
}

#[test]
fn parse_keeps_the_last_value_of_a_repeated_header() {
    let request = Request::parse("GET / HTTP/1.1\r\nA: 1\r\nB: 2\r\nA: 3\r\n\r\n");
    assert_eq!(request.headers().len(), 2);
    assert_eq!(request.headers().get("A"), Some(&"3".to_string()));
    assert_eq!(request.headers().get("B"), Some(&"2".to_string()));
}

#[test]
fn parse_header_names_are_case_sensitive() {
    let request = Request::parse("GET / HTTP/1.1\r\nHost: x\r\n\r\n");
    assert_eq!(request.headers().get("host"), None);
    assert!(request.headers().contains_key("Host"));
}

#[test]
fn parse_stops_reading_headers_at_the_first_empty_line() {
    let request = Request::parse("GET / HTTP/1.1\nA: 1\n\nB: 2\n");
    assert_eq!(request.headers().get("A"), Some(&"1".to_string()));
    assert_eq!(request.headers().get("B"), None);
    assert_eq!(request.body(), "");
}

#[test]
fn parse_accepts_an_empty_header_name_and_value() {
    let request = Request::parse("GET / HTTP/1.1\r\n: \r\n\r\n");
    assert_eq!(request.headers().get(""), Some(&"".to_string()));
}

#[test]
fn parse_round_trip_keeps_method_path_and_body() {
    let raw = "DELETE /users/7 HTTP/1.1\r\nHost: example.com\r\nAccept: */*\r\n\r\nbye\r\n\r\nnow";
    let request = Request::parse(raw);
    assert_eq!(request.method(), &HttpMethod::DELETE);
    assert_eq!(request.path(), "/users/7");
    assert_eq!(request.body(), "bye\r\n\r\nnow");
    assert_eq!(request.headers().get("Accept"), Some(&"*/*".to_string()));
}

#[test]
fn request_parameters_can_be_set_and_replaced() {
    let mut request = Request::parse("GET / HTTP/1.1\r\n\r\n");
    request.set_param("a".to_string(), "1".to_string());
    request.set_param("b".to_string(), "2".to_string());
    request.set_param("a".to_string(), "3".to_string());
    assert_eq!(request.params().len(), 2);
    assert_eq!(request.params().get("a"), Some(&"3".to_string()));
    let mut fresh = Fields::new();
    fresh.insert("c".to_string(), "4".to_string());
    request.set_params(fresh);
    assert_eq!(request.params().len(), 1);
    assert_eq!(request.params().get("a"), None);
    assert_eq!(request.params().get("c"), Some(&"4".to_string()));
}

#[test]
fn request_clone_stands_for_the_same_request() {
    let request = Request::parse("PUT /p HTTP/1.1\r\nK: v\r\n\r\nbody");
    let copy = request.clone();
    assert_eq!(copy.method(), request.method());
    assert_eq!(copy.path(), "/p");
    assert_eq!(copy.body(), "body");
    assert_eq!(copy.headers().get("K"), Some(&"v".to_string()));
}

#[test]
fn new_response_has_status_200_and_the_default_header() {
    let response = Response::new("hi");
    assert_eq!(response.status(), 200);
    assert_eq!(response.body(), "hi");
    assert_eq!(response.headers().len(), 1);
    assert_eq!(response.headers().get("Content-Type"), Some(&"text/plain".to_string()));
    let owned = <Response as ResponseTrait>::new("hi".to_string());
    assert_eq!(owned.status(), 200);
    assert_eq!(owned.body(), "hi");
    assert_eq!(owned.headers().get("Content-Type"), Some(&"text/plain".to_string()));
}

#[test]
fn response_serializes_exactly() {
    let response = Response::new("Hello, World!");
    assert_eq!(
        response.to_string(),
        "HTTP/1.1 200 OK\r\nContent-Type: text/plain\r\n\r\nHello, World!"
    );
}

#[test]
fn response_serializes_headers_in_arrival_order() {
    let mut response = Response::new("");
    response.set_header("X-B".to_string(), "2".to_string());
    response.set_header("X-A".to_string(), "1".to_string());
    response.set_header("Content-Type".to_string(), "text/html".to_string());
    assert_eq!(
        response.to_string(),
        "HTTP/1.1 200 OK\r\nContent-Type: text/html\r\nX-B: 2\r\nX-A: 1\r\n\r\n"
    );
}

#[test]
fn response_reason_phrases() {
    let mut response = Response::new("x");
    assert_eq!(response.status_text(), "OK");
    response.set_status(404);
    assert_eq!(response.status_text(), "Not Found");
    assert!(response.to_string().starts_with("HTTP/1.1 404 Not Found\r\n"));
    response.set_status(500);
    assert_eq!(response.status_text(), "Internal Server Error");
    assert!(response.to_string().starts_with("HTTP/1.1 500 Internal Server Error\r\n"));
    response.set_status(401);
    assert_eq!(response.status_text(), "Unknown");
    assert!(response.to_string().starts_with("HTTP/1.1 401 Unknown\r\n"));
}

#[test]
fn response_status_is_written_in_decimal() {
    let mut response = Response::new("");
    for (status, digits) in [(0u16, "0"), (7, "7"), (10, "10"), (99, "99"), (100, "100"), (65535, "65535")] {
        response.set_status(status);
        let line = format!("HTTP/1.1 {} Unknown\r\n", digits);
        assert!(response.to_string().starts_with(&line));
    }
}

#[test]
fn response_body_is_written_as_it_is() {
    let mut response = Response::new("first");
    response.set_body("a\r\n\r\nb\n".to_string());
    assert_eq!(response.body(), "a\r\n\r\nb\n");
    assert!(response.to_string().ends_with("\r\n\r\na\r\n\r\nb\n"));
}

#[test]
fn response_clone_keeps_everything() {
    let mut response = Response::new("x");
    response.set_status(500);
    response.set_header("X-A".to_string(), "1".to_string());
    let copy = response.clone();
    assert_eq!(copy.to_string(), response.to_string());
}

#[test]
fn fields_behave_as_a_map() {
    let mut fields = Fields::new();
    assert!(fields.is_empty());
    assert_eq!(fields.get("a"), None);
    fields.insert("a".to_string(), "1".to_string());
    fields.insert("b".to_string(), "2".to_string());
    fields.insert("a".to_string(), "3".to_string());
    assert_eq!(fields.len(), 2);
    assert!(fields.contains_key("a"));
    assert!(!fields.contains_key("c"));
    assert_eq!(fields.get("a"), Some(&"3".to_string()));
    assert_eq!(fields.entry(0), Some((&"a".to_string(), &"3".to_string())));
    assert_eq!(fields.entry(1), Some((&"b".to_string(), &"2".to_string())));
    assert_eq!(fields.entry(2), None);
    let copy = fields.clone();
    assert_eq!(copy.len(), 2);
    assert_eq!(copy.get("b"), Some(&"2".to_string()));
}

#[test]
fn method_tokens() {
    assert_eq!(HttpMethod::GET.as_str(), "GET");
    assert_eq!(HttpMethod::POST.as_str(), "POST");
    assert_eq!(HttpMethod::PUT.as_str(), "PUT");
    assert_eq!(HttpMethod::DELETE.as_str(), "DELETE");
}
