use httpd::method::{Method, MethodError};
use httpd::page::GetPage;
use httpd::query_string::QueryString;
use httpd::request::{ParseError, Request};
use httpd::response::Response;
use httpd::router::{Handler, Router};
use httpd::server::Server;
use httpd::status_code::StatusCode;

fn hello() -> GetPage {
    GetPage::new(String::from("<h1>Hello world!</h1>"))
}

fn page(body: &str) -> GetPage {
    GetPage::new(String::from(body))
}

fn hello_server() -> Server<GetPage> {
    let mut router = Router::new();
    router.register("/", hello());
    Server::new(String::from("127.0.0.1:8080"), router)
}

fn text_of(resp: &Response) -> String {
    String::from_utf8(resp.serialize()).unwrap()
}

#[test]
fn method_tokens_parse_to_their_variants() {
    let all = [
        ("GET", Method::GET),
        ("POST", Method::POST),
        ("PUT", Method::PUT),
        ("DELETE", Method::DELETE),
        ("HEAD", Method::HEAD),
        ("OPTIONS", Method::OPTIONS),
        ("CONNECT", Method::CONNECT),
        ("TRACE", Method::TRACE),
        ("PATCH", Method::PATCH),
    ];
    for (token, method) in all {
        assert_eq!(Method::parse(token), Ok(method));
        assert_eq!(method.as_str(), token);
    }
}

#[test]
fn other_method_tokens_fail() {
    for token in ["get", "GET ", " GET", "", "FOO", "PATCHES", "POS"] {
        assert_eq!(Method::parse(token), Err(MethodError));
    }
}

#[test]
fn query_string_groups_values_by_key() {
    let qs = QueryString::parse("a=1&b=2&c&d=&e===&d=7&d=abc");
    assert_eq!(qs.get("a"), Some(&vec![String::from("1")]));
    assert_eq!(qs.get("b"), Some(&vec![String::from("2")]));
    assert_eq!(
        qs.get("d"),
        Some(&vec![String::from(""), String::from("7"), String::from("abc")])
    );
    assert_eq!(qs.get("e"), Some(&vec![String::from("==")]));
    assert_eq!(qs.get("c"), None);
    assert_eq!(qs.get("x"), None);
}

#[test]
fn query_string_edge_cases() {
    let empty = QueryString::parse("");
    assert_eq!(empty.get(""), None);
    let bare = QueryString::parse("&&x&");
    assert_eq!(bare.get("x"), None);
    assert_eq!(bare.get(""), None);
    let empty_key = QueryString::parse("=v&=w");
    assert_eq!(
        empty_key.get(""),
        Some(&vec![String::from("v"), String::from("w")])
    );
}

#[test]
fn request_with_query_parses() {
    let req = Request::try_from(b"GET /hello?x=1 HTTP/1.1\r\n").unwrap();
    assert_eq!(req.method, Method::GET);
    assert_eq!(req.path, "/hello");
    assert_eq!(req.query_str, Some(String::from("x=1")));
}

#[test]
fn request_without_query_parses() {
    let req = Request::try_from(b"POST /submit HTTP/1.1\r\nHost: x\r\n\r\n").unwrap();
    assert_eq!(req.method, Method::POST);
    assert_eq!(req.path, "/submit");
    assert_eq!(req.query_str, None);
}

#[test]
fn request_path_splits_at_first_question_mark() {
    let req = Request::try_from(b"GET /a?b?c HTTP/1.1\r\n").unwrap();
    assert_eq!(req.path, "/a");
    assert_eq!(req.query_str, Some(String::from("b?c")));
    let req = Request::try_from(b"GET /a? HTTP/1.1\r\n").unwrap();
    assert_eq!(req.path, "/a");
    assert_eq!(req.query_str, Some(String::from("")));
}

#[test]
fn request_with_other_protocol_fails() {
    let r = Request::try_from(b"GET /hello HTTP/1.0\r\n");
    assert_eq!(r.unwrap_err(), ParseError::InvalidProtocol);
}

#[test]
fn request_with_bad_encoding_fails() {
    let r = Request::try_from(&[0x47, 0x45, 0x54, 0x20, 0xff, 0xfe, 0x20, 0x0d][..]);
    assert_eq!(r.unwrap_err(), ParseError::InvalidEncoding);
}

#[test]
fn request_with_missing_token_fails() {
    for line in [&b""[..], b"GET", b"GET /", b"GET / HTTP/1.1", b"garbage-without-delimiters"] {
        assert_eq!(Request::try_from(line).unwrap_err(), ParseError::InvalidRequest);
    }
}

#[test]
fn request_with_unknown_method_fails() {
    let r = Request::try_from(b"FETCH / HTTP/1.1\r\n");
    assert_eq!(r.unwrap_err(), ParseError::InvalidMethod);
}

#[test]
fn protocol_is_checked_before_method() {
    let r = Request::try_from(b"FETCH / HTTP/2\r\n");
    assert_eq!(r.unwrap_err(), ParseError::InvalidProtocol);
}

#[test]
fn request_in_a_zero_filled_buffer_parses() {
    let mut buf = [0u8; 1024];
    let line = b"GET / HTTP/1.1\r\n";
    buf[..line.len()].copy_from_slice(line);
    let req = Request::try_from(&buf[..]).unwrap();
    assert_eq!(req.method, Method::GET);
    assert_eq!(req.path, "/");
}

#[test]
fn parse_error_messages() {
    assert_eq!(ParseError::InvalidRequest.error(), "Invalid Request");
    assert_eq!(ParseError::InvalidEncoding.error(), "Invalid Enconding");
    assert_eq!(ParseError::InvalidProtocol.error(), "Invalid Protocol");
    assert_eq!(ParseError::InvalidMethod.error(), "Invalid Method");
}

#[test]
fn status_codes_and_reason_phrases() {
    assert_eq!(StatusCode::OK.code(), 200);
    assert_eq!(StatusCode::BadRequest.code(), 400);
    assert_eq!(StatusCode::NotFound.code(), 404);
    assert_eq!(StatusCode::MethodNotAllowed.code(), 405);
    assert_eq!(StatusCode::OK.reason_phrase(), "Ok");
    assert_eq!(StatusCode::BadRequest.reason_phrase(), "Bad Request");
    assert_eq!(StatusCode::NotFound.reason_phrase(), "Not Found");
    assert_eq!(StatusCode::MethodNotAllowed.reason_phrase(), "Method Not Allowed");
}

#[test]
fn response_serializes_exactly() {
    let resp = Response::new(StatusCode::OK, Some(String::from("hi")));
    assert_eq!(resp.serialize(), b"HTTP/1.1 200 Ok\r\nContent-Length: 2\r\n\r\nhi".to_vec());
    assert_eq!(resp.to_text(), "HTTP/1.1 200 Ok\r\nContent-Length: 2\r\n\r\nhi");
}

#[test]
fn response_without_body_declares_zero_length() {
    let resp = Response::new(StatusCode::NotFound, None);
    assert_eq!(resp.content_length(), 0);
    assert_eq!(resp.body(), None);
    assert_eq!(text_of(&resp), "HTTP/1.1 404 Not Found\r\nContent-Length: 0\r\n\r\n");
}

#[test]
fn content_length_counts_bytes_not_characters() {
    let body = "h\u{e9}llo \u{1F600}";
    let resp = Response::new(StatusCode::OK, Some(String::from(body)));
    assert_eq!(resp.content_length(), body.len() as u64);
    assert_eq!(resp.content_length(), 11);
    let text = text_of(&resp);
    assert!(text.starts_with("HTTP/1.1 200 Ok\r\nContent-Length: 11\r\n\r\n"));
    assert!(text.ends_with(body));
}

#[test]
fn content_length_round_trips_for_many_bodies() {
    for n in [0usize, 1, 9, 10, 99, 100, 1000, 12345] {
        let body = "x".repeat(n);
        let resp = Response::new(StatusCode::OK, Some(body.clone()));
        let bytes = resp.serialize();
        let text = String::from_utf8(bytes.clone()).unwrap();
        let start = text.find("Content-Length: ").unwrap() + "Content-Length: ".len();
        let end = start + text[start..].find("\r\n").unwrap();
        let declared: usize = text[start..end].parse().unwrap();
        let head_end = text.find("\r\n\r\n").unwrap() + 4;
        assert_eq!(declared, n);
        assert_eq!(bytes.len() - head_end, declared);
    }
}

#[test]
fn written_bytes_are_the_serialized_response() {
    let resp = Response::new(StatusCode::MethodNotAllowed, None);
    let mut sink: Vec<u8> = Vec::new();
    std::io::Write::write_all(&mut sink, &resp.serialize()).unwrap();
    assert_eq!(sink, b"HTTP/1.1 405 Method Not Allowed\r\nContent-Length: 0\r\n\r\n".to_vec());
}

#[test]
fn router_misses_give_not_found() {
    let empty: Router<GetPage> = Router::new();
    let req = Request::try_from(b"GET /nowhere HTTP/1.1\r\n").unwrap();
    let resp = empty.handle_request(req);
    assert_eq!(resp.status_code(), StatusCode::NotFound);
    assert_eq!(resp.body(), None);

    let mut router = Router::new();
    router.register("/", hello());
    let req = Request::try_from(b"GET /Missing HTTP/1.1\r\n").unwrap();
    let resp = router.handle_request(req);
    assert_eq!(resp.status_code(), StatusCode::NotFound);
    assert_eq!(resp.content_length(), 0);
}

#[test]
fn router_matches_exact_case_sensitive_paths() {
    let mut router = Router::new();
    router.register("/a", page("a"));
    let hit = router.handle_request(Request::try_from(b"GET /a HTTP/1.1\r\n").unwrap());
    assert_eq!(hit.body(), Some("a"));
    for line in [&b"GET /A HTTP/1.1\r\n"[..], b"GET /a/ HTTP/1.1\r\n", b"GET /ab HTTP/1.1\r\n"] {
        let miss = router.handle_request(Request::try_from(line).unwrap());
        assert_eq!(miss.status_code(), StatusCode::NotFound);
    }
    let with_query = router.handle_request(Request::try_from(b"GET /a?q=1 HTTP/1.1\r\n").unwrap());
    assert_eq!(with_query.body(), Some("a"));
}

#[test]
fn last_registration_wins() {
    let mut router = Router::new();
    router.register("/", page("first"));
    router.register("/other", page("other"));
    router.register("/", page("second"));
    assert!(router.route("/").is_some());
    assert!(router.route("/nope").is_none());
    let resp = router.handle_request(Request::try_from(b"GET / HTTP/1.1\r\n").unwrap());
    assert_eq!(resp.body(), Some("second"));
    let resp = router.handle_request(Request::try_from(b"GET /other HTTP/1.1\r\n").unwrap());
    assert_eq!(resp.body(), Some("other"));
}

#[test]
fn boxed_handlers_of_different_types_share_a_router() {
    let mut router: Router<Box<dyn Handler>> = Router::new();
    router.register("/", Box::new(hello()));
    router.register("/fixed", Box::new(page("fixed")));
    let resp = router.handle_request(Request::try_from(b"GET / HTTP/1.1\r\n").unwrap());
    assert_eq!(resp.body(), Some("<h1>Hello world!</h1>"));
    let resp = router.handle_request(Request::try_from(b"GET /fixed HTTP/1.1\r\n").unwrap());
    assert_eq!(resp.body(), Some("fixed"));
    let resp = router.handle_request(Request::try_from(b"PUT /fixed HTTP/1.1\r\n").unwrap());
    assert_eq!(resp.status_code(), StatusCode::MethodNotAllowed);
}

#[test]
fn end_to_end_get_root() {
    let server = hello_server();
    let resp = server.respond(b"GET / HTTP/1.1\r\n");
    assert_eq!(
        text_of(&resp),
        "HTTP/1.1 200 Ok\r\nContent-Length: 21\r\n\r\n<h1>Hello world!</h1>"
    );
}

#[test]
fn end_to_end_post_root_is_not_allowed() {
    let server = hello_server();
    let resp = server.respond(b"POST / HTTP/1.1\r\n");
    assert_eq!(resp.status_code(), StatusCode::MethodNotAllowed);
    assert_eq!(
        text_of(&resp),
        "HTTP/1.1 405 Method Not Allowed\r\nContent-Length: 0\r\n\r\n"
    );
}

#[test]
fn end_to_end_missing_path() {
    let server = hello_server();
    let resp = server.respond(b"GET /missing HTTP/1.1\r\n");
    assert_eq!(text_of(&resp), "HTTP/1.1 404 Not Found\r\nContent-Length: 0\r\n\r\n");
}

#[test]
fn end_to_end_garbage_is_bad_request() {
    let server = hello_server();
    let resp = server.respond(b"garbage-with-no-delimiter");
    assert_eq!(text_of(&resp), "HTTP/1.1 400 Bad Request\r\nContent-Length: 0\r\n\r\n");
    let resp = server.respond(&[0xc3, 0x28, 0x20, 0x20, 0x0d]);
    assert_eq!(resp.status_code(), StatusCode::BadRequest);
}

#[test]
fn respond_to_read_uses_only_the_bytes_read() {
    let server = hello_server();
    let mut buf = [0u8; 1024];
    assert!(server.respond_to_read(&buf, 0).is_none());
    let line = b"GET / HTTP/1.1\r\n";
    buf[..line.len()].copy_from_slice(line);
    let resp = server.respond_to_read(&buf, line.len()).unwrap();
    assert_eq!(resp.status_code(), StatusCode::OK);
    let short = server.respond_to_read(&buf, 5).unwrap();
    assert_eq!(short.status_code(), StatusCode::BadRequest);
}

#[test]
fn server_keeps_its_address() {
    let server = hello_server();
    assert_eq!(server.addr(), "127.0.0.1:8080");
    assert!(server.router().route("/").is_some());
}

#[test]
fn status_code_text_is_code_and_reason() {
    assert_eq!(StatusCode::OK.to_text(), "200 Ok");
    assert_eq!(StatusCode::BadRequest.to_text(), "400 Bad Request");
    assert_eq!(StatusCode::NotFound.to_text(), "404 Not Found");
    assert_eq!(StatusCode::MethodNotAllowed.to_text(), "405 Method Not Allowed");
}

#[test]
fn response_header_text_and_fields() {
    let resp = Response::new(StatusCode::NotFound, Some(String::from("abc")));
    let header = resp.header();
    assert_eq!(header.status_code(), StatusCode::NotFound);
    assert_eq!(header.content_length(), 3);
    assert_eq!(header.to_text(), "404 Not Found\r\nContent-Length: 3");
    assert_eq!(resp.body(), Some("abc"));
}

#[test]
fn methods_parse_through_from_str() {
    assert_eq!("DELETE".parse::<Method>(), Ok(Method::DELETE));
    assert_eq!("delete".parse::<Method>(), Err(MethodError));
}

#[test]
fn method_error_becomes_invalid_method() {
    assert_eq!(ParseError::from(MethodError), ParseError::InvalidMethod);
}

#[test]
fn get_page_serves_get_and_refuses_other_methods() {
    let p = page("body");
    let get = p.handle(Request::try_from(b"GET /x?y=1 HTTP/1.1\r\n").unwrap());
    assert_eq!(text_of(&get), "HTTP/1.1 200 Ok\r\nContent-Length: 4\r\n\r\nbody");
    for line in [&b"POST / HTTP/1.1\r\n"[..], b"HEAD / HTTP/1.1\r\n", b"DELETE / HTTP/1.1\r\n"] {
        let other = p.handle(Request::try_from(line).unwrap());
        assert_eq!(other.status_code(), StatusCode::MethodNotAllowed);
        assert_eq!(other.body(), None);
    }
}

#[test]
fn post_with_query_reaches_the_handler() {
    let mut router = Router::new();
    router.register("/", hello());
    let resp = router.handle_request(Request::try_from(b"POST /?x=1 HTTP/1.1\r\n").unwrap());
    assert_eq!(resp.status_code(), StatusCode::MethodNotAllowed);
}

#[test]
fn body_starts_after_the_first_blank_line() {
    let body = "\r\n\r\nx\r\n\r\n";
    let resp = Response::new(StatusCode::OK, Some(String::from(body)));
    let bytes = resp.serialize();
    let text = String::from_utf8(bytes.clone()).unwrap();
    let head_end = text.find("\r\n\r\n").unwrap() + 4;
    assert_eq!(&text[..head_end], "HTTP/1.1 200 Ok\r\nContent-Length: 9\r\n\r\n");
    assert_eq!(&bytes[head_end..], body.as_bytes());
}

#[test]
fn bytes_without_space_or_carriage_return_never_parse() {
    for bytes in [&b"garbage"[..], b"GET/HTTP/1.1\n", b"\xff\xfe", b"x"] {
        assert!(Request::try_from(bytes).is_err());
    }
    assert_eq!(Request::try_from(b"GET/\n").unwrap_err(), ParseError::InvalidRequest);
}
