use hanode::parser::{parse_request_line, ParseError};
use hanode::router::Router;
use hanode::server::{dispatch, format_response, handle_request, RequestBuffer, WebServer, CHUNK_SIZE, MAX_REQUEST_BYTES};
use hanode::types::{Request, RequestMethod, Response};

type Handler = fn(Request) -> Response;

fn hello(_req: Request) -> Response {
    Response { status: 200, body: "Hello!".to_string() }
}

fn other(_req: Request) -> Response {
    Response { status: 201, body: "other".to_string() }
}

fn echo(req: Request) -> Response {
    Response { status: 200, body: req.body.unwrap_or_default() }
}

fn describe(req: Request) -> Response {
    Response { status: 299, body: req.to_string() }
}

fn router_with(routes: &[(&str, Handler)]) -> Router<Handler> {
    let mut r: Router<Handler> = Router::new();
    for (p, h) in routes {
        r.register(p, *h);
    }
    r
}

fn wire(router: &Router<Handler>, raw: &str) -> String {
    String::from_utf8(handle_request(router, raw.as_bytes())).unwrap()
}

#[test]
fn hello_route_scenario() {
    let r = router_with(&[("/hello", hello)]);
    assert_eq!(wire(&r, "GET /hello HTTP/1.1\r\n\r\n"), "HTTP/1.1 200 OK\r\n\r\nHello!");
}

#[test]
fn post_body_echo_scenario() {
    let r = router_with(&[("/hook", echo)]);
    let resp = dispatch(&r, "POST /hook HTTP/1.1\r\n\r\n{\"a\":1}");
    assert_eq!(resp.status, 200);
    assert_eq!(resp.body, "{\"a\":1}");
}

#[test]
fn missing_route_scenario() {
    let r = router_with(&[("/hello", hello)]);
    assert_eq!(wire(&r, "GET /missing HTTP/1.1\r\n\r\n"), "HTTP/1.1 404 OK\r\n\r\n");
}

#[test]
fn format_round_trip() {
    let resp = Response { status: 200, body: "hi".to_string() };
    let bytes = format_response(&resp).into_bytes();
    assert_eq!(String::from_utf8(bytes).unwrap(), "HTTP/1.1 200 OK\r\n\r\nhi");
}

#[test]
fn format_other_statuses() {
    assert_eq!(format_response(&Response { status: 0, body: String::new() }), "HTTP/1.1 0 OK\r\n\r\n");
    assert_eq!(format_response(&Response { status: 65535, body: "x".to_string() }), "HTTP/1.1 65535 OK\r\n\r\nx");
    assert_eq!(format_response(&Response { status: 404, body: String::new() }), "HTTP/1.1 404 OK\r\n\r\n");
}

#[test]
fn registered_get_passes_handler_reply_through() {
    let r = router_with(&[("/a", other), ("/d", describe)]);
    let resp = dispatch(&r, "GET /a HTTP/1.1\r\nHost: x\r\n\r\n");
    assert_eq!(resp.status, 201);
    assert_eq!(resp.body, "other");
    let resp = dispatch(&r, "GET /d HTTP/1.1");
    assert_eq!(resp.status, 299);
    assert_eq!(resp.body, "GET /d HTTP/1.1");
}

#[test]
fn unregistered_get_is_404() {
    let r = router_with(&[("/a", other)]);
    let resp = dispatch(&r, "GET /a/ HTTP/1.1\r\n\r\n");
    assert_eq!(resp.status, 404);
    assert_eq!(resp.body, "");
    let resp = dispatch(&r, "GET /a?x=1 HTTP/1.0\r\n\r\n");
    assert_eq!(resp.status, 404);
}

#[test]
fn unsupported_method_is_400() {
    let r = router_with(&[("/a", other)]);
    for m in ["PUT", "DELETE", "get", "HEAD"] {
        let raw = format!("{} /a HTTP/1.1\r\n\r\n", m);
        let resp = dispatch(&r, &raw);
        assert_eq!(resp.status, 400);
        assert!(resp.body.contains(&format!("Unsupported method: {}", m)));
        assert_eq!(resp.body, format!("Badly formatted request: {}, error: Unsupported method: {}", raw, m));
    }
}

#[test]
fn unsupported_version_is_400() {
    let r = router_with(&[("/x", other)]);
    for v in ["HTTP/2.0", "HTTP/1.2", "http/1.1"] {
        let raw = format!("GET /x {}\r\n\r\n", v);
        let resp = dispatch(&r, &raw);
        assert_eq!(resp.status, 400);
        assert!(resp.body.ends_with(&format!("but got {}", v)));
    }
}

#[test]
fn missing_tokens_are_errors() {
    assert!(matches!(parse_request_line(""), Err(ParseError::MethodMissing)));
    assert!(matches!(parse_request_line("   \r\n"), Err(ParseError::MethodMissing)));
    assert!(matches!(parse_request_line("GET"), Err(ParseError::UriMissing)));
    assert!(matches!(parse_request_line("GET /x\r\nHTTP/1.1"), Err(ParseError::VersionMissing)));
    match parse_request_line("PATCH /x HTTP/1.1") {
        Err(ParseError::UnsupportedMethod(m)) => assert_eq!(m, "PATCH"),
        _ => panic!("expected an unsupported method"),
    }
    match parse_request_line("GET /x HTTP/3") {
        Err(e) => assert_eq!(e.message(), "Unsupported HTTP version, only support HTTP/1.0 and HTTP/1.1, but got HTTP/3"),
        Ok(_) => panic!("expected an unsupported version"),
    }
    assert_eq!(ParseError::MethodMissing.message(), "Method not specified");
    assert_eq!(ParseError::UriMissing.message(), "URI not specified");
    assert_eq!(ParseError::VersionMissing.message(), "HTTP version not specified");
}

#[test]
fn parse_fields() {
    let req = parse_request_line("GET  /p?q=1\tHTTP/1.0 extra\r\n\r\nbody").unwrap();
    assert_eq!(req.method, RequestMethod::GET);
    assert_eq!(req.uri, "/p?q=1");
    assert_eq!(req.http_version, "HTTP/1.0");
    assert!(req.body.is_none());
    assert_eq!(req.to_string(), "GET /p?q=1 HTTP/1.0");
}

#[test]
fn post_body_joins_lines() {
    let req = parse_request_line("POST /h HTTP/1.1\r\nHost: a\r\n\r\nline1\r\nline2\r\n").unwrap();
    assert_eq!(req.method, RequestMethod::POST);
    assert_eq!(req.body.as_deref(), Some("line1line2"));
    let req = parse_request_line("POST /h HTTP/1.1\r\nHost: a").unwrap();
    assert_eq!(req.body.as_deref(), Some(""));
    let req = parse_request_line("POST /h HTTP/1.1\r\n\r\n\r\nx").unwrap();
    assert_eq!(req.body.as_deref(), Some("x"));
}

#[test]
fn method_from_token() {
    assert_eq!(RequestMethod::from("POST"), RequestMethod::POST);
    assert_eq!(RequestMethod::from("GET"), RequestMethod::GET);
    assert_eq!(RequestMethod::from("post"), RequestMethod::GET);
    assert_eq!(RequestMethod::POST.as_str(), "POST");
}

#[test]
fn register_twice_overwrites_and_warns() {
    let mut r: Router<Handler> = Router::new();
    r.register("/p", hello);
    assert!(r.overwritten().is_empty());
    let again = r.register("/p", other);
    assert_eq!(again.overwritten().len(), 1);
    assert_eq!(r.overwritten(), &vec!["/p".to_string()]);
    let resp = dispatch(&r, "GET /p HTTP/1.1\r\n\r\n");
    assert_eq!(resp.status, 201);
    assert_eq!(resp.body, "other");
    assert!(r.get("/p").is_some());
    assert!(r.get("/q").is_none());
}

#[test]
fn invalid_utf8_is_400() {
    let r = router_with(&[("/a", other)]);
    let out = handle_request(&r, &[b'G', b'E', b'T', b' ', 0xff, 0xfe]);
    assert_eq!(String::from_utf8(out).unwrap(), "HTTP/1.1 400 OK\r\n\r\nBadly formatted request: not valid UTF-8 text");
}

#[test]
fn utf8_request_is_decoded() {
    let r = router_with(&[("/caf\u{e9}", other)]);
    assert_eq!(wire(&r, "GET /caf\u{e9} HTTP/1.1\r\n\r\n"), "HTTP/1.1 201 OK\r\n\r\nother");
}

#[test]
fn request_buffer_reads_until_short_read() {
    let mut b = RequestBuffer::new();
    let full = vec![b'a'; CHUNK_SIZE];
    assert!(b.push_chunk(&full));
    assert!(!b.push_chunk(b"xyz"));
    assert_eq!(b.as_slice().len(), CHUNK_SIZE + 3);
    assert_eq!(&b.as_slice()[CHUNK_SIZE..], b"xyz");
    let mut c = RequestBuffer::new();
    assert!(!c.push_chunk(&[]));
}

#[test]
fn request_buffer_stops_at_limit() {
    let mut b = RequestBuffer::new();
    let full = vec![b'a'; CHUNK_SIZE];
    let mut reads = 0;
    while b.push_chunk(&full) {
        reads += 1;
    }
    assert_eq!(reads + 1, MAX_REQUEST_BYTES / CHUNK_SIZE);
    assert_eq!(b.as_slice().len(), MAX_REQUEST_BYTES);
}

#[test]
fn web_server_builder() {
    let s: WebServer<Handler> = WebServer::new();
    assert_eq!(s.host(), "127.0.0.1");
    assert_eq!(s.port(), 8080);
    assert_eq!(s.address(), "127.0.0.1:8080");
    let s = s.bind("0.0.0.0".to_string(), 3000).route("/hello", hello).route("/hello", other);
    assert_eq!(s.address(), "0.0.0.0:3000");
    assert_eq!(s.router().overwritten(), &vec!["/hello".to_string()]);
    assert_eq!(wire(s.router(), "GET /hello HTTP/1.1\r\n\r\n"), "HTTP/1.1 201 OK\r\n\r\nother");
}
