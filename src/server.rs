use vstd::prelude::*;
use vstd::utf8::{valid_utf8, decode_utf8, encode_utf8, encode_utf8_decode_utf8};
use crate::text::{decimal, push_decimal, push_text};
use crate::types::{Request, Response};
use crate::parser::{ParseErrorView, error_text, parse_spec, parse_request_line, is_token, lemma_three_tokens};
use crate::text::is_ws;
use crate::types::{RequestMethod, RequestView};
use crate::router::{Router, registered, warnings_after};

verus! {

/// Relies on `std::str::from_utf8`: it succeeds exactly on valid UTF-8, and
/// the text it returns is made of the given bytes.
#[verifier::external_body]
fn decode_text(bytes: &[u8]) -> (r: Option<&str>)
    ensures
        r is Some <==> valid_utf8(bytes@),
        r is Some ==> encode_utf8(r->Some_0@) == bytes@,
{
    std::str::from_utf8(bytes).ok()
}

/// The body of the reply to a request that could not be parsed.
pub open spec fn bad_request_text(raw: Seq<char>, e: ParseErrorView) -> Seq<char> {
    "Badly formatted request: "@ + raw + ", error: "@ + error_text(e)
}

/// The body of the reply to a request that is not UTF-8 text.
pub open spec fn invalid_text_body() -> Seq<char> {
    "Badly formatted request: not valid UTF-8 text"@
}

/// Every handler of the table accepts every request.
pub open spec fn handlers_ready<H: Fn(Request) -> Response>(routes: Map<Seq<char>, H>) -> bool {
    forall|k: Seq<char>, req: Request|
        routes.contains_key(k) ==> #[trigger] call_requires(routes[k], (req,))
}

/// `resp` is the reply to the request text `raw` under the route table
/// `routes`: what the handler of the request's path returns for the parsed
/// request; 404 with an empty body when no handler has that path; 400 with a
/// description of the text and the error when it does not parse.
pub open spec fn answers<H: Fn(Request) -> Response>(
    routes: Map<Seq<char>, H>,
    raw: Seq<char>,
    resp: Response,
) -> bool {
    match parse_spec(raw) {
        Ok(rv) => if routes.contains_key(rv.uri) {
            exists|req: Request| req@ == rv && call_ensures(routes[rv.uri], (req,), resp)
        } else {
            resp.status == 404 && resp.body@ == Seq::<char>::empty()
        },
        Err(e) => resp.status == 400 && resp.body@ == bad_request_text(raw, e),
    }
}

/// The wire form of a reply: a fixed status line that always reads `OK`,
/// an empty line, then the body; no headers.
pub open spec fn wire(status: u16, body: Seq<char>) -> Seq<char> {
    "HTTP/1.1 "@ + decimal(status as nat) + " OK\r\n\r\n"@ + body
}

/// Parses the request text, resolves its path and produces the reply.
pub fn dispatch<H: Fn(Request) -> Response>(router: &Router<H>, request: &str) -> (r: Response)
    requires
        router.wf(),
        handlers_ready(router.view()),
    ensures
        answers(router.view(), request@, r),
{
    match parse_request_line(request) {
        Ok(req) => {
            match router.get(req.uri.as_str()) {
                Some(h) => {
                    let ghost rq = req;
                    assert(call_requires(router.view()[req.uri@], (req,)));
                    let resp = h(req);
                    assert(rq@ == parse_spec(request@)->Ok_0 && call_ensures(
                        router.view()[rq.uri@],
                        (rq,),
                        resp,
                    ));
                    resp
                },
                None => Response { status: 404, body: String::new() },
            }
        },
        Err(e) => {
            let mut body = String::new();
            push_text(&mut body, "Badly formatted request: ");
            push_text(&mut body, request);
            push_text(&mut body, ", error: ");
            let m = e.message();
            push_text(&mut body, m.as_str());
            assert(body@ =~= bad_request_text(request@, e@));
            Response { status: 400, body }
        },
    }
}

/// The wire form of a reply.
pub fn format_response(response: &Response) -> (r: String)
    ensures
        r@ == wire(response.status, response.body@),
{
    let mut s = String::new();
    push_text(&mut s, "HTTP/1.1 ");
    push_decimal(&mut s, response.status as u64);
    push_text(&mut s, " OK\r\n\r\n");
    push_text(&mut s, response.body.as_str());
    assert(s@ =~= wire(response.status, response.body@));
    s
}

/// The bytes to send back for the request bytes `raw`: the wire form of the
/// reply to the decoded text, or of a 400 reply when `raw` is not UTF-8.
pub fn handle_request<H: Fn(Request) -> Response>(router: &Router<H>, raw: &[u8]) -> (r: Vec<u8>)
    requires
        router.wf(),
        handlers_ready(router.view()),
    ensures
        valid_utf8(raw@) ==> exists|resp: Response|
            answers(router.view(), decode_utf8(raw@), resp) && r@ == encode_utf8(
                wire(resp.status, resp.body@),
            ),
        !valid_utf8(raw@) ==> r@ == encode_utf8(wire(400, invalid_text_body())),
{
    match decode_text(raw) {
        Some(text) => {
            proof {
                encode_utf8_decode_utf8(text@);
            }
            let resp = dispatch(router, text);
            let out = format_response(&resp);
            let bytes = out.as_str().as_bytes_vec();
            assert(answers(router.view(), decode_utf8(raw@), resp));
            bytes
        },
        None => {
            let mut body = String::new();
            push_text(&mut body, "Badly formatted request: not valid UTF-8 text");
            let resp = Response { status: 400, body };
            let out = format_response(&resp);
            out.as_str().as_bytes_vec()
        },
    }
}

/// `text` holds `part` somewhere.
pub open spec fn mentions(text: Seq<char>, part: Seq<char>) -> bool {
    exists|i: int| 0 <= i && i + part.len() <= text.len() && #[trigger] text.subrange(i, i + part.len()) == part
}

proof fn lemma_mentions_suffix(front: Seq<char>, part: Seq<char>)
    ensures
        mentions(front + part, part),
{
    let text = front + part;
    assert(text.subrange(front.len() as int, (front.len() + part.len()) as int) =~= part);
}

proof fn lemma_literal_tokens()
    ensures
        is_token("GET"@),
        is_token("HTTP/1.1"@),
        "GET"@ != "POST"@,
        "HTTP/1.1"@ != "HTTP/1.0"@,
{
    reveal_strlit("GET");
    reveal_strlit("POST");
    reveal_strlit("HTTP/1.1");
    reveal_strlit("HTTP/1.0");
    assert("GET"@[0] != "POST"@[0]);
    assert("HTTP/1.1"@[7] != "HTTP/1.0"@[7]);
}

/// A request whose first line is `GET P HTTP/1.1`, for a registered path P,
/// is answered with exactly what P's handler returns for the request
/// (`GET`, P, `HTTP/1.1`, no body).
pub proof fn lemma_registered_get<H: Fn(Request) -> Response>(
    routes: Map<Seq<char>, H>,
    path: Seq<char>,
    rest: Seq<char>,
    resp: Response,
)
    requires
        is_token(path),
        rest.len() == 0 || is_ws(rest[0]),
        routes.contains_key(path),
    ensures
        answers(routes, "GET"@ + " "@ + path + " "@ + "HTTP/1.1"@ + rest, resp) <==> exists|req: Request|
            req@ == (RequestView {
                method: RequestMethod::GET,
                uri: path,
                http_version: "HTTP/1.1"@,
                body: None,
            }) && call_ensures(routes[path], (req,), resp),
{
    lemma_literal_tokens();
    lemma_three_tokens("GET"@, path, "HTTP/1.1"@, rest);
}

/// A request whose first line is `GET P HTTP/1.1`, for a path P that is not
/// registered, is answered with 404 and an empty body.
pub proof fn lemma_unregistered_get<H: Fn(Request) -> Response>(
    routes: Map<Seq<char>, H>,
    path: Seq<char>,
    rest: Seq<char>,
    resp: Response,
)
    requires
        is_token(path),
        rest.len() == 0 || is_ws(rest[0]),
        !routes.contains_key(path),
    ensures
        answers(routes, "GET"@ + " "@ + path + " "@ + "HTTP/1.1"@ + rest, resp) <==> (resp.status
            == 404 && resp.body@ == Seq::<char>::empty()),
{
    lemma_literal_tokens();
    lemma_three_tokens("GET"@, path, "HTTP/1.1"@, rest);
}

/// A request whose first line is `M U HTTP/1.1`, for a method token M other
/// than `GET` and `POST`, is answered with 400 and a body that names M.
pub proof fn lemma_unsupported_method<H: Fn(Request) -> Response>(
    routes: Map<Seq<char>, H>,
    method: Seq<char>,
    uri: Seq<char>,
    rest: Seq<char>,
    resp: Response,
)
    requires
        is_token(method),
        is_token(uri),
        method != "GET"@,
        method != "POST"@,
        rest.len() == 0 || is_ws(rest[0]),
    ensures
        ({
            let raw = method + " "@ + uri + " "@ + "HTTP/1.1"@ + rest;
            answers(routes, raw, resp) <==> (resp.status == 400 && resp.body@ == bad_request_text(
                raw,
                ParseErrorView::UnsupportedMethod(method),
            ))
        }),
        answers(routes, method + " "@ + uri + " "@ + "HTTP/1.1"@ + rest, resp) ==> mentions(
            resp.body@,
            method,
        ),
{
    let raw = method + " "@ + uri + " "@ + "HTTP/1.1"@ + rest;
    lemma_literal_tokens();
    lemma_three_tokens(method, uri, "HTTP/1.1"@, rest);
    let e = ParseErrorView::UnsupportedMethod(method);
    assert(bad_request_text(raw, e) =~= ("Badly formatted request: "@ + raw + ", error: "@
        + "Unsupported method: "@) + method);
    lemma_mentions_suffix(
        "Badly formatted request: "@ + raw + ", error: "@ + "Unsupported method: "@,
        method,
    );
}

/// A request whose first line is `GET /x V`, for a version token V other
/// than `HTTP/1.0` and `HTTP/1.1`, is answered with 400 and a body that
/// names V.
pub proof fn lemma_unsupported_version<H: Fn(Request) -> Response>(
    routes: Map<Seq<char>, H>,
    version: Seq<char>,
    rest: Seq<char>,
    resp: Response,
)
    requires
        is_token(version),
        version != "HTTP/1.0"@,
        version != "HTTP/1.1"@,
        rest.len() == 0 || is_ws(rest[0]),
    ensures
        ({
            let raw = "GET"@ + " "@ + "/x"@ + " "@ + version + rest;
            answers(routes, raw, resp) <==> (resp.status == 400 && resp.body@ == bad_request_text(
                raw,
                ParseErrorView::UnsupportedVersion(version),
            ))
        }),
        answers(routes, "GET"@ + " "@ + "/x"@ + " "@ + version + rest, resp) ==> mentions(
            resp.body@,
            version,
        ),
{
    let raw = "GET"@ + " "@ + "/x"@ + " "@ + version + rest;
    lemma_literal_tokens();
    reveal_strlit("/x");
    assert(is_token("/x"@));
    lemma_three_tokens("GET"@, "/x"@, version, rest);
    let e = ParseErrorView::UnsupportedVersion(version);
    let lead = "Badly formatted request: "@ + raw + ", error: "@
        + "Unsupported HTTP version, only support HTTP/1.0 and HTTP/1.1, but got "@;
    assert(bad_request_text(raw, e) =~= lead + version);
    lemma_mentions_suffix(lead, version);
}

/// The size of one read from a connection.
pub const CHUNK_SIZE: usize = 1024;

/// Reading stops once this many bytes of a request have arrived.
pub const MAX_REQUEST_BYTES: usize = 1048576;

/// The bytes of one request as they arrive in chunks. Reading goes on while
/// each read fills a whole chunk (a shorter read ends the request) and the
/// request is under `MAX_REQUEST_BYTES`.
pub struct RequestBuffer {
    bytes: Vec<u8>,
}

impl View for RequestBuffer {
    type V = Seq<u8>;

    closed spec fn view(&self) -> Seq<u8> {
        self.bytes@
    }
}

impl RequestBuffer {
    pub fn new() -> (r: Self)
        ensures
            r@ == Seq::<u8>::empty(),
    {
        RequestBuffer { bytes: Vec::new() }
    }

    /// Appends the bytes of one read; returns whether to read again.
    pub fn push_chunk(&mut self, chunk: &[u8]) -> (more: bool)
        ensures
            final(self)@ == old(self)@ + chunk@,
            more == (chunk@.len() >= CHUNK_SIZE && final(self)@.len() < MAX_REQUEST_BYTES),
    {
        let mut i: usize = 0;
        while i < chunk.len()
            invariant
                i <= chunk@.len(),
                self@ == old(self)@ + chunk@.take(i as int),
            decreases chunk.len() - i,
        {
            self.bytes.push(chunk[i]);
            assert(self@ =~= old(self)@ + chunk@.take(i + 1));
            i = i + 1;
        }
        assert(chunk@.take(i as int) =~= chunk@);
        chunk.len() >= CHUNK_SIZE && self.bytes.len() < MAX_REQUEST_BYTES
    }

    /// The bytes received so far.
    pub fn as_slice(&self) -> (r: &[u8])
        ensures
            r@ == self@,
    {
        self.bytes.as_slice()
    }
}

/// A server configuration: the listen address and the route table.
pub struct WebServer<H> {
    router: Router<H>,
    host: String,
    port: u16,
}

impl<H> WebServer<H> {
    pub closed spec fn wf(&self) -> bool {
        self.router.wf()
    }

    /// The route table.
    pub closed spec fn routes(&self) -> Map<Seq<char>, H> {
        self.router.view()
    }

    /// The paths that were registered again, in order.
    pub closed spec fn warnings(&self) -> Seq<Seq<char>> {
        self.router.warnings()
    }

    pub closed spec fn host_view(&self) -> Seq<char> {
        self.host@
    }

    pub closed spec fn port_view(&self) -> u16 {
        self.port
    }

    /// No routes, listening on 127.0.0.1:8080.
    pub fn new() -> (r: Self)
        ensures
            r.wf(),
            r.routes() == Map::<Seq<char>, H>::empty(),
            r.warnings() == Seq::<Seq<char>>::empty(),
            r.host_view() == "127.0.0.1"@,
            r.port_view() == 8080,
    {
        WebServer { router: Router::new(), host: "127.0.0.1".to_owned(), port: 8080 }
    }

    /// Sets the listen address.
    pub fn bind(self, host: String, port: u16) -> (r: Self)
        ensures
            r.wf() == self.wf(),
            r.routes() == self.routes(),
            r.warnings() == self.warnings(),
            r.host_view() == host@,
            r.port_view() == port,
    {
        WebServer { router: self.router, host, port }
    }

    /// Registers `service` for the path `name`, replacing an earlier one.
    pub fn route(self, name: &str, service: H) -> (r: Self)
        requires
            self.wf(),
        ensures
            r.wf(),
            r.routes() == registered(self.routes(), name@, service),
            r.warnings() == warnings_after(self.routes(), self.warnings(), name@),
            r.host_view() == self.host_view(),
            r.port_view() == self.port_view(),
    {
        let mut s = self;
        s.router.register(name, service);
        s
    }

    /// The route table.
    pub fn router(&self) -> (r: &Router<H>)
        ensures
            r.wf() == self.wf(),
            r.view() == self.routes(),
            r.warnings() == self.warnings(),
    {
        &self.router
    }

    /// The host to listen on.
    pub fn host(&self) -> (r: &String)
        ensures
            r@ == self.host_view(),
    {
        &self.host
    }

    /// The port to listen on.
    pub fn port(&self) -> (r: u16)
        ensures
            r == self.port_view(),
    {
        self.port
    }

    /// The listen address as `host:port`.
    pub fn address(&self) -> (r: String)
        ensures
            r@ == self.host_view() + ":"@ + decimal(self.port_view() as nat),
    {
        let mut s = String::new();
        push_text(&mut s, self.host.as_str());
        push_text(&mut s, ":");
        push_decimal(&mut s, self.port as u64);
        assert(s@ =~= self.host_view() + ":"@ + decimal(self.port_view() as nat));
        s
    }
}

} // verus!
