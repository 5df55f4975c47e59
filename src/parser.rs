use vstd::prelude::*;
use crate::text::{is_ws, is_ws_char, chars_of, push_text};
use crate::types::{Request, RequestMethod, RequestView, method_of};

verus! {

/// Why a request could not be parsed.
#[derive(Debug)]
pub enum ParseError {
    MethodMissing,
    UnsupportedMethod(String),
    UriMissing,
    VersionMissing,
    UnsupportedVersion(String),
}

/// A parse error as mathematical values.
pub enum ParseErrorView {
    MethodMissing,
    UnsupportedMethod(Seq<char>),
    UriMissing,
    VersionMissing,
    UnsupportedVersion(Seq<char>),
}

impl View for ParseError {
    type V = ParseErrorView;

    open spec fn view(&self) -> ParseErrorView {
        match self {
            ParseError::MethodMissing => ParseErrorView::MethodMissing,
            ParseError::UnsupportedMethod(m) => ParseErrorView::UnsupportedMethod(m@),
            ParseError::UriMissing => ParseErrorView::UriMissing,
            ParseError::VersionMissing => ParseErrorView::VersionMissing,
            ParseError::UnsupportedVersion(v) => ParseErrorView::UnsupportedVersion(v@),
        }
    }
}

/// The description of a parse error.
pub open spec fn error_text(e: ParseErrorView) -> Seq<char> {
    match e {
        ParseErrorView::MethodMissing => "Method not specified"@,
        ParseErrorView::UnsupportedMethod(m) => "Unsupported method: "@ + m,
        ParseErrorView::UriMissing => "URI not specified"@,
        ParseErrorView::VersionMissing => "HTTP version not specified"@,
        ParseErrorView::UnsupportedVersion(v) => "Unsupported HTTP version, only support HTTP/1.0 and HTTP/1.1, but got "@
            + v,
    }
}

impl ParseError {
    pub fn message(&self) -> (r: String)
        ensures
            r@ == error_text(self@),
    {
        let mut s = String::new();
        match self {
            ParseError::MethodMissing => push_text(&mut s, "Method not specified"),
            ParseError::UnsupportedMethod(m) => {
                push_text(&mut s, "Unsupported method: ");
                push_text(&mut s, m.as_str());
            },
            ParseError::UriMissing => push_text(&mut s, "URI not specified"),
            ParseError::VersionMissing => push_text(&mut s, "HTTP version not specified"),
            ParseError::UnsupportedVersion(v) => {
                push_text(
                    &mut s,
                    "Unsupported HTTP version, only support HTTP/1.0 and HTTP/1.1, but got ",
                );
                push_text(&mut s, v.as_str());
            },
        }
        s
    }
}

/// The end of the run that starts at `i` of characters whose whitespace-ness
/// is `ws`.
pub open spec fn run_end(t: Seq<char>, i: int, ws: bool) -> int
    decreases t.len() - i,
{
    if 0 <= i < t.len() && is_ws(t[i]) == ws {
        run_end(t, i + 1, ws)
    } else {
        i
    }
}

/// The index of the first line feed at or after `i`, or the length.
pub open spec fn line_end_from(s: Seq<char>, i: int) -> int
    decreases s.len() - i,
{
    if 0 <= i < s.len() && s[i] != '\n' {
        line_end_from(s, i + 1)
    } else {
        i
    }
}

/// The request line: everything before the first line feed.
pub open spec fn request_line(s: Seq<char>) -> Seq<char> {
    s.take(line_end_from(s, 0))
}

/// Start and end of the first whitespace-separated token at or after `i`.
pub open spec fn token_span(t: Seq<char>, i: int) -> Option<(int, int)> {
    let start = run_end(t, i, true);
    if start < t.len() {
        Some((start, run_end(t, start, false)))
    } else {
        None
    }
}

/// The span of the token after the one at `prev`.
pub open spec fn span_after(t: Seq<char>, prev: Option<(int, int)>) -> Option<(int, int)> {
    match prev {
        Some(p) => token_span(t, p.1),
        None => None,
    }
}

/// The span of token `n` (0, 1 or 2) of the request line of `s`.
pub open spec fn nth_span(s: Seq<char>, n: nat) -> Option<(int, int)> {
    let t = request_line(s);
    let s0 = token_span(t, 0);
    if n == 0 {
        s0
    } else if n == 1 {
        span_after(t, s0)
    } else {
        span_after(t, span_after(t, s0))
    }
}

/// Token `n` (0, 1 or 2) of the request line of `s`.
pub open spec fn nth_token(s: Seq<char>, n: nat) -> Option<Seq<char>> {
    match nth_span(s, n) {
        Some(p) => Some(s.subrange(p.0, p.1)),
        None => None,
    }
}

/// A line break `\r\n` starts at `i`.
pub open spec fn crlf_at(s: Seq<char>, i: int) -> bool {
    0 <= i && i + 1 < s.len() && s[i] == '\r' && s[i + 1] == '\n'
}

/// An empty line starts at `i`: a line break that starts the text or follows
/// another line break.
pub open spec fn blank_line_at(s: Seq<char>, i: int) -> bool {
    crlf_at(s, i) && (i == 0 || crlf_at(s, i - 2))
}

/// The first empty line at or after `i`, or the length when there is none.
pub open spec fn first_blank_from(s: Seq<char>, i: int) -> int
    decreases s.len() - i,
{
    if 0 <= i < s.len() {
        if blank_line_at(s, i) {
            i
        } else {
            first_blank_from(s, i + 1)
        }
    } else {
        s.len() as int
    }
}

/// The characters from `i` on with every line break removed.
pub open spec fn join_lines_from(s: Seq<char>, i: int) -> Seq<char>
    decreases s.len() - i,
{
    if 0 <= i < s.len() {
        if crlf_at(s, i) {
            join_lines_from(s, i + 2)
        } else {
            seq![s[i]] + join_lines_from(s, i + 1)
        }
    } else {
        Seq::empty()
    }
}

/// The body of a request: the lines from the first empty one on, joined
/// without separators; empty when there is no empty line.
pub open spec fn request_body(s: Seq<char>) -> Seq<char> {
    join_lines_from(s, first_blank_from(s, 0))
}

/// What parsing the request text `s` gives.
pub open spec fn parse_spec(s: Seq<char>) -> Result<RequestView, ParseErrorView> {
    match nth_token(s, 0) {
        None => Err(ParseErrorView::MethodMissing),
        Some(m) => if m != "GET"@ && m != "POST"@ {
            Err(ParseErrorView::UnsupportedMethod(m))
        } else {
            match nth_token(s, 1) {
                None => Err(ParseErrorView::UriMissing),
                Some(u) => match nth_token(s, 2) {
                    None => Err(ParseErrorView::VersionMissing),
                    Some(v) => if v != "HTTP/1.1"@ && v != "HTTP/1.0"@ {
                        Err(ParseErrorView::UnsupportedVersion(v))
                    } else {
                        Ok(
                            RequestView {
                                method: method_of(m),
                                uri: u,
                                http_version: v,
                                body: if m == "POST"@ {
                                    Some(request_body(s))
                                } else {
                                    None
                                },
                            },
                        )
                    },
                },
            }
        },
    }
}

/// The outcome of a parse as mathematical values.
pub open spec fn parse_outcome(r: Result<Request, ParseError>) -> Result<RequestView, ParseErrorView> {
    match r {
        Ok(q) => Ok(q@),
        Err(e) => Err(e@),
    }
}

/// A non-empty run of characters none of which is whitespace.
pub open spec fn is_token(t: Seq<char>) -> bool {
    t.len() > 0 && forall|i: int| 0 <= i < t.len() ==> !is_ws(#[trigger] t[i])
}

proof fn lemma_run_end(t: Seq<char>, i: int, j: int, ws: bool)
    requires
        0 <= i <= j <= t.len(),
        forall|k: int| i <= k < j ==> is_ws(#[trigger] t[k]) == ws,
        j == t.len() || is_ws(t[j]) != ws,
    ensures
        run_end(t, i, ws) == j,
    decreases j - i,
{
    if i < j {
        lemma_run_end(t, i + 1, j, ws);
    }
}

proof fn lemma_line_end_from(s: Seq<char>, i: int, j: int)
    requires
        0 <= i <= j <= s.len(),
        forall|k: int| i <= k < j ==> #[trigger] s[k] != '\n',
    ensures
        j <= line_end_from(s, i) <= s.len(),
    decreases s.len() - i,
{
    if i < s.len() && s[i] != '\n' {
        if i < j {
            lemma_line_end_from(s, i + 1, j);
        } else {
            lemma_line_end_from(s, i + 1, i + 1);
        }
    }
}

/// The request line `m u v`, followed by text that starts with whitespace
/// or by nothing, has the tokens `m`, `u` and `v`.
pub proof fn lemma_three_tokens(m: Seq<char>, u: Seq<char>, v: Seq<char>, rest: Seq<char>)
    requires
        is_token(m),
        is_token(u),
        is_token(v),
        rest.len() == 0 || is_ws(rest[0]),
    ensures
        nth_token(m + " "@ + u + " "@ + v + rest, 0) == Some(m),
        nth_token(m + " "@ + u + " "@ + v + rest, 1) == Some(u),
        nth_token(m + " "@ + u + " "@ + v + rest, 2) == Some(v),
{
    reveal_strlit(" ");
    let s = m + " "@ + u + " "@ + v + rest;
    let a = m.len() as int;
    let b = a + 1 + u.len();
    let n = b + 1 + v.len();
    assert(is_ws(' '));
    assert forall|k: int| 0 <= k < a implies #[trigger] s[k] == m[k] by {}
    assert forall|k: int| a < k < b implies #[trigger] s[k] == u[k - a - 1] by {}
    assert forall|k: int| b < k < n implies #[trigger] s[k] == v[k - b - 1] by {}
    assert(s[a] == ' ' && s[b] == ' ');
    assert(rest.len() > 0 ==> s[n] == rest[0]);
    assert forall|k: int| 0 <= k < n implies #[trigger] s[k] != '\n' by {
        if k < a {
            assert(!is_ws(m[k]));
        } else if a < k < b {
            assert(!is_ws(u[k - a - 1]));
        } else if b < k < n {
            assert(!is_ws(v[k - b - 1]));
        }
    }
    lemma_line_end_from(s, 0, n);
    let t = request_line(s);
    assert forall|k: int| 0 <= k < t.len() implies #[trigger] t[k] == s[k] by {}
    assert(!is_ws(t[0])) by {
        assert(!is_ws(m[0]));
    }
    lemma_run_end(t, 0, 0, true);
    assert forall|k: int| 0 <= k < a implies is_ws(#[trigger] t[k]) == false by {
        assert(!is_ws(m[k]));
    }
    lemma_run_end(t, 0, a, false);
    assert(!is_ws(t[a + 1])) by {
        assert(!is_ws(u[0]));
    }
    lemma_run_end(t, a, a + 1, true);
    assert forall|k: int| a + 1 <= k < b implies is_ws(#[trigger] t[k]) == false by {
        assert(!is_ws(u[k - a - 1]));
    }
    lemma_run_end(t, a + 1, b, false);
    assert(!is_ws(t[b + 1])) by {
        assert(!is_ws(v[0]));
    }
    lemma_run_end(t, b, b + 1, true);
    assert forall|k: int| b + 1 <= k < n implies is_ws(#[trigger] t[k]) == false by {
        assert(!is_ws(v[k - b - 1]));
    }
    lemma_run_end(t, b + 1, n, false);
    assert(s.subrange(0, a) =~= m);
    assert(s.subrange(a + 1, b) =~= u);
    assert(s.subrange(b + 1, n) =~= v);
}

fn line_end(cs: &Vec<char>) -> (e: usize)
    ensures
        e == line_end_from(cs@, 0),
        e <= cs.len(),
{
    let mut i: usize = 0;
    while i < cs.len() && cs[i] != '\n'
        invariant
            i <= cs.len(),
            line_end_from(cs@, i as int) == line_end_from(cs@, 0),
        decreases cs.len() - i,
    {
        i = i + 1;
    }
    i
}

fn scan_run(cs: &Vec<char>, i: usize, end: usize, ws: bool) -> (r: usize)
    requires
        i <= end <= cs.len(),
    ensures
        r == run_end(cs@.take(end as int), i as int, ws),
        i <= r <= end,
        r < end ==> is_ws(cs@[r as int]) != ws,
{
    let ghost t = cs@.take(end as int);
    let mut j = i;
    while j < end && is_ws_char(cs[j]) == ws
        invariant
            i <= j <= end,
            end <= cs.len(),
            t == cs@.take(end as int),
            run_end(t, j as int, ws) == run_end(t, i as int, ws),
        decreases end - j,
    {
        j = j + 1;
    }
    j
}

fn next_span(cs: &Vec<char>, i: usize, end: usize) -> (r: Option<(usize, usize)>)
    requires
        i <= end <= cs.len(),
    ensures
        match token_span(cs@.take(end as int), i as int) {
            Some(p) => r == Some((p.0 as usize, p.1 as usize)) && i <= p.0 < p.1 <= end,
            None => r is None,
        },
{
    let a = scan_run(cs, i, end, true);
    if a < end {
        let b = scan_run(cs, a, end, false);
        Some((a, b))
    } else {
        None
    }
}

/// The body of the request text `cs`: see `request_body`.
fn extract_body(cs: &Vec<char>) -> (r: String)
    ensures
        r@ == request_body(cs@),
{
    let mut p: usize = 0;
    while p < cs.len() && !(p + 1 < cs.len() && cs[p] == '\r' && cs[p + 1] == '\n' && (p == 0 || (
    p >= 2 && cs[p - 2] == '\r' && cs[p - 1] == '\n')))
        invariant
            p <= cs.len(),
            first_blank_from(cs@, p as int) == first_blank_from(cs@, 0),
        decreases cs.len() - p,
    {
        p = p + 1;
    }
    let ghost start = p as int;
    let mut r = String::new();
    let mut i = p;
    while i < cs.len()
        invariant
            start <= i <= cs.len(),
            start == first_blank_from(cs@, 0),
            r@ + join_lines_from(cs@, i as int) == join_lines_from(cs@, start),
        decreases cs.len() - i,
    {
        if i + 1 < cs.len() && cs[i] == '\r' && cs[i + 1] == '\n' {
            i = i + 2;
        } else {
            let ghost before = r@;
            r.push(cs[i]);
            assert(r@ + join_lines_from(cs@, i + 1) =~= before + (seq![cs@[i as int]]
                + join_lines_from(cs@, i + 1)));
            i = i + 1;
        }
    }
    assert(r@ =~= r@ + join_lines_from(cs@, i as int));
    r
}

/// Parses request text: the method, URI and version tokens of its first line
/// and, for `POST`, the body.
pub fn parse_request_line(request: &str) -> (r: Result<Request, ParseError>)
    ensures
        parse_outcome(r) == parse_spec(request@),
{
    let cs = chars_of(request);
    let end = line_end(&cs);
    let ghost t = cs@.take(end as int);
    assert(t == request_line(request@));
    let (a0, b0) = match next_span(&cs, 0, end) {
        Some(p) => p,
        None => {
            return Err(ParseError::MethodMissing);
        },
    };
    let method_s = request.substring_char(a0, b0).to_owned();
    assert(nth_token(request@, 0) == Some(method_s@));
    let is_get = method_s == "GET".to_owned();
    let is_post = method_s == "POST".to_owned();
    if !is_get && !is_post {
        return Err(ParseError::UnsupportedMethod(method_s));
    }
    let (a1, b1) = match next_span(&cs, b0, end) {
        Some(p) => p,
        None => {
            return Err(ParseError::UriMissing);
        },
    };
    let uri = request.substring_char(a1, b1).to_owned();
    assert(nth_token(request@, 1) == Some(uri@));
    let method = RequestMethod::from(method_s.as_str());
    let (a2, b2) = match next_span(&cs, b1, end) {
        Some(p) => p,
        None => {
            return Err(ParseError::VersionMissing);
        },
    };
    let http_version = request.substring_char(a2, b2).to_owned();
    assert(nth_token(request@, 2) == Some(http_version@));
    if !(http_version == "HTTP/1.1".to_owned()) && !(http_version == "HTTP/1.0".to_owned()) {
        return Err(ParseError::UnsupportedVersion(http_version));
    }
    let body = if is_post {
        Some(extract_body(&cs))
    } else {
        None
    };
    Ok(Request { method, uri, http_version, body })
}

} // verus!
