use vstd::prelude::*;
use crate::text::push_text;

verus! {

/// The request methods the server accepts.
#[derive(Debug, Clone, Copy, PartialEq, Eq, Structural)]
pub enum RequestMethod {
    GET,
    POST,
}

/// The method that a method token names: `POST` for `"POST"`, `GET` otherwise.
pub open spec fn method_of(token: Seq<char>) -> RequestMethod {
    if token == "POST"@ {
        RequestMethod::POST
    } else {
        RequestMethod::GET
    }
}

/// The token that names a method.
pub open spec fn method_name(m: RequestMethod) -> Seq<char> {
    match m {
        RequestMethod::GET => "GET"@,
        RequestMethod::POST => "POST"@,
    }
}

impl RequestMethod {
    /// `POST` for the token `"POST"`, `GET` for any other.
    pub fn from(s: &str) -> (r: RequestMethod)
        ensures
            r == method_of(s@),
    {
        if s.to_owned() == "POST".to_owned() {
            return RequestMethod::POST;
        }
        RequestMethod::GET
    }

    /// The method's token.
    pub fn as_str(&self) -> (r: &'static str)
        ensures
            r@ == method_name(*self),
    {
        match self {
            RequestMethod::GET => "GET",
            RequestMethod::POST => "POST",
        }
    }
}

/// A parsed client request.
pub struct Request {
    pub method: RequestMethod,
    pub uri: String,
    pub http_version: String,
    /// Present for `POST` requests only.
    pub body: Option<String>,
}

/// What a request holds, as mathematical values.
pub struct RequestView {
    pub method: RequestMethod,
    pub uri: Seq<char>,
    pub http_version: Seq<char>,
    pub body: Option<Seq<char>>,
}

pub open spec fn opt_text(o: Option<String>) -> Option<Seq<char>> {
    match o {
        Some(s) => Some(s@),
        None => None,
    }
}

impl View for Request {
    type V = RequestView;

    open spec fn view(&self) -> RequestView {
        RequestView {
            method: self.method,
            uri: self.uri@,
            http_version: self.http_version@,
            body: opt_text(self.body),
        }
    }
}

/// The one-line description of a request: method, URI and version,
/// separated by single spaces.
pub open spec fn request_summary(r: RequestView) -> Seq<char> {
    method_name(r.method) + " "@ + r.uri + " "@ + r.http_version
}

impl Request {
    /// Method, URI and version, separated by single spaces.
    pub fn to_string(&self) -> (r: String)
        ensures
            r@ == request_summary(self@),
    {
        let mut s = String::new();
        push_text(&mut s, self.method.as_str());
        push_text(&mut s, " ");
        push_text(&mut s, self.uri.as_str());
        push_text(&mut s, " ");
        push_text(&mut s, self.http_version.as_str());
        s
    }
}

/// A handler's reply.
pub struct Response {
    pub status: u16,
    pub body: String,
}

} // verus!
