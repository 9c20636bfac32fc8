use crate::words::{split_whitespace, words};
use vstd::prelude::*;
use vstd::string::*;

verus! {

/// The mathematical value of a [`Request`]: its two texts as sequences of characters.
pub struct RequestView {
    pub method: Seq<char>,
    pub route: Seq<char>,
}

/// The part of a request line that the server acts on.
#[derive(Debug, Clone, PartialEq, Eq)]
pub struct Request {
    pub method: String,
    pub route: String,
}

impl View for Request {
    type V = RequestView;

    open spec fn view(&self) -> RequestView {
        RequestView { method: self.method@, route: self.route@ }
    }
}

/// The request that stands in where no usable request line was received: `GET /`.
pub open spec fn default_request() -> RequestView {
    RequestView { method: "GET"@, route: "/"@ }
}

/// The request that a request line asks for. The first word is the method and
/// the second the route; a line of fewer than two words gives the default request.
pub open spec fn request_of_line(line: Seq<char>) -> RequestView {
    let w = words(line);
    if w.len() >= 2 {
        RequestView { method: w[0], route: w[1] }
    } else {
        default_request()
    }
}

/// The request that a header block asks for: that of its first line, or the
/// default request where the block holds no line at all.
pub open spec fn request_of_head(head: Seq<Seq<char>>) -> RequestView {
    if head.len() > 0 {
        request_of_line(head[0])
    } else {
        default_request()
    }
}

impl Request {
    /// The request that stands in where no usable request line was received.
    pub fn default() -> (request: Request)
        ensures
            request@ == default_request(),
    {
        Request { method: String::from_str("GET"), route: String::from_str("/") }
    }
}

/// Reads the method and the route off one request line.
pub fn parse_request_line(line: &str) -> (request: Request)
    ensures
        request@ == request_of_line(line@),
{
    let mut tokens = split_whitespace(line);
    if tokens.len() >= 2 {
        let ghost w = tokens.deep_view();
        let route = tokens.swap_remove(1);
        let method = tokens.swap_remove(0);
        assert(route@ == w[1]);
        assert(method@ == w[0]);
        Request { method, route }
    } else {
        Request::default()
    }
}

/// Reads the request off the lines of a header block, of which only the first
/// counts. Every block gives a request: one without a usable request line
/// gives the default request.
pub fn parse_request(http_request: &Vec<String>) -> (request: Option<Request>)
    ensures
        request matches Some(r) && r@ == request_of_head(http_request.deep_view()),
{
    if http_request.len() > 0 {
        Some(parse_request_line(http_request[0].as_str()))
    } else {
        Some(Request::default())
    }
}

} // verus!
