use crate::decimal::{decimal, decimal_string, decimal_value, lemma_decimal};
use vstd::prelude::*;
use vstd::string::*;
use vstd::utf8::encode_utf8;

verus! {

/// The mathematical value of a [`Response`].
pub struct ResponseView {
    pub status: u16,
    pub content: Seq<u8>,
}

/// What is sent back over a connection: a status code and a body.
#[derive(Debug, Clone, PartialEq, Eq)]
pub struct Response {
    pub status: u16,
    pub content: Vec<u8>,
}

impl View for Response {
    type V = ResponseView;

    open spec fn view(&self) -> ResponseView {
        ResponseView { status: self.status, content: self.content@ }
    }
}

/// The response that refuses a request: status 400 and a fixed body.
pub open spec fn bad_request() -> ResponseView {
    ResponseView { status: 400, content: encode_utf8("<h1>400 Bad Request </h1>"@) }
}

/// The text of the status line for `status`. Only 200 and 404 have lines of
/// their own; every other status is announced as a server error.
pub open spec fn status_line_of(status: u16) -> Seq<char> {
    if status == 200 {
        "HTTP/1.1 200 OK"@
    } else if status == 404 {
        "HTTP/1.1 404 NOT FOUND"@
    } else {
        "HTTP/1.1 500 ERROR"@
    }
}

/// The head of a response with `status` and a body of `length` bytes: the
/// status line, the `Content-Length` header and the blank line that ends the head.
pub open spec fn header_of(status: u16, length: nat) -> Seq<char> {
    status_line_of(status) + "\r\nContent-Length: "@ + decimal(length) + "\r\n\r\n"@
}

/// The bytes that carry `response` over the wire: its head, then its body.
pub open spec fn wire_of(response: ResponseView) -> Seq<u8> {
    encode_utf8(header_of(response.status, response.content.len())) + response.content
}

/// The head of every response names the length of its body, and the body
/// follows the head untouched: after the status line come the header name,
/// the decimal numeral of the number of body bytes, and the blank line; the
/// bytes after the head are the body, all of them and nothing else.
pub proof fn lemma_content_length(response: ResponseView)
    ensures
        ({
            let line = status_line_of(response.status);
            let header = header_of(response.status, response.content.len());
            let head = encode_utf8(header);
            let wire = wire_of(response);
            let at = line.len() as int;
            let end = header.len() as int;
            &&& header.subrange(0, at) == line
            &&& header.subrange(at, at + 18) == "\r\nContent-Length: "@
            &&& decimal_value(header.subrange(at + 18, end - 4)) == response.content.len()
            &&& header.subrange(end - 4, end) == "\r\n\r\n"@
            &&& wire.len() == head.len() + response.content.len()
            &&& wire.subrange(0, head.len() as int) == head
            &&& wire.subrange(head.len() as int, wire.len() as int) == response.content
        }),
{
    reveal_strlit("\r\nContent-Length: ");
    reveal_strlit("\r\n\r\n");
    let line = status_line_of(response.status);
    let header = header_of(response.status, response.content.len());
    let head = encode_utf8(header);
    let wire = wire_of(response);
    let at = line.len() as int;
    let end = header.len() as int;
    lemma_decimal(response.content.len());
    assert(header.subrange(0, at) =~= line);
    assert(header.subrange(at, at + 18) =~= "\r\nContent-Length: "@);
    assert(header.subrange(at + 18, end - 4) =~= decimal(response.content.len()));
    assert(header.subrange(end - 4, end) =~= "\r\n\r\n"@);
    assert(wire.subrange(0, head.len() as int) =~= head);
    assert(wire.subrange(head.len() as int, wire.len() as int) =~= response.content);
}

impl Response {
    /// The response that refuses a request.
    pub fn default_not_found() -> (response: Response)
        ensures
            response@ == bad_request(),
    {
        Response { status: 400, content: "<h1>400 Bad Request </h1>".as_bytes_vec() }
    }
}

/// The status line for `status`.
pub fn status_line(status: u16) -> (line: &'static str)
    ensures
        line@ == status_line_of(status),
{
    if status == 200 {
        "HTTP/1.1 200 OK"
    } else if status == 404 {
        "HTTP/1.1 404 NOT FOUND"
    } else {
        "HTTP/1.1 500 ERROR"
    }
}

/// The head that announces `response`, with the length of its body.
pub fn response_header(response: &Response) -> (header: String)
    ensures
        header@ == header_of(response@.status, response@.content.len()),
{
    let mut header = String::from_str(status_line(response.status));
    header.append("\r\nContent-Length: ");
    let length = decimal_string(response.content.len());
    header.append(length.as_str());
    header.append("\r\n\r\n");
    header
}

/// The bytes to write for `response`: the head, then the body, which is as
/// long as the head says.
pub fn respond(response: Response) -> (wire: Vec<u8>)
    ensures
        wire@ == wire_of(response@),
{
    let header = response_header(&response);
    let mut wire = header.as_str().as_bytes_vec();
    let mut content = response.content;
    wire.append(&mut content);
    wire
}

} // verus!
