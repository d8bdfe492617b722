//! Responses, their wire form, and the two responses that the server gives.

use crate::headers::{header_block, names_differ, Headers};
use crate::text::{crlf, decimal, optional_text, slash, space, to_decimal};
use crate::version::{Version, VersionView};
use vstd::prelude::*;
use vstd::utf8::encode_utf8;

verus! {

/// The number of bytes that a text takes on the wire.
pub open spec fn byte_length(text: Seq<char>) -> nat {
    encode_utf8(text).len()
}

/// What a [`Response`] holds, as plain values.
pub struct ResponseView {
    pub status: u16,
    pub reason: Seq<char>,
    pub version: VersionView,
    pub headers: Seq<(Seq<char>, Seq<char>)>,
    pub body: Seq<char>,
}

impl ResponseView {
    /// The status line: version, status code and reason, with a line end.
    pub open spec fn status_line(self) -> Seq<char> {
        self.version.wire() + space() + decimal(self.status as nat) + space() + self.reason
            + crlf()
    }

    /// The response as it is written to the connection: the status line, a
    /// line for each header field in order, an empty line, and the body.
    pub open spec fn wire(self) -> Seq<char> {
        self.status_line() + header_block(self.headers) + crlf() + self.body
    }

    /// Every `Content-Length` field states the length of the body in bytes.
    pub open spec fn states_true_length(self) -> bool {
        forall|i: int|
            0 <= i < self.headers.len() && #[trigger] self.headers[i].0 == "Content-Length"@
                ==> self.headers[i].1 == decimal(byte_length(self.body))
    }
}

/// The response that carries a resource that was found.
pub open spec fn found(content_type: Seq<char>, body: Seq<char>, date: Seq<char>) -> ResponseView {
    ResponseView {
        status: 200,
        reason: "OK"@,
        version: VersionView { name: "HTTP"@, number: "1.1"@ },
        headers: seq![
            ("Content-Type"@, content_type),
            ("Content-Length"@, decimal(byte_length(body))),
            ("Server"@, "Quickserving"@),
            ("Date"@, date),
        ],
        body,
    }
}

/// The response that stands for a missing resource. It carries no date.
pub open spec fn not_found(body: Seq<char>) -> ResponseView {
    ResponseView {
        status: 404,
        reason: "Resource not found"@,
        version: VersionView { name: "HTTP"@, number: "1.1"@ },
        headers: seq![
            ("Content-Type"@, "text/html"@),
            ("Content-Length"@, decimal(byte_length(body))),
            ("Server"@, "Quickserving"@),
        ],
        body,
    }
}

/// The body sent for a missing resource: the not-found document where it
/// could be read, else the three characters `404`.
pub open spec fn not_found_body(document: Option<Seq<char>>) -> Seq<char> {
    match document {
        Some(text) => text,
        None => "404"@,
    }
}

/// A response: status, version, header fields and body.
#[derive(Debug, PartialEq, Eq)]
pub struct Response {
    pub status: u16,
    pub reason: String,
    pub version: Version,
    pub headers: Headers,
    pub body: String,
}

impl View for Response {
    type V = ResponseView;

    open spec fn view(&self) -> ResponseView {
        ResponseView {
            status: self.status,
            reason: self.reason@,
            version: self.version@,
            headers: self.headers@,
            body: self.body@,
        }
    }
}

/// The length of `text` in bytes, as a decimal numeral.
fn length_numeral(text: &String) -> (numeral: String)
    ensures
        numeral@ == decimal(byte_length(text@)),
{
    let length = text.as_str().as_bytes().len();
    to_decimal(length as u64)
}

impl Response {
    pub fn new(
        status: u16,
        reason: String,
        version: Version,
        headers: Headers,
        body: String,
    ) -> (response: Response)
        ensures
            response@ == (ResponseView {
                status,
                reason: reason@,
                version: version@,
                headers: headers@,
                body: body@,
            }),
    {
        Response { status, reason, version, headers, body }
    }

    /// The response for a resource that was found: status 200, the content
    /// type, the length of the body in bytes, the server's name and the date.
    pub fn found(content_type: String, body: String, date: String) -> (response: Response)
        ensures
            response@ == found(content_type@, body@, date@),
            response@.states_true_length(),
            names_differ(response@.headers),
    {
        let mut headers = Headers::new();
        headers.insert(&"Content-Type".to_owned(), content_type);
        headers.insert(&"Content-Length".to_owned(), length_numeral(&body));
        headers.insert(&"Server".to_owned(), "Quickserving".to_owned());
        headers.insert(&"Date".to_owned(), date);
        let response = Response::new(
            200,
            "OK".to_owned(),
            Version::new("HTTP".to_owned(), "1.1".to_owned()),
            headers,
            body,
        );
        assert(response@.headers =~= found(content_type@, body@, date@).headers);
        proof {
            lemma_found_is_sound(content_type@, body@, date@);
        }
        response
    }

    /// The response for a missing resource: status 404, with `body` as its
    /// body, the length of the body in bytes and the server's name.
    pub fn not_found(body: String) -> (response: Response)
        ensures
            response@ == not_found(body@),
            response@.states_true_length(),
            names_differ(response@.headers),
    {
        let mut headers = Headers::new();
        headers.insert(&"Content-Type".to_owned(), "text/html".to_owned());
        headers.insert(&"Content-Length".to_owned(), length_numeral(&body));
        headers.insert(&"Server".to_owned(), "Quickserving".to_owned());
        let response = Response::new(
            404,
            "Resource not found".to_owned(),
            Version::new("HTTP".to_owned(), "1.1".to_owned()),
            headers,
            body,
        );
        assert(response@.headers =~= not_found(body@).headers);
        proof {
            lemma_not_found_is_sound(body@);
        }
        response
    }

    /// The response as the bytes that are written to the connection: its wire
    /// form in UTF-8.
    pub fn to_bytes(&self) -> (bytes: Vec<u8>)
        ensures
            bytes@ == encode_utf8(self@.wire()),
    {
        self.to_string().as_str().as_bytes_vec()
    }

    /// The response in its wire form.
    pub fn to_string(&self) -> (text: String)
        ensures
            text@ == self@.wire(),
    {
        proof {
            reveal_strlit(" ");
            reveal_strlit("\r\n");
        }
        let mut text = self.version.to_string();
        text.append(" ");
        text.append(to_decimal(self.status as u64).as_str());
        text.append(" ");
        text.append(self.reason.as_str());
        text.append("\r\n");
        text.append(self.headers.to_string().as_str());
        text.append("\r\n");
        text.append(self.body.as_str());
        text
    }
}

/// The body that answers a missing resource.
pub fn body_for_missing(document: Option<String>) -> (body: String)
    ensures
        body@ == not_found_body(optional_text(document)),
{
    match document {
        Some(text) => text,
        None => "404".to_owned(),
    }
}

/// A response is written as its parts, in this order: the protocol's name, a
/// slash, the version number, a space, the status code as a decimal numeral,
/// a space, the reason and a line end; the header block; a line end; the
/// body.
pub proof fn lemma_wire_form(response: ResponseView)
    ensures
        response.wire() == response.version.name + slash() + response.version.number + space()
            + decimal(response.status as nat) + space() + response.reason + crlf() + header_block(
            response.headers,
        ) + crlf() + response.body,
{
}

/// The response for a found resource states the true length of its body, and
/// each of its header fields has a name of its own.
pub proof fn lemma_found_is_sound(content_type: Seq<char>, body: Seq<char>, date: Seq<char>)
    ensures
        found(content_type, body, date).states_true_length(),
        names_differ(found(content_type, body, date).headers),
{
    reveal_strlit("Content-Length");
    reveal_strlit("Content-Type");
    reveal_strlit("Server");
    reveal_strlit("Date");
    let headers = found(content_type, body, date).headers;
    assert(headers[0].0.len() == 12);
    assert(headers[1].0.len() == 14);
    assert(headers[2].0.len() == 6);
    assert(headers[3].0.len() == 4);
    assert forall|i: int|
        0 <= i < headers.len() && #[trigger] headers[i].0 == "Content-Length"@ implies headers[i].1
        == decimal(byte_length(body)) by {
        assert(i == 1);
    }
}

/// The response for a missing resource states the true length of its body,
/// and each of its header fields has a name of its own.
pub proof fn lemma_not_found_is_sound(body: Seq<char>)
    ensures
        not_found(body).states_true_length(),
        names_differ(not_found(body).headers),
{
    reveal_strlit("Content-Length");
    reveal_strlit("Content-Type");
    reveal_strlit("Server");
    let headers = not_found(body).headers;
    assert(headers[0].0.len() == 12);
    assert(headers[1].0.len() == 14);
    assert(headers[2].0.len() == 6);
    assert forall|i: int|
        0 <= i < headers.len() && #[trigger] headers[i].0 == "Content-Length"@ implies headers[i].1
        == decimal(byte_length(body)) by {
        assert(i == 1);
    }
}

} // verus!
