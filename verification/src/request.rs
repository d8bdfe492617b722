//! Requests, and the parser that reads one from the text of a connection.

use crate::headers::Headers;
use crate::text::{
    chars_of, colon_space, crlf, cut, find_char, find_pair, first_occurrence, lemma_cut_shrinks,
    optional_text, slash, space, text_of,
};
use crate::version::{Version, VersionView};
use vstd::prelude::*;

verus! {

/// Why a text is no request.
#[derive(Clone, Copy, Debug, PartialEq, Eq, Structural)]
pub enum ParseError {
    /// The first line is not made of three tokens with single spaces between.
    MalformedRequestLine,
    /// The third token is not a protocol name, a slash and a version number.
    MalformedVersion,
    /// A line of the header block holds no colon followed by a space.
    MalformedHeader,
}

impl ParseError {
    /// The words that describe the error.
    pub open spec fn description(self) -> Seq<char> {
        match self {
            ParseError::MalformedRequestLine => "malformed request line"@,
            ParseError::MalformedVersion => "malformed version"@,
            ParseError::MalformedHeader => "malformed header"@,
        }
    }

    /// The error in words.
    pub fn to_string(&self) -> (text: String)
        ensures
            text@ == self.description(),
    {
        match self {
            ParseError::MalformedRequestLine => "malformed request line".to_owned(),
            ParseError::MalformedVersion => "malformed version".to_owned(),
            ParseError::MalformedHeader => "malformed header".to_owned(),
        }
    }
}

/// What a [`Request`] holds, as plain text.
pub struct RequestView {
    pub method: Seq<char>,
    pub path: Seq<char>,
    pub version: VersionView,
    pub headers: Seq<(Seq<char>, Seq<char>)>,
    pub body: Option<Seq<char>>,
}

impl RequestView {
    /// The path is rooted: it begins with a slash. The parser takes every
    /// path as it stands, so a parsed request is rooted exactly where the path
    /// on its request line was.
    pub open spec fn rooted(self) -> bool {
        self.path.len() > 0 && self.path[0] == '/'
    }
}

/// What follows the request line: the header fields and the body.
pub struct HeadView {
    pub headers: Seq<(Seq<char>, Seq<char>)>,
    pub body: Option<Seq<char>>,
}

/// A request as it was read from a connection.
#[derive(Debug, PartialEq, Eq)]
pub struct Request {
    pub method: String,
    pub path: String,
    pub version: Version,
    pub headers: Headers,
    pub body: Option<String>,
}

impl View for Request {
    type V = RequestView;

    open spec fn view(&self) -> RequestView {
        RequestView {
            method: self.method@,
            path: self.path@,
            version: self.version@,
            headers: self.headers@,
            body: optional_text(self.body),
        }
    }
}

/// The outcome of reading a request, as plain values.
pub open spec fn outcome(parsed: Result<Request, ParseError>) -> Result<RequestView, ParseError> {
    match parsed {
        Ok(request) => Ok(request@),
        Err(error) => Err(error),
    }
}

/// What follows the first occurrence of `separator`; nothing where there is none.
pub open spec fn remainder(text: Seq<char>, separator: Seq<char>) -> Seq<char> {
    match cut(text, separator).1 {
        Some(rest) => rest,
        None => Seq::empty(),
    }
}

/// A version token is a name, one slash and a number, neither of them empty.
pub open spec fn parse_version(token: Seq<char>) -> Option<VersionView> {
    match cut(token, slash()) {
        (name, Some(number)) => if name.len() > 0 && number.len() > 0 && first_occurrence(
            number,
            slash(),
        ) is None {
            Some(VersionView { name, number })
        } else {
            None
        },
        (_, None) => None,
    }
}

/// A request line is a method, a path and a version token, with one space
/// between each two. Method and path are taken as they stand.
pub open spec fn parse_request_line(line: Seq<char>) -> Result<
    (Seq<char>, Seq<char>, VersionView),
    ParseError,
> {
    match cut(line, space()) {
        (method, Some(after_method)) => match cut(after_method, space()) {
            (path, Some(token)) => if first_occurrence(token, space()) is Some {
                Err(ParseError::MalformedRequestLine)
            } else {
                match parse_version(token) {
                    Some(version) => Ok((method, path, version)),
                    None => Err(ParseError::MalformedVersion),
                }
            },
            (_, None) => Err(ParseError::MalformedRequestLine),
        },
        (_, None) => Err(ParseError::MalformedRequestLine),
    }
}

/// A header line is a name and a value, parted by the first colon that a space
/// follows.
pub open spec fn parse_header(line: Seq<char>) -> Option<(Seq<char>, Seq<char>)> {
    match cut(line, colon_space()) {
        (name, Some(value)) => Some((name, value)),
        (_, None) => None,
    }
}

/// `fields` put in front of the header fields of a parsed remainder.
pub open spec fn after_fields(
    fields: Seq<(Seq<char>, Seq<char>)>,
    rest: Result<HeadView, ParseError>,
) -> Result<HeadView, ParseError> {
    match rest {
        Ok(head) => Ok(HeadView { headers: fields + head.headers, body: head.body }),
        Err(error) => Err(error),
    }
}

/// The text behind the request line: header lines up to the first empty line,
/// then the body. A text that ends before an empty line has no body, and an
/// empty body counts as none.
pub open spec fn parse_head(text: Seq<char>) -> Result<HeadView, ParseError>
    decreases text.len(),
{
    let line = cut(text, crlf()).0;
    let rest = remainder(text, crlf());
    if line.len() == 0 {
        Ok(HeadView { headers: Seq::empty(), body: if rest.len() > 0 { Some(rest) } else { None } })
    } else {
        match parse_header(line) {
            Some(field) => {
                proof {
                    lemma_cut_shrinks(text, crlf());
                }
                after_fields(seq![field], parse_head(rest))
            },
            None => Err(ParseError::MalformedHeader),
        }
    }
}

/// The request that a text holds, or the first fault found in it, reading from
/// the front: the request line, its version token, then the header lines.
pub open spec fn parse(raw: Seq<char>) -> Result<RequestView, ParseError> {
    match parse_request_line(cut(raw, crlf()).0) {
        Ok((method, path, version)) => match parse_head(remainder(raw, crlf())) {
            Ok(head) => Ok(
                RequestView { method, path, version, headers: head.headers, body: head.body },
            ),
            Err(error) => Err(error),
        },
        Err(error) => Err(error),
    }
}

/// Reads the version token `chars[from..to]`.
fn read_version(chars: &Vec<char>, from: usize, to: usize) -> (version: Option<Version>)
    requires
        from <= to <= chars.len(),
    ensures
        match version {
            Some(v) => parse_version(chars@.subrange(from as int, to as int)) == Some(v@),
            None => parse_version(chars@.subrange(from as int, to as int)) is None,
        },
{
    let ghost token = chars@.subrange(from as int, to as int);
    match find_char(chars, from, to, '/') {
        None => None,
        Some(at) => {
            assert(token.take(at - from) =~= chars@.subrange(from as int, at as int));
            assert(token.skip(at - from + 1) =~= chars@.subrange(at + 1, to as int));
            if at == from || at + 1 == to {
                return None;
            }
            match find_char(chars, at + 1, to, '/') {
                Some(_) => None,
                None => Some(Version::new(text_of(chars, from, at), text_of(chars, at + 1, to))),
            }
        },
    }
}

/// Reads the request line `chars[0..to]`.
fn read_request_line(chars: &Vec<char>, to: usize) -> (line: Result<
    (String, String, Version),
    ParseError,
>)
    requires
        to <= chars.len(),
    ensures
        match line {
            Ok((method, path, version)) => parse_request_line(chars@.subrange(0, to as int))
                matches Ok(parts) && parts == (method@, path@, version@),
            Err(error) => parse_request_line(chars@.subrange(0, to as int)) matches Err(fault)
                && fault == error,
        },
{
    let ghost line = chars@.subrange(0, to as int);
    let first = match find_char(chars, 0, to, ' ') {
        Some(at) => at,
        None => {
            return Err(ParseError::MalformedRequestLine);
        },
    };
    assert(line.skip(first + 1) =~= chars@.subrange(first + 1, to as int));
    let ghost after_method = chars@.subrange(first + 1, to as int);
    let second = match find_char(chars, first + 1, to, ' ') {
        Some(at) => at,
        None => {
            return Err(ParseError::MalformedRequestLine);
        },
    };
    assert(after_method.skip(second - first) =~= chars@.subrange(second + 1, to as int));
    if find_char(chars, second + 1, to, ' ').is_some() {
        return Err(ParseError::MalformedRequestLine);
    }
    match read_version(chars, second + 1, to) {
        Some(version) => {
            let method = text_of(chars, 0, first);
            let path = text_of(chars, first + 1, second);
            Ok((method, path, version))
        },
        None => Err(ParseError::MalformedVersion),
    }
}

/// Reads the header lines and the body from `chars[from..]`.
fn read_head(chars: &Vec<char>, from: usize) -> (head: Result<
    (Headers, Option<String>),
    ParseError,
>)
    requires
        from <= chars.len(),
    ensures
        match head {
            Ok((headers, body)) => parse_head(chars@.skip(from as int)) matches Ok(parsed)
                && parsed == (HeadView { headers: headers@, body: optional_text(body) }),
            Err(error) => parse_head(chars@.skip(from as int)) matches Err(fault) && fault
                == error,
        },
{
    let n = chars.len();
    let mut headers = Headers::new();
    let mut start: usize = from;
    loop
        invariant
            n == chars.len(),
            from <= start <= n,
            parse_head(chars@.skip(from as int)) == after_fields(
                headers@,
                parse_head(chars@.skip(start as int)),
            ),
        decreases n - start,
    {
        let ghost rest_text = chars@.skip(start as int);
        assert(rest_text =~= chars@.subrange(start as int, n as int));
        let found = find_pair(chars, start, n, '\r', '\n');
        let (line_end, next) = match found {
            Some(at) => (at, at + 2),
            None => (n, n),
        };
        assert(cut(rest_text, crlf()).0 =~= chars@.subrange(start as int, line_end as int));
        assert(remainder(rest_text, crlf()) =~= chars@.skip(next as int));
        if line_end == start {
            let body = if next < n {
                Some(text_of(chars, next, n))
            } else {
                None
            };
            return Ok((headers, body));
        }
        let ghost line = chars@.subrange(start as int, line_end as int);
        match find_pair(chars, start, line_end, ':', ' ') {
            None => {
                return Err(ParseError::MalformedHeader);
            },
            Some(at) => {
                assert(line.take(at - start) =~= chars@.subrange(start as int, at as int));
                assert(line.skip(at - start + 2) =~= chars@.subrange(at + 2, line_end as int));
                let name = text_of(chars, start, at);
                let value = text_of(chars, at + 2, line_end);
                let ghost field = (name@, value@);
                let ghost before = headers@;
                headers.insert(&name, value);
                proof {
                    let tail = parse_head(chars@.skip(next as int));
                    match tail {
                        Ok(head) => {
                            assert(before + (seq![field] + head.headers) =~= before.push(field)
                                + head.headers);
                        },
                        Err(_) => {},
                    }
                }
            },
        }
        start = next;
    }
}

impl Request {
    /// Reads a request from the text received on a connection.
    ///
    /// Succeeds exactly on the texts that hold a request line of three tokens,
    /// the third a well-formed version, and header lines that each hold a
    /// colon and a space; the request then holds their parts unchanged.
    pub fn from_string(raw: String) -> (parsed: Result<Request, ParseError>)
        ensures
            outcome(parsed) == parse(raw@),
            parsed matches Ok(request) ==> request@.version.complete(),
    {
        let chars = chars_of(raw.as_str());
        let n = chars.len();
        assert(chars@.subrange(0, n as int) =~= chars@);
        let (line_end, next) = match find_pair(&chars, 0, n, '\r', '\n') {
            Some(at) => (at, at + 2),
            None => (n, n),
        };
        let (method, path, version) = match read_request_line(&chars, line_end) {
            Ok(parts) => parts,
            Err(error) => {
                return Err(error);
            },
        };
        match read_head(&chars, next) {
            Ok((headers, body)) => Ok(Request { method, path, version, headers, body }),
            Err(error) => Err(error),
        }
    }
}

} // verus!
