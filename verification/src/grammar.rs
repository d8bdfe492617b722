//! The form of a request on the wire, and what the parser makes of it.

use crate::headers::header_block;
use crate::request::{
    parse, parse_head, parse_header, parse_request_line, parse_version, remainder, HeadView,
    ParseError, RequestView,
};
use crate::text::{
    colon_space, count, crlf, cut, lacks, lemma_count_after_cut, lemma_cut_at_pair,
    lemma_cut_at_single, lemma_cut_shrinks, lemma_lacks_pair_joined, lemma_lacks_single_joined,
    slash, space,
};
use crate::version::VersionView;
use vstd::prelude::*;

verus! {

/// A token of a request line holds no space and no line end.
pub open spec fn is_token(text: Seq<char>) -> bool {
    lacks(text, space()) && lacks(text, crlf())
}

/// A part of a version is a token that is not empty and holds no slash.
pub open spec fn is_version_part(text: Seq<char>) -> bool {
    text.len() > 0 && is_token(text) && lacks(text, slash())
}

/// A header field fits on one line, and its name holds no colon that a space
/// follows.
pub open spec fn is_field(field: (Seq<char>, Seq<char>)) -> bool {
    lacks(field.0, colon_space()) && lacks(field.0, crlf()) && lacks(field.1, crlf())
}

/// The optional body that a text behind the empty line stands for.
pub open spec fn body_of(text: Seq<char>) -> Option<Seq<char>> {
    if text.len() > 0 {
        Some(text)
    } else {
        None
    }
}

impl RequestView {
    /// The request line: method, path and version with single spaces between.
    pub open spec fn request_line(self) -> Seq<char> {
        self.method + space() + self.path + space() + self.version.wire()
    }

    /// The request as it stands on the wire: the request line, a line for each
    /// header field, an empty line, and the body if there is one.
    pub open spec fn wire(self) -> Seq<char> {
        self.request_line() + crlf() + header_block(self.headers) + crlf() + match self.body {
            Some(body) => body,
            None => Seq::empty(),
        }
    }

    /// The request can be told apart from its wire form: its parts hold none
    /// of the separators that would end them early.
    pub open spec fn writable(self) -> bool {
        &&& is_token(self.method)
        &&& is_token(self.path)
        &&& is_version_part(self.version.name)
        &&& is_version_part(self.version.number)
        &&& forall|i: int| 0 <= i < self.headers.len() ==> is_field(#[trigger] self.headers[i])
        &&& self.body matches Some(body) ==> body.len() > 0
    }
}

/// A version token made of a name, a slash and a number is read back as that
/// name and that number.
pub proof fn lemma_version_read_back(name: Seq<char>, number: Seq<char>)
    requires
        name.len() > 0,
        number.len() > 0,
        lacks(name, slash()),
        lacks(number, slash()),
    ensures
        parse_version(name + slash() + number) == Some(VersionView { name, number }),
{
    lemma_cut_at_single(name, '/', number);
}

/// A request line made of a method, a path and a version is read back as
/// exactly these.
pub proof fn lemma_request_line_read_back(
    method: Seq<char>,
    path: Seq<char>,
    name: Seq<char>,
    number: Seq<char>,
)
    requires
        lacks(method, space()),
        lacks(path, space()),
        lacks(name, space()),
        lacks(number, space()),
        lacks(name, slash()),
        lacks(number, slash()),
        name.len() > 0,
        number.len() > 0,
    ensures
        parse_request_line(method + space() + path + space() + (name + slash() + number)) == Ok::<
            (Seq<char>, Seq<char>, VersionView),
            ParseError,
        >((method, path, VersionView { name, number })),
{
    let token = name + slash() + number;
    let after_method = path + space() + token;
    assert(method + space() + path + space() + token =~= method + space() + after_method);
    lemma_cut_at_single(method, ' ', after_method);
    lemma_cut_at_single(path, ' ', token);
    lemma_lacks_single_joined(name, slash(), number, ' ');
    lemma_version_read_back(name, number);
}

/// A request line of tokens holds no line end.
proof fn lemma_request_line_is_one_line(
    method: Seq<char>,
    path: Seq<char>,
    name: Seq<char>,
    number: Seq<char>,
)
    requires
        lacks(method, crlf()),
        lacks(path, crlf()),
        lacks(name, crlf()),
        lacks(number, crlf()),
    ensures
        lacks(method + space() + path + space() + (name + slash() + number), crlf()),
{
    let token = name + slash() + number;
    let after_method = path + space() + token;
    assert(method + space() + path + space() + token =~= method + space() + after_method);
    lemma_lacks_pair_joined(name, slash(), number, '\r', '\n');
    lemma_lacks_pair_joined(path, space(), token, '\r', '\n');
    lemma_lacks_pair_joined(method, space(), after_method, '\r', '\n');
}

/// A text without header fields and without a body holds an empty header
/// block.
pub proof fn lemma_empty_head()
    ensures
        parse_head(Seq::empty()) == Ok::<HeadView, ParseError>(
            HeadView { headers: Seq::empty(), body: None },
        ),
{
}

/// A line and a line end in front of a text are cut off as the first line.
proof fn lemma_first_line(line: Seq<char>, rest: Seq<char>)
    requires
        lacks(line, crlf()),
    ensures
        cut(line + crlf() + rest, crlf()).0 == line,
        remainder(line + crlf() + rest, crlf()) == rest,
{
    lemma_cut_at_pair(line, '\r', '\n', rest);
}

/// From a text that begins with a request line `<method> <path>
/// <name>/<number>` and a line end, the parser recovers exactly the method,
/// the path, the protocol's name and the version number, whatever follows; it
/// fails only where what follows is no header block.
pub proof fn lemma_request_line_recovered(
    method: Seq<char>,
    path: Seq<char>,
    name: Seq<char>,
    number: Seq<char>,
    rest: Seq<char>,
)
    requires
        is_token(method),
        is_token(path),
        is_version_part(name),
        is_version_part(number),
    ensures
        parse(method + space() + path + space() + (name + slash() + number) + crlf() + rest)
            == match parse_head(rest) {
            Ok(head) => Ok::<RequestView, ParseError>(
                RequestView {
                    method,
                    path,
                    version: VersionView { name, number },
                    headers: head.headers,
                    body: head.body,
                },
            ),
            Err(error) => Err(error),
        },
{
    let line = method + space() + path + space() + (name + slash() + number);
    lemma_request_line_read_back(method, path, name, number);
    lemma_request_line_is_one_line(method, path, name, number);
    lemma_first_line(line, rest);
}

/// From a request line `<method> <path> <name>/<number>` and a line end alone,
/// the parser recovers a request without header fields and without a body.
pub proof fn lemma_bare_request_line_recovered(
    method: Seq<char>,
    path: Seq<char>,
    name: Seq<char>,
    number: Seq<char>,
)
    requires
        is_token(method),
        is_token(path),
        is_version_part(name),
        is_version_part(number),
    ensures
        parse(method + space() + path + space() + (name + slash() + number) + crlf()) == Ok::<
            RequestView,
            ParseError,
        >(
            RequestView {
                method,
                path,
                version: VersionView { name, number },
                headers: Seq::empty(),
                body: None,
            },
        ),
{
    let line = method + space() + path + space() + (name + slash() + number);
    lemma_request_line_recovered(method, path, name, number, Seq::empty());
    lemma_empty_head();
    assert(line + crlf() + Seq::<char>::empty() =~= line + crlf());
}

/// Every request that the parser yields has a complete version: a protocol
/// name and a version number, neither of them empty.
pub proof fn lemma_parsed_version_complete(raw: Seq<char>)
    ensures
        parse(raw) matches Ok(request) ==> request.version.complete(),
{
}

/// What follows the request line is never faulted for the request line.
pub proof fn lemma_head_faults(text: Seq<char>)
    ensures
        parse_head(text) matches Err(error) ==> error == ParseError::MalformedHeader,
    decreases text.len(),
{
    let line = cut(text, crlf()).0;
    if line.len() > 0 && parse_header(line) is Some {
        lemma_cut_shrinks(text, crlf());
        lemma_head_faults(remainder(text, crlf()));
    }
}

/// The request line is faulted exactly where the first line of the text holds
/// more or fewer than two spaces, which is to say more or fewer than three
/// tokens: with fewer than three tokens parsing fails with
/// `MalformedRequestLine`.
pub proof fn lemma_three_tokens(raw: Seq<char>)
    ensures
        parse(raw) == Err::<RequestView, ParseError>(ParseError::MalformedRequestLine) <==> count(
            cut(raw, crlf()).0,
            ' ',
        ) != 2,
{
    let line = cut(raw, crlf()).0;
    lemma_head_faults(remainder(raw, crlf()));
    lemma_count_after_cut(line, ' ');
    match cut(line, space()).1 {
        Some(after_method) => {
            lemma_count_after_cut(after_method, ' ');
            match cut(after_method, space()).1 {
                Some(token) => {
                    lemma_count_after_cut(token, ' ');
                },
                None => {},
            }
        },
        None => {},
    }
}

/// A header line made of a name, a colon, a space and a value is read back as
/// that name and that value.
pub proof fn lemma_header_read_back(field: (Seq<char>, Seq<char>))
    requires
        lacks(field.0, colon_space()),
    ensures
        parse_header(field.0 + colon_space() + field.1) == Some(field),
{
    lemma_cut_at_pair(field.0, ':', ' ', field.1);
}

/// From a header block the parser recovers every field as it was written,
/// name and value, in the order in which the lines stand, and takes what
/// follows the empty line as the body.
pub proof fn lemma_head_read_back(fields: Seq<(Seq<char>, Seq<char>)>, body: Seq<char>)
    requires
        forall|i: int| 0 <= i < fields.len() ==> is_field(#[trigger] fields[i]),
    ensures
        parse_head(header_block(fields) + crlf() + body) == Ok::<HeadView, ParseError>(
            HeadView { headers: fields, body: body_of(body) },
        ),
    decreases fields.len(),
{
    let text = header_block(fields) + crlf() + body;
    if fields.len() == 0 {
        assert(fields =~= Seq::empty());
        lemma_first_line(Seq::empty(), body);
    } else {
        let field = fields[0];
        let others = fields.drop_first();
        let line = field.0 + colon_space() + field.1;
        let tail = header_block(others) + crlf() + body;
        assert(text =~= line + crlf() + tail);
        lemma_lacks_pair_joined(field.0, colon_space(), field.1, '\r', '\n');
        lemma_first_line(line, tail);
        lemma_header_read_back(field);
        assert forall|i: int| 0 <= i < others.len() implies is_field(#[trigger] others[i]) by {
            assert(others[i] == fields[i + 1]);
        }
        lemma_head_read_back(others, body);
        assert(seq![field] + others =~= fields);
    }
}

/// Reading is the inverse of writing: the parser recovers every writable
/// request from its wire form.
pub proof fn lemma_request_read_back(request: RequestView)
    requires
        request.writable(),
    ensures
        parse(request.wire()) == Ok::<RequestView, ParseError>(request),
{
    let body = match request.body {
        Some(body) => body,
        None => Seq::empty(),
    };
    let rest = header_block(request.headers) + crlf() + body;
    assert(request.wire() =~= request.request_line() + crlf() + rest);
    lemma_request_line_recovered(
        request.method,
        request.path,
        request.version.name,
        request.version.number,
        rest,
    );
    lemma_head_read_back(request.headers, body);
}

} // verus!
