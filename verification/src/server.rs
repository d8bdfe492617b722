//! One connection, from the first bytes read to the response written.
//!
//! The connection is a state machine. Reading from the socket, reading files
//! and writing the response are done by the caller: each step takes what the
//! caller's last action brought and says which action comes next.
//!
//! A connection reads until the text of the request is complete. The step
//! that completes it parses the text and resolves the path; from then on the
//! connection waits for the content of the resource, or of the not-found
//! document in its place, hands the response out to be written, and is
//! closed. A malformed request and every failure close it at once.

use crate::config::{Config, ConfigView};
use crate::grammar::lemma_request_read_back;
use crate::headers::{header_block, lemma_header_block_push};
use crate::media::{media_type, media_type_of};
use crate::request::{parse, ParseError, Request, RequestView};
use crate::resolver::{
    apply_index, not_found_document, not_found_path, place_below, resolved, with_index,
};
use crate::response::{
    body_for_missing, found, lemma_found_is_sound, lemma_not_found_is_sound, not_found,
    not_found_body, Response, ResponseView,
};
use crate::text::{chars_of, colon_space, crlf, ends_with, optional_text};
use vstd::prelude::*;
use vstd::utf8::encode_utf8;

verus! {

/// The number of bytes to ask for in one read.
pub const CHUNK_SIZE: usize = 4096;

/// The text that `String::from_utf8_lossy` makes of a sequence of bytes.
pub uninterp spec fn lossy_text(bytes: Seq<u8>) -> Seq<char>;

/// Calls `String::from_utf8_lossy`, which decodes the bytes as UTF-8 and puts
/// the replacement character in place of each sequence that is not valid. The
/// result depends on the bytes alone; the contract gives it a name.
#[verifier::external_body]
fn decode_lossy(bytes: &[u8]) -> (text: String)
    ensures
        text@ == lossy_text(bytes@),
{
    String::from_utf8_lossy(bytes).into_owned()
}

/// Calls `chrono::Utc::now` and writes the time out with `to_string`. Nothing
/// is promised of the text: it differs from call to call. The call panics
/// where the clock of the machine stands before the year 1970.
#[verifier::external_body]
fn utc_now() -> (now: String) {
    chrono::Utc::now().to_string()
}

/// Where a connection stands.
#[derive(Debug, PartialEq, Eq)]
pub enum Connection {
    /// The request is being read; `received` is the text read so far.
    Reading { received: String },
    /// The request was read and resolved; the content of the resource is
    /// awaited.
    Loading { request: Request },
    /// The resource could not be read; the not-found document is awaited.
    LoadingNotFound,
    /// A response was handed out; its writing is awaited.
    Responding,
    /// The connection is done, with or without a response.
    Closed,
}

/// What the caller's last action brought.
#[derive(Debug, PartialEq, Eq)]
pub enum Event {
    /// Bytes read from the connection; none when the peer has closed it.
    Received(Vec<u8>),
    /// The content of the file asked for; nothing when it could not be read.
    Loaded(Option<String>),
    /// The response was written and flushed.
    Written,
    /// Reading or writing failed.
    Failed,
}

/// What the caller is to do next.
#[derive(Debug, PartialEq, Eq)]
pub enum Action {
    /// Read up to [`CHUNK_SIZE`] bytes from the connection.
    Read,
    /// Read the file at this path as text.
    Load(String),
    /// Write these bytes to the connection and flush it.
    Send(Vec<u8>),
    /// Drop the connection without a response: the request was malformed.
    Reject(ParseError),
    /// Drop the connection: nothing is left to do.
    Close,
}

/// A [`Connection`] as plain values.
pub enum ConnectionView {
    Reading { received: Seq<char> },
    Loading { request: RequestView },
    LoadingNotFound,
    Responding,
    Closed,
}

/// An [`Event`] as plain values.
pub enum EventView {
    Received(Seq<u8>),
    Loaded(Option<Seq<char>>),
    Written,
    Failed,
}

/// An [`Action`] as plain values.
pub enum ActionView {
    Read,
    Load(Seq<char>),
    Send(Seq<u8>),
    Reject(ParseError),
    Close,
}

impl View for Connection {
    type V = ConnectionView;

    open spec fn view(&self) -> ConnectionView {
        match self {
            Connection::Reading { received } => ConnectionView::Reading { received: received@ },
            Connection::Loading { request } => ConnectionView::Loading { request: request@ },
            Connection::LoadingNotFound => ConnectionView::LoadingNotFound,
            Connection::Responding => ConnectionView::Responding,
            Connection::Closed => ConnectionView::Closed,
        }
    }
}

impl View for Event {
    type V = EventView;

    open spec fn view(&self) -> EventView {
        match self {
            Event::Received(chunk) => EventView::Received(chunk@),
            Event::Loaded(content) => EventView::Loaded(optional_text(*content)),
            Event::Written => EventView::Written,
            Event::Failed => EventView::Failed,
        }
    }
}

impl View for Action {
    type V = ActionView;

    open spec fn view(&self) -> ActionView {
        match self {
            Action::Read => ActionView::Read,
            Action::Load(path) => ActionView::Load(path@),
            Action::Send(bytes) => ActionView::Send(bytes@),
            Action::Reject(error) => ActionView::Reject(*error),
            Action::Close => ActionView::Close,
        }
    }
}

/// The empty line that ends the header block, with the line end before it.
pub open spec fn head_end() -> Seq<char> {
    crlf() + crlf()
}

/// What becomes of a connection once the text of its request is complete: a
/// text that is no request ends it without a response; a request is resolved,
/// its path rewritten by the index rule, and the resource asked for.
pub open spec fn accept(raw: Seq<char>, config: ConfigView) -> (ConnectionView, ActionView) {
    match parse(raw) {
        Ok(request) => {
            let path = with_index(request.path, config.index_file);
            (
                ConnectionView::Loading { request: RequestView { path, ..request } },
                ActionView::Load(resolved(request.path, config)),
            )
        },
        Err(error) => (ConnectionView::Closed, ActionView::Reject(error)),
    }
}

/// What becomes of a reading connection that holds `received` when the text
/// of one more chunk arrives. The request is taken to be complete where the
/// chunk was empty, which means that the peer has closed the connection, or
/// where its text ends with the empty line; else more is read. An empty line
/// that two chunks share is not seen.
pub open spec fn read_on(
    received: Seq<char>,
    text: Seq<char>,
    closed: bool,
    config: ConfigView,
) -> (ConnectionView, ActionView) {
    if closed || ends_with(text, head_end()) {
        accept(received + text, config)
    } else {
        (ConnectionView::Reading { received: received + text }, ActionView::Read)
    }
}

/// The state that follows `state` on `event`, and the action to take. `date`
/// is the time that a response to a found resource carries.
pub open spec fn next(
    state: ConnectionView,
    event: EventView,
    config: ConfigView,
    date: Seq<char>,
) -> (ConnectionView, ActionView) {
    match (state, event) {
        (ConnectionView::Reading { received }, EventView::Received(chunk)) => read_on(
            received,
            lossy_text(chunk),
            chunk.len() == 0,
            config,
        ),
        (ConnectionView::Loading { request }, EventView::Loaded(Some(content))) => (
            ConnectionView::Responding,
            ActionView::Send(encode_utf8(found(media_type(request.path), content, date).wire())),
        ),
        (ConnectionView::Loading { request }, EventView::Loaded(None)) => (
            ConnectionView::LoadingNotFound,
            ActionView::Load(not_found_document(config)),
        ),
        (ConnectionView::LoadingNotFound, EventView::Loaded(document)) => (
            ConnectionView::Responding,
            ActionView::Send(encode_utf8(not_found(not_found_body(document)).wire())),
        ),
        _ => (ConnectionView::Closed, ActionView::Close),
    }
}

/// Whether `text` ends with the empty line that ends a header block.
fn ends_head(text: &str) -> (ends: bool)
    ensures
        ends == ends_with(text@, head_end()),
{
    let chars = chars_of(text);
    let n = chars.len();
    if n < 4 {
        return false;
    }
    let first_end = chars[n - 4] == '\r' && chars[n - 3] == '\n';
    let second_end = chars[n - 2] == '\r' && chars[n - 1] == '\n';
    proof {
        let tail = chars@.skip(n - 4);
        assert(tail[0] == chars@[n - 4]);
        assert(tail[1] == chars@[n - 3]);
        assert(tail[2] == chars@[n - 2]);
        assert(tail[3] == chars@[n - 1]);
        assert(head_end() =~= seq!['\r', '\n', '\r', '\n']);
    }
    first_end && second_end
}

/// Parses the complete text of a request and resolves it.
fn accept_request(raw: String, config: &Config) -> (step: (Connection, Action))
    ensures
        (step.0@, step.1@) == accept(raw@, config@),
{
    match Request::from_string(raw) {
        Ok(request) => {
            let Request { method, path, version, headers, body } = request;
            let path = apply_index(path, config);
            let file = place_below(config.directory.as_str(), path.as_str());
            let request = Request { method, path, version, headers, body };
            (Connection::Loading { request }, Action::Load(file))
        },
        Err(error) => (Connection::Closed, Action::Reject(error)),
    }
}

/// Takes the text of one more chunk into a connection that has `received` so
/// far; `closed` says that the chunk was empty. Where this completes the
/// request, the request is parsed and resolved.
pub fn read_text(received: String, text: &str, closed: bool, config: &Config) -> (step: (
    Connection,
    Action,
))
    ensures
        (step.0@, step.1@) == read_on(received@, text@, closed, config@),
{
    let complete = closed || ends_head(text);
    let mut received = received;
    received.append(text);
    if complete {
        accept_request(received, config)
    } else {
        (Connection::Reading { received }, Action::Read)
    }
}

impl Connection {
    /// A connection on which nothing was read yet. Its first action is to read.
    pub fn new() -> (connection: Connection)
        ensures
            connection@ == (ConnectionView::Reading { received: Seq::empty() }),
    {
        Connection::Reading { received: String::new() }
    }

    /// The state that follows on `event`, and the action to take, where
    /// `date` is the time to write into a response to a found resource.
    pub fn advance(self, event: Event, config: &Config, date: String) -> (step: (
        Connection,
        Action,
    ))
        ensures
            (step.0@, step.1@) == next(self@, event@, config@, date@),
    {
        match self {
            Connection::Reading { received } => match event {
                Event::Received(chunk) => {
                    let text = decode_lossy(chunk.as_slice());
                    read_text(received, text.as_str(), chunk.len() == 0, config)
                },
                _ => (Connection::Closed, Action::Close),
            },
            Connection::Loading { request } => match event {
                Event::Loaded(Some(content)) => {
                    let media = media_type_of(request.path.as_str());
                    let response = Response::found(media, content, date);
                    (Connection::Responding, Action::Send(response.to_bytes()))
                },
                Event::Loaded(None) => (
                    Connection::LoadingNotFound,
                    Action::Load(not_found_path(config)),
                ),
                _ => (Connection::Closed, Action::Close),
            },
            Connection::LoadingNotFound => match event {
                Event::Loaded(document) => {
                    let response = Response::not_found(body_for_missing(document));
                    (Connection::Responding, Action::Send(response.to_bytes()))
                },
                _ => (Connection::Closed, Action::Close),
            },
            Connection::Responding => (Connection::Closed, Action::Close),
            Connection::Closed => (Connection::Closed, Action::Close),
        }
    }

    /// Whether `event` brings the content of the resource that this
    /// connection waits for, so that the response will carry the time.
    fn serves(&self, event: &Event) -> (serves: bool)
        ensures
            serves == (self@ is Loading && event@ matches EventView::Loaded(Some(_))),
    {
        match self {
            Connection::Loading { .. } => match event {
                Event::Loaded(Some(_)) => true,
                _ => false,
            },
            _ => false,
        }
    }

    /// The state that follows on `event`, and the action to take. A response
    /// to a found resource carries the time at which this step was taken.
    pub fn step(self, event: Event, config: &Config) -> (step: (Connection, Action))
        ensures
            exists|date: Seq<char>| (step.0@, step.1@) == next(self@, event@, config@, date),
    {
        let date = if self.serves(&event) {
            utc_now()
        } else {
            String::new()
        };
        self.advance(event, config, date)
    }
}

/// A closed connection stays closed, whatever comes.
pub proof fn lemma_closed_is_final(event: EventView, config: ConfigView, date: Seq<char>)
    ensures
        next(ConnectionView::Closed, event, config, date) == (
            ConnectionView::Closed,
            ActionView::Close,
        ),
{
}

/// A failure of reading or writing closes the connection, wherever it stands.
pub proof fn lemma_failure_closes(state: ConnectionView, config: ConfigView, date: Seq<char>)
    ensures
        next(state, EventView::Failed, config, date) == (
            ConnectionView::Closed,
            ActionView::Close,
        ),
{
}

/// A malformed request gets no response: a complete text that is no request
/// closes the connection, and the fault is handed out in place of a response.
pub proof fn lemma_malformed_request_is_dropped(raw: Seq<char>, config: ConfigView)
    requires
        parse(raw) is Err,
    ensures
        accept(raw, config) == (ConnectionView::Closed, ActionView::Reject(parse(raw)->Err_0)),
{
}

/// A request without a body that arrives whole, as it is written on the wire,
/// is read back and resolved at once: the connection then holds the request,
/// its path rewritten by the index rule, and asks for the file that the path
/// resolves to.
pub proof fn lemma_written_request_is_accepted(request: RequestView, config: ConfigView)
    requires
        request.writable(),
        request.body is None,
    ensures
        read_on(Seq::empty(), request.wire(), false, config) == (
            ConnectionView::Loading {
                request: RequestView {
                    path: with_index(request.path, config.index_file),
                    ..request
                },
            },
            ActionView::Load(resolved(request.path, config)),
        ),
{
    let wire = request.wire();
    let fields = request.headers;
    lemma_request_read_back(request);
    assert(ends_with(wire, head_end())) by {
        if fields.len() == 0 {
            assert(wire =~= request.request_line() + crlf() + crlf());
        } else {
            let earlier = fields.drop_last();
            let line = fields.last().0 + colon_space() + fields.last().1;
            assert(fields =~= earlier.push(fields.last()));
            lemma_header_block_push(earlier, fields.last());
            assert(wire =~= request.request_line() + crlf() + header_block(earlier) + line
                + crlf() + crlf());
        }
    }
}

/// A request is answered from the file that its path resolves to, and a
/// request with a rooted path is kept with a rooted path.
pub proof fn lemma_request_is_resolved(raw: Seq<char>, config: ConfigView)
    requires
        parse(raw) is Ok,
    ensures
        accept(raw, config).0 is Loading,
        accept(raw, config).1 == ActionView::Load(resolved(parse(raw)->Ok_0.path, config)),
        parse(raw)->Ok_0.rooted() ==> accept(raw, config).0->request.rooted(),
{
}

/// A response is sent once at most, and only for a resource or for the
/// not-found document that was asked for: the step that sends one starts from
/// a loading state and ends in `Responding`, from where every step closes the
/// connection. What is sent is a response in UTF-8 that states the true
/// length of its body.
pub proof fn lemma_response_is_sent_once(
    state: ConnectionView,
    event: EventView,
    config: ConfigView,
    date: Seq<char>,
)
    requires
        next(state, event, config, date).1 is Send,
    ensures
        state is Loading || state is LoadingNotFound,
        event is Loaded,
        next(state, event, config, date).0 is Responding,
        forall|after: EventView|
            #[trigger] next(ConnectionView::Responding, after, config, date) == (
                ConnectionView::Closed,
                ActionView::Close,
            ),
        exists|response: ResponseView|
            next(state, event, config, date).1 == ActionView::Send(
                encode_utf8(#[trigger] response.wire()),
            ) && response.states_true_length(),
{
    match (state, event) {
        (ConnectionView::Loading { request }, EventView::Loaded(Some(content))) => {
            let response = found(media_type(request.path), content, date);
            lemma_found_is_sound(media_type(request.path), content, date);
            assert(next(state, event, config, date).1 == ActionView::Send(
                encode_utf8(response.wire()),
            ));
        },
        (ConnectionView::LoadingNotFound, EventView::Loaded(document)) => {
            let response = not_found(not_found_body(document));
            lemma_not_found_is_sound(not_found_body(document));
            assert(next(state, event, config, date).1 == ActionView::Send(
                encode_utf8(response.wire()),
            ));
        },
        _ => {},
    }
}

} // verus!
