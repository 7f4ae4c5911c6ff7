//! One connection, as a machine that is told what happened and says what to
//! do next.
//!
//! The machine reads and writes nothing itself. Whoever drives it performs
//! each [`Action`] on the stream or on the file store and reports the
//! outcome as an [`Event`]. A connection serves one request after another:
//! every reply leaves it waiting for the next request line, and it closes
//! only when the stream ends or fails, or when a line holds no request.

use crate::encoding;
use crate::encoding::{Compressed, CompressedView};
use crate::headers;
use crate::request;
use crate::request::{Request, RequestView, Route};
use crate::response::{Response, ResponseView, Status};
use crate::text;
use vstd::prelude::*;
use vstd::string::StringSliceAdditionalSpecFns;

verus! {

/// What happened on the stream or in the file store.
#[derive(Debug, PartialEq, Eq)]
pub enum Event {
    /// A line was read, with or without the line break at its end.
    Line(Vec<u8>),
    /// The stream ended before another byte came.
    EndOfStream,
    /// Reading from the stream or writing to it failed.
    Failed,
    /// The request body was read in full.
    Body(Vec<u8>),
    /// The stream ended or failed before the body was complete.
    BodyCutShort,
    /// The file was read.
    FileContents(Vec<u8>),
    /// The file is missing or cannot be read.
    FileUnreadable,
    /// The file was written.
    FileStored,
    /// The file could not be written.
    FileNotStored,
    /// An attempt to compress ended.
    Compressed(Compressed),
}

pub enum EventView {
    Line(Seq<u8>),
    EndOfStream,
    Failed,
    Body(Seq<u8>),
    BodyCutShort,
    FileContents(Seq<u8>),
    FileUnreadable,
    FileStored,
    FileNotStored,
    Compressed(CompressedView),
}

impl View for Event {
    type V = EventView;

    open spec fn view(&self) -> EventView {
        match self {
            Event::Line(line) => EventView::Line(line@),
            Event::EndOfStream => EventView::EndOfStream,
            Event::Failed => EventView::Failed,
            Event::Body(body) => EventView::Body(body@),
            Event::BodyCutShort => EventView::BodyCutShort,
            Event::FileContents(contents) => EventView::FileContents(contents@),
            Event::FileUnreadable => EventView::FileUnreadable,
            Event::FileStored => EventView::FileStored,
            Event::FileNotStored => EventView::FileNotStored,
            Event::Compressed(outcome) => EventView::Compressed(outcome@),
        }
    }
}

/// What is to be done next.
#[derive(Debug, PartialEq, Eq)]
pub enum Action {
    /// Read one line from the stream. Answer with `Line`, `EndOfStream` or
    /// `Failed`.
    ReadLine,
    /// Read exactly `len` bytes from the stream. Answer with `Body` or
    /// `BodyCutShort`.
    ReadBody { len: usize },
    /// Read the whole file of that name. Answer with `FileContents` or
    /// `FileUnreadable`.
    ReadFile { name: Vec<u8> },
    /// Write `contents` to the file of that name, in place of what it held.
    /// Answer with `FileStored` or `FileNotStored`.
    StoreFile { name: Vec<u8>, contents: Vec<u8> },
    /// Compress `data`. Answer with `Compressed`.
    Compress { data: Vec<u8> },
    /// Send the response, then read one line from the stream. Answer with
    /// `Failed` if sending failed, else as for `ReadLine`.
    Reply(Response),
    /// Let go of the connection.
    Close,
}

pub enum ActionView {
    ReadLine,
    ReadBody { len: usize },
    ReadFile { name: Seq<u8> },
    StoreFile { name: Seq<u8>, contents: Seq<u8> },
    Compress { data: Seq<u8> },
    Reply(ResponseView),
    Close,
}

impl View for Action {
    type V = ActionView;

    open spec fn view(&self) -> ActionView {
        match self {
            Action::ReadLine => ActionView::ReadLine,
            Action::ReadBody { len } => ActionView::ReadBody { len: *len },
            Action::ReadFile { name } => ActionView::ReadFile { name: name@ },
            Action::StoreFile { name, contents } => ActionView::StoreFile {
                name: name@,
                contents: contents@,
            },
            Action::Compress { data } => ActionView::Compress { data: data@ },
            Action::Reply(response) => ActionView::Reply(response@),
            Action::Close => ActionView::Close,
        }
    }
}

/// Where a connection stands.
#[derive(Debug)]
pub enum Connection {
    /// Waiting for a request line.
    AwaitingRequest,
    /// The request line is in; waiting for header lines.
    AwaitingHeaders(Request),
    /// Waiting for the `len` bytes that go into the file `name`.
    AwaitingBody { name: Vec<u8>, len: usize },
    /// Waiting for the contents of the file asked for.
    AwaitingFile,
    /// Waiting to hear whether the file was written.
    AwaitingStore,
    /// Waiting for the compressed payload of an echo.
    AwaitingStream,
    /// Done: nothing more is read or sent.
    Closed,
}

pub enum ConnectionView {
    AwaitingRequest,
    AwaitingHeaders(RequestView),
    AwaitingBody { name: Seq<u8>, len: usize },
    AwaitingFile,
    AwaitingStore,
    AwaitingStream,
    Closed,
}

impl View for Connection {
    type V = ConnectionView;

    open spec fn view(&self) -> ConnectionView {
        match self {
            Connection::AwaitingRequest => ConnectionView::AwaitingRequest,
            Connection::AwaitingHeaders(request) => ConnectionView::AwaitingHeaders(request@),
            Connection::AwaitingBody { name, len } => ConnectionView::AwaitingBody {
                name: name@,
                len: *len,
            },
            Connection::AwaitingFile => ConnectionView::AwaitingFile,
            Connection::AwaitingStore => ConnectionView::AwaitingStore,
            Connection::AwaitingStream => ConnectionView::AwaitingStream,
            Connection::Closed => ConnectionView::Closed,
        }
    }
}

/// Send `response` and wait for the next request.
pub open spec fn reply(response: ResponseView) -> (ConnectionView, ActionView) {
    (ConnectionView::AwaitingRequest, ActionView::Reply(response))
}

/// Send nothing and let go.
pub open spec fn close() -> (ConnectionView, ActionView) {
    (ConnectionView::Closed, ActionView::Close)
}

/// What a request whose head is complete leads to.
///
/// A route that needs nothing from outside is answered at once. An echo for
/// a client that takes gzip waits for the compressed payload, a file request
/// for the file store. Only a file upload reads a body.
pub open spec fn dispatch(request: RequestView) -> (ConnectionView, ActionView) {
    let target = request.target;
    let headers = request.headers;
    match request.route() {
        Route::Echo => if encoding::accepts_gzip(headers) {
            (
                ConnectionView::AwaitingStream,
                ActionView::Compress { data: request::echo_payload(target) },
            )
        } else {
            reply(ResponseView::text(request::echo_payload(target)))
        },
        Route::UserAgent => if headers.contains_key("user-agent".spec_bytes()) {
            reply(ResponseView::text(headers["user-agent".spec_bytes()]))
        } else {
            reply(ResponseView::bare(Status::BadRequest))
        },
        Route::FileRead => (
            ConnectionView::AwaitingFile,
            ActionView::ReadFile { name: request::file_name(target) },
        ),
        Route::FileWrite => (
            ConnectionView::AwaitingBody {
                name: request::file_name(target),
                len: headers::body_length(headers),
            },
            ActionView::ReadBody { len: headers::body_length(headers) },
        ),
        Route::Root => reply(ResponseView::bare(Status::Okay)),
        Route::NotFound => reply(ResponseView::bare(Status::NotFound)),
    }
}

/// The state that follows `state` on `event`, and what is to be done then.
///
/// An event that `state` does not wait for closes the connection, and so
/// does a compression that delivers no stream: there is nothing then that
/// could be sent as gzip.
pub open spec fn next(state: ConnectionView, event: EventView) -> (ConnectionView, ActionView) {
    match state {
        ConnectionView::AwaitingRequest => match event {
            EventView::Line(line) => match RequestView::opened_by(line) {
                Some(request) => (ConnectionView::AwaitingHeaders(request), ActionView::ReadLine),
                None => close(),
            },
            _ => close(),
        },
        ConnectionView::AwaitingHeaders(request) => match event {
            EventView::Line(line) => if text::is_blank(line) {
                dispatch(request)
            } else {
                (
                    ConnectionView::AwaitingHeaders(
                        RequestView {
                            headers: headers::with_line(request.headers, line),
                            ..request
                        },
                    ),
                    ActionView::ReadLine,
                )
            },
            EventView::EndOfStream => dispatch(request),
            _ => close(),
        },
        ConnectionView::AwaitingBody { name, len } => match event {
            EventView::Body(body) => if body.len() == len {
                (ConnectionView::AwaitingStore, ActionView::StoreFile { name, contents: body })
            } else {
                reply(ResponseView::bare(Status::BadRequest))
            },
            EventView::BodyCutShort => reply(ResponseView::bare(Status::BadRequest)),
            _ => close(),
        },
        ConnectionView::AwaitingFile => match event {
            EventView::FileContents(contents) => reply(ResponseView::file(contents)),
            EventView::FileUnreadable => reply(ResponseView::bare(Status::NotFound)),
            _ => close(),
        },
        ConnectionView::AwaitingStore => match event {
            EventView::FileStored => reply(ResponseView::bare(Status::Created)),
            EventView::FileNotStored => reply(ResponseView::bare(Status::InternalServerError)),
            _ => close(),
        },
        ConnectionView::AwaitingStream => match event {
            EventView::Compressed(CompressedView::Stream(stream)) => reply(
                ResponseView::gzipped_text(stream),
            ),
            _ => close(),
        },
        ConnectionView::Closed => close(),
    }
}

/// What [`Connection::step`] leads to on `event` in `state`: what [`next`]
/// says, and where that is to compress, what [`next`] says once the data is
/// compressed.
pub open spec fn step_of(state: ConnectionView, event: EventView) -> (ConnectionView, ActionView) {
    let (waiting, action) = next(state, event);
    match action {
        ActionView::Compress { data } => next(
            waiting,
            EventView::Compressed(encoding::compressed(data)),
        ),
        _ => (waiting, action),
    }
}

impl Connection {
    /// A connection that was just accepted, and the first thing to do on it.
    pub fn open() -> (out: (Connection, Action))
        ensures
            out.0@ == ConnectionView::AwaitingRequest,
            out.1@ == ActionView::ReadLine,
    {
        (Connection::AwaitingRequest, Action::ReadLine)
    }

    pub fn is_closed(&self) -> (yes: bool)
        ensures
            yes == (self@ is Closed),
    {
        match self {
            Connection::Closed => true,
            _ => false,
        }
    }

    /// Acts on a request whose head is complete.
    pub fn dispatch(request: Request) -> (out: (Connection, Action))
        ensures
            (out.0@, out.1@) == dispatch(request@),
    {
        let target = request.target;
        let headers = request.headers;
        match request::route(request.method.as_slice(), target.as_slice()) {
            Route::Echo => {
                let payload = vstd::slice::slice_to_vec(request::payload_of(target.as_slice()));
                if encoding::allows_gzip(&headers) {
                    (Connection::AwaitingStream, Action::Compress { data: payload })
                } else {
                    (Connection::AwaitingRequest, Action::Reply(Response::text(payload)))
                }
            },
            Route::UserAgent => match headers.get("user-agent".as_bytes()) {
                Some(agent) => {
                    let body = vstd::slice::slice_to_vec(agent.as_slice());
                    (Connection::AwaitingRequest, Action::Reply(Response::text(body)))
                },
                None => (
                    Connection::AwaitingRequest,
                    Action::Reply(Response::bare(Status::BadRequest)),
                ),
            },
            Route::FileRead => {
                let name = vstd::slice::slice_to_vec(request::file_of(target.as_slice()));
                (Connection::AwaitingFile, Action::ReadFile { name })
            },
            Route::FileWrite => {
                let name = vstd::slice::slice_to_vec(request::file_of(target.as_slice()));
                let len = headers.content_length();
                (Connection::AwaitingBody { name, len }, Action::ReadBody { len })
            },
            Route::Root => (
                Connection::AwaitingRequest,
                Action::Reply(Response::bare(Status::Okay)),
            ),
            Route::NotFound => (
                Connection::AwaitingRequest,
                Action::Reply(Response::bare(Status::NotFound)),
            ),
        }
    }

    /// Takes one event in and says what to do next. To compress is one of
    /// the things it may ask for.
    pub fn advance(self, event: Event) -> (out: (Connection, Action))
        ensures
            (out.0@, out.1@) == next(self@, event@),
    {
        match self {
            Connection::AwaitingRequest => match event {
                Event::Line(line) => match Request::open(line.as_slice()) {
                    Some(request) => (Connection::AwaitingHeaders(request), Action::ReadLine),
                    None => (Connection::Closed, Action::Close),
                },
                _ => (Connection::Closed, Action::Close),
            },
            Connection::AwaitingHeaders(request) => match event {
                Event::Line(line) => {
                    if text::trim(line.as_slice()).len() == 0 {
                        Connection::dispatch(request)
                    } else {
                        let mut request = request;
                        request.headers.add_line(line.as_slice());
                        (Connection::AwaitingHeaders(request), Action::ReadLine)
                    }
                },
                Event::EndOfStream => Connection::dispatch(request),
                _ => (Connection::Closed, Action::Close),
            },
            Connection::AwaitingBody { name, len } => match event {
                Event::Body(body) => {
                    if body.len() == len {
                        (Connection::AwaitingStore, Action::StoreFile { name, contents: body })
                    } else {
                        (
                            Connection::AwaitingRequest,
                            Action::Reply(Response::bare(Status::BadRequest)),
                        )
                    }
                },
                Event::BodyCutShort => (
                    Connection::AwaitingRequest,
                    Action::Reply(Response::bare(Status::BadRequest)),
                ),
                _ => (Connection::Closed, Action::Close),
            },
            Connection::AwaitingFile => match event {
                Event::FileContents(contents) => (
                    Connection::AwaitingRequest,
                    Action::Reply(Response::file(contents)),
                ),
                Event::FileUnreadable => (
                    Connection::AwaitingRequest,
                    Action::Reply(Response::bare(Status::NotFound)),
                ),
                _ => (Connection::Closed, Action::Close),
            },
            Connection::AwaitingStore => match event {
                Event::FileStored => (
                    Connection::AwaitingRequest,
                    Action::Reply(Response::bare(Status::Created)),
                ),
                Event::FileNotStored => (
                    Connection::AwaitingRequest,
                    Action::Reply(Response::bare(Status::InternalServerError)),
                ),
                _ => (Connection::Closed, Action::Close),
            },
            Connection::AwaitingStream => match event {
                Event::Compressed(Compressed::Stream(stream)) => (
                    Connection::AwaitingRequest,
                    Action::Reply(Response::gzipped_text(stream)),
                ),
                _ => (Connection::Closed, Action::Close),
            },
            Connection::Closed => (Connection::Closed, Action::Close),
        }
    }

    /// Takes one event in and says what to do next on the stream or in the
    /// file store. Where the answer has to be compressed, that is done here.
    pub fn step(self, event: Event) -> (out: (Connection, Action))
        ensures
            (out.0@, out.1@) == step_of(self@, event@),
            !(out.1@ is Compress),
    {
        let (state, action) = self.advance(event);
        match action {
            Action::Compress { data } => {
                let outcome = encoding::compress(data.as_slice());
                state.advance(Event::Compressed(outcome))
            },
            other => (state, other),
        }
    }
}

} // verus!
