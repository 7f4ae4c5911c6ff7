//! What a client can count on, proved of the machine in [`crate::connection`].
//!
//! Each statement here is about whole exchanges: a request whose head is
//! complete, what comes back from outside, and the response that goes out.

use crate::connection::{
    close, dispatch, next, reply, step_of, ActionView, ConnectionView, EventView,
};
use crate::encoding;
use crate::encoding::CompressedView;
use crate::headers;
use crate::request;
use crate::request::{RequestView, Route};
use crate::response::{
    content_length_line, content_type_line, status_line, ContentType, ResponseView, Status,
};
use crate::text;
use vstd::prelude::*;
use vstd::string::StringSliceAdditionalSpecFns;

verus! {

/// `GET` on `/echo/` and `payload`, with the header fields given.
pub open spec fn get_echo(payload: Seq<u8>, headers: Map<Seq<u8>, Seq<u8>>) -> RequestView {
    RequestView { method: "GET".spec_bytes(), target: "/echo/".spec_bytes() + payload, headers }
}

/// `GET` on `/files/` and `name`, with the header fields given.
pub open spec fn get_file(name: Seq<u8>, headers: Map<Seq<u8>, Seq<u8>>) -> RequestView {
    RequestView { method: "GET".spec_bytes(), target: "/files/".spec_bytes() + name, headers }
}

/// `POST` on `/files/` and `name`, with the header fields given.
pub open spec fn post_file(name: Seq<u8>, headers: Map<Seq<u8>, Seq<u8>>) -> RequestView {
    RequestView { method: "POST".spec_bytes(), target: "/files/".spec_bytes() + name, headers }
}

/// `GET` on `/user-agent`, with the header fields given.
pub open spec fn get_user_agent(headers: Map<Seq<u8>, Seq<u8>>) -> RequestView {
    RequestView { method: "GET".spec_bytes(), target: "/user-agent".spec_bytes(), headers }
}

/// A request line opens a request: on a line made of a method, one space, a
/// target, and then nothing or white space and anything else, a connection
/// that waits for a request takes method and target as they stand and goes
/// on to read header lines.
pub proof fn a_request_line_opens_a_request(method: Seq<u8>, target: Seq<u8>, rest: Seq<u8>)
    requires
        request::is_word(method),
        request::is_word(target),
        rest.len() > 0 ==> text::is_space(rest[0]),
    ensures
        next(
            ConnectionView::AwaitingRequest,
            EventView::Line(method + seq![0x20u8] + target + rest),
        ) == (
            ConnectionView::AwaitingHeaders(RequestView { method, target, headers: Map::empty() }),
            ActionView::ReadLine,
        ),
{
    request::request_line_reads_back(method, target, rest);
}

/// A header line adds its field: on a line made of a name without a colon,
/// a colon, and anything else, a connection that reads header lines keeps
/// the request, now with the value under the name in lower case, both
/// without the white space around them, and goes on to read header lines.
pub proof fn a_header_line_adds_a_field(request: RequestView, name: Seq<u8>, rest: Seq<u8>)
    requires
        forall|i: int| 0 <= i < name.len() ==> name[i] != headers::COLON,
    ensures
        next(
            ConnectionView::AwaitingHeaders(request),
            EventView::Line(name + seq![headers::COLON] + rest),
        ) == (
            ConnectionView::AwaitingHeaders(
                RequestView {
                    headers: request.headers.insert(
                        text::lowered(text::trimmed(name)),
                        text::trimmed(rest),
                    ),
                    ..request
                },
            ),
            ActionView::ReadLine,
        ),
{
    let line = name + seq![headers::COLON] + rest;
    headers::field_reads_back(name, rest);
    assert(line[name.len() as int] == headers::COLON);
    text::lemma_not_blank(line, name.len() as int);
}

/// A file store that keeps what it is given: what it does on a file action,
/// as the store that it becomes and the event that it reports.
pub open spec fn kept_by(store: Map<Seq<u8>, Seq<u8>>, action: ActionView) -> (
    Map<Seq<u8>, Seq<u8>>,
    EventView,
)
    recommends
        action is ReadFile || action is StoreFile,
{
    match action {
        ActionView::StoreFile { name, contents } => (
            store.insert(name, contents),
            EventView::FileStored,
        ),
        ActionView::ReadFile { name } => if store.contains_key(name) {
            (store, EventView::FileContents(store[name]))
        } else {
            (store, EventView::FileUnreadable)
        },
        _ => (store, EventView::Failed),
    }
}

/// The bytes of the literals that the routes are told apart by.
proof fn lemma_route_words()
    ensures
        "GET".spec_bytes() =~= seq![0x47u8, 0x45u8, 0x54u8],
        "POST".spec_bytes() =~= seq![0x50u8, 0x4fu8, 0x53u8, 0x54u8],
        "/".spec_bytes() =~= seq![0x2fu8],
        "/echo/".spec_bytes() =~= seq![0x2fu8, 0x65u8, 0x63u8, 0x68u8, 0x6fu8, 0x2fu8],
        "/files/".spec_bytes() =~= seq![0x2fu8, 0x66u8, 0x69u8, 0x6cu8, 0x65u8, 0x73u8, 0x2fu8],
        "/user-agent".spec_bytes().len() == 11,
        "/user-agent".spec_bytes()[1] == 0x75u8,
{
    reveal_strlit("GET");
    reveal_strlit("POST");
    reveal_strlit("/");
    reveal_strlit("/echo/");
    reveal_strlit("/files/");
    reveal_strlit("/user-agent");
    vstd::string::is_ascii_spec_bytes("GET");
    vstd::string::is_ascii_spec_bytes("POST");
    vstd::string::is_ascii_spec_bytes("/");
    vstd::string::is_ascii_spec_bytes("/echo/");
    vstd::string::is_ascii_spec_bytes("/files/");
    vstd::string::is_ascii_spec_bytes("/user-agent");
}

/// `GET` on `/echo/` and a payload is an echo of that payload, whatever the
/// payload holds.
pub proof fn lemma_echo_route(payload: Seq<u8>, headers: Map<Seq<u8>, Seq<u8>>)
    ensures
        get_echo(payload, headers).route() == Route::Echo,
        request::echo_payload(get_echo(payload, headers).target) == payload,
{
    let prefix = "/echo/".spec_bytes();
    let target = get_echo(payload, headers).target;
    assert(target.subrange(0, prefix.len() as int) =~= prefix);
    assert(target.skip(prefix.len() as int) =~= payload);
}

/// `GET` on `/files/` and a name reads the file of that name, `POST` writes
/// it, whatever the name holds.
pub proof fn lemma_file_routes(name: Seq<u8>, headers: Map<Seq<u8>, Seq<u8>>)
    ensures
        get_file(name, headers).route() == Route::FileRead,
        post_file(name, headers).route() == Route::FileWrite,
        request::file_name(get_file(name, headers).target) == name,
        request::file_name(post_file(name, headers).target) == name,
{
    lemma_route_words();
    let prefix = "/files/".spec_bytes();
    let target = get_file(name, headers).target;
    assert(target.subrange(0, prefix.len() as int) =~= prefix);
    assert(target.skip(prefix.len() as int) =~= name);
    assert(target[1] == 0x66u8);
    let echo = "/echo/".spec_bytes();
    if echo.is_prefix_of(target) {
        assert(target.subrange(0, echo.len() as int)[1] == echo[1]);
    }
}

/// An echo for a client that does not ask for gzip is answered `200 OK`,
/// as plain text, with the payload itself as the body, byte for byte, and
/// with the number of its bytes as `Content-Length`. The connection then
/// waits for the next request.
pub proof fn echo_sends_the_payload_back(
    payload: Seq<u8>,
    headers: Map<Seq<u8>, Seq<u8>>,
    line: Seq<u8>,
)
    requires
        !encoding::accepts_gzip(headers),
        text::is_blank(line),
    ensures
        step_of(ConnectionView::AwaitingHeaders(get_echo(payload, headers)), EventView::Line(line))
            == reply(ResponseView::text(payload)),
        ResponseView::text(payload).status == Status::Okay,
        !ResponseView::text(payload).gzip,
        ResponseView::text(payload).body == payload,
        ResponseView::text(payload).wire() == status_line(Status::Okay) + content_type_line(
            Some(ContentType::TextPlain),
        ) + content_length_line(payload.len()) + "\r\n".spec_bytes() + payload,
{
    lemma_echo_route(payload, headers);
    let response = ResponseView::text(payload);
    assert(response.head() =~= status_line(Status::Okay) + content_type_line(
        Some(ContentType::TextPlain),
    ) + content_length_line(payload.len()) + "\r\n".spec_bytes());
}

/// An echo for a client that asks for gzip is answered with what the
/// encoder makes of the payload. The answer is `200 OK`, announced as gzip,
/// its body is the gzip stream of the payload, and `Content-Length` is the
/// length of that stream, not of the payload. Where the encoder makes no
/// stream of the payload, the connection closes without an answer.
pub proof fn echo_sends_the_gzip_stream(
    payload: Seq<u8>,
    headers: Map<Seq<u8>, Seq<u8>>,
    line: Seq<u8>,
)
    requires
        encoding::accepts_gzip(headers),
        text::is_blank(line),
    ensures
        step_of(ConnectionView::AwaitingHeaders(get_echo(payload, headers)), EventView::Line(line))
            == match encoding::compressed(payload) {
            CompressedView::Stream(stream) => reply(ResponseView::gzipped_text(stream)),
            _ => close(),
        },
        encoding::compressed(payload) matches CompressedView::Stream(stream) ==> {
            let response = ResponseView::gzipped_text(stream);
            &&& response.status == Status::Okay
            &&& response.gzip
            &&& response.body == stream
            &&& response.content_length() == stream.len()
            &&& response.wire() == status_line(Status::Okay) + content_type_line(
                Some(ContentType::TextPlain),
            ) + "Content-Encoding: gzip\r\n".spec_bytes() + content_length_line(stream.len())
                + "\r\n".spec_bytes() + stream
        },
{
    lemma_echo_route(payload, headers);
    if let CompressedView::Stream(stream) = encoding::compressed(payload) {
        let response = ResponseView::gzipped_text(stream);
        assert(response.head() =~= status_line(Status::Okay) + content_type_line(
            Some(ContentType::TextPlain),
        ) + "Content-Encoding: gzip\r\n".spec_bytes() + content_length_line(stream.len())
            + "\r\n".spec_bytes());
    }
}

/// What the encoder delivers is what goes out: the answer to a finished
/// compression holds the stream as its body, and its head announces gzip and
/// the length of the stream. A compression that did not deliver closes the
/// connection without an answer.
pub proof fn gzip_answer_frames_the_stream(stream: Seq<u8>)
    ensures
        next(
            ConnectionView::AwaitingStream,
            EventView::Compressed(CompressedView::Stream(stream)),
        ) == reply(ResponseView::gzipped_text(stream)),
        next(ConnectionView::AwaitingStream, EventView::Compressed(CompressedView::Unfinished))
            == close(),
        next(ConnectionView::AwaitingStream, EventView::Compressed(CompressedView::Rejected))
            == close(),
        ResponseView::gzipped_text(stream).wire() == status_line(Status::Okay) + content_type_line(
            Some(ContentType::TextPlain),
        ) + "Content-Encoding: gzip\r\n".spec_bytes() + content_length_line(stream.len())
            + "\r\n".spec_bytes() + stream,
{
    let response = ResponseView::gzipped_text(stream);
    assert(response.head() =~= status_line(Status::Okay) + content_type_line(
        Some(ContentType::TextPlain),
    ) + "Content-Encoding: gzip\r\n".spec_bytes() + content_length_line(stream.len())
        + "\r\n".spec_bytes());
}

/// A file that was stored is read back as it was. `POST` on a file with a
/// body of the length announced has the body written under the name in the
/// target and is answered `201 Created`. With a store that keeps what it is
/// given, a later `GET` on the same target is answered `200 OK` with that
/// body, byte for byte, also where the body is empty.
pub proof fn stored_file_is_read_back(
    name: Seq<u8>,
    body: Seq<u8>,
    post_headers: Map<Seq<u8>, Seq<u8>>,
    get_headers: Map<Seq<u8>, Seq<u8>>,
    store: Map<Seq<u8>, Seq<u8>>,
)
    requires
        headers::body_length(post_headers) == body.len(),
    ensures
        ({
            let asked = dispatch(post_file(name, post_headers));
            let written = next(asked.0, EventView::Body(body));
            let stored = kept_by(store, written.1);
            let created = next(written.0, stored.1);
            let sought = dispatch(get_file(name, get_headers));
            let found = kept_by(stored.0, sought.1);
            let answered = next(sought.0, found.1);
            &&& asked.1 == ActionView::ReadBody { len: body.len() as usize }
            &&& written.1 == ActionView::StoreFile { name, contents: body }
            &&& created == reply(ResponseView::bare(Status::Created))
            &&& sought.1 == ActionView::ReadFile { name }
            &&& answered == reply(ResponseView::file(body))
            &&& ResponseView::file(body).status == Status::Okay
            &&& ResponseView::file(body).body == body
        }),
{
    lemma_file_routes(name, post_headers);
    lemma_file_routes(name, get_headers);
}

/// A file that the store cannot read is answered `404 Not Found` with an
/// empty body, whatever its name.
pub proof fn missing_file_is_not_found(
    name: Seq<u8>,
    headers: Map<Seq<u8>, Seq<u8>>,
    store: Map<Seq<u8>, Seq<u8>>,
)
    requires
        !store.contains_key(name),
    ensures
        ({
            let sought = dispatch(get_file(name, headers));
            let found = kept_by(store, sought.1);
            let answered = next(sought.0, found.1);
            &&& sought.1 == ActionView::ReadFile { name }
            &&& answered == reply(ResponseView::bare(Status::NotFound))
            &&& ResponseView::bare(Status::NotFound).body.len() == 0
            &&& ResponseView::bare(Status::NotFound).content_length() == 0
        }),
{
    lemma_file_routes(name, headers);
}

/// `GET /user-agent` is answered `200 OK` with the value of the
/// `User-Agent` field as the body where the request has that field, and
/// `400 Bad Request` with an empty body where it has none.
pub proof fn user_agent_is_sent_back(headers: Map<Seq<u8>, Seq<u8>>)
    ensures
        get_user_agent(headers).route() == Route::UserAgent,
        dispatch(get_user_agent(headers)) == if headers.contains_key("user-agent".spec_bytes()) {
            reply(ResponseView::text(headers["user-agent".spec_bytes()]))
        } else {
            reply(ResponseView::bare(Status::BadRequest))
        },
{
    lemma_route_words();
    let target = "/user-agent".spec_bytes();
    let echo = "/echo/".spec_bytes();
    if echo.is_prefix_of(target) {
        assert(target.subrange(0, echo.len() as int)[1] == echo[1]);
    }
}

/// A request that fits no route is answered `404 Not Found` with an empty
/// body.
pub proof fn unmatched_route_is_not_found(request: RequestView)
    requires
        request.route() == Route::NotFound,
    ensures
        dispatch(request) == reply(ResponseView::bare(Status::NotFound)),
        ResponseView::bare(Status::NotFound).body.len() == 0,
{
}

/// A step is what [`next`] says, except where that is to compress. To
/// compress is asked for nothing but an echo to a client that takes gzip,
/// what is compressed is the payload, and the step itself never asks for it.
pub proof fn steps_follow_next(state: ConnectionView, event: EventView)
    ensures
        !(next(state, event).1 is Compress) ==> step_of(state, event) == next(state, event),
        !(step_of(state, event).1 is Compress),
        next(state, event).1 matches ActionView::Compress { data } ==> {
            &&& state matches ConnectionView::AwaitingHeaders(request)
            &&& request.route() == Route::Echo
            &&& encoding::accepts_gzip(request.headers)
            &&& data == request::echo_payload(request.target)
            &&& next(state, event).0 is AwaitingStream
        },
{
}

/// Every answer leaves the connection waiting for the next request, as a
/// connection that was just accepted does: nothing of the request answered
/// is kept, so the next one is served on its own. The connection is closed
/// exactly when the machine says to close it, and it never opens again. This
/// holds of [`next`] and of whole steps alike.
pub proof fn replies_keep_the_connection(state: ConnectionView, event: EventView)
    ensures
        next(state, event).1 is Reply ==> next(state, event).0
            == ConnectionView::AwaitingRequest,
        next(state, event).1 is Close <==> next(state, event).0 is Closed,
        state is Closed ==> next(state, event) == close(),
        step_of(state, event).1 is Reply ==> step_of(state, event).0
            == ConnectionView::AwaitingRequest,
        step_of(state, event).1 is Close <==> step_of(state, event).0 is Closed,
        state is Closed ==> step_of(state, event) == close(),
{
}

/// The header fields of a request in the making are tidy.
pub open spec fn holds_tidy_fields(state: ConnectionView) -> bool {
    state matches ConnectionView::AwaitingHeaders(request) ==> headers::is_tidy(request.headers)
}

/// Whatever is read, the header fields that a connection holds are tidy:
/// names in lower case, names and values without white space around them.
/// A connection that was just accepted holds none, and no event untidies
/// them.
pub proof fn fields_stay_tidy(state: ConnectionView, event: EventView)
    ensures
        holds_tidy_fields(ConnectionView::AwaitingRequest),
        holds_tidy_fields(state) ==> holds_tidy_fields(next(state, event).0),
{
    if let ConnectionView::AwaitingHeaders(request) = state {
        if let EventView::Line(line) = event {
            headers::lines_keep_fields_tidy(request.headers, line);
        }
    }
    headers::lines_keep_fields_tidy(Map::empty(), Seq::empty());
}

/// Only a file upload reads a body, and it reads as many bytes as the
/// request announces.
pub proof fn only_uploads_read_a_body(request: RequestView)
    ensures
        dispatch(request).1 is ReadBody <==> request.route() == Route::FileWrite,
        dispatch(request).1 matches ActionView::ReadBody { len } ==> len == headers::body_length(
            request.headers,
        ),
{
}

} // verus!
