//! Responses, and the bytes that go out for them.
//!
//! A response holds no `Content-Length` of its own: the field is written
//! from the body when the head is made, so the two cannot disagree.

use crate::decimal;
use vstd::prelude::*;
use vstd::string::StringSliceAdditionalSpecFns;

verus! {

#[derive(Clone, Copy, PartialEq, Eq, Debug, Structural)]
pub enum Status {
    Okay,
    Created,
    BadRequest,
    NotFound,
    InternalServerError,
}

impl Status {
    pub open spec fn code_of(self) -> u16 {
        match self {
            Status::Okay => 200,
            Status::Created => 201,
            Status::BadRequest => 400,
            Status::NotFound => 404,
            Status::InternalServerError => 500,
        }
    }

    pub open spec fn reason_of(self) -> Seq<u8> {
        match self {
            Status::Okay => "OK".spec_bytes(),
            Status::Created => "Created".spec_bytes(),
            Status::BadRequest => "Bad Request".spec_bytes(),
            Status::NotFound => "Not Found".spec_bytes(),
            Status::InternalServerError => "Internal Server Error".spec_bytes(),
        }
    }

    /// The status code.
    pub fn code(self) -> (out: u16)
        ensures
            out == self.code_of(),
    {
        match self {
            Status::Okay => 200,
            Status::Created => 201,
            Status::BadRequest => 400,
            Status::NotFound => 404,
            Status::InternalServerError => 500,
        }
    }

    /// The reason phrase.
    pub fn reason(self) -> (out: &'static [u8])
        ensures
            out@ == self.reason_of(),
    {
        match self {
            Status::Okay => "OK".as_bytes(),
            Status::Created => "Created".as_bytes(),
            Status::BadRequest => "Bad Request".as_bytes(),
            Status::NotFound => "Not Found".as_bytes(),
            Status::InternalServerError => "Internal Server Error".as_bytes(),
        }
    }
}

#[derive(Clone, Copy, PartialEq, Eq, Debug, Structural)]
pub enum ContentType {
    TextPlain,
    OctetStream,
}

impl ContentType {
    pub open spec fn name_of(self) -> Seq<u8> {
        match self {
            ContentType::TextPlain => "text/plain".spec_bytes(),
            ContentType::OctetStream => "application/octet-stream".spec_bytes(),
        }
    }

    /// The media type as it stands in the `Content-Type` field.
    pub fn name(self) -> (out: &'static [u8])
        ensures
            out@ == self.name_of(),
    {
        match self {
            ContentType::TextPlain => "text/plain".as_bytes(),
            ContentType::OctetStream => "application/octet-stream".as_bytes(),
        }
    }
}

/// `HTTP/1.1`, the code, the reason, and the end of the line.
pub open spec fn status_line(status: Status) -> Seq<u8> {
    "HTTP/1.1 ".spec_bytes() + decimal::decimal(status.code_of() as nat) + " ".spec_bytes()
        + status.reason_of() + "\r\n".spec_bytes()
}

/// The `Content-Type` line, or nothing where the response names no type.
pub open spec fn content_type_line(content_type: Option<ContentType>) -> Seq<u8> {
    match content_type {
        Some(t) => "Content-Type: ".spec_bytes() + t.name_of() + "\r\n".spec_bytes(),
        None => Seq::empty(),
    }
}

/// The `Content-Encoding` line of a compressed body, or nothing.
pub open spec fn content_encoding_line(gzip: bool) -> Seq<u8> {
    if gzip {
        "Content-Encoding: gzip\r\n".spec_bytes()
    } else {
        Seq::empty()
    }
}

/// The `Content-Length` line of a body of `len` bytes.
pub open spec fn content_length_line(len: nat) -> Seq<u8> {
    "Content-Length: ".spec_bytes() + decimal::decimal(len) + "\r\n".spec_bytes()
}

#[derive(Debug, PartialEq, Eq)]
pub struct Response {
    pub status: Status,
    pub content_type: Option<ContentType>,
    /// The body is a gzip stream and is announced as one.
    pub gzip: bool,
    /// The body as it goes out.
    pub body: Vec<u8>,
}

pub struct ResponseView {
    pub status: Status,
    pub content_type: Option<ContentType>,
    pub gzip: bool,
    pub body: Seq<u8>,
}

impl View for Response {
    type V = ResponseView;

    open spec fn view(&self) -> ResponseView {
        ResponseView {
            status: self.status,
            content_type: self.content_type,
            gzip: self.gzip,
            body: self.body@,
        }
    }
}

impl ResponseView {
    /// A response of `status` without a body.
    pub open spec fn bare(status: Status) -> ResponseView {
        ResponseView { status, content_type: None, gzip: false, body: Seq::empty() }
    }

    /// `200 OK` with `body` as plain text.
    pub open spec fn text(body: Seq<u8>) -> ResponseView {
        ResponseView {
            status: Status::Okay,
            content_type: Some(ContentType::TextPlain),
            gzip: false,
            body,
        }
    }

    /// `200 OK` with plain text that went through gzip: `stream` is what
    /// goes out.
    pub open spec fn gzipped_text(stream: Seq<u8>) -> ResponseView {
        ResponseView {
            status: Status::Okay,
            content_type: Some(ContentType::TextPlain),
            gzip: true,
            body: stream,
        }
    }

    /// `200 OK` with the contents of a file.
    pub open spec fn file(contents: Seq<u8>) -> ResponseView {
        ResponseView {
            status: Status::Okay,
            content_type: Some(ContentType::OctetStream),
            gzip: false,
            body: contents,
        }
    }

    /// What `Content-Length` announces: the number of bytes in the body as
    /// it goes out.
    pub open spec fn content_length(self) -> nat {
        self.body.len()
    }

    /// All that goes out before the body: the status line, the header
    /// lines with `Content-Length` last, and the empty line.
    pub open spec fn head(self) -> Seq<u8> {
        status_line(self.status) + content_type_line(self.content_type) + content_encoding_line(
            self.gzip,
        ) + content_length_line(self.content_length()) + "\r\n".spec_bytes()
    }

    /// All that goes out: the head, then the body.
    pub open spec fn wire(self) -> Seq<u8> {
        self.head() + self.body
    }
}

/// Appends `bytes` to `out`.
pub fn append(out: &mut Vec<u8>, bytes: &[u8])
    ensures
        final(out)@ == old(out)@ + bytes@,
{
    let mut i: usize = 0;
    while i < bytes.len()
        invariant
            i <= bytes.len(),
            out@ == old(out)@ + bytes@.take(i as int),
        decreases bytes.len() - i,
    {
        out.push(bytes[i]);
        assert(bytes@.take(i + 1) =~= bytes@.take(i as int).push(bytes@[i as int]));
        i += 1;
    }
    assert(bytes@.take(i as int) =~= bytes@);
}

impl Response {
    /// A response of `status` without a body.
    pub fn bare(status: Status) -> (out: Response)
        ensures
            out@ == ResponseView::bare(status),
    {
        Response { status, content_type: None, gzip: false, body: Vec::new() }
    }

    /// `200 OK` with `body` as plain text.
    pub fn text(body: Vec<u8>) -> (out: Response)
        ensures
            out@ == ResponseView::text(body@),
    {
        Response {
            status: Status::Okay,
            content_type: Some(ContentType::TextPlain),
            gzip: false,
            body,
        }
    }

    /// `200 OK` with plain text that went through gzip.
    pub fn gzipped_text(stream: Vec<u8>) -> (out: Response)
        ensures
            out@ == ResponseView::gzipped_text(stream@),
    {
        Response {
            status: Status::Okay,
            content_type: Some(ContentType::TextPlain),
            gzip: true,
            body: stream,
        }
    }

    /// `200 OK` with the contents of a file.
    pub fn file(contents: Vec<u8>) -> (out: Response)
        ensures
            out@ == ResponseView::file(contents@),
    {
        Response {
            status: Status::Okay,
            content_type: Some(ContentType::OctetStream),
            gzip: false,
            body: contents,
        }
    }

    /// What `Content-Length` announces.
    pub fn content_length(&self) -> (out: usize)
        ensures
            out == self@.content_length(),
    {
        self.body.len()
    }

    /// The bytes to send before the body.
    pub fn head(&self) -> (out: Vec<u8>)
        ensures
            out@ == self@.head(),
    {
        let mut out: Vec<u8> = Vec::new();
        append(&mut out, "HTTP/1.1 ".as_bytes());
        let code = decimal::format(self.status.code() as usize);
        append(&mut out, code.as_slice());
        append(&mut out, " ".as_bytes());
        append(&mut out, self.status.reason());
        append(&mut out, "\r\n".as_bytes());
        assert(out@ =~= status_line(self.status));
        match self.content_type {
            Some(t) => {
                append(&mut out, "Content-Type: ".as_bytes());
                append(&mut out, t.name());
                append(&mut out, "\r\n".as_bytes());
            },
            None => {},
        }
        assert(out@ =~= status_line(self.status) + content_type_line(self.content_type));
        if self.gzip {
            append(&mut out, "Content-Encoding: gzip\r\n".as_bytes());
        }
        assert(out@ =~= status_line(self.status) + content_type_line(self.content_type)
            + content_encoding_line(self.gzip));
        append(&mut out, "Content-Length: ".as_bytes());
        let len = decimal::format(self.body.len());
        append(&mut out, len.as_slice());
        append(&mut out, "\r\n".as_bytes());
        append(&mut out, "\r\n".as_bytes());
        assert(out@ =~= self@.head());
        out
    }

    /// The bytes to send: the head, then the body.
    pub fn to_bytes(&self) -> (out: Vec<u8>)
        ensures
            out@ == self@.wire(),
    {
        let mut out = self.head();
        append(&mut out, self.body.as_slice());
        out
    }
}

} // verus!
