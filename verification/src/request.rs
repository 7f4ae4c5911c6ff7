//! Requests: the request line, and the route that method and target select.

use crate::headers::Headers;
use crate::text;
use vstd::prelude::*;
use vstd::string::StringSliceAdditionalSpecFns;

verus! {

/// Method and target of a request line: its first two runs of bytes that are
/// no white space. A line with fewer than two holds no request.
pub open spec fn request_line(line: Seq<u8>) -> Option<(Seq<u8>, Seq<u8>)> {
    let method_start = text::skip_spaces(line, 0);
    let method_end = text::skip_word(line, method_start);
    let target_start = text::skip_spaces(line, method_end);
    let target_end = text::skip_word(line, target_start);
    if method_start < method_end && target_start < target_end {
        Some((line.subrange(method_start, method_end), line.subrange(target_start, target_end)))
    } else {
        None
    }
}

/// `s` is a word: it is not empty and holds no white space.
pub open spec fn is_word(s: Seq<u8>) -> bool {
    s.len() > 0 && forall|i: int| 0 <= i < s.len() ==> !text::is_space(#[trigger] s[i])
}

/// A line made of a method, one space, a target, and then nothing or white
/// space and anything else holds that method and that target.
pub proof fn request_line_reads_back(method: Seq<u8>, target: Seq<u8>, rest: Seq<u8>)
    requires
        is_word(method),
        is_word(target),
        rest.len() > 0 ==> text::is_space(rest[0]),
    ensures
        request_line(method + seq![0x20u8] + target + rest) == Some((method, target)),
{
    let line = method + seq![0x20u8] + target + rest;
    let a = method.len() as int;
    let b = a + 1 + target.len();
    assert forall|i: int| 0 <= i < a implies !text::is_space(#[trigger] line[i]) by {
        assert(line[i] == method[i]);
    }
    assert forall|i: int| a + 1 <= i < b implies !text::is_space(#[trigger] line[i]) by {
        assert(line[i] == target[i - a - 1]);
    }
    assert(line[a] == 0x20u8);
    if b < line.len() {
        assert(line[b] == rest[0]);
    }
    text::lemma_skip_spaces_to(line, 0, 0);
    text::lemma_skip_word_to(line, 0, a);
    text::lemma_skip_spaces_to(line, a, a + 1);
    text::lemma_skip_word_to(line, a + 1, b);
    assert(line.subrange(0, a) =~= method);
    assert(line.subrange(a + 1, b) =~= target);
}

/// The head of a request. Method and target stand as they came, the target
/// not decoded.
#[derive(Debug)]
pub struct Request {
    pub method: Vec<u8>,
    pub target: Vec<u8>,
    pub headers: Headers,
}

pub struct RequestView {
    pub method: Seq<u8>,
    pub target: Seq<u8>,
    pub headers: Map<Seq<u8>, Seq<u8>>,
}

impl View for Request {
    type V = RequestView;

    open spec fn view(&self) -> RequestView {
        RequestView { method: self.method@, target: self.target@, headers: self.headers@ }
    }
}

impl RequestView {
    /// The request that a request line opens: it has no header fields yet.
    pub open spec fn opened_by(line: Seq<u8>) -> Option<RequestView> {
        match request_line(line) {
            Some((method, target)) => Some(RequestView { method, target, headers: Map::empty() }),
            None => None,
        }
    }

    pub open spec fn route(self) -> Route {
        route_of(self.method, self.target)
    }
}

/// What a request asks for.
#[derive(Clone, Copy, PartialEq, Eq, Debug, Structural)]
pub enum Route {
    /// Send back what follows `/echo/` in the target.
    Echo,
    /// Send back the value of the `User-Agent` field.
    UserAgent,
    /// Send the file that is named behind `/files/`.
    FileRead,
    /// Store the request body in the file that is named behind `/files/`.
    FileWrite,
    /// The empty answer to `/`.
    Root,
    /// Nothing that this server offers.
    NotFound,
}

/// The route of a request. The rules are tried in the order written and the
/// first that fits decides; the method is compared as it stands, in capitals.
pub open spec fn route_of(method: Seq<u8>, target: Seq<u8>) -> Route {
    let get = method == "GET".spec_bytes();
    let post = method == "POST".spec_bytes();
    let files = "/files/".spec_bytes().is_prefix_of(target);
    if get && "/echo/".spec_bytes().is_prefix_of(target) {
        Route::Echo
    } else if get && target == "/user-agent".spec_bytes() {
        Route::UserAgent
    } else if files && get {
        Route::FileRead
    } else if files && post {
        Route::FileWrite
    } else if get && target == "/".spec_bytes() {
        Route::Root
    } else {
        Route::NotFound
    }
}

/// What follows the first `n` bytes of `s`; nothing where `s` is shorter.
pub open spec fn rest_after(s: Seq<u8>, n: nat) -> Seq<u8> {
    if n <= s.len() {
        s.skip(n as int)
    } else {
        Seq::empty()
    }
}

/// What an echo request wants back: the target behind `/echo/`, as it came.
pub open spec fn echo_payload(target: Seq<u8>) -> Seq<u8> {
    rest_after(target, "/echo/".spec_bytes().len())
}

/// The file that a file request names: the target behind `/files/`, as it
/// came. It is neither decoded nor checked: it may hold `..` or begin with a
/// `/`, and who maps it to a path decides what to allow.
pub open spec fn file_name(target: Seq<u8>) -> Seq<u8> {
    rest_after(target, "/files/".spec_bytes().len())
}

/// Reads method and target off a request line.
pub fn parse_request_line(line: &[u8]) -> (out: Option<(Vec<u8>, Vec<u8>)>)
    ensures
        match out {
            Some((method, target)) => request_line(line@) == Some((method@, target@)),
            None => request_line(line@) is None,
        },
{
    let method_start = text::after_spaces(line, 0);
    let method_end = text::after_word(line, method_start);
    let target_start = text::after_spaces(line, method_end);
    let target_end = text::after_word(line, target_start);
    proof {
        text::lemma_skip_spaces(line@, 0);
        text::lemma_skip_word(line@, method_start as int);
        text::lemma_skip_spaces(line@, method_end as int);
        text::lemma_skip_word(line@, target_start as int);
    }
    if method_start < method_end && target_start < target_end {
        let method = vstd::slice::slice_to_vec(
            vstd::slice::slice_subrange(line, method_start, method_end),
        );
        let target = vstd::slice::slice_to_vec(
            vstd::slice::slice_subrange(line, target_start, target_end),
        );
        Some((method, target))
    } else {
        None
    }
}

impl Request {
    /// Begins a request with the method and target of `line`. `None` where
    /// the line holds no request.
    pub fn open(line: &[u8]) -> (out: Option<Request>)
        ensures
            match out {
                Some(request) => RequestView::opened_by(line@) == Some(request@),
                None => RequestView::opened_by(line@) is None,
            },
    {
        match parse_request_line(line) {
            Some((method, target)) => Some(Request { method, target, headers: Headers::new() }),
            None => None,
        }
    }

    pub fn route(&self) -> (out: Route)
        ensures
            out == self@.route(),
    {
        route(self.method.as_slice(), self.target.as_slice())
    }
}

/// Finds the route of a method and a target.
pub fn route(method: &[u8], target: &[u8]) -> (out: Route)
    ensures
        out == route_of(method@, target@),
{
    let get = text::same_bytes(method, "GET".as_bytes());
    let post = text::same_bytes(method, "POST".as_bytes());
    let files = text::starts_with(target, "/files/".as_bytes());
    if get && text::starts_with(target, "/echo/".as_bytes()) {
        Route::Echo
    } else if get && text::same_bytes(target, "/user-agent".as_bytes()) {
        Route::UserAgent
    } else if files && get {
        Route::FileRead
    } else if files && post {
        Route::FileWrite
    } else if get && text::same_bytes(target, "/".as_bytes()) {
        Route::Root
    } else {
        Route::NotFound
    }
}

/// The bytes of `s` from position `n` on.
pub fn skip_prefix(s: &[u8], n: usize) -> (out: &[u8])
    ensures
        out@ == rest_after(s@, n as nat),
{
    if n <= s.len() {
        vstd::slice::slice_subrange(s, n, s.len())
    } else {
        let out = vstd::slice::slice_subrange(s, 0, 0);
        assert(out@ =~= Seq::<u8>::empty());
        out
    }
}

/// The payload of an echo request.
pub fn payload_of(target: &[u8]) -> (out: &[u8])
    ensures
        out@ == echo_payload(target@),
{
    skip_prefix(target, "/echo/".as_bytes().len())
}

/// The file name of a file request.
pub fn file_of(target: &[u8]) -> (out: &[u8])
    ensures
        out@ == file_name(target@),
{
    skip_prefix(target, "/files/".as_bytes().len())
}

} // verus!
