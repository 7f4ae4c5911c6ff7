//! Content negotiation and gzip.
//!
//! Whether a client takes gzip is decided here and proved. The compression
//! itself is flate2's: its encoder is held behind three small functions whose
//! contracts are taken on trust, and [`compress`] is proved from them. What
//! the encoder returns depends on the data alone, so its results have names
//! and [`compressed`] says, over those names, how compressing ends.

use crate::headers::Headers;
use crate::text;
use flate2::write::GzEncoder;
use flate2::Compression;
use vstd::prelude::*;
use vstd::string::StringSliceAdditionalSpecFns;

verus! {

/// The byte of the comma that parts the entries of a list.
pub const COMMA: u8 = 0x2c;

/// `list[from..to]` is one of the entries that the commas part `list` into:
/// it holds no comma, begins at the start or behind a comma, and ends at the
/// end or before a comma.
pub open spec fn is_entry(list: Seq<u8>, from: int, to: int) -> bool {
    &&& 0 <= from <= to <= list.len()
    &&& (from == 0 || list[from - 1] == COMMA)
    &&& (to == list.len() || list[to] == COMMA)
    &&& forall|i: int| from <= i < to ==> list[i] != COMMA
}

/// One of the entries of `list`, without the white space around it, is the
/// word `gzip`, in small letters and nothing else.
pub open spec fn lists_gzip(list: Seq<u8>) -> bool {
    exists|from: int, to: int|
        #[trigger] is_entry(list, from, to) && text::trimmed(list.subrange(from, to))
            == "gzip".spec_bytes()
}

/// The request allows a gzip answer: it has an `accept-encoding` field and
/// that field lists gzip.
pub open spec fn accepts_gzip(headers: Map<Seq<u8>, Seq<u8>>) -> bool {
    let name = "accept-encoding".spec_bytes();
    headers.contains_key(name) && lists_gzip(headers[name])
}

/// Whether a list of encodings names gzip.
pub fn names_gzip(list: &[u8]) -> (yes: bool)
    ensures
        yes == lists_gzip(list@),
{
    let word = "gzip".as_bytes();
    let mut from: usize = 0;
    loop
        invariant
            from <= list.len(),
            word@ == "gzip".spec_bytes(),
            from == 0 || list@[from - 1] == COMMA,
            forall|a: int, b: int|
                #[trigger] is_entry(list@, a, b) && a < from ==> text::trimmed(
                    list@.subrange(a, b),
                ) != word@,
        decreases list.len() - from,
    {
        let to = text::find_byte(list, COMMA, from);
        proof {
            text::lemma_position_of(list@, COMMA, from as int);
            assert(is_entry(list@, from as int, to as int));
        }
        let entry = text::trim(vstd::slice::slice_subrange(list, from, to));
        if text::same_bytes(entry, word) {
            return true;
        }
        proof {
            assert forall|a: int, b: int| #[trigger]
                is_entry(list@, a, b) && a < to + 1 implies text::trimmed(list@.subrange(a, b))
                != word@ by {
                if a >= from {
                    if a > from {
                        assert(list@[a - 1] == COMMA);
                    }
                    if b < to {
                        assert(list@[b] == COMMA);
                    }
                    if b > to {
                        assert(list@[to as int] == COMMA);
                    }
                }
            }
        }
        if to >= list.len() {
            assert forall|a: int, b: int| #[trigger] is_entry(list@, a, b) implies text::trimmed(
                list@.subrange(a, b),
            ) != word@ by {}
            return false;
        }
        from = to + 1;
    }
}

/// Whether the request allows a gzip answer.
pub fn allows_gzip(headers: &Headers) -> (yes: bool)
    ensures
        yes == accepts_gzip(headers@),
{
    match headers.get("accept-encoding".as_bytes()) {
        Some(list) => names_gzip(list.as_slice()),
        None => false,
    }
}

/// A gzip encoder of flate2 that writes into a `Vec<u8>`.
///
/// Nothing inside it is visible to the proofs. What it has taken in is
/// spoken of as [`taken_in`].
#[verifier::external_body]
pub struct Encoder {
    inner: GzEncoder<Vec<u8>>,
}

/// The bytes that `encoder` has taken in so far.
pub uninterp spec fn taken_in(encoder: Encoder) -> Seq<u8>;

/// Whether a new encoder of flate2, at its default level, takes `data` when
/// it is written to it in one piece: whether `write_all` returns `Ok`.
pub uninterp spec fn gzip_taken(data: Seq<u8>) -> bool;

/// What `finish` returns of an encoder of flate2, at its default level, that
/// has taken in `data`: the gzip stream, or nothing where it returns an
/// error.
pub uninterp spec fn gzip_stream(data: Seq<u8>) -> Option<Seq<u8>>;

/// Calls `GzEncoder::new` with an empty `Vec` and `Compression::default()`.
/// Trusted: the new encoder has taken in nothing.
#[verifier::external_body]
fn encoder_new() -> (encoder: Encoder)
    ensures
        taken_in(encoder).len() == 0,
{
    Encoder { inner: GzEncoder::new(Vec::new(), Compression::default()) }
}

/// Calls `write_all` on the encoder and says whether it returned `Ok`.
/// Trusted: whether a new encoder returns `Ok` depends on nothing but
/// `data`, and one that did has taken in all of `data` and nothing else.
/// Nothing is said of what an encoder that returned an error has taken in,
/// nor of a second write.
#[verifier::external_body]
fn encoder_write_all(encoder: &mut Encoder, data: &[u8]) -> (taken: bool)
    requires
        taken_in(*old(encoder)).len() == 0,
    ensures
        taken == gzip_taken(data@),
        taken ==> taken_in(*final(encoder)) == data@,
{
    std::io::Write::write_all(&mut encoder.inner, data).is_ok()
}

/// Calls `GzEncoder::finish` and hands out the `Vec` that it returns, `None`
/// where it returns an error.
/// Trusted: whether it returns an error, and the bytes that it returns,
/// depend on nothing but the bytes taken in.
#[verifier::external_body]
fn encoder_finish(encoder: Encoder) -> (out: Option<Vec<u8>>)
    ensures
        match out {
            Some(stream) => gzip_stream(taken_in(encoder)) == Some(stream@),
            None => gzip_stream(taken_in(encoder)) is None,
        },
{
    encoder.inner.finish().ok()
}

/// How an attempt to compress ended.
#[derive(Debug, PartialEq, Eq)]
pub enum Compressed {
    /// The encoder took the data and finished: the whole gzip stream.
    Stream(Vec<u8>),
    /// The encoder took the data and then failed to finish.
    Unfinished,
    /// The encoder did not take the data.
    Rejected,
}

pub enum CompressedView {
    Stream(Seq<u8>),
    Unfinished,
    Rejected,
}

impl View for Compressed {
    type V = CompressedView;

    open spec fn view(&self) -> CompressedView {
        match self {
            Compressed::Stream(stream) => CompressedView::Stream(stream@),
            Compressed::Unfinished => CompressedView::Unfinished,
            Compressed::Rejected => CompressedView::Rejected,
        }
    }
}

/// How compressing `data` ends: rejected where the encoder does not take
/// the data, unfinished where it takes the data and does not finish, and
/// else with the gzip stream that it makes of the data.
pub open spec fn compressed(data: Seq<u8>) -> CompressedView {
    if !gzip_taken(data) {
        CompressedView::Rejected
    } else {
        match gzip_stream(data) {
            Some(stream) => CompressedView::Stream(stream),
            None => CompressedView::Unfinished,
        }
    }
}

/// Compresses `data` into a gzip stream: writes it to a new encoder in one
/// piece and finishes the encoder.
pub fn compress(data: &[u8]) -> (out: Compressed)
    ensures
        out@ == compressed(data@),
{
    let mut encoder = encoder_new();
    if !encoder_write_all(&mut encoder, data) {
        return Compressed::Rejected;
    }
    match encoder_finish(encoder) {
        Some(stream) => Compressed::Stream(stream),
        None => Compressed::Unfinished,
    }
}

} // verus!
