//! The header fields of one request.
//!
//! A field's name is kept in lower case, name and value without the white
//! space around them. Where a name comes twice, the later value stands.

use crate::decimal;
use crate::text;
use vstd::prelude::*;
use vstd::string::StringSliceAdditionalSpecFns;

verus! {

/// The byte of the colon that parts a field's name from its value.
pub const COLON: u8 = 0x3a;

/// The field that `line` holds: what stands before the first colon is the
/// name, what follows it the value. A line without a colon holds none.
pub open spec fn field_of(line: Seq<u8>) -> Option<(Seq<u8>, Seq<u8>)> {
    let colon = text::position_of(line, COLON, 0);
    if colon < line.len() {
        Some(
            (
                text::lowered(text::trimmed(line.take(colon))),
                text::trimmed(line.skip(colon + 1)),
            ),
        )
    } else {
        None
    }
}

/// The fields in the order given, a later one replacing an earlier one of
/// the same name.
pub open spec fn fields_map(fields: Seq<(Seq<u8>, Seq<u8>)>) -> Map<Seq<u8>, Seq<u8>>
    decreases fields.len(),
{
    if fields.len() == 0 {
        Map::empty()
    } else {
        fields_map(fields.drop_last()).insert(fields.last().0, fields.last().1)
    }
}

/// `headers` with the field of `line`, if it holds one.
pub open spec fn with_line(headers: Map<Seq<u8>, Seq<u8>>, line: Seq<u8>) -> Map<
    Seq<u8>,
    Seq<u8>,
> {
    match field_of(line) {
        Some((name, value)) => headers.insert(name, value),
        None => headers,
    }
}

/// The number of body bytes that `headers` announce: what `content-length`
/// writes, and 0 where the field is missing, writes no number, or writes one
/// that `usize` cannot hold.
pub open spec fn body_length(headers: Map<Seq<u8>, Seq<u8>>) -> usize {
    let name = "content-length".spec_bytes();
    if headers.contains_key(name) {
        match decimal::number(headers[name]) {
            Some(n) => if n <= usize::MAX {
                n as usize
            } else {
                0
            },
            None => 0,
        }
    } else {
        0
    }
}

/// A field is kept tidy: its name in lower case, name and value without
/// white space around them.
pub proof fn field_is_lowered_and_trimmed(line: Seq<u8>)
    ensures
        field_of(line) matches Some((name, value)) ==> {
            &&& text::is_lowered(name)
            &&& text::is_tight(name)
            &&& text::is_tight(value)
            &&& text::trimmed(name) == name
            &&& text::trimmed(value) == value
        },
{
    let colon = text::position_of(line, COLON, 0);
    if colon < line.len() {
        let before = line.take(colon);
        let after = line.skip(colon + 1);
        text::lemma_trimmed_is_tight(before);
        text::lemma_trimmed_is_tight(after);
        text::lemma_lowered(text::trimmed(before));
        text::lemma_trimmed_of_tight(text::lowered(text::trimmed(before)));
    }
}

/// Every name is in lower case, and every name and value is without white
/// space around it.
pub open spec fn is_tidy(headers: Map<Seq<u8>, Seq<u8>>) -> bool {
    forall|name: Seq<u8>| #[trigger]
        headers.contains_key(name) ==> {
            &&& text::is_lowered(name)
            &&& text::is_tight(name)
            &&& text::is_tight(headers[name])
        }
}

/// Header lines keep the fields tidy: no fields are tidy, and tidy fields
/// that take in a line, whatever it holds, are tidy.
pub proof fn lines_keep_fields_tidy(headers: Map<Seq<u8>, Seq<u8>>, line: Seq<u8>)
    ensures
        is_tidy(Map::empty()),
        is_tidy(headers) ==> is_tidy(with_line(headers, line)),
{
    field_is_lowered_and_trimmed(line);
}

/// A line made of a name without a colon, a colon, and anything else holds
/// the field of that name and of what follows the colon.
pub proof fn field_reads_back(name: Seq<u8>, rest: Seq<u8>)
    requires
        forall|i: int| 0 <= i < name.len() ==> name[i] != COLON,
    ensures
        field_of(name + seq![COLON] + rest) == Some(
            (text::lowered(text::trimmed(name)), text::trimmed(rest)),
        ),
{
    let line = name + seq![COLON] + rest;
    text::lemma_position_of(line, COLON, 0);
    let colon = text::position_of(line, COLON, 0);
    if colon < name.len() {
        assert(line[colon] == name[colon]);
    }
    if colon > name.len() {
        assert(line[name.len() as int] == COLON);
    }
    assert(line.take(colon) =~= name);
    assert(line.skip(colon + 1) =~= rest);
}

/// The last field of a name decides what the map holds for it.
pub proof fn lemma_fields_map_last(fields: Seq<(Seq<u8>, Seq<u8>)>, name: Seq<u8>, at: int)
    requires
        0 <= at < fields.len(),
        fields[at].0 == name,
        forall|k: int| at < k < fields.len() ==> (#[trigger] fields[k]).0 != name,
    ensures
        fields_map(fields).contains_key(name),
        fields_map(fields)[name] == fields[at].1,
    decreases fields.len(),
{
    if at < fields.len() - 1 {
        lemma_fields_map_last(fields.drop_last(), name, at);
    }
}

/// A name that no field has is not in the map.
pub proof fn lemma_fields_map_absent(fields: Seq<(Seq<u8>, Seq<u8>)>, name: Seq<u8>)
    requires
        forall|k: int| 0 <= k < fields.len() ==> (#[trigger] fields[k]).0 != name,
    ensures
        !fields_map(fields).contains_key(name),
    decreases fields.len(),
{
    if fields.len() > 0 {
        lemma_fields_map_absent(fields.drop_last(), name);
    }
}

/// Splits a header line into name and value.
pub fn parse_field(line: &[u8]) -> (out: Option<(Vec<u8>, Vec<u8>)>)
    ensures
        match out {
            Some((name, value)) => field_of(line@) == Some((name@, value@)),
            None => field_of(line@) is None,
        },
{
    let colon = text::find_byte(line, COLON, 0);
    if colon < line.len() {
        let name = text::to_lower(text::trim(vstd::slice::slice_subrange(line, 0, colon)));
        let value = vstd::slice::slice_to_vec(
            text::trim(vstd::slice::slice_subrange(line, colon + 1, line.len())),
        );
        Some((name, value))
    } else {
        None
    }
}

#[derive(Debug)]
pub struct Headers {
    entries: Vec<(Vec<u8>, Vec<u8>)>,
}

impl Headers {
    /// The fields as they were added, oldest first.
    pub closed spec fn fields(&self) -> Seq<(Seq<u8>, Seq<u8>)> {
        Seq::new(self.entries@.len(), |i: int| (self.entries@[i].0@, self.entries@[i].1@))
    }
}

impl View for Headers {
    type V = Map<Seq<u8>, Seq<u8>>;

    /// Each name with the value that was added for it last.
    closed spec fn view(&self) -> Map<Seq<u8>, Seq<u8>> {
        fields_map(self.fields())
    }
}

impl Headers {
    pub fn new() -> (out: Headers)
        ensures
            out@ == Map::<Seq<u8>, Seq<u8>>::empty(),
    {
        let out = Headers { entries: Vec::new() };
        assert(out.fields() =~= Seq::empty());
        out
    }

    /// Adds a field as it is given: the caller has trimmed it and put the
    /// name in lower case.
    pub fn insert(&mut self, name: Vec<u8>, value: Vec<u8>)
        ensures
            final(self)@ == old(self)@.insert(name@, value@),
    {
        let ghost before = self.fields();
        self.entries.push((name, value));
        assert(self.fields().drop_last() =~= before);
    }

    /// The value that stands for `name`.
    pub fn get(&self, name: &[u8]) -> (out: Option<&Vec<u8>>)
        ensures
            match out {
                Some(value) => self@.contains_key(name@) && self@[name@] == value@,
                None => !self@.contains_key(name@),
            },
    {
        let mut i: usize = self.entries.len();
        while i > 0
            invariant
                i <= self.entries@.len(),
                forall|k: int|
                    i <= k < self.entries@.len() ==> (#[trigger] self.fields()[k]).0 != name@,
            decreases i,
        {
            i -= 1;
            if text::same_bytes(self.entries[i].0.as_slice(), name) {
                proof {
                    lemma_fields_map_last(self.fields(), name@, i as int);
                }
                return Some(&self.entries[i].1);
            }
        }
        proof {
            lemma_fields_map_absent(self.fields(), name@);
        }
        None
    }

    /// Takes in one header line. A line without a colon is passed over.
    pub fn add_line(&mut self, line: &[u8])
        ensures
            final(self)@ == with_line(old(self)@, line@),
    {
        match parse_field(line) {
            Some((name, value)) => {
                self.insert(name, value);
            },
            None => {},
        }
    }

    /// The number of body bytes that the request announces.
    pub fn content_length(&self) -> (out: usize)
        ensures
            out == body_length(self@),
    {
        match self.get("content-length".as_bytes()) {
            Some(value) => match decimal::parse(value.as_slice()) {
                Some(n) => n,
                None => 0,
            },
            None => 0,
        }
    }
}

} // verus!
