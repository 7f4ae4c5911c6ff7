//! Text held as bytes: white space, trimming, letter case, searching.
//!
//! Requests arrive as bytes and are never decoded. White space is the ASCII
//! set only, so a multi-byte character is never mistaken for a separator.

use vstd::prelude::*;

verus! {

/// Space, tab, line feed, vertical tab, form feed and carriage return.
pub open spec fn is_space(b: u8) -> bool {
    b == 0x20 || (0x09 <= b && b <= 0x0d)
}

/// The first position at or after `from` that holds no white space, or the
/// length of `s` where only white space follows.
pub open spec fn skip_spaces(s: Seq<u8>, from: int) -> int
    decreases s.len() - from,
{
    if 0 <= from < s.len() && is_space(s[from]) {
        skip_spaces(s, from + 1)
    } else {
        from
    }
}

/// The first position at or after `from` that holds white space, or the
/// length of `s` where none follows.
pub open spec fn skip_word(s: Seq<u8>, from: int) -> int
    decreases s.len() - from,
{
    if 0 <= from < s.len() && !is_space(s[from]) {
        skip_word(s, from + 1)
    } else {
        from
    }
}

/// The position just behind the last byte before `to` that is no white space,
/// or 0 where only white space precedes `to`.
pub open spec fn back_spaces(s: Seq<u8>, to: int) -> int
    decreases to,
{
    if 0 < to <= s.len() && is_space(s[to - 1]) {
        back_spaces(s, to - 1)
    } else {
        to
    }
}

/// `s` without its leading and trailing white space.
pub open spec fn trimmed(s: Seq<u8>) -> Seq<u8> {
    let start = skip_spaces(s, 0);
    let end = back_spaces(s, s.len() as int);
    if start < end {
        s.subrange(start, end)
    } else {
        Seq::empty()
    }
}

/// Nothing but white space, or nothing at all.
pub open spec fn is_blank(s: Seq<u8>) -> bool {
    trimmed(s).len() == 0
}

/// The first position at or after `from` that holds `b`, or the length of
/// `s` where `b` does not occur there.
pub open spec fn position_of(s: Seq<u8>, b: u8, from: int) -> int
    decreases s.len() - from,
{
    if 0 <= from < s.len() && s[from] != b {
        position_of(s, b, from + 1)
    } else {
        from
    }
}

/// An upper-case ASCII letter becomes its lower-case form; every other byte
/// stays.
pub open spec fn lower(b: u8) -> u8 {
    if 0x41 <= b && b <= 0x5a {
        (b + 0x20) as u8
    } else {
        b
    }
}

/// `s` with each byte put through [`lower`].
pub open spec fn lowered(s: Seq<u8>) -> Seq<u8> {
    Seq::new(s.len(), |i: int| lower(s[i]))
}

/// Where [`skip_spaces`] stops, every byte passed is white space and the
/// byte reached, if there is one, is not.
pub proof fn lemma_skip_spaces(s: Seq<u8>, from: int)
    requires
        0 <= from <= s.len(),
    ensures
        from <= skip_spaces(s, from) <= s.len(),
        forall|i: int| from <= i < skip_spaces(s, from) ==> is_space(#[trigger] s[i]),
        skip_spaces(s, from) < s.len() ==> !is_space(s[skip_spaces(s, from)]),
    decreases s.len() - from,
{
    if from < s.len() && is_space(s[from]) {
        lemma_skip_spaces(s, from + 1);
    }
}

/// Where [`skip_word`] stops, no byte passed is white space and the byte
/// reached, if there is one, is.
pub proof fn lemma_skip_word(s: Seq<u8>, from: int)
    requires
        0 <= from <= s.len(),
    ensures
        from <= skip_word(s, from) <= s.len(),
        forall|i: int| from <= i < skip_word(s, from) ==> !is_space(#[trigger] s[i]),
        skip_word(s, from) < s.len() ==> is_space(s[skip_word(s, from)]),
    decreases s.len() - from,
{
    if from < s.len() && !is_space(s[from]) {
        lemma_skip_word(s, from + 1);
    }
}

/// Where [`back_spaces`] stops, every byte passed is white space and the
/// byte before it, if there is one, is not.
pub proof fn lemma_back_spaces(s: Seq<u8>, to: int)
    requires
        0 <= to <= s.len(),
    ensures
        0 <= back_spaces(s, to) <= to,
        forall|i: int| back_spaces(s, to) <= i < to ==> is_space(#[trigger] s[i]),
        0 < back_spaces(s, to) ==> !is_space(s[back_spaces(s, to) - 1]),
    decreases to,
{
    if 0 < to && is_space(s[to - 1]) {
        lemma_back_spaces(s, to - 1);
    }
}

/// Where [`position_of`] stops, no byte passed is `b` and the byte reached,
/// if there is one, is.
pub proof fn lemma_position_of(s: Seq<u8>, b: u8, from: int)
    requires
        0 <= from <= s.len(),
    ensures
        from <= position_of(s, b, from) <= s.len(),
        forall|i: int| from <= i < position_of(s, b, from) ==> #[trigger] s[i] != b,
        position_of(s, b, from) < s.len() ==> s[position_of(s, b, from)] == b,
    decreases s.len() - from,
{
    if from < s.len() && s[from] != b {
        lemma_position_of(s, b, from + 1);
    }
}

/// [`skip_spaces`] stops at `to` where white space runs from `from` up to
/// `to` and ends there.
pub proof fn lemma_skip_spaces_to(s: Seq<u8>, from: int, to: int)
    requires
        0 <= from <= to <= s.len(),
        forall|i: int| from <= i < to ==> is_space(#[trigger] s[i]),
        to < s.len() ==> !is_space(s[to]),
    ensures
        skip_spaces(s, from) == to,
    decreases to - from,
{
    if from < to {
        lemma_skip_spaces_to(s, from + 1, to);
    }
}

/// [`skip_word`] stops at `to` where bytes that are no white space run from
/// `from` up to `to` and end there.
pub proof fn lemma_skip_word_to(s: Seq<u8>, from: int, to: int)
    requires
        0 <= from <= to <= s.len(),
        forall|i: int| from <= i < to ==> !is_space(#[trigger] s[i]),
        to < s.len() ==> is_space(s[to]),
    ensures
        skip_word(s, from) == to,
    decreases to - from,
{
    if from < to {
        lemma_skip_word_to(s, from + 1, to);
    }
}

/// [`back_spaces`] stops at `from` where white space runs from `from` up to
/// `to` and begins there.
pub proof fn lemma_back_spaces_to(s: Seq<u8>, from: int, to: int)
    requires
        0 <= from <= to <= s.len(),
        forall|i: int| from <= i < to ==> is_space(#[trigger] s[i]),
        0 < from ==> !is_space(s[from - 1]),
    ensures
        back_spaces(s, to) == from,
    decreases to - from,
{
    if from < to {
        lemma_back_spaces_to(s, from, to - 1);
    }
}

/// `s` has white space at neither end.
pub open spec fn is_tight(s: Seq<u8>) -> bool {
    s.len() > 0 ==> !is_space(s.first()) && !is_space(s.last())
}

/// No byte of `s` is an upper-case ASCII letter.
pub open spec fn is_lowered(s: Seq<u8>) -> bool {
    forall|i: int| 0 <= i < s.len() ==> !(0x41 <= #[trigger] s[i] && s[i] <= 0x5a)
}

/// What trimming yields has white space at neither end, and trimming it
/// again changes nothing.
pub proof fn lemma_trimmed_is_tight(s: Seq<u8>)
    ensures
        is_tight(trimmed(s)),
        trimmed(trimmed(s)) == trimmed(s),
{
    lemma_skip_spaces(s, 0);
    lemma_back_spaces(s, s.len() as int);
    lemma_trimmed_of_tight(trimmed(s));
}

/// Trimming what has white space at neither end changes nothing.
pub proof fn lemma_trimmed_of_tight(s: Seq<u8>)
    requires
        is_tight(s),
    ensures
        trimmed(s) == s,
{
    if s.len() > 0 {
        assert(s.subrange(0, s.len() as int) =~= s);
    } else {
        assert(trimmed(s) =~= s);
    }
}

/// What holds a byte that is no white space is not blank.
pub proof fn lemma_not_blank(s: Seq<u8>, at: int)
    requires
        0 <= at < s.len(),
        !is_space(s[at]),
    ensures
        !is_blank(s),
{
    lemma_skip_spaces(s, 0);
    lemma_back_spaces(s, s.len() as int);
}

/// Lower case leaves white space where it was: what is lowered holds no
/// capital, and is as tight as it was before.
pub proof fn lemma_lowered(s: Seq<u8>)
    ensures
        is_lowered(lowered(s)),
        is_tight(s) ==> is_tight(lowered(s)),
        trimmed(lowered(s)) == lowered(trimmed(s)),
{
    let low = lowered(s);
    assert forall|i: int| 0 <= i < s.len() implies is_space(#[trigger] low[i]) == is_space(
        s[i],
    ) by {}
    lemma_skip_spaces(s, 0);
    lemma_back_spaces(s, s.len() as int);
    lemma_skip_spaces_to(low, 0, skip_spaces(s, 0));
    lemma_back_spaces_to(low, back_spaces(s, s.len() as int), low.len() as int);
    assert(trimmed(low) =~= lowered(trimmed(s)));
}

pub fn is_space_byte(b: u8) -> (yes: bool)
    ensures
        yes == is_space(b),
{
    b == 0x20 || (0x09 <= b && b <= 0x0d)
}

pub fn lower_byte(b: u8) -> (out: u8)
    ensures
        out == lower(b),
{
    if 0x41 <= b && b <= 0x5a {
        b + 0x20
    } else {
        b
    }
}

/// Steps over white space from `from` on.
pub fn after_spaces(s: &[u8], from: usize) -> (at: usize)
    ensures
        at == skip_spaces(s@, from as int),
{
    let mut at: usize = from;
    while at < s.len() && is_space_byte(s[at])
        invariant
            from <= at,
            skip_spaces(s@, from as int) == skip_spaces(s@, at as int),
        decreases s.len() - at,
    {
        at += 1;
    }
    at
}

/// Steps over bytes that are no white space from `from` on.
pub fn after_word(s: &[u8], from: usize) -> (at: usize)
    ensures
        at == skip_word(s@, from as int),
{
    let mut at: usize = from;
    while at < s.len() && !is_space_byte(s[at])
        invariant
            from <= at,
            skip_word(s@, from as int) == skip_word(s@, at as int),
        decreases s.len() - at,
    {
        at += 1;
    }
    at
}

/// Steps back over white space that ends at `to`.
pub fn before_spaces(s: &[u8], to: usize) -> (at: usize)
    ensures
        at == back_spaces(s@, to as int),
{
    let mut at: usize = to;
    while 0 < at && at <= s.len() && is_space_byte(s[at - 1])
        invariant
            at <= to,
            back_spaces(s@, to as int) == back_spaces(s@, at as int),
        decreases at,
    {
        at -= 1;
    }
    at
}

/// Looks for `b` from `from` on.
pub fn find_byte(s: &[u8], b: u8, from: usize) -> (at: usize)
    ensures
        at == position_of(s@, b, from as int),
{
    let mut at: usize = from;
    while at < s.len() && s[at] != b
        invariant
            from <= at,
            position_of(s@, b, from as int) == position_of(s@, b, at as int),
        decreases s.len() - at,
    {
        at += 1;
    }
    at
}

/// The part of `s` between its leading and its trailing white space.
pub fn trim(s: &[u8]) -> (out: &[u8])
    ensures
        out@ == trimmed(s@),
{
    let start = after_spaces(s, 0);
    let end = before_spaces(s, s.len());
    proof {
        lemma_skip_spaces(s@, 0);
        lemma_back_spaces(s@, s@.len() as int);
    }
    if start < end {
        vstd::slice::slice_subrange(s, start, end)
    } else {
        let out = vstd::slice::slice_subrange(s, 0, 0);
        assert(out@ =~= Seq::<u8>::empty());
        out
    }
}

/// A copy of `s` in lower case.
pub fn to_lower(s: &[u8]) -> (out: Vec<u8>)
    ensures
        out@ == lowered(s@),
{
    let mut out: Vec<u8> = Vec::new();
    let mut i: usize = 0;
    while i < s.len()
        invariant
            i <= s.len(),
            out@.len() == i,
            forall|k: int| 0 <= k < i ==> out@[k] == lower(s@[k]),
        decreases s.len() - i,
    {
        out.push(lower_byte(s[i]));
        i += 1;
    }
    assert(out@ =~= lowered(s@));
    out
}

/// Whether `a` and `b` hold the same bytes.
pub fn same_bytes(a: &[u8], b: &[u8]) -> (yes: bool)
    ensures
        yes == (a@ == b@),
{
    if a.len() != b.len() {
        return false;
    }
    let mut i: usize = 0;
    while i < a.len()
        invariant
            i <= a.len(),
            a.len() == b.len(),
            forall|k: int| 0 <= k < i ==> a@[k] == b@[k],
        decreases a.len() - i,
    {
        if a[i] != b[i] {
            return false;
        }
        i += 1;
    }
    assert(a@ =~= b@);
    true
}

/// Whether `s` begins with `prefix`.
pub fn starts_with(s: &[u8], prefix: &[u8]) -> (yes: bool)
    ensures
        yes == prefix@.is_prefix_of(s@),
{
    if prefix.len() > s.len() {
        return false;
    }
    same_bytes(vstd::slice::slice_subrange(s, 0, prefix.len()), prefix)
}

} // verus!
