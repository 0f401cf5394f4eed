//! Searching byte sequences, and the facts about UTF-8 character boundaries
//! that splitting a string at a found position needs.

use vstd::prelude::*;
use vstd::string::StringSliceAdditionalSpecFns;
use vstd::utf8::*;

verus! {

/// `needle` stands in `hay` at offset `at`.
pub open spec fn occurs_at(hay: Seq<u8>, needle: Seq<u8>, at: int) -> bool {
    &&& 0 <= at
    &&& at + needle.len() <= hay.len()
    &&& hay.subrange(at, at + needle.len()) == needle
}

/// `hay` begins with `needle`.
pub open spec fn starts_with(hay: Seq<u8>, needle: Seq<u8>) -> bool {
    occurs_at(hay, needle, 0)
}

/// The least offset at or after `from` at which `needle` stands in `hay`.
pub open spec fn first_occurrence_from(hay: Seq<u8>, needle: Seq<u8>, from: int) -> Option<int>
    decreases hay.len() - from + 1,
{
    if from < 0 || from + needle.len() > hay.len() {
        None
    } else if occurs_at(hay, needle, from) {
        Some(from)
    } else {
        first_occurrence_from(hay, needle, from + 1)
    }
}

/// The least offset at which `needle` stands in `hay`.
pub open spec fn first_occurrence(hay: Seq<u8>, needle: Seq<u8>) -> Option<int> {
    first_occurrence_from(hay, needle, 0)
}

/// What `first_occurrence_from` finds is an occurrence with none between
/// `from` and it, and it finds nothing only where there is none from `from` on.
pub proof fn lemma_first_occurrence_from(hay: Seq<u8>, needle: Seq<u8>, from: int)
    requires
        0 <= from,
    ensures
        match first_occurrence_from(hay, needle, from) {
            Some(at) => {
                &&& from <= at
                &&& occurs_at(hay, needle, at)
                &&& forall|j: int| from <= j < at ==> !occurs_at(hay, needle, j)
            },
            None => forall|j: int| from <= j ==> !occurs_at(hay, needle, j),
        },
    decreases hay.len() - from + 1,
{
    if from + needle.len() > hay.len() {
    } else if occurs_at(hay, needle, from) {
    } else {
        lemma_first_occurrence_from(hay, needle, from + 1);
    }
}

/// The first occurrence is the least offset at which the needle stands, and
/// there is none exactly where the needle stands nowhere.
pub proof fn lemma_first_occurrence(hay: Seq<u8>, needle: Seq<u8>)
    ensures
        match first_occurrence(hay, needle) {
            Some(at) => {
                &&& occurs_at(hay, needle, at)
                &&& forall|j: int| j < at ==> !occurs_at(hay, needle, j)
            },
            None => forall|j: int| !occurs_at(hay, needle, j),
        },
{
    lemma_first_occurrence_from(hay, needle, 0);
}

/// Whether `needle` stands in `hay` at offset `at`.
pub fn matches_at(hay: &[u8], needle: &[u8], at: usize) -> (found: bool)
    ensures
        found == occurs_at(hay@, needle@, at as int),
{
    if needle.len() > hay.len() || at > hay.len() - needle.len() {
        return false;
    }
    let mut k: usize = 0;
    while k < needle.len()
        invariant
            k <= needle.len(),
            at + needle.len() <= hay.len(),
            forall|j: int| 0 <= j < k ==> hay@[at + j] == needle@[j],
        decreases needle.len() - k,
    {
        if hay[at + k] != needle[k] {
            assert(hay@.subrange(at as int, at + needle@.len())[k as int] == hay@[at + k]);
            return false;
        }
        k += 1;
    }
    assert(hay@.subrange(at as int, at + needle@.len()) =~= needle@);
    true
}

/// The least offset at which `needle` stands in `hay`, if it stands anywhere.
pub fn find(hay: &[u8], needle: &[u8]) -> (found: Option<usize>)
    ensures
        match found {
            Some(at) => first_occurrence(hay@, needle@) == Some(at as int),
            None => first_occurrence(hay@, needle@) is None,
        },
{
    if needle.len() > hay.len() {
        return None;
    }
    let last: usize = hay.len() - needle.len();
    let mut at: usize = 0;
    loop
        invariant
            last == hay.len() - needle.len(),
            at <= last,
            first_occurrence(hay@, needle@) == first_occurrence_from(hay@, needle@, at as int),
        decreases last - at,
    {
        if matches_at(hay, needle, at) {
            return Some(at);
        }
        if at == last {
            assert(first_occurrence_from(hay@, needle@, at + 1) is None);
            return None;
        }
        at += 1;
    }
}

/// Whether two strings hold the same text.
pub fn same_text(left: &str, right: &str) -> (same: bool)
    ensures
        same == (left@ == right@),
{
    let a = left.as_bytes();
    let b = right.as_bytes();
    proof {
        encode_utf8_decode_utf8(left@);
        encode_utf8_decode_utf8(right@);
    }
    if a.len() != b.len() {
        return false;
    }
    let mut k: usize = 0;
    while k < a.len()
        invariant
            k <= a.len(),
            a.len() == b.len(),
            a@ == left.spec_bytes(),
            b@ == right.spec_bytes(),
            forall|j: int| 0 <= j < k ==> a@[j] == b@[j],
        decreases a.len() - k,
    {
        if a[k] != b[k] {
            return false;
        }
        k += 1;
    }
    assert(a@ =~= b@);
    true
}

/// The least character boundary of `bytes` at or after `at`, or the length
/// where no boundary follows.
pub open spec fn boundary_from(bytes: Seq<u8>, at: int) -> int
    decreases bytes.len() - at,
{
    if at >= bytes.len() {
        bytes.len() as int
    } else if is_char_boundary(bytes, at) {
        at
    } else {
        boundary_from(bytes, at + 1)
    }
}

/// No character boundary lies between `at` and `boundary_from(bytes, at)`,
/// so a boundary at or after `at` is not before it.
pub proof fn lemma_boundary_from_is_least(bytes: Seq<u8>, at: int, other: int)
    requires
        valid_utf8(bytes),
        0 <= at <= other <= bytes.len(),
        is_char_boundary(bytes, other),
    ensures
        at <= boundary_from(bytes, at) <= other,
        is_char_boundary(bytes, boundary_from(bytes, at)),
    decreases bytes.len() - at,
{
    is_char_boundary_start_end_of_seq(bytes);
    if at >= bytes.len() {
    } else if is_char_boundary(bytes, at) {
    } else {
        lemma_boundary_from_is_least(bytes, at + 1, other);
    }
}

/// The byte after an ASCII byte begins a character, or ends the text.
pub proof fn lemma_boundary_after_ascii(bytes: Seq<u8>, at: int)
    requires
        valid_utf8(bytes),
        0 <= at < bytes.len(),
        bytes[at] <= 0x7f,
    ensures
        is_char_boundary(bytes, at),
        is_char_boundary(bytes, at + 1),
{
    is_char_boundary_iff_not_is_continuation_byte(bytes, at);
    valid_utf8_split(bytes, at);
    let tail = bytes.subrange(at, bytes.len() as int);
    assert(tail[0] == bytes[at]);
    assert(valid_first_scalar(tail) && valid_utf8(pop_first_scalar(tail)));
    let rest = pop_first_scalar(tail);
    assert(rest =~= bytes.subrange(at + 1, bytes.len() as int));
    if at + 1 == bytes.len() {
        is_char_boundary_start_end_of_seq(bytes);
    } else {
        assert(rest[0] == bytes[at + 1]);
        assert(valid_first_scalar(rest));
        is_char_boundary_iff_not_is_continuation_byte(bytes, at + 1);
    }
}

/// A character boundary of the whole is one of the part that begins at an
/// earlier boundary.
pub proof fn lemma_boundary_in_suffix(bytes: Seq<u8>, from: int, at: int)
    requires
        valid_utf8(bytes),
        0 <= from <= at <= bytes.len(),
        is_char_boundary(bytes, from),
        is_char_boundary(bytes, at),
    ensures
        valid_utf8(bytes.subrange(from, bytes.len() as int)),
        is_char_boundary(bytes.subrange(from, bytes.len() as int), at - from),
{
    valid_utf8_split(bytes, from);
    let tail = bytes.subrange(from, bytes.len() as int);
    if at == bytes.len() {
        is_char_boundary_start_end_of_seq(tail);
    } else {
        is_char_boundary_iff_not_is_continuation_byte(bytes, at);
        is_char_boundary_iff_not_is_continuation_byte(tail, at - from);
        assert(tail[at - from] == bytes[at]);
    }
}

/// Where a character begins, the next one begins behind its bytes, or the
/// text ends there.
pub proof fn lemma_boundary_after_scalar(bytes: Seq<u8>, at: int)
    requires
        valid_utf8(bytes),
        0 <= at < bytes.len(),
        is_char_boundary(bytes, at),
    ensures
        1 <= length_of_first_scalar(bytes.subrange(at, bytes.len() as int)) <= 4,
        is_char_boundary(
            bytes,
            at + length_of_first_scalar(bytes.subrange(at, bytes.len() as int)),
        ),
{
    valid_utf8_split(bytes, at);
    let tail = bytes.subrange(at, bytes.len() as int);
    assert(valid_first_scalar(tail) && valid_utf8(pop_first_scalar(tail)));
    let width = length_of_first_scalar(tail);
    let rest = pop_first_scalar(tail);
    assert(rest =~= bytes.subrange(at + width, bytes.len() as int));
    if at + width == bytes.len() {
        is_char_boundary_start_end_of_seq(bytes);
    } else {
        assert(rest[0] == bytes[at + width]);
        assert(valid_first_scalar(rest));
        is_char_boundary_iff_not_is_continuation_byte(bytes, at + width);
    }
}

/// The bytes between two character boundaries are text of their own.
pub proof fn lemma_text_between_boundaries(bytes: Seq<u8>, from: int, to: int)
    requires
        valid_utf8(bytes),
        0 <= from <= to <= bytes.len(),
        is_char_boundary(bytes, from),
        is_char_boundary(bytes, to),
    ensures
        valid_utf8(bytes.subrange(from, to)),
{
    lemma_boundary_in_suffix(bytes, from, to);
    let tail = bytes.subrange(from, bytes.len() as int);
    valid_utf8_split(tail, to - from);
    assert(tail.subrange(0, to - from) =~= bytes.subrange(from, to));
}

/// No character begins among the bytes of another.
pub proof fn lemma_no_boundary_inside_scalar(bytes: Seq<u8>, at: int, inside: int)
    requires
        valid_utf8(bytes),
        0 <= at < bytes.len(),
        is_char_boundary(bytes, at),
        at < inside < at + length_of_first_scalar(bytes.subrange(at, bytes.len() as int)),
    ensures
        !is_char_boundary(bytes, inside),
{
    valid_utf8_split(bytes, at);
    let tail = bytes.subrange(at, bytes.len() as int);
    assert(valid_first_scalar(tail));
    assert(tail[inside - at] == bytes[inside]);
    assert(is_continuation_byte(bytes[inside]));
    is_char_boundary_iff_not_is_continuation_byte(bytes, inside);
}

} // verus!
