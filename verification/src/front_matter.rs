//! The metadata header of a Markdown document: where it begins and ends,
//! what is handed to the record parser, and what remains as the body.

use vstd::prelude::*;
use vstd::string::StringSliceAdditionalSpecFns;
use vstd::utf8::*;
use crate::bytes::{
    boundary_from, find, first_occurrence, lemma_boundary_after_ascii, lemma_boundary_from_is_least,
    lemma_boundary_after_scalar, lemma_boundary_in_suffix, lemma_first_occurrence,
    lemma_no_boundary_inside_scalar,
    lemma_text_between_boundaries, matches_at, occurs_at, same_text, starts_with,
};

verus! {

/// One of the two lines that enclose the header.
#[derive(Clone, Copy, Debug, PartialEq, Eq, Structural)]
pub enum Marker {
    /// The line `---` that opens the header.
    Start,
    /// The line `...` that closes it.
    End,
}

impl Marker {
    /// What is wrong with a text that lacks this marker, in words.
    pub fn message(&self) -> (text: &'static str)
        ensures
            text@ == match *self {
                Marker::Start => "The markdown format is incorrect, it should start with `---`"@,
                Marker::End => "The markdown format is incorrect, it should end with `...`"@,
            },
    {
        match self {
            Marker::Start => "The markdown format is incorrect, it should start with `---`",
            Marker::End => "The markdown format is incorrect, it should end with `...`",
        }
    }
}

/// Why a document could not be read.
#[derive(Debug, PartialEq, Eq)]
pub enum ReadError<E> {
    /// The bytes are not UTF-8.
    Encoding,
    /// The header lacks one of its markers.
    MalformedHeader(Marker),
    /// The record parser rejected the header; its error is kept.
    HeaderParse(E),
}

/// The record that the header holds.
#[must_use]
#[derive(Debug, PartialEq, Eq)]
pub struct MetaData {
    pub title: String,
    pub author: String,
    pub lang: String,
    pub description: Option<String>,
    pub cover_image: Option<String>,
}

/// The bytes of `---`.
pub open spec fn start_marker() -> Seq<u8> {
    seq![0x2du8, 0x2du8, 0x2du8]
}

/// The bytes of `...` on a line of its own, with the line breaks on both sides.
pub open spec fn end_marker() -> Seq<u8> {
    seq![0x0au8, 0x2eu8, 0x2eu8, 0x2eu8, 0x0au8]
}

/// Where the header's text begins when its end marker stands at `end`:
/// behind the opening marker and the character that follows it, and not
/// behind `end`.
pub open spec fn header_start(text: Seq<u8>, end: int) -> int {
    if end < 4 {
        end
    } else {
        boundary_from(text, 4)
    }
}

/// The header and the body of a text, as bytes, or the marker that it lacks.
pub open spec fn framing(text: Seq<u8>) -> Result<(Seq<u8>, Seq<u8>), Marker> {
    if !starts_with(text, start_marker()) {
        Err(Marker::Start)
    } else {
        match first_occurrence(text, end_marker()) {
            None => Err(Marker::End),
            Some(end) => Ok(
                (
                    text.subrange(header_start(text, end), end),
                    text.subrange(end + 5, text.len() as int),
                ),
            ),
        }
    }
}

/// What the framing of a text means. The header begins behind the opening
/// marker and one character, or at the end marker where that stands
/// earlier; the header, the end marker and the body follow each other and
/// end the text; header and body are text of their own; and no end marker
/// stands in the header.
pub proof fn lemma_framing(text: Seq<u8>)
    requires
        valid_utf8(text),
        framing(text) is Ok,
    ensures
        ({
            let end = first_occurrence(text, end_marker())->Some_0;
            let start = header_start(text, end);
            let (header, body) = framing(text)->Ok_0;
            &&& 3 <= start <= end
            &&& start <= 7
            &&& end >= 4 ==> start == 3 + length_of_first_scalar(
                text.subrange(3, text.len() as int),
            )
            &&& text == text.subrange(0, start) + header + end_marker() + body
            &&& valid_utf8(header)
            &&& valid_utf8(body)
            &&& first_occurrence(header, end_marker()) is None
        }),
{
    let end = first_occurrence(text, end_marker())->Some_0;
    let start = header_start(text, end);
    let (header, body) = framing(text)->Ok_0;
    lemma_first_occurrence(text, end_marker());
    let opening = text.subrange(0, 3);
    let closing = text.subrange(end, end + 5);
    assert(opening[0] == text[0] && opening[1] == text[1] && opening[2] == text[2]);
    assert(closing[0] == text[end] && closing[4] == text[end + 4]);
    lemma_boundary_after_ascii(text, 2);
    lemma_boundary_after_ascii(text, end);
    lemma_boundary_after_ascii(text, end + 4);
    lemma_boundary_after_scalar(text, 3);
    let width = length_of_first_scalar(text.subrange(3, text.len() as int));
    if end >= 4 {
        lemma_boundary_from_is_least(text, 4, end);
        lemma_boundary_from_is_least(text, 4, 3 + width);
        if start < 3 + width {
            lemma_no_boundary_inside_scalar(text, 3, start);
        }
    }
    is_char_boundary_start_end_of_seq(text);
    lemma_text_between_boundaries(text, start, end);
    lemma_text_between_boundaries(text, end + 5, text.len() as int);
    assert(text =~= text.subrange(0, start) + header + end_marker() + body);
    lemma_first_occurrence(header, end_marker());
    if first_occurrence(header, end_marker()) is Some {
        let at = first_occurrence(header, end_marker())->Some_0;
        assert(header.subrange(at, at + 5) =~= text.subrange(start + at, start + at + 5));
        assert(occurs_at(text, end_marker(), start + at));
    }
}

/// Splits a text into its header and its body.
pub fn split_header(text: &str) -> (parts: Result<(&str, &str), Marker>)
    ensures
        match framing(text.spec_bytes()) {
            Ok((header, body)) => parts is Ok && parts->Ok_0.0.spec_bytes() == header
                && parts->Ok_0.1.spec_bytes() == body,
            Err(marker) => parts == Err::<(&str, &str), Marker>(marker),
        },
{
    let bytes = text.as_bytes();
    let ghost all = text.spec_bytes();
    let opening: Vec<u8> = vec![0x2du8, 0x2du8, 0x2du8];
    let closing: Vec<u8> = vec![0x0au8, 0x2eu8, 0x2eu8, 0x2eu8, 0x0au8];
    assert(opening@ =~= start_marker());
    assert(closing@ =~= end_marker());
    if !matches_at(bytes, opening.as_slice(), 0) {
        return Err(Marker::Start);
    }
    let end: usize = match find(bytes, closing.as_slice()) {
        None => {
            return Err(Marker::End);
        },
        Some(end) => end,
    };
    proof {
        encode_utf8_valid_utf8(text@);
        lemma_first_occurrence(all, end_marker());
        let found = all.subrange(end as int, end + 5);
        assert(found[0] == all[end as int]);
        assert(found[4] == all[end + 4]);
        lemma_boundary_after_ascii(all, end as int);
        lemma_boundary_after_ascii(all, end + 4);
        if end >= 4 {
            lemma_boundary_from_is_least(all, 4, end as int);
        }
    }
    let mut start: usize = if end < 4 { end } else { 4 };
    while start < end && !text.is_char_boundary(start)
        invariant
            all == text.spec_bytes(),
            valid_utf8(all),
            starts_with(all, start_marker()),
            first_occurrence(all, end_marker()) == Some(end as int),
            start <= end,
            end < 4 ==> start == end,
            end + 5 <= all.len(),
            all[end + 4] == 0x0au8,
            header_start(all, end as int) == if end < 4 {
                end as int
            } else {
                boundary_from(all, start as int)
            },
            is_char_boundary(all, end as int),
        decreases end - start,
    {
        start += 1;
    }
    proof {
        lemma_boundary_after_ascii(all, end + 4);
        lemma_boundary_in_suffix(all, start as int, end as int);
        lemma_boundary_in_suffix(all, end as int, end + 5);
    }
    let (_, rest) = text.split_at(start);
    let (header, tail) = rest.split_at(end - start);
    assert(tail.spec_bytes() =~= all.subrange(end as int, all.len() as int));
    let (_, body) = tail.split_at(5);
    assert(header.spec_bytes() =~= all.subrange(start as int, end as int));
    assert(body.spec_bytes() =~= all.subrange(end + 5, all.len() as int));
    Ok((header, body))
}

/// `parse`, handed the header text `header`, may return `outcome`.
pub open spec fn parses_to<P, E>(parse: P, header: Seq<char>, outcome: Result<MetaData, E>) -> bool
    where P: FnOnce(&str) -> Result<MetaData, E>
{
    exists|text: &str| text@ == header && parse.ensures((text,), outcome)
}

/// What reading `bytes` with the record parser `parse` may give.
///
/// Bytes that are not UTF-8 give `Encoding`, and a text that lacks a marker
/// gives `MalformedHeader` with that marker. Every other text is framed: the
/// parser gets the header, its record comes back beside the body, and its
/// error comes back as `HeaderParse`.
pub open spec fn reads_as<P, E>(
    bytes: Seq<u8>,
    parse: P,
    outcome: Result<(MetaData, String), ReadError<E>>,
) -> bool
    where P: FnOnce(&str) -> Result<MetaData, E>
{
    if !valid_utf8(bytes) {
        outcome matches Err(ReadError::Encoding)
    } else {
        match framing(bytes) {
            Err(marker) => outcome matches Err(ReadError::MalformedHeader(m)) && m == marker,
            Ok((header, body)) => match outcome {
                Ok((meta_data, text)) => text@ == decode_utf8(body) && parses_to(
                    parse,
                    decode_utf8(header),
                    Ok(meta_data),
                ),
                Err(ReadError::HeaderParse(cause)) => parses_to(
                    parse,
                    decode_utf8(header),
                    Err(cause),
                ),
                Err(_) => false,
            },
        }
    }
}

/// Reads a document: decodes it, splits off the header, has `parse` turn the
/// header into the record, and returns the record with the body.
pub fn read_markdown<P, E>(bytes: &[u8], parse: P) -> (outcome: Result<
    (MetaData, String),
    ReadError<E>,
>)
    where P: FnOnce(&str) -> Result<MetaData, E>
    requires
        forall|header: &str| parse.requires((header,)),
    ensures
        reads_as(bytes@, parse, outcome),
{
    let text = match simdutf8::basic::from_utf8(bytes) {
        Ok(text) => text,
        Err(_) => {
            return Err(ReadError::Encoding);
        },
    };
    match split_header(text) {
        Err(marker) => Err(ReadError::MalformedHeader(marker)),
        Ok((header, body)) => {
            proof {
                encode_utf8_decode_utf8(header@);
                encode_utf8_decode_utf8(body@);
            }
            match parse(header) {
                Ok(meta_data) => Ok((meta_data, body.to_owned())),
                Err(cause) => Err(ReadError::HeaderParse(cause)),
            }
        },
    }
}

impl MetaData {
    /// Whether the language is one of the two that are written out.
    pub fn lang_is_ok(&self) -> (ok: bool)
        ensures
            ok == (self.lang@ == "zh-Hant"@ || self.lang@ == "zh-Hans"@),
    {
        same_text(self.lang.as_str(), "zh-Hant") || same_text(self.lang.as_str(), "zh-Hans")
    }

    /// Whether the cover image, if one is named, is a file; `is_file` is
    /// asked about the named path, and only about it.
    pub fn cover_image_is_ok<F>(&self, is_file: F) -> (ok: bool)
        where F: FnOnce(&str) -> bool
        requires
            forall|path: &str| is_file.requires((path,)),
        ensures
            match self.cover_image {
                None => ok,
                Some(named) => exists|path: &str| path@ == named@ && is_file.ensures((path,), ok),
            },
    {
        match &self.cover_image {
            None => true,
            Some(named) => is_file(named.as_str()),
        }
    }
}

} // verus!
