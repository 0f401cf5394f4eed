//! What this library takes on trust from the crates it calls: their types as
//! far as they pass through, and what their functions return.

use vstd::prelude::*;
use vstd::string::StringSliceAdditionalSpecFns;
use vstd::utf8::valid_utf8;
use rayon::iter::{IntoParallelIterator, ParallelIterator};
use crate::cmd::Convert;
use crate::events::{convert_event, rewritten, BodyEvent, EventView};

verus! {

/// `simdutf8::basic::Utf8Error`, which says no more than that bytes are not
/// UTF-8.
#[verifier::external_type_specification]
#[verifier::external_body]
pub struct ExUtf8Error(simdutf8::basic::Utf8Error);

/// `simdutf8::basic::from_utf8` accepts exactly the byte sequences that are
/// valid UTF-8, and hands back the same bytes as a string.
pub assume_specification[ simdutf8::basic::from_utf8 ](input: &[u8]) -> (text: Result<
    &str,
    simdutf8::basic::Utf8Error,
>)
    ensures
        text is Ok <==> valid_utf8(input@),
        text is Ok ==> text->Ok_0.spec_bytes() == input@,
;

/// `pulldown_cmark::Event`. The library carries such a value from the parser
/// to its caller and does not look into it.
#[verifier::external_type_specification]
#[verifier::external_body]
pub struct ExMarkup<'a>(pulldown_cmark::Event<'a>);

/// The events that `pulldown_cmark::Parser` reads from a text, with every
/// extension of its grammar switched on, but for smart punctuation, which
/// is on or off as `smart_punctuation` says.
pub uninterp spec fn parsed_events(markdown: Seq<char>, smart_punctuation: bool) -> Seq<EventView>;

/// `pulldown_cmark::Parser::new_ext`, run to its end: the events of
/// `markdown` in the order of the text, each text run as a string of its
/// own and every other event as the parser gave it.
#[verifier::external_body]
pub(crate) fn parse_events(markdown: &str, smart_punctuation: bool) -> (events: Vec<BodyEvent>)
    ensures
        events.deep_view() == parsed_events(markdown@, smart_punctuation),
{
    let mut options = pulldown_cmark::Options::all();
    options.set(pulldown_cmark::Options::ENABLE_SMART_PUNCTUATION, smart_punctuation);
    pulldown_cmark::Parser::new_ext(markdown, options)
        .map(|event| match event {
            pulldown_cmark::Event::Text(text) => BodyEvent::Text(text.into_string()),
            other => BodyEvent::Markup(other.into_static()),
        })
        .collect()
}

/// rayon's `into_par_iter`, `map` and `collect` on a vector: every event is
/// rewritten by `convert_event`, on whichever thread, and the outcomes stand
/// in the order of the events.
#[verifier::external_body]
pub(crate) fn convert_each<F, E>(
    events: Vec<BodyEvent>,
    converts: &[Convert],
    convert: &F,
) -> (outcomes: Vec<Result<BodyEvent, E>>)
    where F: Fn(&str, &[Convert]) -> Result<String, E> + Sync, E: Send
    requires
        forall|text: &str| convert.requires((text, converts)),
    ensures
        outcomes@.len() == events@.len(),
        forall|i: int|
            0 <= i < events@.len() ==> rewritten(
                events@[i]@,
                converts,
                convert,
                #[trigger] outcomes@[i],
            ),
{
    events.into_par_iter().map(|event| convert_event(event, converts, convert)).collect()
}

/// What `sanitize_filename::sanitize` makes of a name, on the platform that
/// the library is built for.
pub uninterp spec fn sanitized(name: Seq<char>) -> Seq<char>;

/// `sanitize_filename::sanitize`, which takes out of a name what a file name
/// may not hold, and cuts it where it is too long.
#[verifier::external_body]
pub(crate) fn sanitize(name: &str) -> (clean: String)
    ensures
        clean@ == sanitized(name@),
{
    sanitize_filename::sanitize(name)
}

/// What `std::path::Path::file_stem` finds in a path, on the platform that
/// the library is built for: the file name without its extension, if the
/// path has a file name.
pub uninterp spec fn path_file_stem(path: Seq<char>) -> Option<Seq<char>>;

/// `std::path::Path::file_stem` on a path given as text.
#[verifier::external_body]
pub(crate) fn path_stem(path: &str) -> (stem: Option<String>)
    ensures
        stem.deep_view() == path_file_stem(path@),
{
    std::path::Path::new(path).file_stem().and_then(|stem| stem.to_str()).map(
        |stem| stem.to_owned(),
    )
}

/// What `std::path::Path::extension` finds in a path, on the platform that
/// the library is built for: what follows the last dot of the file name, if
/// there is such a dot and it is not the name's first character.
pub uninterp spec fn path_extension(path: Seq<char>) -> Option<Seq<char>>;

/// `std::path::Path::extension` on a path given as text.
#[verifier::external_body]
pub(crate) fn extension_of(path: &str) -> (extension: Option<String>)
    ensures
        extension.deep_view() == path_extension(path@),
{
    std::path::Path::new(path).extension().and_then(|extension| extension.to_str()).map(
        |extension| extension.to_owned(),
    )
}

/// What `std::path::PathBuf::set_extension` leaves of a path, on the platform
/// that the library is built for: the path with that extension in place of
/// its own, or added where it had none, and unchanged where it has no file
/// name.
pub uninterp spec fn path_with_extension(path: Seq<char>, extension: Seq<char>) -> Seq<char>;

/// `std::path::PathBuf::set_extension` on a path given as text. The call
/// panics on an extension that holds a path separator.
#[verifier::external_body]
pub(crate) fn with_extension(path: &str, extension: &str) -> (changed: String)
    requires
        !extension@.contains('/'),
        !extension@.contains('\\'),
    ensures
        changed@ == path_with_extension(path@, extension@),
{
    let mut buffer = std::path::PathBuf::from(path);
    buffer.set_extension(extension);
    buffer.to_string_lossy().into_owned()
}

/// What `std::path::PathBuf::push` leaves of a path, on the platform that
/// the library is built for: the path extended by the part, or the part
/// alone where it is absolute.
pub uninterp spec fn path_joined(base: Seq<char>, part: Seq<char>) -> Seq<char>;

/// `std::path::PathBuf::push` on a path given as text.
#[verifier::external_body]
pub(crate) fn join_path(base: &str, part: &str) -> (joined: String)
    ensures
        joined@ == path_joined(base@, part@),
{
    let mut buffer = std::path::PathBuf::from(base);
    buffer.push(part);
    buffer.to_string_lossy().into_owned()
}

/// `console::Emoji`, written out: the emoji where the terminal is taken to
/// show emojis, else the fallback. Which of the two depends on the
/// environment.
#[verifier::external_body]
pub(crate) fn emoji_or(emoji: &str, fallback: &str) -> (shown: String)
    ensures
        shown@ == emoji@ || shown@ == fallback@,
{
    console::Emoji(emoji, fallback).to_string()
}

/// The number of terminal columns that `console::measure_text_width` counts
/// for a text.
pub uninterp spec fn text_width(text: Seq<char>) -> nat;

/// A text followed by the spaces that fill it up to `width` columns, where
/// it takes `columns` of them.
pub open spec fn left_aligned(text: Seq<char>, width: nat, columns: nat) -> Seq<char> {
    if columns >= width {
        text
    } else {
        text + Seq::new((width - columns) as nat, |i: int| ' ')
    }
}

/// `console::pad_str`, aligning to the left and cutting nothing: a text at
/// least `width` columns wide comes back as it is, a narrower one with
/// spaces behind it up to that width.
#[verifier::external_body]
pub(crate) fn pad_left_aligned(text: &str, width: usize) -> (padded: String)
    ensures
        padded@ == left_aligned(text@, width as nat, text_width(text@)),
{
    console::pad_str(text, width, console::Alignment::Left, None).into_owned()
}

} // verus!
