//! Small helpers around a book's files and the messages shown to the user.

use vstd::prelude::*;
use vstd::string::StringExecFns;
use crate::bytes::same_text;
use crate::cmd::Convert;
use crate::outside::{
    emoji_or, extension_of, left_aligned, pad_left_aligned, path_extension, path_file_stem,
    path_stem, path_with_extension, sanitize, sanitized, text_width, with_extension,
};

verus! {

/// The character of a decimal digit.
pub open spec fn digit(value: nat) -> char
    recommends
        value < 10,
{
    ((0x30 + value) as u8) as char
}

/// A number in decimal, without leading zeros.
pub open spec fn decimal(number: nat) -> Seq<char>
    decreases number,
{
    if number < 10 {
        seq![digit(number)]
    } else {
        decimal(number / 10).push(digit(number % 10))
    }
}

/// A number in decimal, filled with zeros on the left to three digits.
pub open spec fn three_digits(number: nat) -> Seq<char> {
    if number < 10 {
        seq!['0', '0'] + decimal(number)
    } else if number < 100 {
        seq!['0'] + decimal(number)
    } else {
        decimal(number)
    }
}

fn digit_str(value: u16) -> (text: &'static str)
    requires
        value < 10,
    ensures
        text@ == seq![digit(value as nat)],
{
    proof {
        reveal_strlit("0");
        reveal_strlit("1");
        reveal_strlit("2");
        reveal_strlit("3");
        reveal_strlit("4");
        reveal_strlit("5");
        reveal_strlit("6");
        reveal_strlit("7");
        reveal_strlit("8");
        reveal_strlit("9");
    }
    let text = match value {
        0 => "0",
        1 => "1",
        2 => "2",
        3 => "3",
        4 => "4",
        5 => "5",
        6 => "6",
        7 => "7",
        8 => "8",
        _ => "9",
    };
    assert(text@ =~= seq![digit(value as nat)]);
    text
}

fn push_decimal(text: &mut String, number: u16)
    ensures
        final(text)@ == old(text)@ + decimal(number as nat),
    decreases number,
{
    if number >= 10 {
        push_decimal(text, number / 10);
    }
    text.append(digit_str(number % 10));
    assert(final(text)@ =~= old(text)@ + decimal(number as nat));
}

/// The number of a chapter or volume as it stands in a file name: in
/// decimal, with at least three digits.
#[must_use]
pub fn num_to_str(num: u16) -> (text: String)
    ensures
        text@ == three_digits(num as nat),
{
    let mut text = String::new();
    proof {
        reveal_strlit("0");
        reveal_strlit("00");
    }
    if num < 10 {
        text.append("00");
    } else if num < 100 {
        text.append("0");
    }
    assert(text@ =~= three_digits(num as nat).take(text@.len() as int));
    push_decimal(&mut text, num);
    assert(text@ =~= three_digits(num as nat));
    text
}

/// The language that a book is written in once it has gone through the
/// conversions: traditional Chinese if one of them leads there, else
/// simplified Chinese.
#[must_use]
pub fn lang(convert: &[Convert]) -> (tag: String)
    ensures
        tag@ == if convert@.contains(Convert::S2T) {
            "zh-Hant"@
        } else {
            "zh-Hans"@
        },
{
    let mut i: usize = 0;
    while i < convert.len()
        invariant
            i <= convert.len(),
            forall|j: int| 0 <= j < i ==> convert@[j] != Convert::S2T,
        decreases convert.len() - i,
    {
        if convert[i] == Convert::S2T {
            return "zh-Hant".to_owned();
        }
        i += 1;
    }
    "zh-Hans".to_owned()
}

/// A path has no file name to take a stem from.
#[derive(Clone, Copy, Debug, PartialEq, Eq, Structural)]
pub struct NoFileStem;

impl NoFileStem {
    /// The error in words.
    pub fn message(&self) -> (text: &'static str)
        ensures
            text@ == "Can not get file_stem"@,
    {
        "Can not get file_stem"
    }
}

/// The file name of a path without its extension.
pub fn file_stem(path: &str) -> (stem: Result<String, NoFileStem>)
    ensures
        match path_file_stem(path@) {
            Some(found) => stem is Ok && stem->Ok_0@ == found,
            None => stem is Err,
        },
{
    match path_stem(path) {
        Some(stem) => Ok(stem),
        None => Err(NoFileStem),
    }
}

/// Whether a path names a Markdown document: a file, as `is_file` says, with
/// the extension `md`.
#[must_use]
pub fn is_markdown(path: &str, is_file: bool) -> (markdown: bool)
    ensures
        markdown == (is_file && path_extension(path@) == Some("md"@)),
{
    if !is_file {
        return false;
    }
    match extension_of(path) {
        Some(extension) => same_text(extension.as_str(), "md"),
        None => false,
    }
}

/// The name of the directory that a book is built in: the novel's name, made
/// fit for a file name.
pub fn to_mdbook_dir_name(novel_name: &str) -> (name: String)
    ensures
        name@ == sanitized(novel_name@),
{
    sanitize(novel_name)
}

/// The name of the Markdown file that a novel is written to: the directory
/// name with the extension `md`.
pub fn to_markdown_file_name(novel_name: &str) -> (name: String)
    ensures
        name@ == path_with_extension(sanitized(novel_name@), "md"@),
{
    let name = to_mdbook_dir_name(novel_name);
    proof {
        reveal_strlit("md");
    }
    with_extension(name.as_str(), "md")
}

/// `shown` is what a terminal message holds for `emoji`: the emoji or, where
/// the terminal shows none, `>`, filled up to two columns.
pub open spec fn shows_emoji(emoji: Seq<char>, shown: Seq<char>) -> bool {
    ||| shown == left_aligned(emoji, 2, text_width(emoji))
    ||| shown == left_aligned(">"@, 2, text_width(">"@))
}

/// An emoji as it stands in a message, two columns wide.
pub fn emoji(glyph: &str) -> (shown: String)
    ensures
        shows_emoji(glyph@, shown@),
{
    let glyph = emoji_or(glyph, ">");
    pad_left_aligned(glyph.as_str(), 2)
}

/// A message to look up among the localized texts: its name, and what is
/// put in for its placeholders.
#[derive(Debug, PartialEq, Eq)]
pub struct Message {
    pub id: String,
    pub args: Vec<(String, String)>,
}

/// The message `name`, with the emoji put in for `emoji`.
pub fn locales(name: &str, glyph: &str) -> (message: Message)
    ensures
        message.id@ == name@,
        message.args.deep_view().len() == 1,
        message.args.deep_view()[0].0 == "emoji"@,
        shows_emoji(glyph@, message.args.deep_view()[0].1),
{
    let mut args: Vec<(String, String)> = Vec::new();
    args.push(("emoji".to_owned(), emoji(glyph)));
    assert(args.deep_view()[0] == args@[0].deep_view());
    Message { id: name.to_owned(), args }
}

/// The message `name`, with the emoji put in for `emoji` and `arg` for `arg`.
pub fn locales_with_arg(name: &str, glyph: &str, arg: &str) -> (message: Message)
    ensures
        message.id@ == name@,
        message.args.deep_view().len() == 2,
        message.args.deep_view()[0].0 == "emoji"@,
        shows_emoji(glyph@, message.args.deep_view()[0].1),
        message.args.deep_view()[1] == ("arg"@, arg@),
{
    let mut args: Vec<(String, String)> = Vec::new();
    args.push(("emoji".to_owned(), emoji(glyph)));
    args.push(("arg".to_owned(), arg.to_owned()));
    assert(args.deep_view()[0] == args@[0].deep_view());
    assert(args.deep_view()[1] == args@[1].deep_view());
    Message { id: name.to_owned(), args }
}

/// How the pixels of an image are stored.
#[derive(Clone, Copy, Debug, PartialEq, Eq, Structural)]
pub enum ColorType {
    L8,
    La8,
    Rgb8,
    Rgba8,
    L16,
    La16,
    Rgb16,
    Rgba16,
    Rgb32F,
    Rgba32F,
}

/// The extension of the file that an image is written to: `webp` for eight
/// bits of red, green and blue, with or without alpha, else `png`.
#[must_use]
pub fn image_ext(color: ColorType) -> (extension: String)
    ensures
        extension@ == if color == ColorType::Rgb8 || color == ColorType::Rgba8 {
            "webp"@
        } else {
            "png"@
        },
{
    match color {
        ColorType::Rgb8 | ColorType::Rgba8 => "webp".to_owned(),
        _ => "png".to_owned(),
    }
}

/// What stands at a path.
#[derive(Clone, Copy, Debug, PartialEq, Eq, Structural)]
pub enum PathKind {
    Missing,
    File,
    Directory,
    Other,
}

/// What a removal gives up on.
#[derive(Clone, Copy, Debug, PartialEq, Eq, Structural)]
pub enum RemovalError {
    /// Nothing stands at the path.
    DoesNotExist,
    /// What stands there is neither a file nor a directory.
    NeitherFileNorDirectory,
    /// It could neither be moved to the trash nor deleted.
    DeleteFailed,
}

/// How far a removal has come, which is also what is to be done next.
#[derive(Clone, Copy, Debug, PartialEq, Eq, Structural)]
pub enum Removal {
    /// Find out what stands at the path.
    Probe,
    /// Move it to the trash; `directory` says whether it is one.
    Trash { directory: bool },
    /// Delete it for good, a directory with all that it holds.
    Delete { directory: bool },
    /// It is gone.
    Done,
    /// It is given up.
    Failed(RemovalError),
}

/// What came of the last thing done.
#[derive(Clone, Copy, Debug, PartialEq, Eq, Structural)]
pub enum Observed {
    Found(PathKind),
    Succeeded,
    Failed,
}

/// The removal after `observed` came of what `state` asked for. A file or a
/// directory is moved to the trash and deleted only if that fails; nothing
/// else is touched. What does not answer the state leaves it as it is.
pub open spec fn removal_after(state: Removal, observed: Observed) -> Removal {
    match (state, observed) {
        (Removal::Probe, Observed::Found(PathKind::Missing)) => Removal::Failed(
            RemovalError::DoesNotExist,
        ),
        (Removal::Probe, Observed::Found(PathKind::File)) => Removal::Trash { directory: false },
        (Removal::Probe, Observed::Found(PathKind::Directory)) => Removal::Trash {
            directory: true,
        },
        (Removal::Probe, Observed::Found(PathKind::Other)) => Removal::Failed(
            RemovalError::NeitherFileNorDirectory,
        ),
        (Removal::Trash { directory }, Observed::Succeeded) => Removal::Done,
        (Removal::Trash { directory }, Observed::Failed) => Removal::Delete { directory },
        (Removal::Delete { directory }, Observed::Succeeded) => Removal::Done,
        (Removal::Delete { directory }, Observed::Failed) => Removal::Failed(
            RemovalError::DeleteFailed,
        ),
        _ => state,
    }
}

/// One step of removing a file or a directory.
pub fn removal_step(state: Removal, observed: Observed) -> (next: Removal)
    ensures
        next == removal_after(state, observed),
{
    match state {
        Removal::Probe => match observed {
            Observed::Found(PathKind::Missing) => Removal::Failed(RemovalError::DoesNotExist),
            Observed::Found(PathKind::File) => Removal::Trash { directory: false },
            Observed::Found(PathKind::Directory) => Removal::Trash { directory: true },
            Observed::Found(PathKind::Other) => Removal::Failed(
                RemovalError::NeitherFileNorDirectory,
            ),
            _ => state,
        },
        Removal::Trash { directory } => match observed {
            Observed::Succeeded => Removal::Done,
            Observed::Failed => Removal::Delete { directory },
            Observed::Found(_) => state,
        },
        Removal::Delete { directory } => match observed {
            Observed::Succeeded => Removal::Done,
            Observed::Failed => Removal::Failed(RemovalError::DeleteFailed),
            Observed::Found(_) => state,
        },
        _ => state,
    }
}

} // verus!
