use novel_cli::bytes::{find, matches_at, same_text};
use novel_cli::cmd::Convert;
use novel_cli::utils::{
    emoji, file_stem, image_ext, is_markdown, lang, locales, locales_with_arg, num_to_str,
    removal_step, to_markdown_file_name, to_mdbook_dir_name, ColorType, NoFileStem, Observed,
    PathKind, Removal, RemovalError,
};

#[test]
fn numbers_have_at_least_three_digits() {
    assert_eq!(num_to_str(0), "000");
    assert_eq!(num_to_str(7), "007");
    assert_eq!(num_to_str(9), "009");
    assert_eq!(num_to_str(10), "010");
    assert_eq!(num_to_str(42), "042");
    assert_eq!(num_to_str(99), "099");
    assert_eq!(num_to_str(100), "100");
    assert_eq!(num_to_str(101), "101");
    assert_eq!(num_to_str(999), "999");
    assert_eq!(num_to_str(1000), "1000");
    assert_eq!(num_to_str(40960), "40960");
    assert_eq!(num_to_str(u16::MAX), "65535");
}

#[test]
fn every_number_is_written_as_std_writes_it() {
    for number in 0..=u16::MAX {
        assert_eq!(num_to_str(number), format!("{number:03}"));
    }
}

#[test]
fn language_follows_the_conversions() {
    assert_eq!(lang(&[]), "zh-Hans");
    assert_eq!(lang(&[Convert::S2T]), "zh-Hant");
    assert_eq!(lang(&[Convert::T2S]), "zh-Hans");
    assert_eq!(lang(&[Convert::JP2T2S, Convert::CUSTOM]), "zh-Hans");
    assert_eq!(lang(&[Convert::CUSTOM, Convert::S2T]), "zh-Hant");
    assert_eq!(lang(&[Convert::T2S, Convert::S2T, Convert::T2S]), "zh-Hant");
}

#[test]
fn file_stem_is_the_name_without_its_extension() {
    assert_eq!(file_stem("novel.md"), Ok("novel".to_string()));
    assert_eq!(file_stem("/books/novel.md"), Ok("novel".to_string()));
    assert_eq!(file_stem("books/archive.tar.gz"), Ok("archive.tar".to_string()));
    assert_eq!(file_stem("novel"), Ok("novel".to_string()));
    assert_eq!(file_stem(".hidden"), Ok(".hidden".to_string()));
    assert_eq!(file_stem("books/"), Ok("books".to_string()));
    assert_eq!(file_stem("\u{5c0f}\u{8bf4}.md"), Ok("\u{5c0f}\u{8bf4}".to_string()));
}

#[test]
fn path_without_a_file_name_has_no_stem() {
    assert_eq!(file_stem(""), Err(NoFileStem));
    assert_eq!(file_stem("/"), Err(NoFileStem));
    assert_eq!(file_stem(".."), Err(NoFileStem));
    assert_eq!(file_stem("books/.."), Err(NoFileStem));
    assert_eq!(NoFileStem.message(), "Can not get file_stem");
}

#[test]
fn markdown_is_a_file_with_the_extension_md() {
    assert!(is_markdown("novel.md", true));
    assert!(is_markdown("/books/a.b.md", true));
    assert!(!is_markdown("novel.md", false));
    assert!(!is_markdown("novel.MD", true));
    assert!(!is_markdown("novel.markdown", true));
    assert!(!is_markdown("novel", true));
    assert!(!is_markdown("md", true));
    assert!(!is_markdown(".md", true));
    assert!(!is_markdown("novel.md/", false));
    assert!(!is_markdown("", true));
}

#[test]
fn directory_name_is_made_fit_for_a_file_name() {
    assert_eq!(to_mdbook_dir_name("novel"), "novel");
    assert_eq!(to_mdbook_dir_name("a/b"), "ab");
    assert_eq!(to_mdbook_dir_name("who? what: *this*"), "who what this");
    assert_eq!(to_mdbook_dir_name("line\nbreak"), "linebreak");
    assert_eq!(to_mdbook_dir_name(".."), "");
    assert_eq!(to_mdbook_dir_name("\u{5c0f}\u{8bf4}"), "\u{5c0f}\u{8bf4}");
    assert_eq!(to_mdbook_dir_name(&"x".repeat(300)), "x".repeat(255));
}

#[test]
fn markdown_file_name_ends_in_md() {
    assert_eq!(to_markdown_file_name("novel"), "novel.md");
    assert_eq!(to_markdown_file_name("a/b"), "ab.md");
    assert_eq!(to_markdown_file_name("\u{5c0f}\u{8bf4}"), "\u{5c0f}\u{8bf4}.md");
}

#[test]
fn markdown_file_name_replaces_an_extension() {
    assert_eq!(to_markdown_file_name("vol.1"), "vol.md");
    assert_eq!(to_markdown_file_name("a.b.c"), "a.b.md");
}

#[test]
fn empty_name_stays_empty() {
    assert_eq!(to_markdown_file_name(""), "");
    assert_eq!(to_markdown_file_name("///"), "");
}

#[test]
fn emoji_is_filled_to_two_columns() {
    assert_eq!(emoji(">"), "> ");
    let shown = emoji("\u{2728}");
    assert!(shown == "\u{2728}" || shown == "> ");
    let wide = emoji("abc");
    assert!(wide == "abc" || wide == "> ");
    let empty = emoji("");
    assert!(empty == "  " || empty == "> ");
}

#[test]
fn message_carries_the_emoji() {
    let message = locales("download_complete", ">");
    assert_eq!(message.id, "download_complete");
    assert_eq!(message.args, vec![("emoji".to_string(), "> ".to_string())]);
}

#[test]
fn message_carries_the_emoji_and_the_argument() {
    let message = locales_with_arg("start_build", ">", "novel.md");
    assert_eq!(message.id, "start_build");
    assert_eq!(
        message.args,
        vec![
            ("emoji".to_string(), "> ".to_string()),
            ("arg".to_string(), "novel.md".to_string()),
        ]
    );
}

#[test]
fn image_extension_follows_the_color_type() {
    assert_eq!(image_ext(ColorType::Rgb8), "webp");
    assert_eq!(image_ext(ColorType::Rgba8), "webp");
    assert_eq!(image_ext(ColorType::L8), "png");
    assert_eq!(image_ext(ColorType::La8), "png");
    assert_eq!(image_ext(ColorType::L16), "png");
    assert_eq!(image_ext(ColorType::La16), "png");
    assert_eq!(image_ext(ColorType::Rgb16), "png");
    assert_eq!(image_ext(ColorType::Rgba16), "png");
    assert_eq!(image_ext(ColorType::Rgb32F), "png");
    assert_eq!(image_ext(ColorType::Rgba32F), "png");
}

#[test]
fn file_goes_to_the_trash() {
    let state = removal_step(Removal::Probe, Observed::Found(PathKind::File));
    assert_eq!(state, Removal::Trash { directory: false });
    assert_eq!(removal_step(state, Observed::Succeeded), Removal::Done);
}

#[test]
fn directory_is_deleted_when_the_trash_fails() {
    let state = removal_step(Removal::Probe, Observed::Found(PathKind::Directory));
    assert_eq!(state, Removal::Trash { directory: true });
    let state = removal_step(state, Observed::Failed);
    assert_eq!(state, Removal::Delete { directory: true });
    assert_eq!(removal_step(state, Observed::Succeeded), Removal::Done);
    assert_eq!(
        removal_step(state, Observed::Failed),
        Removal::Failed(RemovalError::DeleteFailed)
    );
}

#[test]
fn file_is_deleted_when_the_trash_fails() {
    let state = removal_step(Removal::Trash { directory: false }, Observed::Failed);
    assert_eq!(state, Removal::Delete { directory: false });
}

#[test]
fn what_is_missing_or_of_another_kind_is_not_removed() {
    assert_eq!(
        removal_step(Removal::Probe, Observed::Found(PathKind::Missing)),
        Removal::Failed(RemovalError::DoesNotExist)
    );
    assert_eq!(
        removal_step(Removal::Probe, Observed::Found(PathKind::Other)),
        Removal::Failed(RemovalError::NeitherFileNorDirectory)
    );
}

#[test]
fn what_does_not_answer_the_state_changes_nothing() {
    assert_eq!(removal_step(Removal::Probe, Observed::Succeeded), Removal::Probe);
    assert_eq!(removal_step(Removal::Probe, Observed::Failed), Removal::Probe);
    assert_eq!(
        removal_step(Removal::Trash { directory: true }, Observed::Found(PathKind::File)),
        Removal::Trash { directory: true }
    );
    assert_eq!(
        removal_step(Removal::Delete { directory: false }, Observed::Found(PathKind::Missing)),
        Removal::Delete { directory: false }
    );
    assert_eq!(removal_step(Removal::Done, Observed::Failed), Removal::Done);
    assert_eq!(
        removal_step(Removal::Failed(RemovalError::DoesNotExist), Observed::Succeeded),
        Removal::Failed(RemovalError::DoesNotExist)
    );
}

#[test]
fn needle_is_found_at_its_first_place() {
    assert_eq!(find(b"abcabc", b"bc"), Some(1));
    assert_eq!(find(b"abcabc", b"abc"), Some(0));
    assert_eq!(find(b"abcabc", b"c"), Some(2));
    assert_eq!(find(b"aaab", b"aab"), Some(1));
    assert_eq!(find(b"abc", b"abc"), Some(0));
    assert_eq!(find(b"xxabc", b"abc"), Some(2));
}

#[test]
fn needle_that_is_absent_is_not_found() {
    assert_eq!(find(b"abcabc", b"cb"), None);
    assert_eq!(find(b"ab", b"abc"), None);
    assert_eq!(find(b"", b"a"), None);
    assert_eq!(find(b"abc", b"abd"), None);
}

#[test]
fn empty_needle_stands_at_the_beginning() {
    assert_eq!(find(b"abc", b""), Some(0));
    assert_eq!(find(b"", b""), Some(0));
}

#[test]
fn needle_is_matched_at_a_given_place() {
    assert!(matches_at(b"abcabc", b"bc", 1));
    assert!(matches_at(b"abcabc", b"bc", 4));
    assert!(!matches_at(b"abcabc", b"bc", 0));
    assert!(!matches_at(b"abcabc", b"bc", 5));
    assert!(!matches_at(b"abcabc", b"bc", 6));
    assert!(!matches_at(b"abcabc", b"bc", usize::MAX));
    assert!(matches_at(b"abc", b"", 3));
    assert!(!matches_at(b"abc", b"", 4));
    assert!(!matches_at(b"ab", b"abc", 0));
}

#[test]
fn texts_are_compared_by_their_characters() {
    assert!(same_text("", ""));
    assert!(same_text("zh-Hant", "zh-Hant"));
    assert!(!same_text("zh-Hant", "zh-Hans"));
    assert!(!same_text("zh", "zh-Hant"));
    assert!(same_text("\u{5c0f}\u{8bf4}", "\u{5c0f}\u{8bf4}"));
    assert!(!same_text("\u{5c0f}", "\u{8bf4}"));
}
