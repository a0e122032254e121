use std::path::Path;

use git_bak::error::Error;
use git_bak::paths::{
    absolute, file_name, join_path, normalize_path, parent, relative_to_workspace, strip_prefix,
};
use git_bak::text::{
    chars_of, contains_text, ends_with, join, split_lines, starts_with, to_decimal, trim,
    trim_end, trim_trailing_newlines, white_space,
};

#[test]
fn white_space_is_what_std_takes_it_for() {
    for code in 0..=0x10ffffu32 {
        if let Some(c) = char::from_u32(code) {
            assert_eq!(white_space(c), c.is_whitespace(), "{code:x}");
        }
    }
}

#[test]
fn lines_are_those_of_std() {
    for text in ["", "a", "a\n", "a\nb", "a\r\nb\r\n", "\n\n", "a\r", "a\r\r\n", "\r\n"] {
        let expected: Vec<&str> = text.lines().collect();
        assert_eq!(split_lines(text), expected, "{text:?}");
    }
}

#[test]
fn trimming_is_that_of_std() {
    for text in ["", " ", "a", " a b ", "\u{3000}a\t\r\n", "\n\u{a0}", "a \u{200b} "] {
        assert_eq!(trim(text), text.trim(), "{text:?}");
        assert_eq!(trim_end(text), text.trim_end(), "{text:?}");
        assert_eq!(
            trim_trailing_newlines(text),
            text.trim_end_matches(['\n', '\r']),
            "{text:?}"
        );
    }
    assert_eq!(trim_trailing_newlines(" a \r\n\r\n"), " a ");
}

#[test]
fn searching_is_that_of_std() {
    for (hay, needle) in [("", ""), ("a", ""), ("", "a"), ("abcabd", "abd"), ("aab", "ab"), ("ab", "b")] {
        assert_eq!(contains_text(hay, needle), hay.contains(needle));
        assert_eq!(starts_with(hay, needle), hay.starts_with(needle));
        assert_eq!(ends_with(hay, needle), hay.ends_with(needle));
    }
}

#[test]
fn numbers_are_written_in_decimal() {
    for n in [0u128, 9, 10, 99, 100, 1_500, 5_242_880, u128::MAX] {
        assert_eq!(to_decimal(n), n.to_string());
    }
}

#[test]
fn texts_are_joined() {
    let parts = vec!["a".to_owned(), String::new(), "c".to_owned()];
    assert_eq!(join(&parts, "; "), "a; ; c");
    assert_eq!(join(&[], "; "), "");
    assert_eq!(chars_of("a\u{e4}"), ['a', '\u{e4}']);
}

const PATHS: [&str; 20] = [
    "", "/", ".", "..", "a", "a/", "a/b", "/a", "/a/b", "/a//b/", "./a", "a/.", "a/./b", "/./a",
    "a/..", "//a", "../a", ".env", "a/b/c.md", "/a/b/c.md",
];

#[test]
fn names_and_parents_are_those_of_std() {
    for path in PATHS {
        let std_path = Path::new(path);
        assert_eq!(absolute(path), std_path.is_absolute(), "{path}");
        assert_eq!(
            file_name(path).as_deref(),
            std_path.file_name().and_then(|name| name.to_str()),
            "{path}"
        );
        assert_eq!(
            parent(path).as_deref(),
            std_path.parent().and_then(Path::to_str),
            "{path}"
        );
    }
}

#[test]
fn joining_and_stripping_are_those_of_std() {
    for base in PATHS {
        for path in PATHS {
            assert_eq!(
                join_path(base, path),
                Path::new(base).join(path).to_string_lossy(),
                "{base} {path}"
            );
            assert_eq!(
                strip_prefix(path, base).as_deref(),
                Path::new(path).strip_prefix(base).ok().and_then(Path::to_str),
                "{path} {base}"
            );
        }
    }
}

#[test]
fn joining_is_undone_by_asking_for_the_relative_path() {
    for base in ["/work", "/work/", "work", "", "/"] {
        for path in ["SOUL.md", "memory/a.md", ".env", "a/../b"] {
            assert_eq!(relative_to_workspace(base, &join_path(base, path)), path);
        }
    }
    assert_eq!(relative_to_workspace("/work", "/other/x"), "/other/x");
}

#[test]
fn paths_are_written_with_slashes() {
    assert_eq!(normalize_path("memory\\a.md"), "memory/a.md");
    assert_eq!(normalize_path("memory/a.md"), "memory/a.md");
}

#[test]
fn errors_are_shown_with_their_kind() {
    let text = |error: Error| error.to_text();
    assert_eq!(text(Error::Config("x".to_owned())), "config error: x");
    assert_eq!(text(Error::Git("x".to_owned())), "git error: x");
    assert_eq!(text(Error::Watcher("x".to_owned())), "watcher error: x");
    assert_eq!(text(Error::Hook("x".to_owned())), "hook error: x");
    assert_eq!(text(Error::Lock("x".to_owned())), "lock error: x");
}
