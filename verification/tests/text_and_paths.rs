use std::path::Path;
use wist_agentd::os_text::OsText;
use wist_agentd::paths::{normalize_path, split};
use wist_agentd::text::{
    ascii_alphanumeric, bool_text, bytes_eq, concat_all, decimal_text, end_lines, join, lines,
    parse_u64, single_line, text_eq, trim, white_space,
};

fn text(value: &str) -> OsText {
    OsText::from_text(value)
}

fn shown(path: &Path) -> OsText {
    text(path.to_str().expect("utf-8"))
}

const TEXTS: [&str; 22] = [
    "", " ", "\n", "\r\n", "a", " a ", "a b", "\ta\u{a0}b\u{3000}", "a\nb", "a\r\nb\n", "a\r",
    "a\r\r\n", "\n\n", "\r\n\r\n", "a\n\nb", "\u{2028}x\u{200b}", "\u{85}y\u{feff}", "x\n\r",
    " \u{1680}\u{2009} z \u{205f}", "trailing \n", "\u{4e2d}\u{6587}\n\u{1f600}", "\r",
];

#[test]
fn characters_are_classified_as_in_the_standard_library() {
    for code in 0..=0x10ffff_u32 {
        if let Some(c) = char::from_u32(code) {
            assert_eq!(white_space(c), c.is_whitespace(), "{code:x}");
            assert_eq!(ascii_alphanumeric(c), c.is_ascii_alphanumeric(), "{code:x}");
        }
    }
}

#[test]
fn texts_are_trimmed_and_split_as_in_the_standard_library() {
    for given in TEXTS {
        assert_eq!(trim(given), given.trim(), "{given:?}");
        assert_eq!(trim(&trim(given)), trim(given));
        assert_eq!(lines(given), given.lines().collect::<Vec<_>>(), "{given:?}");
        assert_eq!(single_line(given), !given.contains('\n') && !given.contains('\r'));
        for other in TEXTS {
            assert_eq!(text_eq(given, other), given == other);
            assert_eq!(bytes_eq(given.as_bytes(), other.as_bytes()), given == other);
        }
    }
}

#[test]
fn numbers_are_written_and_read_as_in_the_standard_library() {
    for n in [0, 1, 9, 10, 99, 100, 65535, 1_000_000_007, u64::MAX - 1, u64::MAX] {
        assert_eq!(decimal_text(n), n.to_string());
        assert_eq!(parse_u64(&decimal_text(n)), Some(n));
    }
    for given in [
        "", "+", "+5", "++5", "-1", " 1", "1 ", "007", "1_0", "0x1", "18446744073709551615",
        "18446744073709551616", "99999999999999999999999", "\u{0661}", "5+", "+0",
    ] {
        assert_eq!(parse_u64(given), given.parse::<u64>().ok(), "{given:?}");
    }
    assert_eq!(bool_text(true), "true");
    assert_eq!(bool_text(false), "false");
}

#[test]
fn lists_are_put_together() {
    let list = |parts: &[&str]| parts.iter().map(|p| p.to_string()).collect::<Vec<_>>();
    assert_eq!(join(&list(&[]), ","), "");
    assert_eq!(join(&list(&["a"]), ","), "a");
    assert_eq!(join(&list(&["a", "", "b"]), ", "), "a, , b");
    assert_eq!(concat_all(&list(&["a", "b", ""])), "ab");
    assert_eq!(end_lines(&list(&["a", ""])), "a\n\n");
    assert_eq!(lines(&end_lines(&list(&["a", "", "b"]))), list(&["a", "", "b"]));
    assert_eq!(split(b"/a//b/", b'/'), vec![
        b"".to_vec(),
        b"a".to_vec(),
        b"".to_vec(),
        b"b".to_vec(),
        b"".to_vec(),
    ]);
    assert_eq!(split(b"", b':'), vec![b"".to_vec()]);
}

#[test]
fn byte_strings_are_shown_as_text() {
    assert_eq!(text("h\u{e9}").bytes, vec![0x68, 0xc3, 0xa9]);
    assert_eq!(text("h\u{e9}").display(), "h\u{e9}");
    assert_eq!(text("h\u{e9}").to_text().as_deref(), Some("h\u{e9}"));
    assert!(text("help").is_text("help"));
    assert!(!text("help").is_text("hel"));
    let broken = OsText { bytes: vec![0x61, 0xc3, 0x28] };
    assert_eq!(broken.to_text(), None);
    assert_eq!(broken.display(), "a\u{fffd}(");
    assert_eq!(broken.display(), String::from_utf8_lossy(&broken.bytes));
    assert!(!broken.is_text("a\u{fffd}("));
    assert!(OsText { bytes: vec![] }.is_empty());
    assert_eq!(broken.clone(), broken);
}

const PATHS: [&str; 32] = [
    "", "/", "//", ".", "./", "/.", "..", "../", "/..", "a", "a/", "/a", "//a", "./a", "a/.",
    "a/./b", "a//b", "a/b/", "/a/b", "/a/../b", "a/..", "../a", "./..", "./.", ".a", "a.", "...",
    "/a/b/c.d", "a/b/../../c", "/./a", "a/./.", "\u{4e2d}/\u{6587}",
];

#[test]
fn paths_behave_as_in_the_standard_library() {
    for given in PATHS {
        let path = Path::new(given);
        let own = text(given);
        assert_eq!(own.is_absolute(), path.is_absolute(), "{given}");
        assert_eq!(own.parent(), path.parent().map(shown), "{given}");
        assert_eq!(own.parts().len(), path.components().count(), "{given}");
        assert_eq!(
            own.with_file_name(&text("x")),
            shown(&path.with_file_name("x")),
            "{given}"
        );
        for other in PATHS {
            let second = Path::new(other);
            assert_eq!(own.join(&text(other)), shown(&path.join(second)), "{given} {other}");
            assert_eq!(own.starts_with(&text(other)), path.starts_with(second), "{given} {other}");
            assert_eq!(own.same_as(&text(other)), path == second, "{given} {other}");
        }
    }
}

#[test]
fn normal_forms_have_no_dots() {
    for (given, wanted) in [
        ("/a/./b/../c", "/a/c"),
        ("a/../../b", "b"),
        ("/../..", "/"),
        ("./a//b/", "a/b"),
        ("", ""),
        (".", ""),
        ("/", "/"),
    ] {
        assert_eq!(normalize_path(&text(given)), text(wanted), "{given}");
    }
    for given in PATHS {
        let once = normalize_path(&text(given));
        assert_eq!(normalize_path(&once), once);
        assert_eq!(once.is_absolute(), text(given).is_absolute());
    }
}
