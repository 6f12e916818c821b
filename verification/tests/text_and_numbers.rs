use kdev::numbers::{decimal_string, int_error_message, parse_u64, saturating_mul, IntErrorKind};
use kdev::order::{less, sort_strings};
use kdev::paths::{
    extension, file_name, has_parent_component, has_prefix_component, is_absolute, join, name_ext, path_segments,
    path_starts_with, split_on,
};
use kdev::runtime::HostOs;
use kdev::text::{contains_str, ends_with, is_blank, join_strings, lines, replace_char, split_whitespace, starts_with, trim};

fn strs(v: &[&str]) -> Vec<String> {
    v.iter().map(|s| s.to_string()).collect()
}

#[test]
fn trim_removes_unicode_white_space() {
    assert_eq!(trim("  \t hello world \n"), "hello world");
    assert_eq!(trim("\u{3000}x\u{a0}"), "x");
    assert_eq!(trim(" \n\t "), "");
    assert!(is_blank(" \r\n\u{2003}"));
    assert!(!is_blank(" a "));
    assert!(is_blank(""));
}

#[test]
fn lines_match_str_lines() {
    for text in ["", "a", "a\n", "a\r\nb", "a\n\nb\n", "\n", "x\r", "a\rb\n", "one\r\n\r\ntwo"] {
        let expected: Vec<String> = text.lines().map(String::from).collect();
        assert_eq!(lines(text), expected, "lines of {:?}", text);
    }
}

#[test]
fn words_match_split_whitespace() {
    for text in ["", "  ", "a b", " Filesystem 1024-blocks  Used ", "x\u{2000}y\tz\n"] {
        let expected: Vec<String> = text.split_whitespace().map(String::from).collect();
        assert_eq!(split_whitespace(text), expected, "words of {:?}", text);
    }
}

#[test]
fn searching_text() {
    assert!(contains_str("a/../b", ".."));
    assert!(!contains_str("a/./b", ".."));
    assert!(contains_str("abc", ""));
    assert!(starts_with("kdev-tmp", "kdev"));
    assert!(ends_with("123-main.py.json", "-main.py.json"));
    assert!(!ends_with("json", "-main.py.json"));
    assert_eq!(replace_char("a\\b\\c", '\\', '/'), "a/b/c");
    assert_eq!(join_strings(&strs(&["add", "-A"]), " "), "add -A");
    assert_eq!(join_strings(&strs(&[]), ", "), "");
}

#[test]
fn decimal_formatting() {
    assert_eq!(decimal_string(0), "0");
    assert_eq!(decimal_string(7), "7");
    assert_eq!(decimal_string(4173), "4173");
    assert_eq!(decimal_string(u64::MAX), "18446744073709551615");
}

#[test]
fn decimal_parsing_and_errors() {
    assert_eq!(parse_u64("1024"), Ok(1024));
    assert_eq!(parse_u64("+42"), Ok(42));
    assert_eq!(parse_u64("18446744073709551615"), Ok(u64::MAX));
    assert_eq!(parse_u64(""), Err(IntErrorKind::Empty));
    assert_eq!(parse_u64("+"), Err(IntErrorKind::InvalidDigit));
    assert_eq!(parse_u64("-1"), Err(IntErrorKind::InvalidDigit));
    assert_eq!(parse_u64("12a"), Err(IntErrorKind::InvalidDigit));
    assert_eq!(parse_u64("18446744073709551616"), Err(IntErrorKind::PosOverflow));
    for s in ["", "+", "x", "99999999999999999999"] {
        let e = s.parse::<u64>().unwrap_err().to_string();
        let k = parse_u64(s).unwrap_err();
        assert_eq!(int_error_message(k), e);
    }
}

#[test]
fn formatting_then_parsing_gives_the_number_back() {
    for n in [0u64, 9, 10, 65535, 1_700_000_000, u64::MAX] {
        assert_eq!(parse_u64(&decimal_string(n)), Ok(n));
    }
}

#[test]
fn saturating_product() {
    assert_eq!(saturating_mul(3, 1024), 3072);
    assert_eq!(saturating_mul(u64::MAX / 2, 1024), u64::MAX);
}

#[test]
fn ordering_and_sorting() {
    assert!(less("a", "b"));
    assert!(less("ab", "abc"));
    assert!(!less("b", "a"));
    assert!(!less("x", "x"));
    assert!(less("Z", "a"));
    let v = strs(&["workspace/b.txt", "workspace/a.py", "workspace/B", "workspace/a.py"]);
    let mut expected = v.clone();
    expected.sort();
    assert_eq!(sort_strings(v), expected);
}

const UNIX: HostOs = HostOs::Other;
const WIN: HostOs = HostOs::Windows;

#[test]
fn windows_path_model() {
    // prefixes and absoluteness, as `std::path` reads them on Windows
    assert!(is_absolute(WIN, r"C:\x"));
    assert!(!is_absolute(WIN, r"C:x"));
    assert!(!is_absolute(WIN, r"\x"));
    assert!(!is_absolute(WIN, "/x"));
    assert!(is_absolute(WIN, r"\\server\share\x"));
    assert!(is_absolute(WIN, r"\\server\share"));
    assert!(!is_absolute(WIN, r"\\server"));
    assert!(is_absolute(WIN, r"\\?\C:\x"));
    assert!(is_absolute(WIN, r"\\?\UNC\srv\sh\x"));
    assert!(is_absolute(WIN, r"\\.\COM1"));
    assert!(has_prefix_component(WIN, r"C:x"));
    assert!(!has_prefix_component(UNIX, r"C:\x"));
    // separators
    assert_eq!(path_segments(WIN, r"C:\a/b\.\c\"), strs(&["a", "b", "c"]));
    assert_eq!(path_segments(WIN, r"\\?\C:\a\.\b/c"), strs(&["a", ".", "b/c"]));
    assert!(has_parent_component(WIN, r"..\..\x"));
    assert!(!has_parent_component(UNIX, r"..\..\x"));
    assert_eq!(file_name(WIN, r"C:\k\p\a.JSON").as_deref(), Some("a.JSON"));
    assert_eq!(file_name(UNIX, r"C:\k\p\a.json").as_deref(), Some(r"C:\k\p\a.json"));
    assert_eq!(extension(WIN, r"C:\k\p\a.tar.gz").as_deref(), Some("gz"));
    // joining
    assert_eq!(join(WIN, r"C:\k", "a"), r"C:\k\a");
    assert_eq!(join(WIN, r"C:\k\", "a"), r"C:\k\a");
    assert_eq!(join(WIN, "C:", "a"), "C:a");
    assert_eq!(join(WIN, r"C:\k", r"\x"), r"C:\x");
    assert_eq!(join(WIN, r"C:\k", r"D:\x"), r"D:\x");
    assert_eq!(join(WIN, r"C:\k", r"D:x"), r"D:x");
    assert_eq!(join(WIN, r"\\?\C:\k", r"a\..\b"), r"\\?\C:\k\b");
    assert_eq!(join(WIN, r"\\?\C:\k", r"\x"), r"\\?\C:\x");
    // prefixes compare by drive letter, whatever its case
    assert!(path_starts_with(WIN, r"c:\k\a", r"C:\k"));
    assert!(path_starts_with(WIN, r"\\?\C:\k\a.json", r"\\?\C:\k"));
    assert!(!path_starts_with(WIN, r"\\?\C:\k\a.json", r"C:\k"));
    assert!(!path_starts_with(WIN, r"C:\kdev\a", r"C:\k"));
    assert!(path_starts_with(WIN, r"C:\k/a", r"C:/k"));
    assert!(path_starts_with(WIN, r"x", ""));
}

#[test]
fn path_model_matches_std_on_unix() {
    let samples = [
        "a/b", "/a/b", "a//b/", "./a", ".", "..", "a/../b", "/", "", "a/.", "a/./b", "x.tar.gz", ".bashrc",
        "dir/file.", "a/b.py/", "/k/p/.kdev/recovery/1-x.json",
    ];
    for s in samples {
        let p = std::path::Path::new(s);
        assert_eq!(is_absolute(UNIX, s), p.is_absolute(), "absolute {:?}", s);
        let parent = p.components().any(|c| matches!(c, std::path::Component::ParentDir));
        assert_eq!(has_parent_component(UNIX, s), parent, "parent {:?}", s);
        assert_eq!(file_name(UNIX, s).as_deref(), p.file_name().and_then(|n| n.to_str()), "file name {:?}", s);
        assert_eq!(extension(UNIX, s).as_deref(), p.extension().and_then(|n| n.to_str()), "extension {:?}", s);
        for base in ["/k", "k", "/k/", ""] {
            assert_eq!(join(UNIX, base, s), std::path::Path::new(base).join(s).to_string_lossy(), "join {:?} {:?}", base, s);
        }
        for base in ["/k", "/k/p", "k", "./k", "/", "", "k/..", "."] {
            assert_eq!(path_starts_with(UNIX, s, base), p.starts_with(base), "starts_with {:?} {:?}", s, base);
        }
    }
    assert_eq!(path_segments(UNIX, "/a//b/./c/"), strs(&["a", "b", "c"]));
    assert_eq!(split_on("a//b", '/'), strs(&["a", "", "b"]));
    assert_eq!(name_ext("archive.tar.gz").as_deref(), Some("gz"));
    assert_eq!(name_ext(".hidden"), None);
}
