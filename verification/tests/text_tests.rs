use lsa::paths::{contains_component, extension_start, file_name_bounds};
use lsa::text::{chars_of, decimal_string, is_whitespace, str_byte_len, string_of_range, text_eq};

fn file_name(p: &str) -> Option<String> {
    let v = chars_of(p);
    file_name_bounds(&v).map(|(s, e)| string_of_range(&v, s, e))
}

fn extension(p: &str) -> Option<String> {
    let v = chars_of(p);
    let (s, e) = file_name_bounds(&v)?;
    extension_start(&v, s, e).map(|x| string_of_range(&v, x, e))
}

#[test]
fn numerals_are_decimal() {
    assert_eq!(decimal_string(0), "0");
    assert_eq!(decimal_string(7), "7");
    assert_eq!(decimal_string(10), "10");
    assert_eq!(decimal_string(1234567890), "1234567890");
    assert_eq!(decimal_string(u64::MAX), u64::MAX.to_string());
}

#[test]
fn byte_lengths_count_the_encoding() {
    assert_eq!(str_byte_len(""), 0);
    assert_eq!(str_byte_len("abc"), 3);
    assert_eq!(str_byte_len("é"), 2);
    assert_eq!(str_byte_len("✓"), 3);
    assert_eq!(str_byte_len("\u{1F4A1}"), 4);
    assert_eq!(str_byte_len("\u{f07c} "), 4);
}

#[test]
fn characters_round_trip() {
    let v = chars_of("héllo ✓");
    assert_eq!(v.len(), 7);
    assert_eq!(string_of_range(&v, 0, v.len()), "héllo ✓");
    assert_eq!(string_of_range(&v, 1, 3), "él");
    assert_eq!(string_of_range(&v, 3, 3), "");
}

#[test]
fn texts_are_compared_by_content() {
    assert!(text_eq("", ""));
    assert!(text_eq("abc", "abc"));
    assert!(!text_eq("abc", "abd"));
    assert!(!text_eq("abc", "ab"));
    assert!(!text_eq("ab", "abc"));
}

#[test]
fn white_space_is_the_unicode_property() {
    let mut n: u32 = 0;
    while n <= 0x10FFFF {
        if let Some(c) = char::from_u32(n) {
            assert_eq!(is_whitespace(c), c.is_whitespace(), "U+{:X}", n);
        }
        n += 1;
    }
}

#[test]
fn final_components_follow_path_rules() {
    let samples = [
        "", "/", ".", "..", "a", "a/", "a/.", "a/./", "a//", "./a", "a/b", "a/b/..", "/a/b.rs",
        "a/..", "../a", "./.", "a/./b", ".hidden", "a.b.c", "dir.d/file", "x/.git/config", "...",
        "a/...", "..a", "a..", "/.", "//", "a/.//./",
    ];
    for s in samples {
        let expected = std::path::Path::new(s).file_name().map(|n| n.to_str().unwrap().to_string());
        assert_eq!(file_name(s), expected, "path {:?}", s);
    }
}

#[test]
fn extensions_follow_path_rules() {
    let samples = [
        "", "a", "a.rs", "a.tar.gz", ".hidden", ".hidden.txt", "a.", "a..", "..a", "dir.d/file",
        "dir/file.RS", "x/.git/config", "foo.txt/.", "foo.txt/..", "...", "a.b/", ".", "..",
    ];
    for s in samples {
        let expected = std::path::Path::new(s).extension().map(|n| n.to_str().unwrap().to_string());
        assert_eq!(extension(s), expected, "path {:?}", s);
    }
}

#[test]
fn components_are_whole_segments() {
    let git = chars_of(".git");
    let samples = [
        "", ".git", "/.git", ".git/", "a/.git/b", "a/.gitignore", "a/x.git", ".github/x", "a/.git", "a/.gitx/.git",
        ".git.git", "a//.git//b",
    ];
    for s in samples {
        let expected = std::path::Path::new(s).components().any(|c| c.as_os_str() == ".git");
        assert_eq!(contains_component(&chars_of(s), &git), expected, "path {:?}", s);
    }
}
