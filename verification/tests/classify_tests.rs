use lsa::classify::{extension_listed, is_source_file, name_listed};

#[test]
fn source_extensions_are_accepted() {
    assert!(is_source_file("main.rs"));
    assert!(is_source_file("src/lib/deep/module.py"));
    assert!(is_source_file("index.html"));
    assert!(is_source_file("Cargo.toml"));
    assert!(is_source_file("notes.md"));
    assert!(is_source_file("script.ps1"));
}

#[test]
fn unlisted_extensions_are_rejected() {
    assert!(!is_source_file("b.png"));
    assert!(!is_source_file("archive.tar.gz"));
    assert!(!is_source_file("program.exe"));
    assert!(!is_source_file("data.bin"));
}

#[test]
fn extension_match_ignores_case() {
    assert!(is_source_file("MAIN.RS"));
    assert!(is_source_file("Readme.Md"));
    assert!(is_source_file("a.Json"));
    assert_eq!(is_source_file("x.PNG"), is_source_file("x.png"));
    assert_eq!(is_source_file("x.Rs"), is_source_file("x.rs"));
}

#[test]
fn repeated_classification_agrees() {
    let paths = ["a.rs", "b.png", "Makefile", ".gitignore", "dir/x", ""];
    for p in paths {
        assert_eq!(is_source_file(p), is_source_file(p));
    }
}

#[test]
fn reserved_names_without_extension() {
    assert!(is_source_file("Dockerfile"));
    assert!(is_source_file("Makefile"));
    assert!(is_source_file("README"));
    assert!(is_source_file("LICENSE"));
    assert!(is_source_file("changelog"));
    assert!(is_source_file(".gitignore"));
    assert!(is_source_file(".gitmodules"));
    assert!(is_source_file(".env"));
    assert!(is_source_file("sub/dir/Makefile"));
    assert!(!is_source_file("binary"));
    assert!(!is_source_file(".hidden"));
}

#[test]
fn extension_decides_before_name() {
    assert!(!is_source_file("makefile.bak"));
    assert!(!is_source_file("readme."));
    assert!(is_source_file("package.json"));
}

#[test]
fn paths_without_a_final_component() {
    assert!(!is_source_file(""));
    assert!(!is_source_file("/"));
    assert!(!is_source_file(".."));
    assert!(!is_source_file("src/.."));
    assert!(!is_source_file("."));
}

#[test]
fn trailing_separators_are_passed_over() {
    assert!(is_source_file("main.rs/"));
    assert!(is_source_file("main.rs/."));
    assert!(is_source_file("./main.rs"));
}

#[test]
fn lowercase_comes_from_the_unicode_tables() {
    // The Kelvin sign lowers to the letter k.
    assert!(is_source_file("a.\u{212A}t"));
    assert!(!is_source_file("a.\u{212B}t"));
}

#[test]
fn listed_texts_are_matched_exactly() {
    assert!(extension_listed("rs"));
    assert!(!extension_listed("RS"));
    assert!(!extension_listed(""));
    assert!(!extension_listed("rss"));
    assert!(name_listed("dockerfile"));
    assert!(!name_listed("Dockerfile"));
    assert!(name_listed("cargo.toml"));
    assert!(!name_listed(""));
}
