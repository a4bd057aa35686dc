use orbitbuild::path::FsPath;
use orbitbuild::text::{decimal_text, join_texts, pad, starts_with};

#[test]
fn paths_are_joined_with_one_separator() {
    let path = FsPath::from_text("/tmp");
    assert_eq!(path.join("a"), FsPath::from_text("/tmp/a"));
    assert_eq!(FsPath::from_text("/tmp/").join("a"), FsPath::from_text("/tmp/a"));
    assert_eq!(FsPath::from_text("").join("a"), FsPath::from_text("a"));
    assert_eq!(path.join("/etc"), FsPath::from_text("/etc"));
    assert_eq!(path.join(""), FsPath::from_text("/tmp/"));
    assert_eq!(path.clone(), path);
}

#[test]
fn paths_need_not_be_text() {
    assert_eq!(FsPath::from_text("/é").to_str(), Some("/é"));
    let odd = FsPath { bytes: vec![97, 255, 98] };
    assert_eq!(odd.to_str(), None);
    assert_eq!(odd.display(), "a\u{fffd}b");
}

#[test]
fn texts_are_padded_and_joined() {
    assert_eq!(pad("é", 3), "é  ");
    assert_eq!(pad("long", 3), "long");
    assert_eq!(join_texts(&vec!["a".to_string(), "b".to_string()], ", "), "a, b");
    assert_eq!(join_texts(&vec![], ","), "");
    assert_eq!(decimal_text(0), "0");
    assert_eq!(decimal_text(1234567890), "1234567890");
    assert!(starts_with("linux/arm64", "linux/"));
    assert!(!starts_with("linux", "linux/"));
}
