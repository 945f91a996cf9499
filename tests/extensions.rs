use monirs::extensions::Extension;
use monirs::text::{replace, split_char, trim};

#[test]
fn extends_test_case_rs() {
    let extension = Extension::new("test/test.rs").unwrap();
    assert!(extension.is_match("test/test/test.rs"));
    assert!(!extension.is_match("test/test/test.py"));
}

#[test]
fn extensions_test_case_rs() {
    let extension = Extension::new("test/test.rs").unwrap();
    assert!(extension.is_match("test/test/test.rs"));
    assert!(!extension.is_match("test/test/test.py"));
}

#[test]
fn classify_known_and_unknown_extensions() {
    assert_eq!(Extension::classify("a/b/c.md"), Extension::Md);
    assert_eq!(Extension::classify("a/b/c.tsx"), Extension::Tsx);
    assert_eq!(Extension::classify("a/b/c.zzz"), Extension::Other);
    assert_eq!(Extension::classify("a/b/README"), Extension::Other);
    assert_eq!(Extension::classify("a/.gitignore"), Extension::Other);
    assert_eq!(Extension::classify("a.rs/readme"), Extension::Other);
    assert_eq!(Extension::classify("archive.tar.json"), Extension::Json);
}

#[test]
fn classify_is_case_sensitive() {
    assert_eq!(Extension::classify("Main.RS"), Extension::Other);
    assert_eq!(Extension::classify("main.rs"), Extension::Rs);
}

#[test]
fn path_without_extension_is_other_for_new() {
    assert_eq!(Extension::new("test/README"), Ok(Extension::Other));
    assert_eq!(Extension::new("Makefile"), Ok(Extension::Other));
    assert_eq!(Extension::new("test/.hidden"), Ok(Extension::Other));
}

#[test]
fn path_without_extension_matches_other_only() {
    assert!(Extension::Other.is_match("Makefile"));
    assert!(!Extension::Txt.is_match("Makefile"));
    assert!(Extension::Other.is_match("notes.unknown"));
}

#[test]
fn names_round_trip() {
    assert_eq!(Extension::str_to_self("xlsx"), Extension::Xlsx);
    assert_eq!(Extension::Xlsx.as_str(), "xlsx");
    assert_eq!(Extension::from("java"), Extension::Java);
    assert_eq!(Extension::from("JAVA"), Extension::Other);
    assert_eq!(Extension::Other.as_str(), "other");
}

#[test]
fn replace_every_occurrence() {
    assert_eq!(replace("a-b--c", "-", "*"), "a*b**c");
    assert_eq!(replace("aaa", "aa", "b"), "ba");
    assert_eq!(replace("none here", "xyz", "q"), "none here");
    assert_eq!(replace("", "x", "y"), "");
}

#[test]
fn split_keeps_empty_pieces() {
    assert_eq!(split_char("a,,b", ','), vec!["a", "", "b"]);
    assert_eq!(split_char("", ','), vec![""]);
    assert_eq!(split_char("abc", ','), vec!["abc"]);
}

#[test]
fn trim_removes_unicode_white_space() {
    assert_eq!(trim("  a b \t\n"), "a b");
    assert_eq!(trim("\u{3000}x\u{a0}"), "x");
    assert_eq!(trim("   "), "");
}
