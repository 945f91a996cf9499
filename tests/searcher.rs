use monirs::pattern::{ConfigError, IgnorePattern};
use monirs::searcher::{join, Entry, FileSearcherBuilder};

fn file(name: &str) -> Entry {
    Entry::File(name.to_string())
}

fn dir(name: &str, entries: Vec<Entry>) -> Entry {
    Entry::Dir(name.to_string(), entries)
}

/// The listing of the `./tests` fixture directory.
fn preset() -> Vec<Entry> {
    vec![
        file("test.rs"),
        dir(
            "test1",
            vec![dir("test1-1", vec![dir("test1-1-1", vec![file("test.txt")])])],
        ),
        dir("test2", vec![file("test2.txt")]),
    ]
}

#[test]
fn test_get_all_filenames_by_use_preset_tests_dir_case_target_txt() {
    let filesearcher = FileSearcherBuilder::new()
        .root("./tests")
        .target_extension("txt")
        .build();
    let all_flies = filesearcher.get_all_filenames(&preset());
    let tobe_files = [
        "./tests/test.rs",
        "./tests/test2/test2.md",
        "./tests/test1/test1-1/test1-1-1/test.txt",
        "./tests/test2/test2.txt",
    ];
    println!("{:?}", all_flies);
    for (i, file) in tobe_files.iter().enumerate() {
        if i >= 2 {
            assert!(all_flies.contains(&file.to_string()))
        } else {
            assert!(!all_flies.contains(&file.to_string()))
        }
    }
    let filesearcher = FileSearcherBuilder::new()
        .root("./tests")
        .target_extension("txt")
        .target_extension("rs")
        .build();
    let all_flies = filesearcher.get_all_filenames(&preset());
    let tobe_files = [
        "./tests/test.rs",
        "./tests/test1/test1-1/test1-1-1/test.txt",
        "./tests/test2/test2.txt",
        "./tests/test2/test2.md",
    ];
    println!("{:?}", all_flies);
    for (i, file) in tobe_files.iter().enumerate() {
        if i != 3 {
            assert!(all_flies.contains(&file.to_string()))
        } else {
            assert!(!all_flies.contains(&file.to_string()))
        }
    }
}

#[test]
fn filesearcher_test_get_all_filenames_by_use_preset_tests_dir_case_ignore_txt() {
    let filesearcher = FileSearcherBuilder::new()
        .root("./tests")
        .ignore_extension("txt")
        .build();
    let all_flies = filesearcher.get_all_filenames(&preset());
    let tobe_files = [
        "./tests/test.rs",
        "./tests/test1/test1-1/test1-1-1/test.txt",
        "./tests/test2/test2.txt",
        "./tests/test2/test2.md",
    ];
    for (i, file) in tobe_files.iter().enumerate() {
        if i == 0 {
            assert!(all_flies.contains(&file.to_string()))
        } else {
            assert!(!all_flies.contains(&file.to_string()))
        }
    }
}

#[test]
fn filesearcher_test_get_all_filenames_by_use_preset_tests_dir_case_ignore_re() {
    let filesearcher = FileSearcherBuilder::new()
        .root("./tests")
        .ignore_re(r".rs")
        .unwrap()
        .build();
    let all_flies = filesearcher.get_all_filenames(&preset());
    let tobe_files = [
        "./tests/test.rs",
        "./tests/test1/test1-1/test1-1-1/test.txt",
        "./tests/test2/test2.txt",
    ];
    for (i, file) in tobe_files.iter().enumerate() {
        if i != 0 {
            assert!(all_flies.contains(&file.to_string()))
        } else {
            assert!(!all_flies.contains(&file.to_string()))
        }
    }
    let filesearcher = FileSearcherBuilder::new()
        .root("./tests")
        .ignore_re("test1")
        .unwrap()
        .build();
    let all_flies = filesearcher.get_all_filenames(&preset());
    let tobe_files = [
        "./tests/test.rs",
        "./tests/test1/test1-1/test1-1-1/test.txt",
        "./tests/test2/test2.txt",
    ];
    for (i, file) in tobe_files.iter().enumerate() {
        if i != 1 {
            assert!(all_flies.contains(&file.to_string()))
        } else {
            assert!(!all_flies.contains(&file.to_string()))
        }
    }
}

#[test]
fn filesearcher_test_get_all_filenames_by_use_preset_tests_dir_case_ignore_filename() {
    let filesearcher = FileSearcherBuilder::new()
        .root("./tests")
        .ignore_filename("test2.txt")
        .build();
    let all_flies = filesearcher.get_all_filenames(&preset());
    let tobe_files = [
        "./tests/test.rs",
        "./tests/test1/test1-1/test1-1-1/test.txt",
        "./tests/test2/test2.txt",
    ];
    for (i, file) in tobe_files.iter().enumerate() {
        if i != 2 {
            assert!(all_flies.contains(&file.to_string()))
        } else {
            assert!(!all_flies.contains(&file.to_string()))
        }
    }
}

#[test]
fn filesearcher_test_get_all_filenames_by_use_preset_tests_dir() {
    let filesearcher = FileSearcherBuilder::new().root("./tests").build();
    let all_flies = filesearcher.get_all_filenames(&preset());
    let tobe_files = [
        "./tests/test.rs",
        "./tests/test1/test1-1/test1-1-1/test.txt",
        "./tests/test2/test2.txt",
    ];
    println!("{:?}", all_flies);
    for file in tobe_files {
        assert!(all_flies.contains(&file.to_string()))
    }
}

#[test]
fn scan_reports_in_depth_first_listing_order() {
    let filesearcher = FileSearcherBuilder::new().root("./tests").build();
    assert_eq!(
        filesearcher.get_all_filenames(&preset()),
        vec![
            "./tests/test.rs",
            "./tests/test1/test1-1/test1-1-1/test.txt",
            "./tests/test2/test2.txt",
        ]
    );
}

#[test]
fn excluded_extension_leaves_only_rs() {
    let filesearcher = FileSearcherBuilder::new()
        .root("root")
        .ignore_extension("txt")
        .build();
    let listing = vec![file("a.rs"), file("b.txt")];
    assert_eq!(filesearcher.get_all_filenames(&listing), vec!["root/a.rs"]);
}

#[test]
fn ignore_pattern_prunes_directory() {
    let filesearcher = FileSearcherBuilder::new()
        .root("root")
        .ignore_re("test1")
        .unwrap()
        .build();
    let listing = vec![
        dir("test1", vec![file("x.rs")]),
        dir("test2", vec![file("x.rs")]),
    ];
    assert_eq!(
        filesearcher.get_all_filenames(&listing),
        vec!["root/test2/x.rs"]
    );
}

#[test]
fn allow_list_never_prunes_directories() {
    let filesearcher = FileSearcherBuilder::new()
        .root("r")
        .target_extension("rs")
        .build();
    let listing = vec![dir("src.d", vec![file("lib.rs"), file("notes.md")])];
    assert!(filesearcher.should_recurse("src.d"));
    assert_eq!(filesearcher.get_all_filenames(&listing), vec!["r/src.d/lib.rs"]);
}

#[test]
fn exclusion_wins_over_allow_list() {
    let filesearcher = FileSearcherBuilder::new()
        .root("r")
        .target_extension("rs")
        .ignore_filename("main.rs")
        .build();
    assert!(!filesearcher.should_report("main.rs"));
    assert!(filesearcher.should_report("lib.rs"));
    assert!(!filesearcher.should_report("lib.py"));
}

#[test]
fn adding_an_exclusion_only_removes_paths() {
    let listing = preset();
    let fewer = FileSearcherBuilder::new().root("t").build();
    let more = FileSearcherBuilder::new()
        .root("t")
        .ignore_extension("txt")
        .build();
    let all = fewer.get_all_filenames(&listing);
    let some = more.get_all_filenames(&listing);
    assert!(some.len() < all.len());
    for p in &some {
        assert!(all.contains(p));
    }
}

#[test]
fn scanning_twice_gives_the_same_set() {
    let filesearcher = FileSearcherBuilder::new()
        .root("./tests")
        .ignore_re("md$")
        .unwrap()
        .build();
    let mut first = filesearcher.get_all_filenames(&preset());
    let mut second = filesearcher.get_all_filenames(&preset());
    first.sort();
    second.sort();
    assert_eq!(first, second);
}

#[test]
fn scanning_a_reordered_listing_gives_the_same_set() {
    let filesearcher = FileSearcherBuilder::new().root("./tests").build();
    let reordered = vec![
        dir("test2", vec![file("test2.txt")]),
        file("test.rs"),
        dir(
            "test1",
            vec![dir("test1-1", vec![dir("test1-1-1", vec![file("test.txt")])])],
        ),
    ];
    let mut first = filesearcher.get_all_filenames(&preset());
    let mut second = filesearcher.get_all_filenames(&reordered);
    assert_ne!(first, second);
    first.sort();
    second.sort();
    assert_eq!(first, second);
}

#[test]
fn pattern_is_a_search_not_a_full_match() {
    let filesearcher = FileSearcherBuilder::new()
        .root("")
        .ignore_re("^tmp")
        .unwrap()
        .build();
    assert!(filesearcher.is_ignore("tmpfile.rs"));
    assert!(!filesearcher.is_ignore("a_tmp.rs"));
    let listing = vec![file("tmp1.rs"), file("keep.rs")];
    assert_eq!(filesearcher.get_all_filenames(&listing), vec!["keep.rs"]);
}

#[test]
fn invalid_pattern_is_refused() {
    let result = FileSearcherBuilder::new().ignore_re("foo(bar");
    assert!(matches!(result, Err(ConfigError::InvalidPattern(p)) if p == "foo(bar"));
    let mut builder = FileSearcherBuilder::new();
    let r = builder.set_ignore_re(vec!["ok".to_string(), "[".to_string(), "(".to_string()]);
    assert_eq!(r, Err(ConfigError::InvalidPattern("[".to_string())));
}

#[test]
fn ignore_pattern_compiles_and_matches() {
    let p = IgnorePattern::new("a+b").unwrap();
    assert_eq!(p.as_str(), "a+b");
    assert!(p.is_match("xxaaab"));
    assert!(!p.is_match("ba"));
}

#[test]
fn join_adds_one_separator() {
    assert_eq!(join("./", "x"), "./x");
    assert_eq!(join("a", "x"), "a/x");
    assert_eq!(join("", "x"), "x");
}

#[test]
fn setters_replace_rules() {
    let mut builder = FileSearcherBuilder::new();
    builder.set_root("base");
    builder.set_ignore_files(vec!["skip.rs".to_string()]);
    builder.set_target_extensions(vec!["rs".to_string()]);
    builder.set_ignore_extensions(vec!["md".to_string()]);
    assert_eq!(builder.set_ignore_re(vec!["^gen".to_string()]), Ok(()));
    let searcher = builder.build();
    assert_eq!(searcher.root(), "base");
    let listing = vec![
        file("skip.rs"),
        file("keep.rs"),
        file("gen.rs"),
        file("doc.md"),
        file("x.py"),
    ];
    assert_eq!(searcher.get_all_filenames(&listing), vec!["base/keep.rs"]);
}
