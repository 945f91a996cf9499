use monirs::extensions::Extension;
use monirs::store::{FileStore, IgnoringFileStore};

#[test]
fn test_case_use_igonre_extends() {
    let mut fs = IgnoringFileStore::new();
    fs.add_ignore_extends(Extension::Txt);
    fs.add_ignore_extends(Extension::Csv);
    fs.insert("test/test.py".to_string(), 0);
    fs.insert("test/test.txt".to_string(), 0);
    fs.insert("test/test.csv".to_string(), 0);
    fs.insert("test/test/test/test.txt".to_string(), 0);
    fs.insert("test/test/test/test.csv".to_string(), 0);
    let mut tobe = IgnoringFileStore::new();
    tobe.insert("test/test.py".to_string(), 0);
    tobe.add_ignore_extends(Extension::Txt);
    tobe.add_ignore_extends(Extension::Csv);
    assert_eq!(fs, tobe);
}

#[test]
fn new_path_then_settled() {
    let mut fs = FileStore::new();
    assert!(fs.is_new("a.rs"));
    assert!(!fs.is_modify("a.rs", 10));
    fs.insert("a.rs".to_string(), 10);
    assert!(!fs.is_new("a.rs"));
    assert!(!fs.is_modify("a.rs", 10));
    assert_eq!(fs.get("a.rs"), Some(10));
}

#[test]
fn size_change_is_modify_exactly_once() {
    let mut fs = FileStore::new();
    fs.insert("f.txt".to_string(), 5);
    assert!(fs.is_modify("f.txt", 8));
    fs.update("f.txt".to_string(), 8);
    assert!(!fs.is_modify("f.txt", 8));
    assert!(!fs.is_new("f.txt"));
    assert_eq!(fs.get("f.txt"), Some(8));
}

#[test]
fn insert_does_not_overwrite() {
    let mut fs = FileStore::new();
    fs.insert("x".to_string(), 1);
    fs.insert("x".to_string(), 2);
    assert_eq!(fs.get("x"), Some(1));
    assert!(fs.is_modify("x", 2));
}

#[test]
fn update_does_not_add() {
    let mut fs = FileStore::new();
    fs.update("x".to_string(), 1);
    assert!(fs.is_new("x"));
    assert_eq!(fs.get("x"), None);
}

#[test]
fn equality_ignores_insertion_order() {
    let mut a = FileStore::new();
    a.insert("p".to_string(), 1);
    a.insert("q".to_string(), 2);
    let mut b = FileStore::new();
    b.insert("q".to_string(), 2);
    b.insert("p".to_string(), 1);
    assert_eq!(a, b);
    b.update("p".to_string(), 3);
    assert_ne!(a, b);
}

#[test]
fn ignoring_stores_compare_their_lists() {
    let mut a = IgnoringFileStore::new();
    a.insert("p".to_string(), 1);
    let mut c = IgnoringFileStore::new();
    c.insert("p".to_string(), 1);
    assert_eq!(a, c);
    c.add_ignore_path("target".to_string());
    assert_ne!(a, c);
}

#[test]
fn insert_writes_every_new_path() {
    let mut fs = FileStore::new();
    fs.insert("a.txt".to_string(), 0);
    fs.insert("b.csv".to_string(), 4);
    assert!(!fs.is_new("a.txt"));
    assert!(!fs.is_modify("a.txt", 0));
    assert_eq!(fs.get("b.csv"), Some(4));
}

#[test]
fn ignored_extension_is_not_inserted() {
    let mut fs = IgnoringFileStore::new();
    fs.add_ignore_extends(Extension::Md);
    assert!(fs.is_ignore("docs/readme.md"));
    fs.insert("docs/readme.md".to_string(), 3);
    assert!(fs.is_new("docs/readme.md"));
}
