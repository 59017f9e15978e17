use brain::models::FileRecord;
use brain::scanner::{file_record, hex_string, is_source_entry, needs_update, scan_changed, sha256_digest};

fn rec(path: &str, hash: &str) -> FileRecord {
    FileRecord { id: None, path: path.to_string(), hash: hash.to_string(), content: String::new() }
}

#[test]
fn record_holds_cleaned_text_and_its_sha256() {
    let r = file_record("src/a.rs".to_string(), "abc // note\n");
    assert_eq!(r.id, None);
    assert_eq!(r.path, "src/a.rs");
    assert_eq!(r.content, "abc");
    assert_eq!(r.hash, "ba7816bf8f01cfea414140de5dae2223b00361a396177a9cb410ff61f20015ad");
}

#[test]
fn hash_of_empty_text() {
    let r = file_record("x.rs".to_string(), "   \n");
    assert_eq!(r.content, "");
    assert_eq!(r.hash, "e3b0c44298fc1c149afbf4c8996fb92427ae41e4649b934ca495991b7852b855");
    assert_eq!(r.hash.len(), 64);
}

#[test]
fn hex_digits_are_lowercase_pairs() {
    assert_eq!(hex_string(&[0x00, 0x0a, 0xff, 0x10]), "000aff10");
    assert_eq!(hex_string(&[]), "");
    assert_eq!(sha256_digest(b"abc").len(), 32);
}

#[test]
fn only_rust_files_outside_target_are_scanned() {
    assert!(is_source_entry(true, Some("rs"), "./src/main.rs"));
    assert!(!is_source_entry(false, Some("rs"), "./src/main.rs"));
    assert!(!is_source_entry(true, Some("toml"), "./Cargo.toml"));
    assert!(!is_source_entry(true, None, "./Makefile"));
    assert!(!is_source_entry(true, Some("rs"), "./target/debug/build.rs"));
    assert!(!is_source_entry(true, Some("rs"), "./my_targets/a.rs"));
}

#[test]
fn files_are_stored_again_when_their_hash_changed() {
    assert!(needs_update(&None, "abc"));
    assert!(needs_update(&Some("abd".to_string()), "abc"));
    assert!(!needs_update(&Some("abc".to_string()), "abc"));
}

#[test]
fn change_filter_keeps_answered_files_in_order() {
    let files = vec![rec("a.rs", "1"), rec("b.rs", "2"), rec("c.rs", "3")];
    let kept = scan_changed(files, |path: &str, hash: &str| path != "b.rs" && hash != "9");
    let paths: Vec<&str> = kept.iter().map(|f| f.path.as_str()).collect();
    assert_eq!(paths, vec!["a.rs", "c.rs"]);
}

#[test]
fn change_filter_extremes() {
    let files = vec![rec("a.rs", "1"), rec("b.rs", "2")];
    assert_eq!(scan_changed(files.clone(), |_: &str, _: &str| true).len(), 2);
    assert!(scan_changed(files, |_: &str, _: &str| false).is_empty());
}

#[test]
fn comment_edits_keep_the_hash() {
    let a = file_record("a.rs".to_string(), "fn f() {}\n// old note\n");
    let b = file_record("a.rs".to_string(), "  fn f() {} /* new note */\n\n");
    assert_eq!(a.content, b.content);
    assert_eq!(a.hash, b.hash);
    let c = file_record("a.rs".to_string(), "fn g() {}\n");
    assert_ne!(a.hash, c.hash);
}
