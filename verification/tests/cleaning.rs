use brain::cleaner::{compact_lines, trim_fat};
use brain::skeleton::{extract_signatures, skeleton_from_matches};

#[test]
fn comments_and_blank_lines_are_removed() {
    let src = "fn main() { // hi\n  /* block\n comment */ let x = 1; \n\n}\n";
    assert_eq!(trim_fat(src), "fn main() {\nlet x = 1;\n}");
}

#[test]
fn doc_comments_are_removed() {
    let src = "//! crate doc\n/// item doc\npub struct A;\n    //// four\n";
    assert_eq!(trim_fat(src), "pub struct A;");
}

#[test]
fn empty_and_comment_only_sources_clean_to_nothing() {
    assert_eq!(trim_fat(""), "");
    assert_eq!(trim_fat("/* a */\n// b\n   \n"), "");
}

#[test]
fn compaction_trims_and_drops_empty_lines() {
    assert_eq!(compact_lines("  a  \r\n\n\t b\n"), "a\nb");
    assert_eq!(compact_lines(""), "");
}

#[test]
fn signatures_of_items_at_line_start() {
    let src = "pub fn scan_project(dir: &str) -> Vec<FileRecord> {\nstruct Foo {\n impl Foo {\nenum Kind<T, U> { A }\n";
    assert_eq!(extract_signatures(src), "  pub fn scan_project...\n  struct Foo...\n  enum Kind<T, U>...");
}

#[test]
fn no_signatures_give_empty_skeleton() {
    assert_eq!(extract_signatures("let x = 1;\n"), "");
}

#[test]
fn skeleton_cuts_at_brace_and_drops_empty_signatures() {
    let matches = vec!["impl Foo { x ".to_string(), "   ".to_string(), "type T".to_string()];
    assert_eq!(skeleton_from_matches(&matches), "  impl Foo...\n  type T...");
}
